//! The round-trip law of the type grammar: parsing the canonical text of
//! a parsed type gives the same type back.
//!
//! `lemma_type_round_trip` states the law for whole texts; it rests on
//! `lemma_parse_canon`, the induction showing that the grammar reads the
//! canonical text of any type the parser can produce back to that type.

use crate::grammar::{parse_type_spec, sp_base_type, sp_dots_then_close, sp_fields,
    sp_fields_items, sp_params, sp_params_items, sp_pointer_tail, sp_quoted, sp_quoted_rest,
    sp_sized_tail, sp_target_item, sp_target_params, sp_target_tail, sp_type, sp_word_type};
use crate::printer::{canon_digit, canon_fn_params, canon_float, canon_number,
    canon_target_param, canon_target_params, canon_type, canon_type_list, canon_type_rest};
use crate::scan::{digit_val, digits_end, digits_value, ident_end, is_digit_char, is_ident_char,
    is_word_x, is_ws_char, max_number, skip_ws, word_at, ws_count};
use crate::types::{AddressSpaceV, TargetExtensionParameterV, TypeV};
use vstd::prelude::*;

verus! {

broadcast use crate::scan::skip_ws_in_bounds, crate::scan::ident_end_in_bounds,
    crate::scan::digits_end_in_bounds;

/// The shape invariant of every type the parser can produce: numbers fit,
/// widths and lengths are positive, quoted names hold no quote, and a
/// function's return type is not itself a function type (the grammar
/// cannot express one).
pub open spec fn parsed_type_wf(t: TypeV) -> bool
    decreases t,
{
    match t {
        TypeV::Void => true,
        TypeV::Function { return_type, parameters, .. } => !(*return_type is Function)
            && parsed_type_wf(*return_type) && parsed_types_wf(parameters),
        TypeV::Integer { bit_width } => 1 <= bit_width <= max_number(),
        TypeV::FloatingPoint { .. } => true,
        TypeV::AMX => true,
        TypeV::MMX => true,
        TypeV::Pointer { address_space } => match address_space {
            AddressSpaceV::Numbered(n) => n <= max_number(),
            AddressSpaceV::Named(name) => quote_free(name),
        },
        TypeV::TargetExtension { name, parameters } => quote_free(name)
            && parsed_target_params_wf(parameters),
        TypeV::Vector { length, element_type, .. } => 1 <= length <= max_number()
            && parsed_type_wf(*element_type),
        TypeV::Label => true,
        TypeV::Token => true,
        TypeV::Metadata => true,
        TypeV::Array { length, element_type } => 1 <= length <= max_number() && parsed_type_wf(
            *element_type,
        ),
        TypeV::Structure { types, .. } => parsed_types_wf(types),
        TypeV::OpaqueStructure => true,
    }
}

pub open spec fn parsed_types_wf(ts: Seq<TypeV>) -> bool
    decreases ts,
{
    ts.len() == 0 || (parsed_types_wf(ts.drop_last()) && parsed_type_wf(ts.last()))
}

pub open spec fn parsed_target_params_wf(ps: Seq<TargetExtensionParameterV>) -> bool
    decreases ps,
{
    ps.len() == 0 || (parsed_target_params_wf(ps.drop_last()) && match ps.last() {
        TargetExtensionParameterV::Type(t) => parsed_type_wf(t),
        TargetExtensionParameterV::Integer(n) => n <= max_number(),
    })
}

/// No character of the name is a quote.
pub open spec fn quote_free(name: Seq<char>) -> bool {
    forall|i: int| 0 <= i < name.len() ==> name[i] != '"'
}

/// `parsed_types_wf` holds pointwise.
pub proof fn lemma_parsed_types_wf(ts: Seq<TypeV>)
    ensures
        parsed_types_wf(ts) <==> (forall|i: int|
            0 <= i < ts.len() ==> parsed_type_wf(#[trigger] ts[i])),
    decreases ts,
{
    if ts.len() > 0 {
        lemma_parsed_types_wf(ts.drop_last());
        if parsed_types_wf(ts) {
            assert forall|i: int| 0 <= i < ts.len() implies parsed_type_wf(#[trigger] ts[i]) by {
                if i < ts.len() - 1 {
                    assert(ts.drop_last()[i] == ts[i]);
                } else {
                    assert(ts[i] == ts.last());
                }
            }
        } else {
            if forall|i: int| 0 <= i < ts.len() ==> parsed_type_wf(#[trigger] ts[i]) {
                assert(forall|i: int|
                    0 <= i < ts.drop_last().len() ==> parsed_type_wf(
                        #[trigger] ts.drop_last()[i],
                    ));
                assert(parsed_type_wf(ts.last()));
            }
        }
    }
}

/// A digit run with a non-digit after it ends exactly there.
pub proof fn lemma_digits_end_run(s: Seq<char>, pos: int, end: int)
    requires
        0 <= pos <= end <= s.len(),
        forall|i: int| pos <= i < end ==> is_digit_char(s[i]),
        end == s.len() || !is_digit_char(s[end]),
    ensures
        digits_end(s, pos) == end,
    decreases end - pos,
{
    if pos < end {
        lemma_digits_end_run(s, pos + 1, end);
    }
}

/// An identifier run with a non-identifier character after it ends
/// exactly there.
pub proof fn lemma_ident_end_run(s: Seq<char>, pos: int, end: int)
    requires
        0 <= pos <= end <= s.len(),
        forall|i: int| pos <= i < end ==> is_ident_char(s[i]),
        end == s.len() || !is_ident_char(s[end]),
    ensures
        ident_end(s, pos) == end,
    decreases end - pos,
{
    if pos < end {
        lemma_ident_end_run(s, pos + 1, end);
    }
}

/// The canonical text of a number is a nonempty digit run.
pub proof fn lemma_canon_number_digits(n: nat)
    ensures
        canon_number(n).len() >= 1,
        forall|i: int| 0 <= i < canon_number(n).len() ==> is_digit_char(#[trigger] canon_number(
            n,
        )[i]),
    decreases n,
{
    if n >= 10 {
        lemma_canon_number_digits(n / 10);
    }
}

/// Digits written by `canon_number` read back as the same number.
pub proof fn lemma_canon_number_value(s: Seq<char>, pos: int, n: nat)
    requires
        0 <= pos,
        pos + canon_number(n).len() <= s.len(),
        s.subrange(pos, pos + canon_number(n).len()) == canon_number(n),
    ensures
        digits_value(s, pos, pos + canon_number(n).len()) == n,
    decreases n,
{
    let ghost l = canon_number(n).len() as int;
    if n < 10 {
        assert(s[pos] == canon_number(n)[0]);
        assert(digit_val(canon_digit(n)) == n);
        assert(digits_value(s, pos, pos) == 0);
    } else {
        lemma_canon_number_digits(n / 10);
        assert(s.subrange(pos, pos + l - 1) =~= canon_number(n / 10)) by {
            assert(forall|i: int|
                0 <= i < l - 1 ==> s.subrange(pos, pos + l)[i] == #[trigger] canon_number(n)[i]);
        }
        lemma_canon_number_value(s, pos, n / 10);
        assert(s[pos + l - 1] == canon_number(n)[l - 1]);
        assert(canon_number(n)[l - 1] == canon_digit(n % 10));
        assert(digit_val(canon_digit(n % 10)) == n % 10);
        assert((n / 10) * 10 + n % 10 == n) by (nonlinear_arith);
    }
}

/// A number written by `canon_number`, followed by a non-digit, scans
/// and evaluates exactly.
pub proof fn lemma_number_at(s: Seq<char>, pos: int, n: nat)
    requires
        0 <= pos,
        pos + canon_number(n).len() <= s.len(),
        s.subrange(pos, pos + canon_number(n).len()) == canon_number(n),
        pos + canon_number(n).len() == s.len() || !is_digit_char(
            s[pos + canon_number(n).len()],
        ),
    ensures
        digits_end(s, pos) == pos + canon_number(n).len(),
        digits_value(s, pos, pos + canon_number(n).len()) == n,
        is_digit_char(s[pos]),
    decreases n,
{
    let ghost l = canon_number(n).len() as int;
    lemma_canon_number_digits(n);
    assert forall|i: int| pos <= i < pos + l implies is_digit_char(s[i]) by {
        assert(s[i] == s.subrange(pos, pos + l)[i - pos]);
        assert(is_digit_char(canon_number(n)[i - pos]));
    }
    lemma_digits_end_run(s, pos, pos + l);
    lemma_canon_number_value(s, pos, n);
    assert(s[pos] == canon_number(n)[0]);
}

/// A keyword word written at `pos`, with a non-identifier character
/// after it, scans exactly.
pub proof fn lemma_word_at(s: Seq<char>, pos: int, w: Seq<char>)
    requires
        0 <= pos,
        pos + w.len() <= s.len(),
        s.subrange(pos, pos + w.len()) == w,
        forall|i: int| 0 <= i < w.len() ==> is_ident_char(w[i]),
        pos + w.len() == s.len() || !is_ident_char(s[pos + w.len()]),
    ensures
        ident_end(s, pos) == pos + w.len(),
        word_at(s, pos) == w,
{
    assert forall|i: int| pos <= i < pos + w.len() implies is_ident_char(s[i]) by {
        assert(s[i] == s.subrange(pos, pos + w.len())[i - pos]);
        assert(is_ident_char(w[i - pos]));
    }
    lemma_ident_end_run(s, pos, pos + w.len());
    assert(word_at(s, pos) =~= w);
}

/// A quote-free name between quotes is read back exactly.
pub proof fn lemma_quoted_at(s: Seq<char>, pos: int, name: Seq<char>)
    requires
        0 <= pos < s.len(),
        s[pos] == '"',
        pos + 1 + name.len() < s.len(),
        s.subrange(pos + 1, pos + 1 + name.len()) == name,
        quote_free(name),
        s[pos + 1 + name.len()] == '"',
    ensures
        sp_quoted(s, pos) == Some((name, pos + name.len() + 2)),
{
    lemma_quoted_rest(s, pos + 1, pos + 1, name);
}

pub proof fn lemma_quoted_rest(s: Seq<char>, start: int, at: int, name: Seq<char>)
    requires
        0 <= start <= at <= start + name.len(),
        start + name.len() < s.len(),
        s.subrange(start, start + name.len()) == name,
        quote_free(name),
        s[start + name.len()] == '"',
    ensures
        sp_quoted_rest(s, start, at) == Some((name, start + name.len() + 1)),
    decreases start + name.len() - at,
{
    assert(forall|i: int|
        start <= i < start + name.len() ==> s[i] == #[trigger] s.subrange(
            start,
            start + name.len(),
        )[i - start]);
    if at < start + name.len() {
        assert(s[at] == name[at - start]);
        assert(s[at] != '"');
        lemma_quoted_rest(s, start, at + 1, name);
    } else {
        assert(s.subrange(start, at) =~= name);
    }
}

/// The canonical text of `t` stands at `pos` in `s`.
pub open spec fn canon_at(s: Seq<char>, pos: int, t: TypeV) -> bool {
    0 <= pos && pos + canon_type(t).len() <= s.len() && s.subrange(
        pos,
        pos + canon_type(t).len(),
    ) == canon_type(t)
}

/// What may follow a complete type in a canonical context: the end of
/// the text or a list delimiter.
pub open spec fn follow_type_ok(s: Seq<char>, p: int) -> bool {
    p == s.len() || (0 <= p < s.len() && (s[p] == ',' || s[p] == ')' || s[p] == ']' || s[p] == '>'
        || s[p] == '}'))
}

/// What may follow a complete base type: a type delimiter, or the
/// parameter list opening a function type (possibly after one space).
pub open spec fn follow_base_ok(s: Seq<char>, p: int) -> bool {
    follow_type_ok(s, p) || (0 <= p < s.len() && s[p] == '(') || (0 <= p && p + 1 < s.len() && s[p]
        == ' ' && s[p + 1] == '(')
}

/// A character that can follow a base type is never an identifier
/// character.
pub proof fn lemma_follow_not_ident(s: Seq<char>, p: int)
    requires
        follow_base_ok(s, p),
    ensures
        p == s.len() || !is_ident_char(s[p]),
        p == s.len() || !is_digit_char(s[p]),
{
}

/// Every character from `i` on is an identifier character.
pub open spec fn ident_run(w: Seq<char>, i: int) -> bool
    decreases w.len() - i,
{
    if i < 0 || i >= w.len() {
        true
    } else {
        is_ident_char(w[i]) && ident_run(w, i + 1)
    }
}

/// `ident_run` gives the characters pointwise.
pub proof fn lemma_ident_run(w: Seq<char>, i: int)
    requires
        ident_run(w, 0),
        0 <= i < w.len(),
    ensures
        is_ident_char(w[i]),
    decreases i,
{
    lemma_ident_run_from(w, 0, i);
}

pub proof fn lemma_ident_run_from(w: Seq<char>, at: int, i: int)
    requires
        0 <= at <= i < w.len(),
        ident_run(w, at),
    ensures
        is_ident_char(w[i]),
    decreases i - at,
{
    if at < i {
        lemma_ident_run_from(w, at + 1, i);
    }
}

/// A character within a piece of a matched range.
pub proof fn lemma_char_at(s: Seq<char>, pos: int, w: Seq<char>, k: int)
    requires
        0 <= pos,
        pos + w.len() <= s.len(),
        s.subrange(pos, pos + w.len()) == w,
        0 <= k < w.len(),
    ensures
        s[pos + k] == w[k],
{
    assert(s.subrange(pos, pos + w.len())[k] == w[k]);
}

/// A matched concatenation splits into its two matched pieces.
pub proof fn lemma_split_at(s: Seq<char>, pos: int, a: Seq<char>, b: Seq<char>)
    requires
        0 <= pos,
        pos + a.len() + b.len() <= s.len(),
        s.subrange(pos, pos + a.len() + b.len()) == a + b,
    ensures
        s.subrange(pos, pos + a.len()) == a,
        s.subrange(pos + a.len(), pos + a.len() + b.len()) == b,
{
    assert forall|i: int| 0 <= i < a.len() implies s.subrange(pos, pos + a.len())[i] == a[i] by {
        assert(s.subrange(pos, pos + a.len() + b.len())[i] == (a + b)[i]);
    }
    assert(s.subrange(pos, pos + a.len()) =~= a);
    assert forall|i: int|
        0 <= i < b.len() implies s.subrange(pos + a.len(), pos + a.len() + b.len())[i] == b[i] by {
        assert(s.subrange(pos, pos + a.len() + b.len())[a.len() + i] == (a + b)[a.len() + i]);
        assert(s.subrange(pos, pos + a.len() + b.len())[a.len() + i] == s[pos + a.len() + i]);
        assert((a + b)[a.len() + i] == b[i]);
        assert(s[pos + a.len() + i] == b[i]);
        assert(s.subrange(pos + a.len(), pos + a.len() + b.len())[i] == s[pos + a.len() + i]);
    }
    assert(s.subrange(pos + a.len(), pos + a.len() + b.len()) =~= b);
}

/// The keywords of the grammar are identifier words.
pub proof fn lemma_keyword_runs()
    ensures
        ident_run("void"@, 0),
        ident_run("half"@, 0),
        ident_run("bfloat"@, 0),
        ident_run("float"@, 0),
        ident_run("double"@, 0),
        ident_run("fp128"@, 0),
        ident_run("x86_fp80"@, 0),
        ident_run("ppc_fp128"@, 0),
        ident_run("x86_amx"@, 0),
        ident_run("x86_mmx"@, 0),
        ident_run("label"@, 0),
        ident_run("token"@, 0),
        ident_run("metadata"@, 0),
        ident_run("opaque"@, 0),
        ident_run("ptr"@, 0),
        ident_run("target"@, 0),
        ident_run("addrspace"@, 0),
        ident_run("vscale"@, 0),
{
    reveal_strlit("void");
    reveal_strlit("half");
    reveal_strlit("bfloat");
    reveal_strlit("float");
    reveal_strlit("double");
    reveal_strlit("fp128");
    reveal_strlit("x86_fp80");
    reveal_strlit("ppc_fp128");
    reveal_strlit("x86_amx");
    reveal_strlit("x86_mmx");
    reveal_strlit("label");
    reveal_strlit("token");
    reveal_strlit("metadata");
    reveal_strlit("opaque");
    reveal_strlit("ptr");
    reveal_strlit("target");
    reveal_strlit("addrspace");
    reveal_strlit("vscale");
    reveal_with_fuel(ident_run, 11);
}

/// The first character of a nonempty concatenation is the first
/// character of its head.
pub proof fn lemma_head_concat(a: Seq<char>, b: Seq<char>)
    requires
        a.len() >= 1,
    ensures
        (a + b).len() >= 1,
        (a + b)[0] == a[0],
{
}

/// The first character of a canonical type: a lower-case letter or an
/// opening bracket.
pub proof fn lemma_canon_head(t: TypeV)
    ensures
        canon_type(t).len() >= 1,
        ('a' <= canon_type(t)[0] && canon_type(t)[0] <= 'z') || canon_type(t)[0] == '<'
            || canon_type(t)[0] == '[' || canon_type(t)[0] == '{',
    decreases t,
{
    reveal_strlit("void");
    reveal_strlit("half");
    reveal_strlit("bfloat");
    reveal_strlit("float");
    reveal_strlit("double");
    reveal_strlit("fp128");
    reveal_strlit("x86_fp80");
    reveal_strlit("ppc_fp128");
    reveal_strlit("x86_amx");
    reveal_strlit("x86_mmx");
    reveal_strlit("label");
    reveal_strlit("token");
    reveal_strlit("metadata");
    reveal_strlit("opaque");
    reveal_strlit("ptr");
    reveal_strlit("target");
    reveal_strlit("addrspace");
    reveal_strlit("vscale");
    reveal_strlit("i");
    reveal_strlit("<");
    reveal_strlit(">");
    reveal_strlit("[");
    reveal_strlit("]");
    reveal_strlit("{");
    reveal_strlit("}");
    reveal_strlit("<{");
    reveal_strlit("}>");
    reveal_strlit(" x ");
    reveal_strlit(" (");
    reveal_strlit("(");
    reveal_strlit(")");
    reveal_strlit("\"");
    reveal_strlit(" ");
    match t {
        TypeV::Function { return_type, parameters, has_varargs } => {
            lemma_canon_head(*return_type);
            let crt = canon_type(*return_type);
            let cps = canon_fn_params(parameters, has_varargs);
            assert(canon_type(t) == crt + " ("@ + cps + ")"@);
            lemma_head_concat(crt, " ("@);
            lemma_head_concat(crt + " ("@, cps);
            lemma_head_concat(crt + " ("@ + cps, ")"@);
            assert(canon_type(t)[0] == crt[0]);
        },
        TypeV::Integer { bit_width } => {
            lemma_head_concat("i"@, canon_number(bit_width));
            assert(canon_type(t)[0] == "i"@[0]);
        },
        TypeV::Pointer { address_space } => {
            match address_space {
                AddressSpaceV::Numbered(n) => {
                    if n != 0 {
                        lemma_head_concat("ptr"@, " "@);
                        lemma_head_concat("ptr"@ + " "@, "addrspace"@);
                        lemma_head_concat("ptr"@ + " "@ + "addrspace"@, "("@);
                        lemma_head_concat(
                            "ptr"@ + " "@ + "addrspace"@ + "("@,
                            canon_number(n),
                        );
                        lemma_head_concat(
                            "ptr"@ + " "@ + "addrspace"@ + "("@ + canon_number(n),
                            ")"@,
                        );
                        assert(canon_type(t)[0] == "ptr"@[0]);
                    }
                },
                AddressSpaceV::Named(name) => {
                    lemma_head_concat("ptr"@, " "@);
                    lemma_head_concat("ptr"@ + " "@, "addrspace"@);
                    lemma_head_concat("ptr"@ + " "@ + "addrspace"@, "("@);
                    lemma_head_concat("ptr"@ + " "@ + "addrspace"@ + "("@, "\""@);
                    lemma_head_concat("ptr"@ + " "@ + "addrspace"@ + "("@ + "\""@, name);
                    lemma_head_concat(
                        "ptr"@ + " "@ + "addrspace"@ + "("@ + "\""@ + name,
                        "\""@,
                    );
                    lemma_head_concat(
                        "ptr"@ + " "@ + "addrspace"@ + "("@ + "\""@ + name + "\""@,
                        ")"@,
                    );
                    assert(canon_type(t)[0] == "ptr"@[0]);
                },
            }
        },
        TypeV::TargetExtension { name, parameters } => {
            lemma_head_concat("target"@, "("@);
            lemma_head_concat("target"@ + "("@, "\""@);
            lemma_head_concat("target"@ + "("@ + "\""@, name);
            lemma_head_concat("target"@ + "("@ + "\""@ + name, "\""@);
            lemma_head_concat(
                "target"@ + "("@ + "\""@ + name + "\""@,
                canon_target_params(parameters, 0),
            );
            lemma_head_concat(
                "target"@ + "("@ + "\""@ + name + "\""@ + canon_target_params(parameters, 0),
                ")"@,
            );
            assert(canon_type(t)[0] == "target"@[0]);
        },
        TypeV::Vector { length, element_type, is_scalable } => {
            if is_scalable {
                lemma_head_concat("<"@, "vscale"@);
                lemma_head_concat("<"@ + "vscale"@, " x "@);
                lemma_head_concat("<"@ + "vscale"@ + " x "@, canon_number(length));
                lemma_head_concat(
                    "<"@ + "vscale"@ + " x "@ + canon_number(length),
                    " x "@,
                );
                lemma_head_concat(
                    "<"@ + "vscale"@ + " x "@ + canon_number(length) + " x "@,
                    canon_type(*element_type),
                );
                lemma_head_concat(
                    "<"@ + "vscale"@ + " x "@ + canon_number(length) + " x "@ + canon_type(
                        *element_type,
                    ),
                    ">"@,
                );
                assert(canon_type(t)[0] == "<"@[0]);
            } else {
                lemma_head_concat("<"@, canon_number(length));
                lemma_head_concat("<"@ + canon_number(length), " x "@);
                lemma_head_concat(
                    "<"@ + canon_number(length) + " x "@,
                    canon_type(*element_type),
                );
                lemma_head_concat(
                    "<"@ + canon_number(length) + " x "@ + canon_type(*element_type),
                    ">"@,
                );
                assert(canon_type(t)[0] == "<"@[0]);
            }
        },
        TypeV::Array { length, element_type } => {
            lemma_head_concat("["@, canon_number(length));
            lemma_head_concat("["@ + canon_number(length), " x "@);
            lemma_head_concat(
                "["@ + canon_number(length) + " x "@,
                canon_type(*element_type),
            );
            lemma_head_concat(
                "["@ + canon_number(length) + " x "@ + canon_type(*element_type),
                "]"@,
            );
            assert(canon_type(t)[0] == "["@[0]);
        },
        TypeV::Structure { types, is_packed } => {
            if is_packed {
                lemma_head_concat("<{"@, canon_type_list(types));
                lemma_head_concat("<{"@ + canon_type_list(types), "}>"@);
                assert(canon_type(t)[0] == "<{"@[0]);
            } else {
                lemma_head_concat("{"@, canon_type_list(types));
                lemma_head_concat("{"@ + canon_type_list(types), "}"@);
                assert(canon_type(t)[0] == "{"@[0]);
            }
        },
        _ => {},
    }
}

/// The keywords of the grammar are pairwise distinct; for those of equal
/// length a differing character is the witness.
pub proof fn lemma_keywords_distinct()
    ensures
        "void"@ != "half"@,
        "float"@ != "fp128"@,
        "float"@ != "label"@,
        "float"@ != "token"@,
        "fp128"@ != "label"@,
        "fp128"@ != "token"@,
        "label"@ != "token"@,
        "bfloat"@ != "double"@,
        "bfloat"@ != "opaque"@,
        "double"@ != "opaque"@,
        "x86_amx"@ != "x86_mmx"@,
        "x86_fp80"@ != "metadata"@,
        "target"@ != "bfloat"@,
        "target"@ != "double"@,
        "target"@ != "opaque"@,
{
    reveal_strlit("void");
    reveal_strlit("half");
    reveal_strlit("bfloat");
    reveal_strlit("float");
    reveal_strlit("double");
    reveal_strlit("fp128");
    reveal_strlit("x86_fp80");
    reveal_strlit("ppc_fp128");
    reveal_strlit("x86_amx");
    reveal_strlit("x86_mmx");
    reveal_strlit("label");
    reveal_strlit("token");
    reveal_strlit("metadata");
    reveal_strlit("opaque");
    reveal_strlit("target");
    assert("void"@[0] != "half"@[0]);
    assert("float"@[1] != "fp128"@[1]);
    assert("float"@[0] != "label"@[0]);
    assert("float"@[0] != "token"@[0]);
    assert("fp128"@[0] != "label"@[0]);
    assert("fp128"@[0] != "token"@[0]);
    assert("label"@[0] != "token"@[0]);
    assert("bfloat"@[0] != "double"@[0]);
    assert("bfloat"@[0] != "opaque"@[0]);
    assert("double"@[0] != "opaque"@[0]);
    assert("x86_amx"@[4] != "x86_mmx"@[4]);
    assert("x86_fp80"@[0] != "metadata"@[0]);
    assert("target"@[0] != "bfloat"@[0]);
    assert("target"@[0] != "double"@[0]);
    assert("target"@[0] != "opaque"@[0]);
}

/// The keyword a simple type prints as.
pub open spec fn simple_keyword(t: TypeV) -> Seq<char> {
    match t {
        TypeV::Void => "void"@,
        TypeV::FloatingPoint { kind } => canon_float(kind),
        TypeV::AMX => "x86_amx"@,
        TypeV::MMX => "x86_mmx"@,
        TypeV::Label => "label"@,
        TypeV::Token => "token"@,
        TypeV::Metadata => "metadata"@,
        TypeV::OpaqueStructure => "opaque"@,
        _ => Seq::empty(),
    }
}

/// Whether `t` is one of the simple keyword types.
pub open spec fn is_simple_keyword_type(t: TypeV) -> bool {
    match t {
        TypeV::Void => true,
        TypeV::FloatingPoint { .. } => true,
        TypeV::AMX => true,
        TypeV::MMX => true,
        TypeV::Label => true,
        TypeV::Token => true,
        TypeV::Metadata => true,
        TypeV::OpaqueStructure => true,
        _ => false,
    }
}

/// `ident_run` from 0 gives every character.
pub proof fn lemma_ident_run_all(w: Seq<char>)
    requires
        ident_run(w, 0),
    ensures
        forall|i: int| 0 <= i < w.len() ==> is_ident_char(w[i]),
{
    assert forall|i: int| 0 <= i < w.len() implies is_ident_char(w[i]) by {
        lemma_ident_run(w, i);
    }
}

/// Reading the canonical text of a simple keyword type gives the type
/// back.
pub proof fn lemma_canon_simple(t: TypeV, s: Seq<char>, pos: int)
    requires
        is_simple_keyword_type(t),
        canon_at(s, pos, t),
        follow_base_ok(s, pos + canon_type(t).len()),
    ensures
        sp_base_type(s, pos) == Some((t, pos + canon_type(t).len())),
{
    reveal_strlit("void");
    reveal_strlit("half");
    reveal_strlit("bfloat");
    reveal_strlit("float");
    reveal_strlit("double");
    reveal_strlit("fp128");
    reveal_strlit("x86_fp80");
    reveal_strlit("ppc_fp128");
    reveal_strlit("x86_amx");
    reveal_strlit("x86_mmx");
    reveal_strlit("label");
    reveal_strlit("token");
    reveal_strlit("metadata");
    reveal_strlit("opaque");
    reveal_strlit("ptr");
    reveal_strlit("target");
    let w = simple_keyword(t);
    assert(canon_type(t) == w);
    lemma_keyword_runs();
    lemma_keywords_distinct();
    lemma_ident_run_all(w);
    lemma_follow_not_ident(s, pos + w.len());
    lemma_word_at(s, pos, w);
    lemma_char_at(s, pos, w, 0);
    assert(is_ident_char(s[pos]) && !is_digit_char(s[pos]));
    assert(s[pos] != '<' && s[pos] != '[' && s[pos] != '{');
    assert(sp_base_type(s, pos) == sp_word_type(s, pos));
    match t {
        TypeV::FloatingPoint { kind } => match kind {
            crate::types::FloatingPointKind::Binary16 => {
                assert(sp_word_type(s, pos) == Some((t, pos + w.len())));
            },
            crate::types::FloatingPointKind::Brain => {
                assert(sp_word_type(s, pos) == Some((t, pos + w.len())));
            },
            crate::types::FloatingPointKind::Binary32 => {
                assert(sp_word_type(s, pos) == Some((t, pos + w.len())));
            },
            crate::types::FloatingPointKind::Binary64 => {
                assert(sp_word_type(s, pos) == Some((t, pos + w.len())));
            },
            crate::types::FloatingPointKind::Binary128 => {
                assert(sp_word_type(s, pos) == Some((t, pos + w.len())));
            },
            crate::types::FloatingPointKind::X86Fp80 => {
                assert(sp_word_type(s, pos) == Some((t, pos + w.len())));
            },
            crate::types::FloatingPointKind::PpcFp128 => {
                assert(sp_word_type(s, pos) == Some((t, pos + w.len())));
            },
        },
        TypeV::Void => {
            assert(sp_word_type(s, pos) == Some((t, pos + w.len())));
        },
        TypeV::AMX => {
            assert(sp_word_type(s, pos) == Some((t, pos + w.len())));
        },
        TypeV::MMX => {
            assert(sp_word_type(s, pos) == Some((t, pos + w.len())));
        },
        TypeV::Label => {
            assert(sp_word_type(s, pos) == Some((t, pos + w.len())));
        },
        TypeV::Token => {
            assert(sp_word_type(s, pos) == Some((t, pos + w.len())));
        },
        TypeV::Metadata => {
            assert(sp_word_type(s, pos) == Some((t, pos + w.len())));
        },
        _ => {
            assert(sp_word_type(s, pos) == Some((t, pos + w.len())));
        },
    }
}

/// Reading the canonical text of an integer type gives the type back.
pub proof fn lemma_canon_integer(t: TypeV, s: Seq<char>, pos: int)
    requires
        t is Integer,
        parsed_type_wf(t),
        canon_at(s, pos, t),
        follow_base_ok(s, pos + canon_type(t).len()),
    ensures
        sp_base_type(s, pos) == Some((t, pos + canon_type(t).len())),
{
    reveal_strlit("void");
    reveal_strlit("half");
    reveal_strlit("bfloat");
    reveal_strlit("float");
    reveal_strlit("double");
    reveal_strlit("fp128");
    reveal_strlit("x86_fp80");
    reveal_strlit("ppc_fp128");
    reveal_strlit("x86_amx");
    reveal_strlit("x86_mmx");
    reveal_strlit("label");
    reveal_strlit("token");
    reveal_strlit("metadata");
    reveal_strlit("opaque");
    reveal_strlit("ptr");
    reveal_strlit("target");
    reveal_strlit("i");
    let width = t->Integer_bit_width;
    let num = canon_number(width);
    let l = canon_type(t).len() as int;
    assert(canon_type(t) == "i"@ + num);
    assert(l == 1 + num.len());
    lemma_split_at(s, pos, "i"@, num);
    assert(s[pos] == 'i') by {
        lemma_char_at(s, pos, "i"@, 0);
    }
    lemma_canon_number_digits(width);
    lemma_follow_not_ident(s, pos + l);
    lemma_number_at(s, pos + 1, width);
    // the whole word is an identifier run ending at the follow character
    assert forall|i: int| pos <= i < pos + l implies is_ident_char(s[i]) by {
        if i > pos {
            lemma_char_at(s, pos + 1, num, i - pos - 1);
        }
    }
    lemma_ident_end_run(s, pos, pos + l);
    assert(word_at(s, pos) =~= s.subrange(pos, pos + l));
    let w = word_at(s, pos);
    assert(w.len() >= 2);
    assert(w[0] == 'i');
    // no keyword begins with the letter i
    assert(w != "void"@ && w != "half"@ && w != "bfloat"@ && w != "float"@ && w != "double"@ && w
        != "fp128"@ && w != "x86_fp80"@ && w != "ppc_fp128"@ && w != "x86_amx"@ && w != "x86_mmx"@
        && w != "label"@ && w != "token"@ && w != "metadata"@ && w != "opaque"@ && w != "ptr"@ && w
        != "target"@);
    assert(digits_end(s, pos + 1) == pos + l);
    assert(digits_value(s, pos + 1, pos + l) == width);
    assert(sp_base_type(s, pos) == sp_word_type(s, pos));
    assert(sp_word_type(s, pos) == Some((t, pos + l)));
}

/// No whitespace stands at `pos`, so `skip_ws` stays put.
pub proof fn lemma_skip_ws_none(s: Seq<char>, pos: int)
    requires
        pos == s.len() || !is_ws_char(s[pos]),
    ensures
        skip_ws(s, pos) == pos,
{
    assert(ws_count(s, pos) == 0);
}

/// One space stands at `pos`, so `skip_ws` advances past exactly it.
pub proof fn lemma_skip_ws_one(s: Seq<char>, pos: int)
    requires
        0 <= pos < s.len(),
        is_ws_char(s[pos]),
        pos + 1 == s.len() || !is_ws_char(s[pos + 1]),
    ensures
        skip_ws(s, pos) == pos + 1,
{
    assert(ws_count(s, pos + 1) == 0);
    assert(ws_count(s, pos) == 1);
}

/// Reading the canonical text of a pointer type gives the type back.
#[verifier::rlimit(100)]
pub proof fn lemma_canon_pointer(t: TypeV, s: Seq<char>, pos: int)
    requires
        t is Pointer,
        parsed_type_wf(t),
        canon_at(s, pos, t),
        follow_base_ok(s, pos + canon_type(t).len()),
    ensures
        sp_base_type(s, pos) == Some((t, pos + canon_type(t).len())),
{
    reveal_strlit("void");
    reveal_strlit("half");
    reveal_strlit("bfloat");
    reveal_strlit("float");
    reveal_strlit("double");
    reveal_strlit("fp128");
    reveal_strlit("x86_fp80");
    reveal_strlit("ppc_fp128");
    reveal_strlit("x86_amx");
    reveal_strlit("x86_mmx");
    reveal_strlit("label");
    reveal_strlit("token");
    reveal_strlit("metadata");
    reveal_strlit("opaque");
    reveal_strlit("ptr");
    reveal_strlit("target");
    reveal_strlit("addrspace");
    reveal_strlit(" ");
    reveal_strlit("(");
    reveal_strlit(")");
    reveal_strlit("\"");
    let l = canon_type(t).len() as int;
    lemma_keyword_runs();
    lemma_ident_run_all("ptr"@);
    lemma_ident_run_all("addrspace"@);
    let space = t->Pointer_address_space;
    match space {
        AddressSpaceV::Numbered(n) => {
            if n == 0 {
                assert(canon_type(t) == "ptr"@);
                lemma_follow_not_ident(s, pos + 3);
                lemma_word_at(s, pos, "ptr"@);
                lemma_char_at(s, pos, "ptr"@, 0);
                assert(sp_base_type(s, pos) == sp_word_type(s, pos));
                // after the word, no addrspace clause can begin
                let e = pos + 3;
                if e == s.len() {
                    lemma_skip_ws_none(s, e);
                    assert(sp_pointer_tail(s, e) == Some((t, e)));
                } else if s[e] == ' ' {
                    lemma_skip_ws_one(s, e);
                    assert(ident_end(s, e + 1) == e + 1) by {
                        lemma_ident_end_run(s, e + 1, e + 1);
                    }
                    assert(word_at(s, e + 1) =~= Seq::<char>::empty());
                    assert(word_at(s, e + 1) != "addrspace"@);
                    assert(sp_pointer_tail(s, e) == Some((t, e)));
                } else {
                    lemma_skip_ws_none(s, e);
                    assert(ident_end(s, e) == e) by {
                        lemma_ident_end_run(s, e, e);
                    }
                    assert(word_at(s, e) =~= Seq::<char>::empty());
                    assert(word_at(s, e) != "addrspace"@);
                    assert(sp_pointer_tail(s, e) == Some((t, e)));
                }
                assert(sp_word_type(s, pos) == Some((t, pos + l)));
            } else {
                let num = canon_number(n);
                let head = "ptr"@ + " "@ + "addrspace"@ + "("@;
                assert(canon_type(t) == head + num + ")"@);
                assert(head.len() == 14);
                lemma_split_at(s, pos, head + num, ")"@);
                lemma_split_at(s, pos, head, num);
                lemma_split_at(s, pos, "ptr"@ + " "@ + "addrspace"@, "("@);
                lemma_split_at(s, pos, "ptr"@ + " "@, "addrspace"@);
                lemma_split_at(s, pos, "ptr"@, " "@);
                lemma_char_at(s, pos, "ptr"@, 0);
                lemma_char_at(s, pos + 3, " "@, 0);
                lemma_char_at(s, pos + 13, "("@, 0);
                lemma_char_at(s, pos + 14 + num.len(), ")"@, 0);
                lemma_word_at(s, pos, "ptr"@);
                assert(sp_base_type(s, pos) == sp_word_type(s, pos));
                let e = pos + 3;
                lemma_skip_ws_one(s, e);
                lemma_word_at(s, e + 1, "addrspace"@);
                lemma_skip_ws_none(s, pos + 13);
                lemma_canon_number_digits(n);
                lemma_number_at(s, pos + 14, n);
                lemma_skip_ws_none(s, pos + 14);
                lemma_skip_ws_none(s, pos + 14 + num.len());
                assert(sp_pointer_tail(s, e) == Some((t, pos + l)));
                assert(sp_word_type(s, pos) == Some((t, pos + l)));
            }
        },
        AddressSpaceV::Named(name) => {
            let head = "ptr"@ + " "@ + "addrspace"@ + "("@ + "\""@;
            assert(canon_type(t) == head + name + "\""@ + ")"@);
            assert(head.len() == 15);
            lemma_split_at(s, pos, head + name + "\""@, ")"@);
            lemma_split_at(s, pos, head + name, "\""@);
            lemma_split_at(s, pos, head, name);
            lemma_split_at(s, pos, "ptr"@ + " "@ + "addrspace"@ + "("@, "\""@);
            lemma_split_at(s, pos, "ptr"@ + " "@ + "addrspace"@, "("@);
            lemma_split_at(s, pos, "ptr"@ + " "@, "addrspace"@);
            lemma_split_at(s, pos, "ptr"@, " "@);
            lemma_char_at(s, pos, "ptr"@, 0);
            lemma_char_at(s, pos + 3, " "@, 0);
            lemma_char_at(s, pos + 13, "("@, 0);
            lemma_char_at(s, pos + 14, "\""@, 0);
            lemma_char_at(s, pos + 15 + name.len(), "\""@, 0);
            lemma_char_at(s, pos + 16 + name.len(), ")"@, 0);
            lemma_word_at(s, pos, "ptr"@);
            assert(sp_base_type(s, pos) == sp_word_type(s, pos));
            let e = pos + 3;
            lemma_skip_ws_one(s, e);
            lemma_word_at(s, e + 1, "addrspace"@);
            lemma_skip_ws_none(s, pos + 13);
            lemma_skip_ws_none(s, pos + 14);
            assert(!is_digit_char(s[pos + 14]));
            lemma_quoted_at(s, pos + 14, name);
            lemma_skip_ws_none(s, pos + 16 + name.len());
            assert(sp_pointer_tail(s, e) == Some((t, pos + l)));
            assert(sp_word_type(s, pos) == Some((t, pos + l)));
        },
    }
}

/// Reading `length x element` up to the closing character gives the
/// pair back.
#[verifier::rlimit(100)]
pub proof fn lemma_canon_sized_tail(
    el: TypeV,
    n: nat,
    close: char,
    s: Seq<char>,
    q0: int,
    end: int,
)
    requires
        parsed_type_wf(el),
        1 <= n <= max_number(),
        0 <= q0,
        end < s.len(),
        end == q0 + canon_number(n).len() + 3 + canon_type(el).len(),
        s.subrange(q0, end) == canon_number(n) + " x "@ + canon_type(el),
        s[end] == close,
        close == '>' || close == ']',
    ensures
        sp_sized_tail(s, q0, close) == Some(((n, el), end + 1)),
    decreases el, 4int, 0int,
{
    reveal_strlit(" x ");
    let num = canon_number(n);
    let ln = num.len() as int;
    lemma_split_at(s, q0, num + " x "@, canon_type(el));
    lemma_split_at(s, q0, num, " x "@);
    lemma_char_at(s, q0 + ln, " x "@, 0);
    lemma_char_at(s, q0 + ln, " x "@, 1);
    lemma_char_at(s, q0 + ln, " x "@, 2);
    assert(is_ws_char(s[q0 + ln]) && s[q0 + ln + 1] == 'x' && is_ws_char(s[q0 + ln + 2]));
    lemma_canon_head(el);
    lemma_char_at(s, q0 + ln + 3, canon_type(el), 0);
    assert(!is_ws_char(s[q0 + ln + 3]));
    lemma_number_at(s, q0, n);
    lemma_skip_ws_one(s, q0 + ln);
    assert(ident_end(s, q0 + ln + 1) == q0 + ln + 2) by {
        lemma_ident_end_run(s, q0 + ln + 1, q0 + ln + 2);
    }
    assert(is_word_x(s, q0 + ln + 1));
    lemma_skip_ws_one(s, q0 + ln + 2);
    lemma_parse_canon_type(el, s, q0 + ln + 3);
    lemma_skip_ws_none(s, end);
    assert(sp_sized_tail(s, q0, close) == Some(((n, el), end + 1)));
}

/// Reading the canonical text of a vector or array type gives the type
/// back.
#[verifier::rlimit(100)]
pub proof fn lemma_canon_vector_array(t: TypeV, s: Seq<char>, pos: int)
    requires
        t is Vector || t is Array,
        parsed_type_wf(t),
        canon_at(s, pos, t),
        follow_base_ok(s, pos + canon_type(t).len()),
    ensures
        sp_base_type(s, pos) == Some((t, pos + canon_type(t).len())),
    decreases t, 1int, 0int,
{
    reveal_strlit("<");
    reveal_strlit(">");
    reveal_strlit("[");
    reveal_strlit("]");
    reveal_strlit("vscale");
    reveal_strlit(" x ");
    let l = canon_type(t).len() as int;
    lemma_keyword_runs();
    lemma_ident_run_all("vscale"@);
    match t {
        TypeV::Array { length, element_type } => {
            let num = canon_number(length);
            let mid = num + " x "@ + canon_type(*element_type);
            assert(canon_type(t) == "["@ + mid + "]"@);
            lemma_split_at(s, pos, "["@ + mid, "]"@);
            lemma_split_at(s, pos, "["@, mid);
            lemma_char_at(s, pos, "["@, 0);
            lemma_char_at(s, pos + 1 + mid.len(), "]"@, 0);
            lemma_canon_number_digits(length);
            lemma_char_at(s, pos + 1, mid, 0);
            lemma_skip_ws_none(s, pos + 1);
            lemma_canon_sized_tail(
                *element_type,
                length,
                ']',
                s,
                pos + 1,
                pos + 1 + mid.len(),
            );
            assert(sp_base_type(s, pos) == Some((t, pos + l)));
        },
        TypeV::Vector { length, element_type, is_scalable } => {
            let num = canon_number(length);
            let mid = num + " x "@ + canon_type(*element_type);
            if is_scalable {
                assert(canon_type(t) == "<"@ + "vscale"@ + " x "@ + mid + ">"@);
                lemma_split_at(s, pos, "<"@ + "vscale"@ + " x "@ + mid, ">"@);
                lemma_split_at(s, pos, "<"@ + "vscale"@ + " x "@, mid);
                lemma_split_at(s, pos, "<"@ + "vscale"@, " x "@);
                lemma_split_at(s, pos, "<"@, "vscale"@);
                lemma_char_at(s, pos, "<"@, 0);
                lemma_char_at(s, pos + 7, " x "@, 0);
                lemma_char_at(s, pos + 7, " x "@, 1);
                lemma_char_at(s, pos + 7, " x "@, 2);
                lemma_char_at(s, pos + 10 + mid.len(), ">"@, 0);
                lemma_char_at(s, pos + 1, "vscale"@, 0);
                lemma_skip_ws_none(s, pos + 1);
                lemma_follow_not_ident(s, pos + l);
                lemma_word_at(s, pos + 1, "vscale"@);
                assert(word_at(s, pos + 1) == "vscale"@);
                assert(s[pos + 1] != '{');
                lemma_skip_ws_one(s, pos + 7);
                assert(ident_end(s, pos + 8) == pos + 9) by {
                    lemma_ident_end_run(s, pos + 8, pos + 9);
                }
                assert(is_word_x(s, pos + 8));
                lemma_canon_number_digits(length);
                lemma_char_at(s, pos + 10, mid, 0);
                assert(mid[0] == canon_number(length)[0]);
                lemma_skip_ws_one(s, pos + 9);
                lemma_canon_sized_tail(
                    *element_type,
                    length,
                    '>',
                    s,
                    pos + 10,
                    pos + 10 + mid.len(),
                );
                assert(sp_base_type(s, pos) == Some((t, pos + l)));
            } else {
                assert(canon_type(t) == "<"@ + mid + ">"@);
                lemma_split_at(s, pos, "<"@ + mid, ">"@);
                lemma_split_at(s, pos, "<"@, mid);
                lemma_char_at(s, pos, "<"@, 0);
                lemma_char_at(s, pos + 1 + mid.len(), ">"@, 0);
                lemma_canon_number_digits(length);
                lemma_char_at(s, pos + 1, mid, 0);
                assert(mid[0] == canon_number(length)[0]);
                assert(is_digit_char(s[pos + 1]));
                lemma_skip_ws_none(s, pos + 1);
                assert(s[pos + 1] != '{');
                // a digit run is not the word `vscale`
                assert(word_at(s, pos + 1).len() == 0 || word_at(s, pos + 1)[0] == s[pos + 1])
                    by {
                    if ident_end(s, pos + 1) > pos + 1 {
                        assert(word_at(s, pos + 1)[0] == s.subrange(
                            pos + 1,
                            ident_end(s, pos + 1),
                        )[0]);
                    }
                }
                assert(word_at(s, pos + 1) != "vscale"@) by {
                    assert("vscale"@[0] == 'v');
                    assert(!is_digit_char('v'));
                }
                lemma_canon_sized_tail(
                    *element_type,
                    length,
                    '>',
                    s,
                    pos + 1,
                    pos + 1 + mid.len(),
                );
                assert(sp_base_type(s, pos) == Some((t, pos + l)));
            }
        },
        _ => {},
    }
}

/// Reading a canonical comma-separated field list up to `}` gives the
/// fields back.
#[verifier::rlimit(100)]
pub proof fn lemma_canon_fields_items(ts: Seq<TypeV>, from: int, s: Seq<char>, pos: int, end: int)
    requires
        parsed_types_wf(ts),
        0 <= from < ts.len(),
        0 <= pos,
        end < s.len(),
        end == pos + canon_type(ts[from]).len() + canon_type_rest(ts, from + 1).len(),
        s.subrange(pos, end) == canon_type(ts[from]) + canon_type_rest(ts, from + 1),
        s[end] == '}',
    ensures
        sp_fields_items(s, pos) == Some((ts.skip(from), end + 1)),
    decreases ts, 4int, ts.len() - from,
{
    reveal_strlit(", ");
    lemma_parsed_types_wf(ts);
    let c0 = canon_type(ts[from]);
    let rest = canon_type_rest(ts, from + 1);
    lemma_split_at(s, pos, c0, rest);
    let p = pos + c0.len() as int;
    if from == ts.len() - 1 {
        assert(rest =~= Seq::<char>::empty());
        assert(p == end);
        lemma_parse_canon_type(ts[from], s, pos);
        lemma_skip_ws_none(s, p);
        assert(seq![ts[from]] =~= ts.skip(from));
        assert(sp_fields_items(s, pos) == Some((ts.skip(from), end + 1)));
    } else {
        let c1 = canon_type(ts[from + 1]);
        let rest2 = canon_type_rest(ts, from + 2);
        assert(rest == ", "@ + c1 + rest2);
        assert(s.subrange(p, end) =~= ", "@ + (c1 + rest2));
        lemma_split_at(s, p, ", "@, c1 + rest2);
        lemma_char_at(s, p, ", "@, 0);
        lemma_char_at(s, p, ", "@, 1);
        lemma_parse_canon_type(ts[from], s, pos);
        lemma_skip_ws_none(s, p);
        lemma_canon_head(ts[from + 1]);
        lemma_char_at(s, p + 2, c1 + rest2, 0);
        assert((c1 + rest2)[0] == c1[0]);
        lemma_skip_ws_one(s, p + 1);
        lemma_canon_fields_items(ts, from + 1, s, p + 2, end);
        assert(seq![ts[from]] + ts.skip(from + 1) =~= ts.skip(from));
        assert(sp_fields_items(s, pos) == Some((ts.skip(from), end + 1)));
    }
}

/// Reading the canonical text of a structure type gives the type back.
#[verifier::rlimit(100)]
pub proof fn lemma_canon_structure(t: TypeV, s: Seq<char>, pos: int)
    requires
        t is Structure,
        parsed_type_wf(t),
        canon_at(s, pos, t),
        follow_base_ok(s, pos + canon_type(t).len()),
    ensures
        sp_base_type(s, pos) == Some((t, pos + canon_type(t).len())),
    decreases t, 1int, 0int,
{
    reveal_strlit("{");
    reveal_strlit("}");
    reveal_strlit("<{");
    reveal_strlit("}>");
    let l = canon_type(t).len() as int;
    let ts = t->Structure_types;
    let packed = t->Structure_is_packed;
    let list = canon_type_list(ts);
    if packed {
        assert(canon_type(t) == "<{"@ + list + "}>"@);
        lemma_split_at(s, pos, "<{"@ + list, "}>"@);
        lemma_split_at(s, pos, "<{"@, list);
        lemma_char_at(s, pos, "<{"@, 0);
        lemma_char_at(s, pos, "<{"@, 1);
        lemma_char_at(s, pos + 2 + list.len(), "}>"@, 0);
        lemma_char_at(s, pos + 2 + list.len(), "}>"@, 1);
        lemma_skip_ws_none(s, pos + 1);
        let fend = pos + 2 + list.len() as int;
        if ts.len() == 0 {
            assert(list =~= Seq::<char>::empty());
            lemma_skip_ws_none(s, pos + 2);
            assert(sp_fields(s, pos + 2) == Some((Seq::<TypeV>::empty(), fend + 1)));
            assert(ts =~= Seq::<TypeV>::empty());
        } else {
            lemma_canon_head(ts[0]);
            assert(list[0] == canon_type(ts[0])[0]) by {
                assert(canon_type_list(ts) == canon_type(ts[0]) + canon_type_rest(ts, 1));
            }
            lemma_char_at(s, pos + 2, list, 0);
            lemma_skip_ws_none(s, pos + 2);
            assert(s[pos + 2] != '}');
            lemma_canon_fields_items(ts, 0, s, pos + 2, fend);
            assert(ts.skip(0) =~= ts);
            assert(sp_fields(s, pos + 2) == Some((ts, fend + 1)));
        }
        lemma_skip_ws_none(s, fend + 1);
        assert(sp_base_type(s, pos) == Some((t, pos + l)));
    } else {
        assert(canon_type(t) == "{"@ + list + "}"@);
        lemma_split_at(s, pos, "{"@ + list, "}"@);
        lemma_split_at(s, pos, "{"@, list);
        lemma_char_at(s, pos, "{"@, 0);
        lemma_char_at(s, pos + 1 + list.len(), "}"@, 0);
        let fend = pos + 1 + list.len() as int;
        if ts.len() == 0 {
            assert(list =~= Seq::<char>::empty());
            lemma_skip_ws_none(s, pos + 1);
            assert(sp_fields(s, pos + 1) == Some((Seq::<TypeV>::empty(), fend + 1)));
            assert(ts =~= Seq::<TypeV>::empty());
        } else {
            lemma_canon_head(ts[0]);
            assert(list[0] == canon_type(ts[0])[0]) by {
                assert(canon_type_list(ts) == canon_type(ts[0]) + canon_type_rest(ts, 1));
            }
            lemma_char_at(s, pos + 1, list, 0);
            lemma_skip_ws_none(s, pos + 1);
            assert(s[pos + 1] != '}');
            lemma_canon_fields_items(ts, 0, s, pos + 1, fend);
            assert(ts.skip(0) =~= ts);
            assert(sp_fields(s, pos + 1) == Some((ts, fend + 1)));
        }
        assert(sp_base_type(s, pos) == Some((t, pos + l)));
    }
}

/// Reading a canonical target parameter list up to `)` gives the
/// parameters back.
#[verifier::rlimit(100)]
pub proof fn lemma_canon_target_params(
    ps: Seq<TargetExtensionParameterV>,
    from: int,
    s: Seq<char>,
    pos: int,
    end: int,
)
    requires
        parsed_target_params_wf(ps),
        0 <= from <= ps.len(),
        0 <= pos,
        end < s.len(),
        end == pos + canon_target_params(ps, from).len(),
        s.subrange(pos, end) == canon_target_params(ps, from),
        s[end] == ')',
    ensures
        sp_target_params(s, pos) == Some((ps.skip(from), end + 1)),
    decreases ps, 5int, ps.len() - from,
{
    reveal_strlit(", ");
    lemma_parsed_target_params_wf(ps);
    if from >= ps.len() {
        assert(canon_target_params(ps, from) =~= Seq::<char>::empty());
        assert(pos == end);
        assert(ps.skip(from) =~= Seq::<TargetExtensionParameterV>::empty());
        assert(sp_target_params(s, pos) == Some((ps.skip(from), end + 1)));
    } else {
        let item = canon_target_param(ps[from]);
        let rest = canon_target_params(ps, from + 1);
        assert(canon_target_params(ps, from) == ", "@ + item + rest);
        assert(s.subrange(pos, end) =~= ", "@ + (item + rest));
        lemma_split_at(s, pos, ", "@, item + rest);
        lemma_split_at(s, pos + 2, item, rest);
        lemma_char_at(s, pos, ", "@, 0);
        lemma_char_at(s, pos, ", "@, 1);
        let q = pos + 2;
        let p = q + item.len() as int;
        let follow: char = if from + 1 < ps.len() {
            ','
        } else {
            ')'
        };
        if from + 1 < ps.len() {
            assert(rest == ", "@ + canon_target_param(ps[from + 1]) + canon_target_params(
                ps,
                from + 2,
            ));
            lemma_char_at(s, p, rest, 0);
            assert(s[p] == ',');
        } else {
            assert(rest =~= Seq::<char>::empty());
            assert(p == end);
        }
        lemma_canon_target_item(ps[from], s, q, p);
        lemma_skip_ws_one(s, pos + 1);
        lemma_skip_ws_none(s, p);
        lemma_canon_target_params(ps, from + 1, s, p, end);
        assert(seq![ps[from]] + ps.skip(from + 1) =~= ps.skip(from));
        assert(sp_target_params(s, pos) == Some((ps.skip(from), end + 1)));
    }
}

/// Reading one canonical target parameter gives it back.
#[verifier::rlimit(100)]
pub proof fn lemma_canon_target_item(
    item: TargetExtensionParameterV,
    s: Seq<char>,
    q: int,
    p: int,
)
    requires
        (match item {
            TargetExtensionParameterV::Type(t) => parsed_type_wf(t),
            TargetExtensionParameterV::Integer(n) => n <= max_number(),
        }),
        0 <= q,
        p == q + canon_target_param(item).len(),
        p < s.len(),
        s.subrange(q, p) == canon_target_param(item),
        s[p] == ',' || s[p] == ')',
    ensures
        sp_target_item(s, q) == Some((item, p)),
        !is_ws_char(s[q]),
    decreases item, 5int, 0int,
{
    match item {
        TargetExtensionParameterV::Integer(n) => {
            lemma_canon_number_digits(n);
            lemma_char_at(s, q, canon_target_param(item), 0);
            lemma_number_at(s, q, n);
            assert(is_digit_char(s[q]));
        },
        TargetExtensionParameterV::Type(ty) => {
            lemma_canon_head(ty);
            lemma_char_at(s, q, canon_target_param(item), 0);
            assert(!is_ws_char(s[q]) && !is_digit_char(s[q]));
            lemma_parse_canon_type(ty, s, q);
            assert(sp_target_item(s, q) == Some((TargetExtensionParameterV::Type(ty), p)));
        },
    }
}

/// `parsed_target_params_wf` holds exactly when it holds pointwise.
pub proof fn lemma_parsed_target_params_wf(ps: Seq<TargetExtensionParameterV>)
    ensures
        parsed_target_params_wf(ps) <==> (forall|i: int|
            0 <= i < ps.len() ==> target_param_wf(#[trigger] ps[i])),
    decreases ps,
{
    if ps.len() > 0 {
        lemma_parsed_target_params_wf(ps.drop_last());
        if parsed_target_params_wf(ps) {
            assert forall|i: int| 0 <= i < ps.len() implies target_param_wf(
                #[trigger] ps[i],
            ) by {
                if i < ps.len() - 1 {
                    assert(ps.drop_last()[i] == ps[i]);
                } else {
                    assert(ps[i] == ps.last());
                }
            }
        } else {
            if forall|i: int| 0 <= i < ps.len() ==> target_param_wf(#[trigger] ps[i]) {
                assert(forall|i: int|
                    0 <= i < ps.drop_last().len() ==> target_param_wf(
                        #[trigger] ps.drop_last()[i],
                    ));
                assert(target_param_wf(ps.last()));
            }
        }
    }
}

/// The shape invariant of one target extension parameter.
pub open spec fn target_param_wf(p: TargetExtensionParameterV) -> bool {
    match p {
        TargetExtensionParameterV::Type(t) => parsed_type_wf(t),
        TargetExtensionParameterV::Integer(n) => n <= max_number(),
    }
}

/// Reading the canonical text of a target extension type gives the type
/// back.
#[verifier::rlimit(100)]
pub proof fn lemma_canon_target(t: TypeV, s: Seq<char>, pos: int)
    requires
        t is TargetExtension,
        parsed_type_wf(t),
        canon_at(s, pos, t),
        follow_base_ok(s, pos + canon_type(t).len()),
    ensures
        sp_base_type(s, pos) == Some((t, pos + canon_type(t).len())),
    decreases t, 1int, 0int,
{
    reveal_strlit("void");
    reveal_strlit("half");
    reveal_strlit("bfloat");
    reveal_strlit("float");
    reveal_strlit("double");
    reveal_strlit("fp128");
    reveal_strlit("x86_fp80");
    reveal_strlit("ppc_fp128");
    reveal_strlit("x86_amx");
    reveal_strlit("x86_mmx");
    reveal_strlit("label");
    reveal_strlit("token");
    reveal_strlit("metadata");
    reveal_strlit("opaque");
    reveal_strlit("ptr");
    reveal_strlit("target");
    reveal_strlit("(");
    reveal_strlit(")");
    reveal_strlit("\"");
    let l = canon_type(t).len() as int;
    let name = t->TargetExtension_name;
    let ps = t->TargetExtension_parameters;
    let params = canon_target_params(ps, 0);
    let head = "target"@ + "("@ + "\""@;
    assert(canon_type(t) == head + name + "\""@ + params + ")"@);
    lemma_split_at(s, pos, head + name + "\""@ + params, ")"@);
    lemma_split_at(s, pos, head + name + "\""@, params);
    lemma_split_at(s, pos, head + name, "\""@);
    lemma_split_at(s, pos, head, name);
    lemma_split_at(s, pos, "target"@ + "("@, "\""@);
    lemma_split_at(s, pos, "target"@, "("@);
    lemma_char_at(s, pos + 6, "("@, 0);
    lemma_char_at(s, pos + 7, "\""@, 0);
    lemma_char_at(s, pos + 8 + name.len(), "\""@, 0);
    lemma_char_at(s, pos + 9 + name.len() + params.len(), ")"@, 0);
    lemma_keyword_runs();
    lemma_keywords_distinct();
    lemma_ident_run_all("target"@);
    assert(!is_ident_char(s[pos + 6]));
    lemma_word_at(s, pos, "target"@);
    lemma_char_at(s, pos, "target"@, 0);
    assert(sp_base_type(s, pos) == sp_word_type(s, pos));
    assert("target"@[0] != "bfloat"@[0]);
    assert("target"@[0] != "double"@[0]);
    assert("target"@[0] != "opaque"@[0]);
    assert("target"@ != "token"@);
    let e = pos + 6;
    lemma_skip_ws_none(s, e);
    lemma_skip_ws_none(s, pos + 7);
    lemma_quoted_at(s, pos + 7, name);
    let p = pos + 9 + name.len() as int;
    let pend = p + params.len() as int;
    reveal_strlit(", ");
    if ps.len() > 0 {
        assert(params == ", "@ + canon_target_param(ps[0]) + canon_target_params(ps, 1));
        lemma_char_at(s, p, params, 0);
        assert(params[0] == ',');
        lemma_skip_ws_none(s, p);
    } else {
        assert(params =~= Seq::<char>::empty());
        assert(p == pend);
        lemma_skip_ws_none(s, p);
    }
    lemma_canon_target_params(ps, 0, s, p, pend);
    assert(ps.skip(0) =~= ps);
    assert(sp_target_tail(s, e) == Some((t, pos + l)));
    assert(sp_word_type(s, pos) == Some((t, pos + l)));
}

/// Reading a canonical function parameter list up to `)` gives the
/// parameters back.
#[verifier::rlimit(100)]
pub proof fn lemma_canon_params_items(
    ts: Seq<TypeV>,
    has_varargs: bool,
    from: int,
    s: Seq<char>,
    pos: int,
    end: int,
)
    requires
        parsed_types_wf(ts),
        0 <= from < ts.len(),
        0 <= pos,
        end < s.len(),
        end == pos + canon_type(ts[from]).len() + canon_type_rest(ts, from + 1).len() + (
        if has_varargs {
            5int
        } else {
            0int
        }),
        s.subrange(pos, end) == canon_type(ts[from]) + canon_type_rest(ts, from + 1) + (
        if has_varargs {
            ", ..."@
        } else {
            Seq::empty()
        }),
        s[end] == ')',
    ensures
        sp_params_items(s, pos) == Some(((ts.skip(from), has_varargs), end + 1)),
    decreases ts, 4int, ts.len() - from,
{
    reveal_strlit(", ");
    reveal_strlit(", ...");
    lemma_parsed_types_wf(ts);
    let c0 = canon_type(ts[from]);
    let rest = canon_type_rest(ts, from + 1);
    let tail: Seq<char> = if has_varargs {
        ", ..."@
    } else {
        Seq::empty()
    };
    assert(s.subrange(pos, end) =~= c0 + (rest + tail));
    lemma_split_at(s, pos, c0, rest + tail);
    let p = pos + c0.len() as int;
    lemma_split_at(s, p, rest, tail);
    if from == ts.len() - 1 {
        assert(rest =~= Seq::<char>::empty());
        if has_varargs {
            lemma_char_at(s, p, ", ..."@, 0);
            lemma_char_at(s, p, ", ..."@, 1);
            lemma_char_at(s, p, ", ..."@, 2);
            lemma_char_at(s, p, ", ..."@, 3);
            lemma_char_at(s, p, ", ..."@, 4);
            lemma_parse_canon_type(ts[from], s, pos);
            lemma_skip_ws_none(s, p);
            lemma_skip_ws_one(s, p + 1);
            lemma_skip_ws_none(s, p + 5);
            assert(sp_dots_then_close(s, p + 2) == Some(end + 1));
            assert(seq![ts[from]] =~= ts.skip(from));
            assert(sp_params_items(s, pos) == Some(((ts.skip(from), true), end + 1)));
        } else {
            assert(p == end);
            lemma_parse_canon_type(ts[from], s, pos);
            lemma_skip_ws_none(s, p);
            assert(seq![ts[from]] =~= ts.skip(from));
            assert(sp_params_items(s, pos) == Some(((ts.skip(from), false), end + 1)));
        }
    } else {
        let c1 = canon_type(ts[from + 1]);
        let rest2 = canon_type_rest(ts, from + 2);
        assert(rest == ", "@ + c1 + rest2);
        assert(rest.len() == 2 + c1.len() + rest2.len());
        assert(rest + tail =~= ", "@ + (c1 + rest2 + tail));
        assert(s.subrange(p, end) =~= ", "@ + (c1 + rest2 + tail));
        lemma_split_at(s, p, ", "@, c1 + rest2 + tail);
        lemma_char_at(s, p, ", "@, 0);
        lemma_char_at(s, p, ", "@, 1);
        lemma_parse_canon_type(ts[from], s, pos);
        lemma_skip_ws_none(s, p);
        lemma_canon_head(ts[from + 1]);
        lemma_char_at(s, p + 2, c1 + rest2 + tail, 0);
        assert((c1 + rest2 + tail)[0] == c1[0]);
        lemma_skip_ws_one(s, p + 1);
        assert(s[p + 2] != '.' && s[p + 2] != ')');
        assert(sp_dots_then_close(s, p + 2) is None);
        assert(s.subrange(p + 2, end) =~= c1 + rest2 + tail);
        assert(s.subrange(p + 2, end) =~= canon_type(ts[from + 1]) + canon_type_rest(
            ts,
            from + 2,
        ) + tail);
        lemma_canon_params_items(ts, has_varargs, from + 1, s, p + 2, end);
        assert(seq![ts[from]] + ts.skip(from + 1) =~= ts.skip(from));
        assert(sp_params_items(s, pos) == Some(((ts.skip(from), has_varargs), end + 1)));
    }
}

/// Reading the canonical text of a base type gives the type back.
pub proof fn lemma_parse_canon_base(t: TypeV, s: Seq<char>, pos: int)
    requires
        !(t is Function),
        parsed_type_wf(t),
        canon_at(s, pos, t),
        follow_base_ok(s, pos + canon_type(t).len()),
    ensures
        sp_base_type(s, pos) == Some((t, pos + canon_type(t).len())),
    decreases t, 2int, 0int,
{
    if is_simple_keyword_type(t) {
        lemma_canon_simple(t, s, pos);
    } else if t is Integer {
        lemma_canon_integer(t, s, pos);
    } else if t is Pointer {
        lemma_canon_pointer(t, s, pos);
    } else if t is TargetExtension {
        lemma_canon_target(t, s, pos);
    } else if t is Vector || t is Array {
        lemma_canon_vector_array(t, s, pos);
    } else {
        lemma_canon_structure(t, s, pos);
    }
}

/// Reading the canonical text of any parseable type gives the type
/// back.
#[verifier::rlimit(100)]
pub proof fn lemma_parse_canon_type(t: TypeV, s: Seq<char>, pos: int)
    requires
        parsed_type_wf(t),
        canon_at(s, pos, t),
        follow_type_ok(s, pos + canon_type(t).len()),
    ensures
        sp_type(s, pos) == Some((t, pos + canon_type(t).len())),
    decreases t, 3int, 0int,
{
    reveal_strlit(" (");
    reveal_strlit(")");
    reveal_strlit("...");
    reveal_strlit(", ...");
    let l = canon_type(t).len() as int;
    match t {
        TypeV::Function { return_type, parameters, has_varargs } => {
            let rt = *return_type;
            let crt = canon_type(rt);
            let cps = canon_fn_params(parameters, has_varargs);
            assert(canon_type(t) == crt + " ("@ + cps + ")"@);
            lemma_split_at(s, pos, crt + " ("@ + cps, ")"@);
            lemma_split_at(s, pos, crt + " ("@, cps);
            lemma_split_at(s, pos, crt, " ("@);
            let p = pos + crt.len() as int;
            lemma_char_at(s, p, " ("@, 0);
            lemma_char_at(s, p, " ("@, 1);
            lemma_parse_canon_base(rt, s, pos);
            lemma_skip_ws_one(s, p);
            let q = p + 1;
            assert(s[q] == '(');
            let pend = q + 1 + cps.len() as int;
            lemma_char_at(s, pend, ")"@, 0);
            if parameters.len() == 0 {
                if has_varargs {
                    assert(cps == "..."@);
                    lemma_char_at(s, q + 1, "..."@, 0);
                    lemma_char_at(s, q + 1, "..."@, 1);
                    lemma_char_at(s, q + 1, "..."@, 2);
                    lemma_skip_ws_none(s, q + 1);
                    lemma_skip_ws_none(s, q + 4);
                    assert(sp_dots_then_close(s, q + 1) == Some(pend + 1));
                    assert(s[q + 1] != ')');
                    assert(sp_params(s, q + 1) == Some(
                        ((Seq::<TypeV>::empty(), true), pend + 1),
                    ));
                    assert(parameters =~= Seq::<TypeV>::empty());
                } else {
                    assert(cps =~= Seq::<char>::empty());
                    lemma_skip_ws_none(s, q + 1);
                    assert(s[q + 1] == ')');
                    assert(sp_params(s, q + 1) == Some(
                        ((Seq::<TypeV>::empty(), false), pend + 1),
                    ));
                    assert(parameters =~= Seq::<TypeV>::empty());
                }
            } else {
                assert(cps == canon_type_list(parameters) + (if has_varargs {
                    ", ..."@
                } else {
                    Seq::<char>::empty()
                }));
                assert(canon_type_list(parameters) == canon_type(parameters[0])
                    + canon_type_rest(parameters, 1));
                assert(cps.len() == canon_type(parameters[0]).len() + canon_type_rest(
                    parameters,
                    1,
                ).len() + (if has_varargs {
                    5int
                } else {
                    0int
                }));
                lemma_canon_head(parameters[0]);
                lemma_char_at(s, q + 1, cps, 0);
                assert(cps[0] == canon_type(parameters[0])[0]);
                lemma_skip_ws_none(s, q + 1);
                assert(s[q + 1] != ')' && s[q + 1] != '.');
                assert(sp_dots_then_close(s, q + 1) is None);
                assert(s.subrange(q + 1, pend) =~= canon_type(parameters[0]) + canon_type_rest(
                    parameters,
                    1,
                ) + (if has_varargs {
                    ", ..."@
                } else {
                    Seq::<char>::empty()
                }));
                lemma_canon_params_items(parameters, has_varargs, 0, s, q + 1, pend);
                assert(parameters.skip(0) =~= parameters);
                assert(sp_params(s, q + 1) == Some(((parameters, has_varargs), pend + 1)));
            }
            assert(sp_type(s, pos) == Some((t, pos + l)));
        },
        _ => {
            lemma_parse_canon_base(t, s, pos);
            let p = pos + l;
            if p == s.len() {
                lemma_skip_ws_none(s, p);
                assert(sp_type(s, pos) == Some((t, p)));
            } else {
                lemma_skip_ws_none(s, p);
                assert(s[skip_ws(s, p)] != '(');
                assert(sp_type(s, pos) == Some((t, p)));
            }
        },
    }
}

/// A name read between quotes holds no quote.
pub proof fn lemma_wf_quoted_rest(s: Seq<char>, start: int, at: int)
    requires
        0 <= start <= at,
        forall|i: int| start <= i < at ==> s[i] != '"',
    ensures
        sp_quoted_rest(s, start, at) matches Some(r) ==> quote_free(r.0),
    decreases s.len() - at,
{
    if 0 <= at < s.len() {
        if s[at] == '"' {
            match sp_quoted_rest(s, start, at) {
                Some((nm, _p)) => {
                    assert forall|i: int| 0 <= i < nm.len() implies nm[i] != '"' by {
                        assert(nm[i] == s.subrange(start, at)[i]);
                        assert(s.subrange(start, at)[i] == s[start + i]);
                        assert(s[start + i] != '"');
                    }
                },
                None => {},
            }
        } else {
            lemma_wf_quoted_rest(s, start, at + 1);
        }
    }
}

/// A quoted name holds no quote.
pub proof fn lemma_wf_quoted(s: Seq<char>, pos: int)
    ensures
        sp_quoted(s, pos) matches Some(r) ==> quote_free(r.0),
{
    if 0 <= pos < s.len() && s[pos] == '"' {
        lemma_wf_quoted_rest(s, pos + 1, pos + 1);
    }
}

/// Every type the grammar reads satisfies the shape invariant.
pub proof fn lemma_wf_type(s: Seq<char>, pos: int)
    ensures
        sp_type(s, pos) matches Some(r) ==> parsed_type_wf(r.0),
    decreases s.len() - pos, 3int,
{
    if 0 <= pos <= s.len() {
        lemma_wf_base(s, pos);
        match sp_base_type(s, pos) {
            Some((t, p)) => if pos < p <= s.len() {
                let q = skip_ws(s, p);
                if q < s.len() && s[q] == '(' {
                    lemma_wf_params(s, q + 1);
                }
            } else {
            },
            None => {},
        }
    }
}

/// Every parameter list the grammar reads holds types satisfying the
/// shape invariant.
pub proof fn lemma_wf_params(s: Seq<char>, pos: int)
    ensures
        sp_params(s, pos) matches Some(r) ==> parsed_types_wf(r.0.0),
    decreases s.len() - pos, 5int,
{
    if 0 <= pos <= s.len() {
        let q = skip_ws(s, pos);
        if q < s.len() && s[q] == ')' {
        } else if sp_dots_then_close(s, q) is Some {
        } else if q <= s.len() {
            lemma_wf_params_items(s, q);
        }
    }
}

pub proof fn lemma_wf_params_items(s: Seq<char>, pos: int)
    ensures
        sp_params_items(s, pos) matches Some(r) ==> parsed_types_wf(r.0.0),
    decreases s.len() - pos, 4int,
{
    if 0 <= pos <= s.len() {
        lemma_wf_type(s, pos);
        match sp_type(s, pos) {
            Some((t, p)) => if pos < p <= s.len() {
                let q = skip_ws(s, p);
                if q < s.len() && s[q] == ')' {
                    lemma_parsed_types_wf(seq![t]);
                } else if q < s.len() && s[q] == ',' {
                    let q2 = skip_ws(s, q + 1);
                    if sp_dots_then_close(s, q2) is Some {
                        lemma_parsed_types_wf(seq![t]);
                    } else {
                        lemma_wf_params_items(s, q2);
                        match sp_params_items(s, q2) {
                            Some(((rest, _hv), _p2)) => {
                                lemma_parsed_types_wf(rest);
                                lemma_parsed_types_wf(seq![t] + rest);
                            },
                            None => {},
                        }
                    }
                }
            } else {
            },
            None => {},
        }
    }
}

pub proof fn lemma_wf_fields(s: Seq<char>, pos: int)
    ensures
        sp_fields(s, pos) matches Some(r) ==> parsed_types_wf(r.0),
    decreases s.len() - pos, 5int,
{
    if 0 <= pos <= s.len() {
        let q = skip_ws(s, pos);
        if q < s.len() && s[q] == '}' {
        } else if q <= s.len() {
            lemma_wf_fields_items(s, q);
        }
    }
}

pub proof fn lemma_wf_fields_items(s: Seq<char>, pos: int)
    ensures
        sp_fields_items(s, pos) matches Some(r) ==> parsed_types_wf(r.0),
    decreases s.len() - pos, 4int,
{
    if 0 <= pos <= s.len() {
        lemma_wf_type(s, pos);
        match sp_type(s, pos) {
            Some((t, p)) => if pos < p <= s.len() {
                let q = skip_ws(s, p);
                if q < s.len() && s[q] == '}' {
                    lemma_parsed_types_wf(seq![t]);
                } else if q < s.len() && s[q] == ',' {
                    lemma_wf_fields_items(s, skip_ws(s, q + 1));
                    match sp_fields_items(s, skip_ws(s, q + 1)) {
                        Some((rest, _p2)) => {
                            lemma_parsed_types_wf(rest);
                            lemma_parsed_types_wf(seq![t] + rest);
                        },
                        None => {},
                    }
                }
            } else {
            },
            None => {},
        }
    }
}

pub proof fn lemma_wf_target_params(s: Seq<char>, pos: int)
    ensures
        sp_target_params(s, pos) matches Some(r) ==> parsed_target_params_wf(r.0),
    decreases s.len() - pos, 5int,
{
    if 0 <= pos <= s.len() {
        if pos < s.len() && s[pos] == ')' {
        } else if pos < s.len() && s[pos] == ',' {
            lemma_wf_target_item(s, skip_ws(s, pos + 1));
            match sp_target_item(s, skip_ws(s, pos + 1)) {
                Some((item, p)) => if pos < p <= s.len() {
                    lemma_wf_target_params(s, skip_ws(s, p));
                    match sp_target_params(s, skip_ws(s, p)) {
                        Some((rest, _p2)) => {
                            lemma_target_params_wf_cons(item, rest);
                        },
                        None => {},
                    }
                } else {
                },
                None => {},
            }
        }
    }
}

/// Prepending a well-formed item keeps a target parameter list
/// well-formed.
pub proof fn lemma_target_params_wf_cons(
    item: TargetExtensionParameterV,
    rest: Seq<TargetExtensionParameterV>,
)
    requires
        target_param_wf(item),
        parsed_target_params_wf(rest),
    ensures
        parsed_target_params_wf(seq![item] + rest),
{
    let all = seq![item] + rest;
    lemma_parsed_target_params_wf(rest);
    lemma_parsed_target_params_wf(all);
    assert forall|i: int| 0 <= i < all.len() implies target_param_wf(#[trigger] all[i]) by {
        if i == 0 {
            assert(all[0] == item);
        } else {
            assert(all[i] == rest[i - 1]);
        }
    }
}

pub proof fn lemma_wf_target_item(s: Seq<char>, pos: int)
    ensures
        sp_target_item(s, pos) matches Some(r) ==> target_param_wf(r.0),
    decreases s.len() - pos, 4int,
{
    if 0 <= pos <= s.len() {
        if pos < s.len() && is_digit_char(s[pos]) {
        } else {
            lemma_wf_type(s, pos);
        }
    }
}

pub proof fn lemma_wf_sized_tail(s: Seq<char>, pos: int, close: char)
    ensures
        sp_sized_tail(s, pos, close) matches Some(r) ==> (1 <= r.0.0 <= max_number()
            && parsed_type_wf(r.0.1)),
    decreases s.len() - pos, 4int,
{
    if 0 <= pos < s.len() && is_digit_char(s[pos]) {
        let e = digits_end(s, pos);
        let v = digits_value(s, pos, e);
        if 1 <= v <= max_number() {
            let q = skip_ws(s, e);
            if is_word_x(s, q) {
                lemma_wf_type(s, skip_ws(s, q + 1));
            }
        }
    }
}

/// Every base type the grammar reads satisfies the shape invariant and
/// is not a function type.
pub proof fn lemma_wf_base(s: Seq<char>, pos: int)
    ensures
        sp_base_type(s, pos) matches Some(r) ==> (parsed_type_wf(r.0) && !(r.0 is Function)),
    decreases s.len() - pos, 2int,
{
    if 0 <= pos < s.len() {
        if s[pos] == '<' {
            let q = skip_ws(s, pos + 1);
            if q < s.len() && s[q] == '{' {
                lemma_wf_fields(s, q + 1);
            } else if word_at(s, q) == "vscale"@ {
                let r = skip_ws(s, ident_end(s, q));
                if is_word_x(s, r) {
                    lemma_wf_sized_tail(s, skip_ws(s, r + 1), '>');
                }
            } else {
                lemma_wf_sized_tail(s, q, '>');
            }
        } else if s[pos] == '[' {
            lemma_wf_sized_tail(s, skip_ws(s, pos + 1), ']');
        } else if s[pos] == '{' {
            lemma_wf_fields(s, pos + 1);
        } else if is_ident_char(s[pos]) && !is_digit_char(s[pos]) {
            lemma_wf_word_type(s, pos);
        }
    }
}

pub proof fn lemma_wf_word_type(s: Seq<char>, pos: int)
    ensures
        sp_word_type(s, pos) matches Some(r) ==> (parsed_type_wf(r.0) && !(r.0 is Function)),
    decreases s.len() - pos, 1int,
{
    if 0 <= pos <= s.len() {
        let w = word_at(s, pos);
        if w == "ptr"@ {
            lemma_wf_pointer_tail(s, ident_end(s, pos));
        } else if w == "target"@ {
            lemma_wf_target_tail(s, ident_end(s, pos));
        }
    }
}

pub proof fn lemma_wf_pointer_tail(s: Seq<char>, pos: int)
    ensures
        sp_pointer_tail(s, pos) matches Some(r) ==> (parsed_type_wf(r.0) && !(r.0 is Function)),
    decreases s.len() - pos, 0int,
{
    if 0 <= pos <= s.len() {
        let q = skip_ws(s, pos);
        if q < s.len() && word_at(s, q) == "addrspace"@ {
            let r = skip_ws(s, ident_end(s, q));
            if r < s.len() && s[r] == '(' {
                let a = skip_ws(s, r + 1);
                if a < s.len() && is_digit_char(s[a]) {
                } else {
                    lemma_wf_quoted(s, a);
                }
            }
        }
    }
}

pub proof fn lemma_wf_target_tail(s: Seq<char>, pos: int)
    ensures
        sp_target_tail(s, pos) matches Some(r) ==> (parsed_type_wf(r.0) && !(r.0 is Function)),
    decreases s.len() - pos, 0int,
{
    if 0 <= pos <= s.len() {
        let q = skip_ws(s, pos);
        if q < s.len() && s[q] == '(' {
            lemma_wf_quoted(s, skip_ws(s, q + 1));
            match sp_quoted(s, skip_ws(s, q + 1)) {
                Some((_name, p)) => if pos < p <= s.len() {
                    lemma_wf_target_params(s, skip_ws(s, p));
                } else {
                },
                None => {},
            }
        }
    }
}

/// Prepending a well-formed type keeps a type list well-formed.
pub proof fn lemma_types_wf_cons(t: TypeV, rest: Seq<TypeV>)
    requires
        parsed_type_wf(t),
        parsed_types_wf(rest),
    ensures
        parsed_types_wf(seq![t] + rest),
{
    lemma_parsed_types_wf(rest);
    lemma_parsed_types_wf(seq![t] + rest);
    assert forall|i: int| 0 <= i < (seq![t] + rest).len() implies parsed_type_wf(
        #[trigger] (seq![t] + rest)[i],
    ) by {
        if i == 0 {
            assert((seq![t] + rest)[0] == t);
        } else {
            assert((seq![t] + rest)[i] == rest[i - 1]);
        }
    }
}

/// Parsing the canonical text of any parseable type gives the type
/// back.
pub proof fn lemma_parse_canon_full(t: TypeV)
    requires
        parsed_type_wf(t),
    ensures
        parse_type_spec(canon_type(t)) == Some(t),
{
    let s = canon_type(t);
    lemma_canon_head(t);
    lemma_skip_ws_none(s, 0);
    assert(s.subrange(0, s.len() as int) =~= s);
    assert(canon_at(s, 0, t));
    assert(follow_type_ok(s, s.len() as int));
    lemma_parse_canon_type(t, s, 0);
    lemma_skip_ws_none(s, s.len() as int);
}

/// The round-trip law of the type grammar: on every text the grammar
/// accepts, parsing, printing and parsing again gives the same type as
/// parsing once.
pub proof fn lemma_type_round_trip(s: Seq<char>)
    requires
        parse_type_spec(s) is Some,
    ensures
        parse_type_spec(s) matches Some(t) ==> parse_type_spec(canon_type(t)) == Some(t),
{
    match parse_type_spec(s) {
        Some(t) => {
            lemma_wf_type(s, skip_ws(s, 0));
            assert(parsed_type_wf(t));
            lemma_parse_canon_full(t);
        },
        None => {},
    }
}

} // verus!
