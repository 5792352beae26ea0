//! The executable parser for instructions, terminators, basic blocks and
//! function definitions.
//!
//! Every function mirrors one production of [`crate::ir_grammar`]; its
//! contract says that it returns exactly the node and position the
//! grammar yields, and that it fails with exactly the error kind the
//! grammar assigns.

use crate::ir::{AllowedWrapping, Constant, GetPointerKind, Instruction, IntegerComparison,
    Ordering, SwitchDestination, TailCallHint, Terminator, TypeMismatch, Value};
use crate::ir_grammar::{ParseErrorV, sp_addrspace_clause, sp_align_clause, sp_alloca_align_space,
    sp_alloca_tail, sp_bare_value, sp_binary_operands, sp_call, sp_call_args, sp_call_args_items,
    sp_calling_convention, sp_comparison, sp_constant_value, sp_conversion_operands,
    sp_exact_flag, sp_gep, sp_gep_indices, sp_index_list, sp_inrange_kind, sp_instruction,
    sp_load, sp_one_ret_attr, sp_ordering, sp_ret_attrs, sp_sigil_name, sp_store, sp_sync_scope,
    sp_typed_value, sp_wrapping_flags};
use crate::llvm::Operation;
use crate::parser::{SyntaxError, chars_of, ident_end_x, is_digit, push_char, read_number,
    read_quoted, skip_ws_x, word_is};
use crate::scan::{lemma_digits_end, skip_ws, word_at};
use crate::types::{AddressSpace, ParameterAttribute, Type};
use std::sync::Arc;
use vstd::prelude::*;
use vstd::string::StrSliceExecFns;

verus! {

broadcast use crate::scan::skip_ws_in_bounds, crate::scan::ident_end_in_bounds,
    crate::scan::digits_end_in_bounds;

/// A parse failure: text that does not conform to the grammar, a
/// construct the language knows but this model does not cover yet, a
/// constant written against an incompatible type, or a branch target no
/// block defines.
#[derive(Debug, PartialEq, Eq)]
pub enum ParseError {
    Syntax(SyntaxError),
    Unsupported { position: usize, construct: String },
    Mismatch(TypeMismatch),
    UndefinedLabel { name: String },
}

impl View for ParseError {
    type V = ParseErrorV;

    open spec fn view(&self) -> ParseErrorV {
        match self {
            ParseError::Syntax(_) => ParseErrorV::Syntax,
            ParseError::Unsupported { construct, .. } => ParseErrorV::Unsupported(construct@),
            ParseError::Mismatch(m) => ParseErrorV::Mismatch(m.constant@, m.constant_type@),
            ParseError::UndefinedLabel { name } => ParseErrorV::UndefinedLabel(name@),
        }
    }
}

fn err_syntax(position: usize, expected: &str) -> (r: ParseError)
    ensures
        r@ == ParseErrorV::Syntax,
{
    ParseError::Syntax(SyntaxError { position, expected: expected.to_owned() })
}

/// The text between `from` and `to`, as an owned string.
fn string_from_range(s: &Vec<char>, from: usize, to: usize) -> (r: String)
    requires
        from <= to <= s@.len(),
    ensures
        r@ == s@.subrange(from as int, to as int),
{
    let mut r = String::new();
    let mut i: usize = from;
    while i < to
        invariant
            from <= i <= to <= s@.len(),
            r@ == s@.subrange(from as int, i as int),
        decreases to - i,
    {
        push_char(&mut r, s[i]);
        i += 1;
        proof {
            assert(r@ =~= s@.subrange(from as int, i as int));
        }
    }
    r
}

/// Reads a sigil-qualified identifier, sigil included.
fn x_sigil_name(s: &Vec<char>, pos: usize) -> (r: Option<(String, usize)>)
    requires
        pos <= s@.len(),
    ensures
        (r matches Some((name, p)) ==> sp_sigil_name(s@, pos as int) == Some((name@, p as int))
            && pos < p <= s@.len()),
        r is None ==> sp_sigil_name(s@, pos as int) is None,
{
    if pos < s.len() && (s[pos] == '%' || s[pos] == '@') {
        let e = ident_end_x(s, pos + 1);
        if e > pos + 1 {
            Some((string_from_range(s, pos, e), e))
        } else {
            None
        }
    } else {
        None
    }
}


/// Reads a value of the declared type `t` in operand position.
fn x_bare_value(s: &Vec<char>, pos: usize, t: &Type) -> (r: Result<(Value, usize), ParseError>)
    requires
        pos <= s@.len(),
    ensures
        (r matches Ok((v, p)) ==> sp_bare_value(s@, pos as int, t@) == Ok::<_, ParseErrorV>(
            (v@, p as int),
        ) && pos < p <= s@.len()),
        (r matches Err(e) ==> sp_bare_value(s@, pos as int, t@) == Err::<(crate::ir::ValueV, int),
            _,
        >(e@)),
{
    match x_sigil_name(s, pos) {
        Some((name, e)) => {
            return Ok(
                (Value::FromIdentifier { value_type: t.deep_clone(), identifier: name }, e),
            );
        },
        None => {},
    }
    proof {
        reveal_strlit("true");
        reveal_strlit("false");
        reveal_strlit("null");
        reveal_strlit("none");
        reveal_strlit("zeroinitializer");
        reveal_strlit("undef");
        reveal_strlit("poison");
    }
    if pos < s.len() && is_digit(s[pos]) {
        match read_number(s, pos) {
            Some((v, e)) => {
                proof {
                    lemma_digits_end(s@, pos as int);
                }
                x_constant_value(Constant::Integer(v), t, e, pos)
            },
            None => Err(err_syntax(pos, "a number small enough to represent")),
        }
    } else if word_is(s, pos, "true") {
        let e = ident_end_x(s, pos);
        proof {
            assert(word_at(s@, pos as int).len() == e - pos);
        }
        x_constant_value(Constant::Boolean(true), t, e, pos)
    } else if word_is(s, pos, "false") {
        let e = ident_end_x(s, pos);
        proof {
            assert(word_at(s@, pos as int).len() == e - pos);
        }
        x_constant_value(Constant::Boolean(false), t, e, pos)
    } else if word_is(s, pos, "null") {
        let e = ident_end_x(s, pos);
        proof {
            assert(word_at(s@, pos as int).len() == e - pos);
        }
        x_constant_value(Constant::NullPointer, t, e, pos)
    } else if word_is(s, pos, "none") {
        let e = ident_end_x(s, pos);
        proof {
            assert(word_at(s@, pos as int).len() == e - pos);
        }
        x_constant_value(Constant::NoneToken, t, e, pos)
    } else if word_is(s, pos, "zeroinitializer") {
        let e = ident_end_x(s, pos);
        proof {
            assert(word_at(s@, pos as int).len() == e - pos);
        }
        x_constant_value(Constant::Zero, t, e, pos)
    } else if word_is(s, pos, "undef") {
        let e = ident_end_x(s, pos);
        proof {
            assert(word_at(s@, pos as int).len() == e - pos);
        }
        x_constant_value(Constant::Undefined, t, e, pos)
    } else if word_is(s, pos, "poison") {
        let e = ident_end_x(s, pos);
        proof {
            assert(word_at(s@, pos as int).len() == e - pos);
        }
        x_constant_value(Constant::Poison, t, e, pos)
    } else {
        Err(err_syntax(pos, "a value"))
    }
}

/// Links a parsed constant to its declared type, or reports the
/// incompatibility.
fn x_constant_value(c: Constant, t: &Type, e: usize, from: usize) -> (r: Result<
    (Value, usize),
    ParseError,
>)
    requires
        from < e,
    ensures
        (r matches Ok((v, p)) ==> sp_constant_value(c@, t@, e as int) == Ok::<_, ParseErrorV>(
            (v@, p as int),
        ) && p == e),
        (r matches Err(err) ==> sp_constant_value(c@, t@, e as int) == Err::<
            (crate::ir::ValueV, int),
            _,
        >(err@)),
{
    match Value::from_type_constant(t.deep_clone(), c) {
        Ok(v) => Ok((v, e)),
        Err(m) => Err(ParseError::Mismatch(m)),
    }
}

/// Reads `type value`.
fn x_typed_value(s: &Vec<char>, pos: usize) -> (r: Result<(Type, Value, usize), ParseError>)
    requires
        pos <= s@.len(),
    ensures
        (r matches Ok((t, v, p)) ==> sp_typed_value(s@, pos as int) == Ok::<_, ParseErrorV>(
            ((t@, v@), p as int),
        ) && pos < p <= s@.len()),
        (r matches Err(e) ==> sp_typed_value(s@, pos as int) == Err::<
            ((crate::types::TypeV, crate::ir::ValueV), int),
            _,
        >(e@)),
{
    match crate::parser::p_type(s, pos) {
        Ok((t, p)) => {
            let (v, p2) = x_bare_value(s, skip_ws_x(s, p), &t)?;
            Ok((t, v, p2))
        },
        Err(e) => Err(ParseError::Syntax(e)),
    }
}

/// Reads `type value , value` as binary instructions take their
/// operands.
fn x_binary_operands(s: &Vec<char>, pos: usize) -> (r: Result<
    (Type, Value, Value, usize),
    ParseError,
>)
    requires
        pos <= s@.len(),
    ensures
        (r matches Ok((t, v1, v2, p)) ==> sp_binary_operands(s@, pos as int) == Ok::<
            _,
            ParseErrorV,
        >(((t@, v1@, v2@), p as int)) && pos < p <= s@.len()),
        (r matches Err(e) ==> sp_binary_operands(s@, pos as int) == Err::<
            ((crate::types::TypeV, crate::ir::ValueV, crate::ir::ValueV), int),
            _,
        >(e@)),
{
    match crate::parser::p_type(s, pos) {
        Ok((t, p)) => {
            let (v1, p2) = x_bare_value(s, skip_ws_x(s, p), &t)?;
            let q = skip_ws_x(s, p2);
            if q < s.len() && s[q] == ',' {
                let (v2, p3) = x_bare_value(s, skip_ws_x(s, q + 1), &t)?;
                Ok((t, v1, v2, p3))
            } else {
                Err(err_syntax(q, "a comma between the two operands"))
            }
        },
        Err(e) => Err(ParseError::Syntax(e)),
    }
}

/// Reads the comma-led index list of the aggregate instructions.
fn x_index_list(s: &Vec<char>, pos: usize) -> (r: Result<(Vec<usize>, usize), ParseError>)
    requires
        pos <= s@.len(),
    ensures
        (r matches Ok((indices, p)) ==> sp_index_list(s@, pos as int) == Ok::<_, ParseErrorV>(
            (crate::ir::indices_view(indices@), p as int),
        ) && pos <= p <= s@.len()),
        (r matches Err(e) ==> sp_index_list(s@, pos as int) == Err::<(Seq<nat>, int), _>(e@)),
    decreases s@.len() - pos,
{
    let q = skip_ws_x(s, pos);
    if q < s.len() && s[q] == ',' {
        let a = skip_ws_x(s, q + 1);
        if a < s.len() && is_digit(s[a]) {
            match read_number(s, a) {
                Some((v, e)) => {
                    proof {
                        lemma_digits_end(s@, a as int);
                    }
                    let (rest, p) = x_index_list(s, e)?;
                    let ghost rest_snap = rest@;
                    let mut indices = rest;
                    indices.insert(0, v);
                    proof {
                        assert(crate::ir::indices_view(indices@) =~= seq![v as nat]
                            + crate::ir::indices_view(rest_snap));
                    }
                    Ok((indices, p))
                },
                None => Err(err_syntax(a, "an index small enough to represent")),
            }
        } else {
            Err(err_syntax(a, "an index"))
        }
    } else {
        let indices: Vec<usize> = Vec::new();
        proof {
            assert(crate::ir::indices_view(indices@) =~= Seq::<nat>::empty());
        }
        Ok((indices, pos))
    }
}

/// Reads the comma-led typed index values of `getelementptr`.
fn x_gep_indices(s: &Vec<char>, pos: usize) -> (r: Result<(Vec<Arc<Value>>, usize), ParseError>)
    requires
        pos <= s@.len(),
    ensures
        (r matches Ok((indices, p)) ==> sp_gep_indices(s@, pos as int) == Ok::<_, ParseErrorV>(
            (crate::ir::values_view(indices@), p as int),
        ) && pos <= p <= s@.len()),
        (r matches Err(e) ==> sp_gep_indices(s@, pos as int) == Err::<
            (Seq<crate::ir::ValueV>, int),
            _,
        >(e@)),
    decreases s@.len() - pos,
{
    let q = skip_ws_x(s, pos);
    if q < s.len() && s[q] == ',' {
        let (_t, v, p) = x_typed_value(s, skip_ws_x(s, q + 1))?;
        let (rest, p2) = x_gep_indices(s, p)?;
        let ghost rest_snap = rest@;
        let mut indices = rest;
        indices.insert(0, Arc::new(v));
        proof {
            crate::ir::lemma_values_view(indices@);
            crate::ir::lemma_values_view(rest_snap);
            assert(crate::ir::values_view(indices@) =~= seq![v@] + crate::ir::values_view(
                rest_snap,
            ));
        }
        Ok((indices, p2))
    } else {
        let indices: Vec<Arc<Value>> = Vec::new();
        proof {
            crate::ir::lemma_values_view(indices@);
            assert(crate::ir::values_view(indices@) =~= Seq::<crate::ir::ValueV>::empty());
        }
        Ok((indices, pos))
    }
}

/// Reads the parenthesized argument list of a call.
fn x_call_args(s: &Vec<char>, pos: usize) -> (r: Result<(Vec<Arc<Value>>, usize), ParseError>)
    requires
        pos <= s@.len(),
    ensures
        (r matches Ok((arguments, p)) ==> sp_call_args(s@, pos as int) == Ok::<_, ParseErrorV>(
            (crate::ir::values_view(arguments@), p as int),
        ) && pos <= p <= s@.len()),
        (r matches Err(e) ==> sp_call_args(s@, pos as int) == Err::<
            (Seq<crate::ir::ValueV>, int),
            _,
        >(e@)),
    decreases s@.len() - pos, 1int,
{
    let q = skip_ws_x(s, pos);
    if q < s.len() && s[q] == ')' {
        let arguments: Vec<Arc<Value>> = Vec::new();
        proof {
            crate::ir::lemma_values_view(arguments@);
            assert(crate::ir::values_view(arguments@) =~= Seq::<crate::ir::ValueV>::empty());
        }
        Ok((arguments, q + 1))
    } else {
        x_call_args_items(s, q)
    }
}

/// Reads one or more comma-separated call arguments up to `)`.
fn x_call_args_items(s: &Vec<char>, pos: usize) -> (r: Result<
    (Vec<Arc<Value>>, usize),
    ParseError,
>)
    requires
        pos <= s@.len(),
    ensures
        (r matches Ok((arguments, p)) ==> sp_call_args_items(s@, pos as int) == Ok::<
            _,
            ParseErrorV,
        >((crate::ir::values_view(arguments@), p as int)) && pos < p <= s@.len()),
        (r matches Err(e) ==> sp_call_args_items(s@, pos as int) == Err::<
            (Seq<crate::ir::ValueV>, int),
            _,
        >(e@)),
    decreases s@.len() - pos, 0int,
{
    let (_t, v, p) = x_typed_value(s, pos)?;
    let q = skip_ws_x(s, p);
    if q < s.len() && s[q] == ')' {
        let mut arguments: Vec<Arc<Value>> = Vec::new();
        arguments.push(Arc::new(v));
        proof {
            crate::ir::lemma_values_view(arguments@);
            assert(crate::ir::values_view(arguments@) =~= seq![v@]);
        }
        Ok((arguments, q + 1))
    } else if q < s.len() && s[q] == ',' {
        let q2 = skip_ws_x(s, q + 1);
        let (rest, p2) = x_call_args_items(s, q2)?;
        let ghost rest_snap = rest@;
        let mut arguments = rest;
        arguments.insert(0, Arc::new(v));
        proof {
            crate::ir::lemma_values_view(arguments@);
            crate::ir::lemma_values_view(rest_snap);
            assert(crate::ir::values_view(arguments@) =~= seq![v@] + crate::ir::values_view(
                rest_snap,
            ));
        }
        Ok((arguments, p2))
    } else {
        Err(err_syntax(q, "a comma or the closing of the argument list"))
    }
}

/// Reads an optional `syncscope("name")` clause.
fn x_sync_scope(s: &Vec<char>, pos: usize) -> (r: Result<(Option<String>, usize), ParseError>)
    requires
        pos <= s@.len(),
    ensures
        (r matches Ok((scope, p)) ==> sp_sync_scope(s@, pos as int) == Some(
            (crate::ir::opt_string_view(scope), p as int),
        ) && pos <= p <= s@.len()),
        r is Err ==> sp_sync_scope(s@, pos as int) is None,
        (r matches Err(e) ==> e@ == ParseErrorV::Syntax),
{
    let q = skip_ws_x(s, pos);
    if word_is(s, q, "syncscope") {
        let r2 = skip_ws_x(s, ident_end_x(s, q));
        if r2 < s.len() && s[r2] == '(' {
            match read_quoted(s, skip_ws_x(s, r2 + 1)) {
                Some((name, p)) => {
                    let c = skip_ws_x(s, p);
                    if c < s.len() && s[c] == ')' {
                        Ok((Some(name), c + 1))
                    } else {
                        Err(err_syntax(c, "the closing of the synchronization scope"))
                    }
                },
                None => Err(err_syntax(r2, "the quoted name of the synchronization scope")),
            }
        } else {
            Err(err_syntax(r2, "the opening of the synchronization scope"))
        }
    } else {
        Ok((None, pos))
    }
}

/// Reads an atomic ordering keyword.
fn x_ordering(s: &Vec<char>, pos: usize) -> (r: Result<(Ordering, usize), ParseError>)
    requires
        pos <= s@.len(),
    ensures
        (r matches Ok((o, p)) ==> sp_ordering(s@, pos as int) == Some((o, p as int)) && pos <= p
            <= s@.len()),
        r is Err ==> sp_ordering(s@, pos as int) is None,
        (r matches Err(e) ==> e@ == ParseErrorV::Syntax),
{
    let e = ident_end_x(s, pos);
    if word_is(s, pos, "unordered") {
        Ok((Ordering::Unordered, e))
    } else if word_is(s, pos, "monotonic") {
        Ok((Ordering::Monotonic, e))
    } else if word_is(s, pos, "acquire") {
        Ok((Ordering::Acquire, e))
    } else if word_is(s, pos, "release") {
        Ok((Ordering::Release, e))
    } else if word_is(s, pos, "acq_rel") {
        Ok((Ordering::AcquireRelease, e))
    } else if word_is(s, pos, "seq_cst") {
        Ok((Ordering::SequentiallyConsistent, e))
    } else {
        Err(err_syntax(pos, "an atomic ordering"))
    }
}

/// Reads `, align n`.
fn x_align_clause(s: &Vec<char>, pos: usize) -> (r: Option<(usize, usize)>)
    requires
        pos <= s@.len(),
    ensures
        (r matches Some((v, p)) ==> sp_align_clause(s@, pos as int) == Some((v as nat, p as int))
            && pos <= p <= s@.len()),
        r is None ==> sp_align_clause(s@, pos as int) is None,
{
    let q = skip_ws_x(s, pos);
    if q < s.len() && s[q] == ',' {
        let a = skip_ws_x(s, q + 1);
        if word_is(s, a, "align") {
            let d = skip_ws_x(s, ident_end_x(s, a));
            if d < s.len() && is_digit(s[d]) {
                match read_number(s, d) {
                    Some((v, e)) => Some((v, e)),
                    None => None,
                }
            } else {
                None
            }
        } else {
            None
        }
    } else {
        None
    }
}

/// Reads an integer comparison predicate keyword.
fn x_comparison(s: &Vec<char>, pos: usize) -> (r: Result<(IntegerComparison, usize), ParseError>)
    requires
        pos <= s@.len(),
    ensures
        (r matches Ok((c, p)) ==> sp_comparison(s@, pos as int) == Some((c, p as int)) && pos <= p
            <= s@.len()),
        r is Err ==> sp_comparison(s@, pos as int) is None,
        (r matches Err(e) ==> e@ == ParseErrorV::Syntax),
{
    let e = ident_end_x(s, pos);
    if word_is(s, pos, "eq") {
        Ok((IntegerComparison::Equal, e))
    } else if word_is(s, pos, "ne") {
        Ok((IntegerComparison::NotEqual, e))
    } else if word_is(s, pos, "ugt") {
        Ok((IntegerComparison::UnsignedGreaterThan, e))
    } else if word_is(s, pos, "uge") {
        Ok((IntegerComparison::UnsignedGreaterOrEqual, e))
    } else if word_is(s, pos, "ult") {
        Ok((IntegerComparison::UnsignedLessThan, e))
    } else if word_is(s, pos, "ule") {
        Ok((IntegerComparison::UnsignedLessOrEqual, e))
    } else if word_is(s, pos, "sgt") {
        Ok((IntegerComparison::SignedGreaterThan, e))
    } else if word_is(s, pos, "sge") {
        Ok((IntegerComparison::SignedGreaterOrEqual, e))
    } else if word_is(s, pos, "slt") {
        Ok((IntegerComparison::SignedLessThan, e))
    } else if word_is(s, pos, "sle") {
        Ok((IntegerComparison::SignedLessOrEqual, e))
    } else {
        Err(err_syntax(pos, "a comparison predicate"))
    }
}

/// Reads the optional `nuw` and `nsw` wrapping flags.
fn x_wrapping_flags(s: &Vec<char>, pos: usize) -> (r: (AllowedWrapping, usize))
    requires
        pos <= s@.len(),
    ensures
        (r.0, r.1 as int) == sp_wrapping_flags(s@, pos as int),
        pos <= r.1 <= s@.len(),
{
    let q = skip_ws_x(s, pos);
    if word_is(s, q, "nuw") {
        let r2 = skip_ws_x(s, ident_end_x(s, q));
        if word_is(s, r2, "nsw") {
            (
                AllowedWrapping { can_wrap_unsigned: false, can_wrap_signed: false },
                ident_end_x(s, r2),
            )
        } else {
            (
                AllowedWrapping { can_wrap_unsigned: false, can_wrap_signed: true },
                ident_end_x(s, q),
            )
        }
    } else if word_is(s, q, "nsw") {
        (AllowedWrapping { can_wrap_unsigned: true, can_wrap_signed: false }, ident_end_x(s, q))
    } else {
        (AllowedWrapping { can_wrap_unsigned: true, can_wrap_signed: true }, pos)
    }
}

/// Reads the optional `exact` flag.
fn x_exact_flag(s: &Vec<char>, pos: usize) -> (r: (bool, usize))
    requires
        pos <= s@.len(),
    ensures
        (r.0, r.1 as int) == sp_exact_flag(s@, pos as int),
        pos <= r.1 <= s@.len(),
{
    let q = skip_ws_x(s, pos);
    if word_is(s, q, "exact") {
        (true, ident_end_x(s, q))
    } else {
        (false, pos)
    }
}

/// Reads an optional `addrspace(n)` clause.
fn x_addrspace_clause(s: &Vec<char>, pos: usize) -> (r: Result<
    (Option<AddressSpace>, usize),
    ParseError,
>)
    requires
        pos <= s@.len(),
    ensures
        (r matches Ok((space, p)) ==> sp_addrspace_clause(s@, pos as int) == Some(
            (crate::ir::opt_address_space_view(space), p as int),
        ) && pos <= p <= s@.len()),
        r is Err ==> sp_addrspace_clause(s@, pos as int) is None,
        (r matches Err(e) ==> e@ == ParseErrorV::Syntax),
{
    let q = skip_ws_x(s, pos);
    if word_is(s, q, "addrspace") {
        let r2 = skip_ws_x(s, ident_end_x(s, q));
        if r2 < s.len() && s[r2] == '(' {
            let a = skip_ws_x(s, r2 + 1);
            if a < s.len() && is_digit(s[a]) {
                match read_number(s, a) {
                    Some((v, e)) => {
                        let c = skip_ws_x(s, e);
                        if c < s.len() && s[c] == ')' {
                            Ok((Some(AddressSpace::Numbered(v)), c + 1))
                        } else {
                            Err(err_syntax(c, "the closing of the address space clause"))
                        }
                    },
                    None => Err(err_syntax(a, "an address space number small enough to represent")),
                }
            } else {
                Err(err_syntax(a, "an address space number"))
            }
        } else {
            Err(err_syntax(r2, "the opening of the address space clause"))
        }
    } else {
        Ok((None, pos))
    }
}

/// Reads the optional clauses after the allocated type of `alloca`.
#[verifier::rlimit(80)]
fn x_alloca_tail(s: &Vec<char>, pos: usize) -> (r: Result<
    (Option<Arc<Value>>, Option<usize>, Option<AddressSpace>, usize),
    ParseError,
>)
    requires
        pos <= s@.len(),
    ensures
        (r matches Ok((num, alignment, space, p)) ==> sp_alloca_tail(s@, pos as int) == Ok::<
            _,
            ParseErrorV,
        >(
            (
                (
                    crate::ir::opt_value_view(num),
                    crate::ir::opt_nat_view(alignment),
                    crate::ir::opt_address_space_view(space),
                ),
                p as int,
            ),
        ) && pos <= p <= s@.len()),
        (r matches Err(e) ==> sp_alloca_tail(s@, pos as int) == Err::<
            (
                (Option<Box<crate::ir::ValueV>>, Option<nat>, Option<crate::types::AddressSpaceV>),
                int,
            ),
            _,
        >(e@)),
{
    let q = skip_ws_x(s, pos);
    if q < s.len() && s[q] == ',' && !word_is(s, skip_ws_x(s, q + 1), "align") && !word_is(
        s,
        skip_ws_x(s, q + 1),
        "addrspace",
    ) {
        let (_t, v, p) = x_typed_value(s, skip_ws_x(s, q + 1))?;
        x_alloca_align_space(s, p, Some(Arc::new(v)))
    } else {
        x_alloca_align_space(s, pos, None)
    }
}

/// Reads the alignment and address-space clauses of `alloca`.
fn x_alloca_align_space(s: &Vec<char>, pos: usize, num: Option<Arc<Value>>) -> (r: Result<
    (Option<Arc<Value>>, Option<usize>, Option<AddressSpace>, usize),
    ParseError,
>)
    requires
        pos <= s@.len(),
    ensures
        (r matches Ok((num2, alignment, space, p)) ==> sp_alloca_align_space(
            s@,
            pos as int,
            crate::ir::opt_value_view(num),
        ) == Ok::<_, ParseErrorV>(
            (
                (
                    crate::ir::opt_value_view(num2),
                    crate::ir::opt_nat_view(alignment),
                    crate::ir::opt_address_space_view(space),
                ),
                p as int,
            ),
        ) && pos <= p <= s@.len()),
        (r matches Err(e) ==> sp_alloca_align_space(s@, pos as int, crate::ir::opt_value_view(num))
            == Err::<
            (
                (Option<Box<crate::ir::ValueV>>, Option<nat>, Option<crate::types::AddressSpaceV>),
                int,
            ),
            _,
        >(e@)),
{
    let (alignment, p) = match x_align_clause(s, pos) {
        Some((v, p)) => (Some(v), p),
        None => (None, pos),
    };
    let q = skip_ws_x(s, p);
    if q < s.len() && s[q] == ',' && word_is(s, skip_ws_x(s, q + 1), "addrspace") {
        let (space, p2) = x_addrspace_clause(s, skip_ws_x(s, q + 1))?;
        Ok((num, alignment, space, p2))
    } else {
        Ok((num, alignment, None, p))
    }
}

/// Reads an optional calling-convention keyword.
fn x_calling_convention(s: &Vec<char>, pos: usize) -> (r: Option<(String, usize)>)
    requires
        pos <= s@.len(),
    ensures
        (r matches Some((w, p)) ==> sp_calling_convention(s@, pos as int) == Some((w@, p as int))
            && pos <= p <= s@.len()),
        r is None ==> sp_calling_convention(s@, pos as int) is None,
{
    let e = ident_end_x(s, pos);
    if word_is(s, pos, "ccc") || word_is(s, pos, "fastcc") || word_is(s, pos, "coldcc") || word_is(
        s,
        pos,
        "tailcc",
    ) || word_is(s, pos, "swiftcc") {
        Some((string_from_range(s, pos, e), e))
    } else {
        None
    }
}

/// Reads one optional return-value attribute keyword.
fn x_one_ret_attr(s: &Vec<char>, pos: usize) -> (r: Option<(ParameterAttribute, usize)>)
    requires
        pos <= s@.len(),
    ensures
        (r matches Some((a, p)) ==> sp_one_ret_attr(s@, pos as int) == Some((a@, p as int)) && pos
            <= p <= s@.len()),
        r is None ==> sp_one_ret_attr(s@, pos as int) is None,
{
    let e = ident_end_x(s, pos);
    if word_is(s, pos, "zeroext") {
        Some((ParameterAttribute::ZeroExtend, e))
    } else if word_is(s, pos, "signext") {
        Some((ParameterAttribute::SignExtend, e))
    } else if word_is(s, pos, "inreg") {
        Some((ParameterAttribute::TargetDependent, e))
    } else if word_is(s, pos, "noalias") {
        Some((ParameterAttribute::NoAlias, e))
    } else if word_is(s, pos, "nonnull") {
        Some((ParameterAttribute::NonNull, e))
    } else if word_is(s, pos, "noundef") {
        Some((ParameterAttribute::NoUndefined, e))
    } else {
        None
    }
}

/// Reads a possibly empty run of return-value attribute keywords.
fn x_ret_attrs(s: &Vec<char>, pos: usize) -> (r: (Vec<ParameterAttribute>, usize))
    requires
        pos <= s@.len(),
    ensures
        sp_ret_attrs(s@, pos as int) == (
            crate::types::parameter_attributes_view(r.0@),
            r.1 as int,
        ),
        pos <= r.1 <= s@.len(),
    decreases s@.len() - pos,
{
    let q = skip_ws_x(s, pos);
    match x_one_ret_attr(s, q) {
        Some((a, e)) => {
            if e > pos {
                let (rest, p) = x_ret_attrs(s, e);
                let ghost rest_snap = rest@;
                let mut attrs = rest;
                attrs.insert(0, a);
                proof {
                    crate::types::lemma_parameter_attributes_view(attrs@);
                    crate::types::lemma_parameter_attributes_view(rest_snap);
                    assert(crate::types::parameter_attributes_view(attrs@) =~= seq![a@]
                        + crate::types::parameter_attributes_view(rest_snap));
                }
                (attrs, p)
            } else {
                let attrs: Vec<ParameterAttribute> = Vec::new();
                proof {
                    crate::types::lemma_parameter_attributes_view(attrs@);
                    assert(crate::types::parameter_attributes_view(attrs@)
                        =~= Seq::<crate::types::ParameterAttributeV>::empty());
                }
                (attrs, pos)
            }
        },
        None => {
            let attrs: Vec<ParameterAttribute> = Vec::new();
            proof {
                crate::types::lemma_parameter_attributes_view(attrs@);
                assert(crate::types::parameter_attributes_view(attrs@)
                    =~= Seq::<crate::types::ParameterAttributeV>::empty());
            }
            (attrs, pos)
        },
    }
}

/// Reads a `call` instruction after the `call` keyword itself.
#[verifier::rlimit(80)]
fn x_call(s: &Vec<char>, pos: usize, hint: TailCallHint) -> (r: Result<
    (Instruction, usize),
    ParseError,
>)
    requires
        pos <= s@.len(),
    ensures
        (r matches Ok((i, p)) ==> sp_call(s@, pos as int, hint) == Ok::<_, ParseErrorV>(
            (i@, p as int),
        ) && pos <= p <= s@.len()),
        (r matches Err(e) ==> sp_call(s@, pos as int, hint) == Err::<
            (crate::ir::InstructionV, int),
            _,
        >(e@)),
{
    let q = skip_ws_x(s, pos);
    let (convention, p1) = match x_calling_convention(s, q) {
        Some((w, e)) => (Some(w), e),
        None => (None, q),
    };
    let (attrs, p2) = x_ret_attrs(s, p1);
    let (space, p3) = x_addrspace_clause(s, p2)?;
    match crate::parser::p_type(s, skip_ws_x(s, p3)) {
        Err(e) => Err(ParseError::Syntax(e)),
        Ok((t, p4)) => {
            let n = skip_ws_x(s, p4);
            if n < s.len() && s[n] == '@' {
                match x_sigil_name(s, n) {
                    None => Err(err_syntax(n, "the name of the called function")),
                    Some((name, p5)) => {
                        let o = skip_ws_x(s, p5);
                        if o < s.len() && s[o] == '(' {
                            let (arguments, p6) = x_call_args(s, o + 1)?;
                            Ok(
                                (
                                    Instruction::Call {
                                        tail_call_hint: hint,
                                        calling_convention: convention,
                                        return_value_attributes: attrs,
                                        address_space: space,
                                        function_type: t,
                                        function_name: name,
                                        function_arguments: arguments,
                                    },
                                    p6,
                                ),
                            )
                        } else {
                            Err(err_syntax(o, "the argument list of the call"))
                        }
                    },
                }
            } else {
                Err(err_syntax(n, "the name of the called function"))
            }
        },
    }
}

/// Reads `typed-value to type`, the shape of every conversion.
fn x_conversion_operands(s: &Vec<char>, pos: usize) -> (r: Result<(Value, Type, usize), ParseError>)
    requires
        pos <= s@.len(),
    ensures
        (r matches Ok((v, t2, p)) ==> sp_conversion_operands(s@, pos as int) == Ok::<
            _,
            ParseErrorV,
        >(((v@, t2@), p as int)) && pos < p <= s@.len()),
        (r matches Err(e) ==> sp_conversion_operands(s@, pos as int) == Err::<
            ((crate::ir::ValueV, crate::types::TypeV), int),
            _,
        >(e@)),
{
    let (_t, v, p) = x_typed_value(s, pos)?;
    let q = skip_ws_x(s, p);
    if word_is(s, q, "to") {
        match crate::parser::p_type(s, skip_ws_x(s, ident_end_x(s, q))) {
            Err(e) => Err(ParseError::Syntax(e)),
            Ok((t2, p2)) => Ok((v, t2, p2)),
        }
    } else {
        Err(err_syntax(q, "the target type of the conversion"))
    }
}

/// Reads a `load` instruction after the opcode.
#[verifier::rlimit(80)]
fn x_load(s: &Vec<char>, pos: usize) -> (r: Result<(Instruction, usize), ParseError>)
    requires
        pos <= s@.len(),
    ensures
        (r matches Ok((i, p)) ==> sp_load(s@, pos as int) == Ok::<_, ParseErrorV>((i@, p as int))
            && pos <= p <= s@.len()),
        (r matches Err(e) ==> sp_load(s@, pos as int) == Err::<(crate::ir::InstructionV, int), _>(
            e@,
        )),
{
    let q = skip_ws_x(s, pos);
    let (atomic, p0) = if word_is(s, q, "atomic") {
        (true, ident_end_x(s, q))
    } else {
        (false, pos)
    };
    let q1 = skip_ws_x(s, p0);
    let (is_volatile, p1) = if word_is(s, q1, "volatile") {
        (true, ident_end_x(s, q1))
    } else {
        (false, p0)
    };
    match crate::parser::p_type(s, skip_ws_x(s, p1)) {
        Err(e) => Err(ParseError::Syntax(e)),
        Ok((t, p2)) => {
            let q2 = skip_ws_x(s, p2);
            if q2 < s.len() && s[q2] == ',' {
                let (_pt, pointer, p3) = x_typed_value(s, skip_ws_x(s, q2 + 1))?;
                if atomic {
                    let (scope, p4) = x_sync_scope(s, p3)?;
                    let (ordering, p5) = x_ordering(s, skip_ws_x(s, p4))?;
                    match x_align_clause(s, p5) {
                        None => Err(err_syntax(p5, "the alignment of the atomic access")),
                        Some((alignment, p6)) => Ok(
                            (
                                Instruction::AtomicLoad {
                                    is_volatile,
                                    result_type: t,
                                    pointer: Arc::new(pointer),
                                    ordering,
                                    sync_scope: scope,
                                    alignment,
                                },
                                p6,
                            ),
                        ),
                    }
                } else {
                    let (alignment, p4) = match x_align_clause(s, p3) {
                        Some((v, p)) => (Some(v), p),
                        None => (None, p3),
                    };
                    Ok(
                        (
                            Instruction::Load {
                                is_volatile,
                                result_type: t,
                                pointer: Arc::new(pointer),
                                alignment,
                            },
                            p4,
                        ),
                    )
                }
            } else {
                Err(err_syntax(q2, "a comma before the pointer operand"))
            }
        },
    }
}

/// Reads a `store` instruction after the opcode.
#[verifier::rlimit(80)]
fn x_store(s: &Vec<char>, pos: usize) -> (r: Result<(Instruction, usize), ParseError>)
    requires
        pos <= s@.len(),
    ensures
        (r matches Ok((i, p)) ==> sp_store(s@, pos as int) == Ok::<_, ParseErrorV>((i@, p as int))
            && pos <= p <= s@.len()),
        (r matches Err(e) ==> sp_store(s@, pos as int) == Err::<(crate::ir::InstructionV, int), _>(
            e@,
        )),
{
    let q = skip_ws_x(s, pos);
    let (atomic, p0) = if word_is(s, q, "atomic") {
        (true, ident_end_x(s, q))
    } else {
        (false, pos)
    };
    let q1 = skip_ws_x(s, p0);
    let (is_volatile, p1) = if word_is(s, q1, "volatile") {
        (true, ident_end_x(s, q1))
    } else {
        (false, p0)
    };
    let (_t, value, p2) = x_typed_value(s, skip_ws_x(s, p1))?;
    let q2 = skip_ws_x(s, p2);
    if q2 < s.len() && s[q2] == ',' {
        let (_pt, pointer, p3) = x_typed_value(s, skip_ws_x(s, q2 + 1))?;
        if atomic {
            let (scope, p4) = x_sync_scope(s, p3)?;
            let (ordering, p5) = x_ordering(s, skip_ws_x(s, p4))?;
            match x_align_clause(s, p5) {
                None => Err(err_syntax(p5, "the alignment of the atomic access")),
                Some((alignment, p6)) => Ok(
                    (
                        Instruction::AtomicStore {
                            is_volatile,
                            value: Arc::new(value),
                            pointer: Arc::new(pointer),
                            ordering,
                            sync_scope: scope,
                            alignment,
                        },
                        p6,
                    ),
                ),
            }
        } else {
            let (alignment, p4) = match x_align_clause(s, p3) {
                Some((v, p)) => (Some(v), p),
                None => (None, p3),
            };
            Ok(
                (
                    Instruction::Store {
                        is_volatile,
                        value: Arc::new(value),
                        pointer: Arc::new(pointer),
                        alignment,
                    },
                    p4,
                ),
            )
        }
    } else {
        Err(err_syntax(q2, "a comma before the pointer operand"))
    }
}

/// Reads the `(low, high)` byte-range of an `inrange` flag.
fn x_inrange_kind(s: &Vec<char>, pos: usize) -> (r: Result<(GetPointerKind, usize), ParseError>)
    requires
        pos <= s@.len(),
    ensures
        (r matches Ok((k, p)) ==> sp_inrange_kind(s@, pos as int) == Some((k, p as int)) && pos
            <= p <= s@.len()),
        r is Err ==> sp_inrange_kind(s@, pos as int) is None,
        (r matches Err(e) ==> e@ == ParseErrorV::Syntax),
{
    let q = skip_ws_x(s, pos);
    if q < s.len() && s[q] == '(' {
        let a = skip_ws_x(s, q + 1);
        if a < s.len() && is_digit(s[a]) {
            match read_number(s, a) {
                Some((lo, e1)) => {
                    let c = skip_ws_x(s, e1);
                    if c < s.len() && s[c] == ',' {
                        let b = skip_ws_x(s, c + 1);
                        if b < s.len() && is_digit(s[b]) {
                            match read_number(s, b) {
                                Some((hi, e2)) => {
                                    let d = skip_ws_x(s, e2);
                                    if d < s.len() && s[d] == ')' {
                                        Ok((GetPointerKind::InRange(lo, hi), d + 1))
                                    } else {
                                        Err(err_syntax(d, "the closing of the byte range"))
                                    }
                                },
                                None => Err(err_syntax(b, "a bound small enough to represent")),
                            }
                        } else {
                            Err(err_syntax(b, "the high bound of the byte range"))
                        }
                    } else {
                        Err(err_syntax(c, "a comma between the bounds"))
                    }
                },
                None => Err(err_syntax(a, "a bound small enough to represent")),
            }
        } else {
            Err(err_syntax(a, "the low bound of the byte range"))
        }
    } else {
        Err(err_syntax(q, "the byte range of the flag"))
    }
}

/// Reads a `getelementptr` instruction after the opcode.
#[verifier::rlimit(80)]
fn x_gep(s: &Vec<char>, pos: usize) -> (r: Result<(Instruction, usize), ParseError>)
    requires
        pos <= s@.len(),
    ensures
        (r matches Ok((i, p)) ==> sp_gep(s@, pos as int) == Ok::<_, ParseErrorV>((i@, p as int))
            && pos <= p <= s@.len()),
        (r matches Err(e) ==> sp_gep(s@, pos as int) == Err::<(crate::ir::InstructionV, int), _>(
            e@,
        )),
{
    let q = skip_ws_x(s, pos);
    let kind_result: Result<(GetPointerKind, usize), ParseError> = if word_is(s, q, "inbounds") {
        Ok((GetPointerKind::InBounds, ident_end_x(s, q)))
    } else if word_is(s, q, "inrange") {
        x_inrange_kind(s, ident_end_x(s, q))
    } else {
        Ok((GetPointerKind::Regular, pos))
    };
    match kind_result {
        Err(e) => Err(e),
        Ok((kind, p0)) => match crate::parser::p_type(s, skip_ws_x(s, p0)) {
            Err(e) => Err(ParseError::Syntax(e)),
            Ok((t, p1)) => {
                let q1 = skip_ws_x(s, p1);
                if q1 < s.len() && s[q1] == ',' {
                    let (_pt, pointer, p2) = x_typed_value(s, skip_ws_x(s, q1 + 1))?;
                    let (indices, p3) = x_gep_indices(s, p2)?;
                    Ok(
                        (
                            Instruction::GetElementPointer {
                                kind,
                                pointer_type: t,
                                pointer: Arc::new(pointer),
                                indices,
                            },
                            p3,
                        ),
                    )
                } else {
                    Err(err_syntax(q1, "a comma before the pointer operand"))
                }
            },
        },
    }
}

/// Reads a non-terminator instruction, dispatching on its opcode.
#[verifier::rlimit(100)]
fn x_instruction(s: &Vec<char>, pos: usize) -> (r: Result<(Instruction, usize), ParseError>)
    requires
        pos <= s@.len(),
    ensures
        (r matches Ok((i, p)) ==> sp_instruction(s@, pos as int) == Ok::<_, ParseErrorV>(
            (i@, p as int),
        ) && pos <= p <= s@.len()),
        (r matches Err(e) ==> sp_instruction(s@, pos as int) == Err::<
            (crate::ir::InstructionV, int),
            _,
        >(e@)),
{
    let e = ident_end_x(s, pos);
    if word_is(s, pos, "add") {
        let (wrap, p) = x_wrapping_flags(s, e);
        let (_t, v1, v2, p2) = x_binary_operands(s, skip_ws_x(s, p))?;
        Ok(
            (
                Instruction::Add {
                    left_hand_side: Arc::new(v1),
                    right_hand_side: Arc::new(v2),
                    allowed_wrapping: wrap,
                },
                p2,
            ),
        )
    } else if word_is(s, pos, "sub") {
        let (wrap, p) = x_wrapping_flags(s, e);
        let (_t, v1, v2, p2) = x_binary_operands(s, skip_ws_x(s, p))?;
        Ok(
            (
                Instruction::Subtract {
                    left_hand_side: Arc::new(v1),
                    right_hand_side: Arc::new(v2),
                    allowed_wrapping: wrap,
                },
                p2,
            ),
        )
    } else if word_is(s, pos, "mul") {
        let (wrap, p) = x_wrapping_flags(s, e);
        let (_t, v1, v2, p2) = x_binary_operands(s, skip_ws_x(s, p))?;
        Ok(
            (
                Instruction::Multiply {
                    left_hand_side: Arc::new(v1),
                    right_hand_side: Arc::new(v2),
                    allowed_wrapping: wrap,
                },
                p2,
            ),
        )
    } else if word_is(s, pos, "shl") {
        let (wrap, p) = x_wrapping_flags(s, e);
        let (_t, v1, v2, p2) = x_binary_operands(s, skip_ws_x(s, p))?;
        Ok(
            (
                Instruction::ShiftLeft {
                    left_hand_side: Arc::new(v1),
                    right_hand_side: Arc::new(v2),
                    allowed_wrapping: wrap,
                },
                p2,
            ),
        )
    } else if word_is(s, pos, "udiv") {
        let (is_exact, p) = x_exact_flag(s, e);
        let (_t, v1, v2, p2) = x_binary_operands(s, skip_ws_x(s, p))?;
        Ok(
            (
                Instruction::UnsignedDivide {
                    left_hand_side: Arc::new(v1),
                    right_hand_side: Arc::new(v2),
                    is_exact,
                },
                p2,
            ),
        )
    } else if word_is(s, pos, "sdiv") {
        let (is_exact, p) = x_exact_flag(s, e);
        let (_t, v1, v2, p2) = x_binary_operands(s, skip_ws_x(s, p))?;
        Ok(
            (
                Instruction::SignedDivide {
                    left_hand_side: Arc::new(v1),
                    right_hand_side: Arc::new(v2),
                    is_exact,
                },
                p2,
            ),
        )
    } else if word_is(s, pos, "lshr") {
        let (is_exact, p) = x_exact_flag(s, e);
        let (_t, v1, v2, p2) = x_binary_operands(s, skip_ws_x(s, p))?;
        Ok(
            (
                Instruction::LogicalShiftRight {
                    left_hand_side: Arc::new(v1),
                    right_hand_side: Arc::new(v2),
                    is_exact,
                },
                p2,
            ),
        )
    } else if word_is(s, pos, "ashr") {
        let (is_exact, p) = x_exact_flag(s, e);
        let (_t, v1, v2, p2) = x_binary_operands(s, skip_ws_x(s, p))?;
        Ok(
            (
                Instruction::ArithmeticShiftRight {
                    left_hand_side: Arc::new(v1),
                    right_hand_side: Arc::new(v2),
                    is_exact,
                },
                p2,
            ),
        )
    } else if word_is(s, pos, "urem") {
        let (_t, v1, v2, p2) = x_binary_operands(s, skip_ws_x(s, e))?;
        Ok(
            (
                Instruction::UnsignedRemainder {
                    left_hand_side: Arc::new(v1),
                    right_hand_side: Arc::new(v2),
                },
                p2,
            ),
        )
    } else if word_is(s, pos, "srem") {
        let (_t, v1, v2, p2) = x_binary_operands(s, skip_ws_x(s, e))?;
        Ok(
            (
                Instruction::SignedRemainder {
                    left_hand_side: Arc::new(v1),
                    right_hand_side: Arc::new(v2),
                },
                p2,
            ),
        )
    } else if word_is(s, pos, "and") {
        let (_t, v1, v2, p2) = x_binary_operands(s, skip_ws_x(s, e))?;
        Ok(
            (
                Instruction::And {
                    left_hand_side: Arc::new(v1),
                    right_hand_side: Arc::new(v2),
                },
                p2,
            ),
        )
    } else if word_is(s, pos, "xor") {
        let (_t, v1, v2, p2) = x_binary_operands(s, skip_ws_x(s, e))?;
        Ok(
            (
                Instruction::ExclusiveOr {
                    left_hand_side: Arc::new(v1),
                    right_hand_side: Arc::new(v2),
                },
                p2,
            ),
        )
    } else if word_is(s, pos, "or") {
        let q = skip_ws_x(s, e);
        let (disjoint, p) = if word_is(s, q, "disjoint") {
            (true, ident_end_x(s, q))
        } else {
            (false, e)
        };
        let (_t, v1, v2, p2) = x_binary_operands(s, skip_ws_x(s, p))?;
        Ok(
            (
                Instruction::Or {
                    left_hand_side: Arc::new(v1),
                    right_hand_side: Arc::new(v2),
                    disjoint,
                },
                p2,
            ),
        )
    } else {
        x_instruction_aggregate_memory(s, pos)
    }
}

/// The aggregate, memory and conversion arms of the instruction
/// dispatch.
#[verifier::rlimit(100)]
fn x_instruction_aggregate_memory(s: &Vec<char>, pos: usize) -> (r: Result<(Instruction, usize), ParseError>)
    requires
        pos <= s@.len(),
        word_at(s@, pos as int) != "add"@,
        word_at(s@, pos as int) != "sub"@,
        word_at(s@, pos as int) != "mul"@,
        word_at(s@, pos as int) != "shl"@,
        word_at(s@, pos as int) != "udiv"@,
        word_at(s@, pos as int) != "sdiv"@,
        word_at(s@, pos as int) != "lshr"@,
        word_at(s@, pos as int) != "ashr"@,
        word_at(s@, pos as int) != "urem"@,
        word_at(s@, pos as int) != "srem"@,
        word_at(s@, pos as int) != "and"@,
        word_at(s@, pos as int) != "xor"@,
        word_at(s@, pos as int) != "or"@,
    ensures
        (r matches Ok((i, p)) ==> sp_instruction(s@, pos as int) == Ok::<_, ParseErrorV>(
            (i@, p as int),
        ) && pos <= p <= s@.len()),
        (r matches Err(e) ==> sp_instruction(s@, pos as int) == Err::<
            (crate::ir::InstructionV, int),
            _,
        >(e@)),
{
    let e = ident_end_x(s, pos);
    if word_is(s, pos, "extractvalue") {
        let (_t, v, p) = x_typed_value(s, skip_ws_x(s, e))?;
        let (indices, p2) = x_index_list(s, p)?;
        if indices.len() > 0 {
            Ok((Instruction::ExtractValue { aggregate: Arc::new(v), indices }, p2))
        } else {
            Err(err_syntax(p2, "at least one index"))
        }
    } else if word_is(s, pos, "insertvalue") {
        let (_t, agg, p) = x_typed_value(s, skip_ws_x(s, e))?;
        let q = skip_ws_x(s, p);
        if q < s.len() && s[q] == ',' {
            let (_t2, v, p2) = x_typed_value(s, skip_ws_x(s, q + 1))?;
            let (indices, p3) = x_index_list(s, p2)?;
            if indices.len() > 0 {
                Ok(
                    (
                        Instruction::InsertValue {
                            aggregate: Arc::new(agg),
                            value: Arc::new(v),
                            indices,
                        },
                        p3,
                    ),
                )
            } else {
                Err(err_syntax(p3, "at least one index"))
            }
        } else {
            Err(err_syntax(q, "a comma before the inserted value"))
        }
    } else if word_is(s, pos, "alloca") {
        let q = skip_ws_x(s, e);
        let (can_reuse, p) = if word_is(s, q, "inalloca") {
            (true, ident_end_x(s, q))
        } else {
            (false, e)
        };
        match crate::parser::p_type(s, skip_ws_x(s, p)) {
            Err(err) => Err(ParseError::Syntax(err)),
            Ok((t, p2)) => {
                let (num_elements, alignment, address_space, p3) = x_alloca_tail(s, p2)?;
                Ok(
                    (
                        Instruction::StackAllocate {
                            can_reuse,
                            value_type: t,
                            num_elements,
                            alignment,
                            address_space,
                        },
                        p3,
                    ),
                )
            },
        }
    } else if word_is(s, pos, "load") {
        x_load(s, e)
    } else if word_is(s, pos, "store") {
        x_store(s, e)
    } else if word_is(s, pos, "fence") {
        let (scope, p) = x_sync_scope(s, e)?;
        let (ordering, p2) = x_ordering(s, skip_ws_x(s, p))?;
        Ok((Instruction::Fence { ordering, sync_scope: scope }, p2))
    } else if word_is(s, pos, "getelementptr") {
        x_gep(s, e)
    } else {
        x_instruction_conversion(s, pos)
    }
}

/// The conversion arms of the instruction dispatch.
#[verifier::rlimit(100)]
fn x_instruction_conversion(s: &Vec<char>, pos: usize) -> (r: Result<
    (Instruction, usize),
    ParseError,
>)
    requires
        pos <= s@.len(),
        word_at(s@, pos as int) != "add"@,
        word_at(s@, pos as int) != "sub"@,
        word_at(s@, pos as int) != "mul"@,
        word_at(s@, pos as int) != "shl"@,
        word_at(s@, pos as int) != "udiv"@,
        word_at(s@, pos as int) != "sdiv"@,
        word_at(s@, pos as int) != "lshr"@,
        word_at(s@, pos as int) != "ashr"@,
        word_at(s@, pos as int) != "urem"@,
        word_at(s@, pos as int) != "srem"@,
        word_at(s@, pos as int) != "and"@,
        word_at(s@, pos as int) != "xor"@,
        word_at(s@, pos as int) != "or"@,
        word_at(s@, pos as int) != "extractvalue"@,
        word_at(s@, pos as int) != "insertvalue"@,
        word_at(s@, pos as int) != "alloca"@,
        word_at(s@, pos as int) != "load"@,
        word_at(s@, pos as int) != "store"@,
        word_at(s@, pos as int) != "fence"@,
        word_at(s@, pos as int) != "getelementptr"@,
    ensures
        (r matches Ok((i, p)) ==> sp_instruction(s@, pos as int) == Ok::<_, ParseErrorV>(
            (i@, p as int),
        ) && pos <= p <= s@.len()),
        (r matches Err(e) ==> sp_instruction(s@, pos as int) == Err::<
            (crate::ir::InstructionV, int),
            _,
        >(e@)),
{
    let e = ident_end_x(s, pos);
    if word_is(s, pos, "trunc") {
        let (wrap, p) = x_wrapping_flags(s, e);
        let (v, t2, p2) = x_conversion_operands(s, skip_ws_x(s, p))?;
        Ok(
            (
                Instruction::Truncate {
                    allowed_wrapping: wrap,
                    value: Arc::new(v),
                    new_type: t2,
                },
                p2,
            ),
        )
    } else if word_is(s, pos, "zext") {
        let (v, t2, p2) = x_conversion_operands(s, skip_ws_x(s, e))?;
        Ok((Instruction::ZeroExtend { value: Arc::new(v), new_type: t2 }, p2))
    } else if word_is(s, pos, "sext") {
        let (v, t2, p2) = x_conversion_operands(s, skip_ws_x(s, e))?;
        Ok((Instruction::SignExtend { value: Arc::new(v), new_type: t2 }, p2))
    } else if word_is(s, pos, "ptrtoint") {
        let (v, t2, p2) = x_conversion_operands(s, skip_ws_x(s, e))?;
        Ok((Instruction::PointerToInteger { value: Arc::new(v), new_type: t2 }, p2))
    } else if word_is(s, pos, "inttoptr") {
        let (v, t2, p2) = x_conversion_operands(s, skip_ws_x(s, e))?;
        Ok((Instruction::IntegerToPointer { value: Arc::new(v), new_type: t2 }, p2))
    } else if word_is(s, pos, "bitcast") {
        let (v, t2, p2) = x_conversion_operands(s, skip_ws_x(s, e))?;
        Ok((Instruction::BitCast { value: Arc::new(v), new_type: t2 }, p2))
    } else if word_is(s, pos, "addrspacecast") {
        let (v, t2, p2) = x_conversion_operands(s, skip_ws_x(s, e))?;
        Ok((Instruction::AddressSpaceCast { value: Arc::new(v), new_type: t2 }, p2))
    } else {
        x_instruction_control(s, pos)
    }
}

/// The comparison, selection and call arms of the instruction dispatch.
#[verifier::rlimit(100)]
fn x_instruction_control(s: &Vec<char>, pos: usize) -> (r: Result<(Instruction, usize), ParseError>)
    requires
        pos <= s@.len(),
        word_at(s@, pos as int) != "add"@,
        word_at(s@, pos as int) != "sub"@,
        word_at(s@, pos as int) != "mul"@,
        word_at(s@, pos as int) != "shl"@,
        word_at(s@, pos as int) != "udiv"@,
        word_at(s@, pos as int) != "sdiv"@,
        word_at(s@, pos as int) != "lshr"@,
        word_at(s@, pos as int) != "ashr"@,
        word_at(s@, pos as int) != "urem"@,
        word_at(s@, pos as int) != "srem"@,
        word_at(s@, pos as int) != "and"@,
        word_at(s@, pos as int) != "xor"@,
        word_at(s@, pos as int) != "or"@,
        word_at(s@, pos as int) != "extractvalue"@,
        word_at(s@, pos as int) != "insertvalue"@,
        word_at(s@, pos as int) != "alloca"@,
        word_at(s@, pos as int) != "load"@,
        word_at(s@, pos as int) != "store"@,
        word_at(s@, pos as int) != "fence"@,
        word_at(s@, pos as int) != "getelementptr"@,
        word_at(s@, pos as int) != "trunc"@,
        word_at(s@, pos as int) != "zext"@,
        word_at(s@, pos as int) != "sext"@,
        word_at(s@, pos as int) != "ptrtoint"@,
        word_at(s@, pos as int) != "inttoptr"@,
        word_at(s@, pos as int) != "bitcast"@,
        word_at(s@, pos as int) != "addrspacecast"@,
    ensures
        (r matches Ok((i, p)) ==> sp_instruction(s@, pos as int) == Ok::<_, ParseErrorV>(
            (i@, p as int),
        ) && pos <= p <= s@.len()),
        (r matches Err(e) ==> sp_instruction(s@, pos as int) == Err::<
            (crate::ir::InstructionV, int),
            _,
        >(e@)),
{
    let e = ident_end_x(s, pos);
    if word_is(s, pos, "icmp") {
        let (comparison, p) = x_comparison(s, skip_ws_x(s, e))?;
        let (_t, v1, v2, p2) = x_binary_operands(s, skip_ws_x(s, p))?;
        Ok(
            (
                Instruction::CompareIntegers {
                    comparison,
                    left_hand_side: Arc::new(v1),
                    right_hand_side: Arc::new(v2),
                },
                p2,
            ),
        )
    } else if word_is(s, pos, "select") {
        let (_t, condition, p) = x_typed_value(s, skip_ws_x(s, e))?;
        let q = skip_ws_x(s, p);
        if q < s.len() && s[q] == ',' {
            let (_t2, tv, p2) = x_typed_value(s, skip_ws_x(s, q + 1))?;
            let q2 = skip_ws_x(s, p2);
            if q2 < s.len() && s[q2] == ',' {
                let (_t3, fv, p3) = x_typed_value(s, skip_ws_x(s, q2 + 1))?;
                Ok(
                    (
                        Instruction::Select {
                            condition: Arc::new(condition),
                            true_value: Arc::new(tv),
                            false_value: Arc::new(fv),
                        },
                        p3,
                    ),
                )
            } else {
                Err(err_syntax(q2, "a comma before the third operand"))
            }
        } else {
            Err(err_syntax(q, "a comma before the second operand"))
        }
    } else if word_is(s, pos, "freeze") {
        let (_t, v, p) = x_typed_value(s, skip_ws_x(s, e))?;
        Ok((Instruction::Freeze { value: Arc::new(v) }, p))
    } else if word_is(s, pos, "call") {
        x_call(s, e, TailCallHint::Indifferent)
    } else if word_is(s, pos, "tail") {
        let q = skip_ws_x(s, e);
        if word_is(s, q, "call") {
            x_call(s, ident_end_x(s, q), TailCallHint::ShouldTail)
        } else {
            Err(err_syntax(q, "the call after the tail hint"))
        }
    } else if word_is(s, pos, "musttail") {
        let q = skip_ws_x(s, e);
        if word_is(s, q, "call") {
            x_call(s, ident_end_x(s, q), TailCallHint::MustTail)
        } else {
            Err(err_syntax(q, "the call after the tail hint"))
        }
    } else if word_is(s, pos, "notail") {
        let q = skip_ws_x(s, e);
        if word_is(s, q, "call") {
            x_call(s, ident_end_x(s, q), TailCallHint::NeverTail)
        } else {
            Err(err_syntax(q, "the call after the tail hint"))
        }
    } else if x_is_unsupported_opcode(s, pos) {
        let construct = string_from_range(s, pos, e);
        Err(ParseError::Unsupported { position: pos, construct })
    } else {
        Err(err_syntax(pos, "an instruction opcode"))
    }
}

/// Whether the word at `pos` is an opcode the model does not cover yet.
fn x_is_unsupported_opcode(s: &Vec<char>, pos: usize) -> (r: bool)
    requires
        pos <= s@.len(),
    ensures
        r == crate::ir_grammar::is_unsupported_opcode(word_at(s@, pos as int)),
{
    word_is(s, pos, "fneg") || word_is(s, pos, "fadd") || word_is(s, pos, "fsub") || word_is(
        s,
        pos,
        "fmul",
    ) || word_is(s, pos, "fdiv") || word_is(s, pos, "frem") || word_is(s, pos, "fcmp") || word_is(
        s,
        pos,
        "phi",
    ) || word_is(s, pos, "extractelement") || word_is(s, pos, "insertelement") || word_is(
        s,
        pos,
        "shufflevector",
    ) || word_is(s, pos, "atomicrmw") || word_is(s, pos, "cmpxchg") || word_is(s, pos, "va_arg")
        || word_is(s, pos, "landingpad") || word_is(s, pos, "catchpad") || word_is(
        s,
        pos,
        "cleanuppad",
    )
}

/// Reads `label %name` as a label-typed identifier value.
fn x_label_value(s: &Vec<char>, pos: usize) -> (r: Result<(Value, usize), ParseError>)
    requires
        pos <= s@.len(),
    ensures
        (r matches Ok((v, p)) ==> crate::ir_grammar::sp_label_value(s@, pos as int) == Some(
            (v@, p as int),
        ) && pos <= p <= s@.len()),
        r is Err ==> crate::ir_grammar::sp_label_value(s@, pos as int) is None,
        (r matches Err(e) ==> e@ == ParseErrorV::Syntax),
{
    let q = skip_ws_x(s, pos);
    if word_is(s, q, "label") {
        let n = skip_ws_x(s, ident_end_x(s, q));
        if n < s.len() && s[n] == '%' {
            match x_sigil_name(s, n) {
                Some((name, p)) => Ok(
                    (Value::FromIdentifier { value_type: Type::Label, identifier: name }, p),
                ),
                None => Err(err_syntax(n, "the name of the destination label")),
            }
        } else {
            Err(err_syntax(n, "the name of the destination label"))
        }
    } else {
        Err(err_syntax(q, "the label keyword of the destination"))
    }
}

/// Reads the case list of a `switch` up to the closing bracket.
fn x_switch_cases(s: &Vec<char>, pos: usize) -> (r: Result<
    (Vec<SwitchDestination>, usize),
    ParseError,
>)
    requires
        pos <= s@.len(),
    ensures
        (r matches Ok((destinations, p)) ==> crate::ir_grammar::sp_switch_cases(s@, pos as int)
            == Ok::<_, ParseErrorV>(
            (crate::ir::switch_destinations_view(destinations@), p as int),
        ) && pos <= p <= s@.len()),
        (r matches Err(e) ==> crate::ir_grammar::sp_switch_cases(s@, pos as int) == Err::<
            (Seq<crate::ir::SwitchDestinationV>, int),
            _,
        >(e@)),
    decreases s@.len() - pos,
{
    let q = skip_ws_x(s, pos);
    if q < s.len() && s[q] == ']' {
        let destinations: Vec<SwitchDestination> = Vec::new();
        proof {
            crate::ir::lemma_switch_destinations_view(destinations@);
            assert(crate::ir::switch_destinations_view(destinations@)
                =~= Seq::<crate::ir::SwitchDestinationV>::empty());
        }
        Ok((destinations, q + 1))
    } else {
        let (_t, v, p) = x_typed_value(s, q)?;
        let q2 = skip_ws_x(s, p);
        if q2 < s.len() && s[q2] == ',' {
            let (dest, p2) = x_label_value(s, q2 + 1)?;
            let (rest, p3) = x_switch_cases(s, p2)?;
            let ghost rest_snap = rest@;
            let mut destinations = rest;
            destinations.insert(
                0,
                SwitchDestination { value: Arc::new(v), destination: Arc::new(dest) },
            );
            proof {
                crate::ir::lemma_switch_destinations_view(destinations@);
                crate::ir::lemma_switch_destinations_view(rest_snap);
                assert(crate::ir::switch_destinations_view(destinations@) =~= seq![
                    crate::ir::SwitchDestinationV { value: v@, destination: dest@ },
                ] + crate::ir::switch_destinations_view(rest_snap));
            }
            Ok((destinations, p3))
        } else {
            Err(err_syntax(q2, "a comma before the case destination"))
        }
    }
}

/// Reads the bracketed destination list of an `indirectbr`.
fn x_indirect_labels(s: &Vec<char>, pos: usize) -> (r: Result<
    (Vec<Arc<Value>>, usize),
    ParseError,
>)
    requires
        pos <= s@.len(),
    ensures
        (r matches Ok((destinations, p)) ==> crate::ir_grammar::sp_indirect_labels(s@, pos as int)
            == Ok::<_, ParseErrorV>((crate::ir::values_view(destinations@), p as int)) && pos < p
            <= s@.len()),
        (r matches Err(e) ==> crate::ir_grammar::sp_indirect_labels(s@, pos as int) == Err::<
            (Seq<crate::ir::ValueV>, int),
            _,
        >(e@)),
    decreases s@.len() - pos,
{
    let (dest, p) = x_label_value(s, pos)?;
    if p <= pos {
        return Err(err_syntax(p, "a destination label"));
    }
    let q = skip_ws_x(s, p);
    if q < s.len() && s[q] == ']' {
        let mut destinations: Vec<Arc<Value>> = Vec::new();
        destinations.push(Arc::new(dest));
        proof {
            crate::ir::lemma_values_view(destinations@);
            assert(crate::ir::values_view(destinations@) =~= seq![dest@]);
        }
        Ok((destinations, q + 1))
    } else if q < s.len() && s[q] == ',' {
        let (rest, p2) = x_indirect_labels(s, q + 1)?;
        let ghost rest_snap = rest@;
        let mut destinations = rest;
        destinations.insert(0, Arc::new(dest));
        proof {
            crate::ir::lemma_values_view(destinations@);
            crate::ir::lemma_values_view(rest_snap);
            assert(crate::ir::values_view(destinations@) =~= seq![dest@]
                + crate::ir::values_view(rest_snap));
        }
        Ok((destinations, p2))
    } else {
        Err(err_syntax(q, "a comma or the closing of the destination list"))
    }
}

/// Reads a terminator, dispatching on its opcode.
#[verifier::rlimit(100)]
fn x_terminator(s: &Vec<char>, pos: usize) -> (r: Result<(Terminator, usize), ParseError>)
    requires
        pos <= s@.len(),
    ensures
        (r matches Ok((t, p)) ==> crate::ir_grammar::sp_terminator(s@, pos as int) == Ok::<
            _,
            ParseErrorV,
        >((t@, p as int)) && pos <= p <= s@.len()),
        (r matches Err(e) ==> crate::ir_grammar::sp_terminator(s@, pos as int) == Err::<
            (crate::ir::TerminatorV, int),
            _,
        >(e@)),
{
    let e = ident_end_x(s, pos);
    if word_is(s, pos, "ret") {
        let q = skip_ws_x(s, e);
        if word_is(s, q, "void") {
            Ok(
                (
                    Terminator::Return {
                        value: Arc::new(
                            Value::FromConstant {
                                constant_type: Type::Void,
                                constant: Constant::Void,
                            },
                        ),
                    },
                    ident_end_x(s, q),
                ),
            )
        } else {
            let (_t, v, p) = x_typed_value(s, q)?;
            Ok((Terminator::Return { value: Arc::new(v) }, p))
        }
    } else if word_is(s, pos, "br") {
        let q = skip_ws_x(s, e);
        if word_is(s, q, "label") {
            let (dest, p) = x_label_value(s, q)?;
            Ok((Terminator::Branch { destination: Arc::new(dest) }, p))
        } else {
            let (_t, condition, p) = x_typed_value(s, q)?;
            let q2 = skip_ws_x(s, p);
            if q2 < s.len() && s[q2] == ',' {
                let (if_true, p2) = x_label_value(s, q2 + 1)?;
                let q3 = skip_ws_x(s, p2);
                if q3 < s.len() && s[q3] == ',' {
                    let (if_false, p3) = x_label_value(s, q3 + 1)?;
                    Ok(
                        (
                            Terminator::ConditionalBranch {
                                condition: Arc::new(condition),
                                if_true: Arc::new(if_true),
                                if_false: Arc::new(if_false),
                            },
                            p3,
                        ),
                    )
                } else {
                    Err(err_syntax(q3, "a comma before the second destination"))
                }
            } else {
                Err(err_syntax(q2, "a comma before the first destination"))
            }
        }
    } else if word_is(s, pos, "switch") {
        let (_t, v, p) = x_typed_value(s, skip_ws_x(s, e))?;
        let q = skip_ws_x(s, p);
        if q < s.len() && s[q] == ',' {
            let (default_dest, p2) = x_label_value(s, q + 1)?;
            let q2 = skip_ws_x(s, p2);
            if q2 < s.len() && s[q2] == '[' {
                let (destinations, p3) = x_switch_cases(s, q2 + 1)?;
                Ok(
                    (
                        Terminator::Switch {
                            value: Arc::new(v),
                            default_destination: Arc::new(default_dest),
                            destinations,
                        },
                        p3,
                    ),
                )
            } else {
                Err(err_syntax(q2, "the case list of the switch"))
            }
        } else {
            Err(err_syntax(q, "a comma before the default destination"))
        }
    } else if word_is(s, pos, "indirectbr") {
        let (_t, address, p) = x_typed_value(s, skip_ws_x(s, e))?;
        let q = skip_ws_x(s, p);
        if q < s.len() && s[q] == ',' {
            let q2 = skip_ws_x(s, q + 1);
            if q2 < s.len() && s[q2] == '[' {
                let (valid_destinations, p2) = x_indirect_labels(s, q2 + 1)?;
                Ok(
                    (
                        Terminator::IndirectBranch {
                            address: Arc::new(address),
                            valid_destinations,
                        },
                        p2,
                    ),
                )
            } else {
                Err(err_syntax(q2, "the destination list of the indirect branch"))
            }
        } else {
            Err(err_syntax(q, "a comma before the destination list"))
        }
    } else if word_is(s, pos, "unreachable") {
        Ok((Terminator::Unreachable, e))
    } else if x_is_unsupported_terminator(s, pos) {
        let construct = string_from_range(s, pos, e);
        Err(ParseError::Unsupported { position: pos, construct })
    } else {
        Err(err_syntax(pos, "a terminator opcode"))
    }
}

/// Whether the word at `pos` is a terminator opcode the model does not
/// cover yet.
fn x_is_unsupported_terminator(s: &Vec<char>, pos: usize) -> (r: bool)
    requires
        pos <= s@.len(),
    ensures
        r == crate::ir_grammar::is_unsupported_terminator(word_at(s@, pos as int)),
{
    word_is(s, pos, "invoke") || word_is(s, pos, "callbr") || word_is(s, pos, "resume") || word_is(
        s,
        pos,
        "catchswitch",
    ) || word_is(s, pos, "catchret") || word_is(s, pos, "cleanupret")
}

/// Whether the word at `pos` is a terminator opcode the model covers.
fn x_is_terminator_opcode(s: &Vec<char>, pos: usize) -> (r: bool)
    requires
        pos <= s@.len(),
    ensures
        r == crate::ir_grammar::is_terminator_opcode(word_at(s@, pos as int)),
{
    word_is(s, pos, "ret") || word_is(s, pos, "br") || word_is(s, pos, "switch") || word_is(
        s,
        pos,
        "indirectbr",
    ) || word_is(s, pos, "unreachable")
}

/// Reads one operation: an assignment or a bare instruction.
fn x_operation(s: &Vec<char>, pos: usize) -> (r: Result<(Operation, usize), ParseError>)
    requires
        pos <= s@.len(),
    ensures
        (r matches Ok((op, p)) ==> crate::ir_grammar::sp_operation(s@, pos as int) == Ok::<
            _,
            ParseErrorV,
        >((op@, p as int)) && pos <= p <= s@.len()),
        (r matches Err(e) ==> crate::ir_grammar::sp_operation(s@, pos as int) == Err::<
            (crate::llvm::OperationV, int),
            _,
        >(e@)),
{
    if pos < s.len() && s[pos] == '%' {
        match x_sigil_name(s, pos) {
            None => Err(err_syntax(pos, "the name bound by the assignment")),
            Some((name, p)) => {
                let q = skip_ws_x(s, p);
                if q < s.len() && s[q] == '=' {
                    let (i, p2) = x_instruction(s, skip_ws_x(s, q + 1))?;
                    Ok((Operation::Assignment { identifier: name, value: i }, p2))
                } else {
                    Err(err_syntax(q, "the equals sign of the assignment"))
                }
            },
        }
    } else {
        let (i, p) = x_instruction(s, pos)?;
        Ok((Operation::NoAssignment { instruction: i }, p))
    }
}

/// Reads the operations of a block up to and including its terminator.
fn x_block_body(s: &Vec<char>, pos: usize) -> (r: Result<
    (Vec<Operation>, Terminator, usize),
    ParseError,
>)
    requires
        pos <= s@.len(),
    ensures
        (r matches Ok((ops, t, p)) ==> crate::ir_grammar::sp_block_body(s@, pos as int) == Ok::<
            _,
            ParseErrorV,
        >(((crate::llvm::operations_view(ops@), t@), p as int)) && pos <= p <= s@.len()),
        (r matches Err(e) ==> crate::ir_grammar::sp_block_body(s@, pos as int) == Err::<
            ((Seq<crate::llvm::OperationV>, crate::ir::TerminatorV), int),
            _,
        >(e@)),
    decreases s@.len() - pos,
{
    if x_is_terminator_opcode(s, pos) || x_is_unsupported_terminator(s, pos) {
        let (t, p) = x_terminator(s, pos)?;
        let ops: Vec<Operation> = Vec::new();
        proof {
            assert(crate::llvm::operations_view(ops@)
                =~= Seq::<crate::llvm::OperationV>::empty());
        }
        Ok((ops, t, p))
    } else {
        let (op, p) = x_operation(s, pos)?;
        if p <= pos {
            return Err(err_syntax(p, "an operation"));
        }
        let (rest, t, p2) = x_block_body(s, skip_ws_x(s, p))?;
        let ghost rest_snap = rest@;
        let mut ops = rest;
        ops.insert(0, op);
        proof {
            assert(crate::llvm::operations_view(ops@) =~= seq![op@]
                + crate::llvm::operations_view(rest_snap));
        }
        Ok((ops, t, p2))
    }
}

/// Reads a basic block: an optional label directly followed by its
/// colon, then operations and a terminator.
fn x_basic_block(s: &Vec<char>, pos: usize) -> (r: Result<
    (crate::llvm::BasicBlock, usize),
    ParseError,
>)
    requires
        pos <= s@.len(),
    ensures
        (r matches Ok((b, p)) ==> crate::ir_grammar::sp_basic_block(s@, pos as int) == Ok::<
            _,
            ParseErrorV,
        >((b@, p as int)) && pos <= p <= s@.len()),
        (r matches Err(e) ==> crate::ir_grammar::sp_basic_block(s@, pos as int) == Err::<
            (crate::llvm::BasicBlockV, int),
            _,
        >(e@)),
{
    let e = ident_end_x(s, pos);
    if e > pos && e < s.len() && s[e] == ':' {
        let name = string_from_range(s, pos, e);
        let (operations, terminator, p) = x_block_body(s, skip_ws_x(s, e + 1))?;
        Ok((crate::llvm::BasicBlock { name: Some(name), operations, terminator }, p))
    } else {
        let (operations, terminator, p) = x_block_body(s, pos)?;
        Ok((crate::llvm::BasicBlock { name: None, operations, terminator }, p))
    }
}

/// Reads basic blocks until the closing brace of the function body.
fn x_blocks(s: &Vec<char>, pos: usize) -> (r: Result<
    (Vec<crate::llvm::BasicBlock>, usize),
    ParseError,
>)
    requires
        pos <= s@.len(),
    ensures
        (r matches Ok((blocks, p)) ==> crate::ir_grammar::sp_blocks(s@, pos as int) == Ok::<
            _,
            ParseErrorV,
        >((crate::llvm::basic_blocks_view(blocks@), p as int)) && pos <= p <= s@.len()),
        (r matches Err(e) ==> crate::ir_grammar::sp_blocks(s@, pos as int) == Err::<
            (Seq<crate::llvm::BasicBlockV>, int),
            _,
        >(e@)),
    decreases s@.len() - pos,
{
    let q = skip_ws_x(s, pos);
    if q < s.len() && s[q] == '}' {
        let blocks: Vec<crate::llvm::BasicBlock> = Vec::new();
        proof {
            assert(crate::llvm::basic_blocks_view(blocks@)
                =~= Seq::<crate::llvm::BasicBlockV>::empty());
        }
        Ok((blocks, q + 1))
    } else {
        let (b, p) = x_basic_block(s, q)?;
        if p <= pos {
            return Err(err_syntax(p, "a basic block"));
        }
        let (rest, p2) = x_blocks(s, p)?;
        let ghost rest_snap = rest@;
        let mut blocks = rest;
        blocks.insert(0, b);
        proof {
            assert(crate::llvm::basic_blocks_view(blocks@) =~= seq![b@]
                + crate::llvm::basic_blocks_view(rest_snap));
        }
        Ok((blocks, p2))
    }
}

/// Reads an optional linkage keyword.
fn x_linkage(s: &Vec<char>, pos: usize) -> (r: (crate::llvm::LinkageType, usize))
    requires
        pos <= s@.len(),
    ensures
        (r.0, r.1 as int) == crate::ir_grammar::sp_linkage(s@, pos as int),
        pos <= r.1 <= s@.len(),
{
    let q = skip_ws_x(s, pos);
    let e = ident_end_x(s, q);
    if word_is(s, q, "private") {
        (crate::llvm::LinkageType::Private, e)
    } else if word_is(s, q, "internal") {
        (crate::llvm::LinkageType::Internal, e)
    } else if word_is(s, q, "available_externally") {
        (crate::llvm::LinkageType::AvailableExternally, e)
    } else if word_is(s, q, "linkonce") {
        (crate::llvm::LinkageType::LinkOnce, e)
    } else if word_is(s, q, "weak") {
        (crate::llvm::LinkageType::Weak, e)
    } else if word_is(s, q, "common") {
        (crate::llvm::LinkageType::Common, e)
    } else if word_is(s, q, "appending") {
        (crate::llvm::LinkageType::Appending, e)
    } else if word_is(s, q, "extern_weak") {
        (crate::llvm::LinkageType::ExternalWeak, e)
    } else if word_is(s, q, "linkonce_odr") {
        (crate::llvm::LinkageType::LinkOnceODR, e)
    } else if word_is(s, q, "weak_odr") {
        (crate::llvm::LinkageType::WeakODR, e)
    } else if word_is(s, q, "external") {
        (crate::llvm::LinkageType::External, e)
    } else {
        (crate::llvm::LinkageType::External, pos)
    }
}

/// Reads an optional runtime preemption keyword.
fn x_preemption(s: &Vec<char>, pos: usize) -> (r: (crate::llvm::PreemptionSpecifier, usize))
    requires
        pos <= s@.len(),
    ensures
        (r.0, r.1 as int) == crate::ir_grammar::sp_preemption(s@, pos as int),
        pos <= r.1 <= s@.len(),
{
    let q = skip_ws_x(s, pos);
    let e = ident_end_x(s, q);
    if word_is(s, q, "dso_preemptable") {
        (crate::llvm::PreemptionSpecifier::Preemptable, e)
    } else if word_is(s, q, "dso_local") {
        (crate::llvm::PreemptionSpecifier::Local, e)
    } else {
        (crate::llvm::PreemptionSpecifier::Preemptable, pos)
    }
}

/// Reads an optional visibility keyword.
fn x_visibility(s: &Vec<char>, pos: usize) -> (r: (crate::llvm::Visibility, usize))
    requires
        pos <= s@.len(),
    ensures
        (r.0, r.1 as int) == crate::ir_grammar::sp_visibility(s@, pos as int),
        pos <= r.1 <= s@.len(),
{
    let q = skip_ws_x(s, pos);
    let e = ident_end_x(s, q);
    if word_is(s, q, "hidden") {
        (crate::llvm::Visibility::Hidden, e)
    } else if word_is(s, q, "protected") {
        (crate::llvm::Visibility::Protected, e)
    } else if word_is(s, q, "default") {
        (crate::llvm::Visibility::Default, e)
    } else {
        (crate::llvm::Visibility::Default, pos)
    }
}

/// Reads the parenthesized parameter list of a function definition.
fn x_fn_params(s: &Vec<char>, pos: usize) -> (r: Result<
    (Vec<crate::llvm::FunctionParameter>, usize),
    ParseError,
>)
    requires
        pos <= s@.len(),
    ensures
        (r matches Ok((arguments, p)) ==> crate::ir_grammar::sp_fn_params(s@, pos as int) == Ok::<
            _,
            ParseErrorV,
        >((crate::llvm::function_parameters_view(arguments@), p as int)) && pos <= p <= s@.len()),
        (r matches Err(e) ==> crate::ir_grammar::sp_fn_params(s@, pos as int) == Err::<
            (Seq<crate::llvm::FunctionParameterV>, int),
            _,
        >(e@)),
    decreases s@.len() - pos, 1int,
{
    let q = skip_ws_x(s, pos);
    if q < s.len() && s[q] == ')' {
        let arguments: Vec<crate::llvm::FunctionParameter> = Vec::new();
        proof {
            assert(crate::llvm::function_parameters_view(arguments@)
                =~= Seq::<crate::llvm::FunctionParameterV>::empty());
        }
        Ok((arguments, q + 1))
    } else {
        x_fn_params_items(s, q)
    }
}

/// Reads one or more `type %name` parameters up to `)`.
fn x_fn_params_items(s: &Vec<char>, pos: usize) -> (r: Result<
    (Vec<crate::llvm::FunctionParameter>, usize),
    ParseError,
>)
    requires
        pos <= s@.len(),
    ensures
        (r matches Ok((arguments, p)) ==> crate::ir_grammar::sp_fn_params_items(s@, pos as int)
            == Ok::<_, ParseErrorV>(
            (crate::llvm::function_parameters_view(arguments@), p as int),
        ) && pos < p <= s@.len()),
        (r matches Err(e) ==> crate::ir_grammar::sp_fn_params_items(s@, pos as int) == Err::<
            (Seq<crate::llvm::FunctionParameterV>, int),
            _,
        >(e@)),
    decreases s@.len() - pos, 0int,
{
    match crate::parser::p_type(s, pos) {
        Err(e) => Err(ParseError::Syntax(e)),
        Ok((t, p)) => {
            let n = skip_ws_x(s, p);
            if n < s.len() && s[n] == '%' {
                match x_sigil_name(s, n) {
                    None => Err(err_syntax(n, "the name of the parameter")),
                    Some((name, p2)) => {
                        let q = skip_ws_x(s, p2);
                        if q < s.len() && s[q] == ')' {
                            let mut arguments: Vec<crate::llvm::FunctionParameter> = Vec::new();
                            arguments.push(
                                crate::llvm::FunctionParameter { parameter_type: t, name },
                            );
                            proof {
                                assert(crate::llvm::function_parameters_view(arguments@)
                                    =~= seq![arguments@[0]@]);
                            }
                            Ok((arguments, q + 1))
                        } else if q < s.len() && s[q] == ',' {
                            let q2 = skip_ws_x(s, q + 1);
                            let (rest, p3) = x_fn_params_items(s, q2)?;
                            let ghost rest_snap = rest@;
                            let mut arguments = rest;
                            arguments.insert(
                                0,
                                crate::llvm::FunctionParameter { parameter_type: t, name },
                            );
                            proof {
                                assert(crate::llvm::function_parameters_view(arguments@)
                                    =~= seq![arguments@[0]@]
                                    + crate::llvm::function_parameters_view(rest_snap));
                            }
                            Ok((arguments, p3))
                        } else {
                            Err(err_syntax(q, "a comma or the closing of the parameter list"))
                        }
                    },
                }
            } else {
                Err(err_syntax(n, "the name of the parameter"))
            }
        },
    }
}

/// Reads an optional `section`, `partition` or `gc` clause with a quoted
/// name.
fn x_named_clause(s: &Vec<char>, pos: usize, kw: &str) -> (r: Result<
    (Option<String>, usize),
    ParseError,
>)
    requires
        pos <= s@.len(),
    ensures
        (r matches Ok((name, p)) ==> crate::ir_grammar::sp_named_clause(s@, pos as int, kw@)
            == Some((crate::ir::opt_string_view(name), p as int)) && pos <= p <= s@.len()),
        r is Err ==> crate::ir_grammar::sp_named_clause(s@, pos as int, kw@) is None,
        (r matches Err(e) ==> e@ == ParseErrorV::Syntax),
{
    let q = skip_ws_x(s, pos);
    if word_is(s, q, kw) {
        match read_quoted(s, skip_ws_x(s, ident_end_x(s, q))) {
            Some((name, p)) => Ok((Some(name), p)),
            None => Err(err_syntax(q, "the quoted name of the clause")),
        }
    } else {
        Ok((None, pos))
    }
}

/// Reads an optional `align n` clause of a function header.
fn x_fn_align(s: &Vec<char>, pos: usize) -> (r: Result<(Option<usize>, usize), ParseError>)
    requires
        pos <= s@.len(),
    ensures
        (r matches Ok((v, p)) ==> crate::ir_grammar::sp_fn_align(s@, pos as int) == Some(
            (crate::ir::opt_nat_view(v), p as int),
        ) && pos <= p <= s@.len()),
        r is Err ==> crate::ir_grammar::sp_fn_align(s@, pos as int) is None,
        (r matches Err(e) ==> e@ == ParseErrorV::Syntax),
{
    let q = skip_ws_x(s, pos);
    if word_is(s, q, "align") {
        let d = skip_ws_x(s, ident_end_x(s, q));
        if d < s.len() && is_digit(s[d]) {
            match read_number(s, d) {
                Some((v, e)) => Ok((Some(v), e)),
                None => Err(err_syntax(d, "an alignment small enough to represent")),
            }
        } else {
            Err(err_syntax(d, "the alignment value"))
        }
    } else {
        Ok((None, pos))
    }
}

/// Reads a whole function definition starting at the `define` keyword.
#[verifier::rlimit(100)]
fn x_function(s: &Vec<char>, pos: usize) -> (r: Result<(crate::llvm::Function, usize), ParseError>)
    requires
        pos <= s@.len(),
    ensures
        (r matches Ok((f, p)) ==> crate::ir_grammar::sp_function(s@, pos as int) == Ok::<
            _,
            ParseErrorV,
        >((f@, p as int)) && pos <= p <= s@.len()),
        (r matches Err(e) ==> crate::ir_grammar::sp_function(s@, pos as int) == Err::<
            (crate::llvm::FunctionV, int),
            _,
        >(e@)),
{
    if word_is(s, pos, "define") {
        let (linkage, p1) = x_linkage(s, ident_end_x(s, pos));
        let (preemption, p2) = x_preemption(s, p1);
        let (visibility, p3) = x_visibility(s, p2);
        let (attrs, p4) = x_ret_attrs(s, p3);
        match crate::parser::p_type(s, skip_ws_x(s, p4)) {
            Err(e) => Err(ParseError::Syntax(e)),
            Ok((return_type, p5)) => {
                let n = skip_ws_x(s, p5);
                if n < s.len() && s[n] == '@' {
                    match x_sigil_name(s, n) {
                        None => Err(err_syntax(n, "the name of the function")),
                        Some((name, p6)) => {
                            let o = skip_ws_x(s, p6);
                            if o < s.len() && s[o] == '(' {
                                let (arguments, p7) = x_fn_params(s, o + 1)?;
                                x_function_tail(
                                    s,
                                    p7,
                                    linkage,
                                    preemption,
                                    visibility,
                                    attrs,
                                    return_type,
                                    name,
                                    arguments,
                                )
                            } else {
                                Err(err_syntax(o, "the parameter list of the function"))
                            }
                        },
                    }
                } else {
                    Err(err_syntax(n, "the name of the function"))
                }
            },
        }
    } else {
        Err(err_syntax(pos, "a function definition"))
    }
}

/// Reads the trailing clauses and the body of a function definition.
#[verifier::rlimit(100)]
fn x_function_tail(
    s: &Vec<char>,
    pos: usize,
    linkage: crate::llvm::LinkageType,
    preemption: crate::llvm::PreemptionSpecifier,
    visibility: crate::llvm::Visibility,
    attrs: Vec<ParameterAttribute>,
    return_type: Type,
    name: String,
    arguments: Vec<crate::llvm::FunctionParameter>,
) -> (r: Result<(crate::llvm::Function, usize), ParseError>)
    requires
        pos <= s@.len(),
    ensures
        (r matches Ok((f, p)) ==> crate::ir_grammar::sp_function_tail(
            s@,
            pos as int,
            linkage,
            preemption,
            visibility,
            crate::types::parameter_attributes_view(attrs@),
            return_type@,
            name@,
            crate::llvm::function_parameters_view(arguments@),
        ) == Ok::<_, ParseErrorV>((f@, p as int)) && pos <= p <= s@.len()),
        (r matches Err(e) ==> crate::ir_grammar::sp_function_tail(
            s@,
            pos as int,
            linkage,
            preemption,
            visibility,
            crate::types::parameter_attributes_view(attrs@),
            return_type@,
            name@,
            crate::llvm::function_parameters_view(arguments@),
        ) == Err::<(crate::llvm::FunctionV, int), _>(e@)),
{
    let (address_space, p1) = x_addrspace_clause(s, pos)?;
    let (section_name, p2) = x_named_clause(s, p1, "section")?;
    let (partition_name, p3) = x_named_clause(s, p2, "partition")?;
    let (alignment, p4) = x_fn_align(s, p3)?;
    let (gc_name, p5) = x_named_clause(s, p4, "gc")?;
    let q = skip_ws_x(s, p5);
    if q < s.len() && s[q] == '{' {
        let (basic_blocks, p6) = x_blocks(s, q + 1)?;
        Ok(
            (
                crate::llvm::Function {
                    linkage,
                    preemption_specifier: preemption,
                    visibility,
                    return_type,
                    return_type_parameter_attributes: attrs,
                    name,
                    arguments,
                    address_space,
                    section_name,
                    partition_name,
                    alignment,
                    is_garbage_collected: gc_name.is_some(),
                    basic_blocks,
                },
                p6,
            ),
        )
    } else {
        Err(err_syntax(q, "the body of the function"))
    }
}

/// Whether `id` is exactly `%` followed by `name`.
fn label_matches(id: &String, name: &String) -> (r: bool)
    ensures
        r == (id@ == seq!['%'] + name@),
{
    let id_s = id.as_str();
    let name_s = name.as_str();
    let n = name_s.unicode_len();
    let idn = id_s.unicode_len();
    if idn == 0 || idn - 1 != n {
        proof {
            assert((seq!['%'] + name@).len() == 1 + name@.len());
        }
        return false;
    }
    if id_s.get_char(0) != '%' {
        proof {
            assert((seq!['%'] + name@)[0] == '%');
        }
        return false;
    }
    let mut i: usize = 0;
    while i < n
        invariant
            n == name@.len(),
            id@.len() == n + 1,
            id_s@ == id@,
            name_s@ == name@,
            i <= n,
            id@[0] == '%',
            forall|j: int| 0 <= j < i ==> id@[j + 1] == name@[j],
        decreases n - i,
    {
        if id_s.get_char(i + 1) != name_s.get_char(i) {
            proof {
                assert((seq!['%'] + name@)[i + 1] == name@[i as int]);
            }
            return false;
        }
        i += 1;
    }
    proof {
        assert(id@ =~= seq!['%'] + name@);
    }
    true
}

/// Whether some block of the function defines the label `ident` names.
fn x_label_defined(blocks: &Vec<crate::llvm::BasicBlock>, ident: &String) -> (r: bool)
    ensures
        r == crate::ir_grammar::label_defined(crate::llvm::basic_blocks_view(blocks@), ident@),
{
    let ghost bv = crate::llvm::basic_blocks_view(blocks@);
    let n = blocks.len();
    let mut i: usize = 0;
    while i < n
        invariant
            n == blocks@.len(),
            i <= n,
            bv == crate::llvm::basic_blocks_view(blocks@),
            bv.len() == n,
            forall|j: int|
                0 <= j < i ==> !(#[trigger] bv[j].name matches Some(m) && ident@ == seq!['%'] + m),
        decreases n - i,
    {
        match &blocks[i].name {
            Some(name) => {
                if label_matches(ident, name) {
                    proof {
                        assert(bv[i as int].name matches Some(m) && ident@ == seq!['%'] + m);
                    }
                    return true;
                }
            },
            None => {},
        }
        i += 1;
    }
    false
}

/// The label identifier a value names, when it is a label-typed
/// identifier.
fn x_label_ident_of(v: &Value) -> (r: Option<String>)
    ensures
        (r matches Some(id) ==> crate::ir_grammar::label_idents_of(v@) == seq![id@]),
        r is None ==> crate::ir_grammar::label_idents_of(v@) == Seq::<Seq<char>>::empty(),
{
    match v {
        Value::FromIdentifier { value_type: Type::Label, identifier } => Some(identifier.clone()),
        _ => None,
    }
}

/// Appends the labels a terminator references, in textual order.
fn x_push_terminator_labels(t: &Terminator, out: &mut Vec<String>)
    ensures
        crate::ir::strings_view(final(out)@) == crate::ir::strings_view(old(out)@)
            + crate::ir_grammar::terminator_labels(t@),
{
    let ghost base = crate::ir::strings_view(old(out)@);
    match t {
        Terminator::ConditionalBranch { if_true, if_false, .. } => {
            match x_label_ident_of(if_true) {
                Some(id) => out.push(id),
                None => {},
            }
            match x_label_ident_of(if_false) {
                Some(id) => out.push(id),
                None => {},
            }
            proof {
                assert(crate::ir::strings_view(final(out)@) =~= base
                    + crate::ir_grammar::terminator_labels(t@));
            }
        },
        Terminator::Branch { destination } => {
            match x_label_ident_of(destination) {
                Some(id) => out.push(id),
                None => {},
            }
            proof {
                assert(crate::ir::strings_view(final(out)@) =~= base
                    + crate::ir_grammar::terminator_labels(t@));
            }
        },
        Terminator::Switch { default_destination, destinations, .. } => {
            match x_label_ident_of(default_destination) {
                Some(id) => out.push(id),
                None => {},
            }
            let ghost dv = crate::ir::switch_destinations_view(destinations@);
            proof {
                crate::ir::lemma_switch_destinations_view(destinations@);
            }
            let n = destinations.len();
            let mut i: usize = 0;
            while i < n
                invariant
                    n == destinations@.len(),
                    i <= n,
                    dv == crate::ir::switch_destinations_view(destinations@),
                    dv.len() == n,
                    forall|j: int| 0 <= j < n ==> dv[j] == (crate::ir::SwitchDestinationV {
                        value: crate::ir::value_view(*destinations@[j].value),
                        destination: crate::ir::value_view(*destinations@[j].destination),
                    }),
                    crate::ir::strings_view(out@) + crate::ir_grammar::switch_case_labels(
                        dv,
                        i as int,
                    ) =~= base + crate::ir_grammar::terminator_labels(t@),
                decreases n - i,
            {
                match x_label_ident_of(&destinations[i].destination) {
                    Some(id) => {
                        let ghost before = crate::ir::strings_view(out@);
                        out.push(id);
                        proof {
                            assert(crate::ir::strings_view(out@) =~= before
                                + crate::ir_grammar::label_idents_of(dv[i as int].destination));
                        }
                    },
                    None => {
                        proof {
                            assert(crate::ir::strings_view(out@)
                                + crate::ir_grammar::label_idents_of(dv[i as int].destination)
                                =~= crate::ir::strings_view(out@));
                        }
                    },
                }
                i += 1;
            }
        },
        Terminator::IndirectBranch { valid_destinations, .. } => {
            let ghost vv = crate::ir::values_view(valid_destinations@);
            proof {
                crate::ir::lemma_values_view(valid_destinations@);
            }
            let n = valid_destinations.len();
            let mut i: usize = 0;
            while i < n
                invariant
                    n == valid_destinations@.len(),
                    i <= n,
                    vv == crate::ir::values_view(valid_destinations@),
                    vv.len() == n,
                    forall|j: int| 0 <= j < n ==> vv[j] == crate::ir::value_view(
                        *valid_destinations@[j],
                    ),
                    crate::ir::strings_view(out@) + crate::ir_grammar::value_list_labels(
                        vv,
                        i as int,
                    ) =~= base + crate::ir_grammar::terminator_labels(t@),
                decreases n - i,
            {
                match x_label_ident_of(&valid_destinations[i]) {
                    Some(id) => {
                        let ghost before = crate::ir::strings_view(out@);
                        out.push(id);
                        proof {
                            assert(crate::ir::strings_view(out@) =~= before
                                + crate::ir_grammar::label_idents_of(vv[i as int]));
                        }
                    },
                    None => {
                        proof {
                            assert(crate::ir::strings_view(out@)
                                + crate::ir_grammar::label_idents_of(vv[i as int])
                                =~= crate::ir::strings_view(out@));
                        }
                    },
                }
                i += 1;
            }
        },
        _ => {
            proof {
                assert(crate::ir::strings_view(final(out)@) =~= base
                    + crate::ir_grammar::terminator_labels(t@));
            }
        },
    }
}

/// The labels all terminators of the function reference, in textual
/// order.
fn x_function_labels(blocks: &Vec<crate::llvm::BasicBlock>) -> (r: Vec<String>)
    ensures
        crate::ir::strings_view(r@) == crate::ir_grammar::function_labels(
            crate::llvm::basic_blocks_view(blocks@),
            0,
        ),
{
    let ghost bv = crate::llvm::basic_blocks_view(blocks@);
    let mut out: Vec<String> = Vec::new();
    let n = blocks.len();
    let mut i: usize = 0;
    proof {
        assert(crate::ir::strings_view(out@) =~= Seq::<Seq<char>>::empty());
    }
    while i < n
        invariant
            n == blocks@.len(),
            i <= n,
            bv == crate::llvm::basic_blocks_view(blocks@),
            bv.len() == n,
            forall|j: int| 0 <= j < n ==> bv[j] == crate::llvm::basic_block_view(blocks@[j]),
            crate::ir::strings_view(out@) + crate::ir_grammar::function_labels(bv, i as int)
                =~= crate::ir_grammar::function_labels(bv, 0),
        decreases n - i,
    {
        x_push_terminator_labels(&blocks[i].terminator, &mut out);
        i += 1;
    }
    out
}

/// The first referenced label no block defines.
fn x_first_unresolved(blocks: &Vec<crate::llvm::BasicBlock>) -> (r: Option<String>)
    ensures
        (r matches Some(name) ==> crate::ir_grammar::first_undefined(
            crate::llvm::basic_blocks_view(blocks@),
            crate::ir_grammar::function_labels(crate::llvm::basic_blocks_view(blocks@), 0),
            0,
        ) == Some(name@)),
        r is None ==> crate::ir_grammar::first_undefined(
            crate::llvm::basic_blocks_view(blocks@),
            crate::ir_grammar::function_labels(crate::llvm::basic_blocks_view(blocks@), 0),
            0,
        ) is None,
{
    let ghost bv = crate::llvm::basic_blocks_view(blocks@);
    let labels = x_function_labels(blocks);
    let ghost lv = crate::ir::strings_view(labels@);
    let n = labels.len();
    let mut i: usize = 0;
    while i < n
        invariant
            n == labels@.len(),
            i <= n,
            bv == crate::llvm::basic_blocks_view(blocks@),
            lv == crate::ir::strings_view(labels@),
            lv == crate::ir_grammar::function_labels(bv, 0),
            lv.len() == n,
            forall|j: int| 0 <= j < n ==> lv[j] == labels@[j]@,
            crate::ir_grammar::first_undefined(bv, lv, 0)
                == crate::ir_grammar::first_undefined(bv, lv, i as int),
        decreases n - i,
    {
        if !x_label_defined(blocks, &labels[i]) {
            let name = labels[i].clone();
            return Some(name);
        }
        i += 1;
    }
    None
}

/// Parses a whole standalone basic block.
///
/// Succeeds with the block `parse_basic_block_spec` assigns to the text,
/// and fails with exactly the error kind the grammar assigns.  Label
/// references are not resolved: a block on its own has no enclosing
/// function to resolve them against.
pub fn parse_basic_block(text: &str) -> (r: Result<crate::llvm::BasicBlock, ParseError>)
    ensures
        (r matches Ok(b) ==> crate::ir_grammar::parse_basic_block_spec(text@) == Ok::<
            _,
            ParseErrorV,
        >(b@)),
        (r matches Err(e) ==> crate::ir_grammar::parse_basic_block_spec(text@) == Err::<
            crate::llvm::BasicBlockV,
            _,
        >(e@)),
{
    let s = chars_of(text);
    let start = skip_ws_x(&s, 0);
    match x_basic_block(&s, start) {
        Ok((b, p)) => {
            let q = skip_ws_x(&s, p);
            if q == s.len() {
                Ok(b)
            } else {
                Err(err_syntax(q, "the end of the basic block"))
            }
        },
        Err(e) => Err(e),
    }
}

/// Parses a whole function definition, resolving forward references:
/// every label a branch, switch or indirect branch names must be defined
/// by a basic block of the function, wherever in the text that block
/// stands.
///
/// Succeeds with the function `parse_function_spec` assigns to the text,
/// and fails with exactly the error kind the grammar assigns.
pub fn parse_function(text: &str) -> (r: Result<crate::llvm::Function, ParseError>)
    ensures
        (r matches Ok(f) ==> crate::ir_grammar::parse_function_spec(text@) == Ok::<
            _,
            ParseErrorV,
        >(f@)),
        (r matches Err(e) ==> crate::ir_grammar::parse_function_spec(text@) == Err::<
            crate::llvm::FunctionV,
            _,
        >(e@)),
{
    let s = chars_of(text);
    let start = skip_ws_x(&s, 0);
    match x_function(&s, start) {
        Ok((f, p)) => {
            let q = skip_ws_x(&s, p);
            if q == s.len() {
                match x_first_unresolved(&f.basic_blocks) {
                    Some(name) => Err(ParseError::UndefinedLabel { name }),
                    None => Ok(f),
                }
            } else {
                Err(err_syntax(q, "the end of the function definition"))
            }
        },
        Err(e) => Err(e),
    }
}

} // verus!
