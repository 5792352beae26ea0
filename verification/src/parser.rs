//! The executable parser for the type grammar.
//!
//! Every function mirrors one production of the grammar in
//! [`crate::grammar`], and its contract says exactly that: on success it
//! returns the type and position that the grammar function yields, and it
//! fails precisely when the grammar function yields nothing.

use crate::grammar::{parse_type_spec, sp_base_type, sp_dots_then_close, sp_fields,
    sp_fields_items, sp_params, sp_params_items, sp_pointer_tail, sp_quoted, sp_quoted_rest,
    sp_sized_tail, sp_target_item, sp_target_params, sp_target_tail, sp_type, sp_word_type};
use crate::scan::{digits_end, digits_value, ident_end, is_digit_char, is_ident_char, is_word_x,
    is_ws_char, lemma_digits_end, lemma_digits_value_mono, lemma_ident_end, max_number, skip_ws,
    word_at};
use crate::types::{AddressSpace, TargetExtensionParameter, Type, lemma_types_view,
    lemma_target_extension_parameters_view, types_view, target_extension_parameters_view};
use vstd::prelude::*;
use vstd::string::StrSliceExecFns;
use vstd::string::StringExecFns;

verus! {

broadcast use crate::scan::skip_ws_in_bounds, crate::scan::ident_end_in_bounds,
    crate::scan::digits_end_in_bounds;

/// A located parse failure: the position of the offending character and
/// a description of the construct that was expected there.
#[derive(Debug, PartialEq, Eq)]
pub struct SyntaxError {
    pub position: usize,
    pub expected: String,
}

pub(crate) fn syntax_error(position: usize, expected: &str) -> (r: SyntaxError)
    ensures
        r.position == position,
{
    SyntaxError { position, expected: expected.to_owned() }
}

/// Relies on std's `String::push`: appends one character at the end.
#[verifier::external_body]
pub(crate) fn push_char(s: &mut String, c: char)
    ensures
        final(s)@ == old(s)@.push(c),
{
    s.push(c)
}

/// The characters of `text`, in order.
pub fn chars_of(text: &str) -> (r: Vec<char>)
    ensures
        r@ == text@,
{
    let n = text.unicode_len();
    let mut r: Vec<char> = Vec::new();
    let mut i: usize = 0;
    while i < n
        invariant
            n == text@.len(),
            i <= n,
            r@ == text@.subrange(0, i as int),
        decreases n - i,
    {
        r.push(text.get_char(i));
        i += 1;
        proof {
            assert(r@ =~= text@.subrange(0, i as int));
        }
    }
    proof {
        assert(r@ =~= text@);
    }
    r
}

pub(crate) fn is_ws(c: char) -> (r: bool)
    ensures
        r == is_ws_char(c),
{
    c == ' ' || c == '\t' || c == '\n' || c == '\r'
}

pub(crate) fn is_digit(c: char) -> (r: bool)
    ensures
        r == is_digit_char(c),
{
    '0' <= c && c <= '9'
}

pub(crate) fn is_ident(c: char) -> (r: bool)
    ensures
        r == is_ident_char(c),
{
    ('a' <= c && c <= 'z') || ('A' <= c && c <= 'Z') || ('0' <= c && c <= '9') || c == '-'
        || c == '$' || c == '.' || c == '_'
}

/// Advances past whitespace.
pub(crate) fn skip_ws_x(s: &Vec<char>, pos: usize) -> (r: usize)
    requires
        pos <= s@.len(),
    ensures
        r as int == skip_ws(s@, pos as int),
        pos <= r <= s@.len(),
    decreases s@.len() - pos,
{
    if pos < s.len() && is_ws(s[pos]) {
        skip_ws_x(s, pos + 1)
    } else {
        pos
    }
}

/// Advances past identifier characters.
pub(crate) fn ident_end_x(s: &Vec<char>, pos: usize) -> (r: usize)
    requires
        pos <= s@.len(),
    ensures
        r as int == ident_end(s@, pos as int),
        pos <= r <= s@.len(),
    decreases s@.len() - pos,
{
    if pos < s.len() && is_ident(s[pos]) {
        ident_end_x(s, pos + 1)
    } else {
        pos
    }
}

/// Advances past digits.
pub(crate) fn digits_end_x(s: &Vec<char>, pos: usize) -> (r: usize)
    requires
        pos <= s@.len(),
    ensures
        r as int == digits_end(s@, pos as int),
        pos <= r <= s@.len(),
    decreases s@.len() - pos,
{
    if pos < s.len() && is_digit(s[pos]) {
        digits_end_x(s, pos + 1)
    } else {
        pos
    }
}

/// Whether the identifier word at `pos` is exactly `w`.
pub(crate) fn word_is(s: &Vec<char>, pos: usize, w: &str) -> (r: bool)
    requires
        pos <= s@.len(),
    ensures
        r == (word_at(s@, pos as int) == w@),
{
    let e = ident_end_x(s, pos);
    let n = w.unicode_len();
    if e - pos != n {
        proof {
            assert(word_at(s@, pos as int).len() == e - pos);
        }
        return false;
    }
    let mut i: usize = 0;
    while i < n
        invariant
            pos <= e <= s@.len(),
            e - pos == n == w@.len(),
            i <= n,
            e as int == ident_end(s@, pos as int),
            forall|j: int| 0 <= j < i ==> s@[pos + j] == w@[j],
        decreases n - i,
    {
        if s[pos + i] != w.get_char(i) {
            proof {
                assert(word_at(s@, pos as int)[i as int] != w@[i as int]);
            }
            return false;
        }
        i += 1;
    }
    proof {
        assert(word_at(s@, pos as int) =~= w@);
    }
    true
}

/// Reads the digit run at `pos` as a number; fails when the value does
/// not fit.
pub(crate) fn read_number(s: &Vec<char>, pos: usize) -> (r: Option<(usize, usize)>)
    requires
        pos <= s@.len(),
    ensures
        (r matches Some((v, e)) ==> e as int == digits_end(s@, pos as int) && v as nat
            == digits_value(s@, pos as int, e as int)),
        r is None ==> digits_value(s@, pos as int, digits_end(s@, pos as int)) > max_number(),
    decreases s@.len() - pos,
{
    proof {
        lemma_digits_end(s@, pos as int);
    }
    let e = digits_end_x(s, pos);
    let mut v: usize = 0;
    let mut i: usize = pos;
    while i < e
        invariant
            pos <= i <= e <= s@.len(),
            e as int == digits_end(s@, pos as int),
            v as nat == digits_value(s@, pos as int, i as int),
            forall|j: int| pos <= j < e ==> is_digit_char(s@[j]),
        decreases e - i,
    {
        let c = s[i];
        let d: usize = (c as usize) - 48;
        proof {
            assert(is_digit_char(s@[i as int]));
            assert('0' as int == 48 && '9' as int == 57);
            assert(d == crate::scan::digit_val(c));
        }
        let step = match v.checked_mul(10) {
            Some(m) => m.checked_add(d),
            None => None,
        };
        match step {
            Some(nv) => {
                v = nv;
                i += 1;
            },
            None => {
                proof {
                    assert(digits_value(s@, pos as int, i as int + 1) > max_number());
                    lemma_digits_value_mono(s@, pos as int, i as int + 1, e as int);
                }
                return None;
            },
        }
    }
    Some((v, e))
}

/// Reads `"name"` into a `String`.
pub(crate) fn read_quoted(s: &Vec<char>, pos: usize) -> (r: Option<(String, usize)>)
    requires
        pos <= s@.len(),
    ensures
        (r matches Some((name, p)) ==> sp_quoted(s@, pos as int) == Some((name@, p as int)) && pos
            < p <= s@.len()),
        r is None ==> sp_quoted(s@, pos as int) is None,
{
    if pos < s.len() && s[pos] == '"' {
        let mut name = String::new();
        let mut at: usize = pos + 1;
        loop
            invariant
                pos + 1 <= at <= s@.len(),
                name@ == s@.subrange(pos + 1, at as int),
                sp_quoted(s@, pos as int) == sp_quoted_rest(s@, pos + 1, at as int),
            decreases s@.len() - at,
        {
            if at >= s.len() {
                return None;
            }
            let c = s[at];
            if c == '"' {
                return Some((name, at + 1));
            }
            push_char(&mut name, c);
            at += 1;
            proof {
                assert(name@ =~= s@.subrange(pos + 1, at as int));
            }
        }
    } else {
        None
    }
}

/// Reads `...` followed by the closing parenthesis.
pub(crate) fn p_dots_then_close(s: &Vec<char>, pos: usize) -> (r: Option<usize>)
    requires
        pos <= s@.len(),
    ensures
        (r matches Some(p) ==> sp_dots_then_close(s@, pos as int) == Some(p as int) && pos < p
            <= s@.len()),
        r is None ==> sp_dots_then_close(s@, pos as int) is None,
{
    if s.len() - pos >= 3 && s[pos] == '.' && s[pos + 1] == '.' && s[pos + 2] == '.' {
        let q = skip_ws_x(s, pos + 3);
        if q < s.len() && s[q] == ')' {
            Some(q + 1)
        } else {
            None
        }
    } else {
        None
    }
}

/// Reads a full type, with the function-type suffix.
pub fn p_type(s: &Vec<char>, pos: usize) -> (r: Result<(Type, usize), SyntaxError>)
    requires
        pos <= s@.len(),
    ensures
        (r matches Ok((t, p)) ==> sp_type(s@, pos as int) == Some((t@, p as int)) && pos < p
            <= s@.len()),
        r is Err ==> sp_type(s@, pos as int) is None,
    decreases s@.len() - pos, 3int,
{
    let (t, p) = p_base_type(s, pos)?;
    let q = skip_ws_x(s, p);
    if q < s.len() && s[q] == '(' {
        let (parameters, has_varargs, p2) = p_params(s, q + 1)?;
        Ok(
            (
                Type::Function { return_type: Box::new(t), parameters, has_varargs },
                p2,
            ),
        )
    } else {
        Ok((t, p))
    }
}

/// Reads a function-type parameter list after the opening parenthesis.
pub(crate) fn p_params(s: &Vec<char>, pos: usize) -> (r: Result<(Vec<Type>, bool, usize), SyntaxError>)
    requires
        pos <= s@.len(),
    ensures
        (r matches Ok((types, has_varargs, p)) ==> sp_params(s@, pos as int) == Some(
            ((types_view(types@), has_varargs), p as int),
        ) && pos <= p <= s@.len()),
        r is Err ==> sp_params(s@, pos as int) is None,
    decreases s@.len() - pos, 5int,
{
    let q = skip_ws_x(s, pos);
    if q < s.len() && s[q] == ')' {
        let types: Vec<Type> = Vec::new();
        proof {
            lemma_types_view(types@);
            assert(types_view(types@) =~= Seq::<crate::types::TypeV>::empty());
        }
        Ok((types, false, q + 1))
    } else {
        match p_dots_then_close(s, q) {
            Some(p) => {
                let types: Vec<Type> = Vec::new();
                proof {
                    lemma_types_view(types@);
                    assert(types_view(types@) =~= Seq::<crate::types::TypeV>::empty());
                }
                Ok((types, true, p))
            },
            None => p_params_items(s, q),
        }
    }
}

/// Reads one or more comma-separated parameter types up to `)`.
pub(crate) fn p_params_items(s: &Vec<char>, pos: usize) -> (r: Result<(Vec<Type>, bool, usize), SyntaxError>)
    requires
        pos <= s@.len(),
    ensures
        (r matches Ok((types, has_varargs, p)) ==> sp_params_items(s@, pos as int) == Some(
            ((types_view(types@), has_varargs), p as int),
        ) && pos < p <= s@.len()),
        r is Err ==> sp_params_items(s@, pos as int) is None,
    decreases s@.len() - pos, 4int,
{
    let (t, p) = p_type(s, pos)?;
    let q = skip_ws_x(s, p);
    if q < s.len() && s[q] == ')' {
        let mut types: Vec<Type> = Vec::new();
        types.push(t);
        proof {
            lemma_types_view(types@);
            assert(types_view(types@) =~= seq![types@[0]@]);
        }
        Ok((types, false, q + 1))
    } else if q < s.len() && s[q] == ',' {
        let q2 = skip_ws_x(s, q + 1);
        match p_dots_then_close(s, q2) {
            Some(p2) => {
                let mut types: Vec<Type> = Vec::new();
                types.push(t);
                proof {
                    lemma_types_view(types@);
                    assert(types_view(types@) =~= seq![types@[0]@]);
                }
                Ok((types, true, p2))
            },
            None => {
                let (rest, has_varargs, p2) = p_params_items(s, q2)?;
                let ghost rest_snap = rest@;
                let mut types = rest;
                types.insert(0, t);
                proof {
                    lemma_types_view(types@);
                    lemma_types_view(rest_snap);
                    assert(types_view(types@) =~= seq![t@] + types_view(rest_snap));
                }
                Ok((types, has_varargs, p2))
            },
        }
    } else {
        Err(syntax_error(q, "a comma or a closing parenthesis"))
    }
}

/// Reads the field list of a structure after the opening brace.
pub(crate) fn p_fields(s: &Vec<char>, pos: usize) -> (r: Result<(Vec<Type>, usize), SyntaxError>)
    requires
        pos <= s@.len(),
    ensures
        (r matches Ok((types, p)) ==> sp_fields(s@, pos as int) == Some(
            (types_view(types@), p as int),
        ) && pos <= p <= s@.len()),
        r is Err ==> sp_fields(s@, pos as int) is None,
    decreases s@.len() - pos, 5int,
{
    let q = skip_ws_x(s, pos);
    if q < s.len() && s[q] == '}' {
        let types: Vec<Type> = Vec::new();
        proof {
            lemma_types_view(types@);
            assert(types_view(types@) =~= Seq::<crate::types::TypeV>::empty());
        }
        Ok((types, q + 1))
    } else {
        p_fields_items(s, q)
    }
}

/// Reads one or more comma-separated field types up to `}`.
pub(crate) fn p_fields_items(s: &Vec<char>, pos: usize) -> (r: Result<(Vec<Type>, usize), SyntaxError>)
    requires
        pos <= s@.len(),
    ensures
        (r matches Ok((types, p)) ==> sp_fields_items(s@, pos as int) == Some(
            (types_view(types@), p as int),
        ) && pos < p <= s@.len()),
        r is Err ==> sp_fields_items(s@, pos as int) is None,
    decreases s@.len() - pos, 4int,
{
    let (t, p) = p_type(s, pos)?;
    let q = skip_ws_x(s, p);
    if q < s.len() && s[q] == '}' {
        let mut types: Vec<Type> = Vec::new();
        types.push(t);
        proof {
            lemma_types_view(types@);
            assert(types_view(types@) =~= seq![types@[0]@]);
        }
        Ok((types, q + 1))
    } else if q < s.len() && s[q] == ',' {
        let q2 = skip_ws_x(s, q + 1);
        let (rest, p2) = p_fields_items(s, q2)?;
        let ghost rest_snap = rest@;
        let mut types = rest;
        types.insert(0, t);
        proof {
            lemma_types_view(types@);
            lemma_types_view(rest_snap);
            assert(types_view(types@) =~= seq![t@] + types_view(rest_snap));
        }
        Ok((types, p2))
    } else {
        Err(syntax_error(q, "a comma or a closing brace"))
    }
}

/// Reads the parameter list of a target extension type after the name.
pub(crate) fn p_target_params(s: &Vec<char>, pos: usize) -> (r: Result<
    (Vec<TargetExtensionParameter>, usize),
    SyntaxError,
>)
    requires
        pos <= s@.len(),
    ensures
        (r matches Ok((parameters, p)) ==> sp_target_params(s@, pos as int) == Some(
            (target_extension_parameters_view(parameters@), p as int),
        ) && pos < p <= s@.len()),
        r is Err ==> sp_target_params(s@, pos as int) is None,
    decreases s@.len() - pos, 5int,
{
    if pos < s.len() && s[pos] == ')' {
        let parameters: Vec<TargetExtensionParameter> = Vec::new();
        proof {
            lemma_target_extension_parameters_view(parameters@);
            assert(target_extension_parameters_view(parameters@)
                =~= Seq::<crate::types::TargetExtensionParameterV>::empty());
        }
        Ok((parameters, pos + 1))
    } else if pos < s.len() && s[pos] == ',' {
        let (item, p) = p_target_item(s, skip_ws_x(s, pos + 1))?;
        let (rest, p2) = p_target_params(s, skip_ws_x(s, p))?;
        let ghost rest_snap = rest@;
        let mut parameters = rest;
        parameters.insert(0, item);
        proof {
            lemma_target_extension_parameters_view(parameters@);
            lemma_target_extension_parameters_view(rest_snap);
            assert(target_extension_parameters_view(parameters@) =~= seq![item@]
                + target_extension_parameters_view(rest_snap));
        }
        Ok((parameters, p2))
    } else {
        Err(syntax_error(pos, "a comma or a closing parenthesis"))
    }
}

/// Reads one target extension parameter: a bare number or a type.
pub(crate) fn p_target_item(s: &Vec<char>, pos: usize) -> (r: Result<
    (TargetExtensionParameter, usize),
    SyntaxError,
>)
    requires
        pos <= s@.len(),
    ensures
        (r matches Ok((item, p)) ==> sp_target_item(s@, pos as int) == Some((item@, p as int))
            && pos < p <= s@.len()),
        r is Err ==> sp_target_item(s@, pos as int) is None,
    decreases s@.len() - pos, 4int,
{
    if pos < s.len() && is_digit(s[pos]) {
        match read_number(s, pos) {
            Some((v, e)) => {
                proof {
                    lemma_digits_end(s@, pos as int);
                    assert(e > pos);
                }
                Ok((TargetExtensionParameter::Integer(v), e))
            },
            None => Err(syntax_error(pos, "a number small enough to represent")),
        }
    } else {
        let (t, p) = p_type(s, pos)?;
        Ok((TargetExtensionParameter::Type(t), p))
    }
}

/// Reads a positive length, the keyword `x`, the element type and the
/// closing character of a vector or array type.
pub(crate) fn p_sized_tail(s: &Vec<char>, pos: usize, close: char) -> (r: Result<
    (usize, Type, usize),
    SyntaxError,
>)
    requires
        pos <= s@.len(),
    ensures
        (r matches Ok((length, element_type, p)) ==> sp_sized_tail(s@, pos as int, close) == Some(
            ((length as nat, element_type@), p as int),
        ) && pos < p <= s@.len()),
        r is Err ==> sp_sized_tail(s@, pos as int, close) is None,
    decreases s@.len() - pos, 4int,
{
    if pos < s.len() && is_digit(s[pos]) {
        match read_number(s, pos) {
            Some((v, e)) => {
                if v < 1 {
                    return Err(syntax_error(pos, "a length greater than zero"));
                }
                let q = skip_ws_x(s, e);
                if q < s.len() && s[q] == 'x' && ident_end_x(s, q) == q + 1 {
                    proof {
                        assert(is_word_x(s@, q as int));
                    }
                    let q2 = skip_ws_x(s, q + 1);
                    let (t, p) = p_type(s, q2)?;
                    let r2 = skip_ws_x(s, p);
                    if r2 < s.len() && s[r2] == close {
                        Ok((v, t, r2 + 1))
                    } else {
                        Err(syntax_error(r2, "the closing character of the element list"))
                    }
                } else {
                    proof {
                        assert(!is_word_x(s@, q as int));
                    }
                    Err(syntax_error(q, "the separator keyword between length and element type"))
                }
            },
            None => Err(syntax_error(pos, "a number small enough to represent")),
        }
    } else {
        Err(syntax_error(pos, "a length"))
    }
}

/// Reads a base type: everything except the function-type suffix.
pub(crate) fn p_base_type(s: &Vec<char>, pos: usize) -> (r: Result<(Type, usize), SyntaxError>)
    requires
        pos <= s@.len(),
    ensures
        (r matches Ok((t, p)) ==> sp_base_type(s@, pos as int) == Some((t@, p as int)) && pos < p
            <= s@.len()),
        r is Err ==> sp_base_type(s@, pos as int) is None,
    decreases s@.len() - pos, 2int,
{
    if pos >= s.len() {
        return Err(syntax_error(pos, "a type"));
    }
    let c = s[pos];
    if c == '<' {
        let q = skip_ws_x(s, pos + 1);
        if q < s.len() && s[q] == '{' {
            let (types, p) = p_fields(s, q + 1)?;
            let r2 = skip_ws_x(s, p);
            if r2 < s.len() && s[r2] == '>' {
                Ok((Type::Structure { types, is_packed: true }, r2 + 1))
            } else {
                Err(syntax_error(r2, "the closing of a packed structure"))
            }
        } else if word_is(s, q, "vscale") {
            let e = ident_end_x(s, q);
            let r2 = skip_ws_x(s, e);
            if r2 < s.len() && s[r2] == 'x' && ident_end_x(s, r2) == r2 + 1 {
                proof {
                    assert(is_word_x(s@, r2 as int));
                }
                let (length, element_type, p) = p_sized_tail(s, skip_ws_x(s, r2 + 1), '>')?;
                Ok(
                    (
                        Type::Vector {
                            length,
                            element_type: Box::new(element_type),
                            is_scalable: true,
                        },
                        p,
                    ),
                )
            } else {
                proof {
                    assert(!is_word_x(s@, r2 as int));
                }
                Err(syntax_error(r2, "the separator keyword after the scalable marker"))
            }
        } else {
            let (length, element_type, p) = p_sized_tail(s, q, '>')?;
            Ok(
                (
                    Type::Vector {
                        length,
                        element_type: Box::new(element_type),
                        is_scalable: false,
                    },
                    p,
                ),
            )
        }
    } else if c == '[' {
        let (length, element_type, p) = p_sized_tail(s, skip_ws_x(s, pos + 1), ']')?;
        Ok((Type::Array { length, element_type: Box::new(element_type) }, p))
    } else if c == '{' {
        let (types, p) = p_fields(s, pos + 1)?;
        Ok((Type::Structure { types, is_packed: false }, p))
    } else if is_ident(c) && !is_digit(c) {
        p_word_type(s, pos)
    } else {
        Err(syntax_error(pos, "a type"))
    }
}

/// Reads a base type that starts with an identifier word.
pub(crate) fn p_word_type(s: &Vec<char>, pos: usize) -> (r: Result<(Type, usize), SyntaxError>)
    requires
        pos < s@.len(),
        is_ident_char(s@[pos as int]),
    ensures
        (r matches Ok((t, p)) ==> sp_word_type(s@, pos as int) == Some((t@, p as int)) && pos < p
            <= s@.len()),
        r is Err ==> sp_word_type(s@, pos as int) is None,
    decreases s@.len() - pos, 1int,
{
    let e = ident_end_x(s, pos);
    proof {
        lemma_ident_end(s@, pos as int);
        assert(e > pos);
    }
    if word_is(s, pos, "void") {
        Ok((Type::Void, e))
    } else if word_is(s, pos, "half") {
        Ok((Type::FloatingPoint { kind: crate::types::FloatingPointKind::Binary16 }, e))
    } else if word_is(s, pos, "bfloat") {
        Ok((Type::FloatingPoint { kind: crate::types::FloatingPointKind::Brain }, e))
    } else if word_is(s, pos, "float") {
        Ok((Type::FloatingPoint { kind: crate::types::FloatingPointKind::Binary32 }, e))
    } else if word_is(s, pos, "double") {
        Ok((Type::FloatingPoint { kind: crate::types::FloatingPointKind::Binary64 }, e))
    } else if word_is(s, pos, "fp128") {
        Ok((Type::FloatingPoint { kind: crate::types::FloatingPointKind::Binary128 }, e))
    } else if word_is(s, pos, "x86_fp80") {
        Ok((Type::FloatingPoint { kind: crate::types::FloatingPointKind::X86Fp80 }, e))
    } else if word_is(s, pos, "ppc_fp128") {
        Ok((Type::FloatingPoint { kind: crate::types::FloatingPointKind::PpcFp128 }, e))
    } else if word_is(s, pos, "x86_amx") {
        Ok((Type::AMX, e))
    } else if word_is(s, pos, "x86_mmx") {
        Ok((Type::MMX, e))
    } else if word_is(s, pos, "label") {
        Ok((Type::Label, e))
    } else if word_is(s, pos, "token") {
        Ok((Type::Token, e))
    } else if word_is(s, pos, "metadata") {
        Ok((Type::Metadata, e))
    } else if word_is(s, pos, "opaque") {
        Ok((Type::OpaqueStructure, e))
    } else if word_is(s, pos, "ptr") {
        p_pointer_tail(s, e, pos)
    } else if word_is(s, pos, "target") {
        p_target_tail(s, e, pos)
    } else if e - pos >= 2 && s[pos] == 'i' && digits_end_x(s, pos + 1) == e {
        match read_number(s, pos + 1) {
            Some((v, _)) => {
                if v >= 1 {
                    Ok((Type::Integer { bit_width: v }, e))
                } else {
                    Err(syntax_error(pos, "an integer bit width of at least one"))
                }
            },
            None => Err(syntax_error(pos, "an integer bit width small enough to represent")),
        }
    } else {
        Err(syntax_error(pos, "a type keyword"))
    }
}

/// Reads what may follow `ptr`; `from` is where the word began.
pub(crate) fn p_pointer_tail(s: &Vec<char>, pos: usize, from: usize) -> (r: Result<
    (Type, usize),
    SyntaxError,
>)
    requires
        from < pos <= s@.len(),
    ensures
        (r matches Ok((t, p)) ==> sp_pointer_tail(s@, pos as int) == Some((t@, p as int)) && from
            < p <= s@.len()),
        r is Err ==> sp_pointer_tail(s@, pos as int) is None,
    decreases s@.len() - pos, 0int,
{
    let q = skip_ws_x(s, pos);
    if q < s.len() && word_is(s, q, "addrspace") {
        let e2 = ident_end_x(s, q);
        let r2 = skip_ws_x(s, e2);
        if r2 < s.len() && s[r2] == '(' {
            let a = skip_ws_x(s, r2 + 1);
            if a < s.len() && is_digit(s[a]) {
                match read_number(s, a) {
                    Some((v, e3)) => {
                        let c2 = skip_ws_x(s, e3);
                        if c2 < s.len() && s[c2] == ')' {
                            Ok(
                                (
                                    Type::Pointer {
                                        address_space: AddressSpace::Numbered(v),
                                    },
                                    c2 + 1,
                                ),
                            )
                        } else {
                            Err(syntax_error(c2, "the closing of the address space clause"))
                        }
                    },
                    None => Err(
                        syntax_error(a, "an address space number small enough to represent"),
                    ),
                }
            } else {
                match read_quoted(s, a) {
                    Some((name, p)) => {
                        let c2 = skip_ws_x(s, p);
                        if c2 < s.len() && s[c2] == ')' {
                            Ok(
                                (
                                    Type::Pointer {
                                        address_space: AddressSpace::Named(name),
                                    },
                                    c2 + 1,
                                ),
                            )
                        } else {
                            Err(syntax_error(c2, "the closing of the address space clause"))
                        }
                    },
                    None => Err(syntax_error(a, "an address space number or quoted name")),
                }
            }
        } else {
            Err(syntax_error(r2, "the opening of the address space clause"))
        }
    } else {
        Ok((Type::Pointer { address_space: AddressSpace::Numbered(0) }, pos))
    }
}

/// Reads what must follow `target`; `from` is where the word began.
pub(crate) fn p_target_tail(s: &Vec<char>, pos: usize, from: usize) -> (r: Result<
    (Type, usize),
    SyntaxError,
>)
    requires
        from < pos <= s@.len(),
    ensures
        (r matches Ok((t, p)) ==> sp_target_tail(s@, pos as int) == Some((t@, p as int)) && from
            < p <= s@.len()),
        r is Err ==> sp_target_tail(s@, pos as int) is None,
    decreases s@.len() - pos, 0int,
{
    let q = skip_ws_x(s, pos);
    if q < s.len() && s[q] == '(' {
        match read_quoted(s, skip_ws_x(s, q + 1)) {
            Some((name, p)) => {
                let (parameters, p2) = p_target_params(s, skip_ws_x(s, p))?;
                Ok((Type::TargetExtension { name, parameters }, p2))
            },
            None => Err(syntax_error(q, "the quoted name of the target extension type")),
        }
    } else {
        Err(syntax_error(q, "the parameter list of the target extension type"))
    }
}

/// Parses a whole type expression: the type grammar surrounded by
/// nothing but whitespace.
///
/// Succeeds with the type `parse_type_spec` assigns to the text, exactly
/// when the grammar assigns one.
pub fn parse_type(text: &str) -> (r: Result<Type, SyntaxError>)
    ensures
        (r matches Ok(t) ==> parse_type_spec(text@) == Some(t@)),
        r is Err ==> parse_type_spec(text@) is None,
{
    let s = chars_of(text);
    let start = skip_ws_x(&s, 0);
    match p_type(&s, start) {
        Ok((t, p)) => {
            let q = skip_ws_x(&s, p);
            if q == s.len() {
                Ok(t)
            } else {
                Err(syntax_error(q, "the end of the type expression"))
            }
        },
        Err(e) => Err(e),
    }
}

} // verus!
