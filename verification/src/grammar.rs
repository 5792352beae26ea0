//! The type grammar, stated mathematically.
//!
//! `sp_type` is the definition of the textual type language: a
//! deterministic recursive-descent reading of a character sequence that
//! either yields the parsed type and the position just past it, or
//! nothing when the text does not conform.  The executable parser is
//! proved to return exactly what these functions say, and the canonical
//! printer is proved to round-trip through them.
//!
//! Tokens may be separated by any amount of whitespace.  Identifiers and
//! keywords use the character class `[-a-zA-Z$._0-9]`; a keyword is an
//! entire identifier word, so `i32x` is one unknown word, not `i32`
//! followed by `x`.

use crate::scan::{digits_end, digits_value, ident_end, is_digit_char, is_ident_char, is_word_x,
    max_number, skip_ws, word_at};
use crate::types::{AddressSpaceV, FloatingPointKind, TargetExtensionParameterV, TypeV};
use vstd::prelude::*;

verus! {

broadcast use crate::scan::skip_ws_in_bounds, crate::scan::ident_end_in_bounds,
    crate::scan::digits_end_in_bounds;

/// Reads `"name"`: `pos` stands on the opening quote.  The name is the
/// raw text up to the next quote; there is no escaping.
pub open spec fn sp_quoted(s: Seq<char>, pos: int) -> Option<(Seq<char>, int)>
    decreases s.len() - pos, 1int,
{
    if 0 <= pos < s.len() && s[pos] == '"' {
        sp_quoted_rest(s, pos + 1, pos + 1)
    } else {
        None
    }
}

/// Scans from `at` for the closing quote; the name began at `start`.
pub open spec fn sp_quoted_rest(s: Seq<char>, start: int, at: int) -> Option<(Seq<char>, int)>
    decreases s.len() - at, 0int,
{
    if 0 <= at < s.len() {
        if s[at] == '"' {
            Some((s.subrange(start, at), at + 1))
        } else {
            sp_quoted_rest(s, start, at + 1)
        }
    } else {
        None
    }
}

/// Reads a full type: a base type, optionally followed by a
/// parenthesized parameter list making it a function type.
pub open spec fn sp_type(s: Seq<char>, pos: int) -> Option<(TypeV, int)>
    decreases s.len() - pos, 3int,
{
    if pos < 0 || pos > s.len() {
        None
    } else {
        match sp_base_type(s, pos) {
            None => None,
            Some((t, p)) => if pos < p <= s.len() {
                let q = skip_ws(s, p);
                if q < s.len() && s[q] == '(' {
                    match sp_params(s, q + 1) {
                        None => None,
                        Some(((parameters, has_varargs), p2)) => Some(
                            (
                                TypeV::Function {
                                    return_type: Box::new(t),
                                    parameters,
                                    has_varargs,
                                },
                                p2,
                            ),
                        ),
                    }
                } else {
                    Some((t, p))
                }
            } else {
                None
            },
        }
    }
}

/// Reads a function-type parameter list; `pos` stands just past the
/// opening parenthesis.  `...` as the last (or only) entry sets the
/// varargs flag.
pub open spec fn sp_params(s: Seq<char>, pos: int) -> Option<((Seq<TypeV>, bool), int)>
    decreases s.len() - pos, 5int,
{
    if pos < 0 || pos > s.len() {
        None
    } else {
        let q = skip_ws(s, pos);
        if q < s.len() && s[q] == ')' {
            Some(((Seq::empty(), false), q + 1))
        } else if sp_dots_then_close(s, q) is Some {
            match sp_dots_then_close(s, q) {
                Some(p) => Some(((Seq::empty(), true), p)),
                None => None,
            }
        } else if q <= s.len() {
            sp_params_items(s, q)
        } else {
            None
        }
    }
}

/// Reads `...` followed by the closing parenthesis; yields the position
/// just past the parenthesis.
pub open spec fn sp_dots_then_close(s: Seq<char>, pos: int) -> Option<int> {
    if 0 <= pos && pos + 3 <= s.len() && s[pos] == '.' && s[pos + 1] == '.' && s[pos + 2] == '.' {
        let q = skip_ws(s, pos + 3);
        if q < s.len() && s[q] == ')' {
            Some(q + 1)
        } else {
            None
        }
    } else {
        None
    }
}

/// Reads one or more comma-separated parameter types up to the closing
/// parenthesis.
pub open spec fn sp_params_items(s: Seq<char>, pos: int) -> Option<((Seq<TypeV>, bool), int)>
    decreases s.len() - pos, 4int,
{
    if pos < 0 || pos > s.len() {
        None
    } else {
        match sp_type(s, pos) {
            None => None,
            Some((t, p)) => if pos < p <= s.len() {
                let q = skip_ws(s, p);
                if q < s.len() && s[q] == ')' {
                    Some(((seq![t], false), q + 1))
                } else if q < s.len() && s[q] == ',' {
                    let q2 = skip_ws(s, q + 1);
                    if sp_dots_then_close(s, q2) is Some {
                        match sp_dots_then_close(s, q2) {
                            Some(p2) => Some(((seq![t], true), p2)),
                            None => None,
                        }
                    } else {
                        match sp_params_items(s, q2) {
                            None => None,
                            Some(((rest, has_varargs), p2)) => Some(
                                ((seq![t] + rest, has_varargs), p2),
                            ),
                        }
                    }
                } else {
                    None
                }
            } else {
                None
            },
        }
    }
}

/// Reads the field list of a structure type up to the closing brace;
/// `pos` stands just past the opening brace.
pub open spec fn sp_fields(s: Seq<char>, pos: int) -> Option<(Seq<TypeV>, int)>
    decreases s.len() - pos, 5int,
{
    if pos < 0 || pos > s.len() {
        None
    } else {
        let q = skip_ws(s, pos);
        if q < s.len() && s[q] == '}' {
            Some((Seq::empty(), q + 1))
        } else if q <= s.len() {
            sp_fields_items(s, q)
        } else {
            None
        }
    }
}

/// Reads one or more comma-separated field types up to the closing
/// brace.
pub open spec fn sp_fields_items(s: Seq<char>, pos: int) -> Option<(Seq<TypeV>, int)>
    decreases s.len() - pos, 4int,
{
    if pos < 0 || pos > s.len() {
        None
    } else {
        match sp_type(s, pos) {
            None => None,
            Some((t, p)) => if pos < p <= s.len() {
                let q = skip_ws(s, p);
                if q < s.len() && s[q] == '}' {
                    Some((seq![t], q + 1))
                } else if q < s.len() && s[q] == ',' {
                    match sp_fields_items(s, skip_ws(s, q + 1)) {
                        None => None,
                        Some((rest, p2)) => Some((seq![t] + rest, p2)),
                    }
                } else {
                    None
                }
            } else {
                None
            },
        }
    }
}

/// Reads the parameter list of a target extension type after the quoted
/// name: each further entry is a bare number or a type, and the list is
/// closed by a parenthesis.  `pos` stands on the comma or parenthesis.
pub open spec fn sp_target_params(s: Seq<char>, pos: int) -> Option<(
    Seq<TargetExtensionParameterV>,
    int,
)>
    decreases s.len() - pos, 5int,
{
    if pos < 0 || pos > s.len() {
        None
    } else if pos < s.len() && s[pos] == ')' {
        Some((Seq::empty(), pos + 1))
    } else if pos < s.len() && s[pos] == ',' {
        match sp_target_item(s, skip_ws(s, pos + 1)) {
            None => None,
            Some((item, p)) => if pos < p <= s.len() {
                match sp_target_params(s, skip_ws(s, p)) {
                    None => None,
                    Some((rest, p2)) => Some((seq![item] + rest, p2)),
                }
            } else {
                None
            },
        }
    } else {
        None
    }
}

/// One target extension parameter: a bare number, or a type.
pub open spec fn sp_target_item(s: Seq<char>, pos: int) -> Option<(
    TargetExtensionParameterV,
    int,
)>
    decreases s.len() - pos, 4int,
{
    if pos < 0 || pos > s.len() {
        None
    } else if pos < s.len() && is_digit_char(s[pos]) {
        let e = digits_end(s, pos);
        let v = digits_value(s, pos, e);
        if v <= max_number() {
            Some((TargetExtensionParameterV::Integer(v), e))
        } else {
            None
        }
    } else {
        match sp_type(s, pos) {
            None => None,
            Some((t, p)) => Some((TargetExtensionParameterV::Type(t), p)),
        }
    }
}

/// Reads the tail of a vector or array type: a positive length, the
/// keyword `x`, the element type, and the closing character.  `pos`
/// stands on the first digit.
pub open spec fn sp_sized_tail(s: Seq<char>, pos: int, close: char) -> Option<((nat, TypeV), int)>
    decreases s.len() - pos, 4int,
{
    if 0 <= pos < s.len() && is_digit_char(s[pos]) {
        let e = digits_end(s, pos);
        let v = digits_value(s, pos, e);
        if 1 <= v <= max_number() {
            let q = skip_ws(s, e);
            if is_word_x(s, q) {
                let q2 = skip_ws(s, q + 1);
                match sp_type(s, q2) {
                    None => None,
                    Some((t, p)) => if q2 < p <= s.len() {
                        let r = skip_ws(s, p);
                        if r < s.len() && s[r] == close {
                            Some(((v, t), r + 1))
                        } else {
                            None
                        }
                    } else {
                        None
                    },
                }
            } else {
                None
            }
        } else {
            None
        }
    } else {
        None
    }
}

/// Reads a base type: everything except the function-type suffix.
pub open spec fn sp_base_type(s: Seq<char>, pos: int) -> Option<(TypeV, int)>
    decreases s.len() - pos, 2int,
{
    if pos < 0 || pos >= s.len() {
        None
    } else if s[pos] == '<' {
        let q = skip_ws(s, pos + 1);
        if q < s.len() && s[q] == '{' {
            // packed structure
            match sp_fields(s, q + 1) {
                None => None,
                Some((types, p)) => if q < p <= s.len() {
                    let r = skip_ws(s, p);
                    if r < s.len() && s[r] == '>' {
                        Some((TypeV::Structure { types, is_packed: true }, r + 1))
                    } else {
                        None
                    }
                } else {
                    None
                },
            }
        } else if word_at(s, q) == "vscale"@ {
            let r = skip_ws(s, ident_end(s, q));
            if is_word_x(s, r) {
                match sp_sized_tail(s, skip_ws(s, r + 1), '>') {
                    None => None,
                    Some(((length, element_type), p)) => Some(
                        (
                            TypeV::Vector {
                                length,
                                element_type: Box::new(element_type),
                                is_scalable: true,
                            },
                            p,
                        ),
                    ),
                }
            } else {
                None
            }
        } else {
            match sp_sized_tail(s, q, '>') {
                None => None,
                Some(((length, element_type), p)) => Some(
                    (
                        TypeV::Vector {
                            length,
                            element_type: Box::new(element_type),
                            is_scalable: false,
                        },
                        p,
                    ),
                ),
            }
        }
    } else if s[pos] == '[' {
        match sp_sized_tail(s, skip_ws(s, pos + 1), ']') {
            None => None,
            Some(((length, element_type), p)) => Some(
                (TypeV::Array { length, element_type: Box::new(element_type) }, p),
            ),
        }
    } else if s[pos] == '{' {
        match sp_fields(s, pos + 1) {
            None => None,
            Some((types, p)) => Some((TypeV::Structure { types, is_packed: false }, p)),
        }
    } else if is_ident_char(s[pos]) && !is_digit_char(s[pos]) {
        sp_word_type(s, pos)
    } else {
        None
    }
}

/// Reads a base type that starts with an identifier word.
pub open spec fn sp_word_type(s: Seq<char>, pos: int) -> Option<(TypeV, int)>
    decreases s.len() - pos, 1int,
{
    let e = ident_end(s, pos);
    let w = word_at(s, pos);
    if pos < 0 || pos > s.len() {
        None
    } else if w == "void"@ {
        Some((TypeV::Void, e))
    } else if w == "half"@ {
        Some((TypeV::FloatingPoint { kind: FloatingPointKind::Binary16 }, e))
    } else if w == "bfloat"@ {
        Some((TypeV::FloatingPoint { kind: FloatingPointKind::Brain }, e))
    } else if w == "float"@ {
        Some((TypeV::FloatingPoint { kind: FloatingPointKind::Binary32 }, e))
    } else if w == "double"@ {
        Some((TypeV::FloatingPoint { kind: FloatingPointKind::Binary64 }, e))
    } else if w == "fp128"@ {
        Some((TypeV::FloatingPoint { kind: FloatingPointKind::Binary128 }, e))
    } else if w == "x86_fp80"@ {
        Some((TypeV::FloatingPoint { kind: FloatingPointKind::X86Fp80 }, e))
    } else if w == "ppc_fp128"@ {
        Some((TypeV::FloatingPoint { kind: FloatingPointKind::PpcFp128 }, e))
    } else if w == "x86_amx"@ {
        Some((TypeV::AMX, e))
    } else if w == "x86_mmx"@ {
        Some((TypeV::MMX, e))
    } else if w == "label"@ {
        Some((TypeV::Label, e))
    } else if w == "token"@ {
        Some((TypeV::Token, e))
    } else if w == "metadata"@ {
        Some((TypeV::Metadata, e))
    } else if w == "opaque"@ {
        Some((TypeV::OpaqueStructure, e))
    } else if w == "ptr"@ {
        sp_pointer_tail(s, e)
    } else if w == "target"@ {
        sp_target_tail(s, e)
    } else if w.len() >= 2 && s[pos] == 'i' && digits_end(s, pos + 1) == e {
        let v = digits_value(s, pos + 1, e);
        if 1 <= v <= max_number() {
            Some((TypeV::Integer { bit_width: v }, e))
        } else {
            None
        }
    } else {
        None
    }
}

/// Reads what may follow `ptr`: an optional `addrspace(..)` clause with
/// a number or a quoted name.
pub open spec fn sp_pointer_tail(s: Seq<char>, pos: int) -> Option<(TypeV, int)>
    decreases s.len() - pos, 0int,
{
    if pos < 0 || pos > s.len() {
        None
    } else {
        let q = skip_ws(s, pos);
        if q < s.len() && word_at(s, q) == "addrspace"@ {
            let r = skip_ws(s, ident_end(s, q));
            if r < s.len() && s[r] == '(' {
                let a = skip_ws(s, r + 1);
                if a < s.len() && is_digit_char(s[a]) {
                    let e = digits_end(s, a);
                    let v = digits_value(s, a, e);
                    if v <= max_number() {
                        let c = skip_ws(s, e);
                        if c < s.len() && s[c] == ')' {
                            Some(
                                (
                                    TypeV::Pointer { address_space: AddressSpaceV::Numbered(v) },
                                    c + 1,
                                ),
                            )
                        } else {
                            None
                        }
                    } else {
                        None
                    }
                } else {
                    match sp_quoted(s, a) {
                        None => None,
                        Some((name, p)) => {
                            let c = skip_ws(s, p);
                            if c < s.len() && s[c] == ')' {
                                Some(
                                    (
                                        TypeV::Pointer {
                                            address_space: AddressSpaceV::Named(name),
                                        },
                                        c + 1,
                                    ),
                                )
                            } else {
                                None
                            }
                        },
                    }
                }
            } else {
                None
            }
        } else {
            Some((TypeV::Pointer { address_space: AddressSpaceV::Numbered(0) }, pos))
        }
    }
}

/// Reads what must follow `target`: a parenthesized quoted name and the
/// parameter list.
pub open spec fn sp_target_tail(s: Seq<char>, pos: int) -> Option<(TypeV, int)>
    decreases s.len() - pos, 0int,
{
    if pos < 0 || pos > s.len() {
        None
    } else {
        let q = skip_ws(s, pos);
        if q < s.len() && s[q] == '(' {
            match sp_quoted(s, skip_ws(s, q + 1)) {
                None => None,
                Some((name, p)) => if pos < p <= s.len() {
                    match sp_target_params(s, skip_ws(s, p)) {
                        None => None,
                        Some((parameters, p2)) => Some(
                            (TypeV::TargetExtension { name, parameters }, p2),
                        ),
                    }
                } else {
                    None
                },
            }
        } else {
            None
        }
    }
}

/// The whole-text reading of a type: the type grammar with nothing but
/// whitespace around it.
pub open spec fn parse_type_spec(s: Seq<char>) -> Option<TypeV> {
    match sp_type(s, skip_ws(s, 0)) {
        None => None,
        Some((t, p)) => if p <= s.len() && skip_ws(s, p) == s.len() {
            Some(t)
        } else {
            None
        },
    }
}

} // verus!
