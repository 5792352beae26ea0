//! The instruction, terminator, basic-block and function grammar, stated
//! mathematically.
//!
//! As with the type grammar, these functions define the textual language:
//! each either yields the parsed node and the position just past it, or an
//! error value.  Three error kinds are distinguished: text that does not
//! conform to the grammar, a construct the language knows but this model
//! does not cover yet, and a constant written against an incompatible
//! type.

use crate::grammar::{sp_type};
use crate::ir::{AllowedWrapping, ConstantV, GetPointerKind, InstructionV, IntegerComparison,
    Ordering, SwitchDestinationV, TailCallHint, TerminatorV, ValueV, constant_compat};
use crate::llvm::{BasicBlockV, FunctionParameterV, FunctionV, LinkageType, OperationV,
    PreemptionSpecifier, Visibility};
use crate::scan::{digits_end, digits_value, ident_end, is_digit_char, max_number, skip_ws,
    word_at};
use crate::types::{AddressSpaceV, ParameterAttributeV, TypeV};
use vstd::prelude::*;

verus! {

broadcast use crate::scan::skip_ws_in_bounds, crate::scan::ident_end_in_bounds,
    crate::scan::digits_end_in_bounds;

/// The kind of a parse failure, as the grammar defines it.
///
/// `Syntax` is text that does not conform to the grammar; `Unsupported`
/// names a construct of the language that the model does not cover yet;
/// `Mismatch` is a constant written against an incompatible type;
/// `UndefinedLabel` is a branch target that no basic block of the
/// function defines.
#[verifier::ext_equal]
pub enum ParseErrorV {
    Syntax,
    Unsupported(Seq<char>),
    Mismatch(ConstantV, TypeV),
    UndefinedLabel(Seq<char>),
}

/// Reads a sigil-qualified identifier (`%` or `@` followed by a name
/// word or a bare number); yields the identifier including its sigil.
pub open spec fn sp_sigil_name(s: Seq<char>, pos: int) -> Option<(Seq<char>, int)> {
    if 0 <= pos < s.len() && (s[pos] == '%' || s[pos] == '@') {
        let e = ident_end(s, pos + 1);
        if e > pos + 1 {
            Some((s.subrange(pos, e), e))
        } else {
            None
        }
    } else {
        None
    }
}

/// Reads a value of the declared type `t` in operand position: a
/// sigil-qualified identifier, or a scalar constant checked against `t`.
pub open spec fn sp_bare_value(s: Seq<char>, pos: int, t: TypeV) -> Result<
    (ValueV, int),
    ParseErrorV,
> {
    if pos < 0 || pos > s.len() {
        Err(ParseErrorV::Syntax)
    } else if sp_sigil_name(s, pos) is Some {
        match sp_sigil_name(s, pos) {
            Some((name, e)) => Ok(
                (ValueV::FromIdentifier { value_type: t, identifier: name }, e),
            ),
            None => Err(ParseErrorV::Syntax),
        }
    } else if pos < s.len() && is_digit_char(s[pos]) {
        let e = digits_end(s, pos);
        let v = digits_value(s, pos, e);
        if v <= max_number() {
            sp_constant_value(ConstantV::Integer(v), t, e)
        } else {
            Err(ParseErrorV::Syntax)
        }
    } else {
        let w = word_at(s, pos);
        let e = ident_end(s, pos);
        if w == "true"@ {
            sp_constant_value(ConstantV::Boolean(true), t, e)
        } else if w == "false"@ {
            sp_constant_value(ConstantV::Boolean(false), t, e)
        } else if w == "null"@ {
            sp_constant_value(ConstantV::NullPointer, t, e)
        } else if w == "none"@ {
            sp_constant_value(ConstantV::NoneToken, t, e)
        } else if w == "zeroinitializer"@ {
            sp_constant_value(ConstantV::Zero, t, e)
        } else if w == "undef"@ {
            sp_constant_value(ConstantV::Undefined, t, e)
        } else if w == "poison"@ {
            sp_constant_value(ConstantV::Poison, t, e)
        } else {
            Err(ParseErrorV::Syntax)
        }
    }
}

/// Links a parsed constant to its declared type, or reports the
/// incompatibility.
pub open spec fn sp_constant_value(c: ConstantV, t: TypeV, e: int) -> Result<
    (ValueV, int),
    ParseErrorV,
> {
    if constant_compat(c, t) {
        Ok((ValueV::FromConstant { constant_type: t, constant: c }, e))
    } else {
        Err(ParseErrorV::Mismatch(c, t))
    }
}

/// Reads `type value`.
pub open spec fn sp_typed_value(s: Seq<char>, pos: int) -> Result<((TypeV, ValueV), int),
    ParseErrorV,
> {
    if pos < 0 || pos > s.len() {
        Err(ParseErrorV::Syntax)
    } else {
        match sp_type(s, pos) {
            None => Err(ParseErrorV::Syntax),
            Some((t, p)) => if pos < p <= s.len() {
                match sp_bare_value(s, skip_ws(s, p), t) {
                    Ok((v, p2)) => Ok(((t, v), p2)),
                    Err(e) => Err(e),
                }
            } else {
                Err(ParseErrorV::Syntax)
            },
        }
    }
}

/// Reads `type value , type value` (two operands sharing one written
/// type, as binary instructions take them).
pub open spec fn sp_binary_operands(s: Seq<char>, pos: int) -> Result<
    ((TypeV, ValueV, ValueV), int),
    ParseErrorV,
> {
    if pos < 0 || pos > s.len() {
        Err(ParseErrorV::Syntax)
    } else {
        match sp_type(s, pos) {
            None => Err(ParseErrorV::Syntax),
            Some((t, p)) => if pos < p <= s.len() {
                match sp_bare_value(s, skip_ws(s, p), t) {
                    Err(e) => Err(e),
                    Ok((v1, p2)) => if p2 <= s.len() {
                        let q = skip_ws(s, p2);
                        if q < s.len() && s[q] == ',' {
                            match sp_bare_value(s, skip_ws(s, q + 1), t) {
                                Err(e) => Err(e),
                                Ok((v2, p3)) => Ok(((t, v1, v2), p3)),
                            }
                        } else {
                            Err(ParseErrorV::Syntax)
                        }
                    } else {
                        Err(ParseErrorV::Syntax)
                    },
                }
            } else {
                Err(ParseErrorV::Syntax)
            },
        }
    }
}

/// Reads the comma-led index list of `extractvalue` and `insertvalue`:
/// `, n` repeated as long as a comma follows.
pub open spec fn sp_index_list(s: Seq<char>, pos: int) -> Result<(Seq<nat>, int), ParseErrorV>
    decreases s.len() - pos,
{
    if pos < 0 || pos > s.len() {
        Err(ParseErrorV::Syntax)
    } else {
        let q = skip_ws(s, pos);
        if q < s.len() && s[q] == ',' {
            let a = skip_ws(s, q + 1);
            if a < s.len() && is_digit_char(s[a]) {
                let e = digits_end(s, a);
                let v = digits_value(s, a, e);
                if v <= max_number() {
                    match sp_index_list(s, e) {
                        Err(err) => Err(err),
                        Ok((rest, p)) => Ok((seq![v] + rest, p)),
                    }
                } else {
                    Err(ParseErrorV::Syntax)
                }
            } else {
                Err(ParseErrorV::Syntax)
            }
        } else {
            Ok((Seq::empty(), pos))
        }
    }
}

/// Reads the comma-led list of typed index values of `getelementptr`:
/// `, type value` repeated as long as a comma follows.
pub open spec fn sp_gep_indices(s: Seq<char>, pos: int) -> Result<(Seq<ValueV>, int), ParseErrorV>
    decreases s.len() - pos,
{
    if pos < 0 || pos > s.len() {
        Err(ParseErrorV::Syntax)
    } else {
        let q = skip_ws(s, pos);
        if q < s.len() && s[q] == ',' {
            match sp_typed_value(s, skip_ws(s, q + 1)) {
                Err(e) => Err(e),
                Ok(((_t, v), p)) => if q < p <= s.len() {
                    match sp_gep_indices(s, p) {
                        Err(e) => Err(e),
                        Ok((rest, p2)) => Ok((seq![v] + rest, p2)),
                    }
                } else {
                    Err(ParseErrorV::Syntax)
                },
            }
        } else {
            Ok((Seq::empty(), pos))
        }
    }
}

/// Reads the parenthesized, possibly empty argument list of a call;
/// `pos` stands just past the opening parenthesis.
pub open spec fn sp_call_args(s: Seq<char>, pos: int) -> Result<(Seq<ValueV>, int), ParseErrorV>
    decreases s.len() - pos, 1int,
{
    if pos < 0 || pos > s.len() {
        Err(ParseErrorV::Syntax)
    } else {
        let q = skip_ws(s, pos);
        if q < s.len() && s[q] == ')' {
            Ok((Seq::empty(), q + 1))
        } else {
            sp_call_args_items(s, q)
        }
    }
}

/// Reads one or more comma-separated call arguments up to the closing
/// parenthesis.
pub open spec fn sp_call_args_items(s: Seq<char>, pos: int) -> Result<(Seq<ValueV>, int),
    ParseErrorV,
>
    decreases s.len() - pos, 0int,
{
    if pos < 0 || pos > s.len() {
        Err(ParseErrorV::Syntax)
    } else {
        match sp_typed_value(s, pos) {
            Err(e) => Err(e),
            Ok(((_t, v), p)) => if pos < p <= s.len() {
                let q = skip_ws(s, p);
                if q < s.len() && s[q] == ')' {
                    Ok((seq![v], q + 1))
                } else if q < s.len() && s[q] == ',' {
                    let q2 = skip_ws(s, q + 1);
                    if q2 > pos {
                        match sp_call_args_items(s, q2) {
                            Err(e) => Err(e),
                            Ok((rest, p2)) => Ok((seq![v] + rest, p2)),
                        }
                    } else {
                        Err(ParseErrorV::Syntax)
                    }
                } else {
                    Err(ParseErrorV::Syntax)
                }
            } else {
                Err(ParseErrorV::Syntax)
            },
        }
    }
}

/// Reads an optional `syncscope("name")` clause.
pub open spec fn sp_sync_scope(s: Seq<char>, pos: int) -> Option<(Option<Seq<char>>, int)> {
    if pos < 0 || pos > s.len() {
        None
    } else {
        let q = skip_ws(s, pos);
        if word_at(s, q) == "syncscope"@ {
            let r = skip_ws(s, ident_end(s, q));
            if r < s.len() && s[r] == '(' {
                match crate::grammar::sp_quoted(s, skip_ws(s, r + 1)) {
                    None => None,
                    Some((name, p)) => {
                        let c = skip_ws(s, p);
                        if c < s.len() && s[c] == ')' {
                            Some((Some(name), c + 1))
                        } else {
                            None
                        }
                    },
                }
            } else {
                None
            }
        } else {
            Some((None, pos))
        }
    }
}

/// Reads an atomic ordering keyword.
pub open spec fn sp_ordering(s: Seq<char>, pos: int) -> Option<(Ordering, int)> {
    if pos < 0 || pos > s.len() {
        None
    } else {
        let w = word_at(s, pos);
        let e = ident_end(s, pos);
        if w == "unordered"@ {
            Some((Ordering::Unordered, e))
        } else if w == "monotonic"@ {
            Some((Ordering::Monotonic, e))
        } else if w == "acquire"@ {
            Some((Ordering::Acquire, e))
        } else if w == "release"@ {
            Some((Ordering::Release, e))
        } else if w == "acq_rel"@ {
            Some((Ordering::AcquireRelease, e))
        } else if w == "seq_cst"@ {
            Some((Ordering::SequentiallyConsistent, e))
        } else {
            None
        }
    }
}

/// Reads `, align n`.
pub open spec fn sp_align_clause(s: Seq<char>, pos: int) -> Option<(nat, int)> {
    if pos < 0 || pos > s.len() {
        None
    } else {
        let q = skip_ws(s, pos);
        if q < s.len() && s[q] == ',' {
            let a = skip_ws(s, q + 1);
            if word_at(s, a) == "align"@ {
                let d = skip_ws(s, ident_end(s, a));
                if d < s.len() && is_digit_char(s[d]) {
                    let e = digits_end(s, d);
                    let v = digits_value(s, d, e);
                    if v <= max_number() {
                        Some((v, e))
                    } else {
                        None
                    }
                } else {
                    None
                }
            } else {
                None
            }
        } else {
            None
        }
    }
}

/// Reads an integer comparison predicate keyword.
pub open spec fn sp_comparison(s: Seq<char>, pos: int) -> Option<(IntegerComparison, int)> {
    if pos < 0 || pos > s.len() {
        None
    } else {
        let w = word_at(s, pos);
        let e = ident_end(s, pos);
        if w == "eq"@ {
            Some((IntegerComparison::Equal, e))
        } else if w == "ne"@ {
            Some((IntegerComparison::NotEqual, e))
        } else if w == "ugt"@ {
            Some((IntegerComparison::UnsignedGreaterThan, e))
        } else if w == "uge"@ {
            Some((IntegerComparison::UnsignedGreaterOrEqual, e))
        } else if w == "ult"@ {
            Some((IntegerComparison::UnsignedLessThan, e))
        } else if w == "ule"@ {
            Some((IntegerComparison::UnsignedLessOrEqual, e))
        } else if w == "sgt"@ {
            Some((IntegerComparison::SignedGreaterThan, e))
        } else if w == "sge"@ {
            Some((IntegerComparison::SignedGreaterOrEqual, e))
        } else if w == "slt"@ {
            Some((IntegerComparison::SignedLessThan, e))
        } else if w == "sle"@ {
            Some((IntegerComparison::SignedLessOrEqual, e))
        } else {
            None
        }
    }
}

/// Reads the optional `nuw` and `nsw` wrapping flags, in that order.
/// A flag's presence forbids the corresponding wrapping.
pub open spec fn sp_wrapping_flags(s: Seq<char>, pos: int) -> (AllowedWrapping, int) {
    let q = skip_ws(s, pos);
    if word_at(s, q) == "nuw"@ {
        let r = skip_ws(s, ident_end(s, q));
        if word_at(s, r) == "nsw"@ {
            (
                AllowedWrapping { can_wrap_unsigned: false, can_wrap_signed: false },
                ident_end(s, r),
            )
        } else {
            (AllowedWrapping { can_wrap_unsigned: false, can_wrap_signed: true }, ident_end(s, q))
        }
    } else if word_at(s, q) == "nsw"@ {
        (AllowedWrapping { can_wrap_unsigned: true, can_wrap_signed: false }, ident_end(s, q))
    } else {
        (AllowedWrapping { can_wrap_unsigned: true, can_wrap_signed: true }, pos)
    }
}

/// Reads the optional `exact` flag.
pub open spec fn sp_exact_flag(s: Seq<char>, pos: int) -> (bool, int) {
    let q = skip_ws(s, pos);
    if word_at(s, q) == "exact"@ {
        (true, ident_end(s, q))
    } else {
        (false, pos)
    }
}

/// Reads an optional `addrspace(n)` clause.
pub open spec fn sp_addrspace_clause(s: Seq<char>, pos: int) -> Option<(
    Option<AddressSpaceV>,
    int,
)> {
    if pos < 0 || pos > s.len() {
        None
    } else {
        let q = skip_ws(s, pos);
        if word_at(s, q) == "addrspace"@ {
            let r = skip_ws(s, ident_end(s, q));
            if r < s.len() && s[r] == '(' {
                let a = skip_ws(s, r + 1);
                if a < s.len() && is_digit_char(s[a]) {
                    let e = digits_end(s, a);
                    let v = digits_value(s, a, e);
                    if v <= max_number() {
                        let c = skip_ws(s, e);
                        if c < s.len() && s[c] == ')' {
                            Some((Some(AddressSpaceV::Numbered(v)), c + 1))
                        } else {
                            None
                        }
                    } else {
                        None
                    }
                } else {
                    None
                }
            } else {
                None
            }
        } else {
            Some((None, pos))
        }
    }
}

/// The optional clauses that may follow the allocated type of `alloca`:
/// a typed element count, an alignment, and an address space, in that
/// order.
pub open spec fn sp_alloca_tail(s: Seq<char>, pos: int) -> Result<
    ((Option<Box<ValueV>>, Option<nat>, Option<AddressSpaceV>), int),
    ParseErrorV,
> {
    if pos < 0 || pos > s.len() {
        Err(ParseErrorV::Syntax)
    } else {
        let q = skip_ws(s, pos);
        if q < s.len() && s[q] == ',' && !(word_at(s, skip_ws(s, q + 1)) == "align"@) && !(
        word_at(s, skip_ws(s, q + 1)) == "addrspace"@) {
            match sp_typed_value(s, skip_ws(s, q + 1)) {
                Err(e) => Err(e),
                Ok(((_t, v), p)) => sp_alloca_align_space(s, p, Some(Box::new(v))),
            }
        } else {
            sp_alloca_align_space(s, pos, None)
        }
    }
}

/// The alignment and address-space clauses of `alloca`.
pub open spec fn sp_alloca_align_space(s: Seq<char>, pos: int, num: Option<Box<ValueV>>) -> Result<
    ((Option<Box<ValueV>>, Option<nat>, Option<AddressSpaceV>), int),
    ParseErrorV,
> {
    if pos < 0 || pos > s.len() {
        Err(ParseErrorV::Syntax)
    } else {
        let (alignment, p) = if sp_align_clause(s, pos) is Some {
            match sp_align_clause(s, pos) {
                Some((v, p)) => (Some(v), p),
                None => (None, pos),
            }
        } else {
            (None, pos)
        };
        if p > s.len() {
            Err(ParseErrorV::Syntax)
        } else {
            let q = skip_ws(s, p);
            if q < s.len() && s[q] == ',' && word_at(s, skip_ws(s, q + 1)) == "addrspace"@ {
                match sp_addrspace_clause(s, skip_ws(s, q + 1)) {
                    Some((space, p2)) => Ok(((num, alignment, space), p2)),
                    None => Err(ParseErrorV::Syntax),
                }
            } else {
                Ok(((num, alignment, None), p))
            }
        }
    }
}

/// Reads a calling-convention keyword, when one stands at `pos`.
pub open spec fn sp_calling_convention(s: Seq<char>, pos: int) -> Option<(Seq<char>, int)> {
    let w = word_at(s, pos);
    let e = ident_end(s, pos);
    if w == "ccc"@ || w == "fastcc"@ || w == "coldcc"@ || w == "tailcc"@ || w == "swiftcc"@ {
        Some((w, e))
    } else {
        None
    }
}

/// One return-value attribute keyword, when one stands at `pos`.
pub open spec fn sp_one_ret_attr(s: Seq<char>, pos: int) -> Option<(ParameterAttributeV, int)> {
    let w = word_at(s, pos);
    let e = ident_end(s, pos);
    if w == "zeroext"@ {
        Some((ParameterAttributeV::ZeroExtend, e))
    } else if w == "signext"@ {
        Some((ParameterAttributeV::SignExtend, e))
    } else if w == "inreg"@ {
        Some((ParameterAttributeV::TargetDependent, e))
    } else if w == "noalias"@ {
        Some((ParameterAttributeV::NoAlias, e))
    } else if w == "nonnull"@ {
        Some((ParameterAttributeV::NonNull, e))
    } else if w == "noundef"@ {
        Some((ParameterAttributeV::NoUndefined, e))
    } else {
        None
    }
}

/// Reads a possibly empty run of return-value attribute keywords.
pub open spec fn sp_ret_attrs(s: Seq<char>, pos: int) -> (Seq<ParameterAttributeV>, int)
    decreases s.len() - pos,
{
    if pos < 0 || pos > s.len() {
        (Seq::empty(), pos)
    } else {
        let q = skip_ws(s, pos);
        match sp_one_ret_attr(s, q) {
            Some((a, e)) => if pos < e <= s.len() {
                let (rest, p) = sp_ret_attrs(s, e);
                (seq![a] + rest, p)
            } else {
                (Seq::empty(), pos)
            },
            None => (Seq::empty(), pos),
        }
    }
}

/// Reads a `call` instruction after the `call` keyword itself.
pub open spec fn sp_call(s: Seq<char>, pos: int, hint: TailCallHint) -> Result<
    (InstructionV, int),
    ParseErrorV,
> {
    if pos < 0 || pos > s.len() {
        Err(ParseErrorV::Syntax)
    } else {
        let q = skip_ws(s, pos);
        let (convention, p1) = if sp_calling_convention(s, q) is Some {
            match sp_calling_convention(s, q) {
                Some((w, e)) => (Some(w), e),
                None => (None, q),
            }
        } else {
            (None, q)
        };
        let (attrs, p2) = sp_ret_attrs(s, p1);
        if p2 > s.len() {
            Err(ParseErrorV::Syntax)
        } else {
            match sp_addrspace_clause(s, p2) {
                None => Err(ParseErrorV::Syntax),
                Some((space, p3)) => match sp_type(s, skip_ws(s, p3)) {
                    None => Err(ParseErrorV::Syntax),
                    Some((t, p4)) => if p4 <= s.len() {
                        let n = skip_ws(s, p4);
                        if n < s.len() && s[n] == '@' {
                            match sp_sigil_name(s, n) {
                                None => Err(ParseErrorV::Syntax),
                                Some((name, p5)) => {
                                    let o = skip_ws(s, p5);
                                    if o < s.len() && s[o] == '(' {
                                        match sp_call_args(s, o + 1) {
                                            Err(e) => Err(e),
                                            Ok((arguments, p6)) => Ok(
                                                (
                                                    InstructionV::Call {
                                                        tail_call_hint: hint,
                                                        calling_convention: convention,
                                                        return_value_attributes: attrs,
                                                        address_space: space,
                                                        function_type: t,
                                                        function_name: name,
                                                        function_arguments: arguments,
                                                    },
                                                    p6,
                                                ),
                                            ),
                                        }
                                    } else {
                                        Err(ParseErrorV::Syntax)
                                    }
                                },
                            }
                        } else {
                            Err(ParseErrorV::Syntax)
                        }
                    } else {
                        Err(ParseErrorV::Syntax)
                    },
                },
            }
        }
    }
}

/// Reads `typed-value to type`, the shape of every conversion.
pub open spec fn sp_conversion_operands(s: Seq<char>, pos: int) -> Result<
    ((ValueV, TypeV), int),
    ParseErrorV,
> {
    match sp_typed_value(s, pos) {
        Err(e) => Err(e),
        Ok(((_t, v), p)) => if 0 <= p <= s.len() {
            let q = skip_ws(s, p);
            if word_at(s, q) == "to"@ {
                match sp_type(s, skip_ws(s, ident_end(s, q))) {
                    None => Err(ParseErrorV::Syntax),
                    Some((t2, p2)) => Ok(((v, t2), p2)),
                }
            } else {
                Err(ParseErrorV::Syntax)
            }
        } else {
            Err(ParseErrorV::Syntax)
        },
    }
}

/// The constructs the language knows but this model does not cover yet.
pub open spec fn is_unsupported_opcode(w: Seq<char>) -> bool {
    w == "fneg"@ || w == "fadd"@ || w == "fsub"@ || w == "fmul"@ || w == "fdiv"@ || w == "frem"@
        || w == "fcmp"@ || w == "phi"@ || w == "extractelement"@ || w == "insertelement"@
        || w == "shufflevector"@ || w == "atomicrmw"@ || w == "cmpxchg"@ || w == "va_arg"@
        || w == "landingpad"@ || w == "catchpad"@ || w == "cleanuppad"@
}

/// The terminator opcodes this model covers.
pub open spec fn is_terminator_opcode(w: Seq<char>) -> bool {
    w == "ret"@ || w == "br"@ || w == "switch"@ || w == "indirectbr"@ || w == "unreachable"@
}

/// The terminator opcodes the language knows but this model does not
/// cover yet.
pub open spec fn is_unsupported_terminator(w: Seq<char>) -> bool {
    w == "invoke"@ || w == "callbr"@ || w == "resume"@ || w == "catchswitch"@ || w == "catchret"@
        || w == "cleanupret"@
}

/// Reads a non-terminator instruction, dispatching on its opcode.
pub open spec fn sp_instruction(s: Seq<char>, pos: int) -> Result<(InstructionV, int), ParseErrorV>
{
    if pos < 0 || pos > s.len() {
        Err(ParseErrorV::Syntax)
    } else {
        let w = word_at(s, pos);
        let e = ident_end(s, pos);
        if w == "add"@ {
            let (wrap, p) = sp_wrapping_flags(s, e);
            match sp_binary_operands(s, skip_ws(s, p)) {
                Err(err) => Err(err),
                Ok(((_t, v1, v2), p2)) => Ok(
                    (
                        InstructionV::Add {
                            left_hand_side: Box::new(v1),
                            right_hand_side: Box::new(v2),
                            allowed_wrapping: wrap,
                        },
                        p2,
                    ),
                ),
            }
        } else if w == "sub"@ {
            let (wrap, p) = sp_wrapping_flags(s, e);
            match sp_binary_operands(s, skip_ws(s, p)) {
                Err(err) => Err(err),
                Ok(((_t, v1, v2), p2)) => Ok(
                    (
                        InstructionV::Subtract {
                            left_hand_side: Box::new(v1),
                            right_hand_side: Box::new(v2),
                            allowed_wrapping: wrap,
                        },
                        p2,
                    ),
                ),
            }
        } else if w == "mul"@ {
            let (wrap, p) = sp_wrapping_flags(s, e);
            match sp_binary_operands(s, skip_ws(s, p)) {
                Err(err) => Err(err),
                Ok(((_t, v1, v2), p2)) => Ok(
                    (
                        InstructionV::Multiply {
                            left_hand_side: Box::new(v1),
                            right_hand_side: Box::new(v2),
                            allowed_wrapping: wrap,
                        },
                        p2,
                    ),
                ),
            }
        } else if w == "shl"@ {
            let (wrap, p) = sp_wrapping_flags(s, e);
            match sp_binary_operands(s, skip_ws(s, p)) {
                Err(err) => Err(err),
                Ok(((_t, v1, v2), p2)) => Ok(
                    (
                        InstructionV::ShiftLeft {
                            left_hand_side: Box::new(v1),
                            right_hand_side: Box::new(v2),
                            allowed_wrapping: wrap,
                        },
                        p2,
                    ),
                ),
            }
        } else if w == "udiv"@ {
            let (is_exact, p) = sp_exact_flag(s, e);
            match sp_binary_operands(s, skip_ws(s, p)) {
                Err(err) => Err(err),
                Ok(((_t, v1, v2), p2)) => Ok(
                    (
                        InstructionV::UnsignedDivide {
                            left_hand_side: Box::new(v1),
                            right_hand_side: Box::new(v2),
                            is_exact,
                        },
                        p2,
                    ),
                ),
            }
        } else if w == "sdiv"@ {
            let (is_exact, p) = sp_exact_flag(s, e);
            match sp_binary_operands(s, skip_ws(s, p)) {
                Err(err) => Err(err),
                Ok(((_t, v1, v2), p2)) => Ok(
                    (
                        InstructionV::SignedDivide {
                            left_hand_side: Box::new(v1),
                            right_hand_side: Box::new(v2),
                            is_exact,
                        },
                        p2,
                    ),
                ),
            }
        } else if w == "lshr"@ {
            let (is_exact, p) = sp_exact_flag(s, e);
            match sp_binary_operands(s, skip_ws(s, p)) {
                Err(err) => Err(err),
                Ok(((_t, v1, v2), p2)) => Ok(
                    (
                        InstructionV::LogicalShiftRight {
                            left_hand_side: Box::new(v1),
                            right_hand_side: Box::new(v2),
                            is_exact,
                        },
                        p2,
                    ),
                ),
            }
        } else if w == "ashr"@ {
            let (is_exact, p) = sp_exact_flag(s, e);
            match sp_binary_operands(s, skip_ws(s, p)) {
                Err(err) => Err(err),
                Ok(((_t, v1, v2), p2)) => Ok(
                    (
                        InstructionV::ArithmeticShiftRight {
                            left_hand_side: Box::new(v1),
                            right_hand_side: Box::new(v2),
                            is_exact,
                        },
                        p2,
                    ),
                ),
            }
        } else if w == "urem"@ {
            match sp_binary_operands(s, skip_ws(s, e)) {
                Err(err) => Err(err),
                Ok(((_t, v1, v2), p2)) => Ok(
                    (
                        InstructionV::UnsignedRemainder {
                            left_hand_side: Box::new(v1),
                            right_hand_side: Box::new(v2),
                        },
                        p2,
                    ),
                ),
            }
        } else if w == "srem"@ {
            match sp_binary_operands(s, skip_ws(s, e)) {
                Err(err) => Err(err),
                Ok(((_t, v1, v2), p2)) => Ok(
                    (
                        InstructionV::SignedRemainder {
                            left_hand_side: Box::new(v1),
                            right_hand_side: Box::new(v2),
                        },
                        p2,
                    ),
                ),
            }
        } else if w == "and"@ {
            match sp_binary_operands(s, skip_ws(s, e)) {
                Err(err) => Err(err),
                Ok(((_t, v1, v2), p2)) => Ok(
                    (
                        InstructionV::And {
                            left_hand_side: Box::new(v1),
                            right_hand_side: Box::new(v2),
                        },
                        p2,
                    ),
                ),
            }
        } else if w == "xor"@ {
            match sp_binary_operands(s, skip_ws(s, e)) {
                Err(err) => Err(err),
                Ok(((_t, v1, v2), p2)) => Ok(
                    (
                        InstructionV::ExclusiveOr {
                            left_hand_side: Box::new(v1),
                            right_hand_side: Box::new(v2),
                        },
                        p2,
                    ),
                ),
            }
        } else if w == "or"@ {
            let q = skip_ws(s, e);
            let (disjoint, p) = if word_at(s, q) == "disjoint"@ {
                (true, ident_end(s, q))
            } else {
                (false, e)
            };
            match sp_binary_operands(s, skip_ws(s, p)) {
                Err(err) => Err(err),
                Ok(((_t, v1, v2), p2)) => Ok(
                    (
                        InstructionV::Or {
                            left_hand_side: Box::new(v1),
                            right_hand_side: Box::new(v2),
                            disjoint,
                        },
                        p2,
                    ),
                ),
            }
        } else if w == "extractvalue"@ {
            match sp_typed_value(s, skip_ws(s, e)) {
                Err(err) => Err(err),
                Ok(((_t, v), p)) => match sp_index_list(s, p) {
                    Err(err) => Err(err),
                    Ok((indices, p2)) => if indices.len() > 0 {
                        Ok(
                            (
                                InstructionV::ExtractValue {
                                    aggregate: Box::new(v),
                                    indices,
                                },
                                p2,
                            ),
                        )
                    } else {
                        Err(ParseErrorV::Syntax)
                    },
                },
            }
        } else if w == "insertvalue"@ {
            match sp_typed_value(s, skip_ws(s, e)) {
                Err(err) => Err(err),
                Ok(((_t, agg), p)) => if 0 <= p <= s.len() {
                    let q = skip_ws(s, p);
                    if q < s.len() && s[q] == ',' {
                        match sp_typed_value(s, skip_ws(s, q + 1)) {
                            Err(err) => Err(err),
                            Ok(((_t2, v), p2)) => match sp_index_list(s, p2) {
                                Err(err) => Err(err),
                                Ok((indices, p3)) => if indices.len() > 0 {
                                    Ok(
                                        (
                                            InstructionV::InsertValue {
                                                aggregate: Box::new(agg),
                                                value: Box::new(v),
                                                indices,
                                            },
                                            p3,
                                        ),
                                    )
                                } else {
                                    Err(ParseErrorV::Syntax)
                                },
                            },
                        }
                    } else {
                        Err(ParseErrorV::Syntax)
                    }
                } else {
                    Err(ParseErrorV::Syntax)
                },
            }
        } else if w == "alloca"@ {
            let q = skip_ws(s, e);
            let (can_reuse, p) = if word_at(s, q) == "inalloca"@ {
                (true, ident_end(s, q))
            } else {
                (false, e)
            };
            match sp_type(s, skip_ws(s, p)) {
                None => Err(ParseErrorV::Syntax),
                Some((t, p2)) => match sp_alloca_tail(s, p2) {
                    Err(err) => Err(err),
                    Ok(((num_elements, alignment, address_space), p3)) => Ok(
                        (
                            InstructionV::StackAllocate {
                                can_reuse,
                                value_type: t,
                                num_elements,
                                alignment,
                                address_space,
                            },
                            p3,
                        ),
                    ),
                },
            }
        } else if w == "load"@ {
            sp_load(s, e)
        } else if w == "store"@ {
            sp_store(s, e)
        } else if w == "fence"@ {
            match sp_sync_scope(s, e) {
                None => Err(ParseErrorV::Syntax),
                Some((scope, p)) => match sp_ordering(s, skip_ws(s, p)) {
                    None => Err(ParseErrorV::Syntax),
                    Some((ordering, p2)) => Ok(
                        (InstructionV::Fence { ordering, sync_scope: scope }, p2),
                    ),
                },
            }
        } else if w == "getelementptr"@ {
            sp_gep(s, e)
        } else if w == "trunc"@ {
            let (wrap, p) = sp_wrapping_flags(s, e);
            match sp_conversion_operands(s, skip_ws(s, p)) {
                Err(err) => Err(err),
                Ok(((v, t2), p2)) => Ok(
                    (
                        InstructionV::Truncate {
                            allowed_wrapping: wrap,
                            value: Box::new(v),
                            new_type: t2,
                        },
                        p2,
                    ),
                ),
            }
        } else if w == "zext"@ {
            match sp_conversion_operands(s, skip_ws(s, e)) {
                Err(err) => Err(err),
                Ok(((v, t2), p2)) => Ok(
                    (InstructionV::ZeroExtend { value: Box::new(v), new_type: t2 }, p2),
                ),
            }
        } else if w == "sext"@ {
            match sp_conversion_operands(s, skip_ws(s, e)) {
                Err(err) => Err(err),
                Ok(((v, t2), p2)) => Ok(
                    (InstructionV::SignExtend { value: Box::new(v), new_type: t2 }, p2),
                ),
            }
        } else if w == "ptrtoint"@ {
            match sp_conversion_operands(s, skip_ws(s, e)) {
                Err(err) => Err(err),
                Ok(((v, t2), p2)) => Ok(
                    (InstructionV::PointerToInteger { value: Box::new(v), new_type: t2 }, p2),
                ),
            }
        } else if w == "inttoptr"@ {
            match sp_conversion_operands(s, skip_ws(s, e)) {
                Err(err) => Err(err),
                Ok(((v, t2), p2)) => Ok(
                    (InstructionV::IntegerToPointer { value: Box::new(v), new_type: t2 }, p2),
                ),
            }
        } else if w == "bitcast"@ {
            match sp_conversion_operands(s, skip_ws(s, e)) {
                Err(err) => Err(err),
                Ok(((v, t2), p2)) => Ok(
                    (InstructionV::BitCast { value: Box::new(v), new_type: t2 }, p2),
                ),
            }
        } else if w == "addrspacecast"@ {
            match sp_conversion_operands(s, skip_ws(s, e)) {
                Err(err) => Err(err),
                Ok(((v, t2), p2)) => Ok(
                    (InstructionV::AddressSpaceCast { value: Box::new(v), new_type: t2 }, p2),
                ),
            }
        } else if w == "icmp"@ {
            match sp_comparison(s, skip_ws(s, e)) {
                None => Err(ParseErrorV::Syntax),
                Some((comparison, p)) => match sp_binary_operands(s, skip_ws(s, p)) {
                    Err(err) => Err(err),
                    Ok(((_t, v1, v2), p2)) => Ok(
                        (
                            InstructionV::CompareIntegers {
                                comparison,
                                left_hand_side: Box::new(v1),
                                right_hand_side: Box::new(v2),
                            },
                            p2,
                        ),
                    ),
                },
            }
        } else if w == "select"@ {
            match sp_typed_value(s, skip_ws(s, e)) {
                Err(err) => Err(err),
                Ok(((_t, condition), p)) => if 0 <= p <= s.len() {
                    let q = skip_ws(s, p);
                    if q < s.len() && s[q] == ',' {
                        match sp_typed_value(s, skip_ws(s, q + 1)) {
                            Err(err) => Err(err),
                            Ok(((_t2, tv), p2)) => if 0 <= p2 <= s.len() {
                                let q2 = skip_ws(s, p2);
                                if q2 < s.len() && s[q2] == ',' {
                                    match sp_typed_value(s, skip_ws(s, q2 + 1)) {
                                        Err(err) => Err(err),
                                        Ok(((_t3, fv), p3)) => Ok(
                                            (
                                                InstructionV::Select {
                                                    condition: Box::new(condition),
                                                    true_value: Box::new(tv),
                                                    false_value: Box::new(fv),
                                                },
                                                p3,
                                            ),
                                        ),
                                    }
                                } else {
                                    Err(ParseErrorV::Syntax)
                                }
                            } else {
                                Err(ParseErrorV::Syntax)
                            },
                        }
                    } else {
                        Err(ParseErrorV::Syntax)
                    }
                } else {
                    Err(ParseErrorV::Syntax)
                },
            }
        } else if w == "freeze"@ {
            match sp_typed_value(s, skip_ws(s, e)) {
                Err(err) => Err(err),
                Ok(((_t, v), p)) => Ok((InstructionV::Freeze { value: Box::new(v) }, p)),
            }
        } else if w == "call"@ {
            sp_call(s, e, TailCallHint::Indifferent)
        } else if w == "tail"@ {
            let q = skip_ws(s, e);
            if word_at(s, q) == "call"@ {
                sp_call(s, ident_end(s, q), TailCallHint::ShouldTail)
            } else {
                Err(ParseErrorV::Syntax)
            }
        } else if w == "musttail"@ {
            let q = skip_ws(s, e);
            if word_at(s, q) == "call"@ {
                sp_call(s, ident_end(s, q), TailCallHint::MustTail)
            } else {
                Err(ParseErrorV::Syntax)
            }
        } else if w == "notail"@ {
            let q = skip_ws(s, e);
            if word_at(s, q) == "call"@ {
                sp_call(s, ident_end(s, q), TailCallHint::NeverTail)
            } else {
                Err(ParseErrorV::Syntax)
            }
        } else if is_unsupported_opcode(w) {
            Err(ParseErrorV::Unsupported(w))
        } else {
            Err(ParseErrorV::Syntax)
        }
    }
}

/// Reads a `load` instruction after the opcode.
pub open spec fn sp_load(s: Seq<char>, pos: int) -> Result<(InstructionV, int), ParseErrorV> {
    if pos < 0 || pos > s.len() {
        Err(ParseErrorV::Syntax)
    } else {
        let q = skip_ws(s, pos);
        let (atomic, p0) = if word_at(s, q) == "atomic"@ {
            (true, ident_end(s, q))
        } else {
            (false, pos)
        };
        let q1 = skip_ws(s, p0);
        let (is_volatile, p1) = if word_at(s, q1) == "volatile"@ {
            (true, ident_end(s, q1))
        } else {
            (false, p0)
        };
        match sp_type(s, skip_ws(s, p1)) {
            None => Err(ParseErrorV::Syntax),
            Some((t, p2)) => if p2 <= s.len() {
                let q2 = skip_ws(s, p2);
                if q2 < s.len() && s[q2] == ',' {
                    match sp_typed_value(s, skip_ws(s, q2 + 1)) {
                        Err(err) => Err(err),
                        Ok(((_pt, pointer), p3)) => if atomic {
                            match sp_sync_scope(s, p3) {
                                None => Err(ParseErrorV::Syntax),
                                Some((scope, p4)) => match sp_ordering(s, skip_ws(s, p4)) {
                                    None => Err(ParseErrorV::Syntax),
                                    Some((ordering, p5)) => match sp_align_clause(s, p5) {
                                        None => Err(ParseErrorV::Syntax),
                                        Some((alignment, p6)) => Ok(
                                            (
                                                InstructionV::AtomicLoad {
                                                    is_volatile,
                                                    result_type: t,
                                                    pointer: Box::new(pointer),
                                                    ordering,
                                                    sync_scope: scope,
                                                    alignment,
                                                },
                                                p6,
                                            ),
                                        ),
                                    },
                                },
                            }
                        } else {
                            let (alignment, p4) = if sp_align_clause(s, p3) is Some {
                                match sp_align_clause(s, p3) {
                                    Some((v, p)) => (Some(v), p),
                                    None => (None, p3),
                                }
                            } else {
                                (None, p3)
                            };
                            Ok(
                                (
                                    InstructionV::Load {
                                        is_volatile,
                                        result_type: t,
                                        pointer: Box::new(pointer),
                                        alignment,
                                    },
                                    p4,
                                ),
                            )
                        },
                    }
                } else {
                    Err(ParseErrorV::Syntax)
                }
            } else {
                Err(ParseErrorV::Syntax)
            },
        }
    }
}

/// Reads a `store` instruction after the opcode.
pub open spec fn sp_store(s: Seq<char>, pos: int) -> Result<(InstructionV, int), ParseErrorV> {
    if pos < 0 || pos > s.len() {
        Err(ParseErrorV::Syntax)
    } else {
        let q = skip_ws(s, pos);
        let (atomic, p0) = if word_at(s, q) == "atomic"@ {
            (true, ident_end(s, q))
        } else {
            (false, pos)
        };
        let q1 = skip_ws(s, p0);
        let (is_volatile, p1) = if word_at(s, q1) == "volatile"@ {
            (true, ident_end(s, q1))
        } else {
            (false, p0)
        };
        match sp_typed_value(s, skip_ws(s, p1)) {
            Err(err) => Err(err),
            Ok(((_t, value), p2)) => if p2 <= s.len() {
                let q2 = skip_ws(s, p2);
                if q2 < s.len() && s[q2] == ',' {
                    match sp_typed_value(s, skip_ws(s, q2 + 1)) {
                        Err(err) => Err(err),
                        Ok(((_pt, pointer), p3)) => if atomic {
                            match sp_sync_scope(s, p3) {
                                None => Err(ParseErrorV::Syntax),
                                Some((scope, p4)) => match sp_ordering(s, skip_ws(s, p4)) {
                                    None => Err(ParseErrorV::Syntax),
                                    Some((ordering, p5)) => match sp_align_clause(s, p5) {
                                        None => Err(ParseErrorV::Syntax),
                                        Some((alignment, p6)) => Ok(
                                            (
                                                InstructionV::AtomicStore {
                                                    is_volatile,
                                                    value: Box::new(value),
                                                    pointer: Box::new(pointer),
                                                    ordering,
                                                    sync_scope: scope,
                                                    alignment,
                                                },
                                                p6,
                                            ),
                                        ),
                                    },
                                },
                            }
                        } else {
                            let (alignment, p4) = if sp_align_clause(s, p3) is Some {
                                match sp_align_clause(s, p3) {
                                    Some((v, p)) => (Some(v), p),
                                    None => (None, p3),
                                }
                            } else {
                                (None, p3)
                            };
                            Ok(
                                (
                                    InstructionV::Store {
                                        is_volatile,
                                        value: Box::new(value),
                                        pointer: Box::new(pointer),
                                        alignment,
                                    },
                                    p4,
                                ),
                            )
                        },
                    }
                } else {
                    Err(ParseErrorV::Syntax)
                }
            } else {
                Err(ParseErrorV::Syntax)
            },
        }
    }
}

/// Reads a `getelementptr` instruction after the opcode.
pub open spec fn sp_gep(s: Seq<char>, pos: int) -> Result<(InstructionV, int), ParseErrorV> {
    if pos < 0 || pos > s.len() {
        Err(ParseErrorV::Syntax)
    } else {
        let q = skip_ws(s, pos);
        let kind0 = if word_at(s, q) == "inbounds"@ {
            Some((GetPointerKind::InBounds, ident_end(s, q)))
        } else if word_at(s, q) == "inrange"@ {
            sp_inrange_kind(s, ident_end(s, q))
        } else {
            Some((GetPointerKind::Regular, pos))
        };
        match kind0 {
            None => Err(ParseErrorV::Syntax),
            Some((kind, p0)) => match sp_type(s, skip_ws(s, p0)) {
                None => Err(ParseErrorV::Syntax),
                Some((t, p1)) => if p1 <= s.len() {
                    let q1 = skip_ws(s, p1);
                    if q1 < s.len() && s[q1] == ',' {
                        match sp_typed_value(s, skip_ws(s, q1 + 1)) {
                            Err(err) => Err(err),
                            Ok(((_pt, pointer), p2)) => match sp_gep_indices(s, p2) {
                                Err(err) => Err(err),
                                Ok((indices, p3)) => Ok(
                                    (
                                        InstructionV::GetElementPointer {
                                            kind,
                                            pointer_type: t,
                                            pointer: Box::new(pointer),
                                            indices,
                                        },
                                        p3,
                                    ),
                                ),
                            },
                        }
                    } else {
                        Err(ParseErrorV::Syntax)
                    }
                } else {
                    Err(ParseErrorV::Syntax)
                },
            },
        }
    }
}

/// Reads `label %name` and yields it as a label-typed identifier value.
pub open spec fn sp_label_value(s: Seq<char>, pos: int) -> Option<(ValueV, int)> {
    if pos < 0 || pos > s.len() {
        None
    } else {
        let q = skip_ws(s, pos);
        if word_at(s, q) == "label"@ {
            let n = skip_ws(s, ident_end(s, q));
            if n < s.len() && s[n] == '%' {
                match sp_sigil_name(s, n) {
                    Some((name, p)) => Some(
                        (
                            ValueV::FromIdentifier { value_type: TypeV::Label, identifier: name },
                            p,
                        ),
                    ),
                    None => None,
                }
            } else {
                None
            }
        } else {
            None
        }
    }
}

/// Reads the case list of a `switch` up to the closing bracket: each
/// case is a typed value and a label destination.
pub open spec fn sp_switch_cases(s: Seq<char>, pos: int) -> Result<
    (Seq<SwitchDestinationV>, int),
    ParseErrorV,
>
    decreases s.len() - pos,
{
    if pos < 0 || pos > s.len() {
        Err(ParseErrorV::Syntax)
    } else {
        let q = skip_ws(s, pos);
        if q < s.len() && s[q] == ']' {
            Ok((Seq::empty(), q + 1))
        } else {
            match sp_typed_value(s, q) {
                Err(err) => Err(err),
                Ok(((_t, v), p)) => if pos < p <= s.len() {
                    let q2 = skip_ws(s, p);
                    if q2 < s.len() && s[q2] == ',' {
                        match sp_label_value(s, q2 + 1) {
                            None => Err(ParseErrorV::Syntax),
                            Some((dest, p2)) => if p < p2 <= s.len() {
                                match sp_switch_cases(s, p2) {
                                    Err(err) => Err(err),
                                    Ok((rest, p3)) => Ok(
                                        (
                                            seq![
                                                SwitchDestinationV { value: v, destination: dest },
                                            ] + rest,
                                            p3,
                                        ),
                                    ),
                                }
                            } else {
                                Err(ParseErrorV::Syntax)
                            },
                        }
                    } else {
                        Err(ParseErrorV::Syntax)
                    }
                } else {
                    Err(ParseErrorV::Syntax)
                },
            }
        }
    }
}

/// Reads the bracketed destination list of an `indirectbr`.
pub open spec fn sp_indirect_labels(s: Seq<char>, pos: int) -> Result<(Seq<ValueV>, int),
    ParseErrorV,
>
    decreases s.len() - pos,
{
    if pos < 0 || pos > s.len() {
        Err(ParseErrorV::Syntax)
    } else {
        match sp_label_value(s, pos) {
            None => Err(ParseErrorV::Syntax),
            Some((dest, p)) => if pos < p <= s.len() {
                let q = skip_ws(s, p);
                if q < s.len() && s[q] == ']' {
                    Ok((seq![dest], q + 1))
                } else if q < s.len() && s[q] == ',' {
                    match sp_indirect_labels(s, q + 1) {
                        Err(err) => Err(err),
                        Ok((rest, p2)) => Ok((seq![dest] + rest, p2)),
                    }
                } else {
                    Err(ParseErrorV::Syntax)
                }
            } else {
                Err(ParseErrorV::Syntax)
            },
        }
    }
}

/// Reads a terminator, dispatching on its opcode.
pub open spec fn sp_terminator(s: Seq<char>, pos: int) -> Result<(TerminatorV, int), ParseErrorV> {
    if pos < 0 || pos > s.len() {
        Err(ParseErrorV::Syntax)
    } else {
        let w = word_at(s, pos);
        let e = ident_end(s, pos);
        if w == "ret"@ {
            let q = skip_ws(s, e);
            if word_at(s, q) == "void"@ {
                Ok(
                    (
                        TerminatorV::Return {
                            value: ValueV::FromConstant {
                                constant_type: TypeV::Void,
                                constant: ConstantV::Void,
                            },
                        },
                        ident_end(s, q),
                    ),
                )
            } else {
                match sp_typed_value(s, q) {
                    Err(err) => Err(err),
                    Ok(((_t, v), p)) => Ok((TerminatorV::Return { value: v }, p)),
                }
            }
        } else if w == "br"@ {
            let q = skip_ws(s, e);
            if word_at(s, q) == "label"@ {
                match sp_label_value(s, q) {
                    None => Err(ParseErrorV::Syntax),
                    Some((dest, p)) => Ok((TerminatorV::Branch { destination: dest }, p)),
                }
            } else {
                match sp_typed_value(s, q) {
                    Err(err) => Err(err),
                    Ok(((_t, condition), p)) => if 0 <= p <= s.len() {
                        let q2 = skip_ws(s, p);
                        if q2 < s.len() && s[q2] == ',' {
                            match sp_label_value(s, q2 + 1) {
                                None => Err(ParseErrorV::Syntax),
                                Some((if_true, p2)) => if p2 <= s.len() {
                                    let q3 = skip_ws(s, p2);
                                    if q3 < s.len() && s[q3] == ',' {
                                        match sp_label_value(s, q3 + 1) {
                                            None => Err(ParseErrorV::Syntax),
                                            Some((if_false, p3)) => Ok(
                                                (
                                                    TerminatorV::ConditionalBranch {
                                                        condition,
                                                        if_true,
                                                        if_false,
                                                    },
                                                    p3,
                                                ),
                                            ),
                                        }
                                    } else {
                                        Err(ParseErrorV::Syntax)
                                    }
                                } else {
                                    Err(ParseErrorV::Syntax)
                                },
                            }
                        } else {
                            Err(ParseErrorV::Syntax)
                        }
                    } else {
                        Err(ParseErrorV::Syntax)
                    },
                }
            }
        } else if w == "switch"@ {
            match sp_typed_value(s, skip_ws(s, e)) {
                Err(err) => Err(err),
                Ok(((_t, v), p)) => if 0 <= p <= s.len() {
                    let q = skip_ws(s, p);
                    if q < s.len() && s[q] == ',' {
                        match sp_label_value(s, q + 1) {
                            None => Err(ParseErrorV::Syntax),
                            Some((default_dest, p2)) => if p2 <= s.len() {
                                let q2 = skip_ws(s, p2);
                                if q2 < s.len() && s[q2] == '[' {
                                    match sp_switch_cases(s, q2 + 1) {
                                        Err(err) => Err(err),
                                        Ok((destinations, p3)) => Ok(
                                            (
                                                TerminatorV::Switch {
                                                    value: v,
                                                    default_destination: default_dest,
                                                    destinations,
                                                },
                                                p3,
                                            ),
                                        ),
                                    }
                                } else {
                                    Err(ParseErrorV::Syntax)
                                }
                            } else {
                                Err(ParseErrorV::Syntax)
                            },
                        }
                    } else {
                        Err(ParseErrorV::Syntax)
                    }
                } else {
                    Err(ParseErrorV::Syntax)
                },
            }
        } else if w == "indirectbr"@ {
            match sp_typed_value(s, skip_ws(s, e)) {
                Err(err) => Err(err),
                Ok(((_t, address), p)) => if 0 <= p <= s.len() {
                    let q = skip_ws(s, p);
                    if q < s.len() && s[q] == ',' {
                        let q2 = skip_ws(s, q + 1);
                        if q2 < s.len() && s[q2] == '[' {
                            match sp_indirect_labels(s, q2 + 1) {
                                Err(err) => Err(err),
                                Ok((valid_destinations, p2)) => Ok(
                                    (
                                        TerminatorV::IndirectBranch {
                                            address,
                                            valid_destinations,
                                        },
                                        p2,
                                    ),
                                ),
                            }
                        } else {
                            Err(ParseErrorV::Syntax)
                        }
                    } else {
                        Err(ParseErrorV::Syntax)
                    }
                } else {
                    Err(ParseErrorV::Syntax)
                },
            }
        } else if w == "unreachable"@ {
            Ok((TerminatorV::Unreachable, e))
        } else if is_unsupported_terminator(w) {
            Err(ParseErrorV::Unsupported(w))
        } else {
            Err(ParseErrorV::Syntax)
        }
    }
}

/// Reads one operation: an assignment `%name = instruction`, or a bare
/// instruction.
pub open spec fn sp_operation(s: Seq<char>, pos: int) -> Result<(OperationV, int), ParseErrorV> {
    if pos < 0 || pos > s.len() {
        Err(ParseErrorV::Syntax)
    } else if pos < s.len() && s[pos] == '%' {
        match sp_sigil_name(s, pos) {
            None => Err(ParseErrorV::Syntax),
            Some((name, p)) => {
                let q = skip_ws(s, p);
                if q < s.len() && s[q] == '=' {
                    match sp_instruction(s, skip_ws(s, q + 1)) {
                        Err(err) => Err(err),
                        Ok((i, p2)) => Ok(
                            (OperationV::Assignment { identifier: name, value: i }, p2),
                        ),
                    }
                } else {
                    Err(ParseErrorV::Syntax)
                }
            },
        }
    } else {
        match sp_instruction(s, pos) {
            Err(err) => Err(err),
            Ok((i, p)) => Ok((OperationV::NoAssignment { instruction: i }, p)),
        }
    }
}

/// Reads the operations of a block, ending at (and including) the
/// terminator.
pub open spec fn sp_block_body(s: Seq<char>, pos: int) -> Result<
    ((Seq<OperationV>, TerminatorV), int),
    ParseErrorV,
>
    decreases s.len() - pos,
{
    if pos < 0 || pos > s.len() {
        Err(ParseErrorV::Syntax)
    } else {
        let w = word_at(s, pos);
        if is_terminator_opcode(w) || is_unsupported_terminator(w) {
            match sp_terminator(s, pos) {
                Err(err) => Err(err),
                Ok((t, p)) => Ok(((Seq::empty(), t), p)),
            }
        } else {
            match sp_operation(s, pos) {
                Err(err) => Err(err),
                Ok((op, p)) => if pos < p <= s.len() {
                    match sp_block_body(s, skip_ws(s, p)) {
                        Err(err) => Err(err),
                        Ok(((ops, t), p2)) => Ok(((seq![op] + ops, t), p2)),
                    }
                } else {
                    Err(ParseErrorV::Syntax)
                },
            }
        }
    }
}

/// Reads a basic block: an optional `name:` label directly followed by
/// its colon, then operations and a terminator.
pub open spec fn sp_basic_block(s: Seq<char>, pos: int) -> Result<(BasicBlockV, int), ParseErrorV>
{
    if pos < 0 || pos > s.len() {
        Err(ParseErrorV::Syntax)
    } else {
        let e = ident_end(s, pos);
        if e > pos && e < s.len() && s[e] == ':' {
            match sp_block_body(s, skip_ws(s, e + 1)) {
                Err(err) => Err(err),
                Ok(((operations, terminator), p)) => Ok(
                    (
                        BasicBlockV {
                            name: Some(s.subrange(pos, e)),
                            operations,
                            terminator,
                        },
                        p,
                    ),
                ),
            }
        } else {
            match sp_block_body(s, pos) {
                Err(err) => Err(err),
                Ok(((operations, terminator), p)) => Ok(
                    (BasicBlockV { name: None, operations, terminator }, p),
                ),
            }
        }
    }
}

/// Reads basic blocks until the closing brace of the function body.
pub open spec fn sp_blocks(s: Seq<char>, pos: int) -> Result<(Seq<BasicBlockV>, int), ParseErrorV>
    decreases s.len() - pos,
{
    if pos < 0 || pos > s.len() {
        Err(ParseErrorV::Syntax)
    } else {
        let q = skip_ws(s, pos);
        if q < s.len() && s[q] == '}' {
            Ok((Seq::empty(), q + 1))
        } else {
            match sp_basic_block(s, q) {
                Err(err) => Err(err),
                Ok((b, p)) => if pos < p <= s.len() {
                    match sp_blocks(s, p) {
                        Err(err) => Err(err),
                        Ok((rest, p2)) => Ok((seq![b] + rest, p2)),
                    }
                } else {
                    Err(ParseErrorV::Syntax)
                },
            }
        }
    }
}

/// Reads an optional keyword out of an enumeration given by `spec_of`.
pub open spec fn sp_linkage(s: Seq<char>, pos: int) -> (LinkageType, int) {
    let q = skip_ws(s, pos);
    let w = word_at(s, q);
    let e = ident_end(s, q);
    if w == "private"@ {
        (LinkageType::Private, e)
    } else if w == "internal"@ {
        (LinkageType::Internal, e)
    } else if w == "available_externally"@ {
        (LinkageType::AvailableExternally, e)
    } else if w == "linkonce"@ {
        (LinkageType::LinkOnce, e)
    } else if w == "weak"@ {
        (LinkageType::Weak, e)
    } else if w == "common"@ {
        (LinkageType::Common, e)
    } else if w == "appending"@ {
        (LinkageType::Appending, e)
    } else if w == "extern_weak"@ {
        (LinkageType::ExternalWeak, e)
    } else if w == "linkonce_odr"@ {
        (LinkageType::LinkOnceODR, e)
    } else if w == "weak_odr"@ {
        (LinkageType::WeakODR, e)
    } else if w == "external"@ {
        (LinkageType::External, e)
    } else {
        (LinkageType::External, pos)
    }
}

/// Reads an optional runtime preemption keyword.
pub open spec fn sp_preemption(s: Seq<char>, pos: int) -> (PreemptionSpecifier, int) {
    let q = skip_ws(s, pos);
    let w = word_at(s, q);
    let e = ident_end(s, q);
    if w == "dso_preemptable"@ {
        (PreemptionSpecifier::Preemptable, e)
    } else if w == "dso_local"@ {
        (PreemptionSpecifier::Local, e)
    } else {
        (PreemptionSpecifier::Preemptable, pos)
    }
}

/// Reads an optional visibility keyword.
pub open spec fn sp_visibility(s: Seq<char>, pos: int) -> (Visibility, int) {
    let q = skip_ws(s, pos);
    let w = word_at(s, q);
    let e = ident_end(s, q);
    if w == "hidden"@ {
        (Visibility::Hidden, e)
    } else if w == "protected"@ {
        (Visibility::Protected, e)
    } else if w == "default"@ {
        (Visibility::Default, e)
    } else {
        (Visibility::Default, pos)
    }
}

/// Reads the parenthesized parameter list of a function definition;
/// `pos` stands just past the opening parenthesis.
pub open spec fn sp_fn_params(s: Seq<char>, pos: int) -> Result<(Seq<FunctionParameterV>, int),
    ParseErrorV,
>
    decreases s.len() - pos, 1int,
{
    if pos < 0 || pos > s.len() {
        Err(ParseErrorV::Syntax)
    } else {
        let q = skip_ws(s, pos);
        if q < s.len() && s[q] == ')' {
            Ok((Seq::empty(), q + 1))
        } else {
            sp_fn_params_items(s, q)
        }
    }
}

/// Reads one or more `type %name` parameters up to the closing
/// parenthesis.
pub open spec fn sp_fn_params_items(s: Seq<char>, pos: int) -> Result<
    (Seq<FunctionParameterV>, int),
    ParseErrorV,
>
    decreases s.len() - pos, 0int,
{
    if pos < 0 || pos > s.len() {
        Err(ParseErrorV::Syntax)
    } else {
        match sp_type(s, pos) {
            None => Err(ParseErrorV::Syntax),
            Some((t, p)) => if pos < p <= s.len() {
                let n = skip_ws(s, p);
                if n < s.len() && s[n] == '%' {
                    match sp_sigil_name(s, n) {
                        None => Err(ParseErrorV::Syntax),
                        Some((name, p2)) => if p2 <= s.len() {
                            let q = skip_ws(s, p2);
                            if q < s.len() && s[q] == ')' {
                                Ok(
                                    (
                                        seq![FunctionParameterV { parameter_type: t, name }],
                                        q + 1,
                                    ),
                                )
                            } else if q < s.len() && s[q] == ',' {
                                let q2 = skip_ws(s, q + 1);
                                if q2 > pos {
                                    match sp_fn_params_items(s, q2) {
                                        Err(err) => Err(err),
                                        Ok((rest, p3)) => Ok(
                                            (
                                                seq![
                                                    FunctionParameterV {
                                                        parameter_type: t,
                                                        name,
                                                    },
                                                ] + rest,
                                                p3,
                                            ),
                                        ),
                                    }
                                } else {
                                    Err(ParseErrorV::Syntax)
                                }
                            } else {
                                Err(ParseErrorV::Syntax)
                            }
                        } else {
                            Err(ParseErrorV::Syntax)
                        },
                    }
                } else {
                    Err(ParseErrorV::Syntax)
                }
            } else {
                Err(ParseErrorV::Syntax)
            },
        }
    }
}

/// Reads an optional `section "name"` or `partition "name"` clause.
pub open spec fn sp_named_clause(s: Seq<char>, pos: int, kw: Seq<char>) -> Option<(
    Option<Seq<char>>,
    int,
)> {
    if pos < 0 || pos > s.len() {
        None
    } else {
        let q = skip_ws(s, pos);
        if word_at(s, q) == kw {
            match crate::grammar::sp_quoted(s, skip_ws(s, ident_end(s, q))) {
                None => None,
                Some((name, p)) => Some((Some(name), p)),
            }
        } else {
            Some((None, pos))
        }
    }
}

/// Reads an optional `align n` clause (without a leading comma, as it
/// stands in a function header).
pub open spec fn sp_fn_align(s: Seq<char>, pos: int) -> Option<(Option<nat>, int)> {
    if pos < 0 || pos > s.len() {
        None
    } else {
        let q = skip_ws(s, pos);
        if word_at(s, q) == "align"@ {
            let d = skip_ws(s, ident_end(s, q));
            if d < s.len() && is_digit_char(s[d]) {
                let e = digits_end(s, d);
                let v = digits_value(s, d, e);
                if v <= max_number() {
                    Some((Some(v), e))
                } else {
                    None
                }
            } else {
                None
            }
        } else {
            Some((None, pos))
        }
    }
}

/// Reads a whole function definition starting at the `define` keyword.
pub open spec fn sp_function(s: Seq<char>, pos: int) -> Result<(FunctionV, int), ParseErrorV> {
    if pos < 0 || pos > s.len() {
        Err(ParseErrorV::Syntax)
    } else if word_at(s, pos) == "define"@ {
        let (linkage, p1) = sp_linkage(s, ident_end(s, pos));
        let (preemption, p2) = sp_preemption(s, p1);
        let (visibility, p3) = sp_visibility(s, p2);
        let (attrs, p4) = sp_ret_attrs(s, p3);
        if p4 > s.len() {
            Err(ParseErrorV::Syntax)
        } else {
            match sp_type(s, skip_ws(s, p4)) {
                None => Err(ParseErrorV::Syntax),
                Some((return_type, p5)) => if p5 <= s.len() {
                    let n = skip_ws(s, p5);
                    if n < s.len() && s[n] == '@' {
                        match sp_sigil_name(s, n) {
                            None => Err(ParseErrorV::Syntax),
                            Some((name, p6)) => if p6 <= s.len() {
                                let o = skip_ws(s, p6);
                                if o < s.len() && s[o] == '(' {
                                    match sp_fn_params(s, o + 1) {
                                        Err(err) => Err(err),
                                        Ok((arguments, p7)) => sp_function_tail(
                                            s,
                                            p7,
                                            linkage,
                                            preemption,
                                            visibility,
                                            attrs,
                                            return_type,
                                            name,
                                            arguments,
                                        ),
                                    }
                                } else {
                                    Err(ParseErrorV::Syntax)
                                }
                            } else {
                                Err(ParseErrorV::Syntax)
                            },
                        }
                    } else {
                        Err(ParseErrorV::Syntax)
                    }
                } else {
                    Err(ParseErrorV::Syntax)
                },
            }
        }
    } else {
        Err(ParseErrorV::Syntax)
    }
}

/// Reads the trailing clauses and the body of a function definition.
pub open spec fn sp_function_tail(
    s: Seq<char>,
    pos: int,
    linkage: LinkageType,
    preemption: PreemptionSpecifier,
    visibility: Visibility,
    attrs: Seq<ParameterAttributeV>,
    return_type: TypeV,
    name: Seq<char>,
    arguments: Seq<FunctionParameterV>,
) -> Result<(FunctionV, int), ParseErrorV> {
    if pos < 0 || pos > s.len() {
        Err(ParseErrorV::Syntax)
    } else {
        match sp_addrspace_clause(s, pos) {
            None => Err(ParseErrorV::Syntax),
            Some((address_space, p1)) => match sp_named_clause(s, p1, "section"@) {
                None => Err(ParseErrorV::Syntax),
                Some((section_name, p2)) => match sp_named_clause(s, p2, "partition"@) {
                    None => Err(ParseErrorV::Syntax),
                    Some((partition_name, p3)) => match sp_fn_align(s, p3) {
                        None => Err(ParseErrorV::Syntax),
                        Some((alignment, p4)) => match sp_named_clause(s, p4, "gc"@) {
                            None => Err(ParseErrorV::Syntax),
                            Some((gc_name, p5)) => if p5 <= s.len() {
                                let q = skip_ws(s, p5);
                                if q < s.len() && s[q] == '{' {
                                    match sp_blocks(s, q + 1) {
                                        Err(err) => Err(err),
                                        Ok((basic_blocks, p6)) => Ok(
                                            (
                                                FunctionV {
                                                    linkage,
                                                    preemption_specifier: preemption,
                                                    visibility,
                                                    return_type,
                                                    return_type_parameter_attributes: attrs,
                                                    name,
                                                    arguments,
                                                    address_space,
                                                    section_name,
                                                    partition_name,
                                                    alignment,
                                                    is_garbage_collected: gc_name is Some,
                                                    basic_blocks,
                                                },
                                                p6,
                                            ),
                                        ),
                                    }
                                } else {
                                    Err(ParseErrorV::Syntax)
                                }
                            } else {
                                Err(ParseErrorV::Syntax)
                            },
                        },
                    },
                },
            },
        }
    }
}

/// The label identifiers (with their `%` sigil) that a value names, when
/// it is a label-typed identifier.
pub open spec fn label_idents_of(v: ValueV) -> Seq<Seq<char>> {
    match v {
        ValueV::FromIdentifier { value_type: TypeV::Label, identifier } => seq![identifier],
        _ => Seq::empty(),
    }
}

/// The label identifiers a switch-case list references from position
/// `from` on, in order.
pub open spec fn switch_case_labels(cases: Seq<SwitchDestinationV>, from: int) -> Seq<Seq<char>>
    decreases cases.len() - from,
{
    if from < 0 || from >= cases.len() {
        Seq::empty()
    } else {
        label_idents_of(cases[from].destination) + switch_case_labels(cases, from + 1)
    }
}

/// The label identifiers of a list of destination values from position
/// `from` on, in order.
pub open spec fn value_list_labels(vs: Seq<ValueV>, from: int) -> Seq<Seq<char>>
    decreases vs.len() - from,
{
    if from < 0 || from >= vs.len() {
        Seq::empty()
    } else {
        label_idents_of(vs[from]) + value_list_labels(vs, from + 1)
    }
}

/// The label identifiers a terminator references, in textual order.
pub open spec fn terminator_labels(t: TerminatorV) -> Seq<Seq<char>> {
    match t {
        TerminatorV::ConditionalBranch { if_true, if_false, .. } => label_idents_of(if_true)
            + label_idents_of(if_false),
        TerminatorV::Branch { destination } => label_idents_of(destination),
        TerminatorV::Switch { default_destination, destinations, .. } => label_idents_of(
            default_destination,
        ) + switch_case_labels(destinations, 0),
        TerminatorV::IndirectBranch { valid_destinations, .. } => value_list_labels(
            valid_destinations,
            0,
        ),
        _ => Seq::empty(),
    }
}

/// Whether some block of the function defines the label a sigil-qualified
/// identifier names.
pub open spec fn label_defined(blocks: Seq<BasicBlockV>, ident: Seq<char>) -> bool {
    exists|i: int|
        0 <= i < blocks.len() && (#[trigger] blocks[i].name matches Some(n) && ident == seq!['%']
            + n)
}

/// The first label of `labels`, from position `from` on, that no block
/// defines.
pub open spec fn first_undefined(
    blocks: Seq<BasicBlockV>,
    labels: Seq<Seq<char>>,
    from: int,
) -> Option<Seq<char>>
    decreases labels.len() - from,
{
    if from < 0 || from >= labels.len() {
        None
    } else if !label_defined(blocks, labels[from]) {
        Some(labels[from])
    } else {
        first_undefined(blocks, labels, from + 1)
    }
}

/// The referenced labels of the whole function from block `from` on, in
/// textual order.
pub open spec fn function_labels(blocks: Seq<BasicBlockV>, from: int) -> Seq<Seq<char>>
    decreases blocks.len() - from,
{
    if from < 0 || from >= blocks.len() {
        Seq::empty()
    } else {
        terminator_labels(blocks[from].terminator) + function_labels(blocks, from + 1)
    }
}

/// The first label a terminator of the function references that no block
/// of the function defines; `None` when every reference resolves.
pub open spec fn first_unresolved_label(f: FunctionV) -> Option<Seq<char>> {
    first_undefined(f.basic_blocks, function_labels(f.basic_blocks, 0), 0)
}

/// The whole-text reading of a function definition, forward references
/// resolved: every label a branch, switch or indirect branch names must
/// be defined by a basic block of the function, wherever in the text
/// that block stands.
pub open spec fn parse_function_spec(s: Seq<char>) -> Result<FunctionV, ParseErrorV> {
    match sp_function(s, skip_ws(s, 0)) {
        Err(err) => Err(err),
        Ok((f, p)) => if p <= s.len() && skip_ws(s, p) == s.len() {
            match first_unresolved_label(f) {
                Some(name) => Err(ParseErrorV::UndefinedLabel(name)),
                None => Ok(f),
            }
        } else {
            Err(ParseErrorV::Syntax)
        },
    }
}

/// The whole-text reading of a standalone basic block.  References to
/// labels are not resolved here: a block on its own has no enclosing
/// function to resolve them against.
pub open spec fn parse_basic_block_spec(s: Seq<char>) -> Result<BasicBlockV, ParseErrorV> {
    match sp_basic_block(s, skip_ws(s, 0)) {
        Err(err) => Err(err),
        Ok((b, p)) => if p <= s.len() && skip_ws(s, p) == s.len() {
            Ok(b)
        } else {
            Err(ParseErrorV::Syntax)
        },
    }
}

/// Reads the `(low, high)` byte-range of an `inrange` flag.
pub open spec fn sp_inrange_kind(s: Seq<char>, pos: int) -> Option<(GetPointerKind, int)> {
    if pos < 0 || pos > s.len() {
        None
    } else {
        let q = skip_ws(s, pos);
        if q < s.len() && s[q] == '(' {
            let a = skip_ws(s, q + 1);
            if a < s.len() && is_digit_char(s[a]) {
                let e1 = digits_end(s, a);
                let lo = digits_value(s, a, e1);
                if lo <= max_number() {
                    let c = skip_ws(s, e1);
                    if c < s.len() && s[c] == ',' {
                        let b = skip_ws(s, c + 1);
                        if b < s.len() && is_digit_char(s[b]) {
                            let e2 = digits_end(s, b);
                            let hi = digits_value(s, b, e2);
                            if hi <= max_number() {
                                let d = skip_ws(s, e2);
                                if d < s.len() && s[d] == ')' {
                                    Some((GetPointerKind::InRange(lo as usize, hi as usize), d + 1))
                                } else {
                                    None
                                }
                            } else {
                                None
                            }
                        } else {
                            None
                        }
                    } else {
                        None
                    }
                } else {
                    None
                }
            } else {
                None
            }
        } else {
            None
        }
    }
}

} // verus!
