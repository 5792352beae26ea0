//! The canonical printer for types.
//!
//! `canon_type` is the canonical text of a type; `print_type` is proved
//! to produce exactly that text.  Parsing the canonical text gives the
//! type back (the round-trip law of the grammar).

use crate::scan::is_digit_char;
use crate::types::{AddressSpaceV, FloatingPointKind, TargetExtensionParameterV, Type, TypeV};
use vstd::prelude::*;
use vstd::string::StrSliceExecFns;
use vstd::string::StringExecFns;

verus! {

broadcast use vstd::std_specs::vec::axiom_vec_index_decreases;

/// The character of one decimal digit.
pub open spec fn canon_digit(d: nat) -> char {
    if d == 0 {
        '0'
    } else if d == 1 {
        '1'
    } else if d == 2 {
        '2'
    } else if d == 3 {
        '3'
    } else if d == 4 {
        '4'
    } else if d == 5 {
        '5'
    } else if d == 6 {
        '6'
    } else if d == 7 {
        '7'
    } else if d == 8 {
        '8'
    } else {
        '9'
    }
}

/// The decimal text of a number, most significant digit first.
pub open spec fn canon_number(n: nat) -> Seq<char>
    decreases n,
{
    if n < 10 {
        seq![canon_digit(n)]
    } else {
        canon_number(n / 10).push(canon_digit(n % 10))
    }
}

/// The canonical text of a type.
pub open spec fn canon_type(t: TypeV) -> Seq<char>
    decreases t, 3int, 0int,
{
    match t {
        TypeV::Void => "void"@,
        TypeV::Function { return_type, parameters, has_varargs } => canon_type(*return_type)
            + " ("@ + canon_fn_params(parameters, has_varargs) + ")"@,
        TypeV::Integer { bit_width } => "i"@ + canon_number(bit_width),
        TypeV::FloatingPoint { kind } => canon_float(kind),
        TypeV::AMX => "x86_amx"@,
        TypeV::MMX => "x86_mmx"@,
        TypeV::Pointer { address_space } => match address_space {
            AddressSpaceV::Numbered(n) => if n == 0 {
                "ptr"@
            } else {
                "ptr"@ + " "@ + "addrspace"@ + "("@ + canon_number(n) + ")"@
            },
            AddressSpaceV::Named(name) => "ptr"@ + " "@ + "addrspace"@ + "("@ + "\""@ + name
                + "\""@ + ")"@,
        },
        TypeV::TargetExtension { name, parameters } => "target"@ + "("@ + "\""@ + name + "\""@
            + canon_target_params(parameters, 0) + ")"@,
        TypeV::Vector { length, element_type, is_scalable } => if is_scalable {
            "<"@ + "vscale"@ + " x "@ + canon_number(length) + " x "@ + canon_type(*element_type)
                + ">"@
        } else {
            "<"@ + canon_number(length) + " x "@ + canon_type(*element_type) + ">"@
        },
        TypeV::Label => "label"@,
        TypeV::Token => "token"@,
        TypeV::Metadata => "metadata"@,
        TypeV::Array { length, element_type } => "["@ + canon_number(length) + " x "@ + canon_type(
            *element_type,
        ) + "]"@,
        TypeV::Structure { types, is_packed } => if is_packed {
            "<{"@ + canon_type_list(types) + "}>"@
        } else {
            "{"@ + canon_type_list(types) + "}"@
        },
        TypeV::OpaqueStructure => "opaque"@,
    }
}

/// The keyword of a floating point kind.
pub open spec fn canon_float(kind: FloatingPointKind) -> Seq<char> {
    match kind {
        FloatingPointKind::Binary16 => "half"@,
        FloatingPointKind::Brain => "bfloat"@,
        FloatingPointKind::Binary32 => "float"@,
        FloatingPointKind::Binary64 => "double"@,
        FloatingPointKind::Binary128 => "fp128"@,
        FloatingPointKind::X86Fp80 => "x86_fp80"@,
        FloatingPointKind::PpcFp128 => "ppc_fp128"@,
    }
}

/// A comma-separated type list: the first type bare, each further type
/// after `, `.
pub open spec fn canon_type_list(ts: Seq<TypeV>) -> Seq<char>
    decreases ts, 1int, 0int,
{
    if ts.len() == 0 {
        Seq::empty()
    } else {
        canon_type(ts[0]) + canon_type_rest(ts, 1)
    }
}

/// The tail of a comma-separated type list, from position `from` on.
pub open spec fn canon_type_rest(ts: Seq<TypeV>, from: int) -> Seq<char>
    decreases ts, 0int, ts.len() - from,
{
    if from < 0 || from >= ts.len() {
        Seq::empty()
    } else {
        ", "@ + canon_type(ts[from]) + canon_type_rest(ts, from + 1)
    }
}

/// A function-type parameter list, with `...` as the last entry when the
/// function takes varargs.
pub open spec fn canon_fn_params(ts: Seq<TypeV>, has_varargs: bool) -> Seq<char>
    decreases ts, 2int, 0int,
{
    if ts.len() == 0 {
        if has_varargs {
            "..."@
        } else {
            Seq::empty()
        }
    } else {
        if has_varargs {
            canon_type_list(ts) + ", ..."@
        } else {
            canon_type_list(ts)
        }
    }
}

/// The parameter list of a target extension type, each entry after `, `.
pub open spec fn canon_target_params(ps: Seq<TargetExtensionParameterV>, from: int) -> Seq<char>
    decreases ps, 0int, ps.len() - from,
{
    if from < 0 || from >= ps.len() {
        Seq::empty()
    } else {
        ", "@ + canon_target_param(ps[from]) + canon_target_params(ps, from + 1)
    }
}

/// One target extension parameter: a type or a bare number.
pub open spec fn canon_target_param(p: TargetExtensionParameterV) -> Seq<char>
    decreases p, 3int, 0int,
{
    match p {
        TargetExtensionParameterV::Type(t) => canon_type(t),
        TargetExtensionParameterV::Integer(n) => canon_number(n),
    }
}

/// Writes the decimal text of a number onto `out`.
fn print_number(n: usize, out: &mut String)
    ensures
        final(out)@ == old(out)@ + canon_number(n as nat),
    decreases n,
{
    if n < 10 {
        push_digit(n, out);
        proof {
            assert(final(out)@ =~= old(out)@ + canon_number(n as nat));
        }
    } else {
        print_number(n / 10, out);
        let ghost mid = out@;
        push_digit(n % 10, out);
        proof {
            assert(canon_number(n as nat) == canon_number(n as nat / 10).push(
                canon_digit(n as nat % 10),
            ));
            assert(final(out)@ =~= old(out)@ + canon_number(n as nat));
        }
    }
}

/// Appends the character of one decimal digit.
fn push_digit(d: usize, out: &mut String)
    requires
        d < 10,
    ensures
        final(out)@ == old(out)@.push(canon_digit(d as nat)),
{
    let c = if d == 0 {
        '0'
    } else if d == 1 {
        '1'
    } else if d == 2 {
        '2'
    } else if d == 3 {
        '3'
    } else if d == 4 {
        '4'
    } else if d == 5 {
        '5'
    } else if d == 6 {
        '6'
    } else if d == 7 {
        '7'
    } else if d == 8 {
        '8'
    } else {
        '9'
    };
    crate::parser::push_char(out, c);
}

/// Writes the canonical text of a type onto `out`.
#[verifier::rlimit(100)]
fn print_type_onto(t: &Type, out: &mut String)
    ensures
        final(out)@ == old(out)@ + canon_type(t@),
    decreases *t, 3int, 0int,
{
    match t {
        Type::Void => {
            out.append("void");
            proof {
                assert(final(out)@ =~= old(out)@ + canon_type(t@));
            }
        },
        Type::Function { return_type, parameters, has_varargs } => {
            print_type_onto(return_type, out);
            out.append(" (");
            print_fn_params(parameters, *has_varargs, out);
            out.append(")");
            proof {
                assert(final(out)@ =~= old(out)@ + canon_type(t@));
            }
        },
        Type::Integer { bit_width } => {
            out.append("i");
            print_number(*bit_width, out);
            proof {
                assert(final(out)@ =~= old(out)@ + canon_type(t@));
            }
        },
        Type::FloatingPoint { kind } => {
            match kind {
                FloatingPointKind::Binary16 => out.append("half"),
                FloatingPointKind::Brain => out.append("bfloat"),
                FloatingPointKind::Binary32 => out.append("float"),
                FloatingPointKind::Binary64 => out.append("double"),
                FloatingPointKind::Binary128 => out.append("fp128"),
                FloatingPointKind::X86Fp80 => out.append("x86_fp80"),
                FloatingPointKind::PpcFp128 => out.append("ppc_fp128"),
            }
            proof {
                assert(final(out)@ =~= old(out)@ + canon_type(t@));
            }
        },
        Type::AMX => {
            out.append("x86_amx");
            proof {
                assert(final(out)@ =~= old(out)@ + canon_type(t@));
            }
        },
        Type::MMX => {
            out.append("x86_mmx");
            proof {
                assert(final(out)@ =~= old(out)@ + canon_type(t@));
            }
        },
        Type::Pointer { address_space } => {
            match address_space {
                crate::types::AddressSpace::Numbered(n) => {
                    if *n == 0 {
                        out.append("ptr");
                    } else {
                        out.append("ptr");
                        out.append(" ");
                        out.append("addrspace");
                        out.append("(");
                        print_number(*n, out);
                        out.append(")");
                    }
                },
                crate::types::AddressSpace::Named(name) => {
                    out.append("ptr");
                    out.append(" ");
                    out.append("addrspace");
                    out.append("(");
                    out.append("\"");
                    out.append(name.as_str());
                    out.append("\"");
                    out.append(")");
                },
            }
            proof {
                assert(final(out)@ =~= old(out)@ + canon_type(t@));
            }
        },
        Type::TargetExtension { name, parameters } => {
            out.append("target");
            out.append("(");
            out.append("\"");
            out.append(name.as_str());
            out.append("\"");
            print_target_params(parameters, out);
            out.append(")");
            proof {
                assert(final(out)@ =~= old(out)@ + canon_type(t@));
            }
        },
        Type::Vector { length, element_type, is_scalable } => {
            if *is_scalable {
                out.append("<");
                out.append("vscale");
                out.append(" x ");
            } else {
                out.append("<");
            }
            print_number(*length, out);
            out.append(" x ");
            print_type_onto(element_type, out);
            out.append(">");
            proof {
                assert(final(out)@ =~= old(out)@ + canon_type(t@));
            }
        },
        Type::Label => {
            out.append("label");
            proof {
                assert(final(out)@ =~= old(out)@ + canon_type(t@));
            }
        },
        Type::Token => {
            out.append("token");
            proof {
                assert(final(out)@ =~= old(out)@ + canon_type(t@));
            }
        },
        Type::Metadata => {
            out.append("metadata");
            proof {
                assert(final(out)@ =~= old(out)@ + canon_type(t@));
            }
        },
        Type::Array { length, element_type } => {
            out.append("[");
            print_number(*length, out);
            out.append(" x ");
            print_type_onto(element_type, out);
            out.append("]");
            proof {
                assert(final(out)@ =~= old(out)@ + canon_type(t@));
            }
        },
        Type::Structure { types, is_packed } => {
            if *is_packed {
                out.append("<{");
            } else {
                out.append("{");
            }
            print_type_list(types, out);
            if *is_packed {
                out.append("}>");
            } else {
                out.append("}");
            }
            proof {
                assert(final(out)@ =~= old(out)@ + canon_type(t@));
            }
        },
        Type::OpaqueStructure => {
            out.append("opaque");
            proof {
                assert(final(out)@ =~= old(out)@ + canon_type(t@));
            }
        },
    }
}

/// Writes a comma-separated type list onto `out`.
fn print_type_list(ts: &Vec<Type>, out: &mut String)
    ensures
        final(out)@ == old(out)@ + canon_type_list(crate::types::types_view(ts@)),
    decreases *ts, 1int, 0int,
{
    let ghost tv = crate::types::types_view(ts@);
    proof {
        crate::types::lemma_types_view(ts@);
    }
    if ts.len() == 0 {
        proof {
            assert(final(out)@ =~= old(out)@ + canon_type_list(tv));
        }
        return ;
    }
    print_type_onto(&ts[0], out);
    let n = ts.len();
    let mut i: usize = 1;
    while i < n
        invariant
            1 <= i <= n,
            n == ts@.len(),
            tv == crate::types::types_view(ts@),
            tv.len() == n,
            forall|j: int| 0 <= j < n ==> tv[j] == crate::types::type_view(ts@[j]),
            out@ + canon_type_rest(tv, i as int) =~= old(out)@ + canon_type_list(tv),
        decreases n - i,
    {
        let ghost before = out@;
        out.append(", ");
        print_type_onto(&ts[i], out);
        proof {
            assert(out@ =~= before + (", "@ + canon_type(tv[i as int])));
        }
        i += 1;
    }
}

/// Writes a function-type parameter list onto `out`.
fn print_fn_params(ts: &Vec<Type>, has_varargs: bool, out: &mut String)
    ensures
        final(out)@ == old(out)@ + canon_fn_params(crate::types::types_view(ts@), has_varargs),
    decreases *ts, 2int, 0int,
{
    proof {
        crate::types::lemma_types_view(ts@);
    }
    if ts.len() == 0 {
        if has_varargs {
            out.append("...");
        }
        proof {
            assert(final(out)@ =~= old(out)@ + canon_fn_params(
                crate::types::types_view(ts@),
                has_varargs,
            ));
        }
    } else {
        print_type_list(ts, out);
        if has_varargs {
            out.append(", ...");
        }
        proof {
            assert(final(out)@ =~= old(out)@ + canon_fn_params(
                crate::types::types_view(ts@),
                has_varargs,
            ));
        }
    }
}

/// Writes the parameter list of a target extension type onto `out`.
fn print_target_params(ps: &Vec<crate::types::TargetExtensionParameter>, out: &mut String)
    ensures
        final(out)@ == old(out)@ + canon_target_params(
            crate::types::target_extension_parameters_view(ps@),
            0,
        ),
    decreases *ps, 1int, 0int,
{
    let ghost pv = crate::types::target_extension_parameters_view(ps@);
    proof {
        crate::types::lemma_target_extension_parameters_view(ps@);
    }
    let n = ps.len();
    let mut i: usize = 0;
    while i < n
        invariant
            i <= n,
            n == ps@.len(),
            pv == crate::types::target_extension_parameters_view(ps@),
            pv.len() == n,
            forall|j: int| 0 <= j < n ==> pv[j] == crate::types::target_extension_parameter_view(
                ps@[j],
            ),
            out@ + canon_target_params(pv, i as int) =~= old(out)@ + canon_target_params(pv, 0),
        decreases n - i,
    {
        let ghost before = out@;
        out.append(", ");
        match &ps[i] {
            crate::types::TargetExtensionParameter::Type(t) => print_type_onto(t, out),
            crate::types::TargetExtensionParameter::Integer(v) => print_number(*v, out),
        }
        proof {
            assert(out@ =~= before + (", "@ + canon_target_param(pv[i as int])));
        }
        i += 1;
    }
}

/// The canonical text of a type: parsing it yields the type back.
pub fn print_type(t: &Type) -> (r: String)
    ensures
        r@ == canon_type(t@),
{
    let mut out = String::new();
    print_type_onto(t, &mut out);
    proof {
        assert(out@ =~= canon_type(t@));
    }
    out
}

} // verus!
