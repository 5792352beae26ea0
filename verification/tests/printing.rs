use llvm_ir::parser::parse_type;
use llvm_ir::printer::print_type;
use llvm_ir::types::{AddressSpace, Type};

fn round_trips(text: &str) {
    let first = parse_type(text).unwrap();
    let printed = print_type(&first);
    let second = parse_type(printed.as_str()).unwrap();
    assert!(first == second);
}

#[test]
fn print_then_parse_is_stable() {
    round_trips("i32");
    round_trips("i1");
    round_trips("void");
    round_trips("half");
    round_trips("ppc_fp128");
    round_trips("x86_amx");
    round_trips("ptr");
    round_trips("ptr addrspace(621)");
    round_trips(r#"ptr addrspace("UwU")"#);
    round_trips(r#"target("label", void, i32, 0, 1, 2)"#);
    round_trips("<4 x i32>");
    round_trips("<vscale x 4 x i32>");
    round_trips("[2 x [3 x [4 x i16]]]");
    round_trips("{ i32, float, ptr }");
    round_trips("<{ i8, i32 }>");
    round_trips("{}");
    round_trips("i32 (ptr, ...)");
    round_trips("{i32, i32} (i32)");
    round_trips("void (...)");
    round_trips("token");
    round_trips("metadata");
    round_trips("label");
    round_trips("opaque");
}

#[test]
fn canonical_text() {
    let t = parse_type("  { i32 ,i32 }  ").unwrap();
    assert_eq!(print_type(&t).as_str(), "{i32, i32}");
    let v = parse_type("< vscale x 4 x i32 >").unwrap();
    assert_eq!(print_type(&v).as_str(), "<vscale x 4 x i32>");
    let p = parse_type("ptr addrspace( 0 )").unwrap();
    assert_eq!(print_type(&p).as_str(), "ptr");
    let f = parse_type("i32(i8,...)").unwrap();
    assert_eq!(print_type(&f).as_str(), "i32 (i8, ...)");
    let n = Type::Pointer { address_space: AddressSpace::Numbered(17) };
    assert_eq!(print_type(&n).as_str(), "ptr addrspace(17)");
    let w = Type::Integer { bit_width: 1942652 };
    assert_eq!(print_type(&w).as_str(), "i1942652");
}
