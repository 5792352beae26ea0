use llvm_ir::parser::parse_type;
use llvm_ir::types::{AddressSpace, FloatingPointKind, TargetExtensionParameter, Type};

/// simple test to ensure the examples given in the LLVM documentation are parsed correctly
#[test]
fn type_parsing() {
    assert!(parse_type("i1") == Ok(Type::Integer { bit_width: 1 }));
    assert!(parse_type("i32") == Ok(Type::Integer { bit_width: 32 }));
    assert!(parse_type("i1942652") == Ok(Type::Integer { bit_width: 1942652 }));

    assert!(parse_type("half") == Ok(Type::FloatingPoint { kind: FloatingPointKind::Binary16 }));
    assert!(parse_type("bfloat") == Ok(Type::FloatingPoint { kind: FloatingPointKind::Brain }));
    assert!(parse_type("float") == Ok(Type::FloatingPoint { kind: FloatingPointKind::Binary32 }));
    assert!(parse_type("double") == Ok(Type::FloatingPoint { kind: FloatingPointKind::Binary64 }));
    assert!(parse_type("fp128") == Ok(Type::FloatingPoint { kind: FloatingPointKind::Binary128 }));
    assert!(parse_type("x86_fp80") == Ok(Type::FloatingPoint { kind: FloatingPointKind::X86Fp80 }));
    assert!(parse_type("ppc_fp128") == Ok(Type::FloatingPoint { kind: FloatingPointKind::PpcFp128 }));

    assert!(parse_type("x86_amx") == Ok(Type::AMX));
    assert!(parse_type("x86_mmx") == Ok(Type::MMX));

    assert!(
        parse_type("ptr")
            == Ok(Type::Pointer {
                address_space: AddressSpace::Numbered(0),
            })
    );
    assert!(
        parse_type("ptr addrspace(621)")
            == Ok(Type::Pointer {
                address_space: AddressSpace::Numbered(621),
            })
    );
    assert!(
        parse_type(r#"ptr addrspace("UwU")"#)
            == Ok(Type::Pointer {
                address_space: AddressSpace::Named("UwU".to_string()),
            })
    );

    assert!(
        parse_type(r#"target("label")"#)
            == Ok(Type::TargetExtension {
                name: "label".to_string(),
                parameters: vec![],
            })
    );
    assert!(
        parse_type(r#"target("label", void)"#)
            == Ok(Type::TargetExtension {
                name: "label".to_string(),
                parameters: vec![TargetExtensionParameter::Type(Type::Void)],
            })
    );
    assert!(
        parse_type(r#"target("label", void, i32)"#)
            == Ok(Type::TargetExtension {
                name: "label".to_string(),
                parameters: vec![TargetExtensionParameter::Type(Type::Void), TargetExtensionParameter::Type(Type::Integer { bit_width: 32 })],
            })
    );
    assert!(
        parse_type(r#"target("label", 0, 1, 2)"#)
            == Ok(Type::TargetExtension {
                name: "label".to_string(),
                parameters: vec![TargetExtensionParameter::Integer(0), TargetExtensionParameter::Integer(1), TargetExtensionParameter::Integer(2)],
            })
    );
    assert!(
        parse_type(r#"target("label", void, i32, 0, 1, 2)"#)
            == Ok(Type::TargetExtension {
                name: "label".to_string(),
                parameters: vec![
                    TargetExtensionParameter::Type(Type::Void),
                    TargetExtensionParameter::Type(Type::Integer { bit_width: 32 }),
                    TargetExtensionParameter::Integer(0),
                    TargetExtensionParameter::Integer(1),
                    TargetExtensionParameter::Integer(2),
                ],
            })
    );

    assert!(
        parse_type("<4 x i32>")
            == Ok(Type::Vector {
                length: 4,
                element_type: Box::new(Type::Integer { bit_width: 32 }),
                is_scalable: false,
            })
    );
    assert!(
        parse_type("<8 x float>")
            == Ok(Type::Vector {
                length: 8,
                element_type: Box::new(Type::FloatingPoint { kind: FloatingPointKind::Binary32 }),
                is_scalable: false,
            })
    );
    assert!(
        parse_type("<2 x i64>")
            == Ok(Type::Vector {
                length: 2,
                element_type: Box::new(Type::Integer { bit_width: 64 }),
                is_scalable: false,
            })
    );
    assert!(
        parse_type("<4 x ptr>")
            == Ok(Type::Vector {
                length: 4,
                element_type: Box::new(Type::Pointer {
                    address_space: AddressSpace::Numbered(0),
                }),
                is_scalable: false,
            })
    );
    assert!(
        parse_type("<vscale x 4 x i32>")
            == Ok(Type::Vector {
                length: 4,
                element_type: Box::new(Type::Integer { bit_width: 32 }),
                is_scalable: true,
            })
    );

    assert!(parse_type("token") == Ok(Type::Token));
    assert!(parse_type("metadata") == Ok(Type::Metadata));

    assert!(
        parse_type("[40 x i32]")
            == Ok(Type::Array {
                length: 40,
                element_type: Box::new(Type::Integer { bit_width: 32 }),
            })
    );
    assert!(
        parse_type("[41 x i32]")
            == Ok(Type::Array {
                length: 41,
                element_type: Box::new(Type::Integer { bit_width: 32 }),
            })
    );
    assert!(
        parse_type("[4 x i8]")
            == Ok(Type::Array {
                length: 4,
                element_type: Box::new(Type::Integer { bit_width: 8 }),
            })
    );
    assert!(
        parse_type("[3 x [4 x i32]]")
            == Ok(Type::Array {
                length: 3,
                element_type: Box::new(Type::Array {
                    length: 4,
                    element_type: Box::new(Type::Integer { bit_width: 32 }),
                }),
            })
    );
    assert!(
        parse_type("[12 x [10 x float]]")
            == Ok(Type::Array {
                length: 12,
                element_type: Box::new(Type::Array {
                    length: 10,
                    element_type: Box::new(Type::FloatingPoint { kind: FloatingPointKind::Binary32 }),
                }),
            })
    );
    assert!(
        parse_type("[2 x [3 x [4 x i16]]]")
            == Ok(Type::Array {
                length: 2,
                element_type: Box::new(Type::Array {
                    length: 3,
                    element_type: Box::new(Type::Array {
                        length: 4,
                        element_type: Box::new(Type::Integer { bit_width: 16 }),
                    }),
                }),
            })
    );

    assert!(
        parse_type("{ i32, i32, i32 }")
            == Ok(Type::Structure {
                types: vec![Type::Integer { bit_width: 32 }, Type::Integer { bit_width: 32 }, Type::Integer { bit_width: 32 }],
                is_packed: false,
            })
    );
    assert!(
        parse_type("{ float, ptr }")
            == Ok(Type::Structure {
                types: vec![Type::FloatingPoint { kind: FloatingPointKind::Binary32 }, Type::Pointer {
                    address_space: AddressSpace::Numbered(0),
                }],
                is_packed: false,
            })
    );
    assert!(
        parse_type("<{ i8, i32 }>")
            == Ok(Type::Structure {
                types: vec![Type::Integer { bit_width: 8 }, Type::Integer { bit_width: 32 }],
                is_packed: true,
            })
    );

    assert!(
        parse_type("i32 (i32)")
            == Ok(Type::Function {
                return_type: Box::new(Type::Integer { bit_width: 32 }),
                parameters: vec![Type::Integer { bit_width: 32 }],
                has_varargs: false,
            })
    );
    assert!(
        parse_type("i32 (ptr, ...)")
            == Ok(Type::Function {
                return_type: Box::new(Type::Integer { bit_width: 32 }),
                parameters: vec![Type::Pointer {
                    address_space: AddressSpace::Numbered(0),
                }],
                has_varargs: true,
            })
    );
    assert!(
        parse_type("{i32, i32} (i32)")
            == Ok(Type::Function {
                return_type: Box::new(Type::Structure {
                    types: vec![Type::Integer { bit_width: 32 }, Type::Integer { bit_width: 32 }],
                    is_packed: false,
                }),
                parameters: vec![Type::Integer { bit_width: 32 }],
                has_varargs: false,
            })
    );
}

#[test]
fn vector_scenarios() {
    assert!(parse_type("i32") == Ok(Type::Integer { bit_width: 32 }));
    assert!(
        parse_type("<4 x i32>")
            == Ok(Type::Vector {
                length: 4,
                element_type: Box::new(Type::Integer { bit_width: 32 }),
                is_scalable: false,
            })
    );
    assert!(
        parse_type("<vscale x 4 x i32>")
            == Ok(Type::Vector {
                length: 4,
                element_type: Box::new(Type::Integer { bit_width: 32 }),
                is_scalable: true,
            })
    );
}

#[test]
fn pointer_address_space_scenarios() {
    assert!(
        parse_type("ptr addrspace(621)")
            == Ok(Type::Pointer {
                address_space: AddressSpace::Numbered(621),
            })
    );
    assert!(
        parse_type(r#"ptr addrspace("UwU")"#)
            == Ok(Type::Pointer {
                address_space: AddressSpace::Named("UwU".to_string()),
            })
    );
}

#[test]
fn label_and_opaque_types() {
    assert!(parse_type("label") == Ok(Type::Label));
    assert!(parse_type("opaque") == Ok(Type::OpaqueStructure));
    assert!(parse_type("void") == Ok(Type::Void));
    assert!(parse_type("{}") == Ok(Type::Structure { types: vec![], is_packed: false }));
}

#[test]
fn rejected_types() {
    assert!(parse_type("i0").is_err());
    assert!(parse_type("<0 x i32>").is_err());
    assert!(parse_type("[0 x i32]").is_err());
    assert!(parse_type("i32x").is_err());
    assert!(parse_type("").is_err());
    assert!(parse_type("<4 x >").is_err());
    assert!(parse_type("i32 (").is_err());
    assert!(parse_type("i99999999999999999999999999").is_err());
    assert!(parse_type("i32 extra").is_err());
}

#[test]
fn type_classification() {
    assert!(Type::Integer { bit_width: 1 }.is_first_class());
    assert!(Type::Integer { bit_width: 1 }.is_sized());
    assert!(Type::AMX.is_first_class());
    assert!(!Type::AMX.is_sized());
    let array = Type::Array { length: 2, element_type: Box::new(Type::Integer { bit_width: 8 }) };
    assert!(!array.is_first_class());
    assert!(array.is_sized());
    assert!(!Type::Void.is_first_class());
    assert!(!Type::Void.is_sized());
    assert!(!Type::Label.is_first_class());
    assert!(!Type::Label.is_sized());
    let f = Type::Function {
        return_type: Box::new(Type::Void),
        parameters: vec![],
        has_varargs: false,
    };
    assert!(!f.is_first_class());
    assert!(!f.is_sized());
}
