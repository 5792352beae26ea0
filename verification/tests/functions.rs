use llvm_ir::ir::{Instruction, Terminator, Value};
use llvm_ir::ir_parser::{parse_function, ParseError};
use llvm_ir::llvm::{LinkageType, Operation, PreemptionSpecifier, Visibility};
use llvm_ir::types::{AddressSpace, Type};

#[test]
fn demo_function_parses() {
    let f = parse_function(
        r#"define i32 @get_inode_block_size(ptr %address) {
    %i_size_ptr = getelementptr i8, ptr %address, i32 4
    %i_size_swapped = load i32, ptr %i_size_ptr
    %i_size = call i32 @reverse_word(i32 %i_size_swapped)

    %block_size = load i32, ptr @block_size

    %0 = add i32 %block_size, %i_size
    %1 = sub i32 1, %0

    %size = udiv i32 %1, %block_size
    ret i32 %size
}"#,
    )
    .unwrap();
    assert!(f.linkage == LinkageType::External);
    assert!(f.preemption_specifier == PreemptionSpecifier::Preemptable);
    assert!(f.visibility == Visibility::Default);
    assert!(f.return_type == Type::Integer { bit_width: 32 });
    assert_eq!(f.name.as_str(), "@get_inode_block_size");
    assert_eq!(f.arguments.len(), 1);
    assert_eq!(f.arguments[0].name.as_str(), "%address");
    assert!(
        f.arguments[0].parameter_type == Type::Pointer {
            address_space: AddressSpace::Numbered(0),
        }
    );
    assert!(!f.is_garbage_collected);
    assert_eq!(f.basic_blocks.len(), 1);
    let block = &f.basic_blocks[0];
    assert_eq!(block.operations.len(), 7);
    match &block.operations[0] {
        Operation::Assignment { identifier, value } => {
            assert_eq!(identifier.as_str(), "%i_size_ptr");
            assert!(matches!(value, Instruction::GetElementPointer { .. }));
        },
        other => panic!("expected an assignment, found {:?}", other),
    }
}

#[test]
fn forward_reference_resolves() {
    let f = parse_function(
        "define void @f(i1 %c) {\n\
         entry:\n\
         br i1 %c, label %later, label %exit\n\
         later:\n\
         br label %exit\n\
         exit:\n\
         ret void\n\
         }",
    )
    .unwrap();
    assert_eq!(f.basic_blocks.len(), 3);
    assert_eq!(f.basic_blocks[0].name.as_deref(), Some("entry"));
    assert_eq!(f.basic_blocks[1].name.as_deref(), Some("later"));
    assert_eq!(f.basic_blocks[2].name.as_deref(), Some("exit"));
    match &f.basic_blocks[0].terminator {
        Terminator::ConditionalBranch { if_true, .. } => {
            assert!(
                **if_true == Value::FromIdentifier {
                    value_type: Type::Label,
                    identifier: "%later".to_string(),
                }
            );
        },
        other => panic!("expected a conditional branch, found {:?}", other),
    }
}

#[test]
fn undefined_label_is_reported() {
    match parse_function(
        "define void @f() {\n\
         br label %nowhere\n\
         }",
    ) {
        Err(ParseError::UndefinedLabel { name }) => {
            assert_eq!(name.as_str(), "%nowhere");
        },
        other => panic!("expected an undefined label, found {:?}", other),
    }
}

#[test]
fn switch_terminator_and_attributes() {
    let f = parse_function(
        "define private dso_local hidden zeroext i32 @g(i32 %x) align 16 {\n\
         switch i32 %x, label %fallback [ i32 0, label %zero i32 1, label %fallback ]\n\
         zero:\n\
         ret i32 0\n\
         fallback:\n\
         ret i32 1\n\
         }",
    )
    .unwrap();
    assert!(f.linkage == LinkageType::Private);
    assert!(f.preemption_specifier == PreemptionSpecifier::Local);
    assert!(f.visibility == Visibility::Hidden);
    assert_eq!(f.alignment, Some(16));
    match &f.basic_blocks[0].terminator {
        Terminator::Switch { destinations, .. } => {
            assert_eq!(destinations.len(), 2);
        },
        other => panic!("expected a switch, found {:?}", other),
    }
}

#[test]
fn section_partition_and_gc() {
    let f = parse_function(
        "define void @h() section \"hot\" partition \"p\" gc \"statepoint\" {\n\
         ret void\n\
         }",
    )
    .unwrap();
    assert_eq!(f.section_name.as_deref(), Some("hot"));
    assert_eq!(f.partition_name.as_deref(), Some("p"));
    assert!(f.is_garbage_collected);
}

#[test]
fn indirect_branch_targets_must_resolve() {
    let good = parse_function(
        "define void @k(ptr %a) {\n\
         indirectbr ptr %a, [label %one, label %two]\n\
         one:\n\
         ret void\n\
         two:\n\
         ret void\n\
         }",
    );
    assert!(good.is_ok());
    let bad = parse_function(
        "define void @k(ptr %a) {\n\
         indirectbr ptr %a, [label %one, label %three]\n\
         one:\n\
         ret void\n\
         }",
    );
    assert!(matches!(bad, Err(ParseError::UndefinedLabel { .. })));
}

#[test]
fn unsupported_terminator_in_function() {
    match parse_function(
        "define void @f() {\n\
         invoke void @g() to label %a unwind label %b\n\
         }",
    ) {
        Err(ParseError::Unsupported { construct, .. }) => {
            assert_eq!(construct.as_str(), "invoke");
        },
        other => panic!("expected an unsupported construct, found {:?}", other),
    }
}

#[test]
fn function_syntax_errors() {
    assert!(parse_function("define").is_err());
    assert!(parse_function("define i32").is_err());
    assert!(parse_function("define i32 @f(").is_err());
    assert!(parse_function("define i32 @f() {").is_err());
    assert!(parse_function("declare i32 @f()").is_err());
}
