use llvm_ir::ir::{Constant, Instruction, TailCallHint, Terminator, Value};
use llvm_ir::ir_parser::{parse_basic_block, ParseError};
use llvm_ir::llvm::Operation;
use llvm_ir::types::{AddressSpace, Type};

#[test]
fn call_then_return() {
    let block = parse_basic_block("call i32 @puts(ptr @.str)\nret i32 0").unwrap();
    assert!(block.name.is_none());
    assert_eq!(block.operations.len(), 1);
    match &block.operations[0] {
        Operation::NoAssignment { instruction } => match instruction {
            Instruction::Call {
                tail_call_hint,
                calling_convention,
                return_value_attributes,
                address_space,
                function_type,
                function_name,
                function_arguments,
            } => {
                assert!(*tail_call_hint == TailCallHint::Indifferent);
                assert!(calling_convention.is_none());
                assert!(return_value_attributes.is_empty());
                assert!(address_space.is_none());
                assert!(*function_type == Type::Integer { bit_width: 32 });
                assert_eq!(function_name.as_str(), "@puts");
                assert_eq!(function_arguments.len(), 1);
                assert!(
                    *function_arguments[0] == Value::FromIdentifier {
                        value_type: Type::Pointer {
                            address_space: AddressSpace::Numbered(0),
                        },
                        identifier: "@.str".to_string(),
                    }
                );
            },
            other => panic!("expected a call, found {:?}", other),
        },
        other => panic!("expected a bare instruction, found {:?}", other),
    }
    match &block.terminator {
        Terminator::Return { value } => {
            assert!(
                **value == Value::FromConstant {
                    constant_type: Type::Integer { bit_width: 32 },
                    constant: Constant::Integer(0),
                }
            );
        },
        other => panic!("expected a return, found {:?}", other),
    }
}

#[test]
fn labeled_block_with_arithmetic() {
    let block = parse_basic_block("entry:\n%x = add nuw i32 %a, %b\nret i32 %x").unwrap();
    assert_eq!(block.name.as_deref(), Some("entry"));
    assert_eq!(block.operations.len(), 1);
    match &block.operations[0] {
        Operation::Assignment { identifier, value } => {
            assert_eq!(identifier.as_str(), "%x");
            match value {
                Instruction::Add { allowed_wrapping, .. } => {
                    assert!(!allowed_wrapping.can_wrap_unsigned);
                    assert!(allowed_wrapping.can_wrap_signed);
                },
                other => panic!("expected an add, found {:?}", other),
            }
        },
        other => panic!("expected an assignment, found {:?}", other),
    }
}

#[test]
fn memory_instructions() {
    let text = "%p = alloca i32, align 4\n\
                %v = load i32, ptr %p\n\
                store i32 %v, ptr %p, align 4\n\
                %q = getelementptr i8, ptr %p, i32 4\n\
                fence acquire\n\
                ret void";
    let block = parse_basic_block(text).unwrap();
    assert_eq!(block.operations.len(), 5);
    match &block.operations[0] {
        Operation::Assignment { value: Instruction::StackAllocate { alignment, .. }, .. } => {
            assert_eq!(*alignment, Some(4));
        },
        other => panic!("expected an alloca, found {:?}", other),
    }
    match &block.operations[4] {
        Operation::NoAssignment {
            instruction: Instruction::Fence { ordering, sync_scope },
        } => {
            assert!(*ordering == llvm_ir::ir::Ordering::Acquire);
            assert!(sync_scope.is_none());
        },
        other => panic!("expected a fence, found {:?}", other),
    }
    match &block.terminator {
        Terminator::Return { value } => {
            assert!(
                **value == Value::FromConstant {
                    constant_type: Type::Void,
                    constant: Constant::Void,
                }
            );
        },
        other => panic!("expected a return, found {:?}", other),
    }
}

#[test]
fn atomic_memory_instructions() {
    let text = "%v = load atomic volatile i32, ptr %p seq_cst, align 4\n\
                store atomic i32 %v, ptr %p syncscope(\"agent\") release, align 4\n\
                unreachable";
    let block = parse_basic_block(text).unwrap();
    match &block.operations[0] {
        Operation::Assignment {
            value: Instruction::AtomicLoad { is_volatile, ordering, sync_scope, alignment, .. },
            ..
        } => {
            assert!(*is_volatile);
            assert!(*ordering == llvm_ir::ir::Ordering::SequentiallyConsistent);
            assert!(sync_scope.is_none());
            assert_eq!(*alignment, 4);
        },
        other => panic!("expected an atomic load, found {:?}", other),
    }
    match &block.operations[1] {
        Operation::NoAssignment {
            instruction: Instruction::AtomicStore { ordering, sync_scope, .. },
        } => {
            assert!(*ordering == llvm_ir::ir::Ordering::Release);
            assert_eq!(sync_scope.as_deref(), Some("agent"));
        },
        other => panic!("expected an atomic store, found {:?}", other),
    }
    assert!(block.terminator == Terminator::Unreachable);
}

#[test]
fn conversion_and_comparison_instructions() {
    let text = "%a = trunc nuw i64 %x to i32\n\
                %b = zext i32 %a to i64\n\
                %c = icmp slt i32 %a, 7\n\
                %d = select i1 %c, i32 1, i32 2\n\
                %e = freeze i32 %d\n\
                %f = xor i32 %e, 1\n\
                ret i32 %f";
    let block = parse_basic_block(text).unwrap();
    assert_eq!(block.operations.len(), 6);
    match &block.operations[2] {
        Operation::Assignment { value: Instruction::CompareIntegers { comparison, .. }, .. } => {
            assert!(*comparison == llvm_ir::ir::IntegerComparison::SignedLessThan);
        },
        other => panic!("expected a comparison, found {:?}", other),
    }
}

#[test]
fn aggregate_instructions() {
    let text = "%a = extractvalue {i32, i8} %agg, 0\n\
                %b = insertvalue {i32, i8} %agg, i32 %a, 0, 1\n\
                ret void";
    let block = parse_basic_block(text).unwrap();
    match &block.operations[0] {
        Operation::Assignment { value: Instruction::ExtractValue { indices, .. }, .. } => {
            assert_eq!(indices.as_slice(), &[0]);
        },
        other => panic!("expected an extractvalue, found {:?}", other),
    }
    match &block.operations[1] {
        Operation::Assignment { value: Instruction::InsertValue { indices, .. }, .. } => {
            assert_eq!(indices.as_slice(), &[0, 1]);
        },
        other => panic!("expected an insertvalue, found {:?}", other),
    }
}

#[test]
fn tail_call_hints() {
    let block = parse_basic_block("tail call void @f()\nret void").unwrap();
    match &block.operations[0] {
        Operation::NoAssignment { instruction: Instruction::Call { tail_call_hint, .. } } => {
            assert!(*tail_call_hint == TailCallHint::ShouldTail);
        },
        other => panic!("expected a call, found {:?}", other),
    }
    let block = parse_basic_block("musttail call fastcc zeroext i1 @g(i1 true)\nret void").unwrap();
    match &block.operations[0] {
        Operation::NoAssignment {
            instruction: Instruction::Call { tail_call_hint, calling_convention, .. },
        } => {
            assert!(*tail_call_hint == TailCallHint::MustTail);
            assert_eq!(calling_convention.as_deref(), Some("fastcc"));
        },
        other => panic!("expected a call, found {:?}", other),
    }
}

#[test]
fn unsupported_constructs_are_reported_distinctly() {
    match parse_basic_block("%v = phi i32 %a, %b\nret void") {
        Err(ParseError::Unsupported { construct, .. }) => {
            assert_eq!(construct.as_str(), "phi");
        },
        other => panic!("expected an unsupported construct, found {:?}", other),
    }
    match parse_basic_block("resume i32 %v") {
        Err(ParseError::Unsupported { construct, .. }) => {
            assert_eq!(construct.as_str(), "resume");
        },
        other => panic!("expected an unsupported construct, found {:?}", other),
    }
}

#[test]
fn type_mismatch_inside_a_block() {
    match parse_basic_block("ret i32 true") {
        Err(ParseError::Mismatch(m)) => {
            assert!(m.constant == Constant::Boolean(true));
            assert!(m.constant_type == Type::Integer { bit_width: 32 });
        },
        other => panic!("expected a type mismatch, found {:?}", other),
    }
}

#[test]
fn block_syntax_errors_carry_a_position() {
    match parse_basic_block("ret i32") {
        Err(ParseError::Syntax(e)) => {
            assert!(e.position <= "ret i32".len());
        },
        other => panic!("expected a syntax error, found {:?}", other),
    }
    assert!(parse_basic_block("").is_err());
    assert!(parse_basic_block("%x = ").is_err());
}
