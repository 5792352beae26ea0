use llvm_ir::ir::{Constant, GetPointerKind, Instruction, Ordering, Value};
use llvm_ir::types::Type;
use llvm_ir::ir_parser::parse_basic_block;
use llvm_ir::llvm::Operation;

fn first_instruction(text: &str) -> Instruction {
    let block = parse_basic_block(text).unwrap();
    match block.operations.into_iter().next().unwrap() {
        Operation::Assignment { value, .. } => value,
        Operation::NoAssignment { instruction } => instruction,
    }
}

#[test]
fn gep_flags() {
    let plain = first_instruction("%p = getelementptr i8, ptr %a, i32 4\nret void");
    match plain {
        Instruction::GetElementPointer { kind, indices, .. } => {
            assert!(kind == GetPointerKind::Regular);
            assert_eq!(indices.len(), 1);
        },
        other => panic!("expected a getelementptr, found {:?}", other),
    }
    let inbounds = first_instruction("%p = getelementptr inbounds i8, ptr %a, i32 4\nret void");
    assert!(matches!(
        inbounds,
        Instruction::GetElementPointer { kind: GetPointerKind::InBounds, .. }
    ));
    let ranged = first_instruction("%p = getelementptr inrange(0, 8) i8, ptr %a, i32 4\nret void");
    assert!(matches!(
        ranged,
        Instruction::GetElementPointer { kind: GetPointerKind::InRange(0, 8), .. }
    ));
}

#[test]
fn alloca_clauses() {
    let full = first_instruction("%p = alloca inalloca i32, i32 %n, align 8, addrspace(5)\nret void");
    match full {
        Instruction::StackAllocate { can_reuse, num_elements, alignment, address_space, .. } => {
            assert!(can_reuse);
            assert!(num_elements.is_some());
            assert_eq!(alignment, Some(8));
            assert!(
                address_space == Some(llvm_ir::types::AddressSpace::Numbered(5))
            );
        },
        other => panic!("expected an alloca, found {:?}", other),
    }
    let bare = first_instruction("%p = alloca i32\nret void");
    match bare {
        Instruction::StackAllocate { can_reuse, num_elements, alignment, address_space, .. } => {
            assert!(!can_reuse);
            assert!(num_elements.is_none());
            assert!(alignment.is_none());
            assert!(address_space.is_none());
        },
        other => panic!("expected an alloca, found {:?}", other),
    }
}

#[test]
fn division_and_shift_flags() {
    assert!(matches!(
        first_instruction("%x = udiv exact i32 %a, %b\nret void"),
        Instruction::UnsignedDivide { is_exact: true, .. }
    ));
    assert!(matches!(
        first_instruction("%x = sdiv i32 %a, %b\nret void"),
        Instruction::SignedDivide { is_exact: false, .. }
    ));
    assert!(matches!(
        first_instruction("%x = lshr exact i32 %a, %b\nret void"),
        Instruction::LogicalShiftRight { is_exact: true, .. }
    ));
    assert!(matches!(
        first_instruction("%x = or disjoint i32 %a, %b\nret void"),
        Instruction::Or { disjoint: true, .. }
    ));
    match first_instruction("%x = shl nuw nsw i32 %a, %b\nret void") {
        Instruction::ShiftLeft { allowed_wrapping, .. } => {
            assert!(!allowed_wrapping.can_wrap_unsigned);
            assert!(!allowed_wrapping.can_wrap_signed);
        },
        other => panic!("expected a shift, found {:?}", other),
    }
}

#[test]
fn fence_with_scope() {
    match first_instruction("fence syncscope(\"agent\") seq_cst\nret void") {
        Instruction::Fence { ordering, sync_scope } => {
            assert!(ordering == Ordering::SequentiallyConsistent);
            assert_eq!(sync_scope.as_deref(), Some("agent"));
        },
        other => panic!("expected a fence, found {:?}", other),
    }
}

#[test]
fn constants_in_operand_position() {
    let block = parse_basic_block("ret i1 true").unwrap();
    match &block.terminator {
        llvm_ir::ir::Terminator::Return { value } => {
            assert!(
                **value == Value::FromConstant {
                    constant_type: Type::Integer { bit_width: 1 },
                    constant: Constant::Boolean(true),
                }
            );
        },
        other => panic!("expected a return, found {:?}", other),
    }
    assert!(parse_basic_block("ret ptr null").is_ok());
    assert!(parse_basic_block("ret token none").is_ok());
    assert!(parse_basic_block("ret i32 undef").is_ok());
    assert!(parse_basic_block("ret i32 poison").is_ok());
    assert!(parse_basic_block("ret {i32, i32} zeroinitializer").is_ok());
    // undef cannot stand against void
    assert!(parse_basic_block("ret void").is_ok());
}
