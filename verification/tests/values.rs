use llvm_ir::ir::{
    AllowedWrapping, Constant, GetPointerKind, Instruction, Ordering, TailCallHint, Value,
};
use llvm_ir::llvm::parse_escape_sequences;
use llvm_ir::types::{AddressSpace, Type};
use std::sync::Arc;

fn ident(t: Type, name: &str) -> Arc<Value> {
    Arc::new(Value::FromIdentifier { value_type: t, identifier: name.to_string() })
}

#[test]
fn get_type_of_constants_and_identifiers() {
    let v = Value::from_type_constant(Type::Integer { bit_width: 32 }, Constant::Integer(7))
        .unwrap();
    assert!(v.get_type() == Some(Type::Integer { bit_width: 32 }));
    let id = Value::FromIdentifier {
        value_type: Type::Token,
        identifier: "%t".to_string(),
    };
    assert!(id.get_type() == Some(Type::Token));
    assert!(Value::FromLabel.get_type() == Some(Type::Label));
    assert!(Value::FromGlobal.get_type().is_none());
    assert!(Value::FromFunction.get_type().is_none());
}

#[test]
fn get_type_of_arithmetic_follows_left_operand() {
    let add = Instruction::Add {
        left_hand_side: ident(Type::Integer { bit_width: 64 }, "%a"),
        right_hand_side: ident(Type::Integer { bit_width: 64 }, "%b"),
        allowed_wrapping: AllowedWrapping::default(),
    };
    let v = Value::FromInstruction { instruction: add };
    assert!(v.get_type() == Some(Type::Integer { bit_width: 64 }));
}

#[test]
fn get_type_of_comparisons_is_a_one_bit_integer() {
    let cmp = Instruction::CompareIntegers {
        comparison: llvm_ir::ir::IntegerComparison::Equal,
        left_hand_side: ident(Type::Integer { bit_width: 32 }, "%a"),
        right_hand_side: ident(Type::Integer { bit_width: 32 }, "%b"),
    };
    assert!(cmp.result_type() == Some(Type::Integer { bit_width: 1 }));

    let vec32 = Type::Vector {
        length: 4,
        element_type: Box::new(Type::Integer { bit_width: 32 }),
        is_scalable: false,
    };
    let vcmp = Instruction::CompareIntegers {
        comparison: llvm_ir::ir::IntegerComparison::UnsignedLessThan,
        left_hand_side: ident(vec32.deep_clone(), "%v"),
        right_hand_side: ident(vec32, "%w"),
    };
    assert!(
        vcmp.result_type() == Some(Type::Vector {
            length: 4,
            element_type: Box::new(Type::Integer { bit_width: 1 }),
            is_scalable: false,
        })
    );
}

#[test]
fn get_type_of_memory_and_pointer_instructions() {
    let ptr0 = Type::Pointer { address_space: AddressSpace::Numbered(0) };
    let load = Instruction::Load {
        is_volatile: false,
        result_type: Type::Integer { bit_width: 16 },
        pointer: ident(ptr0.deep_clone(), "%p"),
        alignment: None,
    };
    assert!(load.result_type() == Some(Type::Integer { bit_width: 16 }));

    let store = Instruction::Store {
        is_volatile: false,
        value: ident(Type::Integer { bit_width: 16 }, "%v"),
        pointer: ident(ptr0.deep_clone(), "%p"),
        alignment: None,
    };
    assert!(store.result_type() == Some(Type::Void));

    let alloca = Instruction::StackAllocate {
        can_reuse: false,
        value_type: Type::Integer { bit_width: 8 },
        num_elements: None,
        alignment: None,
        address_space: Some(AddressSpace::Numbered(5)),
    };
    assert!(
        alloca.result_type() == Some(Type::Pointer {
            address_space: AddressSpace::Numbered(5),
        })
    );

    let ptr9 = Type::Pointer { address_space: AddressSpace::Numbered(9) };
    let gep = Instruction::GetElementPointer {
        kind: GetPointerKind::default(),
        pointer_type: Type::Integer { bit_width: 8 },
        pointer: ident(ptr9.deep_clone(), "%p"),
        indices: vec![],
    };
    assert!(gep.result_type() == Some(ptr9));
}

#[test]
fn get_type_navigates_aggregates() {
    let agg_type = Type::Structure {
        types: vec![
            Type::Integer { bit_width: 32 },
            Type::Array {
                length: 3,
                element_type: Box::new(Type::Integer { bit_width: 8 }),
            },
        ],
        is_packed: false,
    };
    let extract = Instruction::ExtractValue {
        aggregate: ident(agg_type.deep_clone(), "%agg"),
        indices: vec![1, 2],
    };
    assert!(extract.result_type() == Some(Type::Integer { bit_width: 8 }));

    let out_of_range = Instruction::ExtractValue {
        aggregate: ident(agg_type.deep_clone(), "%agg"),
        indices: vec![2],
    };
    assert!(out_of_range.result_type().is_none());

    let insert = Instruction::InsertValue {
        aggregate: ident(agg_type.deep_clone(), "%agg"),
        value: ident(Type::Integer { bit_width: 8 }, "%v"),
        indices: vec![1, 0],
    };
    assert!(insert.result_type() == Some(agg_type));
}

#[test]
fn get_type_of_calls_uses_the_return_type() {
    let call = Instruction::Call {
        tail_call_hint: TailCallHint::default(),
        calling_convention: None,
        return_value_attributes: vec![],
        address_space: None,
        function_type: Type::Function {
            return_type: Box::new(Type::Integer { bit_width: 32 }),
            parameters: vec![Type::Integer { bit_width: 32 }],
            has_varargs: false,
        },
        function_name: "@f".to_string(),
        function_arguments: vec![],
    };
    assert!(call.result_type() == Some(Type::Integer { bit_width: 32 }));

    let bare = Instruction::Call {
        tail_call_hint: TailCallHint::default(),
        calling_convention: None,
        return_value_attributes: vec![],
        address_space: None,
        function_type: Type::Integer { bit_width: 32 },
        function_name: "@g".to_string(),
        function_arguments: vec![],
    };
    assert!(bare.result_type() == Some(Type::Integer { bit_width: 32 }));
}

#[test]
fn ordering_strength_hierarchy() {
    assert!(Ordering::Unordered.is_weaker_than(Ordering::Monotonic));
    assert!(Ordering::Monotonic.is_weaker_than(Ordering::Acquire));
    assert!(Ordering::Monotonic.is_weaker_than(Ordering::Release));
    assert!(Ordering::Acquire.is_weaker_than(Ordering::AcquireRelease));
    assert!(Ordering::Release.is_weaker_than(Ordering::AcquireRelease));
    assert!(Ordering::AcquireRelease.is_weaker_than(Ordering::SequentiallyConsistent));
    // Acquire and Release are distinct but neither is weaker.
    assert!(!Ordering::Acquire.is_weaker_than(Ordering::Release));
    assert!(!Ordering::Release.is_weaker_than(Ordering::Acquire));
    assert!(Ordering::Acquire != Ordering::Release);
    assert!(!Ordering::SequentiallyConsistent.is_weaker_than(Ordering::Unordered));
}

#[test]
fn defaults() {
    let w = AllowedWrapping::default();
    assert!(w.can_wrap_unsigned && w.can_wrap_signed);
    assert!(GetPointerKind::default() == GetPointerKind::Regular);
    assert!(TailCallHint::default() == TailCallHint::Indifferent);
    assert!(llvm_ir::llvm::LinkageType::default() == llvm_ir::llvm::LinkageType::External);
    assert!(
        llvm_ir::llvm::PreemptionSpecifier::default()
            == llvm_ir::llvm::PreemptionSpecifier::Preemptable
    );
    assert!(llvm_ir::llvm::Visibility::default() == llvm_ir::llvm::Visibility::Default);
}

#[test]
fn escape_decoding_passes_text_through() {
    assert_eq!(parse_escape_sequences("hello\\6E").as_str(), "hello\\6E");
    assert_eq!(parse_escape_sequences("").as_str(), "");
}
