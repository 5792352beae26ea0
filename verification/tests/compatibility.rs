use llvm_ir::ir::{Constant, TypeMismatch, Value};
use llvm_ir::types::{AddressSpace, FloatingPointKind, Type};
use std::sync::Arc;

fn typed(t: Type, c: Constant) -> Arc<Value> {
    Arc::new(Value::from_type_constant(t, c).unwrap())
}

#[test]
fn zero_and_poison_fit_every_type() {
    let types = [
        Type::Void,
        Type::Integer { bit_width: 32 },
        Type::FloatingPoint { kind: FloatingPointKind::Binary64 },
        Type::Pointer { address_space: AddressSpace::Numbered(0) },
        Type::Label,
        Type::Token,
        Type::Metadata,
        Type::OpaqueStructure,
        Type::Structure { types: vec![], is_packed: false },
    ];
    for t in types.iter() {
        assert!(Constant::Zero.is_compatible_with_type(t));
        assert!(Constant::Poison.is_compatible_with_type(t));
    }
}

#[test]
fn undefined_fits_everything_but_label_and_void() {
    assert!(Constant::Undefined.is_compatible_with_type(&Type::Integer { bit_width: 8 }));
    assert!(Constant::Undefined.is_compatible_with_type(&Type::Token));
    assert!(Constant::Undefined.is_compatible_with_type(&Type::Metadata));
    assert!(!Constant::Undefined.is_compatible_with_type(&Type::Label));
    assert!(!Constant::Undefined.is_compatible_with_type(&Type::Void));
}

#[test]
fn scalar_compatibility() {
    assert!(Constant::Void.is_compatible_with_type(&Type::Void));
    assert!(!Constant::Void.is_compatible_with_type(&Type::Token));
    assert!(Constant::Boolean(true).is_compatible_with_type(&Type::Integer { bit_width: 1 }));
    assert!(!Constant::Boolean(true).is_compatible_with_type(&Type::Integer { bit_width: 32 }));
    assert!(Constant::Integer(7).is_compatible_with_type(&Type::Integer { bit_width: 64 }));
    assert!(!Constant::Integer(7).is_compatible_with_type(&Type::Void));
    assert!(Constant::FloatingPoint(0).is_compatible_with_type(&Type::FloatingPoint {
        kind: FloatingPointKind::Binary32,
    }));
    assert!(Constant::NullPointer.is_compatible_with_type(&Type::Pointer {
        address_space: AddressSpace::Numbered(4),
    }));
    assert!(!Constant::NullPointer.is_compatible_with_type(&Type::Integer { bit_width: 64 }));
    assert!(Constant::NoneToken.is_compatible_with_type(&Type::Token));
    assert!(Constant::Metadata.is_compatible_with_type(&Type::Metadata));
}

#[test]
fn aggregate_compatibility_is_positional() {
    let i32t = Type::Integer { bit_width: 32 };
    let i8t = Type::Integer { bit_width: 8 };
    let one = typed(i32t.deep_clone(), Constant::Integer(1));
    let two = typed(i32t.deep_clone(), Constant::Integer(2));

    // counts must match
    let arr2 = Type::Array { length: 2, element_type: Box::new(i32t.deep_clone()) };
    let arr3 = Type::Array { length: 3, element_type: Box::new(i32t.deep_clone()) };
    let c = Constant::Array(vec![one.clone(), two.clone()]);
    assert!(c.is_compatible_with_type(&arr2));
    assert!(!c.is_compatible_with_type(&arr3));

    // element types must match positionally
    let arr2_bytes = Type::Array { length: 2, element_type: Box::new(i8t.deep_clone()) };
    assert!(!c.is_compatible_with_type(&arr2_bytes));

    let vec2 = Type::Vector {
        length: 2,
        element_type: Box::new(i32t.deep_clone()),
        is_scalable: false,
    };
    assert!(Constant::Vector(vec![one.clone(), two.clone()]).is_compatible_with_type(&vec2));
    assert!(!Constant::Vector(vec![one.clone()]).is_compatible_with_type(&vec2));

    let st = Type::Structure {
        types: vec![i32t.deep_clone(), i8t.deep_clone()],
        is_packed: false,
    };
    let byte = typed(i8t.deep_clone(), Constant::Integer(3));
    assert!(Constant::Structure(vec![one.clone(), byte.clone()]).is_compatible_with_type(&st));
    // swapped fields fail
    assert!(!Constant::Structure(vec![byte.clone(), one.clone()]).is_compatible_with_type(&st));
    // a missing field fails
    assert!(!Constant::Structure(vec![one.clone()]).is_compatible_with_type(&st));
    // an aggregate against a scalar type fails
    assert!(!Constant::Structure(vec![one.clone()]).is_compatible_with_type(&i32t));
}

#[test]
fn boolean_against_i32_is_a_type_mismatch() {
    let r = Value::from_type_constant(Type::Integer { bit_width: 32 }, Constant::Boolean(true));
    assert!(
        r == Err(TypeMismatch {
            constant: Constant::Boolean(true),
            constant_type: Type::Integer { bit_width: 32 },
        })
    );
}
