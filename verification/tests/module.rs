use arm_to_wasm::module::expression::{BinaryOp, UnaryOp};
use arm_to_wasm::module::memory::{LoadVariant, StoreVariant, ValueType};

#[test]
fn load_variants_describe_their_access() {
    assert_eq!(LoadVariant::I32.byte_count(), 4);
    assert_eq!(LoadVariant::I64L16 { signed: true }.byte_count(), 2);
    assert!(LoadVariant::I64L16 { signed: true }.signed());
    assert!(!LoadVariant::I32L8 { signed: false }.signed());
    assert!(LoadVariant::I32.signed());
    assert_eq!(LoadVariant::I32L16 { signed: false }.type_(), ValueType::I32);
    assert_eq!(LoadVariant::I64L8 { signed: false }.type_(), ValueType::I64);
}

#[test]
fn store_variants_describe_their_access() {
    assert_eq!(StoreVariant::I64.byte_count(), 8);
    assert_eq!(StoreVariant::I64.alignment(), 8);
    assert_eq!(StoreVariant::I32L8.byte_count(), 1);
    assert_eq!(StoreVariant::I64L32.alignment(), 4);
    assert_eq!(StoreVariant::I32L16.type_(), ValueType::I32);
    assert_eq!(StoreVariant::I64L32.type_(), ValueType::I64);
}

#[test]
fn operators_are_distinct() {
    assert_ne!(UnaryOp::WrapInt64, UnaryOp::ExtendSInt32);
    assert_ne!(BinaryOp::AddInt64, BinaryOp::AddInt32);
}
