use arrow_array::{ArrayRef, RecordBatch, UInt32Array, UInt64Array, UInt8Array};
use arrow_schema::{DataType, Field, Schema};
use soa_store::batch::{ColumnBatch, ColumnKind};
use soa_store::codes::{enum_to_u8, u8_to_enum, EnumName, InvalidEnumCode};
use soa_store::conversion::{ArrowSchemaGen, ToArrow};
use soa_store::errors::PersistenceError;
use soa_store::order::{F64Bits, Order, OrderStatus, PaymentMethod};
use soa_store::persistence::{appended_batch, decode_batches, merge_record_batches, ArrowPersistence};
use soa_store::persistent_store::PersistentOrderStore;
use soa_store::soa::OrderSoA;
use std::sync::Arc;

fn order(id: u64, status: OrderStatus, amount: f64) -> Order {
    Order {
        order_id: id,
        customer_id: 7,
        product_id: 8,
        quantity: 1,
        unit_price: F64Bits { bits: amount.to_bits() },
        total_amount: F64Bits { bits: amount.to_bits() },
        status,
        payment_method: PaymentMethod::PayPal,
        order_timestamp: 1234567890,
        shipping_address_hash: 0xdeadbeef,
    }
}

fn model(rows: &[Order]) -> OrderSoA {
    let mut soa = OrderSoA::new();
    for r in rows {
        soa.push(*r);
    }
    soa
}

fn ids(soa: &OrderSoA) -> Vec<u64> {
    soa.order_id_raw_array().to_vec()
}

#[test]
fn enum_codes_follow_declaration_order() {
    assert_eq!(u8::from(OrderStatus::Pending), 0);
    assert_eq!(u8::from(OrderStatus::Delivered), 3);
    assert_eq!(u8::from(PaymentMethod::BankTransfer), 2);
    assert_eq!(enum_to_u8(OrderStatus::Shipped), 2);
    assert_eq!(enum_to_u8(PaymentMethod::PayPal), 1);
    assert_eq!(OrderStatus::try_from(1u8), Ok(OrderStatus::Processing));
    assert_eq!(
        PaymentMethod::try_from(3u8),
        Err(InvalidEnumCode { enum_name: EnumName::PaymentMethod, value: 3 })
    );
    assert!(matches!(u8_to_enum::<OrderStatus>(3), Ok(OrderStatus::Delivered)));
}

#[test]
fn out_of_range_code_is_type_conversion() {
    match u8_to_enum::<OrderStatus>(7) {
        Err(PersistenceError::TypeConversion { message }) => {
            assert_eq!(message, "Failed to convert u8 to enum: Invalid OrderStatus value: 7")
        }
        other => panic!("expected TypeConversion, got {:?}", other),
    }
    match u8_to_enum::<PaymentMethod>(255) {
        Err(PersistenceError::TypeConversion { message }) => {
            assert_eq!(message, "Failed to convert u8 to enum: Invalid PaymentMethod value: 255")
        }
        other => panic!("expected TypeConversion, got {:?}", other),
    }
}

#[test]
fn schema_names_and_types() {
    let names = OrderSoA::arrow_field_names();
    assert_eq!(names.len(), 10);
    assert_eq!(names[0], "order_id");
    assert_eq!(names[9], "shipping_address_hash");
    let kinds = OrderSoA::arrow_field_types();
    assert_eq!(kinds[3], ColumnKind::UInt32);
    assert_eq!(kinds[4], ColumnKind::Float64);
    assert_eq!(kinds[6], ColumnKind::UInt8);
}

#[test]
fn record_batch_holds_the_columns() {
    let soa = model(&[order(1, OrderStatus::Delivered, 10.0), order(2, OrderStatus::Pending, 20.0)]);
    let b = soa.to_record_batch().unwrap();
    assert_eq!(b.batch.num_rows(), 2);
    assert_eq!(b.batch.num_columns(), 10);
    assert_eq!(b.batch.schema().field(6).name(), "status");
    assert_eq!(b.batch.schema().field(6).data_type(), &DataType::UInt8);
    assert_eq!(b.batch.schema().field(4).data_type(), &DataType::Float64);
    let back = OrderSoA::from_record_batch(&b).unwrap();
    assert_eq!(ids(&back), vec![1, 2]);
    let v = back.view(0).unwrap();
    assert_eq!(f64::from_bits(v.total_amount.bits), 10.0);
    assert_eq!(*v.status, OrderStatus::Delivered);
}

#[test]
fn save_then_load_round_trips() {
    let d = model(&[order(1, OrderStatus::Delivered, 10.0), order(2, OrderStatus::Pending, 20.0)]);
    let mut p: ArrowPersistence<OrderSoA> = ArrowPersistence::new();
    p.save(&d).unwrap();
    let got = p.load().unwrap().unwrap();
    assert_eq!(got.len(), 2);
    for i in 0..2 {
        let (a, b) = (got.view(i).unwrap(), d.view(i).unwrap());
        assert_eq!(*a.order_id, *b.order_id);
        assert_eq!(*a.status, *b.status);
        assert_eq!(*a.payment_method, *b.payment_method);
        assert_eq!(a.total_amount.bits, b.total_amount.bits);
        assert_eq!(*a.order_timestamp, *b.order_timestamp);
    }
    assert_eq!(f64::from_bits(got.view(1).unwrap().total_amount.bits), 20.0);
}

#[test]
fn save_replaces_earlier_content() {
    let mut p: ArrowPersistence<OrderSoA> = ArrowPersistence::with_capacity(4);
    p.save(&model(&[order(1, OrderStatus::Pending, 1.0)])).unwrap();
    p.save(&model(&[order(2, OrderStatus::Pending, 1.0), order(3, OrderStatus::Pending, 1.0)])).unwrap();
    assert_eq!(p.count().unwrap(), 2);
    assert_eq!(ids(&p.load().unwrap().unwrap()), vec![2, 3]);
}

#[test]
fn append_twice_then_load_concatenates_in_order() {
    let a = model(&[order(1, OrderStatus::Shipped, 1.0), order(2, OrderStatus::Pending, 2.0)]);
    let b = model(&[order(3, OrderStatus::Delivered, 3.0)]);
    let mut p: ArrowPersistence<OrderSoA> = ArrowPersistence::new();
    p.append(&a).unwrap();
    p.append(&b).unwrap();
    assert_eq!(p.count().unwrap(), 3);
    let got = p.load().unwrap().unwrap();
    assert_eq!(ids(&got), vec![1, 2, 3]);
    assert_eq!(got.status_raw_array(), &[OrderStatus::Shipped, OrderStatus::Pending, OrderStatus::Delivered]);
    assert_eq!(f64::from_bits(got.view(2).unwrap().unit_price.bits), 3.0);
}

#[test]
fn clear_leaves_nothing() {
    let mut p: ArrowPersistence<OrderSoA> = ArrowPersistence::new();
    assert!(p.load().unwrap().is_none());
    p.append(&model(&[order(1, OrderStatus::Pending, 1.0)])).unwrap();
    assert!(!p.is_empty().unwrap());
    p.clear().unwrap();
    assert_eq!(p.count().unwrap(), 0);
    assert!(p.load().unwrap().is_none());
    assert!(p.is_empty().unwrap());
}

#[test]
fn query_judges_the_whole_snapshot() {
    let mut p: ArrowPersistence<OrderSoA> = ArrowPersistence::new();
    assert!(p.query(|_| true).unwrap().is_none());
    p.save(&model(&[order(1, OrderStatus::Pending, 1.0), order(2, OrderStatus::Pending, 1.0)])).unwrap();
    assert_eq!(p.query(|d: &OrderSoA| d.len() == 2).unwrap().unwrap().len(), 2);
    assert!(p.query(|d: &OrderSoA| d.len() > 2).unwrap().is_none());
}

#[test]
fn batch_operations_keep_order() {
    let mut p: ArrowPersistence<OrderSoA> = ArrowPersistence::new();
    let parts = vec![
        model(&[order(1, OrderStatus::Pending, 1.0)]),
        model(&[order(2, OrderStatus::Pending, 1.0), order(3, OrderStatus::Pending, 1.0)]),
    ];
    p.save_batches(&parts).unwrap();
    p.append_batches(&[model(&[order(4, OrderStatus::Pending, 1.0)])]).unwrap();
    assert_eq!(p.get_batches().len(), 3);
    assert_eq!(p.count().unwrap(), 4);
    let two = p.load_batches(2).unwrap();
    assert_eq!(two.len(), 2);
    assert_eq!(ids(&two[1]), vec![2, 3]);
    assert_eq!(p.load_batches(0).unwrap().len(), 1);
    assert_eq!(p.load_batches(10).unwrap().len(), 3);
    let stats = p.memory_usage();
    assert_eq!(stats.num_batches, 3);
    assert_eq!(stats.total_rows, 4);
    assert!(stats.total_bytes > 0);
    assert_eq!(stats.avg_batch_size, stats.total_bytes / 3);
}

fn raw_batch(columns: Vec<(&str, ArrayRef)>) -> ColumnBatch {
    let fields: Vec<Field> = columns.iter().map(|(n, a)| Field::new(*n, a.data_type().clone(), false)).collect();
    let arrays: Vec<ArrayRef> = columns.into_iter().map(|(_, a)| a).collect();
    ColumnBatch { batch: RecordBatch::try_new(Arc::new(Schema::new(fields)), arrays).unwrap() }
}

#[test]
fn decoding_a_bad_status_code_fails() {
    let good = model(&[order(1, OrderStatus::Pending, 1.0)]).to_record_batch().unwrap();
    let mut cols: Vec<ArrayRef> = good.batch.columns().to_vec();
    cols[6] = Arc::new(UInt8Array::from(vec![9u8]));
    let names = OrderSoA::arrow_field_names();
    let bad = raw_batch(names.into_iter().zip(cols).collect());
    match OrderSoA::from_record_batch(&bad) {
        Err(PersistenceError::TypeConversion { message }) => assert_eq!(message, "Invalid OrderStatus value: 9"),
        other => panic!("expected TypeConversion, got {:?}", other.map(|s| s.len())),
    }
}

#[test]
fn decoding_a_missing_column_fails() {
    let short = raw_batch(vec![("order_id", Arc::new(UInt64Array::from(vec![1u64])) as ArrayRef)]);
    assert!(matches!(
        OrderSoA::from_record_batch(&short),
        Err(PersistenceError::ColumnNotFound { column_name }) if column_name == "customer_id"
    ));
    let good = model(&[order(1, OrderStatus::Pending, 1.0)]).to_record_batch().unwrap();
    let mut cols: Vec<ArrayRef> = good.batch.columns().to_vec();
    cols[0] = Arc::new(UInt32Array::from(vec![1u32]));
    let wrong = raw_batch(OrderSoA::arrow_field_names().into_iter().zip(cols).collect());
    assert!(matches!(
        OrderSoA::from_record_batch(&wrong),
        Err(PersistenceError::ColumnNotFound { column_name }) if column_name == "order_id"
    ));
}

#[test]
fn merging_batches_of_different_widths_is_a_schema_mismatch() {
    let a = model(&[order(1, OrderStatus::Pending, 1.0)]).to_record_batch().unwrap();
    let b = raw_batch(vec![("order_id", Arc::new(UInt64Array::from(vec![1u64])) as ArrayRef)]);
    match merge_record_batches(&vec![a, b]) {
        Err(PersistenceError::SchemaMismatch { expected, found }) => {
            assert_eq!(expected, "10 columns");
            assert_eq!(found, "1 columns");
        }
        other => panic!("expected SchemaMismatch, got {:?}", other.map(|o| o.is_some())),
    }
    assert!(merge_record_batches(&vec![]).unwrap().is_none());
    assert!(decode_batches::<OrderSoA>(&vec![]).unwrap().is_none());
}

#[test]
fn appended_batch_puts_new_rows_last() {
    let a = model(&[order(1, OrderStatus::Pending, 1.0)]);
    let b = model(&[order(2, OrderStatus::Delivered, 2.0)]);
    let joined = appended_batch(Some(&a), &b).unwrap();
    assert_eq!(joined.batch.num_rows(), 2);
    let back = decode_batches::<OrderSoA>(&vec![joined]).unwrap().unwrap();
    assert_eq!(ids(&back), vec![1, 2]);
    let alone = appended_batch(None, &b).unwrap();
    assert_eq!(alone.batch.num_rows(), 1);
}

#[test]
fn persistent_store_mirrors_adds() {
    let mut s = PersistentOrderStore::new();
    assert!(s.is_empty().unwrap());
    assert_eq!(s.add(order(1, OrderStatus::Pending, 1.0)).unwrap(), 0);
    let idx = s.add_batch(vec![order(2, OrderStatus::Pending, 1.0), order(3, OrderStatus::Pending, 1.0)]).unwrap();
    assert_eq!(idx, vec![1, 2]);
    assert_eq!(s.len(), 3);
    assert_eq!(s.storage_count().unwrap(), 3);
    s.append_to_storage().unwrap();
    assert_eq!(s.storage_count().unwrap(), 6);
    assert_eq!(s.memory_stats().num_batches, 2);
    s.save_to_storage().unwrap();
    assert_eq!(s.storage_count().unwrap(), 3);
    s.kernel_mut().push(order(4, OrderStatus::Pending, 1.0));
    assert_eq!(s.kernel().len(), 4);
    assert!(s.load_from_storage().unwrap());
    assert_eq!(ids(s.kernel()), vec![1, 2, 3]);
    assert!(s.query_storage(|d: &OrderSoA| d.len() == 3).unwrap().is_some());
    s.clear_all().unwrap();
    assert!(s.is_memory_empty());
    assert!(s.is_empty().unwrap());
    assert!(!s.load_from_storage().unwrap());
    let w = PersistentOrderStore::with_capacity(2);
    assert_eq!(w.len(), 0);
}

#[test]
fn default_store_is_empty() {
    let p: ArrowPersistence<OrderSoA> = ArrowPersistence::default();
    assert_eq!(p.count().unwrap(), 0);
    assert!(p.merge_batches().unwrap().is_none());
    assert!(p.get_batches().is_empty());
}

#[test]
fn many_appends_load_in_order() {
    let mut p: ArrowPersistence<OrderSoA> = ArrowPersistence::new();
    p.save(&model(&[order(1, OrderStatus::Pending, 1.0)])).unwrap();
    for k in 2..6u64 {
        p.append(&model(&[order(k, OrderStatus::Processing, k as f64)])).unwrap();
    }
    assert_eq!(ids(&p.load().unwrap().unwrap()), vec![1, 2, 3, 4, 5]);
    let merged = p.merge_batches().unwrap().unwrap();
    assert_eq!(merged.batch.num_rows(), 5);
    assert_eq!(merged.batch.schema().field(0).name(), "order_id");
    assert_eq!(merged.batch.schema().field(9).name(), "shipping_address_hash");
}
