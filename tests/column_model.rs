use soa_store::order::{F64Bits, Order, OrderStatus, PaymentMethod};
use soa_store::sharded::{CachePadded, OrderShardedStore};
use soa_store::soa::{OrderSoA, SoaError, SoaModel};
use soa_store::store::OrderStore;

fn order(id: u64, quantity: u32, price: f64) -> Order {
    Order {
        order_id: id,
        customer_id: 100 + id,
        product_id: 200,
        quantity,
        unit_price: F64Bits { bits: price.to_bits() },
        total_amount: F64Bits { bits: (quantity as f64 * price).to_bits() },
        status: OrderStatus::Pending,
        payment_method: PaymentMethod::CreditCard,
        order_timestamp: 1234567890,
        shipping_address_hash: 0xdeadbeef,
    }
}

#[test]
fn push_counts_rows_and_keeps_columns_aligned() {
    let mut soa = OrderSoA::new();
    assert!(soa.is_empty());
    for i in 0..5u64 {
        let idx = soa.push(order(i, 1, 2.5));
        assert_eq!(idx, i as usize);
    }
    assert_eq!(soa.len(), 5);
    assert!(!soa.is_empty());
    assert_eq!(soa.order_id_raw_array().len(), 5);
    assert_eq!(soa.customer_id_raw_array().len(), 5);
    assert_eq!(soa.product_id_raw_array().len(), 5);
    assert_eq!(soa.quantity_raw_array().len(), 5);
    assert_eq!(soa.unit_price_raw_array().len(), 5);
    assert_eq!(soa.total_amount_raw_array().len(), 5);
    assert_eq!(soa.status_raw_array().len(), 5);
    assert_eq!(soa.payment_method_raw_array().len(), 5);
    assert_eq!(soa.order_timestamp_raw_array().len(), 5);
    assert_eq!(soa.shipping_address_hash_raw_array().len(), 5);
    assert_eq!(soa.order_id_raw_array(), &[0, 1, 2, 3, 4]);
}

#[test]
fn with_capacity_starts_empty() {
    let soa = OrderSoA::with_capacity(64);
    assert_eq!(soa.len(), 0);
    assert!(soa.iter().is_empty());
}

#[test]
fn view_returns_pushed_values() {
    let mut soa = OrderSoA::new();
    let a = order(1, 2, 10.0).with_status(OrderStatus::Delivered);
    let b = order(2, 3, 20.0);
    soa.push(a);
    soa.push(b);
    let v = soa.view(0).unwrap();
    assert_eq!(*v.order_id, 1);
    assert_eq!(*v.customer_id, 101);
    assert_eq!(*v.quantity, 2);
    assert_eq!(f64::from_bits(v.unit_price.bits), 10.0);
    assert_eq!(f64::from_bits(v.total_amount.bits), 20.0);
    assert_eq!(*v.status, OrderStatus::Delivered);
    let w = soa.view(1).unwrap();
    assert_eq!(*w.order_id, 2);
    assert_eq!(*w.status, OrderStatus::Pending);
    assert_eq!(*w.shipping_address_hash, 0xdeadbeef);
}

#[test]
fn view_past_the_end_is_index_out_of_range() {
    let mut soa = OrderSoA::new();
    soa.push(order(1, 1, 1.0));
    match soa.view(1) {
        Err(e) => assert_eq!(e, SoaError::IndexOutOfRange { index: 1, len: 1 }),
        Ok(_) => panic!("index 1 of a one-row model must be refused"),
    }
    assert!(matches!(soa.view_mut(7), Err(SoaError::IndexOutOfRange { index: 7, len: 1 })));
}

#[test]
fn view_mut_writes_one_row() {
    let mut soa = OrderSoA::new();
    soa.push(order(1, 1, 1.0));
    soa.push(order(2, 1, 1.0));
    {
        let m = soa.view_mut(1).unwrap();
        *m.status = OrderStatus::Shipped;
        *m.quantity = 9;
    }
    assert_eq!(soa.status_raw_array(), &[OrderStatus::Pending, OrderStatus::Shipped]);
    assert_eq!(soa.quantity_raw_array(), &[1, 9]);
}

#[test]
fn iter_yields_rows_in_order() {
    let mut soa = OrderSoA::new();
    for i in 0..4u64 {
        soa.push(order(10 + i, 1, 1.0));
    }
    let ids: Vec<u64> = soa.iter().iter().map(|v| *v.order_id).collect();
    assert_eq!(ids, vec![10, 11, 12, 13]);
}

#[test]
fn clone_copies_all_rows() {
    let mut soa = OrderSoA::new();
    soa.push(order(5, 1, 1.0));
    let mut copy = soa.clone();
    copy.push(order(6, 1, 1.0));
    assert_eq!(soa.len(), 1);
    assert_eq!(copy.order_id_raw_array(), &[5, 6]);
}

#[test]
fn from_columns_refuses_unequal_lengths() {
    let r = OrderSoA::from_columns(
        vec![1, 2],
        vec![1, 2],
        vec![1, 2],
        vec![1, 2],
        vec![F64Bits { bits: 0 }; 2],
        vec![F64Bits { bits: 0 }; 2],
        vec![OrderStatus::Pending; 2],
        vec![PaymentMethod::PayPal; 1],
        vec![0, 0],
        vec![0, 0],
    );
    assert!(matches!(r, Err(SoaError::ColumnLengthMismatch { expected: 2, found: 1 })));
    let ok = OrderSoA::from_columns(
        vec![1],
        vec![2],
        vec![3],
        vec![4],
        vec![F64Bits { bits: 5 }],
        vec![F64Bits { bits: 6 }],
        vec![OrderStatus::Shipped],
        vec![PaymentMethod::BankTransfer],
        vec![7],
        vec![8],
    )
    .unwrap();
    let v = ok.view(0).unwrap();
    assert_eq!(*v.product_id, 3);
    assert_eq!(*v.payment_method, PaymentMethod::BankTransfer);
}

#[test]
fn soa_model_pushes_and_projects() {
    let mut soa = OrderSoA::new();
    <Order as SoaModel>::push_into(&mut soa, order(3, 1, 1.0));
    let v = <Order as SoaModel>::view(&soa, 0).unwrap();
    assert_eq!(*v.order_id, 3);
    assert!(<Order as SoaModel>::view(&soa, 1).is_err());
}

#[test]
fn store_clone_then_add_leaves_first_handle_unchanged() {
    let mut s0 = OrderStore::new();
    s0.add(order(1, 1, 1.0));
    let mut s1 = s0.clone();
    let idx = s1.add(order(2, 1, 1.0));
    assert_eq!(idx, 1);
    assert_eq!(s0.kernel().len(), 1);
    assert_eq!(s1.kernel().len(), 2);
    assert_eq!(s0.kernel().order_id_raw_array(), &[1]);
}

#[test]
fn store_kernel_mut_on_a_shared_clone_copies_first() {
    let mut s0 = OrderStore::default();
    s0.add(order(1, 1, 1.0));
    let mut s1 = s0.clone();
    *s1.kernel_mut().view_mut(0).unwrap().order_id = 99;
    assert_eq!(s0.kernel().order_id_raw_array(), &[1]);
    assert_eq!(s1.kernel().order_id_raw_array(), &[99]);
}

#[test]
fn same_key_goes_to_same_shard() {
    let mut s = OrderShardedStore::with_shards(4, 8);
    assert_eq!(s.shard_count(), 4);
    let (a, ra) = s.add(order(42, 1, 1.0));
    let (b, rb) = s.add(order(42, 2, 2.0));
    assert_eq!(a, b);
    assert!(a < 4);
    assert_eq!(ra, 0);
    assert_eq!(rb, 1);
    assert_eq!(s.shard(a).unwrap().len(), 2);
    let total: usize = (0..4).map(|i| s.shard(i).unwrap().len()).sum();
    assert_eq!(total, 2);
}

#[test]
fn shards_spread_distinct_keys() {
    let mut s = OrderShardedStore::with_shards(OrderShardedStore::DEFAULT_SHARDS, 0);
    for k in 0..200u64 {
        let (si, _) = s.add(order(k, 1, 1.0));
        assert!(si < 16);
    }
    let used = (0..16).filter(|&i| s.shard(i).unwrap().len() > 0).count();
    assert!(used > 1);
}

#[test]
fn shard_index_past_the_end_is_refused() {
    let mut s = OrderShardedStore::with_shards(2, 0);
    assert!(matches!(s.shard(2), Err(SoaError::ShardIndexOutOfRange { index: 2, shard_count: 2 })));
    assert!(matches!(s.shard_mut(5), Err(SoaError::ShardIndexOutOfRange { index: 5, shard_count: 2 })));
    s.shard_mut(1).unwrap().push(order(1, 1, 1.0));
    assert_eq!(s.shard(1).unwrap().len(), 1);
    assert_eq!(s.shard(0).unwrap().len(), 0);
}

#[test]
fn cache_padded_keeps_its_value() {
    let p = CachePadded::new(7u32);
    assert_eq!(p.0, 7);
    assert!(std::mem::size_of::<CachePadded<u8>>() >= 64);
}

