//! The column model for `Order`: one vector per field, all of one length.
use vstd::prelude::*;

use crate::order::{F64Bits, Order, OrderStatus, PaymentMethod};

verus! {

/// Why an index-based access on a column model or a sharded store failed.
#[derive(Clone, Copy, Debug, PartialEq, Eq, Structural)]
pub enum SoaError {
    /// A row index at or past the number of rows.
    IndexOutOfRange { index: usize, len: usize },
    /// A shard index at or past the number of shards.
    ShardIndexOutOfRange { index: usize, shard_count: usize },
    /// Columns handed in together do not all have the same length.
    ColumnLengthMismatch { expected: usize, found: usize },
}

/// Columnar storage of orders: the `k`-th element of every column belongs
/// to row `k`.
pub struct OrderSoA {
    order_id: Vec<u64>,
    customer_id: Vec<u64>,
    product_id: Vec<u64>,
    quantity: Vec<u32>,
    unit_price: Vec<F64Bits>,
    total_amount: Vec<F64Bits>,
    status: Vec<OrderStatus>,
    payment_method: Vec<PaymentMethod>,
    order_timestamp: Vec<u64>,
    shipping_address_hash: Vec<u64>,
}

/// Read projection of one row: a reference into each column.
pub struct OrderView<'a> {
    pub order_id: &'a u64,
    pub customer_id: &'a u64,
    pub product_id: &'a u64,
    pub quantity: &'a u32,
    pub unit_price: &'a F64Bits,
    pub total_amount: &'a F64Bits,
    pub status: &'a OrderStatus,
    pub payment_method: &'a PaymentMethod,
    pub order_timestamp: &'a u64,
    pub shipping_address_hash: &'a u64,
}

impl<'a> OrderView<'a> {
    /// The row that this projection reads.
    pub open spec fn row(&self) -> Order {
        Order {
            order_id: *self.order_id,
            customer_id: *self.customer_id,
            product_id: *self.product_id,
            quantity: *self.quantity,
            unit_price: *self.unit_price,
            total_amount: *self.total_amount,
            status: *self.status,
            payment_method: *self.payment_method,
            order_timestamp: *self.order_timestamp,
            shipping_address_hash: *self.shipping_address_hash,
        }
    }
}

/// Write projection of one row: a mutable reference into each column.
///
/// While it lives, the column model it came from is borrowed mutably, so
/// no other projection of that model can exist beside it.
pub struct OrderMut<'a> {
    pub order_id: &'a mut u64,
    pub customer_id: &'a mut u64,
    pub product_id: &'a mut u64,
    pub quantity: &'a mut u32,
    pub unit_price: &'a mut F64Bits,
    pub total_amount: &'a mut F64Bits,
    pub status: &'a mut OrderStatus,
    pub payment_method: &'a mut PaymentMethod,
    pub order_timestamp: &'a mut u64,
    pub shipping_address_hash: &'a mut u64,
}

impl<'a> OrderMut<'a> {
    /// The row as it reads when the projection is made.
    pub open spec fn current(&self) -> Order {
        Order {
            order_id: *self.order_id,
            customer_id: *self.customer_id,
            product_id: *self.product_id,
            quantity: *self.quantity,
            unit_price: *self.unit_price,
            total_amount: *self.total_amount,
            status: *self.status,
            payment_method: *self.payment_method,
            order_timestamp: *self.order_timestamp,
            shipping_address_hash: *self.shipping_address_hash,
        }
    }

}

impl OrderSoA {
    /// Every column has as many elements as the first one.
    pub closed spec fn wf(&self) -> bool {
        let n = self.order_id@.len();
        &&& self.customer_id@.len() == n
        &&& self.product_id@.len() == n
        &&& self.quantity@.len() == n
        &&& self.unit_price@.len() == n
        &&& self.total_amount@.len() == n
        &&& self.status@.len() == n
        &&& self.payment_method@.len() == n
        &&& self.order_timestamp@.len() == n
        &&& self.shipping_address_hash@.len() == n
    }

    closed spec fn row_at(&self, i: int) -> Order {
        Order {
            order_id: self.order_id@[i],
            customer_id: self.customer_id@[i],
            product_id: self.product_id@[i],
            quantity: self.quantity@[i],
            unit_price: self.unit_price@[i],
            total_amount: self.total_amount@[i],
            status: self.status@[i],
            payment_method: self.payment_method@[i],
            order_timestamp: self.order_timestamp@[i],
            shipping_address_hash: self.shipping_address_hash@[i],
        }
    }
}

impl OrderSoA {
    /// The rows, in insertion order.
    pub closed spec fn rows(&self) -> Seq<Order> {
        Seq::new(self.order_id@.len(), |i: int| self.row_at(i))
    }
}

impl OrderSoA {
    /// An empty column model.
    pub fn new() -> (r: OrderSoA)
        ensures
            r.wf(),
            r.rows() == Seq::<Order>::empty(),
    {
        let r = OrderSoA {
            order_id: Vec::new(),
            customer_id: Vec::new(),
            product_id: Vec::new(),
            quantity: Vec::new(),
            unit_price: Vec::new(),
            total_amount: Vec::new(),
            status: Vec::new(),
            payment_method: Vec::new(),
            order_timestamp: Vec::new(),
            shipping_address_hash: Vec::new(),
        };
        assert(r.rows() =~= Seq::<Order>::empty());
        r
    }

    /// An empty column model with room reserved for `cap` rows per column.
    pub fn with_capacity(cap: usize) -> (r: OrderSoA)
        ensures
            r.wf(),
            r.rows() == Seq::<Order>::empty(),
    {
        let r = OrderSoA {
            order_id: Vec::with_capacity(cap),
            customer_id: Vec::with_capacity(cap),
            product_id: Vec::with_capacity(cap),
            quantity: Vec::with_capacity(cap),
            unit_price: Vec::with_capacity(cap),
            total_amount: Vec::with_capacity(cap),
            status: Vec::with_capacity(cap),
            payment_method: Vec::with_capacity(cap),
            order_timestamp: Vec::with_capacity(cap),
            shipping_address_hash: Vec::with_capacity(cap),
        };
        assert(r.rows() =~= Seq::<Order>::empty());
        r
    }

    /// The number of rows, which is the length of every column. That the
    /// columns agree (`wf`) is proved of every operation, so nothing is
    /// left to check here at run time.
    pub fn len(&self) -> (r: usize)
        requires
            self.wf(),
        ensures
            r == self.rows().len(),
    {
        self.order_id.len()
    }

    /// Whether there are no rows.
    pub fn is_empty(&self) -> (r: bool)
        requires
            self.wf(),
        ensures
            r == (self.rows().len() == 0),
    {
        self.len() == 0
    }

    /// Appends one value to every column; returns the new row's index.
    pub fn push(&mut self, v: Order) -> (r: usize)
        requires
            old(self).wf(),
        ensures
            final(self).wf(),
            final(self).rows() == old(self).rows().push(v),
            r == old(self).rows().len(),
    {
        self.order_id.push(v.order_id);
        self.customer_id.push(v.customer_id);
        self.product_id.push(v.product_id);
        self.quantity.push(v.quantity);
        self.unit_price.push(v.unit_price);
        self.total_amount.push(v.total_amount);
        self.status.push(v.status);
        self.payment_method.push(v.payment_method);
        self.order_timestamp.push(v.order_timestamp);
        self.shipping_address_hash.push(v.shipping_address_hash);
        assert(self.rows() =~= old(self).rows().push(v));
        self.len() - 1
    }

    /// References into every column at row `i`.
    pub fn view(&self, i: usize) -> (r: Result<OrderView<'_>, SoaError>)
        requires
            self.wf(),
        ensures
            i < self.rows().len() ==> (r matches Ok(w) && w.row() == self.rows()[i as int]),
            i >= self.rows().len() ==> r == Err::<OrderView<'_>, SoaError>(
                SoaError::IndexOutOfRange { index: i, len: self.rows().len() as usize },
            ),
    {
        if i >= self.len() {
            return Err(SoaError::IndexOutOfRange { index: i, len: self.len() });
        }
        Ok(OrderView {
            order_id: &self.order_id[i],
            customer_id: &self.customer_id[i],
            product_id: &self.product_id[i],
            quantity: &self.quantity[i],
            unit_price: &self.unit_price[i],
            total_amount: &self.total_amount[i],
            status: &self.status[i],
            payment_method: &self.payment_method[i],
            order_timestamp: &self.order_timestamp[i],
            shipping_address_hash: &self.shipping_address_hash[i],
        })
    }

    /// Mutable references into every column at row `i`; what is written
    /// through them becomes row `i`, and no other row changes.
    pub fn view_mut(&mut self, i: usize) -> (r: Result<OrderMut<'_>, SoaError>)
        requires
            old(self).wf(),
        ensures
            i < old(self).rows().len() ==> (r matches Ok(w) && w.current() == old(self).rows()[i as int]
                && final(self).wf() && final(self).rows() == old(self).rows().update(
                i as int,
                Order {
                    order_id: *final(w.order_id),
                    customer_id: *final(w.customer_id),
                    product_id: *final(w.product_id),
                    quantity: *final(w.quantity),
                    unit_price: *final(w.unit_price),
                    total_amount: *final(w.total_amount),
                    status: *final(w.status),
                    payment_method: *final(w.payment_method),
                    order_timestamp: *final(w.order_timestamp),
                    shipping_address_hash: *final(w.shipping_address_hash),
                },
            )),
            i >= old(self).rows().len() ==> r == Err::<OrderMut<'_>, SoaError>(
                SoaError::IndexOutOfRange { index: i, len: old(self).rows().len() as usize },
            ) && *final(self) == *old(self),
    {
        let n = self.len();
        if i >= n {
            return Err(SoaError::IndexOutOfRange { index: i, len: n });
        }
        Ok(OrderMut {
            order_id: &mut self.order_id[i],
            customer_id: &mut self.customer_id[i],
            product_id: &mut self.product_id[i],
            quantity: &mut self.quantity[i],
            unit_price: &mut self.unit_price[i],
            total_amount: &mut self.total_amount[i],
            status: &mut self.status[i],
            payment_method: &mut self.payment_method[i],
            order_timestamp: &mut self.order_timestamp[i],
            shipping_address_hash: &mut self.shipping_address_hash[i],
        })
    }

    /// A column model made of whole columns, one per field; refused with
    /// `ColumnLengthMismatch` (the first column's length, then the first
    /// differing one's, in field order) unless all lengths agree.
    pub fn from_columns(
        order_id: Vec<u64>,
        customer_id: Vec<u64>,
        product_id: Vec<u64>,
        quantity: Vec<u32>,
        unit_price: Vec<F64Bits>,
        total_amount: Vec<F64Bits>,
        status: Vec<OrderStatus>,
        payment_method: Vec<PaymentMethod>,
        order_timestamp: Vec<u64>,
        shipping_address_hash: Vec<u64>,
    ) -> (r: Result<OrderSoA, SoaError>)
        ensures
            ({
            &&& customer_id@.len() == order_id@.len()
            &&& product_id@.len() == order_id@.len()
            &&& quantity@.len() == order_id@.len()
            &&& unit_price@.len() == order_id@.len()
            &&& total_amount@.len() == order_id@.len()
            &&& status@.len() == order_id@.len()
            &&& payment_method@.len() == order_id@.len()
            &&& order_timestamp@.len() == order_id@.len()
            &&& shipping_address_hash@.len() == order_id@.len()
            }) ==> (r matches Ok(s) && s.wf() && s.rows() == Seq::new(
                order_id@.len(),
                |i: int|
                    Order {
                    order_id: order_id@[i],
                    customer_id: customer_id@[i],
                    product_id: product_id@[i],
                    quantity: quantity@[i],
                    unit_price: unit_price@[i],
                    total_amount: total_amount@[i],
                    status: status@[i],
                    payment_method: payment_method@[i],
                    order_timestamp: order_timestamp@[i],
                    shipping_address_hash: shipping_address_hash@[i],
                },
            )),
            !({
            &&& customer_id@.len() == order_id@.len()
            &&& product_id@.len() == order_id@.len()
            &&& quantity@.len() == order_id@.len()
            &&& unit_price@.len() == order_id@.len()
            &&& total_amount@.len() == order_id@.len()
            &&& status@.len() == order_id@.len()
            &&& payment_method@.len() == order_id@.len()
            &&& order_timestamp@.len() == order_id@.len()
            &&& shipping_address_hash@.len() == order_id@.len()
            }) ==> r == Err::<OrderSoA, SoaError>(
                SoaError::ColumnLengthMismatch {
                    expected: order_id@.len() as usize,
                    found: (if customer_id@.len() != order_id@.len() {
                customer_id@.len()
            } else if product_id@.len() != order_id@.len() {
                product_id@.len()
            } else if quantity@.len() != order_id@.len() {
                quantity@.len()
            } else if unit_price@.len() != order_id@.len() {
                unit_price@.len()
            } else if total_amount@.len() != order_id@.len() {
                total_amount@.len()
            } else if status@.len() != order_id@.len() {
                status@.len()
            } else if payment_method@.len() != order_id@.len() {
                payment_method@.len()
            } else if order_timestamp@.len() != order_id@.len() {
                order_timestamp@.len()
            } else if shipping_address_hash@.len() != order_id@.len() {
                shipping_address_hash@.len()
            } else {
                order_id@.len()
            }) as usize,
                },
            ),
    {
        let n = order_id.len();
        if customer_id.len() != n {
            return Err(SoaError::ColumnLengthMismatch { expected: n, found: customer_id.len() });
        }
        if product_id.len() != n {
            return Err(SoaError::ColumnLengthMismatch { expected: n, found: product_id.len() });
        }
        if quantity.len() != n {
            return Err(SoaError::ColumnLengthMismatch { expected: n, found: quantity.len() });
        }
        if unit_price.len() != n {
            return Err(SoaError::ColumnLengthMismatch { expected: n, found: unit_price.len() });
        }
        if total_amount.len() != n {
            return Err(SoaError::ColumnLengthMismatch { expected: n, found: total_amount.len() });
        }
        if status.len() != n {
            return Err(SoaError::ColumnLengthMismatch { expected: n, found: status.len() });
        }
        if payment_method.len() != n {
            return Err(SoaError::ColumnLengthMismatch { expected: n, found: payment_method.len() });
        }
        if order_timestamp.len() != n {
            return Err(SoaError::ColumnLengthMismatch { expected: n, found: order_timestamp.len() });
        }
        if shipping_address_hash.len() != n {
            return Err(SoaError::ColumnLengthMismatch { expected: n, found: shipping_address_hash.len() });
        }
        let s = OrderSoA {
            order_id,
            customer_id,
            product_id,
            quantity,
            unit_price,
            total_amount,
            status,
            payment_method,
            order_timestamp,
            shipping_address_hash,
        };
        assert(s.rows() =~= Seq::new(
            order_id@.len(),
            |i: int|
                Order {
                    order_id: order_id@[i],
                    customer_id: customer_id@[i],
                    product_id: product_id@[i],
                    quantity: quantity@[i],
                    unit_price: unit_price@[i],
                    total_amount: total_amount@[i],
                    status: status@[i],
                    payment_method: payment_method@[i],
                    order_timestamp: order_timestamp@[i],
                    shipping_address_hash: shipping_address_hash@[i],
                },
        ));
        Ok(s)
    }

    /// Read projections of rows `0..len()`, in row order.
    pub fn iter(&self) -> (r: Vec<OrderView<'_>>)
        requires
            self.wf(),
        ensures
            r@.len() == self.rows().len(),
            forall|k: int| 0 <= k < r@.len() ==> (#[trigger] r@[k]).row() == self.rows()[k],
    {
        let n = self.len();
        let mut out: Vec<OrderView<'_>> = Vec::with_capacity(n);
        let mut i: usize = 0;
        while i < n
            invariant
                self.wf(),
                n == self.rows().len(),
                i <= n,
                out@.len() == i,
                forall|k: int| 0 <= k < i ==> (#[trigger] out@[k]).row() == self.rows()[k],
            decreases n - i,
        {
            match self.view(i) {
                Ok(w) => out.push(w),
                Err(_) => {},
            }
            i += 1;
        }
        out
    }

    /// The `order_id` column, contiguous, one element per row.
    pub fn order_id_raw_array(&self) -> (r: &[u64])
        requires
            self.wf(),
        ensures
            r@ == self.rows().map_values(|o: Order| o.order_id),
    {
        let r = self.order_id.as_slice();
        assert(r@ =~= self.rows().map_values(|o: Order| o.order_id));
        r
    }

    /// The `customer_id` column, contiguous, one element per row.
    pub fn customer_id_raw_array(&self) -> (r: &[u64])
        requires
            self.wf(),
        ensures
            r@ == self.rows().map_values(|o: Order| o.customer_id),
    {
        let r = self.customer_id.as_slice();
        assert(r@ =~= self.rows().map_values(|o: Order| o.customer_id));
        r
    }

    /// The `product_id` column, contiguous, one element per row.
    pub fn product_id_raw_array(&self) -> (r: &[u64])
        requires
            self.wf(),
        ensures
            r@ == self.rows().map_values(|o: Order| o.product_id),
    {
        let r = self.product_id.as_slice();
        assert(r@ =~= self.rows().map_values(|o: Order| o.product_id));
        r
    }

    /// The `quantity` column, contiguous, one element per row.
    pub fn quantity_raw_array(&self) -> (r: &[u32])
        requires
            self.wf(),
        ensures
            r@ == self.rows().map_values(|o: Order| o.quantity),
    {
        let r = self.quantity.as_slice();
        assert(r@ =~= self.rows().map_values(|o: Order| o.quantity));
        r
    }

    /// The `unit_price` column, contiguous, one element per row.
    pub fn unit_price_raw_array(&self) -> (r: &[F64Bits])
        requires
            self.wf(),
        ensures
            r@ == self.rows().map_values(|o: Order| o.unit_price),
    {
        let r = self.unit_price.as_slice();
        assert(r@ =~= self.rows().map_values(|o: Order| o.unit_price));
        r
    }

    /// The `total_amount` column, contiguous, one element per row.
    pub fn total_amount_raw_array(&self) -> (r: &[F64Bits])
        requires
            self.wf(),
        ensures
            r@ == self.rows().map_values(|o: Order| o.total_amount),
    {
        let r = self.total_amount.as_slice();
        assert(r@ =~= self.rows().map_values(|o: Order| o.total_amount));
        r
    }

    /// The `status` column, contiguous, one element per row.
    pub fn status_raw_array(&self) -> (r: &[OrderStatus])
        requires
            self.wf(),
        ensures
            r@ == self.rows().map_values(|o: Order| o.status),
    {
        let r = self.status.as_slice();
        assert(r@ =~= self.rows().map_values(|o: Order| o.status));
        r
    }

    /// The `payment_method` column, contiguous, one element per row.
    pub fn payment_method_raw_array(&self) -> (r: &[PaymentMethod])
        requires
            self.wf(),
        ensures
            r@ == self.rows().map_values(|o: Order| o.payment_method),
    {
        let r = self.payment_method.as_slice();
        assert(r@ =~= self.rows().map_values(|o: Order| o.payment_method));
        r
    }

    /// The `order_timestamp` column, contiguous, one element per row.
    pub fn order_timestamp_raw_array(&self) -> (r: &[u64])
        requires
            self.wf(),
        ensures
            r@ == self.rows().map_values(|o: Order| o.order_timestamp),
    {
        let r = self.order_timestamp.as_slice();
        assert(r@ =~= self.rows().map_values(|o: Order| o.order_timestamp));
        r
    }

    /// The `shipping_address_hash` column, contiguous, one element per row.
    pub fn shipping_address_hash_raw_array(&self) -> (r: &[u64])
        requires
            self.wf(),
        ensures
            r@ == self.rows().map_values(|o: Order| o.shipping_address_hash),
    {
        let r = self.shipping_address_hash.as_slice();
        assert(r@ =~= self.rows().map_values(|o: Order| o.shipping_address_hash));
        r
    }
}

impl Clone for OrderSoA {
    /// A deep copy: every column is copied.
    fn clone(&self) -> (r: Self)
        ensures
            self.wf() ==> r.wf(),
            r.rows() == self.rows(),
    {
        let r = OrderSoA {
            order_id: self.order_id.clone(),
            customer_id: self.customer_id.clone(),
            product_id: self.product_id.clone(),
            quantity: self.quantity.clone(),
            unit_price: self.unit_price.clone(),
            total_amount: self.total_amount.clone(),
            status: self.status.clone(),
            payment_method: self.payment_method.clone(),
            order_timestamp: self.order_timestamp.clone(),
            shipping_address_hash: self.shipping_address_hash.clone(),
        };
        assert(r.order_id@ =~= self.order_id@);
        assert(r.customer_id@ =~= self.customer_id@);
        assert(r.product_id@ =~= self.product_id@);
        assert(r.quantity@ =~= self.quantity@);
        assert(r.unit_price@ =~= self.unit_price@);
        assert(r.total_amount@ =~= self.total_amount@);
        assert(r.status@ =~= self.status@);
        assert(r.payment_method@ =~= self.payment_method@);
        assert(r.order_timestamp@ =~= self.order_timestamp@);
        assert(r.shipping_address_hash@ =~= self.shipping_address_hash@);
        assert(r.rows() =~= self.rows());
        r
    }
}


/// Rows pushed one at a time, each state related to the one before as
/// `push` ensures, make up the first `i` states' rows: state `i` holds
/// exactly the first `i` rows.
proof fn lemma_push_prefix(states: Seq<Seq<Order>>, rows: Seq<Order>, i: int)
    requires
        states.len() == rows.len() + 1,
        states[0] == Seq::<Order>::empty(),
        forall|k: int| 0 <= k < rows.len() ==> #[trigger] states[k + 1] == states[k].push(rows[k]),
        0 <= i <= rows.len(),
    ensures
        states[i] == rows.subrange(0, i),
    decreases i,
{
    if i == 0 {
        assert(rows.subrange(0, 0) =~= Seq::<Order>::empty());
    } else {
        lemma_push_prefix(states, rows, i - 1);
        assert(states[(i - 1) + 1] == states[i - 1].push(rows[i - 1]));
        assert(rows.subrange(0, i - 1).push(rows[i - 1]) =~= rows.subrange(0, i));
    }
}

/// Pushing `rows` one at a time onto an empty column model (each step as
/// `push` ensures, which also keeps every column as long as the model)
/// leaves exactly `rows`, so `len()` is the number of pushes.
pub proof fn lemma_pushes_from_empty(states: Seq<Seq<Order>>, rows: Seq<Order>)
    requires
        states.len() == rows.len() + 1,
        states[0] == Seq::<Order>::empty(),
        forall|k: int| 0 <= k < rows.len() ==> #[trigger] states[k + 1] == states[k].push(rows[k]),
    ensures
        states.last() == rows,
        states.last().len() == rows.len(),
{
    lemma_push_prefix(states, rows, rows.len() as int);
    assert(rows.subrange(0, rows.len() as int) =~= rows);
}

/// A record shape with a column model: how a row goes into the model and
/// how a row of it is projected.
pub trait SoaModel: Sized {
    /// The column model of this shape.
    type Soa;

    /// Read projection of one row.
    type View<'a> where Self: 'a;

    /// Write projection of one row.
    type ViewMut<'a> where Self: 'a;

    /// The rows of a column model, in insertion order.
    spec fn soa_rows(soa: &Self::Soa) -> Seq<Self>;

    /// A column model whose columns agree in length.
    spec fn soa_wf(soa: &Self::Soa) -> bool;

    /// Appends `v` as the last row.
    fn push_into(soa: &mut Self::Soa, v: Self)
        requires
            Self::soa_wf(old(soa)),
        ensures
            Self::soa_wf(final(soa)),
            Self::soa_rows(final(soa)) == Self::soa_rows(old(soa)).push(v),
    ;

    /// Projection of row `i`; refused past the last row.
    fn view(soa: &Self::Soa, i: usize) -> (r: Result<Self::View<'_>, SoaError>)
        requires
            Self::soa_wf(soa),
        ensures
            r is Ok <==> i < Self::soa_rows(soa).len(),
    ;

    /// Write projection of row `i`; refused past the last row.
    fn view_mut(soa: &mut Self::Soa, i: usize) -> (r: Result<Self::ViewMut<'_>, SoaError>)
        requires
            Self::soa_wf(old(soa)),
        ensures
            r is Ok <==> i < Self::soa_rows(old(soa)).len(),
    ;
}

impl SoaModel for Order {
    type Soa = OrderSoA;

    type View<'a> = OrderView<'a>;

    type ViewMut<'a> = OrderMut<'a>;

    open spec fn soa_rows(soa: &OrderSoA) -> Seq<Order> {
        soa.rows()
    }

    open spec fn soa_wf(soa: &OrderSoA) -> bool {
        soa.wf()
    }

    fn push_into(soa: &mut OrderSoA, v: Order) {
        soa.push(v);
    }

    fn view(soa: &OrderSoA, i: usize) -> (r: Result<OrderView<'_>, SoaError>) {
        soa.view(i)
    }

    fn view_mut(soa: &mut OrderSoA, i: usize) -> (r: Result<OrderMut<'_>, SoaError>) {
        soa.view_mut(i)
    }
}

} // verus!
