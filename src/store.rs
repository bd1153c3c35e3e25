//! A shareable handle on one column model, copied on first write.
use vstd::prelude::*;

use crate::order::Order;
use crate::soa::OrderSoA;
use std::sync::Arc;

verus! {

/// Relies on `Arc::clone`: the new handle points at the same allocation,
/// so it reads as the same value.
#[verifier::external_body]
fn share(a: &Arc<OrderSoA>) -> (r: Arc<OrderSoA>)
    ensures
        r == *a,
{
    Arc::clone(a)
}

/// Relies on `Arc::make_mut`: when other handles share the allocation it
/// first replaces this handle's value by a clone (here `OrderSoA::clone`,
/// which keeps every row), then hands out the now unshared value.
#[verifier::external_body]
fn unshared(inner: &mut Arc<OrderSoA>) -> (r: &mut OrderSoA)
    requires
        (*old(inner)).wf(),
    ensures
        (*r).wf(),
        (*r).rows() == (*old(inner)).rows(),
        *final(inner) == *final(r),
{
    Arc::make_mut(inner)
}

/// An owning, cheaply clonable handle on an `OrderSoA`.
///
/// Clones share one column model until one of them writes; the writer
/// then works on a private copy, so the others keep reading their snapshot.
pub struct OrderStore {
    inner: Arc<OrderSoA>,
}

impl OrderStore {
    /// The shared column model is well formed.
    pub closed spec fn wf(&self) -> bool {
        (*self.inner).wf()
    }

    /// The rows this handle reads.
    pub closed spec fn rows(&self) -> Seq<Order> {
        (*self.inner).rows()
    }

    /// A handle on a new, empty column model.
    pub fn new() -> (r: OrderStore)
        ensures
            r.wf(),
            r.rows() == Seq::<Order>::empty(),
    {
        OrderStore { inner: Arc::new(OrderSoA::new()) }
    }

    /// Appends `v` to this handle's column model, copying it first if it is
    /// shared; returns the new row's index.
    pub fn add(&mut self, v: Order) -> (r: usize)
        requires
            old(self).wf(),
        ensures
            final(self).wf(),
            final(self).rows() == old(self).rows().push(v),
            r == old(self).rows().len(),
    {
        let inner = unshared(&mut self.inner);
        inner.push(v)
    }

    /// The current snapshot, read-only.
    pub fn kernel(&self) -> (r: &OrderSoA)
        requires
            self.wf(),
        ensures
            r.wf(),
            r.rows() == self.rows(),
    {
        &*self.inner
    }

    /// The column model for writing, copied first if it is shared. What is
    /// done through the reference is what this handle reads afterwards.
    pub fn kernel_mut(&mut self) -> (r: &mut OrderSoA)
        requires
            old(self).wf(),
        ensures
            (*r).wf(),
            (*r).rows() == old(self).rows(),
            final(self).wf() == (*final(r)).wf(),
            final(self).rows() == (*final(r)).rows(),
    {
        unshared(&mut self.inner)
    }
}

impl Clone for OrderStore {
    /// Another handle on the same column model; nothing is copied.
    fn clone(&self) -> (r: Self)
        ensures
            r.wf() == self.wf(),
            r.rows() == self.rows(),
    {
        OrderStore { inner: share(&self.inner) }
    }
}

impl Default for OrderStore {
    fn default() -> (r: Self)
        ensures
            r.wf(),
            r.rows() == Seq::<Order>::empty(),
    {
        OrderStore::new()
    }
}

} // verus!
