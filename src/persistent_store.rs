//! An order store paired with in-memory persistence: every write to the
//! store can be mirrored into stored batches and read back.
use vstd::prelude::*;

use crate::batch::{concat_columns, ColumnValues};
use crate::conversion::{decode_orders, encode_orders, ToArrow};
use crate::errors::PersistenceError;
use crate::order::Order;
use crate::persistence::{saturate, total_rows, ArrowPersistence, MemoryStats};
use crate::soa::OrderSoA;
use crate::store::OrderStore;

verus! {

/// An `OrderStore` whose snapshot is saved to an `ArrowPersistence` on
/// each `add`, and can be saved, appended, reloaded and cleared on demand.
pub struct PersistentOrderStore {
    store: OrderStore,
    persistence: ArrowPersistence<OrderSoA>,
}

impl PersistentOrderStore {
    /// Both halves are well formed.
    pub closed spec fn wf(&self) -> bool {
        self.store.wf() && self.persistence.wf()
    }

    /// The rows held in memory.
    pub closed spec fn rows(&self) -> Seq<Order> {
        self.store.rows()
    }

    /// The columns of each stored batch, oldest first.
    pub closed spec fn stored(&self) -> Seq<Seq<ColumnValues>> {
        self.persistence.stored()
    }

    /// Nothing in memory and nothing stored.
    pub fn new() -> (r: Self)
        ensures
            r.wf(),
            r.rows() == Seq::<Order>::empty(),
            r.stored() == Seq::<Seq<ColumnValues>>::empty(),
    {
        PersistentOrderStore { store: OrderStore::new(), persistence: ArrowPersistence::new() }
    }

    /// Nothing in memory and nothing stored, with room for `capacity`
    /// batches.
    pub fn with_capacity(capacity: usize) -> (r: Self)
        ensures
            r.wf(),
            r.rows() == Seq::<Order>::empty(),
            r.stored() == Seq::<Seq<ColumnValues>>::empty(),
    {
        PersistentOrderStore {
            store: OrderStore::new(),
            persistence: ArrowPersistence::with_capacity(capacity),
        }
    }

    /// Adds `order` in memory, then replaces what is stored by the whole
    /// snapshot; returns the new row's index.
    pub fn add(&mut self, order: Order) -> (r: Result<usize, PersistenceError>)
        requires
            old(self).wf(),
        ensures
            final(self).wf(),
            final(self).rows() == old(self).rows().push(order),
            r matches Ok(i) && i == old(self).rows().len(),
            final(self).stored() == seq![encode_orders(final(self).rows())],
    {
        let index = self.store.add(order);
        self.persistence.save(self.store.kernel())?;
        Ok(index)
    }

    /// Adds `orders` in memory, in order, then saves the snapshot once;
    /// returns the new rows' indices.
    pub fn add_batch(&mut self, orders: Vec<Order>) -> (r: Result<Vec<usize>, PersistenceError>)
        requires
            old(self).wf(),
        ensures
            final(self).wf(),
            final(self).rows() == old(self).rows() + orders@,
            r matches Ok(v) && v@ == Seq::new(orders@.len(), |k: int| (old(self).rows().len() + k) as usize),
            final(self).stored() == seq![encode_orders(final(self).rows())],
    {
        let mut indices: Vec<usize> = Vec::with_capacity(orders.len());
        let mut i: usize = 0;
        while i < orders.len()
            invariant
                self.wf(),
                i <= orders@.len(),
                self.rows() == old(self).rows() + orders@.subrange(0, i as int),
                self.persistence == old(self).persistence,
                indices@ == Seq::new(i as nat, |k: int| (old(self).rows().len() + k) as usize),
            decreases orders@.len() - i,
        {
            let index = self.store.add(orders[i]);
            indices.push(index);
            i += 1;
            assert(self.rows() =~= old(self).rows() + orders@.subrange(0, i as int));
            assert(indices@ =~= Seq::new(i as nat, |k: int| (old(self).rows().len() + k) as usize));
        }
        assert(orders@.subrange(0, i as int) =~= orders@);
        self.persistence.save(self.store.kernel())?;
        Ok(indices)
    }

    /// Replaces the rows in memory by what the stored batches hold; returns
    /// whether anything was stored. On failure memory is unchanged.
    pub fn load_from_storage(&mut self) -> (r: Result<bool, PersistenceError>)
        requires
            old(self).wf(),
        ensures
            final(self).wf(),
            final(self).stored() == old(self).stored(),
            r matches Ok(true) ==> final(self).rows() == decode_orders(concat_columns(old(self).stored())),
            r matches Ok(b) ==> b == (old(self).stored().len() > 0),
            !(r matches Ok(true)) ==> final(self).rows() == old(self).rows(),
            old(self).stored().len() == 0 ==> r matches Ok(false),
            (old(self).stored().len() > 0 && OrderSoA::decodable(concat_columns(old(self).stored())))
                ==> r matches Ok(true),
            r is Ok <==> (old(self).stored().len() == 0 || OrderSoA::decodable(
                concat_columns(old(self).stored()),
            )),
    {
        match self.persistence.load()? {
            Some(soa) => {
                let k = self.store.kernel_mut();
                *k = soa;
                Ok(true)
            },
            None => Ok(false),
        }
    }

    /// Replaces what is stored by the snapshot in memory.
    pub fn save_to_storage(&mut self) -> (r: Result<(), PersistenceError>)
        requires
            old(self).wf(),
        ensures
            final(self).wf(),
            final(self).rows() == old(self).rows(),
            r is Ok,
            final(self).stored() == seq![encode_orders(old(self).rows())],
    {
        self.persistence.save(self.store.kernel())
    }

    /// Adds the snapshot in memory after what is stored.
    pub fn append_to_storage(&mut self) -> (r: Result<(), PersistenceError>)
        requires
            old(self).wf(),
        ensures
            final(self).wf(),
            final(self).rows() == old(self).rows(),
            r is Ok,
            final(self).stored() == old(self).stored().push(encode_orders(old(self).rows())),
    {
        self.persistence.append(self.store.kernel())
    }

    /// What the stored batches hold, when `predicate` accepts it.
    pub fn query_storage<F: Fn(&OrderSoA) -> bool>(&self, predicate: F) -> (r: Result<Option<OrderSoA>, PersistenceError>)
        requires
            self.wf(),
            forall|t: &OrderSoA| predicate.requires((t,)),
        ensures
            self.stored().len() == 0 ==> r matches Ok(None),
            r matches Ok(Some(v)) ==> v.wf() && v.rows() == decode_orders(concat_columns(self.stored()))
                && predicate.ensures((&v,), true),
            r is Ok <==> (self.stored().len() == 0 || OrderSoA::decodable(concat_columns(self.stored()))),
            (r matches Ok(None) && self.stored().len() > 0) ==> exists|v: OrderSoA|
                v.wf() && v.rows() == decode_orders(concat_columns(self.stored()))
                    && #[trigger] predicate.ensures((&v,), false),
    {
        self.persistence.query(predicate)
    }

    /// The number of stored rows (saturating).
    pub fn storage_count(&self) -> (r: Result<usize, PersistenceError>)
        requires
            self.wf(),
        ensures
            r matches Ok(n) && n == saturate(total_rows(self.stored())),
    {
        self.persistence.count()
    }

    /// Empties memory and storage.
    pub fn clear_all(&mut self) -> (r: Result<(), PersistenceError>)
        ensures
            final(self).wf(),
            final(self).rows() == Seq::<Order>::empty(),
            final(self).stored() == Seq::<Seq<ColumnValues>>::empty(),
            r is Ok,
    {
        self.store = OrderStore::new();
        self.persistence.clear()
    }

    /// Storage figures of the persisted batches.
    pub fn memory_stats(&self) -> (r: MemoryStats)
        requires
            self.wf(),
        ensures
            r.num_batches == self.stored().len(),
            r.total_rows == saturate(total_rows(self.stored())),
    {
        self.persistence.memory_usage()
    }

    /// Whether memory holds no row and storage holds no row.
    pub fn is_empty(&self) -> (r: Result<bool, PersistenceError>)
        requires
            self.wf(),
        ensures
            r matches Ok(b) && b == (self.rows().len() == 0 && total_rows(self.stored()) == 0),
    {
        let store_empty = self.store.kernel().is_empty();
        let storage_empty = self.persistence.is_empty()?;
        Ok(store_empty && storage_empty)
    }

    /// The snapshot in memory, read-only.
    pub fn kernel(&self) -> (r: &OrderSoA)
        requires
            self.wf(),
        ensures
            r.wf(),
            r.rows() == self.rows(),
    {
        self.store.kernel()
    }

    /// The column model in memory, for writing; storage is untouched.
    pub fn kernel_mut(&mut self) -> (r: &mut OrderSoA)
        requires
            old(self).wf(),
        ensures
            (*r).wf(),
            (*r).rows() == old(self).rows(),
            final(self).stored() == old(self).stored(),
            final(self).wf() == (*final(r)).wf(),
            final(self).rows() == (*final(r)).rows(),
    {
        self.store.kernel_mut()
    }

    /// The number of rows in memory.
    pub fn len(&self) -> (r: usize)
        requires
            self.wf(),
        ensures
            r == self.rows().len(),
    {
        self.store.kernel().len()
    }

    /// Whether memory holds no row.
    pub fn is_memory_empty(&self) -> (r: bool)
        requires
            self.wf(),
        ensures
            r == (self.rows().len() == 0),
    {
        self.store.kernel().is_empty()
    }
}

} // verus!
