//! Rows spread over a fixed number of independent column models by a hash
//! of the order id.
use vstd::prelude::*;

use crate::order::Order;
use crate::soa::{OrderSoA, SoaError};
use std::collections::hash_map::DefaultHasher;
use std::hash::Hasher;
use vstd::std_specs::hash::DefaultHasherAdditionalSpecFns;

verus! {

/// A value followed by a cache line's worth of padding, so that values laid
/// out one after another never share a cache line.
pub struct CachePadded<T>(pub T, pub [u64; 8]);

impl<T> CachePadded<T> {
    /// Wraps `value`.
    pub fn new(value: T) -> (r: CachePadded<T>)
        ensures
            r.0 == value,
    {
        CachePadded(value, [0u64; 8])
    }
}

/// The eight bytes of `k`, least significant first: what hashing a `u64`
/// feeds to the hasher on a little-endian machine.
pub open spec fn key_bytes(k: u64) -> Seq<u8> {
    seq![
        k as u8,
        (k >> 8u64) as u8,
        (k >> 16u64) as u8,
        (k >> 24u64) as u8,
        (k >> 32u64) as u8,
        (k >> 40u64) as u8,
        (k >> 48u64) as u8,
        (k >> 56u64) as u8,
    ]
}

/// The hash of a key: a fresh `DefaultHasher` fed the key's bytes.
pub open spec fn key_hash(k: u64) -> u64 {
    DefaultHasher::spec_finish(seq![key_bytes(k)])
}

/// The shard that a row with key `k` goes to among `n` shards.
pub open spec fn shard_of(k: u64, n: nat) -> nat
    recommends
        n > 0,
{
    (key_hash(k) as nat) % n
}

/// Two rows with the same key go to the same shard of `n`, and that shard
/// exists.
pub proof fn lemma_same_key_same_shard(a: Order, b: Order, n: nat)
    requires
        n > 0,
        a.order_id == b.order_id,
    ensures
        shard_of(a.order_id, n) == shard_of(b.order_id, n),
        shard_of(a.order_id, n) < n,
{
}

/// Independently owned column models ("shards"); each row lives in the shard
/// chosen by a hash of its `order_id`.
pub struct OrderShardedStore {
    shards: Vec<CachePadded<OrderSoA>>,
}

impl OrderShardedStore {
    /// The shard count used when the caller names none.
    pub const DEFAULT_SHARDS: usize = 16;

    /// Every shard is well formed.
    pub closed spec fn wf(&self) -> bool {
        forall|i: int| 0 <= i < self.shards@.len() ==> (#[trigger] self.shards@[i]).0.wf()
    }

    /// The rows of each shard, shard by shard.
    pub closed spec fn shard_rows(&self) -> Seq<Seq<Order>> {
        Seq::new(self.shards@.len(), |i: int| self.shards@[i].0.rows())
    }

    /// `n` empty shards, each with room for `cap_per` rows.
    pub fn with_shards(n: usize, cap_per: usize) -> (r: OrderShardedStore)
        ensures
            r.wf(),
            r.shard_rows() == Seq::new(n as nat, |i: int| Seq::<Order>::empty()),
    {
        let mut shards: Vec<CachePadded<OrderSoA>> = Vec::with_capacity(n);
        let mut i: usize = 0;
        while i < n
            invariant
                i <= n,
                shards@.len() == i,
                forall|k: int| 0 <= k < i ==> (#[trigger] shards@[k]).0.wf(),
                forall|k: int| 0 <= k < i ==> (#[trigger] shards@[k]).0.rows() == Seq::<Order>::empty(),
            decreases n - i,
        {
            shards.push(CachePadded::new(OrderSoA::with_capacity(cap_per)));
            i += 1;
        }
        let r = OrderShardedStore { shards };
        assert(r.shard_rows() =~= Seq::new(n as nat, |i: int| Seq::<Order>::empty()));
        r
    }

    /// The shard for `key` among `n`.
    fn shard_idx_from_key(key: u64, n: usize) -> (r: usize)
        requires
            n > 0,
        ensures
            r as nat == shard_of(key, n as nat),
    {
        let bytes: Vec<u8> = vec![
            key as u8,
            (key >> 8u64) as u8,
            (key >> 16u64) as u8,
            (key >> 24u64) as u8,
            (key >> 32u64) as u8,
            (key >> 40u64) as u8,
            (key >> 48u64) as u8,
            (key >> 56u64) as u8,
        ];
        let mut h = DefaultHasher::new();
        h.write(bytes.as_slice());
        assert(bytes@ =~= key_bytes(key));
        assert(h@ =~= seq![key_bytes(key)]);
        (h.finish() % (n as u64)) as usize
    }

    /// Puts `v` into the shard that its key hashes to; returns that shard's
    /// index and the row's index within it.
    pub fn add(&mut self, v: Order) -> (r: (usize, usize))
        requires
            old(self).wf(),
            old(self).shard_rows().len() > 0,
        ensures
            final(self).wf(),
            final(self).shard_rows().len() == old(self).shard_rows().len(),
            r.0 as nat == shard_of(v.order_id, old(self).shard_rows().len()),
            r.1 == old(self).shard_rows()[r.0 as int].len(),
            final(self).shard_rows() == old(self).shard_rows().update(
                r.0 as int,
                old(self).shard_rows()[r.0 as int].push(v),
            ),
    {
        let n = self.shards.len();
        let si = Self::shard_idx_from_key(v.order_id, n);
        assert(self.shard_rows()[si as int] == self.shards@[si as int].0.rows());
        let target = &mut self.shards[si];
        let row = target.0.push(v);
        proof {
            assert forall|i: int| 0 <= i < self.shards@.len() implies (#[trigger] self.shards@[i]).0.wf() by {
                if i != si {
                    assert(self.shards@[i] == old(self).shards@[i]);
                }
            }
        }
        assert(self.shard_rows() =~= old(self).shard_rows().update(
            si as int,
            old(self).shard_rows()[si as int].push(v),
        ));
        (si, row)
    }

    /// The number of shards.
    pub fn shard_count(&self) -> (r: usize)
        ensures
            r == self.shard_rows().len(),
    {
        self.shards.len()
    }

    /// Shard `i`, read-only.
    pub fn shard(&self, i: usize) -> (r: Result<&OrderSoA, SoaError>)
        requires
            self.wf(),
        ensures
            i < self.shard_rows().len() ==> (r matches Ok(s) && s.wf() && s.rows()
                == self.shard_rows()[i as int]),
            i >= self.shard_rows().len() ==> r == Err::<&OrderSoA, SoaError>(
                SoaError::ShardIndexOutOfRange {
                    index: i,
                    shard_count: self.shard_rows().len() as usize,
                },
            ),
    {
        if i >= self.shards.len() {
            return Err(SoaError::ShardIndexOutOfRange { index: i, shard_count: self.shards.len() });
        }
        Ok(&self.shards[i].0)
    }

    /// Shard `i` for writing; what is done through the reference is what
    /// shard `i` holds afterwards, and no other shard changes.
    pub fn shard_mut(&mut self, i: usize) -> (r: Result<&mut OrderSoA, SoaError>)
        requires
            old(self).wf(),
        ensures
            i < old(self).shard_rows().len() ==> (r matches Ok(s) && s.wf() && s.rows()
                == old(self).shard_rows()[i as int] && (final(s).wf() ==> final(self).wf())
                && final(self).shard_rows() == old(self).shard_rows().update(
                i as int,
                final(s).rows(),
            )),
            i >= old(self).shard_rows().len() ==> r == Err::<&mut OrderSoA, SoaError>(
                SoaError::ShardIndexOutOfRange {
                    index: i,
                    shard_count: old(self).shard_rows().len() as usize,
                },
            ) && *final(self) == *old(self),
    {
        if i >= self.shards.len() {
            return Err(SoaError::ShardIndexOutOfRange { index: i, shard_count: self.shards.len() });
        }
        let slot = &mut self.shards[i];
        Ok(&mut slot.0)
    }
}

} // verus!
