//! In-memory persistence: an ordered list of batches.
use vstd::prelude::*;

use crate::batch::{
    batch_columns, batch_field_names, batch_memory_size, batch_null_free, batch_num_columns,
    batch_num_rows, batches_agree, concat_columns, concat_record_batches, copy_batch, rows_in,
    ColumnBatch, ColumnValues,
};
use crate::codes::{append_decimal, decimal};
use vstd::string::StringExecFns;
use crate::conversion::{
    decode_orders, encode_orders, join_rows, lemma_orders_concat_all, lemma_orders_round_trip,
    ArrowSchemaGen, ToArrow,
};
use crate::order::Order;
use crate::errors::PersistenceError;
use crate::soa::OrderSoA;
use std::marker::PhantomData;

verus! {

/// The number of rows in batches with columns `stored`, all together.
pub open spec fn total_rows(stored: Seq<Seq<ColumnValues>>) -> nat
    decreases stored.len(),
{
    if stored.len() == 0 {
        0
    } else {
        total_rows(stored.drop_last()) + rows_in(stored.last())
    }
}

/// `n`, or `usize::MAX` when `n` is larger.
pub open spec fn saturate(n: nat) -> usize {
    if n <= usize::MAX {
        n as usize
    } else {
        usize::MAX
    }
}

/// The text `"<n> columns"`.
pub open spec fn columns_text(n: nat) -> Seq<char> {
    decimal(n) + " columns"@
}

/// The text `"<n> columns"`, as a string.
fn columns_message(n: usize) -> (r: String)
    ensures
        r@ == columns_text(n as nat),
{
    let mut s = String::new();
    append_decimal(&mut s, n as u64);
    s.append(" columns");
    assert(s@ =~= columns_text(n as nat));
    s
}

/// Every batch has as many columns as the first.
pub open spec fn same_column_count(batches: Seq<ColumnBatch>) -> bool {
    forall|k: int|
        0 <= k < batches.len() ==> batch_columns(#[trigger] batches[k]).len() == batch_columns(
            batches[0],
        ).len()
}

/// Several batches as one: nothing for none, the batch itself for one,
/// else their concatenation under the first batch's schema. Batches whose
/// column counts differ from the first's are refused with `SchemaMismatch`.
pub fn merge_record_batches(batches: &Vec<ColumnBatch>) -> (r: Result<Option<ColumnBatch>, PersistenceError>)
    ensures
        batches@.len() == 0 ==> r matches Ok(None),
        batches@.len() == 1 ==> (r matches Ok(Some(b)) && batch_columns(b) == batch_columns(batches@[0])),
        batches@.len() > 0 ==> !(r matches Ok(None)),
        r matches Ok(Some(b)) ==> batch_columns(b) == concat_columns(
            batches@.map_values(|x: ColumnBatch| batch_columns(x)),
        ),
        (batches@.len() > 1 && !same_column_count(batches@)) ==> r matches Err(
            PersistenceError::SchemaMismatch { .. },
        ),
        same_column_count(batches@) ==> (r matches Err(e) ==> e is ArrowError),
        batches_agree(batches@) ==> (r matches Ok(Some(b)) && batch_null_free(b)),
        r matches Ok(Some(b)) ==> batch_field_names(b) == batch_field_names(batches@[0]),
{
    let n = batches.len();
    if n == 0 {
        return Ok(None);
    }
    if n == 1 {
        return Ok(Some(copy_batch(&batches[0])));
    }
    let expected = batch_num_columns(&batches[0]);
    let mut k: usize = 1;
    while k < n
        invariant
            n == batches@.len(),
            1 <= k <= n,
            expected == batch_columns(batches@[0]).len(),
            forall|j: int| 0 <= j < k ==> batch_columns(#[trigger] batches@[j]).len() == expected,
        decreases n - k,
    {
        let found = batch_num_columns(&batches[k]);
        if found != expected {
            assert(!batches_agree(batches@)) by {
                if batches_agree(batches@) {
                    assert(batch_null_free(batches@[k as int]));
                }
            }
            return Err(
                PersistenceError::SchemaMismatch {
                    expected: columns_message(expected),
                    found: columns_message(found),
                },
            );
        }
        k += 1;
    }
    match concat_record_batches(batches) {
        Ok(b) => Ok(Some(b)),
        Err(e) => Err(PersistenceError::ArrowError(e)),
    }
}

/// The column model that `batches` hold together, or nothing for no
/// batches; what reading a batch list back amounts to.
pub fn decode_batches<T: ToArrow>(batches: &Vec<ColumnBatch>) -> (r: Result<Option<T>, PersistenceError>)
    ensures
        batches@.len() == 0 ==> r matches Ok(None),
        batches@.len() > 0 ==> !(r matches Ok(None)),
        r matches Ok(Some(v)) ==> T::decodes_to(
            concat_columns(batches@.map_values(|x: ColumnBatch| batch_columns(x))),
            v,
        ),
        r matches Ok(Some(_)) ==> T::decodable(
            concat_columns(batches@.map_values(|x: ColumnBatch| batch_columns(x))),
        ),
        batches_agree(batches@) ==> (r is Ok <==> T::decodable(
            concat_columns(batches@.map_values(|x: ColumnBatch| batch_columns(x))),
        )),
        batches@.len() == 1 ==> (r is Ok <==> T::decodable(batch_columns(batches@[0]))),
        (batches_agree(batches@) && T::decodable(
            concat_columns(batches@.map_values(|x: ColumnBatch| batch_columns(x))),
        )) ==> r matches Ok(Some(_)),
        (batches@.len() > 1 && !same_column_count(batches@)) ==> r matches Err(
            PersistenceError::SchemaMismatch { .. },
        ),
{
    match merge_record_batches(batches)? {
        Some(b) => Ok(Some(T::from_record_batch(&b)?)),
        None => Ok(None),
    }
}

/// The batch that holds `existing`'s rows (if any) followed by `data`'s:
/// what a store that keeps a single batch writes back on append.
pub fn appended_batch<T: ToArrow>(existing: Option<&T>, data: &T) -> (r: Result<ColumnBatch, PersistenceError>)
    requires
        data.encodable(),
        existing matches Some(e) ==> e.encodable(),
    ensures
        T::encoding_never_fails() ==> r is Ok,
        r matches Ok(b) ==> batch_null_free(b) && batch_field_names(b) == T::field_names(),
        r matches Ok(b) ==> batch_columns(b) == match existing {
            Some(e) => concat_columns(seq![e.arrow_columns(), data.arrow_columns()]),
            None => data.arrow_columns(),
        },
{
    let new_batch = data.to_record_batch()?;
    match existing {
        None => Ok(new_batch),
        Some(e) => {
            let old_batch = e.to_record_batch()?;
            let pair = vec![old_batch, new_batch];
            assert(pair@.map_values(|x: ColumnBatch| batch_columns(x)) =~= seq![e.arrow_columns(), data.arrow_columns()]);
            assert(batches_agree(pair@)) by {
                assert forall|k: int, j: int|
                    0 <= k < pair@.len() && 0 <= j < batch_columns(pair@[0]).len() implies (#[trigger] batch_columns(
                        pair@[k],
                    )[j]).kind() == batch_columns(pair@[0])[j].kind() && batch_columns(pair@[0])[j].kind() is Some by {
                    assert(batch_columns(pair@[0])[j] == e.arrow_columns()[j]);
                    assert(batch_columns(pair@[1])[j] == data.arrow_columns()[j]);
                    assert(e.arrow_columns()[j].kind() == Some(T::field_kinds()[j]));
                    assert(data.arrow_columns()[j].kind() == Some(T::field_kinds()[j]));
                }
            }
            match merge_record_batches(&pair)? {
                Some(b) => Ok(b),
                None => Err(PersistenceError::Serialization("no batch to append to".to_owned())),
            }
        },
    }
}

/// A batch that `T`'s schema describes: null-free, with one column per
/// field of `T`, each of that field's kind.
pub open spec fn fits_schema<T: ArrowSchemaGen>(b: ColumnBatch) -> bool {
    &&& batch_null_free(b)
    &&& batch_columns(b).len() == T::field_kinds().len()
    &&& forall|j: int|
        0 <= j < T::field_kinds().len() ==> (#[trigger] batch_columns(b)[j]).kind() == Some(
            T::field_kinds()[j],
        )
}

/// Batches that all fit one schema can be laid end to end.
pub proof fn lemma_fitting_batches_agree<T: ArrowSchemaGen>(batches: Seq<ColumnBatch>)
    requires
        batches.len() > 0,
        forall|k: int| 0 <= k < batches.len() ==> fits_schema::<T>(#[trigger] batches[k]),
    ensures
        batches_agree(batches),
{
    assert forall|k: int, j: int|
        0 <= k < batches.len() && 0 <= j < batch_columns(batches[0]).len() implies (#[trigger] batch_columns(
            batches[k],
        )[j]).kind() == batch_columns(batches[0])[j].kind() && batch_columns(batches[0])[j].kind() is Some by {
        assert(fits_schema::<T>(batches[k]));
        assert(fits_schema::<T>(batches[0]));
    }
    assert forall|k: int| 0 <= k < batches.len() implies #[trigger] batch_null_free(batches[k]) && batch_columns(
        batches[k],
    ).len() == batch_columns(batches[0]).len() by {
        assert(fits_schema::<T>(batches[k]));
        assert(fits_schema::<T>(batches[0]));
    }
}

/// Storage figures of an in-memory store.
#[derive(Clone, Copy, Debug)]
pub struct MemoryStats {
    /// Bytes held by all batches' buffers (saturating).
    pub total_bytes: usize,
    /// Rows in all batches (saturating).
    pub total_rows: usize,
    pub num_batches: usize,
    /// `total_bytes / num_batches`, or 0 without batches.
    pub avg_batch_size: usize,
}

/// Keeps column models as an ordered list of batches, in memory, for the
/// life of the value. Exclusive access goes by `&mut`; sharing it between
/// tasks takes a lock around it.
pub struct ArrowPersistence<T> {
    batches: Vec<ColumnBatch>,
    marker: PhantomData<T>,
}

impl<T: ToArrow> ArrowPersistence<T> {
    /// The columns of each stored batch, oldest first.
    pub closed spec fn stored(&self) -> Seq<Seq<ColumnValues>> {
        self.batches@.map_values(|b: ColumnBatch| batch_columns(b))
    }

    /// Every stored batch fits `T`'s schema.
    pub closed spec fn wf(&self) -> bool {
        forall|k: int| 0 <= k < self.batches@.len() ==> fits_schema::<T>(#[trigger] self.batches@[k])
    }

    /// A store with nothing in it.
    pub fn new() -> (r: Self)
        ensures
            r.wf(),
            r.stored() == Seq::<Seq<ColumnValues>>::empty(),
    {
        let r = ArrowPersistence { batches: Vec::new(), marker: PhantomData };
        assert(r.stored() =~= Seq::<Seq<ColumnValues>>::empty());
        r
    }

    /// A store with nothing in it and room for `capacity` batches.
    pub fn with_capacity(capacity: usize) -> (r: Self)
        ensures
            r.wf(),
            r.stored() == Seq::<Seq<ColumnValues>>::empty(),
    {
        let r = ArrowPersistence { batches: Vec::with_capacity(capacity), marker: PhantomData };
        assert(r.stored() =~= Seq::<Seq<ColumnValues>>::empty());
        r
    }

    /// Handles on all stored batches, oldest first.
    pub fn get_batches(&self) -> (r: Vec<ColumnBatch>)
        ensures
            r@.map_values(|b: ColumnBatch| batch_columns(b)) == self.stored(),
    {
        let mut out: Vec<ColumnBatch> = Vec::with_capacity(self.batches.len());
        let mut i: usize = 0;
        while i < self.batches.len()
            invariant
                i <= self.batches@.len(),
                out@.len() == i,
                forall|k: int| 0 <= k < i ==> batch_columns(#[trigger] out@[k]) == batch_columns(self.batches@[k]),
            decreases self.batches@.len() - i,
        {
            let c = copy_batch(&self.batches[i]);
            out.push(c);
            i += 1;
        }
        assert(out@.map_values(|b: ColumnBatch| batch_columns(b)) =~= self.stored());
        out
    }

    /// All stored batches as one: nothing when none is stored, the batch
    /// itself when there is one, else their concatenation.
    pub fn merge_batches(&self) -> (r: Result<Option<ColumnBatch>, PersistenceError>)
        requires
            self.wf(),
        ensures
            self.stored().len() == 0 ==> r matches Ok(None),
            self.stored().len() == 1 ==> (r matches Ok(Some(b)) && batch_columns(b) == self.stored()[0]),
            self.stored().len() > 0 ==> !(r matches Ok(None)),
            self.stored().len() > 0 ==> r matches Ok(Some(_)),
            r matches Ok(Some(b)) ==> batch_columns(b) == concat_columns(self.stored()),
    {
        assert(self.batches@.map_values(|x: ColumnBatch| batch_columns(x)) == self.stored());
        if self.batches.len() > 0 {
            proof {
                lemma_fitting_batches_agree::<T>(self.batches@);
            }
        }
        merge_record_batches(&self.batches)
    }

    /// Replaces everything stored with `data`'s batch; on failure nothing
    /// changes.
    pub fn save(&mut self, data: &T) -> (r: Result<(), PersistenceError>)
        requires
            old(self).wf(),
            data.encodable(),
        ensures
            final(self).wf(),
            T::encoding_never_fails() ==> r is Ok,
            r is Ok ==> final(self).stored() == seq![data.arrow_columns()],
            r is Err ==> final(self).stored() == old(self).stored(),
    {
        let batch = data.to_record_batch()?;
        self.batches.clear();
        self.batches.push(batch);
        assert(self.stored() =~= seq![data.arrow_columns()]);
        Ok(())
    }

    /// The column model that all stored batches together hold, or nothing
    /// when none is stored.
    pub fn load(&self) -> (r: Result<Option<T>, PersistenceError>)
        requires
            self.wf(),
        ensures
            self.stored().len() == 0 ==> r matches Ok(None),
            self.stored().len() > 0 ==> !(r matches Ok(None)),
            r matches Ok(Some(v)) ==> T::decodes_to(concat_columns(self.stored()), v),
            self.stored().len() == 1 ==> (r is Ok <==> T::decodable(self.stored()[0])),
            (self.stored().len() > 0 && T::decodable(concat_columns(self.stored()))) ==> r matches Ok(Some(_)),
            r matches Ok(Some(_)) ==> T::decodable(concat_columns(self.stored())),
            r is Ok <==> (self.stored().len() == 0 || T::decodable(concat_columns(self.stored()))),
    {
        assert(self.batches@.map_values(|x: ColumnBatch| batch_columns(x)) == self.stored());
        if self.batches.len() > 0 {
            proof {
                lemma_fitting_batches_agree::<T>(self.batches@);
            }
        }
        decode_batches(&self.batches)
    }

    /// Adds `data`'s batch after those stored; on failure nothing changes.
    pub fn append(&mut self, data: &T) -> (r: Result<(), PersistenceError>)
        requires
            old(self).wf(),
            data.encodable(),
        ensures
            final(self).wf(),
            T::encoding_never_fails() ==> r is Ok,
            r is Ok ==> final(self).stored() == old(self).stored().push(data.arrow_columns()),
            r is Err ==> final(self).stored() == old(self).stored(),
    {
        let batch = data.to_record_batch()?;
        self.batches.push(batch);
        assert(self.stored() =~= old(self).stored().push(data.arrow_columns()));
        Ok(())
    }

    /// What `load` returns, when `predicate` accepts it; nothing when it
    /// does not. The predicate judges the whole column model, not rows.
    pub fn query<F: Fn(&T) -> bool>(&self, predicate: F) -> (r: Result<Option<T>, PersistenceError>)
        requires
            self.wf(),
            forall|t: &T| predicate.requires((t,)),
        ensures
            self.stored().len() == 0 ==> r matches Ok(None),
            r matches Ok(Some(v)) ==> T::decodes_to(concat_columns(self.stored()), v)
                && predicate.ensures((&v,), true),
            r is Ok <==> (self.stored().len() == 0 || T::decodable(concat_columns(self.stored()))),
            (r matches Ok(None) && self.stored().len() > 0) ==> exists|v: T|
                T::decodes_to(concat_columns(self.stored()), v) && #[trigger] predicate.ensures(
                    (&v,),
                    false,
                ),
    {
        match self.load()? {
            Some(d) => {
                if predicate(&d) {
                    Ok(Some(d))
                } else {
                    Ok(None)
                }
            },
            None => Ok(None),
        }
    }

    /// The number of stored rows (saturating), read from each batch's row
    /// count.
    pub fn count(&self) -> (r: Result<usize, PersistenceError>)
        requires
            self.wf(),
        ensures
            r matches Ok(n) && n == saturate(total_rows(self.stored())),
    {
        proof {
            T::lemma_has_fields();
        }
        let mut total: usize = 0;
        let mut i: usize = 0;
        while i < self.batches.len()
            invariant
                self.wf(),
                T::field_kinds().len() > 0,
                i <= self.batches@.len(),
                total == saturate(total_rows(self.stored().subrange(0, i as int))),
            decreases self.batches@.len() - i,
        {
            let n = batch_num_rows(&self.batches[i]);
            assert(self.stored().subrange(0, i + 1).drop_last() =~= self.stored().subrange(0, i as int));
            assert(rows_in(self.stored()[i as int]) == n);
            total = total.saturating_add(n);
            i += 1;
        }
        assert(self.stored().subrange(0, i as int) =~= self.stored());
        Ok(total)
    }

    /// Removes everything stored.
    pub fn clear(&mut self) -> (r: Result<(), PersistenceError>)
        ensures
            final(self).wf(),
            final(self).stored() == Seq::<Seq<ColumnValues>>::empty(),
            r is Ok,
    {
        self.batches.clear();
        assert(self.stored() =~= Seq::<Seq<ColumnValues>>::empty());
        Ok(())
    }

    /// Whether no row is stored.
    pub fn is_empty(&self) -> (r: Result<bool, PersistenceError>)
        requires
            self.wf(),
        ensures
            r matches Ok(b) && b == (total_rows(self.stored()) == 0),
    {
        let n = self.count()?;
        Ok(n == 0)
    }

    /// The batches of `data`, in order, or the first failure.
    fn batches_of(data: &[T]) -> (r: Result<Vec<ColumnBatch>, PersistenceError>)
        requires
            forall|k: int| 0 <= k < data@.len() ==> (#[trigger] data@[k]).encodable(),
        ensures
            T::encoding_never_fails() ==> r is Ok,
            r matches Ok(v) ==> v@.map_values(|b: ColumnBatch| batch_columns(b)) == data@.map_values(
                |t: T| t.arrow_columns(),
            ),
            r matches Ok(v) ==> forall|k: int| 0 <= k < v@.len() ==> fits_schema::<T>(#[trigger] v@[k]),
    {
        let mut out: Vec<ColumnBatch> = Vec::with_capacity(data.len());
        let mut i: usize = 0;
        while i < data.len()
            invariant
                i <= data@.len(),
                forall|k: int| 0 <= k < data@.len() ==> (#[trigger] data@[k]).encodable(),
                out@.len() == i,
                forall|k: int| 0 <= k < i ==> batch_columns(#[trigger] out@[k]) == data@[k].arrow_columns(),
                forall|k: int| 0 <= k < i ==> fits_schema::<T>(#[trigger] out@[k]),
            decreases data@.len() - i,
        {
            let b = data[i].to_record_batch()?;
            out.push(b);
            i += 1;
        }
        assert(out@.map_values(|b: ColumnBatch| batch_columns(b)) =~= data@.map_values(|t: T| t.arrow_columns()));
        Ok(out)
    }

    /// Replaces everything stored with one batch per element of `data`, in
    /// order; on failure nothing changes.
    pub fn save_batches(&mut self, data: &[T]) -> (r: Result<(), PersistenceError>)
        requires
            old(self).wf(),
            forall|k: int| 0 <= k < data@.len() ==> (#[trigger] data@[k]).encodable(),
        ensures
            final(self).wf(),
            T::encoding_never_fails() ==> r is Ok,
            r is Ok ==> final(self).stored() == data@.map_values(|t: T| t.arrow_columns()),
            r is Err ==> final(self).stored() == old(self).stored(),
    {
        let fresh = Self::batches_of(data)?;
        self.batches = fresh;
        Ok(())
    }

    /// Adds one batch per element of `data` after those stored, in order;
    /// on failure nothing changes.
    pub fn append_batches(&mut self, data: &[T]) -> (r: Result<(), PersistenceError>)
        requires
            old(self).wf(),
            forall|k: int| 0 <= k < data@.len() ==> (#[trigger] data@[k]).encodable(),
        ensures
            final(self).wf(),
            T::encoding_never_fails() ==> r is Ok,
            r is Ok ==> final(self).stored() == old(self).stored() + data@.map_values(|t: T| t.arrow_columns()),
            r is Err ==> final(self).stored() == old(self).stored(),
    {
        let mut fresh = Self::batches_of(data)?;
        let ghost added = fresh@;
        self.batches.append(&mut fresh);
        assert(self.batches@ == old(self).batches@ + added);
        assert(self.stored() =~= old(self).stored() + data@.map_values(|t: T| t.arrow_columns())) by {
            assert(added.map_values(|b: ColumnBatch| batch_columns(b)) == data@.map_values(|t: T| t.arrow_columns()));
        }
        Ok(())
    }

    /// The stored batches decoded one by one, oldest first: at most
    /// `batch_size` of them, but at least one when any is stored.
    pub fn load_batches(&self, batch_size: usize) -> (r: Result<Vec<T>, PersistenceError>)
        requires
            self.wf(),
        ensures
            r matches Ok(v) ==> v@.len() == (if self.stored().len() == 0 {
                0
            } else if batch_size == 0 {
                1
            } else if batch_size < self.stored().len() {
                batch_size as nat
            } else {
                self.stored().len()
            }),
            r matches Ok(v) ==> forall|k: int|
                0 <= k < v@.len() ==> T::decodes_to(self.stored()[k], #[trigger] v@[k]),
            (forall|k: int| 0 <= k < self.stored().len() ==> T::decodable(#[trigger] self.stored()[k]))
                ==> r is Ok,
    {
        let mut out: Vec<T> = Vec::new();
        let n = self.batches.len();
        let ghost cap: nat = if batch_size == 0 {
            1
        } else {
            batch_size as nat
        };
        let mut done = false;
        let mut i: usize = 0;
        while i < n && !done
            invariant
                n == self.batches@.len(),
                i <= n,
                i <= cap,
                cap == (if batch_size == 0 {
                    1
                } else {
                    batch_size as nat
                }),
                done <==> (i >= 1 && i >= batch_size),
                out@.len() == i,
                forall|k: int| 0 <= k < i ==> T::decodes_to(self.stored()[k], #[trigger] out@[k]),
            decreases n - i,
        {
            assert(self.stored()[i as int] == batch_columns(self.batches@[i as int]));
            let v = T::from_record_batch(&self.batches[i])?;
            out.push(v);
            i += 1;
            done = out.len() >= batch_size;
        }
        Ok(out)
    }

    /// Storage figures: batch count, row count and buffer bytes.
    pub fn memory_usage(&self) -> (r: MemoryStats)
        requires
            self.wf(),
        ensures
            r.num_batches == self.stored().len(),
            r.total_rows == saturate(total_rows(self.stored())),
            r.avg_batch_size == (if r.num_batches == 0 {
                0
            } else {
                r.total_bytes / r.num_batches
            }),
    {
        proof {
            T::lemma_has_fields();
        }
        let mut total_bytes: usize = 0;
        let mut rows: usize = 0;
        let mut i: usize = 0;
        while i < self.batches.len()
            invariant
                self.wf(),
                T::field_kinds().len() > 0,
                i <= self.batches@.len(),
                rows == saturate(total_rows(self.stored().subrange(0, i as int))),
            decreases self.batches@.len() - i,
        {
            let n = batch_num_rows(&self.batches[i]);
            assert(self.stored().subrange(0, i + 1).drop_last() =~= self.stored().subrange(0, i as int));
            assert(rows_in(self.stored()[i as int]) == n);
            rows = rows.saturating_add(n);
            total_bytes = total_bytes.saturating_add(batch_memory_size(&self.batches[i]));
            i += 1;
        }
        assert(self.stored().subrange(0, i as int) =~= self.stored());
        let num_batches = self.batches.len();
        let avg_batch_size = if num_batches == 0 {
            0
        } else {
            total_bytes / num_batches
        };
        MemoryStats { total_bytes, total_rows: rows, num_batches, avg_batch_size }
    }
}

/// Saving `d` stores exactly its columns (see `save`); loading those back
/// succeeds (see `load`) and yields a column model with `d`'s rows, in
/// order.
pub proof fn lemma_save_then_load(d: OrderSoA)
    requires
        d.wf(),
    ensures
        OrderSoA::decodable(seq![d.arrow_columns()][0]),
        forall|v: OrderSoA|
            OrderSoA::decodes_to(concat_columns(seq![d.arrow_columns()]), v) ==> v.rows() == d.rows(),
{
    lemma_orders_round_trip(d.rows());
}

/// Column models written one after another as batches, and read back
/// together (see `load`, `decode_batches`), decode to all their rows in
/// the order they were written: the columns laid end to end decode, and
/// to exactly those rows.
pub proof fn lemma_parts_then_load(parts: Seq<Seq<Order>>)
    requires
        parts.len() > 0,
    ensures
        OrderSoA::decodable(concat_columns(parts.map_values(|p: Seq<Order>| encode_orders(p)))),
        decode_orders(concat_columns(parts.map_values(|p: Seq<Order>| encode_orders(p)))) == join_rows(
            parts,
        ),
{
    lemma_orders_concat_all(parts);
    lemma_orders_round_trip(join_rows(parts));
}

/// A store holding batches of `prior` (oldest first), after appending `a`
/// and then `b` (see `append`), holds the columns of `prior`, `a` and `b`
/// in that order; loading them (see `load`) succeeds and yields `prior`'s
/// rows, then `a`'s, then `b`'s.
pub proof fn lemma_append_twice_then_load(prior: Seq<OrderSoA>, a: OrderSoA, b: OrderSoA)
    requires
        forall|k: int| 0 <= k < prior.len() ==> (#[trigger] prior[k]).wf(),
        a.wf(),
        b.wf(),
    ensures
        ({
            let stored = prior.map_values(|d: OrderSoA| d.arrow_columns()).push(a.arrow_columns()).push(
                b.arrow_columns(),
            );
            &&& OrderSoA::decodable(concat_columns(stored))
            &&& forall|v: OrderSoA|
                OrderSoA::decodes_to(concat_columns(stored), v) ==> v.rows() == join_rows(
                    prior.map_values(|d: OrderSoA| d.rows()),
                ) + a.rows() + b.rows()
        }),
{
    let parts = prior.map_values(|d: OrderSoA| d.rows()).push(a.rows()).push(b.rows());
    let stored = prior.map_values(|d: OrderSoA| d.arrow_columns()).push(a.arrow_columns()).push(
        b.arrow_columns(),
    );
    assert(parts.map_values(|p: Seq<Order>| encode_orders(p)) =~= stored);
    lemma_parts_then_load(parts);
    let p0 = prior.map_values(|d: OrderSoA| d.rows());
    assert(parts.drop_last() =~= p0.push(a.rows()));
    assert(parts.drop_last().drop_last() =~= p0);
    assert(join_rows(parts.drop_last()) == join_rows(p0) + a.rows());
    assert(join_rows(parts) == join_rows(p0) + a.rows() + b.rows());
}

/// A cleared store (see `clear`) counts no rows (see `count`) and loads
/// nothing (see `load`, which returns nothing exactly when no batch is
/// stored).
pub proof fn lemma_cleared_is_empty(stored: Seq<Seq<ColumnValues>>)
    requires
        stored.len() == 0,
    ensures
        saturate(total_rows(stored)) == 0,
{
}

impl<T: ToArrow> Default for ArrowPersistence<T> {
    fn default() -> (r: Self)
        ensures
            r.wf(),
            r.stored() == Seq::<Seq<ColumnValues>>::empty(),
    {
        ArrowPersistence::new()
    }
}

} // verus!
