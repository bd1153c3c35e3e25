//! The boundary to the columnar batch format: what a batch holds, as seen
//! by the contracts, and the few calls into the format library.
use vstd::prelude::*;

use arrow::buffer::Buffer;
use arrow_array::cast::AsArray;
use arrow_array::types::{Float64Type, UInt32Type, UInt64Type, UInt8Type};
use arrow_array::{Array, ArrayRef, Float64Array, RecordBatch, UInt32Array, UInt64Array, UInt8Array};
use arrow_schema::{ArrowError, DataType, Field, Schema};
use std::sync::Arc;

verus! {

/// A batch of equal-length, typed columns in the columnar format, held
/// whole; Verus sees it only through `batch_columns`.
#[verifier::external_body]
pub struct ColumnBatch {
    pub batch: RecordBatch,
}

/// The column types the store writes.
#[derive(Clone, Copy, Debug, PartialEq, Eq, Structural)]
pub enum ColumnKind {
    UInt64,
    UInt32,
    /// 64-bit floating point, carried as bit patterns.
    Float64,
    /// Also the type of enumeration codes.
    UInt8,
}

/// The values of one column of a batch. `Float64` holds bit patterns;
/// `Other` is a column of any other type, of which only the length counts.
pub enum ColumnValues {
    UInt64(Seq<u64>),
    UInt32(Seq<u32>),
    Float64(Seq<u64>),
    UInt8(Seq<u8>),
    Other(nat),
}

impl ColumnValues {
    /// The number of values.
    pub open spec fn len(self) -> nat {
        match self {
            ColumnValues::UInt64(s) => s.len(),
            ColumnValues::UInt32(s) => s.len(),
            ColumnValues::Float64(s) => s.len(),
            ColumnValues::UInt8(s) => s.len(),
            ColumnValues::Other(n) => n,
        }
    }

    /// The type, when it is one the store writes.
    pub open spec fn kind(self) -> Option<ColumnKind> {
        match self {
            ColumnValues::UInt64(_) => Some(ColumnKind::UInt64),
            ColumnValues::UInt32(_) => Some(ColumnKind::UInt32),
            ColumnValues::Float64(_) => Some(ColumnKind::Float64),
            ColumnValues::UInt8(_) => Some(ColumnKind::UInt8),
            ColumnValues::Other(_) => None,
        }
    }

    /// The values of `self` followed by those of `b`.
    pub open spec fn append(self, b: ColumnValues) -> ColumnValues {
        match (self, b) {
            (ColumnValues::UInt64(x), ColumnValues::UInt64(y)) => ColumnValues::UInt64(x + y),
            (ColumnValues::UInt32(x), ColumnValues::UInt32(y)) => ColumnValues::UInt32(x + y),
            (ColumnValues::Float64(x), ColumnValues::Float64(y)) => ColumnValues::Float64(x + y),
            (ColumnValues::UInt8(x), ColumnValues::UInt8(y)) => ColumnValues::UInt8(x + y),
            _ => ColumnValues::Other(self.len() + b.len()),
        }
    }
}

/// The columns of several batches laid end to end, column by column, in
/// batch order; the column count is the first batch's.
pub open spec fn concat_columns(batches: Seq<Seq<ColumnValues>>) -> Seq<ColumnValues>
    decreases batches.len(),
{
    if batches.len() == 0 {
        Seq::empty()
    } else if batches.len() == 1 {
        batches[0]
    } else {
        let front = concat_columns(batches.drop_last());
        Seq::new(front.len(), |j: int| front[j].append(batches.last()[j]))
    }
}

/// The number of rows of a batch with columns `cols`: the first column's length.
pub open spec fn rows_in(cols: Seq<ColumnValues>) -> nat {
    if cols.len() > 0 {
        cols[0].len()
    } else {
        0
    }
}

/// The values of one column, held by the library.
pub enum ColumnData {
    UInt64(Vec<u64>),
    UInt32(Vec<u32>),
    /// Bit patterns of 64-bit floating-point values.
    Float64(Vec<u64>),
    UInt8(Vec<u8>),
}

impl ColumnData {
    /// The values, as a batch column holds them.
    pub open spec fn values(&self) -> ColumnValues {
        match self {
            ColumnData::UInt64(v) => ColumnValues::UInt64(v@),
            ColumnData::UInt32(v) => ColumnValues::UInt32(v@),
            ColumnData::Float64(v) => ColumnValues::Float64(v@),
            ColumnData::UInt8(v) => ColumnValues::UInt8(v@),
        }
    }
}

/// A column with the name its field gets in the batch's schema.
pub struct NamedColumn {
    pub name: &'static str,
    pub data: ColumnData,
}

/// What a batch holds: its columns, in schema order, each with the values
/// that its values buffer holds.
pub uninterp spec fn batch_columns(b: ColumnBatch) -> Seq<ColumnValues>;

/// Whether no column of a batch holds a null.
pub uninterp spec fn batch_null_free(b: ColumnBatch) -> bool;

/// The field names of a batch's schema, in order.
pub uninterp spec fn batch_field_names(b: ColumnBatch) -> Seq<Seq<char>>;

/// Batches that can be laid end to end: none holds a null, and each has
/// the first one's columns, column for column of the same `ColumnKind`.
pub open spec fn batches_agree(batches: Seq<ColumnBatch>) -> bool {
    &&& batches.len() > 0
    &&& forall|k: int|
        0 <= k < batches.len() ==> #[trigger] batch_null_free(batches[k]) && batch_columns(
            batches[k],
        ).len() == batch_columns(batches[0]).len()
    &&& forall|k: int, j: int|
        0 <= k < batches.len() && 0 <= j < batch_columns(batches[0]).len() ==> (#[trigger] batch_columns(
            batches[k],
        )[j]).kind() == batch_columns(batches[0])[j].kind() && batch_columns(batches[0])[j].kind() is Some
}

/// Relies on `RecordBatch::try_new` over one non-nullable field and one
/// null-free array per column (`PrimitiveArray::from` a `Vec`, or `::new`
/// over the bit patterns' buffer): the batch holds exactly those values,
/// and `try_new` refuses only an empty column list or unequal lengths.
/// The schema's fields carry the columns' names, in order.
#[verifier::external_body]
pub(crate) fn record_batch_from(columns: Vec<NamedColumn>) -> (r: Result<ColumnBatch, ArrowError>)
    ensures
        r matches Ok(b) ==> batch_columns(b) == columns@.map_values(|c: NamedColumn| c.data.values()),
        r matches Ok(b) ==> batch_null_free(b),
        r matches Ok(b) ==> batch_field_names(b) == columns@.map_values(|c: NamedColumn| c.name@),
        columns@.len() > 0 && (forall|i: int|
            0 <= i < columns@.len() ==> (#[trigger] columns@[i]).data.values().len()
                == columns@[0].data.values().len()) ==> r is Ok,
{
    let (mut fields, mut arrays) = (Vec::new(), Vec::<ArrayRef>::new());
    for c in columns {
        let a: ArrayRef = match c.data {
            ColumnData::UInt64(v) => Arc::new(UInt64Array::from(v)),
            ColumnData::UInt32(v) => Arc::new(UInt32Array::from(v)),
            ColumnData::Float64(v) => Arc::new(Float64Array::new(Buffer::from_vec(v).into(), None)),
            ColumnData::UInt8(v) => Arc::new(UInt8Array::from(v)),
        };
        fields.push(Field::new(c.name, a.data_type().clone(), false));
        arrays.push(a);
    }
    RecordBatch::try_new(Arc::new(Schema::new(fields)), arrays).map(|batch| ColumnBatch { batch })
}

/// Relies on `RecordBatch::columns`, `Array::data_type` and
/// `AsArray::as_primitive`: column `i` with its values buffer, when the
/// batch has such a column and its type is one of `ColumnKind`'s.
#[verifier::external_body]
pub(crate) fn batch_column(b: &ColumnBatch, i: usize) -> (r: Option<ColumnData>)
    ensures
        r matches Some(c) ==> i < batch_columns(*b).len() && c.values() == batch_columns(*b)[i as int],
        r is None ==> i >= batch_columns(*b).len() || batch_columns(*b)[i as int].kind() is None,
{
    let a = b.batch.columns().get(i)?;
    match a.data_type() {
        DataType::UInt64 => Some(ColumnData::UInt64(a.as_primitive::<UInt64Type>().values().to_vec())),
        DataType::UInt32 => Some(ColumnData::UInt32(a.as_primitive::<UInt32Type>().values().to_vec())),
        DataType::Float64 => Some(ColumnData::Float64(a.as_primitive::<Float64Type>().values().inner().typed_data::<u64>().to_vec())),
        DataType::UInt8 => Some(ColumnData::UInt8(a.as_primitive::<UInt8Type>().values().to_vec())),
        _ => None,
    }
}

/// Relies on `RecordBatch::num_rows`, read from the batch without touching
/// its values: every column of a batch has that many values.
#[verifier::external_body]
pub(crate) fn batch_num_rows(b: &ColumnBatch) -> (r: usize)
    ensures
        forall|i: int| 0 <= i < batch_columns(*b).len() ==> (#[trigger] batch_columns(*b)[i]).len() == r,
{
    b.batch.num_rows()
}

/// Relies on `RecordBatch::num_columns`: the number of columns.
#[verifier::external_body]
pub(crate) fn batch_num_columns(b: &ColumnBatch) -> (r: usize)
    ensures
        r == batch_columns(*b).len(),
{
    b.batch.num_columns()
}

/// Relies on `RecordBatch::get_array_memory_size`. The size depends on how
/// the buffers were allocated, so nothing is stated of it.
#[verifier::external_body]
pub(crate) fn batch_memory_size(b: &ColumnBatch) -> (r: usize) {
    b.batch.get_array_memory_size()
}

/// Relies on `arrow::compute::concat_batches` under the first batch's
/// schema: each column of the result holds the values of that column of
/// every batch, in batch order, under the first batch's field names. It
/// reads column `j` of every batch for each `j` of the first batch's
/// schema, so all batches have that many columns. It fails only when the
/// arrays of one column differ in data type (`concat`), or when a
/// non-nullable field of the result would hold nulls (`RecordBatch::try_new`);
/// null-free inputs give a null-free result.
#[verifier::external_body]
pub(crate) fn concat_record_batches(batches: &Vec<ColumnBatch>) -> (r: Result<ColumnBatch, ArrowError>)
    requires
        batches@.len() > 0,
        forall|k: int|
            0 <= k < batches@.len() ==> batch_columns(#[trigger] batches@[k]).len() == batch_columns(
                batches@[0],
            ).len(),
    ensures
        r matches Ok(b) ==> batch_columns(b) == concat_columns(
            batches@.map_values(|x: ColumnBatch| batch_columns(x)),
        ),
        r matches Ok(b) ==> batch_field_names(b) == batch_field_names(batches@[0]),
        batches_agree(batches@) ==> r is Ok,
        r matches Ok(b) ==> (batches_agree(batches@) ==> batch_null_free(b)),
{
    let schema = batches[0].batch.schema();
    arrow::compute::concat_batches(&schema, batches.iter().map(|b| &b.batch)).map(|batch| ColumnBatch { batch })
}

/// Relies on the derived `Clone` of `RecordBatch`, which copies the
/// handles on the same schema and column arrays.
#[verifier::external_body]
pub(crate) fn copy_batch(b: &ColumnBatch) -> (r: ColumnBatch)
    ensures
        batch_columns(r) == batch_columns(*b),
        batch_null_free(r) == batch_null_free(*b),
        batch_field_names(r) == batch_field_names(*b),
{
    ColumnBatch { batch: b.batch.clone() }
}

impl Clone for ColumnBatch {
    /// Another handle on the same columns.
    fn clone(&self) -> (r: Self)
        ensures
            batch_columns(r) == batch_columns(*self),
            batch_null_free(r) == batch_null_free(*self),
            batch_field_names(r) == batch_field_names(*self),
    {
        copy_batch(self)
    }
}

} // verus!
