//! Conversion between a column model and a columnar batch.
use vstd::prelude::*;

use crate::batch::{
    batch_column, batch_columns, batch_field_names, batch_null_free, concat_columns,
    record_batch_from, ColumnBatch, ColumnData,
    ColumnKind, ColumnValues, NamedColumn,
};
use crate::codes::{
    code_message, enum_name_str, enum_to_u8, lemma_codes_round_trip, payment_code, payment_of_code,
    status_code, status_of_code,
};
use crate::errors::PersistenceError;
use crate::order::{F64Bits, Order, OrderStatus, PaymentMethod};
use crate::soa::{OrderSoA, SoaError};

verus! {

/// The schema of a column model: its field names and column types, in
/// field order.
pub trait ArrowSchemaGen {
    /// The field names.
    spec fn field_names() -> Seq<Seq<char>>;

    /// The column type of each field.
    spec fn field_kinds() -> Seq<ColumnKind>;

    fn arrow_field_names() -> (r: Vec<&'static str>)
        ensures
            r@.map_values(|s: &'static str| s@) == Self::field_names(),
    ;

    fn arrow_field_types() -> (r: Vec<ColumnKind>)
        ensures
            r@ == Self::field_kinds(),
    ;

    /// A record shape has at least one field.
    proof fn lemma_has_fields()
        ensures
            Self::field_kinds().len() > 0,
    ;
}

/// A column model that can be written to and read back from a batch.
pub trait ToArrow: ArrowSchemaGen + Sized {
    /// The columns this value is written as.
    spec fn arrow_columns(&self) -> Seq<ColumnValues>;

    /// Whether this value can be written.
    spec fn encodable(&self) -> bool;

    /// Whether writing a value that can be written always succeeds.
    spec fn encoding_never_fails() -> bool;

    /// Whether a batch with these columns reads back as a value.
    spec fn decodable(cols: Seq<ColumnValues>) -> bool;

    /// Whether a batch with these columns reads back as `v`.
    spec fn decodes_to(cols: Seq<ColumnValues>, v: Self) -> bool;

    /// The batch holding this value's columns.
    fn to_record_batch(&self) -> (r: Result<ColumnBatch, PersistenceError>)
        requires
            self.encodable(),
        ensures
            Self::encoding_never_fails() ==> r is Ok,
            r matches Ok(b) ==> batch_columns(b) == self.arrow_columns(),
            r matches Ok(b) ==> batch_null_free(b),
            r matches Ok(b) ==> batch_field_names(b) == Self::field_names(),
            self.arrow_columns().len() == Self::field_kinds().len(),
            forall|j: int|
                0 <= j < Self::field_kinds().len() ==> (#[trigger] self.arrow_columns()[j]).kind()
                    == Some(Self::field_kinds()[j]),
    ;

    /// The value that `batch` holds.
    fn from_record_batch(batch: &ColumnBatch) -> (r: Result<Self, PersistenceError>)
        ensures
            r is Ok <==> Self::decodable(batch_columns(*batch)),
            r matches Ok(v) ==> Self::decodes_to(batch_columns(*batch), v),
    ;
}

/// The column types of an order batch, in field order.
pub open spec fn order_kinds() -> Seq<ColumnKind> {
    seq![
        ColumnKind::UInt64,
        ColumnKind::UInt64,
        ColumnKind::UInt64,
        ColumnKind::UInt32,
        ColumnKind::Float64,
        ColumnKind::Float64,
        ColumnKind::UInt8,
        ColumnKind::UInt8,
        ColumnKind::UInt64,
        ColumnKind::UInt64,
    ]
}

/// The columns that rows `rows` are written as: one per field, in field
/// order; floating-point fields as bit patterns, enumerations as codes.
pub open spec fn encode_orders(rows: Seq<Order>) -> Seq<ColumnValues> {
    seq![
        ColumnValues::UInt64(rows.map_values(|o: Order| o.order_id)),
        ColumnValues::UInt64(rows.map_values(|o: Order| o.customer_id)),
        ColumnValues::UInt64(rows.map_values(|o: Order| o.product_id)),
        ColumnValues::UInt32(rows.map_values(|o: Order| o.quantity)),
        ColumnValues::Float64(rows.map_values(|o: Order| o.unit_price.bits)),
        ColumnValues::Float64(rows.map_values(|o: Order| o.total_amount.bits)),
        ColumnValues::UInt8(rows.map_values(|o: Order| status_code(o.status))),
        ColumnValues::UInt8(rows.map_values(|o: Order| payment_code(o.payment_method))),
        ColumnValues::UInt64(rows.map_values(|o: Order| o.order_timestamp)),
        ColumnValues::UInt64(rows.map_values(|o: Order| o.shipping_address_hash)),
    ]
}

/// The values of a `UInt64` column (none for another type).
pub open spec fn u64s(c: ColumnValues) -> Seq<u64> {
    match c {
        ColumnValues::UInt64(s) => s,
        _ => Seq::empty(),
    }
}

/// The values of a `UInt32` column (none for another type).
pub open spec fn u32s(c: ColumnValues) -> Seq<u32> {
    match c {
        ColumnValues::UInt32(s) => s,
        _ => Seq::empty(),
    }
}

/// The bit patterns of a `Float64` column (none for another type).
pub open spec fn f64_bits(c: ColumnValues) -> Seq<u64> {
    match c {
        ColumnValues::Float64(s) => s,
        _ => Seq::empty(),
    }
}

/// The values of a `UInt8` column (none for another type).
pub open spec fn u8s(c: ColumnValues) -> Seq<u8> {
    match c {
        ColumnValues::UInt8(s) => s,
        _ => Seq::empty(),
    }
}

/// The first ten columns exist and have the order fields' types.
pub open spec fn order_columns_present(cols: Seq<ColumnValues>) -> bool {
    &&& cols.len() >= 10
    &&& forall|j: int| 0 <= j < 10 ==> (#[trigger] cols[j]).kind() == Some(order_kinds()[j])
}

/// Column `j` exists and has the type of the `j`-th order field.
pub open spec fn order_column_ok(cols: Seq<ColumnValues>, j: int) -> bool {
    j < cols.len() && cols[j].kind() == Some(order_kinds()[j])
}

/// The first order field whose column is missing or mistyped (10 when
/// there is none).
pub open spec fn first_missing_order_column(cols: Seq<ColumnValues>) -> int {
    if !order_column_ok(cols, 0) {
        0
    } else     if !order_column_ok(cols, 1) {
        1
    } else     if !order_column_ok(cols, 2) {
        2
    } else     if !order_column_ok(cols, 3) {
        3
    } else     if !order_column_ok(cols, 4) {
        4
    } else     if !order_column_ok(cols, 5) {
        5
    } else     if !order_column_ok(cols, 6) {
        6
    } else     if !order_column_ok(cols, 7) {
        7
    } else     if !order_column_ok(cols, 8) {
        8
    } else     if !order_column_ok(cols, 9) {
        9
    } else {
        10
    }
}

/// Every status code and every payment code names a variant.
pub open spec fn order_codes_valid(cols: Seq<ColumnValues>) -> bool {
    &&& forall|i: int| 0 <= i < u8s(cols[6]).len() ==> (#[trigger] u8s(cols[6])[i]) < 4
    &&& forall|i: int| 0 <= i < u8s(cols[7]).len() ==> (#[trigger] u8s(cols[7])[i]) < 3
}

/// The first ten columns all have the first one's length.
pub open spec fn order_lengths_agree(cols: Seq<ColumnValues>) -> bool {
    forall|j: int| 0 <= j < 10 ==> (#[trigger] cols[j]).len() == cols[0].len()
}

/// The rows that the first ten columns of a batch read back as.
pub open spec fn decode_orders(cols: Seq<ColumnValues>) -> Seq<Order> {
    Seq::new(
        cols[0].len(),
        |i: int|
            Order {
                order_id: u64s(cols[0])[i],
                customer_id: u64s(cols[1])[i],
                product_id: u64s(cols[2])[i],
                quantity: u32s(cols[3])[i],
                unit_price: F64Bits { bits: f64_bits(cols[4])[i] },
                total_amount: F64Bits { bits: f64_bits(cols[5])[i] },
                status: status_of_code(u8s(cols[6])[i]).unwrap(),
                payment_method: payment_of_code(u8s(cols[7])[i]).unwrap(),
                order_timestamp: u64s(cols[8])[i],
                shipping_address_hash: u64s(cols[9])[i],
            },
    )
}

/// A copy of `s`.
fn copy_values<T: Copy>(s: &[T]) -> (r: Vec<T>)
    ensures
        r@ == s@,
{
    let mut out: Vec<T> = Vec::with_capacity(s.len());
    let mut i: usize = 0;
    while i < s.len()
        invariant
            i <= s@.len(),
            out@ == s@.subrange(0, i as int),
        decreases s@.len() - i,
    {
        out.push(s[i]);
        i += 1;
        assert(out@ =~= s@.subrange(0, i as int));
    }
    assert(s@.subrange(0, s@.len() as int) =~= s@);
    out
}

/// The bit patterns of `s`.
fn bits_of(s: &[F64Bits]) -> (r: Vec<u64>)
    ensures
        r@ == s@.map_values(|f: F64Bits| f.bits),
{
    let mut out: Vec<u64> = Vec::with_capacity(s.len());
    let mut i: usize = 0;
    while i < s.len()
        invariant
            i <= s@.len(),
            out@ == s@.subrange(0, i as int).map_values(|f: F64Bits| f.bits),
        decreases s@.len() - i,
    {
        out.push(s[i].bits);
        i += 1;
        assert(out@ =~= s@.subrange(0, i as int).map_values(|f: F64Bits| f.bits));
    }
    assert(s@.subrange(0, s@.len() as int) =~= s@);
    out
}

/// The values with bit patterns `s`.
fn from_bits(s: &Vec<u64>) -> (r: Vec<F64Bits>)
    ensures
        r@ == s@.map_values(|b: u64| F64Bits { bits: b }),
{
    let mut out: Vec<F64Bits> = Vec::with_capacity(s.len());
    let mut i: usize = 0;
    while i < s.len()
        invariant
            i <= s@.len(),
            out@ == s@.subrange(0, i as int).map_values(|b: u64| F64Bits { bits: b }),
        decreases s@.len() - i,
    {
        out.push(F64Bits { bits: s[i] });
        i += 1;
        assert(out@ =~= s@.subrange(0, i as int).map_values(|b: u64| F64Bits { bits: b }));
    }
    assert(s@.subrange(0, s@.len() as int) =~= s@);
    out
}

/// The codes of the statuses `s`.
fn status_codes(s: &[OrderStatus]) -> (r: Vec<u8>)
    ensures
        r@ == s@.map_values(|x: OrderStatus| status_code(x)),
{
    let mut out: Vec<u8> = Vec::with_capacity(s.len());
    let mut i: usize = 0;
    while i < s.len()
        invariant
            i <= s@.len(),
            out@ == s@.subrange(0, i as int).map_values(|x: OrderStatus| status_code(x)),
        decreases s@.len() - i,
    {
        out.push(enum_to_u8(s[i]));
        i += 1;
        assert(out@ =~= s@.subrange(0, i as int).map_values(|x: OrderStatus| status_code(x)));
    }
    assert(s@.subrange(0, s@.len() as int) =~= s@);
    out
}

/// The codes of the payment methods `s`.
fn payment_codes(s: &[PaymentMethod]) -> (r: Vec<u8>)
    ensures
        r@ == s@.map_values(|x: PaymentMethod| payment_code(x)),
{
    let mut out: Vec<u8> = Vec::with_capacity(s.len());
    let mut i: usize = 0;
    while i < s.len()
        invariant
            i <= s@.len(),
            out@ == s@.subrange(0, i as int).map_values(|x: PaymentMethod| payment_code(x)),
        decreases s@.len() - i,
    {
        out.push(enum_to_u8(s[i]));
        i += 1;
        assert(out@ =~= s@.subrange(0, i as int).map_values(|x: PaymentMethod| payment_code(x)));
    }
    assert(s@.subrange(0, s@.len() as int) =~= s@);
    out
}

/// The statuses with codes `c`, or `TypeConversion` at the first code
/// that names none.
fn statuses_from_codes(c: &Vec<u8>) -> (r: Result<Vec<OrderStatus>, PersistenceError>)
    ensures
        (forall|i: int| 0 <= i < c@.len() ==> (#[trigger] c@[i]) < 4) ==> (r matches Ok(v) && v@
            == c@.map_values(|x: u8| status_of_code(x).unwrap())),
        !(forall|i: int| 0 <= i < c@.len() ==> (#[trigger] c@[i]) < 4) ==> r matches Err(
            PersistenceError::TypeConversion { .. },
        ),
{
    let mut out: Vec<OrderStatus> = Vec::with_capacity(c.len());
    let mut i: usize = 0;
    while i < c.len()
        invariant
            i <= c@.len(),
            forall|k: int| 0 <= k < i ==> (#[trigger] c@[k]) < 4,
            out@ == c@.subrange(0, i as int).map_values(|x: u8| status_of_code(x).unwrap()),
        decreases c@.len() - i,
    {
        match OrderStatus::try_from(c[i]) {
            Ok(s) => out.push(s),
            Err(e) => {
                return Err(
                    PersistenceError::TypeConversion {
                        message: code_message("", enum_name_str(e.enum_name), e.value),
                    },
                );
            },
        }
        i += 1;
        assert(out@ =~= c@.subrange(0, i as int).map_values(|x: u8| status_of_code(x).unwrap()));
    }
    assert(c@.subrange(0, c@.len() as int) =~= c@);
    Ok(out)
}

/// The payment methods with codes `c`, or `TypeConversion` at the first
/// code that names none.
fn payments_from_codes(c: &Vec<u8>) -> (r: Result<Vec<PaymentMethod>, PersistenceError>)
    ensures
        (forall|i: int| 0 <= i < c@.len() ==> (#[trigger] c@[i]) < 3) ==> (r matches Ok(v) && v@
            == c@.map_values(|x: u8| payment_of_code(x).unwrap())),
        !(forall|i: int| 0 <= i < c@.len() ==> (#[trigger] c@[i]) < 3) ==> r matches Err(
            PersistenceError::TypeConversion { .. },
        ),
{
    let mut out: Vec<PaymentMethod> = Vec::with_capacity(c.len());
    let mut i: usize = 0;
    while i < c.len()
        invariant
            i <= c@.len(),
            forall|k: int| 0 <= k < i ==> (#[trigger] c@[k]) < 3,
            out@ == c@.subrange(0, i as int).map_values(|x: u8| payment_of_code(x).unwrap()),
        decreases c@.len() - i,
    {
        match PaymentMethod::try_from(c[i]) {
            Ok(p) => out.push(p),
            Err(e) => {
                return Err(
                    PersistenceError::TypeConversion {
                        message: code_message("", enum_name_str(e.enum_name), e.value),
                    },
                );
            },
        }
        i += 1;
        assert(out@ =~= c@.subrange(0, i as int).map_values(|x: u8| payment_of_code(x).unwrap()));
    }
    assert(c@.subrange(0, c@.len() as int) =~= c@);
    Ok(out)
}

/// Column `j` of `batch` when it has type `UInt64`, else `ColumnNotFound`
/// naming `name`.
fn u64_column(batch: &ColumnBatch, j: usize, name: &str) -> (r: Result<Vec<u64>, PersistenceError>)
    ensures
        (j < batch_columns(*batch).len() && batch_columns(*batch)[j as int].kind() == Some(
            ColumnKind::UInt64,
        )) ==> (r matches Ok(v) && v@ == u64s(batch_columns(*batch)[j as int])),
        !(j < batch_columns(*batch).len() && batch_columns(*batch)[j as int].kind() == Some(
            ColumnKind::UInt64,
        )) ==> (r matches Err(PersistenceError::ColumnNotFound { column_name }) && column_name@
            == name@),
{
    match batch_column(batch, j) {
        Some(ColumnData::UInt64(v)) => Ok(v),
        _ => Err(PersistenceError::ColumnNotFound { column_name: name.to_owned() }),
    }
}

/// Column `j` of `batch` when it has type `UInt32`, else `ColumnNotFound`
/// naming `name`.
fn u32_column(batch: &ColumnBatch, j: usize, name: &str) -> (r: Result<Vec<u32>, PersistenceError>)
    ensures
        (j < batch_columns(*batch).len() && batch_columns(*batch)[j as int].kind() == Some(
            ColumnKind::UInt32,
        )) ==> (r matches Ok(v) && v@ == u32s(batch_columns(*batch)[j as int])),
        !(j < batch_columns(*batch).len() && batch_columns(*batch)[j as int].kind() == Some(
            ColumnKind::UInt32,
        )) ==> (r matches Err(PersistenceError::ColumnNotFound { column_name }) && column_name@
            == name@),
{
    match batch_column(batch, j) {
        Some(ColumnData::UInt32(v)) => Ok(v),
        _ => Err(PersistenceError::ColumnNotFound { column_name: name.to_owned() }),
    }
}

/// Column `j` of `batch` when it has type `Float64`, else `ColumnNotFound`
/// naming `name`.
fn f64_bits_column(batch: &ColumnBatch, j: usize, name: &str) -> (r: Result<Vec<u64>, PersistenceError>)
    ensures
        (j < batch_columns(*batch).len() && batch_columns(*batch)[j as int].kind() == Some(
            ColumnKind::Float64,
        )) ==> (r matches Ok(v) && v@ == f64_bits(batch_columns(*batch)[j as int])),
        !(j < batch_columns(*batch).len() && batch_columns(*batch)[j as int].kind() == Some(
            ColumnKind::Float64,
        )) ==> (r matches Err(PersistenceError::ColumnNotFound { column_name }) && column_name@
            == name@),
{
    match batch_column(batch, j) {
        Some(ColumnData::Float64(v)) => Ok(v),
        _ => Err(PersistenceError::ColumnNotFound { column_name: name.to_owned() }),
    }
}

/// Column `j` of `batch` when it has type `UInt8`, else `ColumnNotFound`
/// naming `name`.
fn u8_column(batch: &ColumnBatch, j: usize, name: &str) -> (r: Result<Vec<u8>, PersistenceError>)
    ensures
        (j < batch_columns(*batch).len() && batch_columns(*batch)[j as int].kind() == Some(
            ColumnKind::UInt8,
        )) ==> (r matches Ok(v) && v@ == u8s(batch_columns(*batch)[j as int])),
        !(j < batch_columns(*batch).len() && batch_columns(*batch)[j as int].kind() == Some(
            ColumnKind::UInt8,
        )) ==> (r matches Err(PersistenceError::ColumnNotFound { column_name }) && column_name@
            == name@),
{
    match batch_column(batch, j) {
        Some(ColumnData::UInt8(v)) => Ok(v),
        _ => Err(PersistenceError::ColumnNotFound { column_name: name.to_owned() }),
    }
}

impl ArrowSchemaGen for OrderSoA {
    open spec fn field_names() -> Seq<Seq<char>> {
        seq![
            "order_id"@,
            "customer_id"@,
            "product_id"@,
            "quantity"@,
            "unit_price"@,
            "total_amount"@,
            "status"@,
            "payment_method"@,
            "order_timestamp"@,
            "shipping_address_hash"@,
        ]
    }

    open spec fn field_kinds() -> Seq<ColumnKind> {
        order_kinds()
    }

    fn arrow_field_names() -> (r: Vec<&'static str>) {
        let r = vec![
            "order_id",
            "customer_id",
            "product_id",
            "quantity",
            "unit_price",
            "total_amount",
            "status",
            "payment_method",
            "order_timestamp",
            "shipping_address_hash",
        ];
        assert(r@.map_values(|s: &'static str| s@) =~= Self::field_names());
        r
    }

    proof fn lemma_has_fields() {
    }

    fn arrow_field_types() -> (r: Vec<ColumnKind>) {
        let r = vec![
            ColumnKind::UInt64,
            ColumnKind::UInt64,
            ColumnKind::UInt64,
            ColumnKind::UInt32,
            ColumnKind::Float64,
            ColumnKind::Float64,
            ColumnKind::UInt8,
            ColumnKind::UInt8,
            ColumnKind::UInt64,
            ColumnKind::UInt64,
        ];
        assert(r@ =~= order_kinds());
        r
    }
}

impl ToArrow for OrderSoA {
    open spec fn arrow_columns(&self) -> Seq<ColumnValues> {
        encode_orders(self.rows())
    }

    open spec fn encodable(&self) -> bool {
        self.wf()
    }

    open spec fn encoding_never_fails() -> bool {
        true
    }

    open spec fn decodable(cols: Seq<ColumnValues>) -> bool {
        &&& order_columns_present(cols)
        &&& order_codes_valid(cols)
        &&& order_lengths_agree(cols)
    }

    open spec fn decodes_to(cols: Seq<ColumnValues>, v: OrderSoA) -> bool {
        v.wf() && v.rows() == decode_orders(cols)
    }

    fn to_record_batch(&self) -> (r: Result<ColumnBatch, PersistenceError>)
        ensures
            r is Ok,
    {
        let c0 = copy_values(self.order_id_raw_array());
        let c1 = copy_values(self.customer_id_raw_array());
        let c2 = copy_values(self.product_id_raw_array());
        let c3 = copy_values(self.quantity_raw_array());
        let c4 = bits_of(self.unit_price_raw_array());
        let c5 = bits_of(self.total_amount_raw_array());
        let c6 = status_codes(self.status_raw_array());
        let c7 = payment_codes(self.payment_method_raw_array());
        let c8 = copy_values(self.order_timestamp_raw_array());
        let c9 = copy_values(self.shipping_address_hash_raw_array());
        let ghost enc = encode_orders(self.rows());
        assert(ColumnValues::UInt64(c0@) == enc[0]);
        assert(ColumnValues::UInt64(c1@) == enc[1]);
        assert(ColumnValues::UInt64(c2@) == enc[2]);
        assert(ColumnValues::UInt32(c3@) == enc[3]);
        assert(c4@ =~= self.rows().map_values(|o: Order| o.unit_price.bits));
        assert(ColumnValues::Float64(c4@) == enc[4]);
        assert(c5@ =~= self.rows().map_values(|o: Order| o.total_amount.bits));
        assert(ColumnValues::Float64(c5@) == enc[5]);
        assert(c6@ =~= self.rows().map_values(|o: Order| status_code(o.status)));
        assert(ColumnValues::UInt8(c6@) == enc[6]);
        assert(c7@ =~= self.rows().map_values(|o: Order| payment_code(o.payment_method)));
        assert(ColumnValues::UInt8(c7@) == enc[7]);
        assert(ColumnValues::UInt64(c8@) == enc[8]);
        assert(ColumnValues::UInt64(c9@) == enc[9]);
        let columns: Vec<NamedColumn> = vec![
            NamedColumn { name: "order_id", data: ColumnData::UInt64(c0) },
            NamedColumn { name: "customer_id", data: ColumnData::UInt64(c1) },
            NamedColumn { name: "product_id", data: ColumnData::UInt64(c2) },
            NamedColumn { name: "quantity", data: ColumnData::UInt32(c3) },
            NamedColumn { name: "unit_price", data: ColumnData::Float64(c4) },
            NamedColumn { name: "total_amount", data: ColumnData::Float64(c5) },
            NamedColumn { name: "status", data: ColumnData::UInt8(c6) },
            NamedColumn { name: "payment_method", data: ColumnData::UInt8(c7) },
            NamedColumn { name: "order_timestamp", data: ColumnData::UInt64(c8) },
            NamedColumn { name: "shipping_address_hash", data: ColumnData::UInt64(c9) },
        ];
        assert(columns@.map_values(|c: NamedColumn| c.data.values()) =~= enc);
        assert(columns@.map_values(|c: NamedColumn| c.name@) =~= Self::field_names());
        assert(forall|j: int| 0 <= j < 10 ==> (#[trigger] enc[j]).kind() == Some(order_kinds()[j])) by {
            assert forall|j: int| 0 <= j < 10 implies (#[trigger] enc[j]).kind() == Some(order_kinds()[j]) by {
                assert(0 <= j < 10);
            }
        }
        match record_batch_from(columns) {
            Ok(b) => Ok(b),
            Err(e) => Err(PersistenceError::ArrowError(e)),
        }
    }

    fn from_record_batch(batch: &ColumnBatch) -> (r: Result<OrderSoA, PersistenceError>)
        ensures
            !order_columns_present(batch_columns(*batch)) ==> (r matches Err(
                PersistenceError::ColumnNotFound { column_name },
            ) && column_name@ == OrderSoA::field_names()[first_missing_order_column(
                batch_columns(*batch),
            )]),
            order_columns_present(batch_columns(*batch)) && !order_codes_valid(batch_columns(*batch))
                ==> r matches Err(PersistenceError::TypeConversion { .. }),
            order_columns_present(batch_columns(*batch)) && order_codes_valid(batch_columns(*batch))
                && !order_lengths_agree(batch_columns(*batch)) ==> r matches Err(
                PersistenceError::ColumnLengthMismatch { .. },
            ),
    {
        let ghost cols = batch_columns(*batch);
        let c0 = u64_column(batch, 0, "order_id")?;
        let c1 = u64_column(batch, 1, "customer_id")?;
        let c2 = u64_column(batch, 2, "product_id")?;
        let c3 = u32_column(batch, 3, "quantity")?;
        let c4 = f64_bits_column(batch, 4, "unit_price")?;
        let c5 = f64_bits_column(batch, 5, "total_amount")?;
        let c6 = u8_column(batch, 6, "status")?;
        let c7 = u8_column(batch, 7, "payment_method")?;
        let c8 = u64_column(batch, 8, "order_timestamp")?;
        let c9 = u64_column(batch, 9, "shipping_address_hash")?;
        assert(order_columns_present(cols)) by {
            assert forall|j: int| 0 <= j < 10 implies (#[trigger] cols[j]).kind() == Some(order_kinds()[j]) by {
                assert(0 <= j < 10);
            }
        }
        let statuses = statuses_from_codes(&c6)?;
        let payments = payments_from_codes(&c7)?;
        let prices = from_bits(&c4);
        let totals = from_bits(&c5);
        match OrderSoA::from_columns(c0, c1, c2, c3, prices, totals, statuses, payments, c8, c9) {
            Ok(s) => {
                assert(s.rows() =~= decode_orders(cols));
                Ok(s)
            },
            Err(SoaError::ColumnLengthMismatch { expected, found }) => Err(
                PersistenceError::ColumnLengthMismatch { first_len: expected, other_len: found },
            ),
            Err(_) => Err(PersistenceError::Serialization("unexpected column model error".to_owned())),
        }
    }
}

/// Rows written as columns read back as the same rows: the columns are all
/// present with their types, agree in length, and hold valid codes.
pub proof fn lemma_orders_round_trip(rows: Seq<Order>)
    ensures
        OrderSoA::decodable(encode_orders(rows)),
        decode_orders(encode_orders(rows)) == rows,
{
    let cols = encode_orders(rows);
    assert(order_columns_present(cols)) by {
        assert forall|j: int| 0 <= j < 10 implies (#[trigger] cols[j]).kind() == Some(order_kinds()[j]) by {
            assert(0 <= j < 10);
        }
    }
    assert(order_lengths_agree(cols));
    assert(order_codes_valid(cols));
    assert(decode_orders(cols) =~= rows) by {
        assert forall|i: int| 0 <= i < rows.len() implies #[trigger] decode_orders(cols)[i] == rows[i] by {
            let o = rows[i];
            lemma_codes_round_trip(o.status, o.payment_method, 0);
        }
    }
}

/// The rows of several parts, one part after another.
pub open spec fn join_rows(parts: Seq<Seq<Order>>) -> Seq<Order>
    decreases parts.len(),
{
    if parts.len() == 0 {
        Seq::empty()
    } else {
        join_rows(parts.drop_last()) + parts.last()
    }
}

/// Column by column, the columns of `a` followed by those of `b` are the
/// columns of `a + b`.
proof fn lemma_encode_append(a: Seq<Order>, b: Seq<Order>)
    ensures
        Seq::new(10, |j: int| encode_orders(a)[j].append(encode_orders(b)[j])) == encode_orders(a + b),
{
    assert(a.map_values(|o: Order| o.order_id) + b.map_values(|o: Order| o.order_id) =~= (a + b).map_values(|o: Order| o.order_id));
    assert(a.map_values(|o: Order| o.customer_id) + b.map_values(|o: Order| o.customer_id) =~= (a + b).map_values(|o: Order| o.customer_id));
    assert(a.map_values(|o: Order| o.product_id) + b.map_values(|o: Order| o.product_id) =~= (a + b).map_values(|o: Order| o.product_id));
    assert(a.map_values(|o: Order| o.quantity) + b.map_values(|o: Order| o.quantity) =~= (a + b).map_values(|o: Order| o.quantity));
    assert(a.map_values(|o: Order| o.unit_price.bits) + b.map_values(|o: Order| o.unit_price.bits) =~= (a + b).map_values(|o: Order| o.unit_price.bits));
    assert(a.map_values(|o: Order| o.total_amount.bits) + b.map_values(|o: Order| o.total_amount.bits) =~= (a + b).map_values(|o: Order| o.total_amount.bits));
    assert(a.map_values(|o: Order| status_code(o.status)) + b.map_values(|o: Order| status_code(o.status)) =~= (a + b).map_values(|o: Order| status_code(o.status)));
    assert(a.map_values(|o: Order| payment_code(o.payment_method)) + b.map_values(|o: Order| payment_code(o.payment_method)) =~= (a + b).map_values(|o: Order| payment_code(o.payment_method)));
    assert(a.map_values(|o: Order| o.order_timestamp) + b.map_values(|o: Order| o.order_timestamp) =~= (a + b).map_values(|o: Order| o.order_timestamp));
    assert(a.map_values(|o: Order| o.shipping_address_hash) + b.map_values(|o: Order| o.shipping_address_hash) =~= (a + b).map_values(|o: Order| o.shipping_address_hash));
    assert(Seq::new(10, |j: int| encode_orders(a)[j].append(encode_orders(b)[j])) =~= encode_orders(a + b));
}

/// The columns of several parts laid end to end, part after part, are
/// the columns of all their rows in that order.
pub proof fn lemma_orders_concat_all(parts: Seq<Seq<Order>>)
    requires
        parts.len() > 0,
    ensures
        concat_columns(parts.map_values(|p: Seq<Order>| encode_orders(p))) == encode_orders(
            join_rows(parts),
        ),
    decreases parts.len(),
{
    let enc = parts.map_values(|p: Seq<Order>| encode_orders(p));
    if parts.len() == 1 {
        assert(join_rows(parts.drop_last()) == Seq::<Order>::empty());
        assert(join_rows(parts) =~= parts[0]);
    } else {
        let front = parts.drop_last();
        assert(enc.drop_last() =~= front.map_values(|p: Seq<Order>| encode_orders(p)));
        lemma_orders_concat_all(front);
        assert(enc.last() == encode_orders(parts.last()));
        lemma_encode_append(join_rows(front), parts.last());
        assert(concat_columns(enc) =~= Seq::new(
            10,
            |j: int| encode_orders(join_rows(front))[j].append(encode_orders(parts.last())[j]),
        ));
    }
}

} // verus!
