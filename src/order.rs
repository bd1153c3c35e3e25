//! The record shape: one order, its two closed enumerations, and the
//! bit-pattern carrier used for its two floating-point fields.
use vstd::prelude::*;

verus! {

/// Lifecycle of an order. The declaration order fixes the integer code
/// each variant is persisted as (first variant is code 0).
#[derive(Clone, Copy, Debug, PartialEq, Eq, Hash, Structural)]
pub enum OrderStatus {
    Pending,
    Processing,
    Shipped,
    Delivered,
}

/// How an order was paid. Persisted by declaration position, like `OrderStatus`.
#[derive(Clone, Copy, Debug, PartialEq, Eq, Hash, Structural)]
pub enum PaymentMethod {
    CreditCard,
    PayPal,
    BankTransfer,
}

/// A 64-bit IEEE-754 value carried by its exact bit pattern.
///
/// The store moves such values between columns and batches but never
/// computes with them, so the bit pattern is all it needs; converting to
/// and from the machine float is left to the caller.
#[derive(Clone, Copy, Debug, PartialEq, Eq, Hash, Structural)]
pub struct F64Bits {
    pub bits: u64,
}

/// One logical row: one value per field, in declaration order.
#[derive(Clone, Copy, Debug, PartialEq, Eq, Structural)]
pub struct Order {
    pub order_id: u64,
    pub customer_id: u64,
    pub product_id: u64,
    pub quantity: u32,
    pub unit_price: F64Bits,
    pub total_amount: F64Bits,
    pub status: OrderStatus,
    pub payment_method: PaymentMethod,
    pub order_timestamp: u64,
    pub shipping_address_hash: u64,
}

impl Order {
    /// The same order with its status replaced.
    pub fn with_status(self, status: OrderStatus) -> (r: Order)
        ensures
            r == (Order { status, ..self }),
    {
        let mut o = self;
        o.status = status;
        o
    }
}

} // verus!
