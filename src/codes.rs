//! The fixed integer code of each enumeration variant, used wherever an
//! enumeration crosses into the columnar format.
use vstd::prelude::*;

use crate::errors::PersistenceError;
use crate::order::{OrderStatus, PaymentMethod};
use vstd::std_specs::convert::{IntoSpec, TryFromSpec};
use vstd::string::StringExecFns;

verus! {

/// An integer that names no variant of the enumeration it was read for.
#[derive(Clone, Copy, Debug, PartialEq, Eq, Structural)]
pub struct InvalidEnumCode {
    /// Which enumeration the code was read for.
    pub enum_name: EnumName,
    /// The code that was read.
    pub value: u8,
}

/// The enumerations that have integer codes.
#[derive(Clone, Copy, Debug, PartialEq, Eq, Structural)]
pub enum EnumName {
    OrderStatus,
    PaymentMethod,
}

/// Code of an order status: its declaration position.
pub open spec fn status_code(s: OrderStatus) -> u8 {
    match s {
        OrderStatus::Pending => 0,
        OrderStatus::Processing => 1,
        OrderStatus::Shipped => 2,
        OrderStatus::Delivered => 3,
    }
}

/// The order status with code `c`, if there is one.
pub open spec fn status_of_code(c: u8) -> Option<OrderStatus> {
    if c == 0 {
        Some(OrderStatus::Pending)
    } else if c == 1 {
        Some(OrderStatus::Processing)
    } else if c == 2 {
        Some(OrderStatus::Shipped)
    } else if c == 3 {
        Some(OrderStatus::Delivered)
    } else {
        None
    }
}

/// Code of a payment method: its declaration position.
pub open spec fn payment_code(p: PaymentMethod) -> u8 {
    match p {
        PaymentMethod::CreditCard => 0,
        PaymentMethod::PayPal => 1,
        PaymentMethod::BankTransfer => 2,
    }
}

/// The payment method with code `c`, if there is one.
pub open spec fn payment_of_code(c: u8) -> Option<PaymentMethod> {
    if c == 0 {
        Some(PaymentMethod::CreditCard)
    } else if c == 1 {
        Some(PaymentMethod::PayPal)
    } else if c == 2 {
        Some(PaymentMethod::BankTransfer)
    } else {
        None
    }
}

/// Each variant's code reads back as that variant; a code past the last
/// variant reads back as no variant at all.
pub proof fn lemma_codes_round_trip(s: OrderStatus, p: PaymentMethod, c: u8)
    ensures
        status_of_code(status_code(s)) == Some(s),
        payment_of_code(payment_code(p)) == Some(p),
        status_of_code(c) is None <==> c >= 4,
        payment_of_code(c) is None <==> c >= 3,
        status_of_code(c) matches Some(t) ==> status_code(t) == c,
        payment_of_code(c) matches Some(q) ==> payment_code(q) == c,
{
}

impl From<OrderStatus> for u8 {
    fn from(status: OrderStatus) -> u8 {
        match status {
            OrderStatus::Pending => 0,
            OrderStatus::Processing => 1,
            OrderStatus::Shipped => 2,
            OrderStatus::Delivered => 3,
        }
    }
}

impl vstd::std_specs::convert::FromSpecImpl<OrderStatus> for u8 {
    open spec fn obeys_from_spec() -> bool {
        true
    }

    open spec fn from_spec(v: OrderStatus) -> u8 {
        status_code(v)
    }
}

impl From<PaymentMethod> for u8 {
    fn from(method: PaymentMethod) -> u8 {
        match method {
            PaymentMethod::CreditCard => 0,
            PaymentMethod::PayPal => 1,
            PaymentMethod::BankTransfer => 2,
        }
    }
}

impl vstd::std_specs::convert::FromSpecImpl<PaymentMethod> for u8 {
    open spec fn obeys_from_spec() -> bool {
        true
    }

    open spec fn from_spec(v: PaymentMethod) -> u8 {
        payment_code(v)
    }
}

impl TryFrom<u8> for OrderStatus {
    type Error = InvalidEnumCode;

    fn try_from(value: u8) -> Result<OrderStatus, InvalidEnumCode> {
        match value {
            0 => Ok(OrderStatus::Pending),
            1 => Ok(OrderStatus::Processing),
            2 => Ok(OrderStatus::Shipped),
            3 => Ok(OrderStatus::Delivered),
            _ => Err(InvalidEnumCode { enum_name: EnumName::OrderStatus, value }),
        }
    }
}

impl vstd::std_specs::convert::TryFromSpecImpl<u8> for OrderStatus {
    open spec fn obeys_try_from_spec() -> bool {
        true
    }

    open spec fn try_from_spec(v: u8) -> Result<OrderStatus, InvalidEnumCode> {
        match status_of_code(v) {
            Some(s) => Ok(s),
            None => Err(InvalidEnumCode { enum_name: EnumName::OrderStatus, value: v }),
        }
    }
}

impl TryFrom<u8> for PaymentMethod {
    type Error = InvalidEnumCode;

    fn try_from(value: u8) -> Result<PaymentMethod, InvalidEnumCode> {
        match value {
            0 => Ok(PaymentMethod::CreditCard),
            1 => Ok(PaymentMethod::PayPal),
            2 => Ok(PaymentMethod::BankTransfer),
            _ => Err(InvalidEnumCode { enum_name: EnumName::PaymentMethod, value }),
        }
    }
}

impl vstd::std_specs::convert::TryFromSpecImpl<u8> for PaymentMethod {
    open spec fn obeys_try_from_spec() -> bool {
        true
    }

    open spec fn try_from_spec(v: u8) -> Result<PaymentMethod, InvalidEnumCode> {
        match payment_of_code(v) {
            Some(p) => Ok(p),
            None => Err(InvalidEnumCode { enum_name: EnumName::PaymentMethod, value: v }),
        }
    }
}

/// The integer code of an enumeration value.
pub fn enum_to_u8<T>(value: T) -> (r: u8)
    where
        T: Copy + Into<u8>,
    ensures
        <T as IntoSpec<u8>>::obeys_into_spec() ==> r == <T as IntoSpec<u8>>::into_spec(value),
{
    value.into()
}

/// The enumeration value with integer code `value`, or `TypeConversion`
/// when no variant has that code.
pub fn u8_to_enum<T>(value: u8) -> (r: Result<T, PersistenceError>)
    where
        T: TryFrom<u8, Error = InvalidEnumCode>,
    ensures
        <T as TryFromSpec<u8>>::obeys_try_from_spec() ==> match <T as TryFromSpec<
            u8,
        >>::try_from_spec(value) {
            Ok(t) => r matches Ok(u) && u == t,
            Err(e) => r matches Err(PersistenceError::TypeConversion { message }) && message@
                == "Failed to convert u8 to enum: "@ + invalid_code_text(
                enum_name_text(e.enum_name),
                e.value,
            ),
        },
{
    match T::try_from(value) {
        Ok(t) => Ok(t),
        Err(e) => Err(
            PersistenceError::TypeConversion {
                message: code_message("Failed to convert u8 to enum: ", enum_name_str(e.enum_name), e.value),
            },
        ),
    }
}

/// The name of an enumeration, as error texts write it.
pub open spec fn enum_name_text(n: EnumName) -> Seq<char> {
    match n {
        EnumName::OrderStatus => "OrderStatus"@,
        EnumName::PaymentMethod => "PaymentMethod"@,
    }
}

/// The decimal digit `d` as a character.
pub open spec fn digit_char(d: nat) -> char {
    if d == 0 {
        '0'
    } else if d == 1 {
        '1'
    } else if d == 2 {
        '2'
    } else if d == 3 {
        '3'
    } else if d == 4 {
        '4'
    } else if d == 5 {
        '5'
    } else if d == 6 {
        '6'
    } else if d == 7 {
        '7'
    } else if d == 8 {
        '8'
    } else {
        '9'
    }
}

/// `v` written in decimal, without leading zeros.
pub open spec fn decimal(v: nat) -> Seq<char>
    decreases v,
{
    if v < 10 {
        seq![digit_char(v)]
    } else {
        decimal(v / 10).push(digit_char(v % 10))
    }
}

/// The text of the `TypeConversion` error for code `value` of the
/// enumeration called `name`.
pub open spec fn invalid_code_text(name: Seq<char>, value: u8) -> Seq<char> {
    "Invalid "@ + name + " value: "@ + decimal(value as nat)
}

/// The name of an enumeration, as error texts write it.
pub(crate) fn enum_name_str(n: EnumName) -> (r: &'static str)
    ensures
        r@ == enum_name_text(n),
{
    match n {
        EnumName::OrderStatus => "OrderStatus",
        EnumName::PaymentMethod => "PaymentMethod",
    }
}

/// The decimal digit `d` as a one-character string.
fn digit_str(d: u64) -> (r: &'static str)
    requires
        d < 10,
    ensures
        r@ == seq![digit_char(d as nat)],
{
    proof {
        reveal_strlit("0");
        reveal_strlit("1");
        reveal_strlit("2");
        reveal_strlit("3");
        reveal_strlit("4");
        reveal_strlit("5");
        reveal_strlit("6");
        reveal_strlit("7");
        reveal_strlit("8");
        reveal_strlit("9");
    }
    if d == 0 {
        "0"
    } else     if d == 1 {
        "1"
    } else     if d == 2 {
        "2"
    } else     if d == 3 {
        "3"
    } else     if d == 4 {
        "4"
    } else     if d == 5 {
        "5"
    } else     if d == 6 {
        "6"
    } else     if d == 7 {
        "7"
    } else     if d == 8 {
        "8"
    } else {
        "9"
    }
}

/// Appends `v` written in decimal to `s`.
pub(crate) fn append_decimal(s: &mut String, v: u64)
    ensures
        final(s)@ == old(s)@ + decimal(v as nat),
    decreases v,
{
    if v >= 10 {
        append_decimal(s, v / 10);
    }
    s.append(digit_str(v % 10));
    assert(s@ =~= old(s)@ + decimal(v as nat));
}

/// `prefix` followed by the text of the `TypeConversion` error for code
/// `value` of the enumeration called `name`.
pub(crate) fn code_message(prefix: &str, name: &str, value: u8) -> (r: String)
    ensures
        r@ == prefix@ + invalid_code_text(name@, value),
{
    let mut s = <String as StringExecFns>::from_str(prefix);
    s.append("Invalid ");
    s.append(name);
    s.append(" value: ");
    append_decimal(&mut s, value as u64);
    assert(s@ =~= prefix@ + invalid_code_text(name@, value));
    s
}

} // verus!
