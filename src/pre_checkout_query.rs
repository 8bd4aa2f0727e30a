//! Pre-checkout queries of the payments flow, and what they carry.
use crate::user::User;
use vstd::prelude::*;

verus! {

/// A currency, by its three-letter ISO 4217 code.
#[derive(Copy, Clone, Debug, PartialEq, Eq, Hash, Structural)]
#[allow(clippy::upper_case_acronyms)]
pub enum Currency {
    AED,
    AFN,
    ALL,
    AMD,
    ARS,
    AUD,
    AZN,
    BAM,
    BDT,
    BGN,
    BND,
    BOB,
    BRL,
    CAD,
    CHF,
    CLP,
    CNY,
    COP,
    CRC,
    CZK,
    DKK,
    DOP,
    DZD,
    EGP,
    EUR,
    GBP,
    GEL,
    GTQ,
    HKD,
    HNL,
    HRK,
    HUF,
    IDR,
    ILS,
    INR,
    ISK,
    JMD,
    JPY,
    KES,
    KGS,
    KRW,
    KZT,
    LBP,
    LKR,
    MAD,
    MDL,
    MNT,
    MUR,
    MVR,
    MXN,
    MYR,
    MZN,
    NGN,
    NIO,
    NOK,
    NPR,
    NZD,
    PAB,
    PEN,
    PHP,
    PKR,
    PLN,
    PYG,
    QAR,
    RON,
    RSD,
    RUB,
    SAR,
    SEK,
    SGD,
    THB,
    TJS,
    TRY,
    TTD,
    TWD,
    TZS,
    UAH,
    UGX,
    USD,
    UYU,
    UZS,
    VND,
    YER,
    ZAR,
}

/// A shipping address.
#[derive(Clone, Debug, PartialEq, Eq, Hash)]
pub struct ShippingAddress {
    /// Two-letter ISO 3166-1 alpha-2 country code.
    pub country_code: String,
    /// State, if applicable.
    pub state: String,
    /// City.
    pub city: String,
    /// First line of the address.
    pub street_line1: String,
    /// Second line of the address.
    pub street_line2: String,
    /// Post code.
    pub post_code: String,
}

/// Information about an order.
#[derive(Clone, Debug, PartialEq, Eq, Hash)]
pub struct OrderInfo {
    /// User name.
    pub name: Option<String>,
    /// User's phone number.
    pub phone_number: Option<String>,
    /// User's email.
    pub email: Option<String>,
    /// User's shipping address.
    pub shipping_address: Option<ShippingAddress>,
}

/// An incoming pre-checkout query.
#[derive(Clone, Debug, PartialEq, Eq, Hash)]
#[non_exhaustive]
pub struct PreCheckoutQuery {
    /// Unique query identifier.
    pub id: String,
    /// The user who sent the query.
    pub from: User,
    /// The currency of the payment.
    pub currency: Currency,
    /// Total price in the smallest units of the currency (an integer, not a
    /// fraction): for a price of `US$ 1.45` this is `145`.
    pub total_amount: i32,
    /// Bot-specified invoice payload.
    pub invoice_payload: String,
    /// Identifier of the shipping option that the user chose.
    pub shipping_option_id: Option<String>,
    /// Order information that the user provided.
    pub order_info: Option<OrderInfo>,
}

impl PreCheckoutQuery {
    pub fn new(id: String, from: User, currency: Currency, total_amount: i32, invoice_payload: String) -> (r: Self)
        ensures
            r.id == id,
            r.from == from,
            r.currency == currency,
            r.total_amount == total_amount,
            r.invoice_payload == invoice_payload,
            r.shipping_option_id.is_none(),
            r.order_info.is_none(),
    {
        Self {
            id,
            from,
            currency,
            total_amount,
            invoice_payload,
            shipping_option_id: None,
            order_info: None,
        }
    }

    pub fn id(self, val: String) -> (r: Self)
        ensures
            r == (Self { id: val, ..self }),
    {
        Self { id: val, ..self }
    }

    pub fn from(self, val: User) -> (r: Self)
        ensures
            r == (Self { from: val, ..self }),
    {
        Self { from: val, ..self }
    }

    pub fn currency(self, val: Currency) -> (r: Self)
        ensures
            r == (Self { currency: val, ..self }),
    {
        Self { currency: val, ..self }
    }

    pub fn total_amount(self, val: i32) -> (r: Self)
        ensures
            r == (Self { total_amount: val, ..self }),
    {
        Self { total_amount: val, ..self }
    }

    pub fn invoice_payload(self, val: String) -> (r: Self)
        ensures
            r == (Self { invoice_payload: val, ..self }),
    {
        Self { invoice_payload: val, ..self }
    }

    pub fn shipping_option_id(self, val: String) -> (r: Self)
        ensures
            r == (Self { shipping_option_id: Some(val), ..self }),
    {
        Self { shipping_option_id: Some(val), ..self }
    }

    pub fn order_info(self, val: OrderInfo) -> (r: Self)
        ensures
            r == (Self { order_info: Some(val), ..self }),
    {
        Self { order_info: Some(val), ..self }
    }
}

} // verus!
