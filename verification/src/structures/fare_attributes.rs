//! Fare classes: their price, payment method and transfer allowance. The
//! price passes through as the raw field text; this reader takes no view of
//! its numeric value.

use vstd::prelude::*;

use crate::error::{Error, ErrorV};
use crate::table::{
    field_of, opt_string, opt_usize, raw_field, req_string, spec_opt_str, spec_opt_uint,
    spec_req_str, TableRow,
};
use crate::text::{is_uint_text, str_eq, uint_text_val};
use crate::Id;

verus! {

/// When the fare must be paid.
#[derive(Debug, Copy, Clone, PartialEq, Eq, Structural)]
pub enum PaymentMethod {
    /// Fare is paid on board.
    Aboard,
    /// Fare must be paid before boarding.
    PreBoarding,
}

/// The payment-method field: required, and strict about its two codes.
pub open spec fn spec_payment_field(
    h: Seq<Seq<char>>,
    r: Seq<Seq<char>>,
    name: Seq<char>,
) -> Result<PaymentMethod, ErrorV> {
    match field_of(h, r, name) {
        Some(t) => if t == "0"@ {
            Ok(PaymentMethod::Aboard)
        } else if t == "1"@ {
            Ok(PaymentMethod::PreBoarding)
        } else {
            Err(ErrorV::InvalidValue(t))
        },
        None => Err(ErrorV::MissingField(name)),
    }
}

/// How many transfers a fare permits: a small closed set, an explicit
/// "other" arm carrying unrecognized codes, and "unlimited" for no code.
#[derive(Debug, Copy, Clone, PartialEq, Eq, Structural)]
pub enum Transfers {
    /// Unlimited transfers are permitted.
    Unlimited,
    /// No transfers permitted on this fare.
    NoTransfer,
    /// Riders may transfer once.
    UniqueTransfer,
    /// Riders may transfer twice.
    TwoTransfers,
    /// An unrecognized code, carried unchanged.
    Other(u16),
}

impl Default for Transfers {
    fn default() -> (r: Self)
        ensures
            r == Transfers::Unlimited,
    {
        Transfers::Unlimited
    }
}

/// The transfer allowance a numeric code names; unrecognized codes are
/// preserved as the carried number.
pub open spec fn spec_transfers_of(i: int) -> Transfers {
    if i == 0 {
        Transfers::NoTransfer
    } else if i == 1 {
        Transfers::UniqueTransfer
    } else if i == 2 {
        Transfers::TwoTransfers
    } else {
        Transfers::Other(i as u16)
    }
}

/// The canonical code of a transfer allowance: an absent code for
/// "unlimited", a carried number replaying itself.
pub open spec fn spec_encode_transfers(t: Transfers) -> Option<int> {
    match t {
        Transfers::Unlimited => None,
        Transfers::NoTransfer => Some(0),
        Transfers::UniqueTransfer => Some(1),
        Transfers::TwoTransfers => Some(2),
        Transfers::Other(i) => Some(i as int),
    }
}

pub fn encode_transfers(t: &Transfers) -> (r: Option<u16>)
    ensures
        match r {
            Some(x) => spec_encode_transfers(*t) == Some(x as int),
            None => spec_encode_transfers(*t) is None,
        },
{
    match t {
        Transfers::Unlimited => None,
        Transfers::NoTransfer => Some(0),
        Transfers::UniqueTransfer => Some(1),
        Transfers::TwoTransfers => Some(2),
        Transfers::Other(i) => Some(*i),
    }
}

/// Every transfer code decodes and re-encodes to itself: known codes through
/// their named allowance, unknown ones through the carried number, and an
/// absent code through "unlimited".
pub proof fn lemma_transfers_round_trip(i: u16)
    ensures
        spec_encode_transfers(spec_transfers_of(i as int)) == Some(i as int),
        spec_encode_transfers(Transfers::Unlimited) is None,
{
}

/// The transfers field: an absent column or blank text is "unlimited", a
/// number maps through the closed set with its "other" fallback.
pub open spec fn spec_transfers_field(
    h: Seq<Seq<char>>,
    r: Seq<Seq<char>>,
    name: Seq<char>,
) -> Result<Transfers, ErrorV> {
    match field_of(h, r, name) {
        Some(t) => if t.len() == 0 {
            Ok(Transfers::Unlimited)
        } else if is_uint_text(t) && uint_text_val(t) <= u16::MAX as int {
            Ok(spec_transfers_of(uint_text_val(t)))
        } else {
            Err(ErrorV::InvalidNumber(t))
        },
        None => Ok(Transfers::Unlimited),
    }
}

fn transfers_field(header: &Vec<String>, row: &Vec<String>, name: &str) -> (res: Result<
    Transfers,
    Error,
>)
    ensures
        match res {
            Ok(v) => spec_transfers_field(header.deep_view(), row.deep_view(), name@) == Ok::<
                _,
                ErrorV,
            >(v),
            Err(e) => spec_transfers_field(header.deep_view(), row.deep_view(), name@) == Err::<
                Transfers,
                _,
            >(e.deep_view()),
        },
{
    match raw_field(header, row, name) {
        Some(t) => {
            if t.as_str().unicode_len() == 0 {
                Ok(Transfers::Unlimited)
            } else {
                match crate::text::parse_u64_str(t.as_str()) {
                    Some(x) => {
                        if x <= u16::MAX as u64 {
                            if x == 0 {
                                Ok(Transfers::NoTransfer)
                            } else if x == 1 {
                                Ok(Transfers::UniqueTransfer)
                            } else if x == 2 {
                                Ok(Transfers::TwoTransfers)
                            } else {
                                Ok(Transfers::Other(x as u16))
                            }
                        } else {
                            Err(Error::InvalidNumber(t.clone()))
                        }
                    },
                    None => Err(Error::InvalidNumber(t.clone())),
                }
            }
        },
        None => Ok(Transfers::Unlimited),
    }
}

#[derive(Debug)]
pub struct FareAttribute {
    /// Identifies a fare class.
    pub id: String,
    /// Fare price in the currency's unit, as the raw field text.
    pub price: String,
    /// Currency used to pay the fare.
    pub currency: String,
    /// When the fare must be paid.
    pub payment_method: PaymentMethod,
    /// How many transfers the fare permits.
    pub transfers: Transfers,
    /// The agency the fare belongs to.
    pub agency_id: Option<String>,
    /// Seconds before a transfer expires.
    pub transfer_duration: Option<usize>,
}

impl Id for FareAttribute {
    open spec fn id_spec(&self) -> Seq<char> {
        self.id@
    }

    fn id(&self) -> (r: &str) {
        self.id.as_str()
    }
}

impl TableRow for FareAttribute {
    open spec fn row_ok(h: Seq<Seq<char>>, r: Seq<Seq<char>>) -> bool {
        &&& spec_req_str(h, r, "fare_id"@) is Ok
        &&& spec_req_str(h, r, "price"@) is Ok
        &&& spec_req_str(h, r, "currency_type"@) is Ok
        &&& spec_payment_field(h, r, "payment_method"@) is Ok
        &&& spec_transfers_field(h, r, "transfers"@) is Ok
        &&& spec_opt_uint(h, r, "transfer_duration"@, usize::MAX as int) is Ok
    }

    open spec fn row_err(h: Seq<Seq<char>>, r: Seq<Seq<char>>) -> ErrorV {
        if spec_req_str(h, r, "fare_id"@) is Err {
            spec_req_str(h, r, "fare_id"@)->Err_0
        } else if spec_req_str(h, r, "price"@) is Err {
            spec_req_str(h, r, "price"@)->Err_0
        } else if spec_req_str(h, r, "currency_type"@) is Err {
            spec_req_str(h, r, "currency_type"@)->Err_0
        } else if spec_payment_field(h, r, "payment_method"@) is Err {
            spec_payment_field(h, r, "payment_method"@)->Err_0
        } else if spec_transfers_field(h, r, "transfers"@) is Err {
            spec_transfers_field(h, r, "transfers"@)->Err_0
        } else {
            spec_opt_uint(h, r, "transfer_duration"@, usize::MAX as int)->Err_0
        }
    }

    open spec fn row_matches(h: Seq<Seq<char>>, r: Seq<Seq<char>>, v: FareAttribute) -> bool {
        &&& Ok::<_, ErrorV>(v.id@) == spec_req_str(h, r, "fare_id"@)
        &&& Ok::<_, ErrorV>(v.price@) == spec_req_str(h, r, "price"@)
        &&& Ok::<_, ErrorV>(v.currency@) == spec_req_str(h, r, "currency_type"@)
        &&& Ok::<_, ErrorV>(v.payment_method) == spec_payment_field(h, r, "payment_method"@)
        &&& Ok::<_, ErrorV>(v.transfers) == spec_transfers_field(h, r, "transfers"@)
        &&& v.agency_id.deep_view() == spec_opt_str(h, r, "agency_id"@)
        &&& Ok::<_, ErrorV>(
            match v.transfer_duration {
                Some(x) => Some(x as int),
                None => None,
            },
        ) == spec_opt_uint(h, r, "transfer_duration"@, usize::MAX as int)
    }

    fn decode_row(header: &Vec<String>, row: &Vec<String>) -> (res: Result<FareAttribute, Error>) {
        let id = match req_string(header, row, "fare_id") {
            Ok(v) => v,
            Err(e) => return Err(e),
        };
        let price = match req_string(header, row, "price") {
            Ok(v) => v,
            Err(e) => return Err(e),
        };
        let currency = match req_string(header, row, "currency_type") {
            Ok(v) => v,
            Err(e) => return Err(e),
        };
        let payment_method = match raw_field(header, row, "payment_method") {
            Some(t) => {
                if str_eq(t.as_str(), "0") {
                    PaymentMethod::Aboard
                } else if str_eq(t.as_str(), "1") {
                    PaymentMethod::PreBoarding
                } else {
                    return Err(Error::InvalidValue(t.clone()));
                }
            },
            None => {
                return Err(Error::MissingField("payment_method".to_owned()));
            },
        };
        let transfers = match transfers_field(header, row, "transfers") {
            Ok(v) => v,
            Err(e) => return Err(e),
        };
        let transfer_duration = match opt_usize(header, row, "transfer_duration") {
            Ok(v) => v,
            Err(e) => return Err(e),
        };
        Ok(
            FareAttribute {
                id,
                price,
                currency,
                payment_method,
                transfers,
                agency_id: opt_string(header, row, "agency_id"),
                transfer_duration,
            },
        )
    }
}

} // verus!
