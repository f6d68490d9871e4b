use crate::de::{
    array_at,
    parse_from_str, required, spec_array, spec_decimal, spec_object, take_timestamp_str,
    take_u32, timestamp_str_at, u32_at,
};
use crate::error::{DecodeError, Failure, Shape, agrees};
use crate::json::Json;
use crate::record::{Decode, decode_all, decodes_all, first_failure};
use crate::scalar::{Decimal, Timestamp};
use vstd::prelude::*;

verus! {

/// One price level of an order book.
#[derive(Clone, Copy, Debug, PartialEq, Eq, Structural)]
pub struct Quote {
    pub price: Decimal,
    pub size: Decimal,
}

/// The levels of an order book as received, best first by the exchange's
/// convention.
#[derive(Clone, Debug, PartialEq, Eq)]
pub struct OrderBook {
    pub asks: Vec<Quote>,
    pub bids: Vec<Quote>,
    pub checksum: u32,
    pub ts: Timestamp,
}

/// The quote a two-element array `[price, size]` decodes to.
pub open spec fn spec_quote(j: Json) -> Result<Quote, Failure> {
    match spec_array(j) {
        Err(f) => Err(f),
        Ok(a) => if a.len() != 2 {
            Err(Failure::WrongLength(2, a.len()))
        } else {
            let p = spec_decimal(a[0], "price"@);
            let s = spec_decimal(a[1], "size"@);
            if p is Err {
                Err(p->Err_0)
            } else if s is Err {
                Err(s->Err_0)
            } else {
                Ok(Quote { price: p->Ok_0, size: s->Ok_0 })
            }
        },
    }
}

impl Quote {
    /// Decodes a quote from its two-element array.
    pub fn decode(j: &Json) -> (r: Result<Quote, DecodeError>)
        ensures
            agrees(r, spec_quote(*j)),
    {
        let a = match j {
            Json::Array(a) => a,
            _ => return Err(DecodeError::WrongType { expected: Shape::Array }),
        };
        if a.len() != 2 {
            return Err(DecodeError::WrongLength { expected: 2, found: a.len() });
        }
        let price = parse_from_str(&a[0], "price")?;
        let size = parse_from_str(&a[1], "size")?;
        Ok(Quote { price, size })
    }
}

impl Decode for Quote {
    open spec fn decodes_to(j: Json, v: Quote) -> bool {
        spec_quote(j) == Ok::<Quote, Failure>(v)
    }

    open spec fn failure(j: Json) -> Option<Failure> {
        match spec_quote(j) {
            Ok(_) => None,
            Err(f) => Some(f),
        }
    }

    fn from_json(j: &Json) -> (r: Result<Quote, DecodeError>) {
        Quote::decode(j)
    }
}

/// The failure of the levels held by a member: a missing or non-array member,
/// else the first level that fails.
pub open spec fn levels_failure(fields: Seq<(String, Json)>, key: Seq<char>) -> Option<Failure> {
    match array_at(fields, key) {
        Err(f) => Some(f),
        Ok(a) => first_failure::<Quote>(a),
    }
}

/// The first failure among `asks`, `bids`, `checksum` and `ts`, in that order.
pub open spec fn book_failure(j: Json) -> Option<Failure> {
    match spec_object(j) {
        Err(f) => Some(f),
        Ok(fs) => if levels_failure(fs, "asks"@) is Some {
            levels_failure(fs, "asks"@)
        } else if levels_failure(fs, "bids"@) is Some {
            levels_failure(fs, "bids"@)
        } else if u32_at(fs, "checksum"@) is Err {
            Some(u32_at(fs, "checksum"@)->Err_0)
        } else if timestamp_str_at(fs, "ts"@) is Err {
            Some(timestamp_str_at(fs, "ts"@)->Err_0)
        } else {
            None
        },
    }
}

/// The book holds each level as decoded, in the order received.
pub open spec fn book_of(j: Json, v: OrderBook) -> bool {
    match spec_object(j) {
        Err(_) => false,
        Ok(fs) => {
            &&& decodes_all(array_at(fs, "asks"@)->Ok_0, v.asks@)
            &&& decodes_all(array_at(fs, "bids"@)->Ok_0, v.bids@)
            &&& u32_at(fs, "checksum"@) == Ok::<u32, Failure>(v.checksum)
            &&& timestamp_str_at(fs, "ts"@) == Ok::<Timestamp, Failure>(v.ts)
        },
    }
}

fn take_levels(fields: &Vec<(String, Json)>, key: &str) -> (r: Result<Vec<Quote>, DecodeError>)
    ensures
        match r {
            Ok(v) => levels_failure(fields@, key@) is None && decodes_all(
                array_at(fields@, key@)->Ok_0,
                v@,
            ),
            Err(e) => levels_failure(fields@, key@) == Some(e@),
        },
{
    match required(fields, key)? {
        Json::Array(a) => decode_all(a),
        _ => Err(DecodeError::WrongType { expected: Shape::Array }),
    }
}

impl OrderBook {
    /// Decodes an order-book object.
    pub fn decode(j: &Json) -> (r: Result<OrderBook, DecodeError>)
        ensures
            match r {
                Ok(v) => book_failure(*j) is None && book_of(*j, v),
                Err(e) => book_failure(*j) == Some(e@),
            },
    {
        let fs = match j {
            Json::Object(fs) => fs,
            _ => return Err(DecodeError::WrongType { expected: Shape::Object }),
        };
        let asks = take_levels(fs, "asks")?;
        let bids = take_levels(fs, "bids")?;
        let checksum = take_u32(fs, "checksum")?;
        let ts = take_timestamp_str(fs, "ts")?;
        Ok(OrderBook { asks, bids, checksum, ts })
    }
}

impl Decode for OrderBook {
    open spec fn decodes_to(j: Json, v: OrderBook) -> bool {
        book_of(j, v)
    }

    open spec fn failure(j: Json) -> Option<Failure> {
        book_failure(j)
    }

    fn from_json(j: &Json) -> (r: Result<OrderBook, DecodeError>) {
        OrderBook::decode(j)
    }
}

} // verus!
