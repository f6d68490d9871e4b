use crate::de::{
    datetime_from_timestamp_str, parse_from_str, spec_array, spec_decimal, spec_timestamp_str,
};
use crate::error::{DecodeError, Failure, Shape, agrees};
use crate::record::Decode;
use crate::json::Json;
use crate::scalar::{Decimal, Timestamp};
use vstd::prelude::*;

verus! {

/// Number of elements of a candlestick on the wire.
pub const CANDLE_FIELDS: usize = 8;

/// One candle of a price chart. The wire array has a last element that
/// repeats `volume_currency`; it is checked and then dropped.
#[derive(Clone, Copy, Debug, PartialEq, Eq, Structural)]
pub struct Candlestick {
    pub start_time: Timestamp,
    pub open: Decimal,
    pub high: Decimal,
    pub low: Decimal,
    pub close: Decimal,
    pub volume_coin: Decimal,
    pub volume_currency: Decimal,
}

/// The candle an array of eight strings decodes to: a timestamp, then seven
/// decimals of which the last is not kept. Elements are read in order and
/// the first failure is the result.
pub open spec fn spec_candlestick(j: Json) -> Result<Candlestick, Failure> {
    match spec_array(j) {
        Err(f) => Err(f),
        Ok(a) => if a.len() != CANDLE_FIELDS {
            Err(Failure::WrongLength(CANDLE_FIELDS as nat, a.len()))
        } else {
            let t = spec_timestamp_str(a[0], "startTime"@);
            let o = spec_decimal(a[1], "open"@);
            let h = spec_decimal(a[2], "high"@);
            let l = spec_decimal(a[3], "low"@);
            let c = spec_decimal(a[4], "close"@);
            let vc = spec_decimal(a[5], "volumeCoin"@);
            let vq = spec_decimal(a[6], "volumeCurrency"@);
            let dup = spec_decimal(a[7], "volumeCurrencyRepeated"@);
            if t is Err {
                Err(t->Err_0)
            } else if o is Err {
                Err(o->Err_0)
            } else if h is Err {
                Err(h->Err_0)
            } else if l is Err {
                Err(l->Err_0)
            } else if c is Err {
                Err(c->Err_0)
            } else if vc is Err {
                Err(vc->Err_0)
            } else if vq is Err {
                Err(vq->Err_0)
            } else if dup is Err {
                Err(dup->Err_0)
            } else {
                Ok(
                    Candlestick {
                        start_time: t->Ok_0,
                        open: o->Ok_0,
                        high: h->Ok_0,
                        low: l->Ok_0,
                        close: c->Ok_0,
                        volume_coin: vc->Ok_0,
                        volume_currency: vq->Ok_0,
                    },
                )
            }
        },
    }
}

impl Candlestick {
    /// Decodes a candle from its eight-element array.
    pub fn decode(j: &Json) -> (r: Result<Candlestick, DecodeError>)
        ensures
            agrees(r, spec_candlestick(*j)),
    {
        let a = match j {
            Json::Array(a) => a,
            _ => return Err(DecodeError::WrongType { expected: Shape::Array }),
        };
        if a.len() != CANDLE_FIELDS {
            return Err(DecodeError::WrongLength { expected: CANDLE_FIELDS, found: a.len() });
        }
        let start_time = datetime_from_timestamp_str(&a[0], "startTime")?;
        let open = parse_from_str(&a[1], "open")?;
        let high = parse_from_str(&a[2], "high")?;
        let low = parse_from_str(&a[3], "low")?;
        let close = parse_from_str(&a[4], "close")?;
        let volume_coin = parse_from_str(&a[5], "volumeCoin")?;
        let volume_currency = parse_from_str(&a[6], "volumeCurrency")?;
        let _repeated = parse_from_str(&a[7], "volumeCurrencyRepeated")?;
        Ok(Candlestick { start_time, open, high, low, close, volume_coin, volume_currency })
    }
}

impl Decode for Candlestick {
    open spec fn decodes_to(j: Json, v: Candlestick) -> bool {
        spec_candlestick(j) == Ok::<Candlestick, Failure>(v)
    }

    open spec fn failure(j: Json) -> Option<Failure> {
        match spec_candlestick(j) {
            Ok(_) => None,
            Err(f) => Some(f),
        }
    }

    fn from_json(j: &Json) -> (r: Result<Candlestick, DecodeError>) {
        Candlestick::decode(j)
    }
}

} // verus!
