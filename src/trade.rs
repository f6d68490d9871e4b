use crate::de::{
    decimal_at, spec_object, take_decimal, take_timestamp_str, take_usize, timestamp_str_at,
    usize_at, spec_member,
};
use crate::error::{DecodeError, Failure, Shape, agrees};
use crate::json::{Json, raw_of, raw_text, str_eq};
use crate::record::Decode;
use crate::de::required;
use crate::scalar::{Decimal, Timestamp};
use vstd::prelude::*;

verus! {

/// The aggressor side of a trade, written `"buy"` or `"sell"` on the wire.
#[derive(Clone, Copy, Debug, PartialEq, Eq, Structural)]
pub enum TradeSide {
    Sell,
    Buy,
}

/// One executed trade.
#[derive(Clone, Copy, Debug, PartialEq, Eq, Structural)]
pub struct Trade {
    pub ts: Timestamp,
    pub price: Decimal,
    pub size: Decimal,
    pub side: TradeSide,
    pub trade_id: usize,
}

/// A trade as the private trade channel names it.
pub type TradeData = Trade;

pub open spec fn spec_side(j: Json) -> Result<TradeSide, Failure> {
    match j {
        Json::Str(s) => if s@ == "buy"@ {
            Ok(TradeSide::Buy)
        } else if s@ == "sell"@ {
            Ok(TradeSide::Sell)
        } else {
            Err(Failure::UnknownEnumValue("side"@, s@))
        },
        _ => Err(Failure::UnknownEnumValue("side"@, raw_of(j))),
    }
}

/// The trade an object decodes to, or the first failure among its members
/// `ts`, `price`, `size`, `side` and `tradeId`, in that order.
pub open spec fn spec_trade(j: Json) -> Result<Trade, Failure> {
    match spec_object(j) {
        Err(f) => Err(f),
        Ok(fs) => {
            let ts = timestamp_str_at(fs, "ts"@);
            let price = decimal_at(fs, "price"@);
            let size = decimal_at(fs, "size"@);
            let side = match spec_member(fs, "side"@) {
                Ok(v) => spec_side(v),
                Err(f) => Err(f),
            };
            let id = usize_at(fs, "tradeId"@);
            if ts is Err {
                Err(ts->Err_0)
            } else if price is Err {
                Err(price->Err_0)
            } else if size is Err {
                Err(size->Err_0)
            } else if side is Err {
                Err(side->Err_0)
            } else if id is Err {
                Err(id->Err_0)
            } else {
                Ok(
                    Trade {
                        ts: ts->Ok_0,
                        price: price->Ok_0,
                        size: size->Ok_0,
                        side: side->Ok_0,
                        trade_id: id->Ok_0,
                    },
                )
            }
        },
    }
}

impl TradeSide {
    /// Decodes `"buy"` or `"sell"`; any other string, of any case, is refused.
    pub fn decode(j: &Json) -> (r: Result<TradeSide, DecodeError>)
        ensures
            agrees(r, spec_side(*j)),
    {
        match j {
            Json::Str(s) => if str_eq(s.as_str(), "buy") {
                Ok(TradeSide::Buy)
            } else if str_eq(s.as_str(), "sell") {
                Ok(TradeSide::Sell)
            } else {
                Err(DecodeError::UnknownEnumValue { field: "side".to_owned(), raw: s.clone() })
            },
            _ => Err(
                DecodeError::UnknownEnumValue { field: "side".to_owned(), raw: raw_text(j) },
            ),
        }
    }
}

impl Trade {
    /// Decodes a trade object.
    pub fn decode(j: &Json) -> (r: Result<Trade, DecodeError>)
        ensures
            agrees(r, spec_trade(*j)),
    {
        let fs = match j {
            Json::Object(fs) => fs,
            _ => return Err(DecodeError::WrongType { expected: Shape::Object }),
        };
        let ts = take_timestamp_str(fs, "ts")?;
        let price = take_decimal(fs, "price")?;
        let size = take_decimal(fs, "size")?;
        let side = TradeSide::decode(required(fs, "side")?)?;
        let trade_id = take_usize(fs, "tradeId")?;
        Ok(Trade { ts, price, size, side, trade_id })
    }
}

impl Decode for Trade {
    open spec fn decodes_to(j: Json, v: Trade) -> bool {
        spec_trade(j) == Ok::<Trade, Failure>(v)
    }

    open spec fn failure(j: Json) -> Option<Failure> {
        match spec_trade(j) {
            Ok(_) => None,
            Err(f) => Some(f),
        }
    }

    fn from_json(j: &Json) -> (r: Result<Trade, DecodeError>) {
        Trade::decode(j)
    }
}

} // verus!
