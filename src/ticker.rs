use crate::de::{
    decimal_at, required, spec_member, spec_object, take_decimal, take_text, take_timestamp_str,
    text_at, timestamp_str_at,
};
use crate::error::{DecodeError, Failure, Shape, agrees};
use crate::json::{Json, raw_of, raw_text};
use crate::record::Decode;
use crate::scalar::{Decimal, Timestamp, parse_i64, signed_value, within};
use vstd::prelude::*;

verus! {

/// The kind of a futures contract, written `1` or `2` on the wire.
#[derive(Clone, Copy, Debug, PartialEq, Eq, Structural)]
pub enum SymbolType {
    Perpetual,
    Delivery,
}

/// The symbol type a JSON integer decodes to: `1` is perpetual, `2` delivery;
/// any other `i32` is an unknown value, and anything else is malformed.
pub open spec fn spec_symbol_type(j: Json) -> Result<SymbolType, Failure> {
    match j {
        Json::Number(s) => match within(signed_value(s@), i32::MIN as int, i32::MAX as int) {
            Some(v) => if v == 1 {
                Ok(SymbolType::Perpetual)
            } else if v == 2 {
                Ok(SymbolType::Delivery)
            } else {
                Err(Failure::UnknownEnumValue("symbolType"@, s@))
            },
            None => Err(Failure::MalformedScalar("symbolType"@, s@)),
        },
        _ => Err(Failure::UnknownEnumValue("symbolType"@, raw_of(j))),
    }
}

impl SymbolType {
    /// Decodes the wire integer of a symbol type.
    pub fn decode(j: &Json) -> (r: Result<SymbolType, DecodeError>)
        ensures
            agrees(r, spec_symbol_type(*j)),
    {
        match j {
            Json::Number(s) => match parse_i64(s.as_str()) {
                Some(v) => if v < -2147483648 || v > 2147483647 {
                    Err(DecodeError::MalformedScalar { field: "symbolType".to_owned(), raw: s.clone() })
                } else if v == 1 {
                    Ok(SymbolType::Perpetual)
                } else if v == 2 {
                    Ok(SymbolType::Delivery)
                } else {
                    Err(DecodeError::UnknownEnumValue { field: "symbolType".to_owned(), raw: s.clone() })
                },
                None => Err(DecodeError::MalformedScalar { field: "symbolType".to_owned(), raw: s.clone() }),
            },
            _ => Err(
                DecodeError::UnknownEnumValue { field: "symbolType".to_owned(), raw: raw_text(j) },
            ),
        }
    }
}

pub open spec fn symbol_type_at(fields: Seq<(String, Json)>, key: Seq<char>) -> Result<SymbolType, Failure> {
    match spec_member(fields, key) {
        Ok(j) => spec_symbol_type(j),
        Err(f) => Err(f),
    }
}

/// Market statistics of one instrument.
#[derive(Clone, Debug, PartialEq, Eq)]
pub struct Tick {
    pub inst_id: String,
    pub last_price: Decimal,
    pub bid_price: Decimal,
    pub ask_price: Decimal,
    pub bid_size: Decimal,
    pub ask_size: Decimal,
    pub open_24h: Decimal,
    pub high_24h: Decimal,
    pub low_24h: Decimal,
    pub change_24h: Decimal,
    pub funding_rate: Decimal,
    pub next_funding_time: Timestamp,
    pub mark_price: Decimal,
    pub index_price: Decimal,
    pub holding_amount: Decimal,
    pub base_volume: Decimal,
    pub quote_volume: Decimal,
    pub open_utc: Decimal,
    pub symbol_type: SymbolType,
    pub symbol: String,
    pub delivery_price: Decimal,
    pub timestamp: Timestamp,
}

/// The tick an object decodes to, or the first failure among its members,
/// read in the order of the record's fields.
pub open spec fn spec_tick(j: Json) -> Result<Tick, Failure> {
    match spec_object(j) {
        Err(f) => Err(f),
        Ok(fs) => {
            let inst_id = text_at(fs, "instId"@);
            let last_price = decimal_at(fs, "lastPr"@);
            let bid_price = decimal_at(fs, "bidPr"@);
            let ask_price = decimal_at(fs, "askPr"@);
            let bid_size = decimal_at(fs, "bidSz"@);
            let ask_size = decimal_at(fs, "askSz"@);
            let open_24h = decimal_at(fs, "open24h"@);
            let high_24h = decimal_at(fs, "high24h"@);
            let low_24h = decimal_at(fs, "low24h"@);
            let change_24h = decimal_at(fs, "change24h"@);
            let funding_rate = decimal_at(fs, "fundingRate"@);
            let next_funding_time = timestamp_str_at(fs, "nextFundingTime"@);
            let mark_price = decimal_at(fs, "markPrice"@);
            let index_price = decimal_at(fs, "indexPrice"@);
            let holding_amount = decimal_at(fs, "holdingAmount"@);
            let base_volume = decimal_at(fs, "baseVolume"@);
            let quote_volume = decimal_at(fs, "quoteVolume"@);
            let open_utc = decimal_at(fs, "openUtc"@);
            let symbol_type = symbol_type_at(fs, "symbolType"@);
            let symbol = text_at(fs, "symbol"@);
            let delivery_price = decimal_at(fs, "deliveryPrice"@);
            let timestamp = timestamp_str_at(fs, "ts"@);
            if inst_id is Err {
                Err(inst_id->Err_0)
            } else if last_price is Err {
                Err(last_price->Err_0)
            } else if bid_price is Err {
                Err(bid_price->Err_0)
            } else if ask_price is Err {
                Err(ask_price->Err_0)
            } else if bid_size is Err {
                Err(bid_size->Err_0)
            } else if ask_size is Err {
                Err(ask_size->Err_0)
            } else if open_24h is Err {
                Err(open_24h->Err_0)
            } else if high_24h is Err {
                Err(high_24h->Err_0)
            } else if low_24h is Err {
                Err(low_24h->Err_0)
            } else if change_24h is Err {
                Err(change_24h->Err_0)
            } else if funding_rate is Err {
                Err(funding_rate->Err_0)
            } else if next_funding_time is Err {
                Err(next_funding_time->Err_0)
            } else if mark_price is Err {
                Err(mark_price->Err_0)
            } else if index_price is Err {
                Err(index_price->Err_0)
            } else if holding_amount is Err {
                Err(holding_amount->Err_0)
            } else if base_volume is Err {
                Err(base_volume->Err_0)
            } else if quote_volume is Err {
                Err(quote_volume->Err_0)
            } else if open_utc is Err {
                Err(open_utc->Err_0)
            } else if symbol_type is Err {
                Err(symbol_type->Err_0)
            } else if symbol is Err {
                Err(symbol->Err_0)
            } else if delivery_price is Err {
                Err(delivery_price->Err_0)
            } else if timestamp is Err {
                Err(timestamp->Err_0)
            } else {
                Ok(
                    Tick {
                        inst_id: inst_id->Ok_0,
                        last_price: last_price->Ok_0,
                        bid_price: bid_price->Ok_0,
                        ask_price: ask_price->Ok_0,
                        bid_size: bid_size->Ok_0,
                        ask_size: ask_size->Ok_0,
                        open_24h: open_24h->Ok_0,
                        high_24h: high_24h->Ok_0,
                        low_24h: low_24h->Ok_0,
                        change_24h: change_24h->Ok_0,
                        funding_rate: funding_rate->Ok_0,
                        next_funding_time: next_funding_time->Ok_0,
                        mark_price: mark_price->Ok_0,
                        index_price: index_price->Ok_0,
                        holding_amount: holding_amount->Ok_0,
                        base_volume: base_volume->Ok_0,
                        quote_volume: quote_volume->Ok_0,
                        open_utc: open_utc->Ok_0,
                        symbol_type: symbol_type->Ok_0,
                        symbol: symbol->Ok_0,
                        delivery_price: delivery_price->Ok_0,
                        timestamp: timestamp->Ok_0,
                    },
                )
            }
        },
    }
}

impl Tick {
    /// Decodes a ticker object.
    pub fn decode(j: &Json) -> (r: Result<Tick, DecodeError>)
        ensures
            agrees(r, spec_tick(*j)),
    {
        let fs = match j {
            Json::Object(fs) => fs,
            _ => return Err(DecodeError::WrongType { expected: Shape::Object }),
        };
        let inst_id = take_text(fs, "instId")?;
        let last_price = take_decimal(fs, "lastPr")?;
        let bid_price = take_decimal(fs, "bidPr")?;
        let ask_price = take_decimal(fs, "askPr")?;
        let bid_size = take_decimal(fs, "bidSz")?;
        let ask_size = take_decimal(fs, "askSz")?;
        let open_24h = take_decimal(fs, "open24h")?;
        let high_24h = take_decimal(fs, "high24h")?;
        let low_24h = take_decimal(fs, "low24h")?;
        let change_24h = take_decimal(fs, "change24h")?;
        let funding_rate = take_decimal(fs, "fundingRate")?;
        let next_funding_time = take_timestamp_str(fs, "nextFundingTime")?;
        let mark_price = take_decimal(fs, "markPrice")?;
        let index_price = take_decimal(fs, "indexPrice")?;
        let holding_amount = take_decimal(fs, "holdingAmount")?;
        let base_volume = take_decimal(fs, "baseVolume")?;
        let quote_volume = take_decimal(fs, "quoteVolume")?;
        let open_utc = take_decimal(fs, "openUtc")?;
        let symbol_type = SymbolType::decode(required(fs, "symbolType")?)?;
        let symbol = take_text(fs, "symbol")?;
        let delivery_price = take_decimal(fs, "deliveryPrice")?;
        let timestamp = take_timestamp_str(fs, "ts")?;
        Ok(
            Tick {
                inst_id,
                last_price,
                bid_price,
                ask_price,
                bid_size,
                ask_size,
                open_24h,
                high_24h,
                low_24h,
                change_24h,
                funding_rate,
                next_funding_time,
                mark_price,
                index_price,
                holding_amount,
                base_volume,
                quote_volume,
                open_utc,
                symbol_type,
                symbol,
                delivery_price,
                timestamp,
            },
        )
    }
}

impl Decode for Tick {
    open spec fn decodes_to(j: Json, v: Tick) -> bool {
        spec_tick(j) == Ok::<Tick, Failure>(v)
    }

    open spec fn failure(j: Json) -> Option<Failure> {
        match spec_tick(j) {
            Ok(_) => None,
            Err(f) => Some(f),
        }
    }

    fn from_json(j: &Json) -> (r: Result<Tick, DecodeError>) {
        Tick::decode(j)
    }
}

} // verus!
