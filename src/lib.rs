//! Typed decoders for the futures push messages of a cryptocurrency exchange.
//!
//! A push arrives as a JSON value ([`Json`]); each decoder turns one into a
//! typed record or reports the first failure ([`DecodeError`]). Numbers that
//! the exchange sends as strings are held exactly ([`Decimal`]), and
//! timestamps as nanoseconds since the Unix epoch ([`Timestamp`]).
pub mod candlestick;
pub mod de;
pub mod depth;
pub mod error;
pub mod json;
pub mod record;
pub mod scalar;
pub mod ticker;
pub mod trade;
pub mod websocket;

pub use candlestick::Candlestick;
pub use depth::{OrderBook, Quote};
pub use error::{DecodeError, ErrorKind, Shape};
pub use json::Json;
pub use record::Decode;
pub use scalar::{Decimal, Timestamp};
pub use ticker::{SymbolType, Tick};
pub use trade::{Trade, TradeData, TradeSide};
pub use websocket::{DataPush, PushAction, SubscriptionArgs};
