//! Marketplace price toolkit: a request-fingerprint cache, currency-normalized
//! price values, bulk-exchange and search quote resolution, and strategy
//! profitability aggregation. Network and file transport are supplied by the
//! embedding application; everything algorithmic lives here.

pub mod b64;
pub mod bytes;
pub mod codec;
pub mod decimal;
pub mod jsonval;
pub mod cache;
pub mod price;
pub mod strat;
pub mod trade_api;
pub mod trade_decode;
