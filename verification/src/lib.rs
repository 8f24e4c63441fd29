//! A market data provider for exchange traded funds: quotes, historical prices, dividends and
//! profiles of justETF, looked up by ISIN, and the schedule on which profiles are enriched.
//!
//! The library decides and computes; it makes no requests itself. It says what to request
//! ([`requests`]), what to do with what comes back ([`fetch`]), and what to make of it
//! ([`search`], [`quotes`], [`profile`]). What its answers are in terms of what they are made from,
//! position by position and field by field, is stated in [`laws`].

pub mod counter;
pub mod course;
pub mod decimal;
pub mod fetch;
pub mod html;
pub mod isin;
pub mod laws;
pub mod models;
pub mod number;
pub mod profile;
pub mod provider;
pub mod quotes;
pub mod requests;
pub mod scheduler;
pub mod search;
pub mod text;
pub mod time;

pub use isin::looks_like_isin;
pub use provider::JustEtfProvider;
