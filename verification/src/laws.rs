//! What the answers of the library are in terms of what they are made from: which parts of the input
//! an answer holds, in which order and with which fields, and how the answers to two inputs relate.

pub mod counters;
pub mod dividends;
pub mod documents;
pub mod fetches;
pub mod history;
pub mod isins;
pub mod latest;
pub mod numerals;
pub mod profiles;
pub mod provider;
pub mod requests;
pub mod schedule;
pub mod search;
pub mod selection;
pub mod texts;
pub mod times;
pub mod views;
