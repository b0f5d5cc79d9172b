//! What the server promises, stated on inputs and answers alone.

pub mod access;
pub mod boot;
pub mod errors;
pub mod keyed;
pub mod keys;
pub mod lifecycle;
pub mod lists;
pub mod rates;
pub mod reads;
pub mod scrapes;
pub mod spans;
pub mod streams;
pub mod texts;
pub mod words;
