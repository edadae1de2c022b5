//! A format-tag scanner: splits an input such as `"Hello %s"` into the
//! literal prefix before the `%` marker, a type tag (`d` for a number,
//! `s` for text), and the remaining unconsumed input, together with a
//! query type that pairs a scanned fragment with a matching argument.

pub mod query;
pub mod scanner;
