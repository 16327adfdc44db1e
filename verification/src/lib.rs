//! The judging core of a declarative HTTP API test runner.
//!
//! A test case declares a request (verb, path, headers) and what is expected of
//! the response (status code and, where wanted, a JSON body). This library
//! builds the request, judges a response against the expectation, finds the
//! keys under which two JSON objects differ, and writes the lines of the
//! report. It sends nothing and prints nothing: the caller does both.
//!
//! - [`case`]: test cases and the requests made from them
//! - [`method`]: reading the verb of a request
//! - [`json`]: JSON values and their structural equality
//! - [`equality`]: what holds of that equality
//! - [`parse`]: reading JSON text
//! - [`verdict`]: judging a response
//! - [`diff`]: the key-by-key difference of two objects
//! - [`report`]: the lines of a report
//! - [`text`]: joining, comparing and writing texts

pub mod case;
pub mod diff;
pub mod equality;
pub mod json;
pub mod method;
pub mod parse;
pub mod report;
pub mod text;
pub mod verdict;
