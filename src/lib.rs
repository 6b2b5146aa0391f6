//! The call-pattern matching and response-dispatch engine of a mocking
//! library.
//!
//! - `counter`: call counts per pattern and their expectations.
//! - `mock`: call patterns, responders, per-operation registries, how a
//!   call selects a pattern and a responder, and how declarations are
//!   assembled.
//! - `builder`: the fluent declaration of patterns and response chains.
//! - `instance`: a mock instance, its assembly and its verification.
//! - `macro_api`: the entry points for generated code, and input matchers.
//! - `error`: failures and their messages.
//! - `io`: the std I/O traits, for mocking readers and writers.
//! - `text`: decimal numbers and joined text.
pub mod builder;
pub mod counter;
pub mod error;
pub mod instance;
pub mod io;
pub mod macro_api;
pub mod mock;
pub mod text;
