//! Parsing IMAP server responses and building client commands, with the grammar of
//! the responses stated as specifications that the parsers are proved against.

pub mod builders;
pub mod chars;
pub mod client;
pub mod parser;
pub mod round_trip;
pub mod types;

pub use crate::parser::response::{parse_response, resp_metadata};
