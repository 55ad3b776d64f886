//! A streaming parser for delimiter-separated values.
//!
//! A text is read line by line. Rules may drop a line before it is looked
//! at ([`skip_take_lines`]); every other line is split into tokens by a
//! small state machine that knows a delimiter and an optional enclosure
//! character ([`line_tokenizer`]); the tokens are cleaned by chains of
//! transforms, one chain for all columns and one for each column
//! ([`transform_sanitize_token`], [`parser_common`]); and the cleaned
//! tokens fill the cells of a row whose layout the first line has settled
//! ([`iterating_parser`]).
//!
//! What each step returns is stated over character sequences, and proved.
//! [`round_trip`] shows that a line written from its fields is split into
//! those fields again.

pub mod compact;
pub mod conf;
pub mod data;
pub mod errors;
pub mod iterating_parser;
pub mod line_tokenizer;
pub mod parser_common;
pub mod parser_config;
pub mod regex_support;
pub mod round_trip;
pub mod skip_take_lines;
pub mod text;
pub mod transform_sanitize_token;
