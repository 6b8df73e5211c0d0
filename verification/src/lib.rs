//! Extraction of embedded macro blocks from a document and lexical analysis
//! of their contents.
//!
//! A document is scanned for the marker `\%{`; every marker opens a block that
//! runs to the matching closing brace. The text of a block is then turned into
//! tokens, one per call, ending in a stable end-of-input token.

pub mod cursor;
pub mod errors;
pub mod lexical;
pub mod preprocessor;
pub mod scanner;
pub mod text;
pub mod tokens;
