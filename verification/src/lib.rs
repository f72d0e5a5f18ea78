//! A small hyphenation library: it maps a two-letter language code to one of
//! five supported hyphenation languages, segments a word into syllables for
//! that language, and joins the syllables with a caller-supplied delimiter.
//! A companion module reads the service port from a TOML settings text.

pub mod config;
pub mod hyphenation;
pub mod lang;
pub mod segments;
