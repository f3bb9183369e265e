//! Field-level redaction and calibrated noise for structured records.
//!
//! A type is described once, with the privacy directives written on it, on
//! its variants and on its fields (`model`, `directive`; `parser` reads a
//! directive from its text and `printer` writes it). Registering the
//! description checks it against every rule at once (`validate`) and gives a
//! formatter (`formatter`), which renders the values of the type: each value
//! is turned into text (`value`, `number`), receives noise first where its
//! field is tagged for it (`noise`), is masked (`mask`), and is laid out in
//! the compact or the pretty form (`layout`). `redactable` is the interface
//! of a value that can be shown redacted, `ingest` reads the raw texts of a
//! row into values, and `message` puts errors into words.
//!
//! Sampling from a Laplace distribution needs real arithmetic and is left to
//! the caller: the library takes the sampled offsets as integers.

pub mod directive;
pub mod formatter;
pub mod ingest;
pub mod layout;
pub mod mask;
pub mod message;
pub mod model;
pub mod noise;
pub mod number;
pub mod parser;
pub mod printer;
pub mod redactable;
pub mod text;
pub mod validate;
pub mod value;
