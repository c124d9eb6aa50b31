//! Validation of loosely typed rows against a schema of typed, annotated fields.
//!
//! Every cell of a row arrives as optional text. A schema of field descriptors
//! says, for each field, which scalar kind the text must convert to, whether the
//! field may be absent, and which length bounds a text field has. Validation runs
//! one rule per field and reports every failing field, never stopping at the first.
pub mod numeral;
pub mod text;
pub mod schema;
pub mod rules;
pub mod report;
pub mod laws;
pub mod record;
pub mod declaration;
