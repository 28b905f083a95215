//! Canonicalizes a structured document tree (typed nodes with named or
//! positional entries and nested children) into a normalized JSON shape,
//! and judges decoder runs against fixture expectations.
//!
//! The heart of the crate is the number renderer: it reconstructs the exact
//! decimal digits of a literal written in scientific notation by shifting
//! the decimal point textually, so no precision is lost even for exponents
//! far outside the range of a double.

mod convert;
mod harness;
mod json;
mod model;
mod render;

pub use harness::DecoderExe;
pub use harness::Expectation;
pub use harness::InvalidTestCase;
pub use harness::LoadError;
pub use harness::RunSummary;
pub use harness::TestFile;
pub use harness::TestFiles;
pub use harness::TestVerdict;
pub use harness::ValidTestCase;
pub use harness::contains_name;
pub use harness::evaluate;
pub use harness::indented;
pub use harness::load;
pub use render::RenderError;
pub use render::render_float;

pub use convert::convert_document;
pub use convert::convert_entry;
pub use convert::convert_node;
pub use convert::convert_value;

pub use json::Json;
pub use json::JsonV;
pub use json::json_eq;

pub use model::Document;
pub use model::Entry;
pub use model::FloatRepr;
pub use model::Node;
pub use model::Value;
pub use render::parse_exponent;
pub use render::render_integer;
