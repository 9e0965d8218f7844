//! JSON parsing and printing through serde_json. The document value is
//! opaque to this library; it is parsed, carried, and printed back.

use vstd::prelude::*;

verus! {

#[verifier::external_type_specification]
#[verifier::external_body]
pub struct ExJsonValue(serde_json::Value);

#[verifier::external_type_specification]
#[verifier::external_body]
pub struct ExJsonError(serde_json::Error);

/// Parses and prints JSON documents.
#[derive(Debug)]
pub struct JsonParser;

impl JsonParser {
    /// Relies on `serde_json::from_str`: parses the text into a JSON value,
    /// or reports the input's first syntax error.
    #[verifier::external_body]
    pub fn parse(&self, input: &str) -> Result<serde_json::Value, serde_json::Error> {
        serde_json::from_str(input)
    }

    /// Relies on `serde_json::Value`'s display form: prints the value as
    /// compact JSON text.
    #[verifier::external_body]
    pub fn stringify(&self, value: &serde_json::Value) -> String {
        value.to_string()
    }
}

} // verus!
