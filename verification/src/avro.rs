//! Avro schemas and datums, read with the `apache_avro` crate.
//!
//! A parsed schema is kept together with the JSON text it was parsed from;
//! its fields are private to this module and `parse_schema` is the only
//! place that makes one, so every `AvroSchema` holds exactly the schema that
//! its text parses to.
use vstd::prelude::*;

verus! {

#[verifier::external_type_specification]
#[verifier::external_body]
pub struct ExAvroSchema(apache_avro::Schema);

/// What the Avro crate makes of a schema's JSON text: none where it reads a
/// schema, otherwise the text of its error.
pub uninterp spec fn avro_schema_check(text: Seq<char>) -> Option<Seq<char>>;

/// What the Avro crate makes of a datum under the schema that `schema_text`
/// parses to: none where the bytes decode to a value, otherwise the text of
/// its error.
pub uninterp spec fn avro_datum_check(schema_text: Seq<char>, body: Seq<u8>) -> Option<Seq<char>>;

/// A parsed Avro schema and the JSON text it was read from.
pub struct AvroSchema {
    text: String,
    schema: apache_avro::Schema,
}

impl View for AvroSchema {
    type V = Seq<char>;

    /// The JSON text the schema was read from.
    closed spec fn view(&self) -> Seq<char> {
        self.text@
    }
}

/// `apache_avro::Schema::parse_str`: reads a schema from its JSON text, kept
/// beside it; the error is returned as its text (`Display`). Whether it
/// succeeds, and the error's text, depend on the text alone.
#[verifier::external_body]
pub(crate) fn parse_schema(text: &str) -> (r: Result<AvroSchema, String>)
    ensures
        r is Ok <==> avro_schema_check(text@) is None,
        r matches Err(e) ==> avro_schema_check(text@) == Some(e@),
        r matches Ok(s) ==> s@ == text@,
{
    match apache_avro::Schema::parse_str(text) {
        Ok(schema) => Ok(AvroSchema { text: text.to_string(), schema }),
        Err(e) => Err(e.to_string()),
    }
}

/// `apache_avro::from_avro_datum` of `body` under the schema, without a
/// reader schema; the value is written with `Debug`, the error as its text.
/// Whether it succeeds, and the error's text, depend on the schema's text
/// and the bytes alone. The value's text is not named: a map value is a
/// `HashMap`, whose `Debug` order varies between processes. It is never
/// empty, as the derived `Debug` of `Value` starts with the variant's name.
#[verifier::external_body]
#[allow(deprecated)]
pub(crate) fn decode_datum(schema: &AvroSchema, body: &[u8]) -> (r: Result<String, String>)
    ensures
        r is Ok <==> avro_datum_check(schema@, body@) is None,
        r matches Err(e) ==> avro_datum_check(schema@, body@) == Some(e@),
        r matches Ok(t) ==> t@.len() > 0,
{
    match apache_avro::from_avro_datum(&schema.schema, &mut std::io::Cursor::new(body), None) {
        Ok(value) => Ok(format!("{value:?}")),
        Err(e) => Err(e.to_string()),
    }
}

} // verus!
