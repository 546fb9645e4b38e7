//! Avro schemas read from their JSON text: parsing by apache-avro, and the
//! library's model of the parsed schema.
use vstd::prelude::*;

use apache_avro::schema::RecordField;
use apache_avro::Schema;

use crate::avro::{AvroField, AvroSchema};

verus! {

#[verifier::external_type_specification]
#[verifier::external_body]
pub struct ExSchema(Schema);

#[verifier::external_type_specification]
#[verifier::external_body]
pub struct ExRecordField(RecordField);

#[verifier::external_type_specification]
#[verifier::external_body]
pub struct ExAvroError(apache_avro::Error);

/// Whether `json` is the text of an Avro schema that apache-avro accepts.
pub uninterp spec fn schema_text_valid(json: Seq<char>) -> bool;

/// Calls `Schema::parse_str` of apache-avro. The contract claims that whether
/// it succeeds depends on the text alone. Nothing is claimed of the parsed
/// schema, whose structure the library reads through the accessors below.
#[verifier::external_body]
fn parse_schema_text(json: &str) -> (r: Result<Schema, apache_avro::Error>)
    ensures
        r is Ok <==> schema_text_valid(json@),
{
    Schema::parse_str(json)
}

/// A schema of apache-avro of a kind that has parts.
pub enum SchemaNode<'a> {
    Array(&'a Schema),
    Mapping(&'a Schema),
    Union(&'a [Schema]),
    Record(&'a [RecordField]),
    Enum(&'a Vec<String>),
    Fixed(usize),
    /// A primitive, logical or named-reference schema.
    Other,
}

/// Reads the kind of an apache-avro schema without parts (`Schema::Null`
/// to `Schema::String`), none for the others. The contract claims only that a
/// kind read is one of those primitives; which schema gives which is not
/// claimed, the schema being opaque to the library.
#[verifier::external_body]
fn primitive_model(s: &Schema) -> (r: Option<AvroSchema>)
    ensures
        r matches Some(p) ==> p is Null || p is Boolean || p is Int || p is Long || p is Float || p is Double
            || p is Bytes || p is Str,
{
    match s {
        Schema::Null => Some(AvroSchema::Null),
        Schema::Boolean => Some(AvroSchema::Boolean),
        Schema::Int => Some(AvroSchema::Int),
        Schema::Long => Some(AvroSchema::Long),
        Schema::Float => Some(AvroSchema::Float),
        Schema::Double => Some(AvroSchema::Double),
        Schema::Bytes => Some(AvroSchema::Bytes),
        Schema::String => Some(AvroSchema::Str),
        _ => None,
    }
}

/// Reads the parts of an apache-avro schema: the items of an array, the
/// values of a map (`types`), the variants of a union (`variants`), the
/// fields of a record, the symbols of an enum, the size of a fixed. Nothing is
/// claimed: the schema is opaque to the library.
#[verifier::external_body]
fn schema_node(s: &Schema) -> (r: SchemaNode<'_>) {
    match s {
        Schema::Array(a) => SchemaNode::Array(&a.items),
        Schema::Map(m) => SchemaNode::Mapping(&m.types),
        Schema::Union(u) => SchemaNode::Union(u.variants()),
        Schema::Record(r) => SchemaNode::Record(&r.fields),
        Schema::Enum(e) => SchemaNode::Enum(&e.symbols),
        Schema::Fixed(f) => SchemaNode::Fixed(f.size),
        _ => SchemaNode::Other,
    }
}

/// Reads the name and the schema of a record field of apache-avro. Nothing
/// is claimed: the field is opaque to the library.
#[verifier::external_body]
fn field_parts(f: &RecordField) -> (r: (&String, &Schema)) {
    (&f.name, &f.schema)
}

/// The `Debug` text of an apache-avro schema (`{:?}`), which error messages
/// show for a schema that the conversions do not handle. The contract claims
/// only that the text is not empty: `Schema` derives `Debug`, which writes at
/// least the name of the variant.
#[verifier::external_body]
fn schema_description(s: &Schema) -> (r: String)
    ensures
        r@.len() > 0,
{
    format!("{:?}", s)
}

/// Whether the model `m`, read to a depth of `depth` levels, was read whole:
/// every array, map, union and record in it stands within the first `depth`
/// levels of nesting, and an unsupported part is a schema that the
/// conversions do not handle (shown by its non-empty `Debug` text), not one
/// cut short by the depth (shown by an empty text), except at the depth
/// itself.
pub open spec fn read_whole(m: AvroSchema, depth: nat) -> bool
    decreases m,
{
    match m {
        AvroSchema::Unsupported(d) => depth == 0 || d@.len() > 0,
        AvroSchema::Array(items) => depth > 0 && read_whole(*items, (depth - 1) as nat),
        AvroSchema::Mapping(values) => depth > 0 && read_whole(*values, (depth - 1) as nat),
        AvroSchema::Union(vs) => depth > 0 && forall|k: int|
            0 <= k < vs@.len() ==> read_whole(#[trigger] vs@[k], (depth - 1) as nat),
        AvroSchema::Record(fs) => depth > 0 && forall|k: int|
            0 <= k < fs@.len() ==> read_whole(#[trigger] fs@[k].schema, (depth - 1) as nat),
        _ => true,
    }
}

/// The library's model of an apache-avro schema, reading at most `depth`
/// levels of nesting; a part nested deeper is modelled as unsupported, with
/// an empty description. Every part within the depth is read: an array, map,
/// union or record within it has the models of its parts read to the depth
/// that is left.
fn schema_model(s: &Schema, depth: usize) -> (r: AvroSchema)
    ensures
        read_whole(r, depth as nat),
    decreases depth,
{
    if let Some(p) = primitive_model(s) {
        return p;
    }
    if depth == 0 {
        return AvroSchema::Unsupported(String::new());
    }
    match schema_node(s) {
        SchemaNode::Array(items) => AvroSchema::Array(Box::new(schema_model(items, depth - 1))),
        SchemaNode::Mapping(values) => AvroSchema::Mapping(Box::new(schema_model(values, depth - 1))),
        SchemaNode::Union(variants) => {
            let mut vs: Vec<AvroSchema> = Vec::new();
            let mut i: usize = 0;
            while i < variants.len()
                invariant
                    i <= variants@.len(),
                    depth > 0,
                    vs@.len() == i,
                    forall|k: int| 0 <= k < i ==> read_whole(#[trigger] vs@[k], (depth - 1) as nat),
                decreases variants.len() - i,
            {
                vs.push(schema_model(&variants[i], depth - 1));
                i += 1;
            }
            AvroSchema::Union(vs)
        },
        SchemaNode::Record(fields) => {
            let mut fs: Vec<AvroField> = Vec::new();
            let mut i: usize = 0;
            while i < fields.len()
                invariant
                    i <= fields@.len(),
                    depth > 0,
                    fs@.len() == i,
                    forall|k: int| 0 <= k < i ==> read_whole(#[trigger] fs@[k].schema, (depth - 1) as nat),
                decreases fields.len() - i,
            {
                let (name, field_schema) = field_parts(&fields[i]);
                fs.push(AvroField { name: name.clone(), schema: schema_model(field_schema, depth - 1) });
                i += 1;
            }
            AvroSchema::Record(fs)
        },
        SchemaNode::Enum(symbols) => AvroSchema::Enum(symbols.clone()),
        SchemaNode::Fixed(size) => AvroSchema::Fixed(size),
        SchemaNode::Other => AvroSchema::Unsupported(schema_description(s)),
    }
}

/// Parses the JSON text of an Avro schema with apache-avro, and gives the
/// parsed schema together with the library's model of it, read to a depth of
/// as many levels as the text has bytes; the parser's error where the text is
/// not a schema. The model is read whole to that depth. Which model comes of
/// which text is not stated further: the schema is opaque to the library, and
/// its accessors above claim nothing of its structure.
pub fn parse_schema(json: &str) -> (r: Result<(Schema, AvroSchema), apache_avro::Error>)
    ensures
        r is Ok <==> schema_text_valid(json@),
        r matches Ok((_, m)) ==> read_whole(m, json.len() as nat),
{
    match parse_schema_text(json) {
        Ok(schema) => {
            let model = schema_model(&schema, json.len());
            Ok((schema, model))
        },
        Err(e) => Err(e),
    }
}

} // verus!
