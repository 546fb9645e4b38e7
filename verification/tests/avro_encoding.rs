use std::collections::HashMap;

use apache_avro::types::Value;

use ravrosr::avro::{AvroDatum, AvroField, AvroSchema};
use ravrosr::schema::parse_schema;
use ravrosr::convert::{avro_to_robj, robj_to_avro};
use ravrosr::r_value::{Lgl, RDouble, RInput, ROutput, RealOf};
use ravrosr::wire::{frame_message, split_message};

fn to_value(d: &AvroDatum) -> Value {
    match d {
        AvroDatum::Null => Value::Null,
        AvroDatum::Boolean(b) => Value::Boolean(*b),
        AvroDatum::Int(i) => Value::Int(*i),
        AvroDatum::Long(l) => Value::Long(*l),
        AvroDatum::Float(b) => Value::Float(f32::from_bits(*b)),
        AvroDatum::Double(b) => Value::Double(f64::from_bits(*b)),
        AvroDatum::Bytes(b) => Value::Bytes(b.clone()),
        AvroDatum::Str(s) => Value::String(s.clone()),
        AvroDatum::Array(items) => Value::Array(items.iter().map(to_value).collect()),
        AvroDatum::Mapping(es) => {
            Value::Map(es.iter().map(|(k, v)| (k.clone(), to_value(v))).collect::<HashMap<_, _>>())
        }
        AvroDatum::Union(i, v) => Value::Union(*i, Box::new(to_value(v))),
        AvroDatum::Record(fs) => Value::Record(fs.iter().map(|(k, v)| (k.clone(), to_value(v))).collect()),
        AvroDatum::Enum(i, s) => Value::Enum(*i, s.clone()),
        AvroDatum::Fixed(n, b) => Value::Fixed(*n, b.clone()),
        AvroDatum::Unsupported(d) => panic!("unsupported {}", d),
    }
}

fn from_value(v: &Value) -> AvroDatum {
    match v {
        Value::Null => AvroDatum::Null,
        Value::Boolean(b) => AvroDatum::Boolean(*b),
        Value::Int(i) => AvroDatum::Int(*i),
        Value::Long(l) => AvroDatum::Long(*l),
        Value::Float(f) => AvroDatum::Float(f.to_bits()),
        Value::Double(x) => AvroDatum::Double(x.to_bits()),
        Value::Bytes(b) => AvroDatum::Bytes(b.clone()),
        Value::String(s) => AvroDatum::Str(s.clone()),
        Value::Array(items) => AvroDatum::Array(items.iter().map(from_value).collect()),
        Value::Map(m) => AvroDatum::Mapping(m.iter().map(|(k, v)| (k.clone(), from_value(v))).collect()),
        Value::Union(i, v) => AvroDatum::Union(*i, Box::new(from_value(v))),
        Value::Record(fs) => AvroDatum::Record(fs.iter().map(|(k, v)| (k.clone(), from_value(v))).collect()),
        Value::Enum(i, s) => AvroDatum::Enum(*i, s.clone()),
        Value::Fixed(n, b) => AvroDatum::Fixed(*n, b.clone()),
        other => AvroDatum::Unsupported(format!("{:?}", other)),
    }
}

fn double(x: f64) -> RInput {
    RInput::Real(vec![Some(RDouble { bits: x.to_bits(), truncated: x as i64, narrowed: (x as f32).to_bits() })])
}

fn chr(s: &str) -> RInput {
    RInput::Character(vec![s.to_string()])
}

fn field<'a>(out: &'a ROutput, name: &str) -> &'a ROutput {
    match out {
        ROutput::NamedList(items) => &items.iter().find(|(k, _)| k == name).unwrap().1,
        _ => panic!("expected a named list"),
    }
}

const USER_SCHEMA: &str = r#"{
  "type": "record",
  "name": "User",
  "fields": [
    {"name": "name", "type": "string"},
    {"name": "age", "type": "int"},
    {"name": "score", "type": "double"}
  ]
}"#;

#[test]
fn readme_local_round_trip_gives_back_the_name() {
    let payload = RInput::List(vec![
        ("name".to_string(), chr("Alice")),
        ("age".to_string(), RInput::Integer(vec![30])),
        ("score".to_string(), double(95.5)),
    ]);
    let (schema, model) = parse_schema(USER_SCHEMA).ok().unwrap();
    let datum = robj_to_avro(&payload, &model).ok().unwrap();
    let encoded = apache_avro::to_avro_datum(&schema, to_value(&datum)).unwrap();
    let decoded = apache_avro::from_avro_datum(&schema, &mut encoded.as_slice(), None).unwrap();
    let out = avro_to_robj(&from_value(&decoded)).unwrap();
    match field(&out, "name") {
        ROutput::Character(s) => assert_eq!(s, "Alice"),
        other => panic!("unexpected {:?}", other),
    }
    match field(&out, "age") {
        ROutput::Integer(i) => assert_eq!(*i, 30),
        other => panic!("unexpected {:?}", other),
    }
    match field(&out, "score") {
        ROutput::Real(RealOf::Bits(b)) => assert_eq!(f64::from_bits(*b), 95.5),
        other => panic!("unexpected {:?}", other),
    }
}

#[test]
fn converted_values_are_accepted_by_the_encoder() {
    let (schema, model) = parse_schema(
        r#"{"type": "record", "name": "R", "fields": [
            {"name": "opt", "type": ["null", "long", "string"]},
            {"name": "tags", "type": {"type": "array", "items": "string"}},
            {"name": "attrs", "type": {"type": "map", "values": "float"}},
            {"name": "color", "type": {"type": "enum", "name": "C", "symbols": ["RED", "GREEN"]}},
            {"name": "id", "type": {"type": "fixed", "name": "F", "size": 2}},
            {"name": "ok", "type": "boolean"},
            {"name": "blob", "type": "bytes"}
        ]}"#,
    )
    .unwrap();
    let payload = RInput::List(vec![
        ("id".to_string(), chr("ab")),
        ("opt".to_string(), double(12.9)),
        ("tags".to_string(), RInput::List(vec![("".to_string(), chr("x"))])),
        ("attrs".to_string(), RInput::List(vec![("w".to_string(), double(0.5)), ("w".to_string(), double(1.5))])),
        ("color".to_string(), chr("GREEN")),
        ("ok".to_string(), RInput::Logical(vec![Lgl::True])),
        ("blob".to_string(), chr("z")),
    ]);
    let datum = robj_to_avro(&payload, &model).unwrap();
    let encoded = apache_avro::to_avro_datum(&schema, to_value(&datum)).unwrap();
    let decoded = apache_avro::from_avro_datum(&schema, &mut encoded.as_slice(), None).unwrap();
    let out = avro_to_robj(&from_value(&decoded)).unwrap();
    match field(&out, "opt") {
        ROutput::Real(RealOf::Long(l)) => assert_eq!(*l, 12),
        other => panic!("unexpected {:?}", other),
    }
    match field(field(&out, "attrs"), "w") {
        ROutput::Real(RealOf::Single(b)) => assert_eq!(f32::from_bits(*b), 1.5),
        other => panic!("unexpected {:?}", other),
    }
    match field(&out, "color") {
        ROutput::Character(s) => assert_eq!(s, "GREEN"),
        other => panic!("unexpected {:?}", other),
    }
    match field(&out, "id") {
        ROutput::Raw(b) => assert_eq!(b, &vec![b'a', b'b']),
        other => panic!("unexpected {:?}", other),
    }
}

#[test]
fn wire_message_carries_the_encoding_of_the_value() {
    let payload = RInput::List(vec![
        ("name".to_string(), chr("Bob")),
        ("age".to_string(), RInput::Integer(vec![42])),
        ("score".to_string(), double(1.0)),
    ]);
    let (schema, model) = parse_schema(USER_SCHEMA).ok().unwrap();
    let datum = robj_to_avro(&payload, &model).ok().unwrap();
    let encoded = apache_avro::to_avro_datum(&schema, to_value(&datum)).unwrap();
    let wire = frame_message(7, &encoded);
    assert_eq!(&wire[..5], &[0, 0, 0, 0, 7]);
    let (id, body) = split_message(&wire).unwrap();
    assert_eq!(id, 7);
    let decoded = apache_avro::from_avro_datum(&schema, &mut &body[..], None).unwrap();
    let out = avro_to_robj(&from_value(&decoded)).unwrap();
    match field(&out, "age") {
        ROutput::Integer(i) => assert_eq!(*i, 42),
        other => panic!("unexpected {:?}", other),
    }
}

fn schema_eq(a: &AvroSchema, b: &AvroSchema) -> bool {
    match (a, b) {
        (AvroSchema::Null, AvroSchema::Null)
        | (AvroSchema::Boolean, AvroSchema::Boolean)
        | (AvroSchema::Int, AvroSchema::Int)
        | (AvroSchema::Long, AvroSchema::Long)
        | (AvroSchema::Float, AvroSchema::Float)
        | (AvroSchema::Double, AvroSchema::Double)
        | (AvroSchema::Bytes, AvroSchema::Bytes)
        | (AvroSchema::Str, AvroSchema::Str) => true,
        (AvroSchema::Array(x), AvroSchema::Array(y)) | (AvroSchema::Mapping(x), AvroSchema::Mapping(y)) => schema_eq(x, y),
        (AvroSchema::Union(x), AvroSchema::Union(y)) => {
            x.len() == y.len() && x.iter().zip(y.iter()).all(|(p, q)| schema_eq(p, q))
        }
        (AvroSchema::Record(x), AvroSchema::Record(y)) => {
            x.len() == y.len() && x.iter().zip(y.iter()).all(|(p, q)| p.name == q.name && schema_eq(&p.schema, &q.schema))
        }
        (AvroSchema::Enum(x), AvroSchema::Enum(y)) => x == y,
        (AvroSchema::Fixed(x), AvroSchema::Fixed(y)) => x == y,
        (AvroSchema::Unsupported(_), AvroSchema::Unsupported(_)) => true,
        _ => false,
    }
}

#[test]
fn schema_text_is_modelled() {
    let (_, model) = parse_schema(
        r#"{"type": "record", "name": "R", "fields": [
            {"name": "a", "type": ["null", {"type": "array", "items": "long"}]},
            {"name": "m", "type": {"type": "map", "values": "bytes"}},
            {"name": "e", "type": {"type": "enum", "name": "E", "symbols": ["X", "Y"]}},
            {"name": "f", "type": {"type": "fixed", "name": "F", "size": 4}},
            {"name": "d", "type": {"type": "int", "logicalType": "date"}}
        ]}"#,
    )
    .ok()
    .unwrap();
    let expected = AvroSchema::Record(vec![
        AvroField {
            name: "a".to_string(),
            schema: AvroSchema::Union(vec![AvroSchema::Null, AvroSchema::Array(Box::new(AvroSchema::Long))]),
        },
        AvroField { name: "m".to_string(), schema: AvroSchema::Mapping(Box::new(AvroSchema::Bytes)) },
        AvroField { name: "e".to_string(), schema: AvroSchema::Enum(vec!["X".to_string(), "Y".to_string()]) },
        AvroField { name: "f".to_string(), schema: AvroSchema::Fixed(4) },
        AvroField { name: "d".to_string(), schema: AvroSchema::Unsupported(String::new()) },
    ]);
    assert!(schema_eq(&model, &expected));
    match &model {
        AvroSchema::Record(fs) => match &fs[4].schema {
            AvroSchema::Unsupported(desc) => assert_eq!(desc, "Date"),
            other => panic!("unexpected {:?}", other),
        },
        other => panic!("unexpected {:?}", other),
    }
}

#[test]
fn invalid_schema_text_is_refused() {
    assert!(parse_schema("{\"type\": \"nope\"}").is_err());
    assert!(parse_schema("not json").is_err());
}

#[test]
fn parsed_schema_reports_conversion_failures() {
    let (_, model) = parse_schema(USER_SCHEMA).ok().unwrap();
    assert!(matches!(model, AvroSchema::Record(_)));
    match robj_to_avro(&chr("x"), &model) {
        Err(error) => assert_eq!(error.message(), "Expected named list for Record schema"),
        Ok(_) => panic!("expected a conversion error"),
    }
}
