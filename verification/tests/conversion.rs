use ravrosr::avro::{AvroDatum, AvroField, AvroSchema};
use ravrosr::convert::{avro_to_robj, gather_results, robj_to_avro, ConversionError};
use ravrosr::r_value::{Lgl, RDouble, RInput, ROutput, RealOf, NA_INTEGER};

fn chr(s: &str) -> RInput {
    RInput::Character(vec![s.to_string()])
}

fn integer(i: i32) -> RInput {
    RInput::Integer(vec![i])
}

fn dbl(bits: u64) -> RInput {
    RInput::Real(vec![Some(RDouble { bits, truncated: 0, narrowed: 0 })])
}

fn named(entries: Vec<(&str, RInput)>) -> RInput {
    RInput::List(entries.into_iter().map(|(k, v)| (k.to_string(), v)).collect())
}

fn field(name: &str, schema: AvroSchema) -> AvroField {
    AvroField { name: name.to_string(), schema }
}

fn user_schema() -> AvroSchema {
    AvroSchema::Record(vec![
        field("name", AvroSchema::Str),
        field("age", AvroSchema::Int),
        field("score", AvroSchema::Double),
    ])
}

fn datum_eq(a: &AvroDatum, b: &AvroDatum) -> bool {
    match (a, b) {
        (AvroDatum::Null, AvroDatum::Null) => true,
        (AvroDatum::Boolean(x), AvroDatum::Boolean(y)) => x == y,
        (AvroDatum::Int(x), AvroDatum::Int(y)) => x == y,
        (AvroDatum::Long(x), AvroDatum::Long(y)) => x == y,
        (AvroDatum::Float(x), AvroDatum::Float(y)) => x == y,
        (AvroDatum::Double(x), AvroDatum::Double(y)) => x == y,
        (AvroDatum::Bytes(x), AvroDatum::Bytes(y)) => x == y,
        (AvroDatum::Str(x), AvroDatum::Str(y)) => x == y,
        (AvroDatum::Array(x), AvroDatum::Array(y)) => {
            x.len() == y.len() && x.iter().zip(y.iter()).all(|(p, q)| datum_eq(p, q))
        }
        (AvroDatum::Mapping(x), AvroDatum::Mapping(y)) | (AvroDatum::Record(x), AvroDatum::Record(y)) => {
            x.len() == y.len() && x.iter().zip(y.iter()).all(|(p, q)| p.0 == q.0 && datum_eq(&p.1, &q.1))
        }
        (AvroDatum::Union(i, x), AvroDatum::Union(j, y)) => i == j && datum_eq(x, y),
        (AvroDatum::Enum(i, x), AvroDatum::Enum(j, y)) => i == j && x == y,
        (AvroDatum::Fixed(n, x), AvroDatum::Fixed(m, y)) => n == m && x == y,
        _ => false,
    }
}

fn out_eq(a: &ROutput, b: &ROutput) -> bool {
    match (a, b) {
        (ROutput::Null, ROutput::Null) => true,
        (ROutput::Logical(x), ROutput::Logical(y)) => x == y,
        (ROutput::Integer(x), ROutput::Integer(y)) => x == y,
        (ROutput::Real(x), ROutput::Real(y)) => x == y,
        (ROutput::Character(x), ROutput::Character(y)) => x == y,
        (ROutput::Raw(x), ROutput::Raw(y)) => x == y,
        (ROutput::List(x), ROutput::List(y)) => x.len() == y.len() && x.iter().zip(y.iter()).all(|(p, q)| out_eq(p, q)),
        (ROutput::NamedList(x), ROutput::NamedList(y)) => {
            x.len() == y.len() && x.iter().zip(y.iter()).all(|(p, q)| p.0 == q.0 && out_eq(&p.1, &q.1))
        }
        _ => false,
    }
}

fn message_of(r: Result<AvroDatum, ConversionError>) -> String {
    match r {
        Ok(_) => panic!("expected a failure"),
        Err(e) => e.message(),
    }
}

#[test]
fn record_of_the_readme_converts_in_schema_order() {
    let bits_95_5 = 95.5f64.to_bits();
    let payload = named(vec![("score", dbl(bits_95_5)), ("name", chr("Alice")), ("age", integer(30))]);
    let d = robj_to_avro(&payload, &user_schema()).unwrap();
    let expected = AvroDatum::Record(vec![
        ("name".to_string(), AvroDatum::Str("Alice".to_string())),
        ("age".to_string(), AvroDatum::Int(30)),
        ("score".to_string(), AvroDatum::Double(bits_95_5)),
    ]);
    assert!(datum_eq(&d, &expected));
}

#[test]
fn record_of_the_readme_comes_back() {
    let payload = named(vec![("name", chr("Alice")), ("age", integer(30)), ("score", dbl(42))]);
    let d = robj_to_avro(&payload, &user_schema()).unwrap();
    let back = avro_to_robj(&d).unwrap();
    let expected = ROutput::NamedList(vec![
        ("name".to_string(), ROutput::Character("Alice".to_string())),
        ("age".to_string(), ROutput::Integer(30)),
        ("score".to_string(), ROutput::Real(RealOf::Bits(42))),
    ]);
    assert!(out_eq(&back, &expected));
}

#[test]
fn missing_record_field_is_named_in_the_error() {
    let payload = named(vec![("name", chr("Bob"))]);
    let msg = message_of(robj_to_avro(&payload, &user_schema()));
    assert_eq!(msg, "Missing field 'age' in R list");
}

#[test]
fn record_needs_a_list() {
    let msg = message_of(robj_to_avro(&chr("x"), &user_schema()));
    assert_eq!(msg, "Expected named list for Record schema");
}

#[test]
fn boolean_reads_missing_as_false() {
    let r = robj_to_avro(&RInput::Logical(vec![Lgl::Na]), &AvroSchema::Boolean).unwrap();
    assert!(datum_eq(&r, &AvroDatum::Boolean(false)));
    let t = robj_to_avro(&RInput::Logical(vec![Lgl::True]), &AvroSchema::Boolean).unwrap();
    assert!(datum_eq(&t, &AvroDatum::Boolean(true)));
    let msg = message_of(robj_to_avro(&RInput::Logical(vec![Lgl::True, Lgl::False]), &AvroSchema::Boolean));
    assert_eq!(msg, "Expected logical value for Boolean schema");
}

#[test]
fn int_rejects_missing_and_doubles() {
    assert_eq!(message_of(robj_to_avro(&integer(NA_INTEGER), &AvroSchema::Int)), "Expected integer value for Int schema");
    assert_eq!(message_of(robj_to_avro(&dbl(0), &AvroSchema::Int)), "Expected integer value for Int schema");
}

#[test]
fn long_and_float_take_the_conversions_of_the_double() {
    let x = 3.75f64;
    let r = RInput::Real(vec![Some(RDouble { bits: x.to_bits(), truncated: x as i64, narrowed: (x as f32).to_bits() })]);
    assert!(datum_eq(&robj_to_avro(&r, &AvroSchema::Long).unwrap(), &AvroDatum::Long(3)));
    assert!(datum_eq(&robj_to_avro(&r, &AvroSchema::Float).unwrap(), &AvroDatum::Float(3.75f32.to_bits())));
    assert!(datum_eq(&robj_to_avro(&r, &AvroSchema::Double).unwrap(), &AvroDatum::Double(x.to_bits())));
    let na = RInput::Real(vec![None]);
    assert_eq!(message_of(robj_to_avro(&na, &AvroSchema::Long)), "Expected numeric value for Long schema");
    assert_eq!(message_of(robj_to_avro(&na, &AvroSchema::Float)), "Expected numeric value for Float schema");
    assert_eq!(message_of(robj_to_avro(&na, &AvroSchema::Double)), "Expected numeric value for Double schema");
}

#[test]
fn bytes_and_fixed_take_utf8_bytes() {
    let r = robj_to_avro(&chr("hé"), &AvroSchema::Bytes).unwrap();
    assert!(datum_eq(&r, &AvroDatum::Bytes(vec![0x68, 0xc3, 0xa9])));
    let f = robj_to_avro(&chr("hé"), &AvroSchema::Fixed(3)).unwrap();
    assert!(datum_eq(&f, &AvroDatum::Fixed(3, vec![0x68, 0xc3, 0xa9])));
    let msg = message_of(robj_to_avro(&chr("hé"), &AvroSchema::Fixed(4)));
    assert_eq!(msg, "Fixed size mismatch: expected 4, got 3");
    assert_eq!(message_of(robj_to_avro(&integer(1), &AvroSchema::Fixed(4))), "Expected string (or raw) for Fixed schema");
    assert_eq!(message_of(robj_to_avro(&integer(1), &AvroSchema::Bytes)), "Expected string value for String schema");
}

#[test]
fn symbols_are_strings() {
    let r = robj_to_avro(&RInput::Symbol("abc".to_string()), &AvroSchema::Str).unwrap();
    assert!(datum_eq(&r, &AvroDatum::Str("abc".to_string())));
}

#[test]
fn enum_finds_the_symbol_index() {
    let s = AvroSchema::Enum(vec!["RED".to_string(), "GREEN".to_string(), "BLUE".to_string()]);
    let r = robj_to_avro(&chr("BLUE"), &s).unwrap();
    assert!(datum_eq(&r, &AvroDatum::Enum(2, "BLUE".to_string())));
    assert_eq!(message_of(robj_to_avro(&chr("PINK"), &s)), "'PINK' is not a valid enum symbol");
    assert_eq!(message_of(robj_to_avro(&integer(1), &s)), "Expected string value for Enum schema");
}

#[test]
fn array_converts_each_element_and_fails_on_the_first_bad_one() {
    let s = AvroSchema::Array(Box::new(AvroSchema::Int));
    let good = named(vec![("", integer(1)), ("", integer(2))]);
    let r = robj_to_avro(&good, &s).unwrap();
    assert!(datum_eq(&r, &AvroDatum::Array(vec![AvroDatum::Int(1), AvroDatum::Int(2)])));
    let bad = named(vec![("", integer(1)), ("", chr("x")), ("", RInput::Other)]);
    assert_eq!(message_of(robj_to_avro(&bad, &s)), "Expected integer value for Int schema");
    assert_eq!(message_of(robj_to_avro(&integer(1), &s)), "Expected list for Array schema");
}

#[test]
fn map_keeps_first_position_and_last_value() {
    let s = AvroSchema::Mapping(Box::new(AvroSchema::Int));
    let x = named(vec![("a", integer(1)), ("b", integer(2)), ("a", integer(3))]);
    let r = robj_to_avro(&x, &s).unwrap();
    let expected = AvroDatum::Mapping(vec![
        ("a".to_string(), AvroDatum::Int(3)),
        ("b".to_string(), AvroDatum::Int(2)),
    ]);
    assert!(datum_eq(&r, &expected));
    assert_eq!(message_of(robj_to_avro(&integer(1), &s)), "Expected named list for Map schema");
}

#[test]
fn union_takes_first_accepting_branch() {
    let s = AvroSchema::Union(vec![AvroSchema::Null, AvroSchema::Int, AvroSchema::Str]);
    let n = robj_to_avro(&RInput::Null, &s).unwrap();
    assert!(datum_eq(&n, &AvroDatum::Union(0, Box::new(AvroDatum::Null))));
    let t = robj_to_avro(&chr("hi"), &s).unwrap();
    assert!(datum_eq(&t, &AvroDatum::Union(2, Box::new(AvroDatum::Str("hi".to_string())))));
    let i = robj_to_avro(&integer(7), &s).unwrap();
    assert!(datum_eq(&i, &AvroDatum::Union(1, Box::new(AvroDatum::Int(7)))));
    assert_eq!(message_of(robj_to_avro(&dbl(1), &s)), "Could not match R value to any union variant");
    let no_null = AvroSchema::Union(vec![AvroSchema::Int]);
    assert_eq!(message_of(robj_to_avro(&RInput::Null, &no_null)), "Null not allowed in this union");
}

#[test]
fn null_schema_takes_anything() {
    let r = robj_to_avro(&integer(5), &AvroSchema::Null).unwrap();
    assert!(datum_eq(&r, &AvroDatum::Null));
}

#[test]
fn unsupported_schema_and_value_fail_with_their_description() {
    let msg = message_of(robj_to_avro(&integer(5), &AvroSchema::Unsupported("Uuid".to_string())));
    assert_eq!(msg, "Unsupported Avro schema type: Uuid");
    match avro_to_robj(&AvroDatum::Array(vec![AvroDatum::Int(1), AvroDatum::Unsupported("Date(3)".to_string())])) {
        Ok(_) => panic!("expected a failure"),
        Err(e) => assert_eq!(e.message(), "Unsupported Avro value type: Date(3)"),
    }
}

#[test]
fn avro_values_become_r_objects() {
    let d = AvroDatum::Union(1, Box::new(AvroDatum::Mapping(vec![
        ("k".to_string(), AvroDatum::Long(-5)),
        ("f".to_string(), AvroDatum::Float(7)),
        ("e".to_string(), AvroDatum::Enum(0, "A".to_string())),
        ("x".to_string(), AvroDatum::Fixed(2, vec![1, 2])),
        ("b".to_string(), AvroDatum::Bytes(vec![9])),
        ("t".to_string(), AvroDatum::Boolean(true)),
        ("n".to_string(), AvroDatum::Null),
    ])));
    let expected = ROutput::NamedList(vec![
        ("k".to_string(), ROutput::Real(RealOf::Long(-5))),
        ("f".to_string(), ROutput::Real(RealOf::Single(7))),
        ("e".to_string(), ROutput::Character("A".to_string())),
        ("x".to_string(), ROutput::Raw(vec![1, 2])),
        ("b".to_string(), ROutput::Raw(vec![9])),
        ("t".to_string(), ROutput::Logical(true)),
        ("n".to_string(), ROutput::Null),
    ]);
    assert!(out_eq(&avro_to_robj(&d).unwrap(), &expected));
    let arr = AvroDatum::Array(vec![AvroDatum::Int(1), AvroDatum::Str("a".to_string())]);
    let expected_arr = ROutput::List(vec![ROutput::Integer(1), ROutput::Character("a".to_string())]);
    assert!(out_eq(&avro_to_robj(&arr).unwrap(), &expected_arr));
}

#[test]
fn one_result_stands_alone_and_others_form_a_list() {
    let one = gather_results(vec![ROutput::Integer(1)]);
    assert!(out_eq(&one, &ROutput::Integer(1)));
    let two = gather_results(vec![ROutput::Integer(1), ROutput::Integer(2)]);
    assert!(out_eq(&two, &ROutput::List(vec![ROutput::Integer(1), ROutput::Integer(2)])));
    let none = gather_results(vec![]);
    assert!(out_eq(&none, &ROutput::List(vec![])));
}

#[test]
fn type_mapping_round_trip_on_nested_data() {
    let schema = AvroSchema::Record(vec![
        field("tags", AvroSchema::Array(Box::new(AvroSchema::Str))),
        field("counts", AvroSchema::Mapping(Box::new(AvroSchema::Int))),
        field("flag", AvroSchema::Boolean),
        field("maybe", AvroSchema::Union(vec![AvroSchema::Null, AvroSchema::Int])),
    ]);
    let x = named(vec![
        ("tags", named(vec![("", chr("a")), ("", chr("b"))])),
        ("counts", named(vec![("x", integer(1)), ("y", integer(2))])),
        ("flag", RInput::Logical(vec![Lgl::False])),
        ("maybe", RInput::Null),
    ]);
    let back = avro_to_robj(&robj_to_avro(&x, &schema).unwrap()).unwrap();
    let expected = ROutput::NamedList(vec![
        ("tags".to_string(), ROutput::List(vec![ROutput::Character("a".to_string()), ROutput::Character("b".to_string())])),
        ("counts".to_string(), ROutput::NamedList(vec![
            ("x".to_string(), ROutput::Integer(1)),
            ("y".to_string(), ROutput::Integer(2)),
        ])),
        ("flag".to_string(), ROutput::Logical(false)),
        ("maybe".to_string(), ROutput::Null),
    ]);
    assert!(out_eq(&back, &expected));
}

#[test]
fn null_reads_as_the_empty_list() {
    let arr = robj_to_avro(&RInput::Null, &AvroSchema::Array(Box::new(AvroSchema::Int))).unwrap();
    assert!(datum_eq(&arr, &AvroDatum::Array(vec![])));
    let map = robj_to_avro(&RInput::Null, &AvroSchema::Mapping(Box::new(AvroSchema::Int))).unwrap();
    assert!(datum_eq(&map, &AvroDatum::Mapping(vec![])));
    let msg = message_of(robj_to_avro(&RInput::Null, &user_schema()));
    assert_eq!(msg, "Missing field 'name' in R list");
}

#[test]
fn bytes_and_fixed_take_raw_vectors() {
    let r = robj_to_avro(&RInput::Raw(vec![0, 255, 7]), &AvroSchema::Bytes).unwrap();
    assert!(datum_eq(&r, &AvroDatum::Bytes(vec![0, 255, 7])));
    let f = robj_to_avro(&RInput::Raw(vec![1, 2]), &AvroSchema::Fixed(2)).unwrap();
    assert!(datum_eq(&f, &AvroDatum::Fixed(2, vec![1, 2])));
    let msg = message_of(robj_to_avro(&RInput::Raw(vec![1, 2, 3]), &AvroSchema::Fixed(2)));
    assert_eq!(msg, "Fixed size mismatch: expected 2, got 3");
    let back = avro_to_robj(&r).unwrap();
    assert!(out_eq(&back, &ROutput::Raw(vec![0, 255, 7])));
}
