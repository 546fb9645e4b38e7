//! The library's model of Avro schemas and Avro values.
//!
//! Schemas and values are held as plain data: a number of floating-point type is
//! held by its IEEE-754 bit pattern, so that the conversions of this crate never
//! compute on floats.
use vstd::prelude::*;

verus! {

/// An Avro schema, as far as the conversions of this crate read it.
#[derive(Debug)]
pub enum AvroSchema {
    Null,
    Boolean,
    Int,
    Long,
    Float,
    Double,
    Bytes,
    Str,
    /// An array; the schema of its items.
    Array(Box<AvroSchema>),
    /// A map with string keys; the schema of its values.
    Mapping(Box<AvroSchema>),
    /// A union; its variants in declaration order.
    Union(Vec<AvroSchema>),
    /// A record; its fields in declaration order.
    Record(Vec<AvroField>),
    /// An enum; its symbols in declaration order.
    Enum(Vec<String>),
    /// A fixed-size byte string; its size.
    Fixed(usize),
    /// Any other schema (logical types, named references, ...), with the
    /// description that error messages show for it.
    Unsupported(String),
}

/// A field of a record schema.
#[derive(Debug)]
pub struct AvroField {
    pub name: String,
    pub schema: AvroSchema,
}

/// An Avro value.
#[derive(Debug)]
pub enum AvroDatum {
    Null,
    Boolean(bool),
    Int(i32),
    Long(i64),
    /// A single-precision number, by its bit pattern.
    Float(u32),
    /// A double-precision number, by its bit pattern.
    Double(u64),
    Bytes(Vec<u8>),
    Str(String),
    Array(Vec<AvroDatum>),
    /// A map: its entries, each key once.
    Mapping(Vec<(String, AvroDatum)>),
    /// The branch taken in a union, and the value in it.
    Union(u32, Box<AvroDatum>),
    /// A record: its fields, by name, in order.
    Record(Vec<(String, AvroDatum)>),
    /// An enum symbol, by index and by name.
    Enum(u32, String),
    /// A fixed-size byte string: its size and its bytes.
    Fixed(usize, Vec<u8>),
    /// Any other value (decimals, dates, ...), with the description that error
    /// messages show for it.
    Unsupported(String),
}

/// The mathematical value of an [`AvroDatum`].
pub enum SpecDatum {
    Null,
    Boolean(bool),
    Int(i32),
    Long(i64),
    Float(u32),
    Double(u64),
    Bytes(Seq<u8>),
    Str(Seq<char>),
    Array(Seq<SpecDatum>),
    Mapping(Seq<(Seq<char>, SpecDatum)>),
    Union(u32, Box<SpecDatum>),
    Record(Seq<(Seq<char>, SpecDatum)>),
    Enum(u32, Seq<char>),
    Fixed(usize, Seq<u8>),
    Unsupported(Seq<char>),
}

/// The value of a datum.
pub open spec fn datum_view(d: AvroDatum) -> SpecDatum
    decreases d, 0int,
{
    match d {
        AvroDatum::Null => SpecDatum::Null,
        AvroDatum::Boolean(b) => SpecDatum::Boolean(b),
        AvroDatum::Int(i) => SpecDatum::Int(i),
        AvroDatum::Long(l) => SpecDatum::Long(l),
        AvroDatum::Float(f) => SpecDatum::Float(f),
        AvroDatum::Double(x) => SpecDatum::Double(x),
        AvroDatum::Bytes(b) => SpecDatum::Bytes(b@),
        AvroDatum::Str(s) => SpecDatum::Str(s@),
        AvroDatum::Array(items) => SpecDatum::Array(datums_view(items@)),
        AvroDatum::Mapping(entries) => SpecDatum::Mapping(entries_view(entries@)),
        AvroDatum::Union(i, inner) => SpecDatum::Union(i, Box::new(datum_view(*inner))),
        AvroDatum::Record(fields) => SpecDatum::Record(entries_view(fields@)),
        AvroDatum::Enum(i, sym) => SpecDatum::Enum(i, sym@),
        AvroDatum::Fixed(n, b) => SpecDatum::Fixed(n, b@),
        AvroDatum::Unsupported(desc) => SpecDatum::Unsupported(desc@),
    }
}

/// The values of a sequence of datums.
pub open spec fn datums_view(s: Seq<AvroDatum>) -> Seq<SpecDatum>
    decreases s, s.len(),
{
    if s.len() == 0 {
        Seq::empty()
    } else {
        datums_view(s.drop_last()).push(datum_view(s.last()))
    }
}

/// The values of a sequence of named datums.
pub open spec fn entries_view(s: Seq<(String, AvroDatum)>) -> Seq<(Seq<char>, SpecDatum)>
    decreases s, s.len(),
{
    if s.len() == 0 {
        Seq::empty()
    } else {
        entries_view(s.drop_last()).push((s.last().0@, datum_view(s.last().1)))
    }
}

impl View for AvroDatum {
    type V = SpecDatum;

    open spec fn view(&self) -> SpecDatum {
        datum_view(*self)
    }
}

} // verus!

verus! {

/// A sequence of datums and its values agree element by element.
pub proof fn lemma_datums_view(s: Seq<AvroDatum>)
    ensures
        datums_view(s).len() == s.len(),
        forall|i: int| 0 <= i < s.len() ==> #[trigger] datums_view(s)[i] == datum_view(s[i]),
    decreases s.len(),
{
    if s.len() > 0 {
        lemma_datums_view(s.drop_last());
    }
}

/// A sequence of named datums and its values agree element by element.
pub proof fn lemma_entries_view(s: Seq<(String, AvroDatum)>)
    ensures
        entries_view(s).len() == s.len(),
        forall|i: int| 0 <= i < s.len() ==> #[trigger] entries_view(s)[i] == (s[i].0@, datum_view(s[i].1)),
    decreases s.len(),
{
    if s.len() > 0 {
        lemma_entries_view(s.drop_last());
    }
}

} // verus!
