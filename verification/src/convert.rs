//! Schema-directed conversion of R data to Avro values, and of Avro values back
//! to R data.
use vstd::prelude::*;
use vstd::string::*;

use crate::text::{decimal, push_decimal};
use crate::avro::{datum_view, datums_view, entries_view, lemma_datums_view, lemma_entries_view, AvroDatum, AvroField, AvroSchema, SpecDatum};
use crate::r_value::{
    output_view, outputs_view, named_outputs_view, r_bytes, r_integer, r_list, r_logical, r_real, r_str, Lgl, RInput, ROutput,
    RealOf, SpecROutput,
};

verus! {

broadcast use vstd::seq::group_seq_axioms;

/// Why a conversion failed.
#[derive(Debug)]
pub enum ConversionError {
    /// A `boolean` wants a logical scalar.
    ExpectedLogical,
    /// An `int` wants an integer scalar.
    ExpectedInteger,
    /// A `long` wants a double scalar.
    ExpectedLongNumber,
    /// A `float` wants a double scalar.
    ExpectedFloatNumber,
    /// A `double` wants a double scalar.
    ExpectedDoubleNumber,
    /// A `string` or `bytes` wants a string scalar.
    ExpectedString,
    /// An `array` wants a list.
    ExpectedArrayList,
    /// A `map` wants a list.
    ExpectedMapList,
    /// A `record` wants a list.
    ExpectedRecordList,
    /// An `enum` wants a string scalar.
    ExpectedEnumString,
    /// A `fixed` wants a string scalar.
    ExpectedFixedString,
    /// `NULL` was given for a union without a `null` branch.
    NullNotInUnion,
    /// No branch of a union accepts the value.
    NoUnionMatch,
    /// The list lacks an element named after this field.
    MissingField(String),
    /// The string is not a symbol of the enum.
    NotEnumSymbol(String),
    /// The string does not have the size of the `fixed`.
    FixedSizeMismatch { expected: usize, got: usize },
    /// The schema is of a kind that the conversion does not handle.
    UnsupportedSchema(String),
    /// The value is of a kind that the conversion does not handle.
    UnsupportedValue(String),
}

/// The mathematical value of a [`ConversionError`].
pub enum SpecConversionError {
    ExpectedLogical,
    ExpectedInteger,
    ExpectedLongNumber,
    ExpectedFloatNumber,
    ExpectedDoubleNumber,
    ExpectedString,
    ExpectedArrayList,
    ExpectedMapList,
    ExpectedRecordList,
    ExpectedEnumString,
    ExpectedFixedString,
    NullNotInUnion,
    NoUnionMatch,
    MissingField(Seq<char>),
    NotEnumSymbol(Seq<char>),
    FixedSizeMismatch { expected: usize, got: usize },
    UnsupportedSchema(Seq<char>),
    UnsupportedValue(Seq<char>),
}

impl View for ConversionError {
    type V = SpecConversionError;

    open spec fn view(&self) -> SpecConversionError {
        match self {
            ConversionError::ExpectedLogical => SpecConversionError::ExpectedLogical,
            ConversionError::ExpectedInteger => SpecConversionError::ExpectedInteger,
            ConversionError::ExpectedLongNumber => SpecConversionError::ExpectedLongNumber,
            ConversionError::ExpectedFloatNumber => SpecConversionError::ExpectedFloatNumber,
            ConversionError::ExpectedDoubleNumber => SpecConversionError::ExpectedDoubleNumber,
            ConversionError::ExpectedString => SpecConversionError::ExpectedString,
            ConversionError::ExpectedArrayList => SpecConversionError::ExpectedArrayList,
            ConversionError::ExpectedMapList => SpecConversionError::ExpectedMapList,
            ConversionError::ExpectedRecordList => SpecConversionError::ExpectedRecordList,
            ConversionError::ExpectedEnumString => SpecConversionError::ExpectedEnumString,
            ConversionError::ExpectedFixedString => SpecConversionError::ExpectedFixedString,
            ConversionError::NullNotInUnion => SpecConversionError::NullNotInUnion,
            ConversionError::NoUnionMatch => SpecConversionError::NoUnionMatch,
            ConversionError::MissingField(f) => SpecConversionError::MissingField(f@),
            ConversionError::NotEnumSymbol(s) => SpecConversionError::NotEnumSymbol(s@),
            ConversionError::FixedSizeMismatch { expected, got } => SpecConversionError::FixedSizeMismatch {
                expected: *expected,
                got: *got,
            },
            ConversionError::UnsupportedSchema(d) => SpecConversionError::UnsupportedSchema(d@),
            ConversionError::UnsupportedValue(d) => SpecConversionError::UnsupportedValue(d@),
        }
    }
}

/// The value of the outcome of converting R data to an Avro value.
pub open spec fn datum_result_view(r: Result<AvroDatum, ConversionError>) -> Result<SpecDatum, SpecConversionError> {
    match r {
        Ok(d) => Ok(d@),
        Err(e) => Err(e@),
    }
}

/// The value of the outcome of converting an Avro value to R data.
pub open spec fn output_result_view(r: Result<ROutput, ConversionError>) -> Result<SpecROutput, SpecConversionError> {
    match r {
        Ok(o) => Ok(o@),
        Err(e) => Err(e@),
    }
}

// ---------------------------------------------------------------------------
// R data to Avro values
// ---------------------------------------------------------------------------

/// The Avro value that R object `x` becomes under schema `s`, or why it
/// becomes none.
pub open spec fn to_datum(x: RInput, s: AvroSchema) -> Result<SpecDatum, SpecConversionError>
    decreases s, 0int,
{
    match s {
        AvroSchema::Null => Ok(SpecDatum::Null),
        AvroSchema::Boolean => match r_logical(x) {
            Some(l) => Ok(SpecDatum::Boolean(l == Lgl::True)),
            None => Err(SpecConversionError::ExpectedLogical),
        },
        AvroSchema::Int => match r_integer(x) {
            Some(i) => Ok(SpecDatum::Int(i)),
            None => Err(SpecConversionError::ExpectedInteger),
        },
        AvroSchema::Long => match r_real(x) {
            Some(r) => Ok(SpecDatum::Long(r.truncated)),
            None => Err(SpecConversionError::ExpectedLongNumber),
        },
        AvroSchema::Float => match r_real(x) {
            Some(r) => Ok(SpecDatum::Float(r.narrowed)),
            None => Err(SpecConversionError::ExpectedFloatNumber),
        },
        AvroSchema::Double => match r_real(x) {
            Some(r) => Ok(SpecDatum::Double(r.bits)),
            None => Err(SpecConversionError::ExpectedDoubleNumber),
        },
        AvroSchema::Str => match r_str(x) {
            Some(t) => Ok(SpecDatum::Str(t)),
            None => Err(SpecConversionError::ExpectedString),
        },
        AvroSchema::Bytes => match r_bytes(x) {
            Some(b) => Ok(SpecDatum::Bytes(b)),
            None => Err(SpecConversionError::ExpectedString),
        },
        AvroSchema::Array(inner) => match r_list(x) {
            Some(es) => match array_items(es, *inner, es.len() as int) {
                Ok(items) => Ok(SpecDatum::Array(items)),
                Err(e) => Err(e),
            },
            None => Err(SpecConversionError::ExpectedArrayList),
        },
        AvroSchema::Mapping(inner) => match r_list(x) {
            Some(es) => match map_entries(es, *inner, es.len() as int) {
                Ok(entries) => Ok(SpecDatum::Mapping(entries)),
                Err(e) => Err(e),
            },
            None => Err(SpecConversionError::ExpectedMapList),
        },
        AvroSchema::Union(vs) => if x is Null {
            null_branch(vs@, 0)
        } else {
            union_branch(x, vs@, 0)
        },
        AvroSchema::Record(fs) => match r_list(x) {
            Some(es) => match record_fields(es, fs@, fs@.len() as int) {
                Ok(fields) => Ok(SpecDatum::Record(fields)),
                Err(e) => Err(e),
            },
            None => Err(SpecConversionError::ExpectedRecordList),
        },
        AvroSchema::Enum(syms) => match r_str(x) {
            Some(t) => match symbol_index(syms@, t, 0) {
                Some(k) => Ok(SpecDatum::Enum(k as u32, t)),
                None => Err(SpecConversionError::NotEnumSymbol(t)),
            },
            None => Err(SpecConversionError::ExpectedEnumString),
        },
        AvroSchema::Fixed(n) => match r_bytes(x) {
            Some(b) => if b.len() == n {
                Ok(SpecDatum::Fixed(n, b))
            } else {
                Err(SpecConversionError::FixedSizeMismatch { expected: n, got: b.len() as usize })
            },
            None => Err(SpecConversionError::ExpectedFixedString),
        },
        AvroSchema::Unsupported(d) => Err(SpecConversionError::UnsupportedSchema(d@)),
    }
}

/// The items that the first `n` elements of a list become under the item
/// schema `inner`, or the first failure among them.
pub open spec fn array_items(es: Seq<(String, RInput)>, inner: AvroSchema, n: int) -> Result<Seq<SpecDatum>, SpecConversionError>
    decreases inner, n,
{
    if n <= 0 {
        Ok(Seq::empty())
    } else {
        match array_items(es, inner, n - 1) {
            Ok(items) => match to_datum(es[n - 1].1, inner) {
                Ok(d) => Ok(items.push(d)),
                Err(e) => Err(e),
            },
            Err(e) => Err(e),
        }
    }
}

/// `acc` with key `k` bound to `d`: its entry replaced where `k` already has
/// one, else a new entry at the end.
pub open spec fn map_insert(acc: Seq<(Seq<char>, SpecDatum)>, k: Seq<char>, d: SpecDatum) -> Seq<(Seq<char>, SpecDatum)>
    decreases acc.len(),
{
    if acc.len() == 0 {
        seq![(k, d)]
    } else if acc[0].0 == k {
        acc.update(0, (k, d))
    } else {
        seq![acc[0]] + map_insert(acc.drop_first(), k, d)
    }
}

/// The map entries that the first `n` elements of a list become under the
/// value schema `inner` (a later element with a name already seen replaces
/// the value), or the first failure among them.
pub open spec fn map_entries(es: Seq<(String, RInput)>, inner: AvroSchema, n: int) -> Result<Seq<(Seq<char>, SpecDatum)>, SpecConversionError>
    decreases inner, n,
{
    if n <= 0 {
        Ok(Seq::empty())
    } else {
        match map_entries(es, inner, n - 1) {
            Ok(acc) => match to_datum(es[n - 1].1, inner) {
                Ok(d) => Ok(map_insert(acc, es[n - 1].0@, d)),
                Err(e) => Err(e),
            },
            Err(e) => Err(e),
        }
    }
}

/// The index of the first `null` branch of a union at or after `i`, as the
/// value that `NULL` becomes.
pub open spec fn null_branch(vs: Seq<AvroSchema>, i: nat) -> Result<SpecDatum, SpecConversionError>
    decreases vs.len() - i,
{
    if i >= vs.len() {
        Err(SpecConversionError::NullNotInUnion)
    } else if vs[i as int] is Null {
        Ok(SpecDatum::Union(i as u32, Box::new(SpecDatum::Null)))
    } else {
        null_branch(vs, i + 1)
    }
}

/// The value that a non-`NULL` object becomes in the first branch at or after
/// `i` that is not `null` and accepts it.
pub open spec fn union_branch(x: RInput, vs: Seq<AvroSchema>, i: nat) -> Result<SpecDatum, SpecConversionError>
    decreases vs, vs.len() - i,
{
    if i >= vs.len() {
        Err(SpecConversionError::NoUnionMatch)
    } else if vs[i as int] is Null {
        union_branch(x, vs, i + 1)
    } else {
        match to_datum(x, vs[i as int]) {
            Ok(d) => Ok(SpecDatum::Union(i as u32, Box::new(d))),
            Err(_) => union_branch(x, vs, i + 1),
        }
    }
}

/// The first element at or after `i` named `name`.
pub open spec fn find_entry(es: Seq<(String, RInput)>, name: Seq<char>, i: nat) -> Option<RInput>
    decreases es.len() - i,
{
    if i >= es.len() {
        None
    } else if es[i as int].0@ == name {
        Some(es[i as int].1)
    } else {
        find_entry(es, name, i + 1)
    }
}

/// The record fields that the first `n` fields of a record schema take from
/// a list, or the first failure among them.
pub open spec fn record_fields(es: Seq<(String, RInput)>, fs: Seq<AvroField>, n: int) -> Result<Seq<(Seq<char>, SpecDatum)>, SpecConversionError>
    decreases fs, n,
{
    if n <= 0 || n > fs.len() {
        Ok(Seq::empty())
    } else {
        match record_fields(es, fs, n - 1) {
            Ok(acc) => match find_entry(es, fs[n - 1].name@, 0) {
                Some(v) => match to_datum(v, fs[n - 1].schema) {
                    Ok(d) => Ok(acc.push((fs[n - 1].name@, d))),
                    Err(e) => Err(e),
                },
                None => Err(SpecConversionError::MissingField(fs[n - 1].name@)),
            },
            Err(e) => Err(e),
        }
    }
}

/// The index of the first symbol at or after `i` equal to `t`.
pub open spec fn symbol_index(syms: Seq<String>, t: Seq<char>, i: nat) -> Option<nat>
    decreases syms.len() - i,
{
    if i >= syms.len() {
        None
    } else if syms[i as int]@ == t {
        Some(i)
    } else {
        symbol_index(syms, t, i + 1)
    }
}

} // verus!

verus! {

/// Once a prefix of a list fails to become array items, every longer prefix
/// fails with the same error.
proof fn lemma_array_items_failure_stays(es: Seq<(String, RInput)>, inner: AvroSchema, n: int, m: int)
    requires
        n <= m,
        array_items(es, inner, n) is Err,
    ensures
        array_items(es, inner, m) == array_items(es, inner, n),
    decreases m - n,
{
    if n < m {
        lemma_array_items_failure_stays(es, inner, n, m - 1);
    }
}

/// Once a prefix of a list fails to become map entries, every longer prefix
/// fails with the same error.
proof fn lemma_map_entries_failure_stays(es: Seq<(String, RInput)>, inner: AvroSchema, n: int, m: int)
    requires
        n <= m,
        map_entries(es, inner, n) is Err,
    ensures
        map_entries(es, inner, m) == map_entries(es, inner, n),
    decreases m - n,
{
    if n < m {
        lemma_map_entries_failure_stays(es, inner, n, m - 1);
    }
}

/// Once a prefix of the fields fails, every longer prefix fails with the same
/// error.
proof fn lemma_record_fields_failure_stays(es: Seq<(String, RInput)>, fs: Seq<AvroField>, n: int, m: int)
    requires
        n <= m <= fs.len(),
        record_fields(es, fs, n) is Err,
    ensures
        record_fields(es, fs, m) == record_fields(es, fs, n),
    decreases m - n,
{
    if n < m {
        lemma_record_fields_failure_stays(es, fs, n, m - 1);
    }
}

/// Binding a key that first occurs at index `j` replaces that entry.
proof fn lemma_map_insert_replaces(acc: Seq<(Seq<char>, SpecDatum)>, k: Seq<char>, d: SpecDatum, j: int)
    requires
        0 <= j < acc.len(),
        acc[j].0 == k,
        forall|i: int| 0 <= i < j ==> acc[i].0 != k,
    ensures
        map_insert(acc, k, d) == acc.update(j, (k, d)),
    decreases acc.len(),
{
    if j > 0 {
        let rest = acc.drop_first();
        assert forall|i: int| 0 <= i < j - 1 implies rest[i].0 != k by {
            assert(rest[i] == acc[i + 1]);
        }
        lemma_map_insert_replaces(rest, k, d, j - 1);
        assert(seq![acc[0]] + rest.update(j - 1, (k, d)) =~= acc.update(j, (k, d)));
    }
}

/// Binding a key that does not occur appends an entry.
pub(crate) proof fn lemma_map_insert_appends(acc: Seq<(Seq<char>, SpecDatum)>, k: Seq<char>, d: SpecDatum)
    requires
        forall|i: int| 0 <= i < acc.len() ==> acc[i].0 != k,
    ensures
        map_insert(acc, k, d) == acc.push((k, d)),
    decreases acc.len(),
{
    if acc.len() > 0 {
        let rest = acc.drop_first();
        assert forall|i: int| 0 <= i < rest.len() implies rest[i].0 != k by {
            assert(rest[i] == acc[i + 1]);
        }
        lemma_map_insert_appends(rest, k, d);
        assert(seq![acc[0]] + rest.push((k, d)) =~= acc.push((k, d)));
    }
}

/// The value of a sequence of datums with one more at its end.
proof fn lemma_datums_view_push(s: Seq<AvroDatum>, d: AvroDatum)
    ensures
        datums_view(s.push(d)) == datums_view(s).push(d@),
{
    assert(s.push(d).drop_last() =~= s);
}

/// The value of a sequence of named datums with one more at its end.
proof fn lemma_entries_view_push(s: Seq<(String, AvroDatum)>, e: (String, AvroDatum))
    ensures
        entries_view(s.push(e)) == entries_view(s).push((e.0@, e.1@)),
{
    assert(s.push(e).drop_last() =~= s);
}

/// The value of a sequence of named datums with one entry replaced.
proof fn lemma_entries_view_update(s: Seq<(String, AvroDatum)>, j: int, e: (String, AvroDatum))
    requires
        0 <= j < s.len(),
    ensures
        entries_view(s.update(j, e)) == entries_view(s).update(j, (e.0@, e.1@)),
{
    lemma_entries_view(s);
    lemma_entries_view(s.update(j, e));
    assert(entries_view(s.update(j, e)) =~= entries_view(s).update(j, (e.0@, e.1@)));
}

/// Converts the R object `x` to the Avro value that schema `s` makes of it.
///
/// Each Avro type takes the R object described for it: `null` takes anything;
/// `boolean` a logical scalar (missing reads as false); `int` an integer
/// scalar; `long`, `float` and `double` a double scalar (truncated, narrowed,
/// or as it is); `string` and `enum` a string scalar; `bytes` and `fixed` the
/// bytes of a raw vector or the UTF-8 bytes of a string scalar; `array` the elements of a list; `map` the
/// named elements of a list, a later name replacing an earlier one; `record`
/// the first element named after each field; a union the first non-`null`
/// branch that accepts the object, or its first `null` branch for `NULL`.
#[verifier::loop_isolation(false)]
pub fn robj_to_avro(x: &RInput, s: &AvroSchema) -> (r: Result<AvroDatum, ConversionError>)
    ensures
        datum_result_view(r) == to_datum(*x, *s),
    decreases s,
{
    match s {
        AvroSchema::Null => Ok(AvroDatum::Null),
        AvroSchema::Boolean => match x.as_logical() {
            Some(l) => Ok(AvroDatum::Boolean(l == Lgl::True)),
            None => Err(ConversionError::ExpectedLogical),
        },
        AvroSchema::Int => match x.as_integer() {
            Some(i) => Ok(AvroDatum::Int(i)),
            None => Err(ConversionError::ExpectedInteger),
        },
        AvroSchema::Long => match x.as_real() {
            Some(v) => Ok(AvroDatum::Long(v.truncated)),
            None => Err(ConversionError::ExpectedLongNumber),
        },
        AvroSchema::Float => match x.as_real() {
            Some(v) => Ok(AvroDatum::Float(v.narrowed)),
            None => Err(ConversionError::ExpectedFloatNumber),
        },
        AvroSchema::Double => match x.as_real() {
            Some(v) => Ok(AvroDatum::Double(v.bits)),
            None => Err(ConversionError::ExpectedDoubleNumber),
        },
        AvroSchema::Str => match x.as_str() {
            Some(t) => Ok(AvroDatum::Str(t.clone())),
            None => Err(ConversionError::ExpectedString),
        },
        AvroSchema::Bytes => match x.as_bytes() {
            Some(b) => Ok(AvroDatum::Bytes(b)),
            None => Err(ConversionError::ExpectedString),
        },
        AvroSchema::Array(inner) => {
            let es = match x.as_list() {
                Some(es) => es,
                None => {
                    return Err(ConversionError::ExpectedArrayList);
                },
            };
            let mut items: Vec<AvroDatum> = Vec::new();
            let mut i: usize = 0;
            while i < es.len()
                invariant
                    i <= es.len(),
                    array_items(es@, **inner, i as int) == Ok::<Seq<SpecDatum>, SpecConversionError>(datums_view(items@)),
                decreases es.len() - i,
            {
                match robj_to_avro(&es[i].1, &**inner) {
                    Ok(d) => {
                        proof {
                            lemma_datums_view_push(items@, d);
                        }
                        items.push(d);
                    },
                    Err(e) => {
                        proof {
                            lemma_array_items_failure_stays(es@, **inner, i + 1, es.len() as int);
                        }
                        return Err(e);
                    },
                }
                i += 1;
            }
            Ok(AvroDatum::Array(items))
        },
        AvroSchema::Mapping(inner) => {
            let es = match x.as_list() {
                Some(es) => es,
                None => {
                    return Err(ConversionError::ExpectedMapList);
                },
            };
            let mut acc: Vec<(String, AvroDatum)> = Vec::new();
            let mut i: usize = 0;
            while i < es.len()
                invariant
                    i <= es.len(),
                    map_entries(es@, **inner, i as int) == Ok::<Seq<(Seq<char>, SpecDatum)>, SpecConversionError>(entries_view(acc@)),
                decreases es.len() - i,
            {
                let d = match robj_to_avro(&es[i].1, &**inner) {
                    Ok(d) => d,
                    Err(e) => {
                        proof {
                            lemma_map_entries_failure_stays(es@, **inner, i + 1, es.len() as int);
                        }
                        return Err(e);
                    },
                };
                let key = &es[i].0;
                let mut j: usize = 0;
                let mut found = false;
                proof {
                    lemma_entries_view(acc@);
                }
                while j < acc.len() && !found
                    invariant
                        j <= acc.len(),
                        found ==> j < acc.len() && acc@[j as int].0@ == key@,
                        forall|k: int| 0 <= k < j && !(found && k == j) ==> acc@[k].0@ != key@,
                    decreases acc.len() - j + (if found { 0int } else { 1int }),
                {
                    if acc[j].0 == *key {
                        found = true;
                    } else {
                        j += 1;
                    }
                }
                let ghost old_acc = acc@;
                if found {
                    proof {
                        lemma_map_insert_replaces(entries_view(old_acc), key@, d@, j as int);
                        lemma_entries_view_update(old_acc, j as int, (*key, d));
                    }
                    acc.set(j, (key.clone(), d));
                } else {
                    proof {
                        lemma_map_insert_appends(entries_view(old_acc), key@, d@);
                        lemma_entries_view_push(old_acc, (*key, d));
                    }
                    acc.push((key.clone(), d));
                }
                i += 1;
            }
            Ok(AvroDatum::Mapping(acc))
        },
        AvroSchema::Union(vs) => {
            if x.is_null() {
                let mut i: usize = 0;
                while i < vs.len()
                    invariant
                        i <= vs.len(),
                        null_branch(vs@, 0) == null_branch(vs@, i as nat),
                    decreases vs.len() - i,
                {
                    if let AvroSchema::Null = &vs[i] {
                        return Ok(AvroDatum::Union(i as u32, Box::new(AvroDatum::Null)));
                    }
                    i += 1;
                }
                Err(ConversionError::NullNotInUnion)
            } else {
                let mut i: usize = 0;
                while i < vs.len()
                    invariant
                        i <= vs.len(),
                        union_branch(*x, vs@, 0) == union_branch(*x, vs@, i as nat),
                    decreases vs.len() - i,
                {
                    if let AvroSchema::Null = &vs[i] {
                    } else {
                        if let Ok(d) = robj_to_avro(x, &vs[i]) {
                            return Ok(AvroDatum::Union(i as u32, Box::new(d)));
                        }
                    }
                    i += 1;
                }
                Err(ConversionError::NoUnionMatch)
            }
        },
        AvroSchema::Record(fs) => {
            let es = match x.as_list() {
                Some(es) => es,
                None => {
                    return Err(ConversionError::ExpectedRecordList);
                },
            };
            let mut fields: Vec<(String, AvroDatum)> = Vec::new();
            let mut k: usize = 0;
            while k < fs.len()
                invariant
                    k <= fs.len(),
                    record_fields(es@, fs@, k as int) == Ok::<Seq<(Seq<char>, SpecDatum)>, SpecConversionError>(entries_view(fields@)),
                decreases fs.len() - k,
            {
                let name = &fs[k].name;
                let mut j: usize = 0;
                while j < es.len() && !(es[j].0 == *name)
                    invariant
                        j <= es.len(),
                        find_entry(es@, name@, 0) == find_entry(es@, name@, j as nat),
                    decreases es.len() - j,
                {
                    j += 1;
                }
                if j == es.len() {
                    proof {
                        lemma_record_fields_failure_stays(es@, fs@, k + 1, fs.len() as int);
                    }
                    return Err(ConversionError::MissingField(name.clone()));
                }
                match robj_to_avro(&es[j].1, &fs[k].schema) {
                    Ok(d) => {
                        proof {
                            lemma_entries_view_push(fields@, (*name, d));
                        }
                        fields.push((name.clone(), d));
                    },
                    Err(e) => {
                        proof {
                            lemma_record_fields_failure_stays(es@, fs@, k + 1, fs.len() as int);
                        }
                        return Err(e);
                    },
                }
                k += 1;
            }
            Ok(AvroDatum::Record(fields))
        },
        AvroSchema::Enum(syms) => {
            let t = match x.as_str() {
                Some(t) => t,
                None => {
                    return Err(ConversionError::ExpectedEnumString);
                },
            };
            let mut k: usize = 0;
            while k < syms.len()
                invariant
                    k <= syms.len(),
                    symbol_index(syms@, t@, 0) == symbol_index(syms@, t@, k as nat),
                decreases syms.len() - k,
            {
                if syms[k] == *t {
                    return Ok(AvroDatum::Enum(k as u32, t.clone()));
                }
                k += 1;
            }
            Err(ConversionError::NotEnumSymbol(t.clone()))
        },
        AvroSchema::Fixed(n) => match x.as_bytes() {
            Some(b) => {
                if b.len() == *n {
                    Ok(AvroDatum::Fixed(*n, b))
                } else {
                    Err(ConversionError::FixedSizeMismatch { expected: *n, got: b.len() })
                }
            },
            None => Err(ConversionError::ExpectedFixedString),
        },
        AvroSchema::Unsupported(d) => Err(ConversionError::UnsupportedSchema(d.clone())),
    }
}

} // verus!

verus! {

// ---------------------------------------------------------------------------
// Avro values to R data
// ---------------------------------------------------------------------------

/// The R object that the Avro value `d` becomes, or why it becomes none.
pub open spec fn datum_to_r(d: SpecDatum) -> Result<SpecROutput, SpecConversionError>
    decreases d, 0int,
{
    match d {
        SpecDatum::Null => Ok(SpecROutput::Null),
        SpecDatum::Boolean(b) => Ok(SpecROutput::Logical(b)),
        SpecDatum::Int(i) => Ok(SpecROutput::Integer(i)),
        SpecDatum::Long(l) => Ok(SpecROutput::Real(RealOf::Long(l))),
        SpecDatum::Float(f) => Ok(SpecROutput::Real(RealOf::Single(f))),
        SpecDatum::Double(x) => Ok(SpecROutput::Real(RealOf::Bits(x))),
        SpecDatum::Bytes(b) => Ok(SpecROutput::Raw(b)),
        SpecDatum::Str(s) => Ok(SpecROutput::Character(s)),
        SpecDatum::Array(items) => match items_to_r(items, items.len() as int) {
            Ok(os) => Ok(SpecROutput::List(os)),
            Err(e) => Err(e),
        },
        SpecDatum::Mapping(es) => match named_to_r(es, es.len() as int) {
            Ok(os) => Ok(SpecROutput::NamedList(os)),
            Err(e) => Err(e),
        },
        SpecDatum::Union(_, inner) => datum_to_r(*inner),
        SpecDatum::Record(fs) => match named_to_r(fs, fs.len() as int) {
            Ok(os) => Ok(SpecROutput::NamedList(os)),
            Err(e) => Err(e),
        },
        SpecDatum::Enum(_, s) => Ok(SpecROutput::Character(s)),
        SpecDatum::Fixed(_, b) => Ok(SpecROutput::Raw(b)),
        SpecDatum::Unsupported(desc) => Err(SpecConversionError::UnsupportedValue(desc)),
    }
}

/// The R objects that the first `n` values become, or the first failure.
pub open spec fn items_to_r(items: Seq<SpecDatum>, n: int) -> Result<Seq<SpecROutput>, SpecConversionError>
    decreases items, n,
{
    if n <= 0 || n > items.len() {
        Ok(Seq::empty())
    } else {
        match items_to_r(items, n - 1) {
            Ok(os) => match datum_to_r(items[n - 1]) {
                Ok(o) => Ok(os.push(o)),
                Err(e) => Err(e),
            },
            Err(e) => Err(e),
        }
    }
}

/// The named R objects that the first `n` named values become, or the first
/// failure.
pub open spec fn named_to_r(es: Seq<(Seq<char>, SpecDatum)>, n: int) -> Result<Seq<(Seq<char>, SpecROutput)>, SpecConversionError>
    decreases es, n,
{
    if n <= 0 || n > es.len() {
        Ok(Seq::empty())
    } else {
        match named_to_r(es, n - 1) {
            Ok(os) => match datum_to_r(es[n - 1].1) {
                Ok(o) => Ok(os.push((es[n - 1].0, o))),
                Err(e) => Err(e),
            },
            Err(e) => Err(e),
        }
    }
}

proof fn lemma_items_to_r_failure_stays(items: Seq<SpecDatum>, n: int, m: int)
    requires
        n <= m <= items.len(),
        items_to_r(items, n) is Err,
    ensures
        items_to_r(items, m) == items_to_r(items, n),
    decreases m - n,
{
    if n < m {
        lemma_items_to_r_failure_stays(items, n, m - 1);
    }
}

proof fn lemma_named_to_r_failure_stays(es: Seq<(Seq<char>, SpecDatum)>, n: int, m: int)
    requires
        n <= m <= es.len(),
        named_to_r(es, n) is Err,
    ensures
        named_to_r(es, m) == named_to_r(es, n),
    decreases m - n,
{
    if n < m {
        lemma_named_to_r_failure_stays(es, n, m - 1);
    }
}

proof fn lemma_outputs_view_push(s: Seq<ROutput>, o: ROutput)
    ensures
        outputs_view(s.push(o)) == outputs_view(s).push(o@),
{
    assert(s.push(o).drop_last() =~= s);
}

proof fn lemma_named_outputs_view_push(s: Seq<(String, ROutput)>, e: (String, ROutput))
    ensures
        named_outputs_view(s.push(e)) == named_outputs_view(s).push((e.0@, e.1@)),
{
    assert(s.push(e).drop_last() =~= s);
}

/// Converts named Avro values to named R objects, keeping names and order.
fn named_datums_to_r(es: &Vec<(String, AvroDatum)>) -> (r: Result<Vec<(String, ROutput)>, ConversionError>)
    ensures
        match r {
            Ok(os) => named_to_r(entries_view(es@), es@.len() as int) == Ok::<Seq<(Seq<char>, SpecROutput)>, SpecConversionError>(named_outputs_view(os@)),
            Err(e) => named_to_r(entries_view(es@), es@.len() as int) == Err::<Seq<(Seq<char>, SpecROutput)>, SpecConversionError>(e@),
        },
    decreases es, 1int,
{
    proof {
        lemma_entries_view(es@);
    }
    assert(entries_view(es@).len() == es@.len());
    let mut os: Vec<(String, ROutput)> = Vec::new();
    let mut i: usize = 0;
    while i < es.len()
        invariant
            i <= es.len(),
            entries_view(es@).len() == es@.len(),
            forall|k: int| 0 <= k < es@.len() ==> #[trigger] entries_view(es@)[k] == (es@[k].0@, datum_view(es@[k].1)),
            named_to_r(entries_view(es@), i as int) == Ok::<Seq<(Seq<char>, SpecROutput)>, SpecConversionError>(named_outputs_view(os@)),
        decreases es.len() - i,
    {
        match avro_to_robj(&es[i].1) {
            Ok(o) => {
                proof {
                    lemma_named_outputs_view_push(os@, (es@[i as int].0, o));
                }
                os.push((es[i].0.clone(), o));
            },
            Err(e) => {
                proof {
                    lemma_named_to_r_failure_stays(entries_view(es@), i + 1, es.len() as int);
                }
                return Err(e);
            },
        }
        i += 1;
    }
    Ok(os)
}

/// Converts the Avro value `d` to the R object that stands for it.
///
/// `null` becomes `NULL`; `boolean` a logical; `int` an integer; `long`,
/// `float` and `double` a double; `string` and `enum` a string; `bytes` and
/// `fixed` a raw vector; `array` an unnamed list; `map` and `record` a named
/// list, in the order of their entries; a union the value of its branch.
/// Values of any other kind fail.
#[verifier::loop_isolation(false)]
pub fn avro_to_robj(d: &AvroDatum) -> (r: Result<ROutput, ConversionError>)
    ensures
        output_result_view(r) == datum_to_r(d@),
    decreases d, 0int,
{
    match d {
        AvroDatum::Null => Ok(ROutput::Null),
        AvroDatum::Boolean(b) => Ok(ROutput::Logical(*b)),
        AvroDatum::Int(i) => Ok(ROutput::Integer(*i)),
        AvroDatum::Long(l) => Ok(ROutput::Real(RealOf::Long(*l))),
        AvroDatum::Float(f) => Ok(ROutput::Real(RealOf::Single(*f))),
        AvroDatum::Double(x) => Ok(ROutput::Real(RealOf::Bits(*x))),
        AvroDatum::Bytes(b) => Ok(ROutput::Raw(b.clone())),
        AvroDatum::Str(s) => Ok(ROutput::Character(s.clone())),
        AvroDatum::Array(items) => {
            proof {
                lemma_datums_view(items@);
            }
            let mut os: Vec<ROutput> = Vec::new();
            let mut i: usize = 0;
            while i < items.len()
                invariant
                    i <= items.len(),
                    datums_view(items@).len() == items@.len(),
                    forall|k: int| 0 <= k < items@.len() ==> #[trigger] datums_view(items@)[k] == datum_view(items@[k]),
                    items_to_r(datums_view(items@), i as int) == Ok::<Seq<SpecROutput>, SpecConversionError>(outputs_view(os@)),
                decreases items.len() - i,
            {
                match avro_to_robj(&items[i]) {
                    Ok(o) => {
                        proof {
                            lemma_outputs_view_push(os@, o);
                        }
                        os.push(o);
                    },
                    Err(e) => {
                        proof {
                            lemma_items_to_r_failure_stays(datums_view(items@), i + 1, items.len() as int);
                        }
                        return Err(e);
                    },
                }
                i += 1;
            }
            Ok(ROutput::List(os))
        },
        AvroDatum::Mapping(es) => match named_datums_to_r(es) {
            Ok(os) => {
                proof {
                    lemma_entries_view(es@);
                }
                Ok(ROutput::NamedList(os))
            },
            Err(e) => {
                proof {
                    lemma_entries_view(es@);
                }
                Err(e)
            },
        },
        AvroDatum::Record(fs) => match named_datums_to_r(fs) {
            Ok(os) => {
                proof {
                    lemma_entries_view(fs@);
                }
                Ok(ROutput::NamedList(os))
            },
            Err(e) => {
                proof {
                    lemma_entries_view(fs@);
                }
                Err(e)
            },
        },
        AvroDatum::Union(_, inner) => avro_to_robj(&**inner),
        AvroDatum::Enum(_, s) => Ok(ROutput::Character(s.clone())),
        AvroDatum::Fixed(_, b) => Ok(ROutput::Raw(b.clone())),
        AvroDatum::Unsupported(desc) => Err(ConversionError::UnsupportedValue(desc.clone())),
    }
}

/// The R object that stands for all values read from an Avro container: the
/// value itself when there is exactly one, else an unnamed list of them.
pub open spec fn gathered(results: Seq<ROutput>) -> SpecROutput {
    if results.len() == 1 {
        results[0]@
    } else {
        SpecROutput::List(outputs_view(results))
    }
}

/// Gathers the R objects read from an Avro container into the one object
/// handed back: the object itself when there is exactly one, else an unnamed
/// list of them (an empty list for none).
pub fn gather_results(results: Vec<ROutput>) -> (r: ROutput)
    ensures
        r@ == gathered(results@),
{
    if results.len() == 1 {
        let mut results = results;
        results.pop().unwrap()
    } else {
        ROutput::List(results)
    }
}

} // verus!

verus! {

/// The text of a conversion failure.
pub open spec fn conversion_message(e: SpecConversionError) -> Seq<char> {
    match e {
        SpecConversionError::ExpectedLogical => "Expected logical value for Boolean schema"@,
        SpecConversionError::ExpectedInteger => "Expected integer value for Int schema"@,
        SpecConversionError::ExpectedLongNumber => "Expected numeric value for Long schema"@,
        SpecConversionError::ExpectedFloatNumber => "Expected numeric value for Float schema"@,
        SpecConversionError::ExpectedDoubleNumber => "Expected numeric value for Double schema"@,
        SpecConversionError::ExpectedString => "Expected string value for String schema"@,
        SpecConversionError::ExpectedArrayList => "Expected list for Array schema"@,
        SpecConversionError::ExpectedMapList => "Expected named list for Map schema"@,
        SpecConversionError::ExpectedRecordList => "Expected named list for Record schema"@,
        SpecConversionError::ExpectedEnumString => "Expected string value for Enum schema"@,
        SpecConversionError::ExpectedFixedString => "Expected string (or raw) for Fixed schema"@,
        SpecConversionError::NullNotInUnion => "Null not allowed in this union"@,
        SpecConversionError::NoUnionMatch => "Could not match R value to any union variant"@,
        SpecConversionError::MissingField(f) => "Missing field '"@ + f + "' in R list"@,
        SpecConversionError::NotEnumSymbol(s) => "'"@ + s + "' is not a valid enum symbol"@,
        SpecConversionError::FixedSizeMismatch { expected, got } => "Fixed size mismatch: expected "@ + decimal(
            expected as nat,
        ) + ", got "@ + decimal(got as nat),
        SpecConversionError::UnsupportedSchema(d) => "Unsupported Avro schema type: "@ + d,
        SpecConversionError::UnsupportedValue(d) => "Unsupported Avro value type: "@ + d,
    }
}

impl ConversionError {
    /// The text of this failure.
    pub fn message(&self) -> (m: String)
        ensures
            m@ == conversion_message(self@),
    {
        match self {
            ConversionError::ExpectedLogical => String::from_str("Expected logical value for Boolean schema"),
            ConversionError::ExpectedInteger => String::from_str("Expected integer value for Int schema"),
            ConversionError::ExpectedLongNumber => String::from_str("Expected numeric value for Long schema"),
            ConversionError::ExpectedFloatNumber => String::from_str("Expected numeric value for Float schema"),
            ConversionError::ExpectedDoubleNumber => String::from_str("Expected numeric value for Double schema"),
            ConversionError::ExpectedString => String::from_str("Expected string value for String schema"),
            ConversionError::ExpectedArrayList => String::from_str("Expected list for Array schema"),
            ConversionError::ExpectedMapList => String::from_str("Expected named list for Map schema"),
            ConversionError::ExpectedRecordList => String::from_str("Expected named list for Record schema"),
            ConversionError::ExpectedEnumString => String::from_str("Expected string value for Enum schema"),
            ConversionError::ExpectedFixedString => String::from_str("Expected string (or raw) for Fixed schema"),
            ConversionError::NullNotInUnion => String::from_str("Null not allowed in this union"),
            ConversionError::NoUnionMatch => String::from_str("Could not match R value to any union variant"),
            ConversionError::MissingField(f) => {
                let mut m = String::from_str("Missing field '");
                m.append(f.as_str());
                m.append("' in R list");
                m
            },
            ConversionError::NotEnumSymbol(s) => {
                let mut m = String::from_str("'");
                m.append(s.as_str());
                m.append("' is not a valid enum symbol");
                m
            },
            ConversionError::FixedSizeMismatch { expected, got } => {
                let mut m = String::from_str("Fixed size mismatch: expected ");
                push_decimal(&mut m, *expected as u64);
                m.append(", got ");
                push_decimal(&mut m, *got as u64);
                m
            },
            ConversionError::UnsupportedSchema(d) => {
                let mut m = String::from_str("Unsupported Avro schema type: ");
                m.append(d.as_str());
                m
            },
            ConversionError::UnsupportedValue(d) => {
                let mut m = String::from_str("Unsupported Avro value type: ");
                m.append(d.as_str());
                m
            },
        }
    }
}

} // verus!
