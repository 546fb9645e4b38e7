//! Laws of the conversions between R data and Avro values.
use vstd::prelude::*;

use crate::avro::{AvroField, AvroSchema, SpecDatum};
use crate::convert::{
    array_items, datum_to_r, find_entry, gathered, items_to_r, map_entries, map_insert, named_to_r, null_branch,
    record_fields, symbol_index, to_datum, union_branch, lemma_map_insert_appends, SpecConversionError,
};
use crate::r_value::{output_view, outputs_view, r_integer, r_list, r_real, Lgl, RInput, ROutput, RealOf, SpecROutput};

verus! {

broadcast use vstd::seq::group_seq_axioms;

/// Whether the Avro value `d` is a value of schema `s`: the check that an
/// Avro encoder makes before it writes a value under a schema.
pub open spec fn conforms(d: SpecDatum, s: AvroSchema) -> bool
    decreases s,
{
    match s {
        AvroSchema::Null => d is Null,
        AvroSchema::Boolean => d is Boolean,
        AvroSchema::Int => d is Int,
        AvroSchema::Long => d is Long,
        AvroSchema::Float => d is Float,
        AvroSchema::Double => d is Double,
        AvroSchema::Bytes => d is Bytes,
        AvroSchema::Str => d is Str,
        AvroSchema::Array(inner) => match d {
            SpecDatum::Array(items) => forall|k: int| 0 <= k < items.len() ==> conforms(#[trigger] items[k], *inner),
            _ => false,
        },
        AvroSchema::Mapping(inner) => match d {
            SpecDatum::Mapping(es) => {
                &&& forall|k: int| 0 <= k < es.len() ==> conforms(#[trigger] es[k].1, *inner)
                &&& forall|k: int, m: int| 0 <= k < m < es.len() ==> #[trigger] es[k].0 != #[trigger] es[m].0
            },
            _ => false,
        },
        AvroSchema::Union(vs) => match d {
            SpecDatum::Union(i, v) => exists|j: int| 0 <= j < vs@.len() && j as u32 == i && conforms(*v, #[trigger] vs@[j]),
            _ => false,
        },
        AvroSchema::Record(fs) => match d {
            SpecDatum::Record(es) => {
                &&& es.len() == fs@.len()
                &&& forall|k: int| 0 <= k < es.len() ==> #[trigger] es[k].0 == fs@[k].name@
                &&& forall|k: int| 0 <= k < es.len() ==> conforms(#[trigger] es[k].1, fs@[k].schema)
            },
            _ => false,
        },
        AvroSchema::Enum(syms) => match d {
            SpecDatum::Enum(i, t) => exists|j: int| 0 <= j < syms@.len() && j as u32 == i && #[trigger] syms@[j]@ == t,
            _ => false,
        },
        AvroSchema::Fixed(n) => match d {
            SpecDatum::Fixed(m, b) => m == n && b.len() == n,
            _ => false,
        },
        AvroSchema::Unsupported(_) => false,
    }
}

} // verus!

verus! {

/// The symbol index found for `t` names a symbol equal to `t`.
proof fn lemma_symbol_index_found(syms: Seq<String>, t: Seq<char>, i: nat)
    ensures
        symbol_index(syms, t, i) matches Some(k) ==> i <= k < syms.len() && syms[k as int]@ == t,
    decreases syms.len() - i,
{
    if i < syms.len() && syms[i as int]@ != t {
        lemma_symbol_index_found(syms, t, i + 1);
    }
}

/// The branch that `NULL` takes in a union is a `null` branch.
proof fn lemma_null_branch_conforms(vs: Seq<AvroSchema>, i: nat)
    ensures
        null_branch(vs, i) matches Ok(d) ==> d matches SpecDatum::Union(u, v) && *v == SpecDatum::Null
            && exists|j: int| i <= j < vs.len() && j as u32 == u && #[trigger] vs[j] is Null,
    decreases vs.len() - i,
{
    if i < vs.len() && !(vs[i as int] is Null) {
        lemma_null_branch_conforms(vs, i + 1);
    }
}

/// The branch that a non-`NULL` object takes in a union holds a value of
/// that branch.
proof fn lemma_union_branch_conforms(x: RInput, vs: Seq<AvroSchema>, i: nat)
    ensures
        union_branch(x, vs, i) matches Ok(d) ==> d matches SpecDatum::Union(u, v)
            && exists|j: int| i <= j < vs.len() && j as u32 == u && conforms(*v, #[trigger] vs[j]),
    decreases vs, vs.len() - i,
{
    if i < vs.len() {
        if !(vs[i as int] is Null) {
            law_conversion_conforms(x, vs[i as int]);
        }
        lemma_union_branch_conforms(x, vs, i + 1);
    }
}

/// Array items converted under `inner` are values of `inner`.
proof fn lemma_array_items_conform(es: Seq<(String, RInput)>, inner: AvroSchema, n: int)
    ensures
        array_items(es, inner, n) matches Ok(items) ==> forall|k: int| 0 <= k < items.len() ==> conforms(#[trigger] items[k], inner),
    decreases inner, n,
{
    if n > 0 {
        lemma_array_items_conform(es, inner, n - 1);
        law_conversion_conforms(es[n - 1].1, inner);
    }
}

/// Binding a key keeps the keys of a map distinct and its values of `inner`.
proof fn lemma_map_insert_conforms(acc: Seq<(Seq<char>, SpecDatum)>, k: Seq<char>, d: SpecDatum, inner: AvroSchema)
    requires
        forall|i: int| 0 <= i < acc.len() ==> conforms(#[trigger] acc[i].1, inner),
        forall|i: int, m: int| 0 <= i < m < acc.len() ==> #[trigger] acc[i].0 != #[trigger] acc[m].0,
        conforms(d, inner),
    ensures
        ({
            let r = map_insert(acc, k, d);
            &&& forall|i: int| 0 <= i < r.len() ==> conforms(#[trigger] r[i].1, inner)
            &&& forall|i: int, m: int| 0 <= i < m < r.len() ==> #[trigger] r[i].0 != #[trigger] r[m].0
            &&& forall|i: int| 0 <= i < r.len() ==> (#[trigger] r[i].0 == k || exists|m: int| 0 <= m < acc.len() && acc[m].0 == r[i].0)
        }),
    decreases acc.len(),
{
    if acc.len() > 0 && acc[0].0 != k {
        let rest = acc.drop_first();
        assert forall|i: int, m: int| 0 <= i < m < rest.len() implies #[trigger] rest[i].0 != #[trigger] rest[m].0 by {
            assert(rest[i] == acc[i + 1] && rest[m] == acc[m + 1]);
        }
        lemma_map_insert_conforms(rest, k, d, inner);
        let tail = map_insert(rest, k, d);
        let r = seq![acc[0]] + tail;
        assert forall|i: int| 0 <= i < r.len() implies (#[trigger] r[i].0 == k || exists|m: int| 0 <= m < acc.len() && acc[m].0 == r[i].0) by {
            if i == 0 {
                assert(acc[0].0 == r[0].0);
            } else {
                assert(r[i] == tail[i - 1]);
                if tail[i - 1].0 != k {
                    let m = choose|m: int| 0 <= m < rest.len() && rest[m].0 == tail[i - 1].0;
                    assert(acc[m + 1] == rest[m]);
                }
            }
        }
        assert forall|i: int, m: int| 0 <= i < m < r.len() implies #[trigger] r[i].0 != #[trigger] r[m].0 by {
            if i == 0 {
                assert(r[m] == tail[m - 1]);
                if tail[m - 1].0 != k {
                    let w = choose|w: int| 0 <= w < rest.len() && rest[w].0 == tail[m - 1].0;
                    assert(acc[w + 1] == rest[w]);
                }
            } else {
                assert(r[i] == tail[i - 1] && r[m] == tail[m - 1]);
            }
        }
        assert forall|i: int| 0 <= i < r.len() implies conforms(#[trigger] r[i].1, inner) by {
            if i > 0 {
                assert(r[i] == tail[i - 1]);
            }
        }
    } else if acc.len() > 0 {
        let r = acc.update(0, (k, d));
        assert forall|i: int| 0 <= i < r.len() implies (#[trigger] r[i].0 == k || exists|m: int| 0 <= m < acc.len() && acc[m].0 == r[i].0) by {
            if i > 0 {
                assert(acc[i].0 == r[i].0);
            }
        }
    }
}

/// Map entries converted under `inner` have distinct keys and values of `inner`.
proof fn lemma_map_entries_conform(es: Seq<(String, RInput)>, inner: AvroSchema, n: int)
    ensures
        map_entries(es, inner, n) matches Ok(acc) ==> {
            &&& forall|i: int| 0 <= i < acc.len() ==> conforms(#[trigger] acc[i].1, inner)
            &&& forall|i: int, m: int| 0 <= i < m < acc.len() ==> #[trigger] acc[i].0 != #[trigger] acc[m].0
        },
    decreases inner, n,
{
    if n > 0 {
        lemma_map_entries_conform(es, inner, n - 1);
        law_conversion_conforms(es[n - 1].1, inner);
        if let Ok(acc) = map_entries(es, inner, n - 1) {
            if let Ok(d) = to_datum(es[n - 1].1, inner) {
                lemma_map_insert_conforms(acc, es[n - 1].0@, d, inner);
            }
        }
    }
}

/// Record fields converted under the first `n` fields of a record schema are
/// those fields, by name and in order, each a value of its field's schema.
proof fn lemma_record_fields_conform(es: Seq<(String, RInput)>, fs: Seq<AvroField>, n: int)
    requires
        0 <= n <= fs.len(),
    ensures
        record_fields(es, fs, n) matches Ok(acc) ==> {
            &&& acc.len() == n
            &&& forall|k: int| 0 <= k < n ==> #[trigger] acc[k].0 == fs[k].name@
            &&& forall|k: int| 0 <= k < n ==> conforms(#[trigger] acc[k].1, fs[k].schema)
        },
    decreases fs, n,
{
    if n > 0 {
        lemma_record_fields_conform(es, fs, n - 1);
        if let Some(v) = find_entry(es, fs[n - 1].name@, 0) {
            law_conversion_conforms(v, fs[n - 1].schema);
        }
    }
}

/// Every Avro value that the conversion of R data makes under a schema is a
/// value of that schema, so an Avro encoder accepts it under that schema.
pub proof fn law_conversion_conforms(x: RInput, s: AvroSchema)
    ensures
        to_datum(x, s) matches Ok(d) ==> conforms(d, s),
    decreases s, 0int,
{
    match s {
        AvroSchema::Array(inner) => {
            if let Some(es) = crate::r_value::r_list(x) {
                lemma_array_items_conform(es, *inner, es.len() as int);
            }
        },
        AvroSchema::Mapping(inner) => {
            if let Some(es) = crate::r_value::r_list(x) {
                lemma_map_entries_conform(es, *inner, es.len() as int);
            }
        },
        AvroSchema::Union(vs) => {
            lemma_null_branch_conforms(vs@, 0);
            lemma_union_branch_conforms(x, vs@, 0);
            if x is Null {
                if let Ok(d) = null_branch(vs@, 0) {
                    let j = choose|j: int| 0 <= j < vs@.len() && j as u32 == d->Union_0 && #[trigger] vs@[j] is Null;
                    assert(conforms(*d->Union_1, vs@[j]));
                }
            } else {
                if let Ok(d) = union_branch(x, vs@, 0) {
                    let j = choose|j: int| 0 <= j < vs@.len() && j as u32 == d->Union_0 && conforms(*d->Union_1, #[trigger] vs@[j]);
                    assert(conforms(*d->Union_1, vs@[j]));
                }
            }
        },
        AvroSchema::Record(fs) => {
            if let Some(es) = crate::r_value::r_list(x) {
                lemma_record_fields_conform(es, fs@, fs@.len() as int);
            }
        },
        AvroSchema::Enum(syms) => {
            if let Some(t) = crate::r_value::r_str(x) {
                lemma_symbol_index_found(syms@, t, 0);
            }
        },
        _ => {},
    }
}

} // verus!

verus! {

/// Values of `inner` convert to R objects, one after another.
proof fn lemma_items_to_r_total(items: Seq<SpecDatum>, inner: AvroSchema, n: int)
    requires
        0 <= n <= items.len(),
        forall|k: int| 0 <= k < items.len() ==> conforms(#[trigger] items[k], inner),
    ensures
        items_to_r(items, n) is Ok,
    decreases inner, n,
{
    if n > 0 {
        lemma_items_to_r_total(items, inner, n - 1);
        law_conforming_values_convert_back(items[n - 1], inner);
    }
}

/// Named values of `inner` convert to named R objects, one after another.
proof fn lemma_named_to_r_total_map(es: Seq<(Seq<char>, SpecDatum)>, inner: AvroSchema, n: int)
    requires
        0 <= n <= es.len(),
        forall|k: int| 0 <= k < es.len() ==> conforms(#[trigger] es[k].1, inner),
    ensures
        named_to_r(es, n) is Ok,
    decreases inner, n,
{
    if n > 0 {
        lemma_named_to_r_total_map(es, inner, n - 1);
        law_conforming_values_convert_back(es[n - 1].1, inner);
    }
}

/// Record fields that are values of their fields' schemas convert to named R
/// objects, one after another.
proof fn lemma_named_to_r_total_record(es: Seq<(Seq<char>, SpecDatum)>, fs: Seq<AvroField>, n: int)
    requires
        0 <= n <= es.len(),
        es.len() == fs.len(),
        forall|k: int| 0 <= k < es.len() ==> conforms(#[trigger] es[k].1, fs[k].schema),
    ensures
        named_to_r(es, n) is Ok,
    decreases fs, n,
{
    if n > 0 {
        lemma_named_to_r_total_record(es, fs, n - 1);
        law_conforming_values_convert_back(es[n - 1].1, fs[n - 1].schema);
    }
}

/// Every value of a schema converts to an R object.
pub proof fn law_conforming_values_convert_back(d: SpecDatum, s: AvroSchema)
    requires
        conforms(d, s),
    ensures
        datum_to_r(d) is Ok,
    decreases s, 0int,
{
    match s {
        AvroSchema::Array(inner) => {
            let items = d->Array_0;
            lemma_items_to_r_total(items, *inner, items.len() as int);
        },
        AvroSchema::Mapping(inner) => {
            let es = d->Mapping_0;
            lemma_named_to_r_total_map(es, *inner, es.len() as int);
        },
        AvroSchema::Union(vs) => {
            let j = choose|j: int| 0 <= j < vs@.len() && j as u32 == d->Union_0 && conforms(*d->Union_1, #[trigger] vs@[j]);
            law_conforming_values_convert_back(*d->Union_1, vs@[j]);
        },
        AvroSchema::Record(fs) => {
            let es = d->Record_0;
            lemma_named_to_r_total_record(es, fs@, es.len() as int);
        },
        _ => {},
    }
}

/// Every Avro value that the conversion of R data makes converts back to an
/// R object.
pub proof fn law_converted_values_convert_back(x: RInput, s: AvroSchema)
    ensures
        to_datum(x, s) matches Ok(d) ==> datum_to_r(d) is Ok,
{
    law_conversion_conforms(x, s);
    if let Ok(d) = to_datum(x, s) {
        law_conforming_values_convert_back(d, s);
    }
}

} // verus!

verus! {

/// The first branch at or after `i` that is not `null` and accepts `x`.
pub open spec fn accepting_branch(x: RInput, vs: Seq<AvroSchema>, i: nat) -> Option<nat>
    decreases vs.len() - i,
{
    if i >= vs.len() {
        None
    } else if !(vs[i as int] is Null) && to_datum(x, vs[i as int]) is Ok {
        Some(i)
    } else {
        accepting_branch(x, vs, i + 1)
    }
}

/// Whether the R object `x` has the form that the library's type mapping
/// gives to schema `s`, where the mapping loses nothing: `NULL` for `null`, a
/// logical scalar (not missing) for `boolean`, an integer scalar for `int`, a
/// double scalar for `double`, a string scalar for `string` and for `enum`
/// (one of its symbols), a raw vector for `bytes` and for `fixed` (of its
/// size), a list of such objects for `array`, a list with
/// distinct names for `map`, a list with exactly the record's fields, by name
/// and in order, for `record`, and for a union, `NULL` where it has a `null`
/// branch, else the form of the branch that the object is matched to.
pub open spec fn in_type_mapping(x: RInput, s: AvroSchema) -> bool
    decreases s,
{
    match s {
        AvroSchema::Null => x is Null,
        AvroSchema::Boolean => x matches RInput::Logical(v) && v@.len() == 1 && v@[0] != Lgl::Na,
        AvroSchema::Int => x is Integer && r_integer(x) is Some,
        AvroSchema::Double => r_real(x) is Some,
        AvroSchema::Str => x matches RInput::Character(v) && v@.len() == 1,
        AvroSchema::Bytes => x is Raw,
        AvroSchema::Fixed(n) => x matches RInput::Raw(v) && v@.len() == n,
        AvroSchema::Enum(syms) => x matches RInput::Character(v) && v@.len() == 1 && symbol_index(syms@, v@[0]@, 0) is Some,
        AvroSchema::Array(inner) => match x {
            RInput::List(es) => forall|k: int| 0 <= k < es@.len() ==> in_type_mapping(#[trigger] es@[k].1, *inner),
            _ => false,
        },
        AvroSchema::Mapping(inner) => match x {
            RInput::List(es) => {
                &&& forall|k: int| 0 <= k < es@.len() ==> in_type_mapping(#[trigger] es@[k].1, *inner)
                &&& forall|k: int, m: int| 0 <= k < m < es@.len() ==> #[trigger] es@[k].0@ != #[trigger] es@[m].0@
            },
            _ => false,
        },
        AvroSchema::Record(fs) => match x {
            RInput::List(es) => {
                &&& es@.len() == fs@.len()
                &&& forall|k: int| 0 <= k < es@.len() ==> #[trigger] es@[k].0@ == fs@[k].name@
                &&& forall|k: int, m: int| 0 <= k < m < fs@.len() ==> #[trigger] fs@[k].name@ != #[trigger] fs@[m].name@
                &&& forall|k: int| 0 <= k < es@.len() ==> in_type_mapping(#[trigger] es@[k].1, fs@[k].schema)
            },
            _ => false,
        },
        AvroSchema::Union(vs) => if x is Null {
            exists|j: int| 0 <= j < vs@.len() && #[trigger] vs@[j] is Null
        } else {
            match accepting_branch(x, vs@, 0) {
                Some(j) => j < vs@.len() && in_type_mapping(x, vs@[j as int]),
                None => false,
            }
        },
        _ => false,
    }
}

/// Whether the R object to build `o` is the R object `x`.
pub open spec fn same_r_data(o: SpecROutput, x: RInput) -> bool
    decreases x,
{
    match o {
        SpecROutput::Null => x is Null,
        SpecROutput::Logical(b) => x matches RInput::Logical(v) && v@.len() == 1 && v@[0] == (if b { Lgl::True } else { Lgl::False }),
        SpecROutput::Integer(i) => x matches RInput::Integer(v) && v@.len() == 1 && v@[0] == i,
        SpecROutput::Real(r) => x matches RInput::Real(v) && v@.len() == 1 && v@[0] is Some && r == RealOf::Bits(v@[0]->Some_0.bits),
        SpecROutput::Character(t) => x matches RInput::Character(v) && v@.len() == 1 && v@[0]@ == t,
        SpecROutput::Raw(b) => x matches RInput::Raw(v) && v@ == b,
        SpecROutput::List(os) => match x {
            RInput::List(es) => os.len() == es@.len() && forall|k: int| 0 <= k < os.len() ==> same_r_data(#[trigger] os[k], es@[k].1),
            _ => false,
        },
        SpecROutput::NamedList(os) => match x {
            RInput::List(es) => {
                &&& os.len() == es@.len()
                &&& forall|k: int| 0 <= k < os.len() ==> #[trigger] os[k].0 == es@[k].0@
                &&& forall|k: int| 0 <= k < os.len() ==> same_r_data(#[trigger] os[k].1, es@[k].1)
            },
            _ => false,
        },
    }
}

} // verus!

verus! {

/// Values that all convert give one R object each, in order.
proof fn lemma_items_to_r_each(items: Seq<SpecDatum>, n: int)
    requires
        0 <= n <= items.len(),
        forall|k: int| 0 <= k < items.len() ==> #[trigger] datum_to_r(items[k]) is Ok,
    ensures
        items_to_r(items, n) matches Ok(os) && os.len() == n
            && forall|k: int| 0 <= k < n ==> Ok::<SpecROutput, SpecConversionError>(#[trigger] os[k]) == datum_to_r(items[k]),
    decreases n,
{
    if n > 0 {
        lemma_items_to_r_each(items, n - 1);
        assert(datum_to_r(items[n - 1]) is Ok);
    }
}

/// Named values that all convert give one named R object each, in order.
proof fn lemma_named_to_r_each(es: Seq<(Seq<char>, SpecDatum)>, n: int)
    requires
        0 <= n <= es.len(),
        forall|k: int| 0 <= k < es.len() ==> #[trigger] datum_to_r(es[k].1) is Ok,
    ensures
        named_to_r(es, n) matches Ok(os) && os.len() == n
            && forall|k: int| 0 <= k < n ==> (#[trigger] os[k]).0 == es[k].0
                && Ok::<SpecROutput, SpecConversionError>(os[k].1) == datum_to_r(es[k].1),
    decreases n,
{
    if n > 0 {
        lemma_named_to_r_each(es, n - 1);
        assert(datum_to_r(es[n - 1].1) is Ok);
    }
}

/// The elements of a list in the type mapping of `inner` become array items
/// one by one.
proof fn lemma_array_items_each(es: Seq<(String, RInput)>, inner: AvroSchema, n: int)
    requires
        0 <= n <= es.len(),
        forall|k: int| 0 <= k < es.len() ==> in_type_mapping(#[trigger] es[k].1, inner),
    ensures
        array_items(es, inner, n) matches Ok(items) && items.len() == n
            && forall|k: int| 0 <= k < n ==> Ok::<SpecDatum, SpecConversionError>(#[trigger] items[k]) == to_datum(es[k].1, inner),
    decreases inner, n,
{
    if n > 0 {
        lemma_array_items_each(es, inner, n - 1);
        law_type_mapping_round_trip(es[n - 1].1, inner);
    }
}

/// The elements of a list with distinct names in the type mapping of `inner`
/// become map entries one by one, in order.
proof fn lemma_map_entries_each(es: Seq<(String, RInput)>, inner: AvroSchema, n: int)
    requires
        0 <= n <= es.len(),
        forall|k: int| 0 <= k < es.len() ==> in_type_mapping(#[trigger] es[k].1, inner),
        forall|k: int, m: int| 0 <= k < m < es.len() ==> #[trigger] es[k].0@ != #[trigger] es[m].0@,
    ensures
        map_entries(es, inner, n) matches Ok(acc) && acc.len() == n
            && forall|k: int| 0 <= k < n ==> (#[trigger] acc[k]).0 == es[k].0@
                && Ok::<SpecDatum, SpecConversionError>(acc[k].1) == to_datum(es[k].1, inner),
    decreases inner, n,
{
    if n > 0 {
        lemma_map_entries_each(es, inner, n - 1);
        law_type_mapping_round_trip(es[n - 1].1, inner);
        let acc = map_entries(es, inner, n - 1)->Ok_0;
        let d = to_datum(es[n - 1].1, inner)->Ok_0;
        assert forall|i: int| 0 <= i < acc.len() implies acc[i].0 != es[n - 1].0@ by {
            assert(acc[i].0 == es[i].0@);
        }
        lemma_map_insert_appends(acc, es[n - 1].0@, d);
    }
}

/// The first element named `name` from `i` on is the one at `k`.
proof fn lemma_find_entry_at(es: Seq<(String, RInput)>, name: Seq<char>, i: nat, k: int)
    requires
        i <= k < es.len(),
        es[k].0@ == name,
        forall|j: int| i <= j < k ==> es[j].0@ != name,
    ensures
        find_entry(es, name, i) == Some(es[k].1),
    decreases k - i,
{
    if i < k {
        lemma_find_entry_at(es, name, i + 1, k);
    }
}

/// A list with exactly the fields of a record, in the type mapping of their
/// schemas, gives the record's fields one by one.
proof fn lemma_record_fields_each(es: Seq<(String, RInput)>, fs: Seq<AvroField>, n: int)
    requires
        0 <= n <= fs.len(),
        es.len() == fs.len(),
        forall|k: int| 0 <= k < es.len() ==> #[trigger] es[k].0@ == fs[k].name@,
        forall|k: int, m: int| 0 <= k < m < fs.len() ==> #[trigger] fs[k].name@ != #[trigger] fs[m].name@,
        forall|k: int| 0 <= k < es.len() ==> in_type_mapping(#[trigger] es[k].1, fs[k].schema),
    ensures
        record_fields(es, fs, n) matches Ok(acc) && acc.len() == n
            && forall|k: int| 0 <= k < n ==> (#[trigger] acc[k]).0 == fs[k].name@
                && Ok::<SpecDatum, SpecConversionError>(acc[k].1) == to_datum(es[k].1, fs[k].schema),
    decreases fs, n,
{
    if n > 0 {
        lemma_record_fields_each(es, fs, n - 1);
        let k = n - 1;
        assert forall|j: int| 0 <= j < k implies es[j].0@ != fs[k].name@ by {
            assert(es[j].0@ == fs[j].name@);
        }
        assert(es[k].0@ == fs[k].name@);
        lemma_find_entry_at(es, fs[k].name@, 0, k);
        law_type_mapping_round_trip(es[k].1, fs[k].schema);
    }
}

/// A union with a `null` branch at or after `i` takes `NULL`.
proof fn lemma_null_branch_found(vs: Seq<AvroSchema>, i: nat, j: int)
    requires
        i <= j < vs.len(),
        vs[j] is Null,
    ensures
        null_branch(vs, i) matches Ok(d) && d matches SpecDatum::Union(_, v) && *v == SpecDatum::Null,
    decreases j - i,
{
    if i < j && !(vs[i as int] is Null) {
        lemma_null_branch_found(vs, i + 1, j);
    }
}

/// A non-`NULL` object goes to the branch that accepts it first.
proof fn lemma_accepting_branch(x: RInput, vs: Seq<AvroSchema>, i: nat)
    ensures
        accepting_branch(x, vs, i) matches Some(j) ==> {
            &&& i <= j < vs.len()
            &&& to_datum(x, vs[j as int]) is Ok
            &&& union_branch(x, vs, i) == Ok::<SpecDatum, SpecConversionError>(
                SpecDatum::Union(j as u32, Box::new(to_datum(x, vs[j as int])->Ok_0)),
            )
        },
    decreases vs.len() - i,
{
    if i < vs.len() {
        lemma_accepting_branch(x, vs, i + 1);
    }
}

/// R data in the library's type mapping of a schema comes back unchanged
/// when it is converted to an Avro value under that schema and that value is
/// converted back to R data.
pub proof fn law_type_mapping_round_trip(x: RInput, s: AvroSchema)
    requires
        in_type_mapping(x, s),
    ensures
        to_datum(x, s) matches Ok(d) && datum_to_r(d) matches Ok(o) && same_r_data(o, x),
    decreases s, 0int,
{
    match s {
        AvroSchema::Array(inner) => {
            let es = x->List_0@;
            lemma_array_items_each(es, *inner, es.len() as int);
            let items = array_items(es, *inner, es.len() as int)->Ok_0;
            assert forall|k: int| 0 <= k < items.len() implies #[trigger] datum_to_r(items[k]) is Ok by {
                law_type_mapping_round_trip(es[k].1, *inner);
            }
            lemma_items_to_r_each(items, items.len() as int);
            let os = items_to_r(items, items.len() as int)->Ok_0;
            assert forall|k: int| 0 <= k < os.len() implies same_r_data(#[trigger] os[k], es[k].1) by {
                law_type_mapping_round_trip(es[k].1, *inner);
            }
        },
        AvroSchema::Mapping(inner) => {
            let es = x->List_0@;
            lemma_map_entries_each(es, *inner, es.len() as int);
            let acc = map_entries(es, *inner, es.len() as int)->Ok_0;
            assert forall|k: int| 0 <= k < acc.len() implies #[trigger] datum_to_r(acc[k].1) is Ok by {
                law_type_mapping_round_trip(es[k].1, *inner);
            }
            lemma_named_to_r_each(acc, acc.len() as int);
            let os = named_to_r(acc, acc.len() as int)->Ok_0;
            assert forall|k: int| 0 <= k < os.len() implies same_r_data(#[trigger] os[k].1, es[k].1) by {
                law_type_mapping_round_trip(es[k].1, *inner);
            }
            assert forall|k: int| 0 <= k < os.len() implies #[trigger] os[k].0 == es[k].0@ by {
                assert(acc[k].0 == es[k].0@);
            }
        },
        AvroSchema::Record(fs) => {
            let es = x->List_0@;
            lemma_record_fields_each(es, fs@, fs@.len() as int);
            let acc = record_fields(es, fs@, fs@.len() as int)->Ok_0;
            assert forall|k: int| 0 <= k < acc.len() implies #[trigger] datum_to_r(acc[k].1) is Ok by {
                law_type_mapping_round_trip(es[k].1, fs@[k].schema);
            }
            lemma_named_to_r_each(acc, acc.len() as int);
            let os = named_to_r(acc, acc.len() as int)->Ok_0;
            assert forall|k: int| 0 <= k < os.len() implies same_r_data(#[trigger] os[k].1, es[k].1) by {
                law_type_mapping_round_trip(es[k].1, fs@[k].schema);
            }
            assert forall|k: int| 0 <= k < os.len() implies #[trigger] os[k].0 == es[k].0@ by {
                assert(acc[k].0 == fs@[k].name@);
                assert(es[k].0@ == fs@[k].name@);
            }
        },
        AvroSchema::Union(vs) => {
            if x is Null {
                let j = choose|j: int| 0 <= j < vs@.len() && #[trigger] vs@[j] is Null;
                lemma_null_branch_found(vs@, 0, j);
                let d = null_branch(vs@, 0)->Ok_0;
                assert(datum_to_r(*d->Union_1) == Ok::<SpecROutput, SpecConversionError>(SpecROutput::Null));
                assert(datum_to_r(d) == datum_to_r(*d->Union_1));
                assert(to_datum(x, s) == Ok::<SpecDatum, SpecConversionError>(d));
            } else {
                lemma_accepting_branch(x, vs@, 0);
                let j = accepting_branch(x, vs@, 0)->Some_0;
                law_type_mapping_round_trip(x, vs@[j as int]);
            }
        },
        AvroSchema::Enum(syms) => {
            let t = x->Character_0@[0]@;
            lemma_symbol_index_found(syms@, t, 0);
        },
        _ => {},
    }
}

} // verus!

verus! {

/// Past `i`, no element is named `name` when none is found from `i` on.
proof fn lemma_find_entry_none(es: Seq<(String, RInput)>, name: Seq<char>, i: nat)
    ensures
        find_entry(es, name, i) is None <==> forall|k: int| i <= k < es.len() ==> es[k].0@ != name,
    decreases es.len() - i,
{
    if i < es.len() {
        lemma_find_entry_none(es, name, i + 1);
    }
}

/// Looking up a name in a list gives the element of the first entry with that
/// name, and nothing exactly when no entry has that name.
pub proof fn law_find_entry_is_first_named(es: Seq<(String, RInput)>, name: Seq<char>)
    ensures
        find_entry(es, name, 0) is None <==> forall|k: int| 0 <= k < es.len() ==> es[k].0@ != name,
        forall|j: int|
            0 <= j < es.len() && #[trigger] es[j].0@ == name && (forall|k: int| 0 <= k < j ==> es[k].0@ != name)
                ==> find_entry(es, name, 0) == Some(es[j].1),
{
    lemma_find_entry_none(es, name, 0);
    assert forall|j: int|
        0 <= j < es.len() && #[trigger] es[j].0@ == name && (forall|k: int| 0 <= k < j ==> es[k].0@ != name)
            implies find_entry(es, name, 0) == Some(es[j].1) by {
        lemma_find_entry_at(es, name, 0, j);
    }
}

/// The first `n` fields of a record, each found by name and converting, give
/// the record's first `n` fields in schema order.
proof fn lemma_record_fields_found(es: Seq<(String, RInput)>, fs: Seq<AvroField>, n: int)
    requires
        0 <= n <= fs.len(),
        forall|k: int|
            0 <= k < fs.len() ==> #[trigger] find_entry(es, fs[k].name@, 0) is Some && to_datum(
                find_entry(es, fs[k].name@, 0)->Some_0,
                fs[k].schema,
            ) is Ok,
    ensures
        record_fields(es, fs, n) matches Ok(acc) && acc.len() == n && forall|k: int|
            0 <= k < n ==> #[trigger] acc[k] == (
                fs[k].name@,
                to_datum(find_entry(es, fs[k].name@, 0)->Some_0, fs[k].schema)->Ok_0,
            ),
    decreases fs, n,
{
    if n > 0 {
        lemma_record_fields_found(es, fs, n - 1);
        assert(find_entry(es, fs[n - 1].name@, 0) is Some);
    }
}

/// A record converts from a list by finding each field's element by name: where
/// the list has an element named after every field and each converts under its
/// field's schema, the record holds those values in field order, whatever
/// other elements the list holds.
pub proof fn law_record_takes_fields_by_name(x: RInput, fs: Vec<AvroField>)
    requires
        r_list(x) is Some,
        forall|k: int|
            0 <= k < fs@.len() ==> #[trigger] find_entry(r_list(x)->Some_0, fs@[k].name@, 0) is Some && to_datum(
                find_entry(r_list(x)->Some_0, fs@[k].name@, 0)->Some_0,
                fs@[k].schema,
            ) is Ok,
    ensures
        to_datum(x, AvroSchema::Record(fs)) matches Ok(SpecDatum::Record(es)) && es.len() == fs@.len() && forall|
            k: int,
        |
            0 <= k < fs@.len() ==> #[trigger] es[k] == (
                fs@[k].name@,
                to_datum(find_entry(r_list(x)->Some_0, fs@[k].name@, 0)->Some_0, fs@[k].schema)->Ok_0,
            ),
{
    lemma_record_fields_found(r_list(x)->Some_0, fs@, fs@.len() as int);
}

/// Two lists that find the same element for every field name give the same
/// record fields, or the same failure.
proof fn lemma_record_fields_same_finds(a: Seq<(String, RInput)>, b: Seq<(String, RInput)>, fs: Seq<AvroField>, n: int)
    requires
        forall|k: int| 0 <= k < fs.len() ==> #[trigger] find_entry(a, fs[k].name@, 0) == find_entry(b, fs[k].name@, 0),
    ensures
        record_fields(a, fs, n) == record_fields(b, fs, n),
    decreases fs, n,
{
    if 0 < n <= fs.len() {
        lemma_record_fields_same_finds(a, b, fs, n - 1);
        assert(find_entry(a, fs[n - 1].name@, 0) == find_entry(b, fs[n - 1].name@, 0));
    }
}

/// What a list becomes under a record schema depends only on the element that
/// each field name finds in it: two lists that find the same elements for the
/// record's field names convert alike, however many other elements they hold.
pub proof fn law_record_reads_only_its_fields(x: RInput, y: RInput, fs: Vec<AvroField>)
    requires
        r_list(x) is Some,
        r_list(y) is Some,
        forall|k: int|
            0 <= k < fs@.len() ==> #[trigger] find_entry(r_list(x)->Some_0, fs@[k].name@, 0) == find_entry(
                r_list(y)->Some_0,
                fs@[k].name@,
                0,
            ),
    ensures
        to_datum(x, AvroSchema::Record(fs)) == to_datum(y, AvroSchema::Record(fs)),
{
    lemma_record_fields_same_finds(r_list(x)->Some_0, r_list(y)->Some_0, fs@, fs@.len() as int);
}

/// A name found in a list is found alike in any longer list that starts with it.
proof fn lemma_find_entry_in_prefix(a: Seq<(String, RInput)>, b: Seq<(String, RInput)>, name: Seq<char>, i: nat, j: int)
    requires
        a.len() <= b.len(),
        forall|k: int| 0 <= k < a.len() ==> b[k] == a[k],
        i <= j < a.len(),
        a[j].0@ == name,
    ensures
        find_entry(b, name, i) == find_entry(a, name, i),
    decreases j - i,
{
    if a[i as int].0@ != name {
        lemma_find_entry_in_prefix(a, b, name, i + 1, j);
    }
}

/// Elements added after a list that names every field of a record leave what
/// it converts to under the record unchanged.
pub proof fn law_record_ignores_added_elements(a: Vec<(String, RInput)>, b: Vec<(String, RInput)>, fs: Vec<AvroField>)
    requires
        a@.len() <= b@.len(),
        forall|k: int| 0 <= k < a@.len() ==> b@[k] == a@[k],
        forall|k: int|
            #![trigger fs@[k]]
            0 <= k < fs@.len() ==> exists|j: int| #![trigger a@[j]] 0 <= j < a@.len() && a@[j].0@ == fs@[k].name@,
    ensures
        to_datum(RInput::List(b), AvroSchema::Record(fs)) == to_datum(RInput::List(a), AvroSchema::Record(fs)),
{
    assert forall|k: int| 0 <= k < fs@.len() implies #[trigger] find_entry(b@, fs@[k].name@, 0) == find_entry(
        a@,
        fs@[k].name@,
        0,
    ) by {
        let j = choose|j: int| #![trigger a@[j]] 0 <= j < a@.len() && a@[j].0@ == fs@[k].name@;
        lemma_find_entry_in_prefix(a@, b@, fs@[k].name@, 0, j);
    }
    law_record_reads_only_its_fields(RInput::List(a), RInput::List(b), fs);
}

/// An Avro float becomes the R double equal to that very single-precision
/// number, whatever its bits (sign, NaN and infinities included).
pub proof fn law_float_read_back_exactly(f: u32)
    ensures
        datum_to_r(SpecDatum::Float(f)) == Ok::<SpecROutput, SpecConversionError>(SpecROutput::Real(RealOf::Single(f))),
{
}

/// An R double converted under a `float` schema and back gives the double
/// equal to its single-precision narrowing; under `double`, the same bits;
/// under `long`, the double nearest to its truncation.
pub proof fn law_reals_convert_back(x: RInput)
    requires
        r_real(x) is Some,
    ensures
        to_datum(x, AvroSchema::Float) matches Ok(d) && datum_to_r(d) == Ok::<SpecROutput, SpecConversionError>(
            SpecROutput::Real(RealOf::Single(r_real(x)->Some_0.narrowed)),
        ),
        to_datum(x, AvroSchema::Double) matches Ok(d) && datum_to_r(d) == Ok::<SpecROutput, SpecConversionError>(
            SpecROutput::Real(RealOf::Bits(r_real(x)->Some_0.bits)),
        ),
        to_datum(x, AvroSchema::Long) matches Ok(d) && datum_to_r(d) == Ok::<SpecROutput, SpecConversionError>(
            SpecROutput::Real(RealOf::Long(r_real(x)->Some_0.truncated)),
        ),
{
}

/// The views of R objects to build, one for one.
proof fn lemma_outputs_view_each(s: Seq<ROutput>)
    ensures
        outputs_view(s).len() == s.len(),
        forall|k: int| 0 <= k < s.len() ==> #[trigger] outputs_view(s)[k] == output_view(s[k]),
    decreases s.len(),
{
    if s.len() > 0 {
        lemma_outputs_view_each(s.drop_last());
    }
}

/// Gathering keeps every value read, in order: one value stands alone, and any
/// other number of values (none included) makes the unnamed list of all of
/// them.
pub proof fn law_gathering_keeps_every_value(results: Seq<ROutput>)
    ensures
        results.len() == 1 ==> gathered(results) == output_view(results[0]),
        results.len() != 1 ==> (gathered(results) matches SpecROutput::List(l) && l.len() == results.len()
            && forall|k: int| 0 <= k < results.len() ==> #[trigger] l[k] == output_view(results[k])),
{
    lemma_outputs_view_each(results);
}

} // verus!
