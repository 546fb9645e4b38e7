//! The library's model of R objects: those that R hands to the library, and
//! those that the library asks R to build.
//!
//! Doubles never appear as floats here. A double that R hands over is held by
//! its bit pattern together with its conversions to `i64` and `f32`; a double
//! that the library hands back is described by where it comes from. Both are
//! computed where R's values are read or built.
use vstd::prelude::*;
use vstd::string::*;
use vstd::utf8::encode_utf8;

verus! {

/// An element of an R logical vector.
#[derive(Clone, Copy, Debug, PartialEq, Eq, Structural)]
pub enum Lgl {
    False,
    True,
    Na,
}

/// A double that R handed over: its bit pattern, and what Rust's `as i64`
/// and `as f32` (by its bit pattern) make of it.
#[derive(Clone, Copy, Debug, PartialEq, Eq, Structural)]
pub struct RDouble {
    pub bits: u64,
    pub truncated: i64,
    pub narrowed: u32,
}

/// The integer that R uses for a missing integer (`NA_integer_`).
pub const NA_INTEGER: i32 = -2147483648i32;

/// An R object handed to the library.
#[derive(Debug)]
pub enum RInput {
    /// `NULL`.
    Null,
    /// A logical vector.
    Logical(Vec<Lgl>),
    /// An integer vector; [`NA_INTEGER`] marks a missing element.
    Integer(Vec<i32>),
    /// A double vector; `None` marks a missing element (`NA_real_`).
    Real(Vec<Option<RDouble>>),
    /// A character vector; a missing element reads as the text `NA`.
    Character(Vec<String>),
    /// A raw vector.
    Raw(Vec<u8>),
    /// A list: each element with its name (the empty or missing name as R
    /// reports it).
    List(Vec<(String, RInput)>),
    /// A symbol, by its name.
    Symbol(String),
    /// Any other R object.
    Other,
}

/// The scalar logical of `x`: a logical vector of length one.
pub open spec fn r_logical(x: RInput) -> Option<Lgl> {
    match x {
        RInput::Logical(v) => if v@.len() == 1 { Some(v@[0]) } else { None },
        _ => None,
    }
}

/// The scalar integer of `x`: an integer vector of length one, not missing.
pub open spec fn r_integer(x: RInput) -> Option<i32> {
    match x {
        RInput::Integer(v) => if v@.len() == 1 && v@[0] != NA_INTEGER { Some(v@[0]) } else { None },
        _ => None,
    }
}

/// The scalar double of `x`: a double vector of length one, not missing.
pub open spec fn r_real(x: RInput) -> Option<RDouble> {
    match x {
        RInput::Real(v) => if v@.len() == 1 { v@[0] } else { None },
        _ => None,
    }
}

/// The scalar string of `x`: a character vector of length one, or a symbol.
pub open spec fn r_str(x: RInput) -> Option<Seq<char>> {
    match x {
        RInput::Character(v) => if v@.len() == 1 { Some(v@[0]@) } else { None },
        RInput::Symbol(s) => Some(s@),
        _ => None,
    }
}

/// The bytes of `x`: the elements of a raw vector, or the UTF-8 bytes of its
/// scalar string.
pub open spec fn r_bytes(x: RInput) -> Option<Seq<u8>> {
    match x {
        RInput::Raw(v) => Some(v@),
        _ => match r_str(x) {
            Some(t) => Some(encode_utf8(t)),
            None => None,
        },
    }
}

/// The elements of `x` when it is a list; `NULL` reads as the empty list.
pub open spec fn r_list(x: RInput) -> Option<Seq<(String, RInput)>> {
    match x {
        RInput::List(v) => Some(v@),
        RInput::Null => Some(Seq::empty()),
        _ => None,
    }
}

impl RInput {
    /// The scalar logical of this object, as `as_logical` of extendr reads it.
    pub fn as_logical(&self) -> (r: Option<Lgl>)
        ensures
            r == r_logical(*self),
    {
        match self {
            RInput::Logical(v) => if v.len() == 1 { Some(v[0]) } else { None },
            _ => None,
        }
    }

    /// The scalar integer of this object, as `as_integer` of extendr reads it.
    pub fn as_integer(&self) -> (r: Option<i32>)
        ensures
            r == r_integer(*self),
    {
        match self {
            RInput::Integer(v) => if v.len() == 1 && v[0] != NA_INTEGER { Some(v[0]) } else { None },
            _ => None,
        }
    }

    /// The scalar double of this object, as `as_real` of extendr reads it.
    pub fn as_real(&self) -> (r: Option<RDouble>)
        ensures
            r == r_real(*self),
    {
        match self {
            RInput::Real(v) => if v.len() == 1 { v[0] } else { None },
            _ => None,
        }
    }

    /// The scalar string of this object, as `as_str` of extendr reads it.
    pub fn as_str(&self) -> (r: Option<&String>)
        ensures
            r matches Some(s) ==> r_str(*self) == Some(s@),
            r is None ==> r_str(*self) is None,
    {
        match self {
            RInput::Character(v) => if v.len() == 1 { Some(&v[0]) } else { None },
            RInput::Symbol(s) => Some(s),
            _ => None,
        }
    }

    /// The bytes of this object: the elements of a raw vector, or the UTF-8
    /// bytes of its scalar string.
    pub fn as_bytes(&self) -> (r: Option<Vec<u8>>)
        ensures
            r matches Some(b) ==> r_bytes(*self) == Some(b@),
            r is None ==> r_bytes(*self) is None,
    {
        match self {
            RInput::Raw(v) => Some(v.clone()),
            _ => match self.as_str() {
                Some(t) => Some(t.as_str().as_bytes_vec()),
                None => None,
            },
        }
    }

    /// The elements of this object when it is a list, as `as_list` of extendr
    /// reads it (`NULL` reads as the empty list).
    pub fn as_list(&self) -> (r: Option<&[(String, RInput)]>)
        ensures
            r matches Some(v) ==> r_list(*self) == Some(v@),
            r is None ==> r_list(*self) is None,
    {
        match self {
            RInput::List(v) => Some(v.as_slice()),
            RInput::Null => Some(&[]),
            _ => None,
        }
    }

    /// Whether this object is `NULL`.
    pub fn is_null(&self) -> (r: bool)
        ensures
            r == (*self is Null),
    {
        match self {
            RInput::Null => true,
            _ => false,
        }
    }
}

/// A double that the library asks R to build.
#[derive(Clone, Copy, Debug, PartialEq, Eq, Structural)]
pub enum RealOf {
    /// The double with this bit pattern.
    Bits(u64),
    /// The double nearest to this integer (Rust's `as f64`).
    Long(i64),
    /// The double equal to the single-precision number with this bit pattern.
    Single(u32),
}

/// An R object that the library asks R to build.
#[derive(Debug)]
pub enum ROutput {
    /// `NULL`.
    Null,
    /// A logical scalar.
    Logical(bool),
    /// An integer scalar.
    Integer(i32),
    /// A double scalar.
    Real(RealOf),
    /// A character scalar.
    Character(String),
    /// A raw vector.
    Raw(Vec<u8>),
    /// A list without names.
    List(Vec<ROutput>),
    /// A list with names.
    NamedList(Vec<(String, ROutput)>),
}

/// The mathematical value of an [`ROutput`].
pub enum SpecROutput {
    Null,
    Logical(bool),
    Integer(i32),
    Real(RealOf),
    Character(Seq<char>),
    Raw(Seq<u8>),
    List(Seq<SpecROutput>),
    NamedList(Seq<(Seq<char>, SpecROutput)>),
}

/// The value of an R object to build.
pub open spec fn output_view(o: ROutput) -> SpecROutput
    decreases o, 0int,
{
    match o {
        ROutput::Null => SpecROutput::Null,
        ROutput::Logical(b) => SpecROutput::Logical(b),
        ROutput::Integer(i) => SpecROutput::Integer(i),
        ROutput::Real(r) => SpecROutput::Real(r),
        ROutput::Character(s) => SpecROutput::Character(s@),
        ROutput::Raw(b) => SpecROutput::Raw(b@),
        ROutput::List(items) => SpecROutput::List(outputs_view(items@)),
        ROutput::NamedList(items) => SpecROutput::NamedList(named_outputs_view(items@)),
    }
}

/// The values of a sequence of R objects to build.
pub open spec fn outputs_view(s: Seq<ROutput>) -> Seq<SpecROutput>
    decreases s, s.len(),
{
    if s.len() == 0 {
        Seq::empty()
    } else {
        outputs_view(s.drop_last()).push(output_view(s.last()))
    }
}

/// The values of a sequence of named R objects to build.
pub open spec fn named_outputs_view(s: Seq<(String, ROutput)>) -> Seq<(Seq<char>, SpecROutput)>
    decreases s, s.len(),
{
    if s.len() == 0 {
        Seq::empty()
    } else {
        named_outputs_view(s.drop_last()).push((s.last().0@, output_view(s.last().1)))
    }
}

impl View for ROutput {
    type V = SpecROutput;

    open spec fn view(&self) -> SpecROutput {
        output_view(*self)
    }
}

} // verus!

