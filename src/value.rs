//! Tagged values exchanged with the scripting runtime.
use vstd::prelude::*;
use vstd::slice::slice_to_vec;
use vstd::utf8::{decode_utf8, encode_utf8, valid_utf8};

verus! {

/// Text that `String::from_utf8_lossy` makes of a byte sequence.
pub uninterp spec fn utf8_lossy(b: Seq<u8>) -> Seq<char>;

/// Relies on `String::from_utf8_lossy`: the decoded text depends on the bytes alone,
/// and valid UTF-8 decodes to exactly the text it encodes.
#[verifier::external_body]
fn decode_lossy(b: &Vec<u8>) -> (r: String)
    ensures
        r@ == utf8_lossy(b@),
        valid_utf8(b@) ==> r@ == decode_utf8(b@),
{
    String::from_utf8_lossy(b).into_owned()
}

/// A value crossing the runtime boundary: a tag and its payload.
///
/// The string payload is owned, so duplicating a value copies its bytes and
/// dropping it releases them exactly once. The floating-point payloads are kept
/// as their IEEE-754 bit patterns.
#[allow(non_camel_case_types)]
#[derive(Clone, Debug)]
pub enum rext_var {
    Nil,
    Str(Vec<u8>),
    Bool(bool),
    Int(i64),
    Uint(u64),
    F32Bits(u32),
    F64Bits(u64),
}

/// The bytes of a value, when it is string-tagged.
pub open spec fn bytes_of(v: rext_var) -> Option<Seq<u8>> {
    match v {
        rext_var::Str(b) => Some(b@),
        _ => None,
    }
}

/// The boolean of a value, when it is bool-tagged.
pub open spec fn bool_of(v: rext_var) -> Option<bool> {
    match v {
        rext_var::Bool(b) => Some(b),
        _ => None,
    }
}

/// The text that the string accessor reads out of a value: the decoded
/// text for valid UTF-8, the permissive decoding otherwise.
pub open spec fn text_of(v: rext_var) -> Option<Seq<char>> {
    match bytes_of(v) {
        Some(b) => Some(if valid_utf8(b) { decode_utf8(b) } else { utf8_lossy(b) }),
        None => None,
    }
}

impl rext_var {
    /// The zero-initialised value, which carries no payload.
    pub fn new() -> (r: Self)
        ensures
            r is Nil,
    {
        rext_var::Nil
    }

    /// The string payload decoded permissively; `None` unless string-tagged.
    pub fn as_string(&self) -> (r: Option<String>)
        ensures
            r is Some <==> self is Str,
            r is Some ==> r->0@ == utf8_lossy(bytes_of(*self)->0),
            r is Some ==> Some(r->0@) == text_of(*self),
    {
        match self {
            rext_var::Str(b) => Some(decode_lossy(b)),
            _ => None,
        }
    }

    /// The raw string payload; `None` unless string-tagged.
    pub fn as_bytes(&self) -> (r: Option<&Vec<u8>>)
        ensures
            r is Some <==> self is Str,
            r is Some ==> r->0@ == bytes_of(*self)->0,
    {
        match self {
            rext_var::Str(b) => Some(b),
            _ => None,
        }
    }

    /// The boolean payload; `None` unless bool-tagged.
    pub fn as_bool(&self) -> (r: Option<bool>)
        ensures
            r == bool_of(*self),
    {
        match self {
            rext_var::Bool(b) => Some(*b),
            _ => None,
        }
    }

    /// A string-tagged value holding a copy of `val`.
    pub fn new_string(val: &[u8]) -> (r: Self)
        ensures
            bytes_of(r) == Some(val@),
    {
        rext_var::Str(slice_to_vec(val))
    }

    pub fn new_bool(val: bool) -> (r: Self)
        ensures
            r == rext_var::Bool(val),
    {
        rext_var::Bool(val)
    }

    pub fn new_int(val: i64) -> (r: Self)
        ensures
            r == rext_var::Int(val),
    {
        rext_var::Int(val)
    }

    pub fn new_uint(val: u64) -> (r: Self)
        ensures
            r == rext_var::Uint(val),
    {
        rext_var::Uint(val)
    }

    /// A 32-bit float value, given by its bit pattern.
    pub fn new_f32_bits(bits: u32) -> (r: Self)
        ensures
            r == rext_var::F32Bits(bits),
    {
        rext_var::F32Bits(bits)
    }

    /// A 64-bit float value, given by its bit pattern.
    pub fn new_f64_bits(bits: u64) -> (r: Self)
        ensures
            r == rext_var::F64Bits(bits),
    {
        rext_var::F64Bits(bits)
    }
}

/// A string-tagged value made from `b` gives back exactly `b` through the raw
/// accessor. Through the string accessor it gives text whose encoding is `b`
/// again when `b` is valid UTF-8, and the permissive decoding of `b` otherwise.
pub proof fn lemma_string_round_trip(b: Seq<u8>, v: rext_var)
    requires
        bytes_of(v) == Some(b),
    ensures
        v is Str,
        valid_utf8(b) ==> encode_utf8(text_of(v)->0) == b,
        !valid_utf8(b) ==> text_of(v) == Some(utf8_lossy(b)),
{
    if valid_utf8(b) {
        vstd::utf8::decode_utf8_encode_utf8(b);
    }
}

} // verus!
