//! # Plain old data
//!
//! Reading NUL-terminated strings out of byte buffers.
use vstd::prelude::*;
use vstd::string::StringSliceAdditionalSpecFns;
use vstd::utf8::valid_utf8;

verus! {

/// Whether `i` is the position of the first NUL byte of `s`.
pub open spec fn is_first_null(s: Seq<u8>, i: int) -> bool {
    &&& 0 <= i < s.len()
    &&& s[i] == 0
    &&& forall|j: int| 0 <= j < i ==> s[j] != 0
}

/// Whether `s` holds a NUL byte.
pub open spec fn has_null(s: Seq<u8>) -> bool {
    exists|i: int| 0 <= i < s.len() && s[i] == 0
}

/// The bytes of `s` before its first NUL byte (all of `s` when it has none).
pub open spec fn until_null(s: Seq<u8>) -> Seq<u8> {
    if has_null(s) {
        s.take(choose|i: int| is_first_null(s, i))
    } else {
        s
    }
}

/// A sequence with a NUL byte has exactly one first NUL byte.
pub proof fn lemma_first_null(s: Seq<u8>, i: int)
    requires
        is_first_null(s, i),
    ensures
        has_null(s),
        until_null(s) == s.take(i),
{
    let k = choose|k: int| is_first_null(s, k);
    assert(is_first_null(s, k));
    if k < i {
        assert(s[k] != 0);
    } else if i < k {
        assert(s[i] != 0);
    }
}

fn first_null(input: &[u8]) -> (r: Option<usize>)
    ensures
        r is Some <==> has_null(input@),
        r matches Some(i) ==> is_first_null(input@, i as int),
{
    let mut i: usize = 0;
    while i < input.len()
        invariant
            i <= input@.len(),
            forall|j: int| 0 <= j < i ==> input@[j] != 0,
        decreases input@.len() - i,
    {
        if input[i] == 0 {
            return Some(i);
        }
        i += 1;
    }
    None
}

/// The bytes before the first NUL byte of `input`, which must hold one.
pub fn read_until_null(input: &[u8]) -> (r: &[u8])
    requires
        has_null(input@),
    ensures
        r@ == until_null(input@),
        is_first_null(input@, r@.len() as int),
{
    let i = first_null(input).unwrap();
    proof {
        lemma_first_null(input@, i as int);
    }
    vstd::slice::slice_subrange(input, 0, i)
}

/// The bytes of the NUL-terminated string at the start of `input`, which must
/// hold a NUL byte.
pub fn read_str_bytes(input: &[u8]) -> (r: &[u8])
    requires
        has_null(input@),
    ensures
        r@ == until_null(input@),
        is_first_null(input@, r@.len() as int),
{
    read_until_null(input)
}

/// The NUL-terminated string at the start of `input`, which must hold a NUL
/// byte and be valid UTF-8 before it.
pub fn read_str(input: &[u8]) -> (r: &str)
    requires
        has_null(input@),
        valid_utf8(until_null(input@)),
    ensures
        r.spec_bytes() == until_null(input@),
{
    let bytes = read_str_bytes(input);
    match str_from_utf8(bytes) {
        Ok(s) => s,
        Err(_) => {
            proof {
                assert(false);
            }
            ""
        },
    }
}

#[verifier::external_type_specification]
#[verifier::external_body]
pub struct ExUtf8Error(core::str::Utf8Error);

/// The error that `core::str::from_utf8` gives for `bytes` when they are
/// not valid UTF-8: where the valid prefix ends and how long the invalid
/// sequence after it is, both determined by the bytes.
pub uninterp spec fn utf8_error_of(bytes: Seq<u8>) -> core::str::Utf8Error;

/// `core::str::from_utf8`: the bytes as a string slice when they are valid
/// UTF-8 (the same bytes, unchanged), an error otherwise. The error is named
/// ([`utf8_error_of`]); what it holds is not stated.
#[verifier::external_body]
pub(crate) fn str_from_utf8(bytes: &[u8]) -> (r: Result<&str, core::str::Utf8Error>)
    ensures
        r is Ok <==> valid_utf8(bytes@),
        r matches Ok(s) ==> s.spec_bytes() == bytes@,
        r matches Err(e) ==> e == utf8_error_of(bytes@),
{
    core::str::from_utf8(bytes)
}

} // verus!
