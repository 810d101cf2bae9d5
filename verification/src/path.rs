//! # `Path`
//!
//! A path is a [`StableVec`] of bytes drawn from a small alphabet: ASCII
//! letters and digits, `_`, `-`, `.` and `/`.
use vstd::prelude::*;
use crate::stable_vec::StableVec;

verus! {

/// Whether `b` may appear in a path: `a`-`z`, `A`-`Z`, `_`, or one of
/// `-`, `.`, `/`, `0`-`9` (the ASCII range from `-` to `9`).
pub open spec fn is_path_byte(b: u8) -> bool {
    ||| 0x61 <= b <= 0x7a
    ||| 0x41 <= b <= 0x5a
    ||| b == 0x5f
    ||| 0x2d <= b <= 0x39
}

/// Whether every byte of `bytes` may appear in a path.
pub open spec fn is_path(bytes: Seq<u8>) -> bool {
    forall|i: int| 0 <= i < bytes.len() ==> is_path_byte(#[trigger] bytes[i])
}

/// Checks `bytes` byte by byte: `Err` with the position of the first byte
/// that may not appear in a path, `Ok` when there is none.
pub fn check(bytes: &[u8]) -> (r: Result<(), usize>)
    ensures
        r is Ok <==> is_path(bytes@),
        r matches Err(i) ==> i < bytes@.len() && !is_path_byte(bytes@[i as int])
            && is_path(bytes@.take(i as int)),
{
    let len = bytes.len();
    let mut index: usize = 0;
    while index < len
        invariant
            len == bytes@.len(),
            index <= len,
            forall|j: int| 0 <= j < index ==> is_path_byte(#[trigger] bytes@[j]),
        decreases len - index,
    {
        let ch = bytes[index];
        let allowed = (0x61 <= ch && ch <= 0x7a) || (0x41 <= ch && ch <= 0x5a) || ch == 0x5f
            || (0x2d <= ch && ch <= 0x39);
        if !allowed {
            assert(is_path(bytes@.take(index as int)));
            return Err(index);
        }
        index += 1;
    }
    Ok(())
}

/// A path: its bytes all pass [`check`].
pub struct Path {
    bytes: StableVec<u8>,
}

/// The bytes that failed [`check`], handed back with the position of the
/// first byte that may not appear in a path.
pub struct PathValidationError {
    pub bytes: StableVec<u8>,
    pub valid_up_to: usize,
}

impl View for Path {
    type V = Seq<u8>;

    closed spec fn view(&self) -> Seq<u8> {
        self.bytes@
    }
}

impl Path {
    #[verifier::type_invariant]
    spec fn inv(self) -> bool {
        is_path(self.bytes@)
    }

    /// Takes over `bytes` when every one of them may appear in a path; hands
    /// them back with the position of the first that may not otherwise.
    pub fn from_bytes(bytes: StableVec<u8>) -> (r: Result<Self, PathValidationError>)
        ensures
            r is Ok <==> is_path(bytes@),
            r matches Ok(p) ==> p@ == bytes@,
            r matches Err(e) ==> e.bytes@ == bytes@ && e.valid_up_to < bytes@.len()
                && !is_path_byte(bytes@[e.valid_up_to as int])
                && is_path(bytes@.take(e.valid_up_to as int)),
    {
        let checked = check(bytes.as_slice());
        match checked {
            Err(invalid_byte) => Err(PathValidationError { bytes, valid_up_to: invalid_byte }),
            Ok(()) => Ok(Path { bytes }),
        }
    }

    /// Gives the bytes back.
    pub fn into_bytes(self) -> (bytes: StableVec<u8>)
        ensures
            bytes@ == self@,
            is_path(bytes@),
    {
        proof {
            use_type_invariant(&self);
        }
        self.bytes
    }
}

} // verus!
