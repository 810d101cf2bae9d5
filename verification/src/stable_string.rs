//! # `StableString`
//!
//! A UTF-8 string held in a [`StableVec`] of bytes.
use vstd::prelude::*;
use crate::pod::{str_from_utf8, utf8_error_of};
use vstd::utf8::valid_utf8;
use crate::stable_vec::StableVec;

verus! {

/// A string that can be handed across module boundaries: its bytes are
/// always valid UTF-8.
pub struct StableString {
    bytes: StableVec<u8>,
}

/// The bytes that were not valid UTF-8, handed back.
pub struct FromUtf8Error {
    pub bytes: StableVec<u8>,
    pub error: core::str::Utf8Error,
}

impl View for StableString {
    type V = Seq<u8>;

    closed spec fn view(&self) -> Seq<u8> {
        self.bytes@
    }
}

impl StableString {
    /// The string's bytes are valid UTF-8.
    pub open spec fn wf(&self) -> bool {
        valid_utf8(self@)
    }

    /// Takes over `bytes` when they are valid UTF-8; hands them back in the
    /// error otherwise, with the error `core::str::from_utf8` gives for them.
    pub fn from_utf8(bytes: StableVec<u8>) -> (r: Result<Self, FromUtf8Error>)
        ensures
            r is Ok <==> valid_utf8(bytes@),
            r matches Ok(s) ==> s@ == bytes@ && s.wf(),
            r matches Err(e) ==> e.bytes@ == bytes@ && e.error == utf8_error_of(bytes@),
    {
        let checked = str_from_utf8(bytes.as_slice());
        match checked {
            Ok(_) => Ok(StableString { bytes }),
            Err(error) => Err(FromUtf8Error { bytes, error }),
        }
    }

    /// Gives the bytes back.
    pub fn into_bytes(self) -> (bytes: StableVec<u8>)
        ensures
            bytes@ == self@,
    {
        self.bytes
    }
}

} // verus!
