//! The values exchanged with plugin code: the result code a plugin function
//! returns, and a borrowed view of a byte buffer that carries text.

use vstd::prelude::*;
use vstd::slice::slice_to_vec;
use vstd::utf8::{decode_utf8, encode_utf8, encode_utf8_decode_utf8, valid_utf8};

verus! {

/// What a plugin function tells the host about the chain it was called in.
#[derive(Debug, PartialEq, Eq, Structural, Clone, Copy)]
pub enum PluginResult {
    /// Go on with the chain.
    Success,
    /// Skip the rest of the chain.
    NoChain,
    /// Skip the rest of the chain and cancel the operation that started it.
    NoChainAndCancel,
}

/// `std::string::FromUtf8Error`, the error of `String::from_utf8`. It is
/// handed to the caller as it is; nothing is claimed of what it holds.
#[verifier::external_type_specification]
#[verifier::external_body]
pub struct ExFromUtf8Error(std::string::FromUtf8Error);

/// `String::from_utf8` succeeds exactly on well-formed UTF-8, and the bytes
/// of the string it returns are the bytes it was given.
pub assume_specification[ String::from_utf8 ](vec: Vec<u8>) -> (r: Result<
    String,
    std::string::FromUtf8Error,
>)
    ensures
        r is Ok <==> valid_utf8(vec@),
        r matches Ok(s) ==> encode_utf8(s@) == vec@,
;

/// A borrowed view of a byte buffer. Nothing is copied until the bytes are
/// asked for.
pub struct EncodedString<'a> {
    bytes: &'a [u8],
}

impl<'a> View for EncodedString<'a> {
    type V = Seq<u8>;

    /// The bytes in view.
    closed spec fn view(&self) -> Seq<u8> {
        self.bytes@
    }
}

impl<'a> EncodedString<'a> {
    /// A view of `bytes`.
    pub fn new(bytes: &'a [u8]) -> (s: Self)
        ensures
            s@ == bytes@,
    {
        EncodedString { bytes }
    }

    /// A copy of the bytes in view.
    pub fn to_vec(&self) -> (v: Vec<u8>)
        ensures
            v@ == self@,
    {
        slice_to_vec(self.bytes)
    }

    /// The text that the bytes in view encode as UTF-8, or the decoding
    /// error where they are not well-formed UTF-8.
    pub fn to_string(&self) -> (r: Result<String, std::string::FromUtf8Error>)
        ensures
            r is Ok <==> valid_utf8(self@),
            r matches Ok(s) ==> s@ == decode_utf8(self@) && encode_utf8(s@) == self@,
    {
        let r = String::from_utf8(slice_to_vec(self.bytes));
        proof {
            if r is Ok {
                encode_utf8_decode_utf8(r->Ok_0@);
            }
        }
        r
    }
}

} // verus!
