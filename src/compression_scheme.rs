//! The one-byte compression scheme of a chunk payload, and the calls into
//! flate2 that decode and encode payloads.
use vstd::prelude::*;
use flate2::read::{GzDecoder, ZlibDecoder, ZlibEncoder};
use std::io::Read;

verus! {

#[derive(Debug, Clone, Copy, PartialEq, Eq, Structural)]
pub enum CompressionScheme {
    Uncompressed,
    Gzip,
    Zlib,
}

/// A scheme byte that names no known scheme.
#[derive(Debug, Clone, Copy, PartialEq, Eq, Structural)]
pub struct UnsupportedScheme {
    pub byte: u8,
}

/// What flate2's zlib decoder reads from a stream; `None` for a corrupt stream.
pub uninterp spec fn zlib_decoded(b: Seq<u8>) -> Option<Seq<u8>>;

/// What flate2's gzip decoder reads from a stream; `None` for a corrupt stream.
pub uninterp spec fn gzip_decoded(b: Seq<u8>) -> Option<Seq<u8>>;

/// What flate2's zlib encoder writes for `b` at compression `level`.
pub uninterp spec fn zlib_encoded(b: Seq<u8>, level: u32) -> Option<Seq<u8>>;

/// The scheme named by a scheme byte.
pub open spec fn spec_scheme(byte: u8) -> Option<CompressionScheme> {
    if byte == 0 {
        Some(CompressionScheme::Uncompressed)
    } else if byte == 1 {
        Some(CompressionScheme::Gzip)
    } else if byte == 2 {
        Some(CompressionScheme::Zlib)
    } else {
        None
    }
}

/// The bytes that a payload compressed with `scheme` decodes to.
pub open spec fn decoded_payload(scheme: CompressionScheme, b: Seq<u8>) -> Option<Seq<u8>> {
    match scheme {
        CompressionScheme::Uncompressed => Some(b),
        CompressionScheme::Gzip => gzip_decoded(b),
        CompressionScheme::Zlib => zlib_decoded(b),
    }
}

/// Relies on flate2's `ZlibDecoder` reading a slice to its end: the output
/// depends on the input bytes alone.
#[verifier::external_body]
fn zlib_decode(b: &[u8]) -> (r: Option<Vec<u8>>)
    ensures
        r is Some <==> zlib_decoded(b@) is Some,
        r is Some ==> r->0@ == zlib_decoded(b@)->0,
{
    let mut bytes = Vec::new();
    ZlibDecoder::new(b).read_to_end(&mut bytes).ok().map(|_| bytes)
}

/// Relies on flate2's `GzDecoder` reading a slice to its end: the output
/// depends on the input bytes alone.
#[verifier::external_body]
fn gzip_decode(b: &[u8]) -> (r: Option<Vec<u8>>)
    ensures
        r is Some <==> gzip_decoded(b@) is Some,
        r is Some ==> r->0@ == gzip_decoded(b@)->0,
{
    let mut bytes = Vec::new();
    GzDecoder::new(b).read_to_end(&mut bytes).ok().map(|_| bytes)
}

/// Relies on flate2's `ZlibEncoder` reading a slice to its end at level
/// `Compression::new(level)`: the output depends on the input and the level alone.
#[verifier::external_body]
pub(crate) fn zlib_encode(b: &[u8], level: u32) -> (r: Option<Vec<u8>>)
    requires
        level <= 9,
    ensures
        r is Some <==> zlib_encoded(b@, level) is Some,
        r is Some ==> r->0@ == zlib_encoded(b@, level)->0,
{
    let mut bytes = Vec::new();
    ZlibEncoder::new(b, flate2::Compression::new(level)).read_to_end(&mut bytes).ok().map(|_| bytes)
}

impl CompressionScheme {
    /// 0 is uncompressed, 1 gzip, 2 zlib; other bytes are refused.
    pub fn from_u8(byte: u8) -> (r: Result<CompressionScheme, UnsupportedScheme>)
        ensures
            match spec_scheme(byte) {
                Some(s) => r == Ok::<CompressionScheme, UnsupportedScheme>(s),
                None => r == Err::<CompressionScheme, UnsupportedScheme>(
                    UnsupportedScheme { byte },
                ),
            },
    {
        match byte {
            0 => Ok(CompressionScheme::Uncompressed),
            1 => Ok(CompressionScheme::Gzip),
            2 => Ok(CompressionScheme::Zlib),
            _ => Err(UnsupportedScheme { byte }),
        }
    }

    pub open spec fn to_u8_spec(&self) -> u8 {
        match *self {
            CompressionScheme::Uncompressed => 3u8,
            CompressionScheme::Gzip => 1u8,
            CompressionScheme::Zlib => 2u8,
        }
    }

    /// The byte written for a scheme. Gzip and zlib write 1 and 2. Uncompressed
    /// writes 3, the historical value, which `from_u8` does not accept; no
    /// payload is ever written uncompressed, since rewriting always uses zlib.
    pub fn to_u8(&self) -> (r: u8)
        ensures
            r == self.to_u8_spec(),
    {
        match self {
            CompressionScheme::Uncompressed => 3,
            CompressionScheme::Gzip => 1,
            CompressionScheme::Zlib => 2,
        }
    }

    /// Decodes a payload compressed with this scheme; `None` for a corrupt stream.
    pub fn decode(&self, b: &[u8]) -> (r: Option<Vec<u8>>)
        ensures
            r is Some <==> decoded_payload(*self, b@) is Some,
            r is Some ==> r->0@ == decoded_payload(*self, b@)->0,
    {
        match self {
            CompressionScheme::Uncompressed => Some(vstd::slice::slice_to_vec(b)),
            CompressionScheme::Gzip => gzip_decode(b),
            CompressionScheme::Zlib => zlib_decode(b),
        }
    }
}

} // verus!
