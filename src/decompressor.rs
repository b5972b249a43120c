use crate::error::{Result, VitalError};
use std::io::Read;
use vstd::prelude::*;

verus! {

/// What inflating a zlib stream yields: the decoded bytes, or, where the
/// stream is malformed, the text of the decoder's error.
pub uninterp spec fn zlib_inflate(data: Seq<u8>) -> core::result::Result<Seq<u8>, Seq<char>>;

/// The first byte of an Engine.IO binary packet.
pub const BINARY_INDICATOR: u8 = 0x04;

/// The first byte (CMF) of a zlib stream with a 32K window.
pub const ZLIB_CMF: u8 = 0x78;

/// A buffer that starts with the Engine.IO binary indicator followed by a
/// zlib header byte.
pub open spec fn is_binary_zlib(data: Seq<u8>) -> bool {
    data.len() >= 2 && data[0] == BINARY_INDICATOR && data[1] == ZLIB_CMF
}

/// The FLG byte of a zlib stream written at low, default or best compression.
pub open spec fn is_standard_zlib_flag(b: u8) -> bool {
    b == 0x01 || b == 0x9C || b == 0xDA
}

/// A buffer that starts with a bare zlib header.
pub open spec fn is_bare_zlib(data: Seq<u8>) -> bool {
    data.len() >= 2 && data[0] == ZLIB_CMF && is_standard_zlib_flag(data[1])
}

/// A buffer that is taken as already plain: it carries no recognised header.
pub open spec fn is_plain(data: Seq<u8>) -> bool {
    !is_binary_zlib(data) && !is_bare_zlib(data)
}

/// The bytes handed to the inflater, or `None` for a plain buffer.
pub open spec fn compressed_part(data: Seq<u8>) -> Option<Seq<u8>> {
    if is_binary_zlib(data) {
        Some(data.drop_first())
    } else if is_bare_zlib(data) {
        Some(data)
    } else {
        None
    }
}

/// The inflation of a zlib stream, with a failure described as a
/// decompression failure.
pub open spec fn inflated(z: Seq<u8>) -> core::result::Result<Seq<u8>, Seq<char>> {
    match zlib_inflate(z) {
        Ok(v) => Ok(v),
        Err(m) => Err("Zlib decompression failed: "@ + m),
    }
}

/// What `decompress` yields: the plain buffer itself, or the inflation of
/// its compressed part (the error's text where inflation fails).
pub open spec fn decompressed(data: Seq<u8>) -> core::result::Result<Seq<u8>, Seq<char>> {
    match compressed_part(data) {
        Some(z) => inflated(z),
        None => Ok(data),
    }
}

/// Relies on `flate2::read::ZlibDecoder` and `Read::read_to_end`: the whole
/// stream is decoded, and a malformed stream is reported as an error,
/// rendered with its `Display`. The decoder reads from a byte slice, so the
/// outcome depends on the bytes alone.
#[verifier::external_body]
fn inflate_zlib(data: &[u8]) -> (r: core::result::Result<Vec<u8>, String>)
    ensures
        match r {
            Ok(v) => zlib_inflate(data@) == Ok::<Seq<u8>, Seq<char>>(v@),
            Err(m) => zlib_inflate(data@) == Err::<Seq<u8>, Seq<char>>(m@),
        },
{
    let mut decoder = flate2::read::ZlibDecoder::new(data);
    let mut out = Vec::new();
    match decoder.read_to_end(&mut out) {
        Ok(_) => Ok(out),
        Err(e) => Err(e.to_string()),
    }
}

/// Inflates a zlib stream; a failure is a `Decompression` error.
fn inflate_checked(z: &[u8]) -> (r: Result<Vec<u8>>)
    ensures
        match inflated(z@) {
            Ok(v) => r matches Ok(o) && o@ == v,
            Err(m) => r matches Err(VitalError::Decompression(s)) && s@ == m,
        },
{
    match inflate_zlib(z) {
        Ok(v) => Ok(v),
        Err(cause) => {
            let mut msg = String::from_str("Zlib decompression failed: ");
            msg.append(cause.as_str());
            Err(VitalError::Decompression(msg))
        },
    }
}

/// Detects whether a payload is zlib-compressed (bare, or behind the
/// Engine.IO binary indicator) and inflates it; any other payload is
/// returned unchanged.
#[derive(Clone, Copy, Debug)]
pub struct VitalDataDecompressor;

impl VitalDataDecompressor {
    pub fn new() -> (r: Self)
        ensures
            r == VitalDataDecompressor,
    {
        VitalDataDecompressor
    }

    /// Inflates `data` when it starts with a recognised header, else copies
    /// it. Fails with `Decompression` exactly when inflation fails. The
    /// outcome, error text included, depends on the bytes alone.
    pub fn decompress(&self, data: &[u8]) -> (r: Result<Vec<u8>>)
        ensures
            match decompressed(data@) {
                Ok(v) => r matches Ok(o) && o@ == v,
                Err(m) => r matches Err(VitalError::Decompression(s)) && s@ == m,
            },
    {
        if data.len() == 0 {
            return Ok(Vec::new());
        }
        if data.len() >= 2 && data[0] == BINARY_INDICATOR && data[1] == ZLIB_CMF {
            let (_, rest) = data.split_at(1);
            assert(rest@ == data@.drop_first());
            return inflate_checked(rest);
        }
        if data.len() >= 2 && data[0] == ZLIB_CMF {
            let flag = data[1];
            if flag == 0x01 || flag == 0x9C || flag == 0xDA {
                return inflate_checked(data);
            }
        }
        Ok(vstd::slice::slice_to_vec(data))
    }
}

impl Default for VitalDataDecompressor {
    fn default() -> (r: Self)
        ensures
            r == VitalDataDecompressor,
    {
        VitalDataDecompressor
    }
}

/// A buffer with no recognised header, the empty one included, comes back
/// unchanged.
pub proof fn lemma_plain_passthrough(data: Seq<u8>)
    requires
        is_plain(data),
    ensures
        decompressed(data) == Ok::<Seq<u8>, Seq<char>>(data),
{
}

/// A buffer that starts with a bare zlib header decompresses to exactly what
/// inflating the whole buffer gives, and the Engine.IO indicator byte is
/// dropped before inflating.
pub proof fn lemma_zlib_is_inflated(data: Seq<u8>)
    ensures
        is_bare_zlib(data) ==> decompressed(data) == inflated(data),
        is_binary_zlib(data) ==> decompressed(data) == inflated(data.drop_first()),
{
}

} // verus!
