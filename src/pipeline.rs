use crate::cleaner::{repair, VitalDataCleaner};
use crate::decompressor::{decompressed, VitalDataDecompressor};
use crate::error::{Result, VitalError};
use vstd::prelude::*;
use vstd::utf8::{decode_utf8, valid_utf8};

verus! {

/// The `Display` text of the error that `String::from_utf8` reports for
/// bytes that are not UTF-8.
pub uninterp spec fn utf8_error_text(bytes: Seq<u8>) -> Seq<char>;

/// Relies on `String::from_utf8`: succeeds exactly on valid UTF-8, and the
/// string then holds the decoded characters; the error depends on the bytes
/// alone.
#[verifier::external_body]
fn utf8_to_string(bytes: Vec<u8>) -> (r: core::result::Result<String, String>)
    ensures
        match r {
            Ok(s) => valid_utf8(bytes@) && s@ == decode_utf8(bytes@),
            Err(m) => !valid_utf8(bytes@) && m@ == utf8_error_text(bytes@),
        },
{
    match String::from_utf8(bytes) {
        Ok(s) => Ok(s),
        Err(e) => Err(e.to_string()),
    }
}

/// What a binary frame holds as text, ready for strict JSON parsing: its
/// decompressed bytes decoded as UTF-8 and repaired; `None` where either
/// step fails.
pub open spec fn frame_text(data: Seq<u8>) -> Option<Seq<char>> {
    match decompressed(data) {
        Ok(d) => if valid_utf8(d) {
            Some(repair(decode_utf8(d)))
        } else {
            None
        },
        Err(_) => None,
    }
}

/// Decompresses a binary frame, decodes it as UTF-8 and repairs the text.
/// Fails with `Decompression` where inflation fails and with `Encoding`
/// where the bytes are not UTF-8.
pub fn decode_frame(data: &[u8]) -> (r: Result<String>)
    ensures
        r is Ok <==> frame_text(data@) is Some,
        r matches Ok(s) ==> Some(s@) == frame_text(data@),
        match decompressed(data@) {
            Err(m) => r matches Err(VitalError::Decompression(s)) && s@ == m,
            Ok(d) => valid_utf8(d) || (r matches Err(VitalError::Encoding(s)) && s@
                == "UTF-8 conversion failed: "@ + utf8_error_text(d)),
        },
{
    let bytes = VitalDataDecompressor::new().decompress(data)?;
    let text = match utf8_to_string(bytes) {
        Ok(s) => s,
        Err(cause) => {
            let mut msg = String::from_str("UTF-8 conversion failed: ");
            msg.append(cause.as_str());
            return Err(VitalError::Encoding(msg));
        },
    };
    let cleaned = VitalDataCleaner::new().clean(text.as_str());
    cleaned
}

} // verus!
