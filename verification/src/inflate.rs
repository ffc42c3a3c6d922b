//! Zlib inflation of bulk block arrays.
//!
//! Decompression is delegated to an outside implementation; its output is a
//! pure function of the input bytes, so it is given a name
//! ([`zlib_decoded`]) that the bulk-block packet's contract speaks of.

use vstd::prelude::*;

use crate::codec::DecodeError;

verus! {

/// What a zlib stream inflates to, or `None` if it is not a valid stream
/// (a bad header, corrupt deflate data, or a checksum mismatch).
pub uninterp spec fn zlib_decoded(data: Seq<u8>) -> Option<Seq<u8>>;

/// Relies on zune_inflate::DeflateDecoder::decode_zlib: it inflates a zlib
/// stream, verifying the adler32 checksum, and its result depends on the
/// input bytes alone.
#[verifier::external_body]
pub(crate) fn inflate_zlib(data: &Vec<u8>) -> (r: Result<Vec<u8>, DecodeError>)
    ensures
        match r {
            Ok(v) => zlib_decoded(data@) == Some(v@),
            Err(e) => zlib_decoded(data@) is None && e == DecodeError::Compression,
        },
{
    let mut decoder = zune_inflate::DeflateDecoder::new(data.as_slice());
    match decoder.decode_zlib() {
        Ok(v) => Ok(v),
        Err(_) => Err(DecodeError::Compression),
    }
}

} // verus!
