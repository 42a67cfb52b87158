//! Snappy frame compression, behind trusted wrappers around the `snap`
//! crate. Compression is named, not restated: `snappy_frame_of` stands
//! for the bytes the frame encoder emits, and `snappy_unframe` for what
//! the frame decoder recovers. The encoder's output always decodes back
//! to its input; that inverse is the one fact the callers build on.

use vstd::prelude::*;

use crate::e2s::E2sError;
use std::io::Read;
use std::io::Write;

verus! {

/// The Snappy frame encoding of `data`: a function of the bytes alone.
pub uninterp spec fn snappy_frame_of(data: Seq<u8>) -> Seq<u8>;

/// What the Snappy frame decoder recovers from `data`: `None` when the
/// bytes are not a well-formed frame stream.
pub uninterp spec fn snappy_unframe(data: Seq<u8>) -> Option<Seq<u8>>;

/// Relies on snap::write::FrameEncoder writing the Snappy frame format,
/// and on snap::read::FrameDecoder decoding exactly that format: the
/// result is a function of the input bytes alone, and decoding it
/// recovers the input. Writing to a Vec cannot fail, so neither can the
/// encoder.
#[verifier::external_body]
pub(crate) fn snappy_compress(data: &[u8]) -> (r: Vec<u8>)
    ensures
        r@ == snappy_frame_of(data@),
        snappy_unframe(r@) == Some(data@),
{
    let mut compressed: Vec<u8> = Vec::new();
    {
        let mut encoder = snap::write::FrameEncoder::new(&mut compressed);
        Write::write_all(&mut encoder, data).expect("writing to a Vec cannot fail");
        encoder.flush().expect("writing to a Vec cannot fail");
    }
    compressed
}

/// Relies on snap::read::FrameDecoder: reading it to the end recovers
/// the bytes a frame encoder compressed, and fails exactly on input
/// that is not a well-formed Snappy frame stream.
#[verifier::external_body]
pub(crate) fn snappy_decompress(data: &[u8]) -> (r: Result<Vec<u8>, E2sError>)
    ensures
        match r {
            Ok(d) => snappy_unframe(data@) == Some(d@),
            Err(e) => {
                &&& e == E2sError::DecompressionFailure
                &&& snappy_unframe(data@) is None
            },
        },
{
    let mut decoder = snap::read::FrameDecoder::new(data);
    let mut decompressed: Vec<u8> = Vec::new();
    match Read::read_to_end(&mut decoder, &mut decompressed) {
        Ok(_) => Ok(decompressed),
        Err(_) => Err(E2sError::DecompressionFailure),
    }
}

} // verus!
