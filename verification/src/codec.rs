//! The compression codec.
//!
//! Payloads above a fixed threshold are stored gzip-compressed; everything
//! else is stored verbatim.  On read the codec never consults metadata: it
//! sniffs the two gzip magic bytes at the start of the stored content and
//! decompresses only when they are present.

use crate::errors::AttachmentError;
use std::io::Write;
use vstd::prelude::*;
use vstd::slice::slice_to_vec;

verus! {

/// Hard cap on the original size of an attachment, in bytes (100 MiB).
pub const MAX_FILE_SIZE: u64 = 100 * 1024 * 1024;

/// Content strictly above this size, in bytes, is compressed (1 MiB).
pub const COMPRESSION_THRESHOLD: u64 = 1024 * 1024;

/// The two magic bytes that open every gzip stream.
pub open spec fn starts_with_gzip_magic(b: Seq<u8>) -> bool {
    b.len() >= 2 && b[0] == 0x1fu8 && b[1] == 0x8bu8
}

/// What gzip decompression yields on the given bytes: the decompressed
/// stream, or `None` where the bytes are not a well-formed gzip stream.
/// This is the result of `flate2::write::GzDecoder`, a function of the
/// input bytes alone.
pub uninterp spec fn gunzip_of(b: Seq<u8>) -> Option<Seq<u8>>;

/// How stored bytes decode on the read path: bytes without the gzip magic
/// prefix are the payload itself; bytes with it decode by gzip, and fail
/// where they are not a well-formed stream.
pub open spec fn decode_spec(b: Seq<u8>) -> Option<Seq<u8>> {
    if starts_with_gzip_magic(b) {
        gunzip_of(b)
    } else {
        Some(b)
    }
}

/// True when `stored` is a storable form of the payload `p`: its gzip
/// compression when `compressed`, the payload itself otherwise.
pub open spec fn stored_form(p: Seq<u8>, stored: Seq<u8>, compressed: bool) -> bool {
    if compressed {
        starts_with_gzip_magic(stored) && gunzip_of(stored) == Some(p)
    } else {
        stored == p
    }
}

/// Compresses the payload with gzip at the maximum compression level.
///
/// Relies on `flate2::write::GzEncoder` with `flate2::Compression::best`:
/// the output is one complete gzip member — a 10-byte header that opens
/// with the magic bytes `0x1f 0x8b`, the deflate body, and an 8-byte
/// footer — and `flate2::write::GzDecoder` decompresses it back to
/// exactly the input bytes.  The encoder's only failures are errors of
/// the sink it writes into, and writing into a `Vec` cannot fail, so the
/// call always succeeds.
#[verifier::external_body]
fn gzip_compress(data: &[u8]) -> (r: Option<Vec<u8>>)
    ensures
        r is Some,
        r matches Some(c) ==> {
            &&& starts_with_gzip_magic(c@)
            &&& c@.len() >= 18
            &&& gunzip_of(c@) == Some(data@)
        },
{
    let mut encoder = flate2::write::GzEncoder::new(Vec::new(), flate2::Compression::best());
    if encoder.write_all(data).is_err() {
        return None;
    }
    encoder.finish().ok()
}

/// Decompresses a gzip stream.
///
/// Relies on `flate2::write::GzDecoder`: decoding is a function of the
/// input bytes alone, named by [`gunzip_of`]; it returns the decompressed
/// bytes, or fails where the input is not a well-formed gzip stream.
#[verifier::external_body]
fn gzip_decompress(data: &[u8]) -> (r: Option<Vec<u8>>)
    ensures
        r matches Some(d) ==> gunzip_of(data@) == Some(d@),
        r is None ==> gunzip_of(data@) is None,
{
    let mut decoder = flate2::write::GzDecoder::new(Vec::new());
    if decoder.write_all(data).is_err() {
        return None;
    }
    decoder.finish().ok()
}

/// Applies the size-threshold policy on the write path: payloads above
/// [`COMPRESSION_THRESHOLD`] are compressed, everything else is stored
/// verbatim.  A failed compression would fall back to the verbatim form,
/// but compression into memory cannot fail, so the returned flag — true
/// when the bytes are compressed — equals the policy's decision.  The
/// flag is informational either way: the read path decides by sniffing,
/// not by this flag.
pub fn encode_for_storage(data: &[u8]) -> (r: (Vec<u8>, bool))
    ensures
        stored_form(data@, r.0@, r.1),
        r.1 == (data@.len() > COMPRESSION_THRESHOLD),
        r.1 ==> r.0@.len() >= 18,
{
    if data.len() as u64 > COMPRESSION_THRESHOLD {
        match gzip_compress(data) {
            Some(c) => (c, true),
            None => (slice_to_vec(data), false),
        }
    } else {
        (slice_to_vec(data), false)
    }
}

/// Decodes stored bytes on the read path by sniffing the gzip magic
/// prefix: content without it is returned as it is; content with it is
/// decompressed, and `DecompressionFailed` is reported where it is not a
/// well-formed gzip stream.
pub fn decode_stored(data: &[u8]) -> (r: Result<Vec<u8>, AttachmentError>)
    ensures
        r matches Ok(d) ==> decode_spec(data@) == Some(d@),
        r matches Err(e) ==> decode_spec(data@) is None && e == AttachmentError::DecompressionFailed,
{
    if data.len() >= 2 && data[0] == 0x1f && data[1] == 0x8b {
        match gzip_decompress(data) {
            Some(d) => Ok(d),
            None => Err(AttachmentError::DecompressionFailed),
        }
    } else {
        Ok(slice_to_vec(data))
    }
}

/// The codec round trip: any storable form of a payload that either is
/// compressed or does not itself open with the gzip magic bytes decodes
/// back to exactly that payload on the read path.
pub proof fn lemma_storage_round_trip(p: Seq<u8>, stored: Seq<u8>, compressed: bool)
    requires
        stored_form(p, stored, compressed),
        compressed || !starts_with_gzip_magic(p),
    ensures
        decode_spec(stored) == Some(p),
{
}

} // verus!
