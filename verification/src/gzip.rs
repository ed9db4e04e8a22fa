//! Compression of messages.
use crate::client::CursorClient;
use crate::error::CursorError;
use flate2::read::GzDecoder;
use flate2::write::GzEncoder;
use flate2::Compression;
use std::io::Read;
use std::io::Write;
use vstd::prelude::*;

verus! {

/// The gzip stream that `GzEncoder` makes of `data` at the default level.
pub uninterp spec fn gzip_encoded(data: Seq<u8>) -> Seq<u8>;

/// The bytes that `GzDecoder` reads from the gzip stream `data`, or `None` where
/// it reports an error: a header, a body or a checksum that does not fit.
pub uninterp spec fn gzip_decoded(data: Seq<u8>) -> Option<Seq<u8>>;

/// Whether `data` holds the fixed part of a gzip header, opened by the two bytes that
/// identify the format and the one that names its only method of compression.
pub open spec fn opens_as_gzip(data: Seq<u8>) -> bool {
    data.len() >= 10 && data[0] == 0x1f && data[1] == 0x8b && data[2] == 8
}

/// Writes all of `data` to a `flate2::write::GzEncoder` over an empty `Vec`, at
/// `Compression::default()`, and finishes it. Taken on trust: it succeeds, since the
/// errors of the encoder are those of the writer it writes to and a `Vec` has none;
/// the stream depends on `data` alone (the encoder writes neither a time nor the name
/// of a system); and `GzDecoder` reads `data` back from it. That memory may run out is
/// left aside, here as for every `Vec`.
#[verifier::external_body]
fn gzip_encode(data: &[u8]) -> (result: Result<Vec<u8>, std::io::Error>)
    ensures
        result is Ok,
        result->Ok_0@ == gzip_encoded(data@),
        gzip_decoded(result->Ok_0@) == Some(data@),
{
    let mut encoder = GzEncoder::new(Vec::new(), Compression::default());
    encoder.write_all(data)?;
    encoder.finish()
}

/// Reads a `flate2::read::GzDecoder` over `data` to its end. Taken on trust: the
/// outcome depends on `data` alone, and data that does not open as a gzip stream is
/// refused. That memory may run out is left aside, here as for every `Vec`.
#[verifier::external_body]
fn gzip_decode(data: &[u8]) -> (result: Result<Vec<u8>, std::io::Error>)
    ensures
        match result {
            Ok(bytes) => gzip_decoded(data@) == Some(bytes@),
            Err(_) => gzip_decoded(data@) is None,
        },
        !opens_as_gzip(data@) ==> result is Err,
{
    let mut decoder = GzDecoder::new(data);
    let mut decompressed = Vec::new();
    decoder.read_to_end(&mut decompressed)?;
    Ok(decompressed)
}

impl CursorClient {
    /// Compresses an encoded message, whatever it holds. What comes out decompresses to
    /// the message.
    pub fn compress_protobuf(data: &[u8]) -> (result: Result<Vec<u8>, CursorError>)
        ensures
            result matches Ok(stream) && stream@ == gzip_encoded(data@) && gzip_decoded(stream@)
                == Some(data@),
    {
        match gzip_encode(data) {
            Ok(stream) => Ok(stream),
            Err(error) => Err(CursorError::Compress(error)),
        }
    }

    /// Decompresses a message. What does not open as a gzip stream is refused.
    pub fn decompress_protobuf(data: &[u8]) -> (result: Result<Vec<u8>, CursorError>)
        ensures
            match result {
                Ok(bytes) => gzip_decoded(data@) == Some(bytes@),
                Err(error) => gzip_decoded(data@) is None && error is Decompress,
            },
            !opens_as_gzip(data@) ==> result is Err,
    {
        match gzip_decode(data) {
            Ok(bytes) => Ok(bytes),
            Err(error) => Err(CursorError::Decompress(error)),
        }
    }
}

} // verus!
