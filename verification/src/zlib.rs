use flate2::Compression;
use flate2::read::ZlibDecoder;
use flate2::write::ZlibEncoder;
use std::io::Read;
use std::io::Write;

use vstd::prelude::*;

verus! {

/// What a zlib stream decompresses to: `None` where `data` is not a complete
/// zlib stream.
pub uninterp spec fn zlib_inflated(data: Seq<u8>) -> Option<Seq<u8>>;

/// What a byte sequence compresses to at the default level: `None` where
/// the compressor reports a failure.
pub uninterp spec fn zlib_deflated(data: Seq<u8>) -> Option<Seq<u8>>;

#[verifier::external_type_specification]
#[verifier::external_body]
pub struct ExIoError(std::io::Error);

/// `ZlibDecoder::new` of the crate `flate2` on the bytes, read to its end:
/// the decompressed bytes, or the error of a stream that is corrupt or
/// incomplete. The outcome depends on the bytes alone.
#[verifier::external_body]
pub(crate) fn zlib_decompression(bytes: &[u8]) -> (res: Result<Vec<u8>, std::io::Error>)
    ensures
        res matches Ok(content) ==> zlib_inflated(bytes@) == Some(content@),
        res is Err ==> zlib_inflated(bytes@) is None,
{
    let mut zlib_decoder = ZlibDecoder::new(bytes);
    let mut content: Vec<u8> = Vec::new();
    zlib_decoder.read_to_end(&mut content)?;
    Ok(content)
}

/// `ZlibEncoder::new` of the crate `flate2` at the default level, with
/// `content` written to it and then finished. The encoder writes into a
/// vector, so what comes out, a stream or an error, depends on the bytes
/// alone. Compression is lossless: the stream that comes out decompresses
/// to the bytes that went in.
#[verifier::external_body]
pub(crate) fn zlib_compression(content: &[u8]) -> (res: Result<Vec<u8>, std::io::Error>)
    ensures
        res matches Ok(bytes) ==> zlib_deflated(content@) == Some(bytes@),
        res matches Ok(bytes) ==> zlib_inflated(bytes@) == Some(content@),
        res is Err ==> zlib_deflated(content@) is None,
{
    let mut zlib_encode = ZlibEncoder::new(Vec::new(), Compression::default());
    zlib_encode.write_all(content)?;
    zlib_encode.finish()
}

} // verus!
