//! Content codings: gzip (flate2) and Brotli (brotli). What the codecs produce is
//! named, not spelled out; the library decides when to call them and what to do
//! with their answer.
use vstd::prelude::*;
use std::io::Read;

verus! {

/// What gzip compression (flate2, default level) makes of `data`, or `None` if it fails.
pub uninterp spec fn gzip_encoding(data: Seq<u8>) -> Option<Seq<u8>>;

/// What Brotli compression (default parameters) makes of `data`, or `None` if it fails.
pub uninterp spec fn brotli_encoding(data: Seq<u8>) -> Option<Seq<u8>>;

/// What gzip decompression makes of `data`, or `None` if `data` is not a gzip stream.
pub uninterp spec fn gzip_decoding(data: Seq<u8>) -> Option<Seq<u8>>;

/// What Brotli decompression makes of `data`, or `None` if `data` is not a Brotli stream.
pub uninterp spec fn brotli_decoding(data: Seq<u8>) -> Option<Seq<u8>>;

/// Compresses `data` by reading a `flate2::read::GzEncoder` (default compression) to its
/// end. Trusted: the output is `gzip_encoding(data)`, a function of `data` alone (the
/// encoder writes no time stamp or file name); `None` stands for an I/O error.
#[verifier::external_body]
pub(crate) fn gzip_encode(data: &[u8]) -> (r: Option<Vec<u8>>)
    ensures
        r matches Some(v) ==> gzip_encoding(data@) == Some(v@),
        r is None ==> gzip_encoding(data@) is None,
{
    let mut out: Vec<u8> = Vec::new();
    match flate2::read::GzEncoder::new(data, flate2::Compression::default()).read_to_end(&mut out) {
        Ok(_) => Some(out),
        Err(_) => None,
    }
}

/// Compresses `data` with `brotli::BrotliCompress` and default `BrotliEncoderParams`.
/// Trusted: the output is `brotli_encoding(data)`, a function of `data` alone; `None`
/// stands for an I/O error.
#[verifier::external_body]
pub(crate) fn brotli_encode(data: &[u8]) -> (r: Option<Vec<u8>>)
    ensures
        r matches Some(v) ==> brotli_encoding(data@) == Some(v@),
        r is None ==> brotli_encoding(data@) is None,
{
    let mut input: &[u8] = data;
    let mut out: Vec<u8> = Vec::new();
    match brotli::BrotliCompress(&mut input, &mut out, &brotli::enc::BrotliEncoderParams::default()) {
        Ok(_) => Some(out),
        Err(_) => None,
    }
}

/// Decompresses `data` by reading a `flate2::read::GzDecoder` to its end. Trusted: on
/// success the output is `gzip_decoding(data)`; the error comes exactly when
/// `gzip_decoding(data)` is `None`. Which `io::Error` comes back is not stated.
#[verifier::external_body]
pub(crate) fn gzip_decode(data: &[u8]) -> (r: Result<Vec<u8>, std::io::Error>)
    ensures
        r matches Ok(v) ==> gzip_decoding(data@) == Some(v@),
        r is Err ==> gzip_decoding(data@) is None,
{
    let mut out: Vec<u8> = Vec::new();
    match flate2::read::GzDecoder::new(data).read_to_end(&mut out) {
        Ok(_) => Ok(out),
        Err(e) => Err(e),
    }
}

/// Decompresses `data` with `brotli::BrotliDecompress`. Trusted: on success the output is
/// `brotli_decoding(data)`; the error comes exactly when `brotli_decoding(data)` is
/// `None`. Which `io::Error` comes back is not stated.
#[verifier::external_body]
pub(crate) fn brotli_decode(data: &[u8]) -> (r: Result<Vec<u8>, std::io::Error>)
    ensures
        r matches Ok(v) ==> brotli_decoding(data@) == Some(v@),
        r is Err ==> brotli_decoding(data@) is None,
{
    let mut input: &[u8] = data;
    let mut out: Vec<u8> = Vec::new();
    match brotli::BrotliDecompress(&mut input, &mut out) {
        Ok(_) => Ok(out),
        Err(e) => Err(e),
    }
}

/// What `String::from_utf8_lossy` makes of `data`: its bytes with every invalid sequence
/// replaced by U+FFFD.
pub uninterp spec fn utf8_lossy(data: Seq<u8>) -> Seq<u8>;

/// `String::from_utf8_lossy`. Trusted: the text's UTF-8 bytes are `utf8_lossy(data)`,
/// and they are `data` itself when `data` is valid UTF-8 (as the documentation says).
#[verifier::external_body]
pub(crate) fn lossy_text(data: &[u8]) -> (r: String)
    ensures
        vstd::utf8::encode_utf8(r@) == utf8_lossy(data@),
        vstd::utf8::valid_utf8(data@) ==> vstd::utf8::encode_utf8(r@) == data@,
{
    String::from_utf8_lossy(data).into_owned()
}

/// `data` read as UTF-8 text with invalid sequences replaced, as bytes.
pub(crate) fn lossy_utf8(data: &[u8]) -> (r: Vec<u8>)
    ensures
        r@ == utf8_lossy(data@),
        vstd::utf8::valid_utf8(data@) ==> r@ == data@,
{
    let t = lossy_text(data);
    let b = t.as_str().as_bytes();
    crate::text::copy_range(b, 0, b.len())
}

/// What `str::to_lowercase` makes of a text.
pub uninterp spec fn unicode_lowercase(text: Seq<char>) -> Seq<char>;

/// `str::to_lowercase`. Trusted: the result is `unicode_lowercase(text)`, a function of
/// the text alone.
#[verifier::external_body]
pub(crate) fn to_lowercase_text(text: &str) -> (r: String)
    ensures
        r@ == unicode_lowercase(text@),
{
    text.to_lowercase()
}

/// `bstr::ByteSlice::is_utf8`. Trusted: true exactly when `data` is valid UTF-8, as the
/// crate documents.
#[verifier::external_body]
pub(crate) fn is_utf8(data: &[u8]) -> (r: bool)
    ensures
        r == vstd::utf8::valid_utf8(data@),
{
    bstr::ByteSlice::is_utf8(data)
}

} // verus!
