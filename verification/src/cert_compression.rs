//! Certificate-compression codecs.
//!
//! The engine lets peers exchange compressed certificate chains; the
//! compression algorithms are stateless synchronous transforms registered
//! with it.  Three are supported, under their IANA-assigned identifiers.
//! The transforms themselves live in outside crates and are reached through
//! trusted wrappers; what the wrappers return is named, and the checking
//! that the engine demands — a decompressed chain must have exactly the
//! length the peer announced — is verified here.

use vstd::prelude::*;

verus! {

/// What brotli compression, at its default parameters, makes of the input.
pub uninterp spec fn brotli_compressed(input: Seq<u8>) -> Seq<u8>;

/// What brotli decompression makes of a compressed stream.
pub uninterp spec fn brotli_decompressed(input: Seq<u8>) -> Seq<u8>;

/// What zlib compression, at its default level, makes of the input.
pub uninterp spec fn zlib_compressed(input: Seq<u8>) -> Seq<u8>;

/// What zlib decompression makes of a compressed stream.
pub uninterp spec fn zlib_decompressed(input: Seq<u8>) -> Seq<u8>;

/// What zstd compression at the given level makes of the input.
pub uninterp spec fn zstd_compressed(input: Seq<u8>, level: int) -> Seq<u8>;

/// What zstd decompression makes of a compressed frame.
pub uninterp spec fn zstd_decompressed(input: Seq<u8>) -> Seq<u8>;

/// Relies on brotli::BrotliCompress with the default encoder parameters:
/// the compressed bytes are a function of the input alone.
#[verifier::external_body]
fn brotli_compress_bytes(input: &[u8]) -> (r: Option<Vec<u8>>)
    ensures
        r matches Some(v) ==> v@ == brotli_compressed(input@),
{
    let mut reader = input;
    let mut out = Vec::new();
    let params = brotli::enc::encode::BrotliEncoderInitParams();
    match brotli::BrotliCompress(&mut reader, &mut out, &params) {
        Ok(_) => Some(out),
        Err(_) => None,
    }
}

/// Relies on brotli::BrotliDecompress: the decompressed bytes are a
/// function of the compressed stream alone; a malformed stream is an error.
#[verifier::external_body]
fn brotli_decompress_bytes(input: &[u8]) -> (r: Option<Vec<u8>>)
    ensures
        r matches Some(v) ==> v@ == brotli_decompressed(input@),
{
    let mut reader = input;
    let mut out = Vec::new();
    match brotli::BrotliDecompress(&mut reader, &mut out) {
        Ok(()) => Some(out),
        Err(_) => None,
    }
}

/// Relies on flate2's ZlibEncoder at the default compression level: the
/// compressed bytes are a function of the input alone.
#[verifier::external_body]
fn zlib_compress_bytes(input: &[u8]) -> (r: Option<Vec<u8>>)
    ensures
        r matches Some(v) ==> v@ == zlib_compressed(input@),
{
    let mut encoder = flate2::bufread::ZlibEncoder::new(input, flate2::Compression::default());
    let mut out = Vec::new();
    match std::io::Read::read_to_end(&mut encoder, &mut out) {
        Ok(_) => Some(out),
        Err(_) => None,
    }
}

/// Relies on flate2's ZlibDecoder: the decompressed bytes are a function of
/// the compressed stream alone; a malformed stream is an error.
#[verifier::external_body]
fn zlib_decompress_bytes(input: &[u8]) -> (r: Option<Vec<u8>>)
    ensures
        r matches Some(v) ==> v@ == zlib_decompressed(input@),
{
    let mut decoder = flate2::bufread::ZlibDecoder::new(input);
    let mut out = Vec::new();
    match std::io::Read::read_to_end(&mut decoder, &mut out) {
        Ok(_) => Some(out),
        Err(_) => None,
    }
}

/// Relies on zstd::stream::encode_all: the compressed frame is a function
/// of the input and the level alone.
#[verifier::external_body]
fn zstd_compress_bytes(input: &[u8], level: i32) -> (r: Option<Vec<u8>>)
    ensures
        r matches Some(v) ==> v@ == zstd_compressed(input@, level as int),
{
    match zstd::encode_all(input, level) {
        Ok(out) => Some(out),
        Err(_) => None,
    }
}

/// Relies on zstd::stream::decode_all: the decompressed bytes are a
/// function of the compressed frame alone; a malformed frame is an error.
#[verifier::external_body]
fn zstd_decompress_bytes(input: &[u8]) -> (r: Option<Vec<u8>>)
    ensures
        r matches Some(v) ==> v@ == zstd_decompressed(input@),
{
    match zstd::decode_all(input) {
        Ok(out) => Some(out),
        Err(_) => None,
    }
}

/// A certificate-compression algorithm, by its IANA-assigned identifier.
#[derive(Clone, Copy, Debug, PartialEq, Eq, Structural)]
pub enum CertCompressionAlgorithm {
    /// The Brotli compression algorithm.
    Brotli,
    /// The zlib compression algorithm.
    Zlib,
    /// The Zstandard compression algorithm.
    Zstd,
}

impl CertCompressionAlgorithm {
    /// The IANA-assigned identifier of the algorithm.
    pub open spec fn spec_id(&self) -> u16 {
        match *self {
            CertCompressionAlgorithm::Zlib => 1,
            CertCompressionAlgorithm::Brotli => 2,
            CertCompressionAlgorithm::Zstd => 3,
        }
    }

    /// The IANA-assigned identifier of the algorithm.
    pub fn id(&self) -> (r: u16)
        ensures
            r == self.spec_id(),
    {
        match self {
            CertCompressionAlgorithm::Zlib => 1,
            CertCompressionAlgorithm::Brotli => 2,
            CertCompressionAlgorithm::Zstd => 3,
        }
    }

    /// What compressing under this algorithm yields, with the parameters the
    /// engine plugins use (zstd runs at level three).
    pub open spec fn compressed_of(&self, input: Seq<u8>) -> Seq<u8> {
        match *self {
            CertCompressionAlgorithm::Brotli => brotli_compressed(input),
            CertCompressionAlgorithm::Zlib => zlib_compressed(input),
            CertCompressionAlgorithm::Zstd => zstd_compressed(input, 3),
        }
    }

    /// What decompressing under this algorithm yields.
    pub open spec fn decompressed_of(&self, input: Seq<u8>) -> Seq<u8> {
        match *self {
            CertCompressionAlgorithm::Brotli => brotli_decompressed(input),
            CertCompressionAlgorithm::Zlib => zlib_decompressed(input),
            CertCompressionAlgorithm::Zstd => zstd_decompressed(input),
        }
    }

    /// Compresses a certificate chain for the wire.
    pub fn compress(&self, input: &[u8]) -> (r: Option<Vec<u8>>)
        ensures
            r matches Some(v) ==> v@ == self.compressed_of(input@),
    {
        match self {
            CertCompressionAlgorithm::Brotli => brotli_compress_bytes(input),
            CertCompressionAlgorithm::Zlib => zlib_compress_bytes(input),
            CertCompressionAlgorithm::Zstd => zstd_compress_bytes(input, 3),
        }
    }

    /// Decompresses a certificate chain from the wire, holding the result to
    /// the length the peer announced: a chain of any other length is
    /// rejected, as the engine demands.
    pub fn decompress(&self, input: &[u8], uncompressed_len: usize) -> (r: Option<Vec<u8>>)
        ensures
            r matches Some(v) ==> (v@ == self.decompressed_of(input@) && v@.len()
                == uncompressed_len),
            self.decompressed_of(input@).len() != uncompressed_len ==> r is None,
    {
        let out = match self {
            CertCompressionAlgorithm::Brotli => brotli_decompress_bytes(input),
            CertCompressionAlgorithm::Zlib => zlib_decompress_bytes(input),
            CertCompressionAlgorithm::Zstd => zstd_decompress_bytes(input),
        };
        match out {
            Some(v) => {
                if v.len() == uncompressed_len {
                    Some(v)
                } else {
                    None
                }
            },
            None => None,
        }
    }
}

} // verus!
