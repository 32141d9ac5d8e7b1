use compio_boring::cert_compression::CertCompressionAlgorithm;
use compio_boring::extensions::ExtensionType;

fn sample_chain() -> Vec<u8> {
    // repetitive enough that every codec actually shrinks or reshapes it
    let mut v = Vec::new();
    let mut i: usize = 0;
    while i < 4096 {
        v.push((i % 13) as u8);
        i += 1;
    }
    v
}

#[test]
fn iana_identifiers() {
    assert_eq!(CertCompressionAlgorithm::Zlib.id(), 1);
    assert_eq!(CertCompressionAlgorithm::Brotli.id(), 2);
    assert_eq!(CertCompressionAlgorithm::Zstd.id(), 3);
}

#[test]
fn brotli_round_trip() {
    let chain = sample_chain();
    let compressed = CertCompressionAlgorithm::Brotli.compress(&chain).expect("compresses");
    assert_ne!(compressed, chain);
    let back = CertCompressionAlgorithm::Brotli.decompress(&compressed, chain.len());
    assert_eq!(back, Some(chain));
}

#[test]
fn zlib_round_trip() {
    let chain = sample_chain();
    let compressed = CertCompressionAlgorithm::Zlib.compress(&chain).expect("compresses");
    assert_ne!(compressed, chain);
    let back = CertCompressionAlgorithm::Zlib.decompress(&compressed, chain.len());
    assert_eq!(back, Some(chain));
}

#[test]
fn zstd_round_trip() {
    let chain = sample_chain();
    let compressed = CertCompressionAlgorithm::Zstd.compress(&chain).expect("compresses");
    assert_ne!(compressed, chain);
    let back = CertCompressionAlgorithm::Zstd.decompress(&compressed, chain.len());
    assert_eq!(back, Some(chain));
}

#[test]
fn decompress_rejects_a_wrong_announced_length() {
    let chain = sample_chain();
    let compressed = CertCompressionAlgorithm::Brotli.compress(&chain).expect("compresses");
    assert_eq!(
        CertCompressionAlgorithm::Brotli.decompress(&compressed, chain.len() + 1),
        None
    );
}

#[test]
fn decompress_rejects_a_malformed_stream() {
    let garbage = vec![0xde, 0xad, 0xbe, 0xef, 0x00, 0x01];
    assert_eq!(CertCompressionAlgorithm::Zlib.decompress(&garbage, 6), None);
    assert_eq!(CertCompressionAlgorithm::Zstd.decompress(&garbage, 6), None);
}

#[test]
fn test_exntension_order_index() {
    for (i, ext) in ExtensionType::boring_ssl_extension_permutation().iter().enumerate() {
        assert_eq!(ExtensionType::index_of(*ext), Some(i));
    }
}

#[test]
fn index_of_unknown_extension_is_none() {
    assert_eq!(ExtensionType::index_of(ExtensionType(65000)), None);
}
