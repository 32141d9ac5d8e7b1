//! ClientHello extension identifiers.
//!
//! The engine shuffles the extensions of an outgoing ClientHello; this
//! module lists the extensions that take part in the shuffle, in their
//! baseline order, and recovers an extension's baseline position.

use vstd::prelude::*;

verus! {

/// A TLS extension identifier, under its IANA-assigned code.
#[derive(Clone, Copy, Debug, PartialEq, Eq, Structural)]
pub struct ExtensionType(pub u16);

impl ExtensionType {
    /// The extensions the engine shuffles, in their baseline order.
    pub open spec fn spec_permutation() -> Seq<ExtensionType> {
        seq![
            ExtensionType(0),  // server name
            ExtensionType(0xfe0d),  // encrypted client hello
            ExtensionType(23),  // extended master secret
            ExtensionType(0xff01),  // renegotiation info
            ExtensionType(10),  // supported groups
            ExtensionType(11),  // ec point formats
            ExtensionType(35),  // session ticket
            ExtensionType(16),  // application layer protocol negotiation
            ExtensionType(5),  // status request
            ExtensionType(13),  // signature algorithms
            ExtensionType(13172),  // next protocol negotiation
            ExtensionType(18),  // signed certificate timestamp
            ExtensionType(30032),  // channel id
            ExtensionType(14),  // srtp
            ExtensionType(51),  // key share
            ExtensionType(45),  // psk key exchange modes
            ExtensionType(42),  // early data
            ExtensionType(43),  // supported versions
            ExtensionType(44),  // cookie
            ExtensionType(57),  // quic transport parameters
            ExtensionType(27),  // certificate compression
            ExtensionType(34),  // delegated credential
            ExtensionType(17513),  // application settings
            ExtensionType(28),  // record size limit
        ]
    }

    /// The extensions the engine shuffles, in their baseline order.
    pub fn boring_ssl_extension_permutation() -> (r: Vec<ExtensionType>)
        ensures
            r@ == Self::spec_permutation(),
    {
        let mut r: Vec<ExtensionType> = Vec::new();
        r.push(ExtensionType(0));
        r.push(ExtensionType(0xfe0d));
        r.push(ExtensionType(23));
        r.push(ExtensionType(0xff01));
        r.push(ExtensionType(10));
        r.push(ExtensionType(11));
        r.push(ExtensionType(35));
        r.push(ExtensionType(16));
        r.push(ExtensionType(5));
        r.push(ExtensionType(13));
        r.push(ExtensionType(13172));
        r.push(ExtensionType(18));
        r.push(ExtensionType(30032));
        r.push(ExtensionType(14));
        r.push(ExtensionType(51));
        r.push(ExtensionType(45));
        r.push(ExtensionType(42));
        r.push(ExtensionType(43));
        r.push(ExtensionType(44));
        r.push(ExtensionType(57));
        r.push(ExtensionType(27));
        r.push(ExtensionType(34));
        r.push(ExtensionType(17513));
        r.push(ExtensionType(28));
        proof {
            assert(r@ =~= Self::spec_permutation());
        }
        r
    }

    /// The baseline position of an extension within the shuffled set: the
    /// least index carrying it, or nothing for an extension outside the set.
    pub fn index_of(ext: ExtensionType) -> (r: Option<usize>)
        ensures
            r matches Some(i) ==> (i < Self::spec_permutation().len()
                && Self::spec_permutation()[i as int] == ext && (forall|k: int|
                0 <= k < i ==> Self::spec_permutation()[k] != ext)),
            r is None ==> (forall|k: int|
                0 <= k < Self::spec_permutation().len() ==> Self::spec_permutation()[k] != ext),
    {
        let perm = Self::boring_ssl_extension_permutation();
        let mut i: usize = 0;
        while i < perm.len()
            invariant
                0 <= i <= perm@.len(),
                perm@ == Self::spec_permutation(),
                forall|k: int| 0 <= k < i ==> Self::spec_permutation()[k] != ext,
            decreases perm@.len() - i,
        {
            if perm[i] == ext {
                return Some(i);
            }
            i = i + 1;
        }
        None
    }
}

} // verus!
