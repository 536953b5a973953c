use vstd::prelude::*;

verus! {

/// The SHA-256 digest of a byte sequence, as an opaque name: the digest is a
/// pure function of its input alone, so one symbol stands for it in every
/// contract, and nothing further is claimed about its value.
pub uninterp spec fn sha256_of(bytes: Seq<u8>) -> Seq<u8>;

/// Relies on sha2::Sha256 through digest::Digest::digest: SHA-256 is a
/// deterministic function of the input bytes, and its output is exactly
/// 32 bytes.
#[verifier::external_body]
pub(crate) fn sha256(bytes: &[u8]) -> (r: Vec<u8>)
    ensures
        r@ == sha256_of(bytes@),
        r@.len() == 32,
{
    <sha2::Sha256 as sha2::Digest>::digest(bytes).to_vec()
}

/// An entity with a canonical byte serialization and a fixed-size digest
/// derived from it. Both operations are total, deterministic functions of the
/// entity's current field values.
pub trait Hashable {
    /// The canonical serialization, at the specification level.
    spec fn canonical_bytes(&self) -> Seq<u8>;

    /// Serialize to the canonical byte sequence.
    fn bytes(&self) -> (r: Vec<u8>)
        ensures
            r@ == self.canonical_bytes(),
    ;

    /// The SHA-256 digest of the canonical serialization.
    fn hash(&self) -> (r: Vec<u8>)
        ensures
            r@ == sha256_of(self.canonical_bytes()),
            r@.len() == 32,
    ;
}

} // verus!
