//! SHA-256, computed by the `sha2` crate. The digest function itself is only
//! named here; what the library proves rests on the facts stated beside the
//! name.
use vstd::prelude::*;
use sha2::Digest;

verus! {

/// A running SHA-256 computation. `sha2::Sha256` is an alias of a generic
/// core wrapper that cannot be declared to the verifier, so it is held here,
/// opaque.
#[verifier::external_body]
pub struct Sha256State {
    inner: sha2::Sha256,
}

/// The SHA-256 digest of a byte string.
pub uninterp spec fn sha256_of(b: Seq<u8>) -> Seq<u8>;

/// The bytes fed so far into a running SHA-256 computation.
pub uninterp spec fn sha256_input(h: Sha256State) -> Seq<u8>;

/// Relies on `sha2::Sha256::new` (via `digest::Digest`): a fresh hasher has
/// seen no input.
#[verifier::external_body]
pub(crate) fn sha256_new() -> (h: Sha256State)
    ensures
        sha256_input(h) == Seq::<u8>::empty(),
{
    Sha256State { inner: sha2::Sha256::new() }
}

/// Relies on `Digest::update` for `sha2::Sha256`: the bytes are appended to
/// the hashed input.
#[verifier::external_body]
pub(crate) fn sha256_update(h: &mut Sha256State, data: &[u8])
    ensures
        sha256_input(*final(h)) == sha256_input(*old(h)) + data@,
{
    h.inner.update(data)
}

/// Relies on `Digest::finalize` for `sha2::Sha256`: the thirty-two byte
/// digest of everything fed in.
#[verifier::external_body]
pub(crate) fn sha256_finish(h: Sha256State) -> (r: Vec<u8>)
    ensures
        r@ == sha256_of(sha256_input(h)),
        r@.len() == 32,
{
    h.inner.finalize().to_vec()
}

} // verus!
