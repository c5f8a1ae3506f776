//! The digest that binds a policy into attestation, and the verifier that trusts
//! a policy by it.

use crate::framework::PolicyVerifier;
use crate::framework::VerificationError;
use vstd::prelude::*;

verus! {

/// Length in bytes of a policy measurement digest (SHA-384).
pub const DIGEST_LEN: usize = 48;

/// The SHA-384 digest of `bytes`, as `sha2::Sha384` computes it.
pub uninterp spec fn sha384(bytes: Seq<u8>) -> Seq<u8>;

/// Calls `sha2::Digest::digest` of `sha2::Sha384` on the whole input. The digest is
/// a function of the bytes alone; its 48 bytes come back in order.
#[verifier::external_body]
fn sha384_digest(bytes: &[u8]) -> (digest: [u8; DIGEST_LEN])
    ensures
        digest@ == sha384(bytes@),
{
    <sha2::Sha384 as sha2::Digest>::digest(bytes).into()
}

/// Computes the measurement digest of a policy payload.
///
/// This is the value bound into the guest's attestation (extended into a runtime
/// measurement register) so a relying party can require a specific policy.
pub fn measure(bytes: &[u8]) -> (digest: [u8; DIGEST_LEN])
    ensures
        digest@ == sha384(bytes@),
        digest@.len() == DIGEST_LEN,
{
    sha384_digest(bytes)
}

/// Whether two digests are the same byte for byte.
fn same_digest(left: &[u8; DIGEST_LEN], right: &[u8; DIGEST_LEN]) -> (same: bool)
    ensures
        same == (left@ == right@),
{
    let mut index: usize = 0;
    while index < DIGEST_LEN
        invariant
            index <= DIGEST_LEN,
            forall|i: int| 0 <= i < index ==> left@[i] == right@[i],
        decreases DIGEST_LEN - index,
    {
        if left[index] != right[index] {
            return false;
        }
        index += 1;
    }
    assert(left@ =~= right@);
    true
}

/// What a verifier that trusts `expected` answers for a blob with this digest.
pub open spec fn measured_outcome(
    expected: Seq<u8>,
    digest: Seq<u8>,
    blob: Seq<u8>,
) -> Result<Seq<u8>, VerificationError> {
    if digest == expected {
        Ok(blob)
    } else {
        Err(VerificationError)
    }
}

/// A [`PolicyVerifier`] that trusts a policy whose measurement matches an
/// expected digest.
///
/// This models the *measured* trust path: the expected digest comes from the
/// platform's attested measured config, not from a secret in the paravisor, so
/// the untrusted host cannot substitute a different policy.
pub struct MeasuredPolicyVerifier {
    expected: [u8; DIGEST_LEN],
}

impl MeasuredPolicyVerifier {
    /// The digest that this verifier trusts.
    pub closed spec fn expected(&self) -> Seq<u8> {
        self.expected@
    }

    /// Creates a verifier that trusts exactly the policy with this digest.
    pub fn new(expected: [u8; DIGEST_LEN]) -> (verifier: Self)
        ensures
            verifier.expected() == expected@,
    {
        MeasuredPolicyVerifier { expected }
    }

    /// Judges a blob by a digest that was taken of it: the blob itself where the
    /// digest is the expected one, an error where it is any other.
    pub fn verify_measured<'a>(&self, blob: &'a [u8], digest: &[u8; DIGEST_LEN]) -> (outcome:
        Result<&'a [u8], VerificationError>)
        ensures
            crate::framework::verified_bytes(outcome) == measured_outcome(
                self.expected(),
                digest@,
                blob@,
            ),
    {
        if same_digest(digest, &self.expected) {
            Ok(blob)
        } else {
            Err(VerificationError)
        }
    }
}

impl PolicyVerifier for MeasuredPolicyVerifier {
    open spec fn may_verify(
        &self,
        blob: Seq<u8>,
        outcome: Result<Seq<u8>, VerificationError>,
    ) -> bool {
        outcome == measured_outcome(self.expected(), sha384(blob), blob)
    }

    fn verify<'a>(&self, blob: &'a [u8]) -> (outcome: Result<&'a [u8], VerificationError>) {
        let digest = measure(blob);
        self.verify_measured(blob, &digest)
    }
}

} // verus!
