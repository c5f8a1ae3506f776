//! Loading a policy: authenticate the bytes, parse them, validate the result.
//!
//! What a policy domain or a root of trust does is the business of its
//! implementor, so [`MeasuredPolicy`] and [`PolicyVerifier`] each carry a spec
//! function per method: the relation between what goes into the method and what
//! may come out of it. The relations are free. A deterministic implementor
//! admits one outcome per input, one that consults a clock may admit several, and
//! one that says nothing of itself may return anything.

use vstd::prelude::*;

verus! {

/// A domain-specific policy that plugs into the measured-policy framework.
///
/// The framework authenticates and measures the raw bytes. The implementor owns
/// the schema ([`parse`](Self::parse)) and the compiled-in capability ceiling
/// ([`validate`](Self::validate)). Both operate on untrusted input and must
/// never panic.
pub trait MeasuredPolicy: Sized {
    /// Stable identifier for this policy domain. Namespaces the artifact and its
    /// measurement so distinct domains cannot be confused. The digest itself is
    /// that of the payload alone: it does not depend on the domain.
    const DOMAIN: &'static str;

    /// The error returned when parsing or validation fails.
    type Error: Send + Sync + 'static;

    /// Whether `parse` may return `outcome` on `bytes`.
    open spec fn may_parse(bytes: Seq<u8>, outcome: Result<Self, Self::Error>) -> bool {
        true
    }

    /// Whether `validate` may return `outcome` on this policy.
    open spec fn may_validate(&self, outcome: Result<(), Self::Error>) -> bool {
        true
    }

    /// Parses a policy from authenticated bytes.
    fn parse(bytes: &[u8]) -> (outcome: Result<Self, Self::Error>)
        ensures
            Self::may_parse(bytes@, outcome),
    ;

    /// Rejects any policy that falls outside this domain's compiled-in
    /// capability ceiling. A policy may narrow the ceiling but never widen it.
    fn validate(&self) -> (outcome: Result<(), Self::Error>)
        ensures
            self.may_validate(outcome),
    ;
}

/// The policy blob failed authenticity verification.
#[derive(Debug)]
pub struct VerificationError;

/// The outcome of a verification, with the payload taken as the bytes it holds.
pub open spec fn verified_bytes(
    outcome: Result<&[u8], VerificationError>,
) -> Result<Seq<u8>, VerificationError> {
    match outcome {
        Ok(payload) => Ok(payload@),
        Err(error) => Err(error),
    }
}

/// Authenticates a policy blob before it is trusted.
///
/// This is the seam where the platform's root of trust is enforced: a measured
/// digest, or a signature chained to a trusted authority. An implementation
/// returns the trusted payload on success.
pub trait PolicyVerifier {
    /// Whether `verify` may return `outcome` on `blob`.
    open spec fn may_verify(
        &self,
        blob: Seq<u8>,
        outcome: Result<Seq<u8>, VerificationError>,
    ) -> bool {
        true
    }

    /// Verifies `blob` and returns the authenticated payload.
    fn verify<'a>(&self, blob: &'a [u8]) -> (outcome: Result<&'a [u8], VerificationError>)
        ensures
            self.may_verify(blob@, verified_bytes(outcome)),
    ;
}

/// An error returned by [`load`].
#[derive(Debug)]
pub enum LoadError<E> {
    /// The blob was not authentic.
    Verification(VerificationError),
    /// The authenticated blob was malformed or outside the capability ceiling.
    Policy(E),
}

impl<E> From<VerificationError> for LoadError<E> {
    fn from(error: VerificationError) -> (load_error: Self) {
        LoadError::Verification(error)
    }
}

impl<E> vstd::std_specs::convert::FromSpecImpl<VerificationError> for LoadError<E> {
    open spec fn obeys_from_spec() -> bool {
        true
    }

    open spec fn from_spec(error: VerificationError) -> Self {
        LoadError::Verification(error)
    }
}

/// Whether loading may end in `outcome` once the blob was authenticated and
/// `trusted` is its payload.
pub open spec fn may_load_trusted<P: MeasuredPolicy>(
    trusted: Seq<u8>,
    outcome: Result<P, LoadError<P::Error>>,
) -> bool {
    match outcome {
        Ok(policy) => P::may_parse(trusted, Ok(policy)) && policy.may_validate(Ok(())),
        Err(LoadError::Policy(error)) => {
            ||| P::may_parse(trusted, Err(error))
            ||| exists|policy: P| #[trigger]
                P::may_parse(trusted, Ok(policy)) && policy.may_validate(Err(error))
        },
        Err(LoadError::Verification(_)) => false,
    }
}

/// Whether loading `blob` through `verifier` may end in `outcome`: a verification
/// error when the verifier refuses the blob, and otherwise what parsing and
/// validating the payload that the verifier vouches for comes to.
pub open spec fn may_load<P: MeasuredPolicy, V: PolicyVerifier + ?Sized>(
    verifier: &V,
    blob: Seq<u8>,
    outcome: Result<P, LoadError<P::Error>>,
) -> bool {
    match outcome {
        Err(LoadError::Verification(error)) => verifier.may_verify(blob, Err(error)),
        _ => exists|trusted: Seq<u8>| #[trigger]
            verifier.may_verify(blob, Ok(trusted)) && may_load_trusted(trusted, outcome),
    }
}

/// What a load returns for a policy that was parsed, given the verdict of its
/// validation: the policy itself, or the verdict's error and no policy.
pub fn conclude<P, E>(policy: P, verdict: Result<(), E>) -> (outcome: Result<P, LoadError<E>>)
    ensures
        outcome == match verdict {
            Ok(()) => Ok(policy),
            Err(error) => Err(LoadError::Policy(error)),
        },
{
    match verdict {
        Ok(()) => Ok(policy),
        Err(error) => Err(LoadError::Policy(error)),
    }
}

/// Parses and validates a payload that a verifier has already answered for.
///
/// A refusal is passed on as it is, and nothing is parsed.
pub fn load_verified<P: MeasuredPolicy>(verified: Result<&[u8], VerificationError>) -> (outcome:
    Result<P, LoadError<P::Error>>)
    ensures
        match verified_bytes(verified) {
            Err(error) => outcome == Err::<P, LoadError<P::Error>>(LoadError::Verification(error)),
            Ok(trusted) => may_load_trusted(trusted, outcome),
        },
{
    let trusted = match verified {
        Ok(trusted) => trusted,
        Err(error) => return Err(LoadError::from(error)),
    };
    let policy = match P::parse(trusted) {
        Ok(policy) => policy,
        Err(error) => return Err(LoadError::Policy(error)),
    };
    let verdict = policy.validate();
    assert(verdict is Ok ==> verdict->Ok_0 == ());
    conclude(policy, verdict)
}

/// Does what [`load`] does, with the type of the verifier as a parameter: a verified
/// caller that is generic over its verifier, or holds it as a trait object, learns
/// from the contract what the load comes to.
pub fn load_with<P: MeasuredPolicy, V: PolicyVerifier + ?Sized>(verifier: &V, blob: &[u8]) -> (
    outcome: Result<P, LoadError<P::Error>>)
    ensures
        may_load(verifier, blob@, outcome),
{
    let verified = verifier.verify(blob);
    load_verified(verified)
}

/// Authenticates, parses, and validates a policy in one step.
///
/// Any failure yields a [`LoadError`] and no policy, so a caller that gets `Err`
/// admits nothing.
pub fn load<P: MeasuredPolicy>(verifier: &dyn PolicyVerifier, blob: &[u8]) -> (outcome: Result<
    P,
    LoadError<P::Error>,
>)
    ensures
        may_load(verifier, blob@, outcome),
{
    load_with(verifier, blob)
}

} // verus!
