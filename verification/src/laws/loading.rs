//! How authenticating, parsing, validating and loading hang together.

use crate::device_policy::DevicePolicy;
use crate::device_policy::DevicePolicyError;
use crate::device_policy::PolicyModel;
use crate::device_policy::SCHEMA_VERSION;
use crate::framework::LoadError;
use crate::framework::MeasuredPolicy;
use crate::framework::PolicyVerifier;
use crate::framework::VerificationError;
use crate::measurement::MeasuredPolicyVerifier;
use vstd::prelude::*;

verus! {

/// A blob that the verifier does not vouch for is never loaded: the load ends in a
/// refusal that the verifier gave.
pub proof fn law_refused_blob_is_not_loaded<P: MeasuredPolicy, V: PolicyVerifier + ?Sized>(
    verifier: &V,
    blob: Seq<u8>,
    outcome: Result<P, LoadError<P::Error>>,
)
    requires
        forall|trusted: Seq<u8>| !#[trigger] verifier.may_verify(blob, Ok(trusted)),
        crate::framework::may_load(verifier, blob, outcome),
    ensures
        outcome matches Err(LoadError::Verification(error)) && verifier.may_verify(
            blob,
            Err(error),
        ),
{
}

/// A verifier that does not refuse a blob is not the cause of an error.
pub proof fn law_vouched_blob_is_not_refused<P: MeasuredPolicy, V: PolicyVerifier + ?Sized>(
    verifier: &V,
    blob: Seq<u8>,
    outcome: Result<P, LoadError<P::Error>>,
)
    requires
        forall|error: VerificationError| !#[trigger] verifier.may_verify(blob, Err(error)),
        crate::framework::may_load(verifier, blob, outcome),
    ensures
        !(outcome matches Err(LoadError::Verification(_))),
{
}

/// A load reads the payload that the verifier hands out, and no other bytes: where
/// that payload parses to one policy and the policy passes, the load gives this
/// policy.
pub proof fn law_good_payload_loads<P: MeasuredPolicy, V: PolicyVerifier + ?Sized>(
    verifier: &V,
    blob: Seq<u8>,
    trusted: Seq<u8>,
    policy: P,
    outcome: Result<P, LoadError<P::Error>>,
)
    requires
        forall|verdict: Result<Seq<u8>, VerificationError>| #[trigger]
            verifier.may_verify(blob, verdict) ==> verdict == Ok::<Seq<u8>, VerificationError>(
                trusted,
            ),
        forall|parsed: Result<P, P::Error>| #[trigger]
            P::may_parse(trusted, parsed) ==> parsed == Ok::<P, P::Error>(policy),
        forall|verdict: Result<(), P::Error>| #[trigger]
            policy.may_validate(verdict) ==> verdict is Ok,
        crate::framework::may_load(verifier, blob, outcome),
    ensures
        outcome == Ok::<P, LoadError<P::Error>>(policy),
{
    match outcome {
        Ok(loaded) => {
            assert(P::may_parse(trusted, Ok(loaded)));
        },
        Err(LoadError::Policy(error)) => {
            assert(!P::may_parse(trusted, Err(error)));
        },
        Err(LoadError::Verification(error)) => {
            assert(verifier.may_verify(blob, Err(error)));
        },
    }
}

/// Where the payload that the verifier hands out does not parse, the load ends in
/// the error of parsing.
pub proof fn law_malformed_payload_fails<P: MeasuredPolicy, V: PolicyVerifier + ?Sized>(
    verifier: &V,
    blob: Seq<u8>,
    trusted: Seq<u8>,
    error: P::Error,
    outcome: Result<P, LoadError<P::Error>>,
)
    requires
        forall|verdict: Result<Seq<u8>, VerificationError>| #[trigger]
            verifier.may_verify(blob, verdict) ==> verdict == Ok::<Seq<u8>, VerificationError>(
                trusted,
            ),
        forall|parsed: Result<P, P::Error>| #[trigger]
            P::may_parse(trusted, parsed) ==> parsed == Err::<P, P::Error>(error),
        crate::framework::may_load(verifier, blob, outcome),
    ensures
        outcome == Err::<P, LoadError<P::Error>>(LoadError::Policy(error)),
{
    match outcome {
        Ok(loaded) => {
            assert(!P::may_parse(trusted, Ok(loaded)));
        },
        Err(LoadError::Policy(other)) => {
            assert(forall|policy: P| !#[trigger] P::may_parse(trusted, Ok(policy)));
            assert(P::may_parse(trusted, Err(other)));
        },
        Err(LoadError::Verification(other)) => {
            assert(verifier.may_verify(blob, Err(other)));
        },
    }
}

/// Where the policy that was parsed does not pass, the load ends in the error of
/// validation, and gives no policy.
pub proof fn law_policy_over_the_ceiling_fails<P: MeasuredPolicy, V: PolicyVerifier + ?Sized>(
    verifier: &V,
    blob: Seq<u8>,
    trusted: Seq<u8>,
    policy: P,
    error: P::Error,
    outcome: Result<P, LoadError<P::Error>>,
)
    requires
        forall|verdict: Result<Seq<u8>, VerificationError>| #[trigger]
            verifier.may_verify(blob, verdict) ==> verdict == Ok::<Seq<u8>, VerificationError>(
                trusted,
            ),
        forall|parsed: Result<P, P::Error>| #[trigger]
            P::may_parse(trusted, parsed) ==> parsed == Ok::<P, P::Error>(policy),
        forall|verdict: Result<(), P::Error>| #[trigger]
            policy.may_validate(verdict) ==> verdict == Err::<(), P::Error>(error),
        crate::framework::may_load(verifier, blob, outcome),
    ensures
        outcome == Err::<P, LoadError<P::Error>>(LoadError::Policy(error)),
{
    match outcome {
        Ok(loaded) => {
            assert(P::may_parse(trusted, Ok(loaded)));
            assert(policy.may_validate(Ok(())));
        },
        Err(LoadError::Policy(other)) => {
            assert(!P::may_parse(trusted, Err(other)));
            let parsed = choose|parsed: P| #[trigger]
                P::may_parse(trusted, Ok(parsed)) && parsed.may_validate(Err(other));
            assert(P::may_parse(trusted, Ok(parsed)));
        },
        Err(LoadError::Verification(other)) => {
            assert(verifier.may_verify(blob, Err(other)));
        },
    }
}

/// A measured verifier answers by the digest alone: one byte of it that is not as
/// expected, and the blob is refused; all of them as expected, and the blob comes
/// back as it is.
pub proof fn law_every_byte_of_the_digest_counts(
    verifier: &MeasuredPolicyVerifier,
    blob: Seq<u8>,
    outcome: Result<Seq<u8>, VerificationError>,
)
    requires
        verifier.may_verify(blob, outcome),
        crate::measurement::sha384(blob).len() == verifier.expected().len(),
    ensures
        (exists|i: int|
            0 <= i < verifier.expected().len() && #[trigger] verifier.expected()[i]
                != crate::measurement::sha384(blob)[i]) <==> outcome is Err,
        outcome matches Ok(payload) ==> payload == blob,
{
    if forall|i: int|
        0 <= i < verifier.expected().len() ==> #[trigger] verifier.expected()[i]
            == crate::measurement::sha384(blob)[i] {
        assert(verifier.expected() =~= crate::measurement::sha384(blob));
    }
}

/// What a verifier answers for a digest that was taken of a blob: the blob exactly
/// where the digest is the expected one.
pub proof fn law_digest_decides(expected: Seq<u8>, digest: Seq<u8>, blob: Seq<u8>)
    ensures
        digest == expected ==> crate::measurement::measured_outcome(expected, digest, blob) == Ok::<
            Seq<u8>,
            VerificationError,
        >(blob),
        digest != expected ==> crate::measurement::measured_outcome(expected, digest, blob) is Err,
{
}

/// Loading bytes is parsing them and then validating what came of it: the error of
/// parsing passes through, a policy that passes comes out as it was parsed, and one
/// that does not is replaced by the verdict on it.
pub proof fn law_loading_is_parsing_and_validating(
    bytes: Seq<u8>,
    parsed: Result<DevicePolicy, DevicePolicyError>,
    loaded: Result<DevicePolicy, DevicePolicyError>,
)
    requires
        DevicePolicy::may_parse(bytes, parsed),
        crate::device_policy::may_load_bytes(bytes, loaded),
    ensures
        match (parsed, loaded) {
            (Ok(policy), Ok(other)) => {
                &&& other.version == policy.version
                &&& other.rules@ == policy.rules@
                &&& policy.may_validate(Ok(()))
            },
            (Ok(policy), Err(error)) => policy.may_validate(Err(error)) && !policy.may_validate(
                Ok(()),
            ),
            (Err(DevicePolicyError::Parse(text)), Err(DevicePolicyError::Parse(other))) => {
                text@ == other@
            },
            _ => false,
        },
{
    if let (Ok(policy), Err(error)) = (parsed, loaded) {
        if policy.may_validate(Ok(())) {
            crate::laws::law_one_verdict(policy@, Ok(()), Err(error));
        }
    }
}

/// A policy that was loaded has the schema version of this build.
pub proof fn law_loaded_policy_has_the_schema_version(bytes: Seq<u8>, policy: DevicePolicy)
    requires
        crate::device_policy::may_load_bytes(bytes, Ok(policy)),
    ensures
        policy.version == SCHEMA_VERSION,
{
}

/// Whatever the root of trust, a policy that was loaded through the framework has
/// the schema version of this build.
pub proof fn law_authenticated_policy_has_the_schema_version<V: PolicyVerifier + ?Sized>(
    verifier: &V,
    blob: Seq<u8>,
    policy: DevicePolicy,
)
    requires
        crate::framework::may_load(
            verifier,
            blob,
            Ok::<DevicePolicy, LoadError<DevicePolicyError>>(policy),
        ),
    ensures
        policy.version == SCHEMA_VERSION,
{
    crate::laws::law_loaded_policy_passed_every_stage(verifier, blob, policy);
}

/// Bytes that decode to a policy of another version do not load, whatever the
/// rules: the error gives the version.
pub proof fn law_other_version_does_not_load(
    bytes: Seq<u8>,
    policy: PolicyModel,
    outcome: Result<DevicePolicy, DevicePolicyError>,
)
    requires
        crate::schema::decoded_policy(bytes) == Some(policy),
        policy.version != SCHEMA_VERSION,
        crate::device_policy::may_load_bytes(bytes, outcome),
    ensures
        outcome == Err::<DevicePolicy, DevicePolicyError>(
            DevicePolicyError::UnsupportedVersion(policy.version),
        ),
{
}

/// Bytes that decode to a policy parse to it, rule for rule; bytes that do not are
/// an error of parsing and of nothing else.
pub proof fn law_parsing_gives_what_is_decoded(
    bytes: Seq<u8>,
    outcome: Result<DevicePolicy, DevicePolicyError>,
)
    requires
        DevicePolicy::may_parse(bytes, outcome),
    ensures
        match crate::schema::decoded_policy(bytes) {
            Some(policy) => {
                &&& outcome is Ok
                &&& outcome->Ok_0.version == policy.version
                &&& outcome->Ok_0.rules@ == policy.rules
            },
            None => outcome matches Err(DevicePolicyError::Parse(_)),
        },
{
}

/// What is not JSON is answered with what there is to say against it as JSON, and
/// what is JSON with a sentence on the schema.
pub proof fn law_parse_error_says_what_is_wrong(bytes: Seq<u8>, text: String)
    requires
        DevicePolicy::may_parse(bytes, Err(DevicePolicyError::Parse(text))),
    ensures
        crate::json::json_fault(bytes) matches Some(fault) ==> text@ == fault,
        crate::json::json_fault(bytes) is None ==> text@
            == "the document does not follow the device policy schema"@,
{
}

/// A policy is seen as it is: its version, and its rules in order.
pub proof fn law_policy_is_seen_as_it_is(policy: DevicePolicy)
    ensures
        policy@.version == policy.version,
        policy@.rules.len() == policy.rules@.len(),
        forall|i: int|
            0 <= i < policy.rules@.len() ==> #[trigger] policy@.rules[i] == policy.rules@[i],
{
}

/// A payload that was vouched for is taken byte for byte.
pub proof fn law_payload_is_taken_as_it_is(payload: &[u8], error: VerificationError)
    ensures
        crate::framework::verified_bytes(Ok(payload)) matches Ok(bytes) && bytes == payload@,
        crate::framework::verified_bytes(Err(error)) is Err,
{
}

} // verus!
