use measured_policy::framework::conclude;
use measured_policy::framework::load;
use measured_policy::framework::load_verified;
use measured_policy::framework::load_with;
use measured_policy::framework::LoadError;
use measured_policy::framework::MeasuredPolicy;
use measured_policy::framework::PolicyVerifier;
use measured_policy::framework::VerificationError;
use measured_policy::measurement::measure;
use measured_policy::measurement::MeasuredPolicyVerifier;
use measured_policy::measurement::DIGEST_LEN;
use measured_policy::message::Describe;

// A minimal domain: payload must start with "ok" (schema) and be at most 8
// bytes (ceiling).
#[derive(Debug)]
struct TestPolicy(Vec<u8>);

#[derive(Debug)]
enum TestError {
    Malformed,
    ExceedsCeiling,
}

impl MeasuredPolicy for TestPolicy {
    const DOMAIN: &'static str = "test";
    type Error = TestError;

    fn parse(bytes: &[u8]) -> Result<Self, TestError> {
        if bytes.starts_with(b"ok") {
            Ok(TestPolicy(bytes.to_vec()))
        } else {
            Err(TestError::Malformed)
        }
    }

    fn validate(&self) -> Result<(), TestError> {
        if self.0.len() <= 8 {
            Ok(())
        } else {
            Err(TestError::ExceedsCeiling)
        }
    }
}

// Vouches for what follows a one-byte tag.
struct TagVerifier;

impl PolicyVerifier for TagVerifier {
    fn verify<'a>(&self, blob: &'a [u8]) -> Result<&'a [u8], VerificationError> {
        match blob.first() {
            Some(b'!') => Ok(&blob[1..]),
            _ => Err(VerificationError),
        }
    }
}

#[test]
fn load_ok() {
    let blob = b"ok-data";
    let verifier = MeasuredPolicyVerifier::new(measure(blob));
    let policy: TestPolicy = load(&verifier, blob).unwrap();
    assert_eq!(policy.0, blob);
}

#[test]
fn rejects_tampered_blob() {
    let blob = b"ok-data";
    let verifier = MeasuredPolicyVerifier::new(measure(blob));
    let err = load::<TestPolicy>(&verifier, b"ok-diff").unwrap_err();
    assert!(matches!(err, LoadError::Verification(_)));
}

#[test]
fn surfaces_parse_error() {
    let blob = b"bad";
    let verifier = MeasuredPolicyVerifier::new(measure(blob));
    let err = load::<TestPolicy>(&verifier, blob).unwrap_err();
    assert!(matches!(err, LoadError::Policy(TestError::Malformed)));
}

#[test]
fn surfaces_ceiling_error() {
    let blob = b"ok-too-long-to-pass";
    let verifier = MeasuredPolicyVerifier::new(measure(blob));
    let err = load::<TestPolicy>(&verifier, blob).unwrap_err();
    assert!(matches!(err, LoadError::Policy(TestError::ExceedsCeiling)));
}

#[test]
fn measure_is_stable_and_sized() {
    assert_eq!(measure(b"abc"), measure(b"abc"));
    assert_ne!(measure(b"abc"), measure(b"abd"));
    assert_eq!(measure(b"abc").len(), DIGEST_LEN);
}

#[test]
fn measure_is_sha384() {
    let hex: String = measure(b"abc").iter().map(|b| format!("{b:02x}")).collect();
    assert_eq!(
        hex,
        "cb00753f45a35e8bb5a03d699ac65007272c32ab0eded1631a8b605a43ff5bed\
         8086072ba1e7cc2358baeca134c825a7"
    );
    let empty: String = measure(b"").iter().map(|b| format!("{b:02x}")).collect();
    assert!(empty.starts_with("38b060a751ac96384cd9327eb1b1e36a21fdb71114be0743"));
}

#[test]
fn measured_verifier_compares_every_byte() {
    let digest = measure(b"ok-data");
    for index in 0..DIGEST_LEN {
        let mut expected = digest;
        expected[index] ^= 1;
        let verifier = MeasuredPolicyVerifier::new(expected);
        assert!(verifier.verify(b"ok-data").is_err());
        assert!(verifier.verify_measured(b"ok-data", &digest).is_err());
        assert_eq!(verifier.verify_measured(b"ok-data", &expected).unwrap(), b"ok-data");
    }
}

#[test]
fn measured_verifier_hands_the_blob_back() {
    let blob = b"anything";
    let verifier = MeasuredPolicyVerifier::new(measure(blob));
    assert_eq!(verifier.verify(blob).unwrap(), blob);
}

#[test]
fn load_parses_what_the_verifier_returned() {
    let policy: TestPolicy = load(&TagVerifier, b"!ok").unwrap();
    assert_eq!(policy.0, b"ok");
    let err = load::<TestPolicy>(&TagVerifier, b"ok").unwrap_err();
    assert!(matches!(err, LoadError::Verification(_)));
    let err = load::<TestPolicy>(&TagVerifier, b"!no").unwrap_err();
    assert!(matches!(err, LoadError::Policy(TestError::Malformed)));
}

#[test]
fn load_with_does_what_load_does() {
    let verifier = MeasuredPolicyVerifier::new(measure(b"ok-data"));
    let object: &dyn PolicyVerifier = &verifier;
    let policy: TestPolicy = load_with(&verifier, b"ok-data").unwrap();
    assert_eq!(policy.0, b"ok-data");
    let policy: TestPolicy = load_with(object, b"ok-data").unwrap();
    assert_eq!(policy.0, b"ok-data");
    let policy: TestPolicy = load_with(&TagVerifier, b"!ok").unwrap();
    assert_eq!(policy.0, b"ok");
    assert!(matches!(
        load_with::<TestPolicy, _>(object, b"ok-date"),
        Err(LoadError::Verification(_))
    ));
    assert!(matches!(
        load_with::<TestPolicy, _>(&TagVerifier, b"!no"),
        Err(LoadError::Policy(TestError::Malformed))
    ));
    assert!(matches!(
        load_with::<TestPolicy, _>(&TagVerifier, b"!ok-too-long"),
        Err(LoadError::Policy(TestError::ExceedsCeiling))
    ));
}

#[test]
fn load_verified_passes_a_refusal_on() {
    let err = load_verified::<TestPolicy>(Err(VerificationError)).unwrap_err();
    assert!(matches!(err, LoadError::Verification(_)));
    assert_eq!(load_verified::<TestPolicy>(Ok(b"ok")).unwrap().0, b"ok");
}

#[test]
fn conclude_keeps_or_drops_the_policy() {
    assert!(matches!(conclude::<u8, u8>(7, Ok(())), Ok(7)));
    assert!(matches!(conclude::<u8, u8>(7, Err(9)), Err(LoadError::Policy(9))));
}

#[test]
fn verification_error_converts_and_describes() {
    let err: LoadError<VerificationError> = VerificationError.into();
    assert_eq!(err.describe(), "policy failed verification");
    let err: LoadError<VerificationError> = LoadError::Policy(VerificationError);
    assert_eq!(err.describe(), "policy failed verification");
}

#[test]
fn domains_are_named() {
    assert_eq!(<TestPolicy as MeasuredPolicy>::DOMAIN, "test");
    assert_eq!(
        <measured_policy::device_policy::DevicePolicy as MeasuredPolicy>::DOMAIN,
        "vpci-device"
    );
}
