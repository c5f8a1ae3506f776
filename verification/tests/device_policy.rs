use measured_policy::device_policy::capability_ceiling;
use measured_policy::device_policy::load_from_bytes;
use measured_policy::device_policy::load_parsed;
use measured_policy::device_policy::CeilingEntry;
use measured_policy::device_policy::DeviceIdRange;
use measured_policy::device_policy::DevicePolicy;
use measured_policy::device_policy::DevicePolicyError;
use measured_policy::device_policy::PolicyRule;
use measured_policy::device_policy::NVIDIA_VENDOR_ID;
use measured_policy::device_policy::SCHEMA_VERSION;
use measured_policy::framework::load;
use measured_policy::framework::LoadError;
use measured_policy::framework::MeasuredPolicy;
use measured_policy::hwid::ClassCode;
use measured_policy::hwid::HardwareIds;
use measured_policy::hwid::ProgrammingInterface;
use measured_policy::hwid::Subclass;
use measured_policy::measurement::measure;
use measured_policy::measurement::MeasuredPolicyVerifier;
use measured_policy::message::Describe;

fn hw(vendor: u16, device: u16, base_class: u8, sub_class: u8) -> HardwareIds {
    HardwareIds {
        vendor_id: vendor,
        device_id: device,
        revision_id: 0,
        prog_if: ProgrammingInterface(0),
        sub_class: Subclass(sub_class),
        base_class: ClassCode(base_class),
        type0_sub_vendor_id: 0,
        type0_sub_system_id: 0,
    }
}

// Reproduces the short-term static GPU allow list: NVIDIA 3D controllers and
// NVIDIA NVSwitch bridges.
fn gpu_policy_json() -> &'static str {
    r#"{
            "version": 1,
            "rules": [
                { "vendor_id": 4318, "base_class": 3, "sub_class": 2 },
                { "vendor_id": 4318, "base_class": 6, "sub_class": 128 }
            ]
        }"#
}

fn parse(json: &str) -> Result<DevicePolicy, DevicePolicyError> {
    let policy = DevicePolicy::parse(json.as_bytes())?;
    policy.validate()?;
    Ok(policy)
}

fn open_rule() -> PolicyRule {
    PolicyRule {
        vendor_id: None,
        device_id: None,
        revision_id: None,
        prog_if: None,
        sub_class: None,
        base_class: None,
        sub_vendor_id: None,
        sub_system_id: None,
    }
}

fn gpu_rule() -> PolicyRule {
    PolicyRule {
        vendor_id: Some(NVIDIA_VENDOR_ID),
        base_class: Some(3),
        ..open_rule()
    }
}

#[test]
fn device_id_range_contains() {
    let r = DeviceIdRange::inclusive(0x2330, 0x2BFF);
    assert!(r.contains(0x2330));
    assert!(r.contains(0x2BFF));
    assert!(!r.contains(0x232F));
    assert!(!r.contains(0x2C00));
    assert!(DeviceIdRange::any().contains(u16::MAX));
    assert!(DeviceIdRange::exact(5).contains(5));
    assert!(!DeviceIdRange::exact(5).contains(6));
}

#[test]
fn device_id_range_subset() {
    let bounded = DeviceIdRange::inclusive(10, 20);
    assert!(DeviceIdRange::inclusive(12, 18).is_subset_of(&bounded));
    assert!(DeviceIdRange::exact(10).is_subset_of(&bounded));
    assert!(!DeviceIdRange::inclusive(9, 18).is_subset_of(&bounded));
    assert!(!DeviceIdRange::inclusive(12, 21).is_subset_of(&bounded));
    assert!(!DeviceIdRange::any().is_subset_of(&bounded));
    assert!(DeviceIdRange::any().is_subset_of(&DeviceIdRange::any()));
}

#[test]
fn half_open_ranges() {
    let above = DeviceIdRange { start: Some(10), end: None };
    let below = DeviceIdRange { start: None, end: Some(10) };
    assert!(above.contains(10) && above.contains(u16::MAX) && !above.contains(9));
    assert!(below.contains(10) && below.contains(0) && !below.contains(11));
    assert!(DeviceIdRange::inclusive(10, 11).is_subset_of(&above));
    assert!(!DeviceIdRange::inclusive(9, 11).is_subset_of(&above));
    assert!(!below.is_subset_of(&above));
    assert!(!above.is_subset_of(&below));
}

#[test]
fn ranges_that_hold_nothing() {
    let none = DeviceIdRange::inclusive(9, 5);
    assert!(none.is_empty());
    assert!(!DeviceIdRange::exact(5).is_empty());
    assert!(!DeviceIdRange::any().is_empty());
    assert!(!none.contains(7) && !none.contains(5) && !none.contains(9));
    assert!(none.is_subset_of(&DeviceIdRange::inclusive(10, 20)));
    assert!(!DeviceIdRange::inclusive(10, 20).is_subset_of(&none));
}

#[test]
fn spelled_out_bounds_are_open_bounds() {
    let all = DeviceIdRange::inclusive(0, u16::MAX);
    assert!(DeviceIdRange::any().is_subset_of(&all));
    assert!(all.is_subset_of(&DeviceIdRange::any()));
}

#[test]
fn deny_by_default() {
    let policy = DevicePolicy {
        version: 1,
        rules: Vec::new(),
    };
    assert!(!policy.admits(&hw(NVIDIA_VENDOR_ID, 0x2330, 0x03, 0x02)));
}

#[test]
fn admits_gpu_and_bridge_but_not_others() {
    let policy = parse(gpu_policy_json()).unwrap();
    assert!(policy.admits(&hw(NVIDIA_VENDOR_ID, 0x2330, 0x03, 0x02))); // H100
    assert!(policy.admits(&hw(NVIDIA_VENDOR_ID, 0x22A3, 0x06, 0x80))); // NVSwitch
    assert!(!policy.admits(&hw(NVIDIA_VENDOR_ID, 0x2330, 0x03, 0x00))); // VGA subclass
    assert!(!policy.admits(&hw(0x8086, 0x2330, 0x03, 0x02))); // wrong vendor
}

// The policy admits exactly the devices the short-term static entries did.
#[test]
fn parity_with_short_term_static_list() {
    let policy = parse(gpu_policy_json()).unwrap();
    // The short-term entries: (vendor 0x10DE, base 0x03, sub 0x02) and
    // (vendor 0x10DE, base 0x06, sub 0x80).
    let short_term = |hw: &HardwareIds| {
        (hw.vendor_id == 0x10DE && hw.base_class.0 == 0x03 && hw.sub_class.0 == 0x02)
            || (hw.vendor_id == 0x10DE && hw.base_class.0 == 0x06 && hw.sub_class.0 == 0x80)
    };
    for &(vendor, device, base, sub) in &[
        (0x10DE, 0x2330, 0x03, 0x02),
        (0x10DE, 0x22A3, 0x06, 0x80),
        (0x10DE, 0x2330, 0x03, 0x00),
        (0x10DE, 0x1234, 0x02, 0x00),
        (0x8086, 0x2330, 0x03, 0x02),
        (0x10DE, 0x0000, 0x06, 0x04),
    ] {
        let ids = hw(vendor, device, base, sub);
        assert_eq!(policy.admits(&ids), short_term(&ids), "{ids:x?}");
    }
}

#[test]
fn ceiling_rejects_foreign_vendor() {
    let json = r#"{"version":1,"rules":[{"vendor_id":32902,"base_class":3}]}"#;
    assert!(matches!(
        parse(json),
        Err(DevicePolicyError::RuleExceedsCeiling(0))
    ));
}

#[test]
fn ceiling_rejects_foreign_class() {
    let json = r#"{"version":1,"rules":[{"vendor_id":4318,"base_class":1}]}"#;
    assert!(matches!(
        parse(json),
        Err(DevicePolicyError::RuleExceedsCeiling(0))
    ));
}

#[test]
fn ceiling_rejects_unpinned_vendor() {
    let json = r#"{"version":1,"rules":[{"base_class":3}]}"#;
    assert!(matches!(
        parse(json),
        Err(DevicePolicyError::RuleExceedsCeiling(0))
    ));
}

#[test]
fn unsupported_version_rejected() {
    let json = r#"{"version":2,"rules":[]}"#;
    assert!(matches!(
        parse(json),
        Err(DevicePolicyError::UnsupportedVersion(2))
    ));
}

#[test]
fn malformed_json_does_not_panic() {
    assert!(matches!(
        DevicePolicy::parse(b"not json"),
        Err(DevicePolicyError::Parse(_))
    ));
    assert!(matches!(
        DevicePolicy::parse(b""),
        Err(DevicePolicyError::Parse(_))
    ));
}

#[test]
fn loads_through_framework() {
    let blob = gpu_policy_json().as_bytes();
    let verifier = MeasuredPolicyVerifier::new(measure(blob));
    let policy: DevicePolicy = load(&verifier, blob).unwrap();
    assert_eq!(policy.rules.len(), 2);
}

#[test]
fn framework_rejects_tampered_policy() {
    let blob = gpu_policy_json().as_bytes();
    let verifier = MeasuredPolicyVerifier::new(measure(blob));
    let other = r#"{"version":1,"rules":[{"vendor_id":4318,"base_class":6,"sub_class":128}]}"#;
    assert!(load::<DevicePolicy>(&verifier, other.as_bytes()).is_err());
}

#[test]
fn framework_and_bytes_agree() {
    for json in [
        gpu_policy_json(),
        r#"{"version":2,"rules":[]}"#,
        r#"{"version":1,"rules":[{"base_class":3}]}"#,
        "nothing",
    ] {
        let blob = json.as_bytes();
        let verifier = MeasuredPolicyVerifier::new(measure(blob));
        match (load::<DevicePolicy>(&verifier, blob), load_from_bytes(blob)) {
            (Ok(a), Ok(b)) => assert_eq!(a, b),
            (Err(LoadError::Policy(a)), Err(b)) => assert_eq!(a.describe(), b.describe()),
            _ => panic!("the two ways to load disagree"),
        }
    }
}

#[test]
fn every_field_of_a_rule_must_match() {
    let device = HardwareIds {
        vendor_id: 1,
        device_id: 2,
        revision_id: 3,
        prog_if: ProgrammingInterface(4),
        sub_class: Subclass(5),
        base_class: ClassCode(6),
        type0_sub_vendor_id: 7,
        type0_sub_system_id: 8,
    };
    let full = PolicyRule {
        vendor_id: Some(1),
        device_id: Some(DeviceIdRange::exact(2)),
        revision_id: Some(3),
        prog_if: Some(4),
        sub_class: Some(5),
        base_class: Some(6),
        sub_vendor_id: Some(7),
        sub_system_id: Some(8),
    };
    assert!(full.matches(&device));
    assert!(open_rule().matches(&device));
    assert!(!PolicyRule { vendor_id: Some(9), ..full }.matches(&device));
    assert!(!PolicyRule { device_id: Some(DeviceIdRange::exact(9)), ..full }.matches(&device));
    assert!(!PolicyRule { revision_id: Some(9), ..full }.matches(&device));
    assert!(!PolicyRule { prog_if: Some(9), ..full }.matches(&device));
    assert!(!PolicyRule { sub_class: Some(9), ..full }.matches(&device));
    assert!(!PolicyRule { base_class: Some(9), ..full }.matches(&device));
    assert!(!PolicyRule { sub_vendor_id: Some(9), ..full }.matches(&device));
    assert!(!PolicyRule { sub_system_id: Some(9), ..full }.matches(&device));
    assert!(PolicyRule { vendor_id: None, sub_system_id: None, ..full }.matches(&device));
}

#[test]
fn rules_add_up() {
    let bridge = PolicyRule { base_class: Some(6), ..gpu_rule() };
    let both = DevicePolicy { version: 1, rules: vec![gpu_rule(), bridge] };
    assert!(both.admits(&hw(NVIDIA_VENDOR_ID, 1, 3, 0)));
    assert!(both.admits(&hw(NVIDIA_VENDOR_ID, 1, 6, 0)));
    assert!(!both.admits(&hw(NVIDIA_VENDOR_ID, 1, 2, 0)));
    assert_eq!(both.clone(), both);
    // Order and repetition change nothing.
    let shuffled = DevicePolicy { version: 1, rules: vec![bridge, gpu_rule(), bridge] };
    for base_class in 0..=u8::MAX {
        let device = hw(NVIDIA_VENDOR_ID, 1, base_class, 0);
        assert_eq!(shuffled.admits(&device), both.admits(&device));
    }
}

#[test]
fn narrowing_a_policy_keeps_it_valid() {
    let bridge = PolicyRule { base_class: Some(6), ..gpu_rule() };
    let wide = DevicePolicy { version: 1, rules: vec![gpu_rule(), bridge] };
    assert!(wide.validate().is_ok());
    let narrow = DevicePolicy {
        version: 1,
        rules: vec![
            PolicyRule { sub_class: Some(2), ..gpu_rule() },
            PolicyRule { revision_id: Some(1), ..gpu_rule() },
        ],
    };
    assert!(narrow.validate().is_ok());
    for sub_class in 0..=u8::MAX {
        let device = hw(NVIDIA_VENDOR_ID, 1, 3, sub_class);
        assert!(!narrow.admits(&device) || wide.admits(&device));
    }
    assert!(DevicePolicy { version: 1, rules: Vec::new() }.validate().is_ok());
}

#[test]
fn entries_bound_rules() {
    let entry = CeilingEntry {
        vendor_id: Some(1),
        device_id: DeviceIdRange::inclusive(10, 20),
        base_class: None,
        sub_class: Some(2),
    };
    let rule = PolicyRule {
        vendor_id: Some(1),
        device_id: Some(DeviceIdRange::inclusive(10, 12)),
        sub_class: Some(2),
        ..open_rule()
    };
    assert!(entry.admits_rule(&rule));
    assert!(entry.admits_rule(&PolicyRule { base_class: Some(7), ..rule }));
    assert!(!entry.admits_rule(&PolicyRule { vendor_id: None, ..rule }));
    assert!(!entry.admits_rule(&PolicyRule { vendor_id: Some(2), ..rule }));
    assert!(!entry.admits_rule(&PolicyRule { sub_class: None, ..rule }));
    assert!(!entry.admits_rule(&PolicyRule { device_id: None, ..rule }));
    assert!(!entry.admits_rule(&PolicyRule {
        device_id: Some(DeviceIdRange::inclusive(10, 21)),
        ..rule
    }));
    // A rule that admits no device is within any entry.
    assert!(entry.admits_rule(&PolicyRule {
        device_id: Some(DeviceIdRange::inclusive(12, 10)),
        ..open_rule()
    }));
}

#[test]
fn ceiling_holds_displays_and_bridges() {
    let entries = capability_ceiling();
    assert_eq!(entries.len(), 2);
    assert_eq!(entries[0].vendor_id, Some(0x10DE));
    assert_eq!(entries[0].base_class, Some(0x03));
    assert_eq!(entries[1].vendor_id, Some(0x10DE));
    assert_eq!(entries[1].base_class, Some(0x06));
    assert!(entries[0].admits_rule(&gpu_rule()));
    assert!(!entries[1].admits_rule(&gpu_rule()));
}

#[test]
fn narrowing_a_rule_keeps_it_valid() {
    let narrow = PolicyRule {
        device_id: Some(DeviceIdRange::exact(0x2330)),
        sub_class: Some(2),
        revision_id: Some(1),
        ..gpu_rule()
    };
    for rule in [gpu_rule(), narrow] {
        let policy = DevicePolicy { version: SCHEMA_VERSION, rules: vec![rule] };
        assert!(policy.validate().is_ok());
    }
}

#[test]
fn first_rule_over_the_ceiling_is_blamed() {
    let policy = DevicePolicy {
        version: 1,
        rules: vec![gpu_rule(), open_rule(), open_rule()],
    };
    assert!(matches!(
        policy.validate(),
        Err(DevicePolicyError::RuleExceedsCeiling(1))
    ));
    let policy = DevicePolicy { version: 0, ..policy };
    assert!(matches!(
        policy.validate(),
        Err(DevicePolicyError::UnsupportedVersion(0))
    ));
}

#[test]
fn load_parsed_validates_and_passes_errors_on() {
    let policy = DevicePolicy { version: 1, rules: vec![gpu_rule()] };
    assert_eq!(load_parsed(Ok(policy.clone())).unwrap(), policy);
    assert!(matches!(
        load_parsed(Ok(DevicePolicy { version: 3, ..policy })),
        Err(DevicePolicyError::UnsupportedVersion(3))
    ));
    assert!(matches!(
        load_parsed(Err(DevicePolicyError::Parse("why".to_string()))),
        Err(DevicePolicyError::Parse(text)) if text == "why"
    ));
}

#[test]
fn errors_say_what_went_wrong() {
    assert_eq!(
        DevicePolicyError::Parse("EOF".to_string()).describe(),
        "failed to parse device policy: EOF"
    );
    assert_eq!(
        DevicePolicyError::UnsupportedVersion(4294967295).describe(),
        "unsupported device policy version 4294967295 (expected 1)"
    );
    assert_eq!(
        DevicePolicyError::RuleExceedsCeiling(10).describe(),
        "device policy rule 10 exceeds the capability ceiling"
    );
    assert_eq!(
        LoadError::Policy(DevicePolicyError::RuleExceedsCeiling(0)).describe(),
        "device policy rule 0 exceeds the capability ceiling"
    );
}
