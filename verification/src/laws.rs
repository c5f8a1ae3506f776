//! What holds of the library as a whole.
//!
//! - [`decisions`] and [`admission`] say which IDs a range contains, which devices a
//!   rule, a policy and the ceiling let through, and which policies are valid.
//! - [`text`], [`decoding`] and [`meaning`] say what a document is read as, from its
//!   bytes to the policy.
//! - [`loading`] says how authenticating, parsing and validating hang together.
//! - [`wording`] says what the errors tell.

use crate::device_policy::DeviceIdRange;
use crate::device_policy::DevicePolicy;
use crate::device_policy::DevicePolicyError;
use crate::device_policy::PolicyModel;
use crate::device_policy::PolicyRule;
use crate::device_policy::CLASS_BRIDGE;
use crate::device_policy::CLASS_DISPLAY_CONTROLLER;
use crate::device_policy::NVIDIA_VENDOR_ID;
use crate::framework::LoadError;
use crate::framework::MeasuredPolicy;
use crate::framework::PolicyVerifier;
use crate::framework::VerificationError;
use crate::hwid::HardwareIds;
use crate::json::ItemModel;
use crate::layout::JsonItem;
use crate::layout::JsonValue;
use crate::measurement::MeasuredPolicyVerifier;
use vstd::prelude::*;

pub mod admission;
pub mod decisions;
pub mod decoding;
pub mod loading;
pub mod meaning;
pub mod text;
pub mod wording;

verus! {

/// A load hands out a policy only if the verifier vouched for some payload, the
/// payload parses to that policy, and the policy passed its validation.
pub proof fn law_loaded_policy_passed_every_stage<P: MeasuredPolicy, V: PolicyVerifier + ?Sized>(
    verifier: &V,
    blob: Seq<u8>,
    policy: P,
)
    requires
        crate::framework::may_load(verifier, blob, Ok::<P, LoadError<P::Error>>(policy)),
    ensures
        policy.may_validate(Ok(())),
        exists|trusted: Seq<u8>| #[trigger]
            verifier.may_verify(blob, Ok(trusted)) && P::may_parse(trusted, Ok(policy)),
{
    let trusted = choose|trusted: Seq<u8>| #[trigger]
        verifier.may_verify(blob, Ok(trusted)) && crate::framework::may_load_trusted(
            trusted,
            Ok::<P, LoadError<P::Error>>(policy),
        );
    assert(verifier.may_verify(blob, Ok(trusted)));
}

/// A measured verifier refuses a blob exactly where the blob's digest is not the
/// expected one. Where it is, the load comes to what parsing and validating the
/// blob itself comes to.
pub proof fn law_measured_load<P: MeasuredPolicy>(
    verifier: &MeasuredPolicyVerifier,
    blob: Seq<u8>,
    outcome: Result<P, LoadError<P::Error>>,
)
    requires
        crate::framework::may_load(verifier, blob, outcome),
    ensures
        crate::measurement::sha384(blob) != verifier.expected() <==> outcome == Err::<
            P,
            LoadError<P::Error>,
        >(LoadError::Verification(VerificationError)),
        crate::measurement::sha384(blob) == verifier.expected()
            ==> crate::framework::may_load_trusted(blob, outcome),
{
}

/// A verifier that trusts the measurement of one blob answers for another blob
/// only if both have the same measurement.
pub proof fn law_substituted_blob_is_refused(
    verifier: &MeasuredPolicyVerifier,
    measured: Seq<u8>,
    blob: Seq<u8>,
    trusted: Seq<u8>,
)
    requires
        verifier.expected() == crate::measurement::sha384(measured),
        verifier.may_verify(blob, Ok(trusted)),
    ensures
        crate::measurement::sha384(blob) == crate::measurement::sha384(measured),
        trusted == blob,
{
}

/// The blob that a verifier was made for is never refused, and comes back as it
/// is.
pub proof fn law_measured_blob_is_trusted(
    verifier: &MeasuredPolicyVerifier,
    blob: Seq<u8>,
    outcome: Result<Seq<u8>, VerificationError>,
)
    requires
        verifier.expected() == crate::measurement::sha384(blob),
        verifier.may_verify(blob, outcome),
    ensures
        outcome == Ok::<Seq<u8>, VerificationError>(blob),
{
}

/// The ceiling admits the display controllers and the bridges of NVIDIA, and
/// nothing else.
pub proof fn law_ceiling_devices(hw: HardwareIds)
    ensures
        crate::device_policy::ceiling_admits(hw) <==> hw.vendor_id == NVIDIA_VENDOR_ID && (
        hw.base_class.0 == CLASS_DISPLAY_CONTROLLER || hw.base_class.0 == CLASS_BRIDGE),
{
    let entries = crate::device_policy::ceiling();
    if hw.vendor_id == NVIDIA_VENDOR_ID && hw.base_class.0 == CLASS_DISPLAY_CONTROLLER {
        assert(entries[0].admits_device(hw));
    }
    if hw.vendor_id == NVIDIA_VENDOR_ID && hw.base_class.0 == CLASS_BRIDGE {
        assert(entries[1].admits_device(hw));
    }
}

/// A rule is within the ceiling exactly where it admits no device that the ceiling
/// does not admit.
pub proof fn law_rule_within_ceiling(rule: PolicyRule)
    ensures
        crate::device_policy::within_ceiling(rule) <==> forall|hw: HardwareIds| #[trigger]
            rule.admits_device(hw) ==> crate::device_policy::ceiling_admits(hw),
{
    law_ceiling_pins_vendor_and_class(rule);
    assert forall|hw: HardwareIds|
        crate::device_policy::within_ceiling(rule) && #[trigger] rule.admits_device(
            hw,
        ) implies crate::device_policy::ceiling_admits(hw) by {
        law_ceiling_devices(hw);
    }
    if !crate::device_policy::within_ceiling(rule) {
        let id = choose|id: u16| #[trigger] rule.device_ids().holds(id);
        let hw = crate::device_policy::sample_device(rule, id, 0, 0, 0);
        assert(rule.admits_device(hw));
        law_ceiling_devices(hw);
    }
}

/// A rule is within the ceiling exactly where its device-ID range is the wrong way
/// round, or it pins NVIDIA as the vendor and one of the two base classes.
pub proof fn law_ceiling_pins_vendor_and_class(rule: PolicyRule)
    ensures
        crate::device_policy::within_ceiling(rule) <==> {
            ||| rule.device_ids().is_void()
            ||| rule.vendor_id == Some(NVIDIA_VENDOR_ID) && (rule.base_class == Some(
                CLASS_DISPLAY_CONTROLLER,
            ) || rule.base_class == Some(CLASS_BRIDGE))
        },
        rule.device_ids().is_void() <==> {
            &&& rule.device_ids().start matches Some(start)
            &&& rule.device_ids().end matches Some(end)
            &&& start > end
        },
{
    let entries = crate::device_policy::ceiling();
    crate::device_policy::law_cover_is_field_by_field(entries[0], rule);
    crate::device_policy::law_cover_is_field_by_field(entries[1], rule);
    let first: u16 = rule.device_ids().start.unwrap_or(0);
    let last: u16 = rule.device_ids().end.unwrap_or(u16::MAX);
    assert(first <= last ==> rule.device_ids().holds(first));
}

/// A policy may narrow the ceiling but never widen it: a valid policy admits no
/// device that the ceiling does not admit.
pub proof fn law_policy_never_widens_ceiling(policy: PolicyModel, hw: HardwareIds)
    requires
        policy.is_valid(),
        policy.admits_device(hw),
    ensures
        crate::device_policy::ceiling_admits(hw),
{
    let i = choose|i: int|
        0 <= i < policy.rules.len() && (#[trigger] policy.rules[i]).admits_device(hw);
    law_rule_within_ceiling(policy.rules[i]);
}

/// Whatever the root of trust, a device policy that was loaded admits no device
/// that the ceiling does not admit.
pub proof fn law_loaded_policy_stays_within_ceiling<V: PolicyVerifier + ?Sized>(
    verifier: &V,
    blob: Seq<u8>,
    policy: DevicePolicy,
    hw: HardwareIds,
)
    requires
        crate::framework::may_load(
            verifier,
            blob,
            Ok::<DevicePolicy, LoadError<DevicePolicyError>>(policy),
        ),
        policy@.admits_device(hw),
    ensures
        crate::device_policy::ceiling_admits(hw),
{
    law_loaded_policy_passed_every_stage(verifier, blob, policy);
    law_policy_never_widens_ceiling(policy@, hw);
}

/// A policy that was loaded without authentication stays within the ceiling all
/// the same.
pub proof fn law_unauthenticated_policy_stays_within_ceiling(
    bytes: Seq<u8>,
    policy: DevicePolicy,
    hw: HardwareIds,
)
    requires
        crate::device_policy::may_load_bytes(bytes, Ok(policy)),
        policy@.admits_device(hw),
    ensures
        crate::device_policy::ceiling_admits(hw),
{
    law_policy_never_widens_ceiling(policy@, hw);
}

/// Once the bytes are authenticated, loading a device policy through the framework
/// comes to what loading the same bytes without authentication comes to.
pub proof fn law_framework_adds_authentication_only(
    bytes: Seq<u8>,
    outcome: Result<DevicePolicy, LoadError<DevicePolicyError>>,
)
    requires
        crate::framework::may_load_trusted(bytes, outcome),
    ensures
        match outcome {
            Ok(policy) => crate::device_policy::may_load_bytes(bytes, Ok(policy)),
            Err(LoadError::Policy(error)) => {
                crate::device_policy::may_load_bytes(bytes, Err(error))
            },
            Err(LoadError::Verification(_)) => false,
        },
{
}

/// A document parses to the policy that it is laid out from, and is an error where
/// it is laid out from none.
pub proof fn law_document_parses(
    text: Seq<u8>,
    value: JsonValue,
    outcome: Result<DevicePolicy, DevicePolicyError>,
)
    requires
        crate::layout::lays_out(text, value),
        DevicePolicy::may_parse(text, outcome),
    ensures
        match outcome {
            Ok(policy) => crate::document::value_policy(value) == Some(policy@),
            Err(DevicePolicyError::Parse(_)) => crate::document::value_policy(value) is None,
            Err(_) => false,
        },
{
}

/// A document loads to the policy that it is laid out from where that is valid, and
/// otherwise gives the verdict on it, or an error of parsing where it is laid out
/// from none.
pub proof fn law_document_loads(
    text: Seq<u8>,
    value: JsonValue,
    outcome: Result<DevicePolicy, DevicePolicyError>,
)
    requires
        crate::layout::lays_out(text, value),
        crate::device_policy::may_load_bytes(text, outcome),
    ensures
        match crate::document::value_policy(value) {
            Some(policy) => match outcome {
                Ok(loaded) => policy.is_valid() && loaded@ == policy,
                Err(error) => !policy.is_valid() && policy.has_verdict(Err(error)),
            },
            None => outcome matches Err(DevicePolicyError::Parse(_)),
        },
{
}

/// The whitespace in a document makes no difference to what it decodes to.
pub proof fn law_whitespace_makes_no_difference(left: JsonValue, right: JsonValue)
    requires
        crate::layout::same_but_whitespace(left, right),
    ensures
        crate::document::value_policy(left) == crate::document::value_policy(right),
{
    crate::document::lemma_same_policy(left, right);
}

/// The order of an object's members makes no difference to what it decodes to: any
/// two of them may change places, in a policy, in a rule and in a range.
pub proof fn law_member_order_makes_no_difference(
    items: Seq<JsonItem>,
    gap: Seq<u8>,
    i: int,
    j: int,
)
    requires
        0 <= i < items.len(),
        0 <= j < items.len(),
    ensures
        ({
            let ordered = JsonValue::Items(true, items, gap);
            let reordered = JsonValue::Items(
                true,
                items.update(i, items[j]).update(j, items[i]),
                gap,
            );
            &&& crate::document::value_policy(reordered) == crate::document::value_policy(ordered)
            &&& crate::document::value_rule(reordered) == crate::document::value_rule(ordered)
            &&& crate::document::value_range(reordered) == crate::document::value_range(ordered)
        }),
{
    crate::record::lemma_member_order(items, gap, crate::schema::policy_names(), i, j);
    crate::record::lemma_member_order(items, gap, crate::schema::rule_names(), i, j);
    crate::record::lemma_member_order(items, gap, crate::schema::range_names(), i, j);
}

proof fn lemma_encoded_policy(policy: PolicyModel)
    ensures
        crate::layout::lays_out(
            crate::document::encoded_policy(policy),
            crate::document::policy_json(policy),
        ),
        crate::document::value_policy(crate::document::policy_json(policy)) == Some(policy),
{
    crate::document::lemma_policy_json(policy);
    crate::layout::lemma_lays_out_itself(crate::document::policy_json(policy));
}

/// Parsing what was written as a policy gives the same policy back: the same
/// version and the same rules in the same order.
pub proof fn law_written_policy_parses_back(
    policy: PolicyModel,
    outcome: Result<DevicePolicy, DevicePolicyError>,
)
    requires
        DevicePolicy::may_parse(crate::document::encoded_policy(policy), outcome),
    ensures
        outcome matches Ok(parsed) && parsed@ == policy,
{
    lemma_encoded_policy(policy);
}

/// Loading what was written as a policy gives a valid policy back, and the verdict
/// on any other.
pub proof fn law_written_policy_loads_back(
    policy: PolicyModel,
    outcome: Result<DevicePolicy, DevicePolicyError>,
)
    requires
        crate::device_policy::may_load_bytes(crate::document::encoded_policy(policy), outcome),
    ensures
        match outcome {
            Ok(loaded) => policy.is_valid() && loaded@ == policy,
            Err(error) => !policy.is_valid() && policy.has_verdict(Err(error)),
        },
{
    lemma_encoded_policy(policy);
}

/// A document that was measured and is laid out from a valid policy loads to that
/// policy through the framework.
pub proof fn law_measured_document_loads(
    verifier: &MeasuredPolicyVerifier,
    text: Seq<u8>,
    value: JsonValue,
    outcome: Result<DevicePolicy, LoadError<DevicePolicyError>>,
)
    requires
        crate::layout::lays_out(text, value),
        crate::document::value_policy(value) matches Some(policy) && policy.is_valid(),
        verifier.expected() == crate::measurement::sha384(text),
        crate::framework::may_load(verifier, text, outcome),
    ensures
        outcome matches Ok(loaded) && crate::document::value_policy(value) == Some(loaded@),
{
    law_measured_load(verifier, text, outcome);
    law_framework_adds_authentication_only(text, outcome);
    match outcome {
        Ok(loaded) => law_document_loads(text, value, Ok(loaded)),
        Err(LoadError::Policy(error)) => law_document_loads(text, value, Err(error)),
        _ => {},
    }
}

/// A valid policy that was written and measured loads back through the framework.
pub proof fn law_measured_policy_loads_back(
    verifier: &MeasuredPolicyVerifier,
    policy: PolicyModel,
    outcome: Result<DevicePolicy, LoadError<DevicePolicyError>>,
)
    requires
        policy.is_valid(),
        verifier.expected() == crate::measurement::sha384(crate::document::encoded_policy(policy)),
        crate::framework::may_load(verifier, crate::document::encoded_policy(policy), outcome),
    ensures
        outcome matches Ok(loaded) && loaded@ == policy,
{
    lemma_encoded_policy(policy);
    law_measured_document_loads(
        verifier,
        crate::document::encoded_policy(policy),
        crate::document::policy_json(policy),
        outcome,
    );
}

/// What two errors of a device policy have in common where they say the same.
pub open spec fn same_error(left: DevicePolicyError, right: DevicePolicyError) -> bool {
    match (left, right) {
        (DevicePolicyError::Parse(a), DevicePolicyError::Parse(b)) => a@ == b@,
        _ => left == right,
    }
}

/// The same bytes always load to the same policy or fail with the same error.
pub proof fn law_load_is_determined(
    bytes: Seq<u8>,
    left: Result<DevicePolicy, DevicePolicyError>,
    right: Result<DevicePolicy, DevicePolicyError>,
)
    requires
        crate::device_policy::may_load_bytes(bytes, left),
        crate::device_policy::may_load_bytes(bytes, right),
    ensures
        match (left, right) {
            (Ok(a), Ok(b)) => a@ == b@,
            (Err(a), Err(b)) => same_error(a, b),
            _ => false,
        },
{
    if let Some(model) = crate::schema::decoded_policy(bytes) {
        if let Err(a) = left {
            if let Err(b) = right {
                law_one_verdict(model, Err(a), Err(b));
            }
        }
    }
}

/// Validation has one verdict on a policy.
pub proof fn law_one_verdict(
    policy: PolicyModel,
    left: Result<(), DevicePolicyError>,
    right: Result<(), DevicePolicyError>,
)
    requires
        policy.has_verdict(left),
        policy.has_verdict(right),
    ensures
        left == right,
{
    match (left, right) {
        (
            Err(DevicePolicyError::RuleExceedsCeiling(a)),
            Err(DevicePolicyError::RuleExceedsCeiling(b)),
        ) => {
            if a < b {
                assert(crate::device_policy::within_ceiling(policy.rules[a as int]));
            }
            if b < a {
                assert(crate::device_policy::within_ceiling(policy.rules[b as int]));
            }
        },
        (Ok(a), Ok(b)) => {
            assert(a == () && b == ());
        },
        _ => {},
    }
}

/// A rule is blamed exactly where it would admit a device outside the ceiling and
/// no rule before it would.
pub proof fn law_blamed_rule_exceeds_ceiling(policy: PolicyModel, index: usize)
    requires
        policy.has_verdict(Err(DevicePolicyError::RuleExceedsCeiling(index))),
    ensures
        exists|hw: HardwareIds| #[trigger]
            policy.rules[index as int].admits_device(hw) && !crate::device_policy::ceiling_admits(
                hw,
            ),
        forall|i: int, hw: HardwareIds|
            0 <= i < index && #[trigger] policy.rules[i].admits_device(hw)
                ==> crate::device_policy::ceiling_admits(hw),
{
    law_rule_within_ceiling(policy.rules[index as int]);
    assert forall|i: int, hw: HardwareIds|
        0 <= i < index && #[trigger] policy.rules[i].admits_device(
            hw,
        ) implies crate::device_policy::ceiling_admits(hw) by {
        law_rule_within_ceiling(policy.rules[i]);
    }
}

/// Deny by default: a policy without rules admits no device.
pub proof fn law_deny_by_default(policy: PolicyModel, hw: HardwareIds)
    requires
        policy.rules.len() == 0,
    ensures
        !policy.admits_device(hw),
{
}

/// The rules of a policy add up: a policy whose rules are those of two others, in
/// any order and any number of times, admits what either of them admits. So no rule
/// takes back what another one admits.
pub proof fn law_rules_add_up(
    first: PolicyModel,
    second: PolicyModel,
    joined: PolicyModel,
    hw: HardwareIds,
)
    requires
        forall|rule: PolicyRule|
            #![trigger joined.rules.contains(rule)]
            #![trigger first.rules.contains(rule)]
            #![trigger second.rules.contains(rule)]
            joined.rules.contains(rule) <==> first.rules.contains(rule) || second.rules.contains(
                rule,
            ),
    ensures
        joined.admits_device(hw) <==> first.admits_device(hw) || second.admits_device(hw),
{
    lemma_admits_by_some_rule(first, hw);
    lemma_admits_by_some_rule(second, hw);
    lemma_admits_by_some_rule(joined, hw);
}

proof fn lemma_admits_by_some_rule(policy: PolicyModel, hw: HardwareIds)
    ensures
        policy.admits_device(hw) <==> exists|rule: PolicyRule| #[trigger]
            policy.rules.contains(rule) && rule.admits_device(hw),
{
    if policy.admits_device(hw) {
        let i = choose|i: int|
            0 <= i < policy.rules.len() && (#[trigger] policy.rules[i]).admits_device(hw);
        assert(policy.rules.contains(policy.rules[i]));
    }
    if exists|rule: PolicyRule| #[trigger]
        policy.rules.contains(rule) && rule.admits_device(hw) {
        let rule = choose|rule: PolicyRule| #[trigger]
            policy.rules.contains(rule) && rule.admits_device(hw);
        let i = choose|i: int| 0 <= i < policy.rules.len() && policy.rules[i] == rule;
        assert(policy.rules[i].admits_device(hw));
    }
}

/// A rule that sets no field admits every device.
pub proof fn law_wildcard_rule_admits_all(rule: PolicyRule, hw: HardwareIds)
    requires
        rule.vendor_id is None,
        rule.device_id is None,
        rule.revision_id is None,
        rule.prog_if is None,
        rule.sub_class is None,
        rule.base_class is None,
        rule.sub_vendor_id is None,
        rule.sub_system_id is None,
    ensures
        rule.admits_device(hw),
{
}

/// A rule that pins vendor, base class and subclass and sets nothing else admits
/// exactly the devices with these three values.
pub proof fn law_class_rule_admits_its_class(
    rule: PolicyRule,
    vendor_id: u16,
    base_class: u8,
    sub_class: u8,
    hw: HardwareIds,
)
    requires
        rule == (PolicyRule {
            vendor_id: Some(vendor_id),
            device_id: None,
            revision_id: None,
            prog_if: None,
            sub_class: Some(sub_class),
            base_class: Some(base_class),
            sub_vendor_id: None,
            sub_system_id: None,
        }),
    ensures
        rule.admits_device(hw) <==> hw.vendor_id == vendor_id && hw.base_class.0 == base_class
            && hw.sub_class.0 == sub_class,
{
}

/// Whether `narrow` sets every field that `wide` sets, and to the same value.
pub open spec fn refines(narrow: PolicyRule, wide: PolicyRule) -> bool {
    &&& crate::device_policy::pinned(wide.vendor_id, narrow.vendor_id)
    &&& crate::device_policy::pinned(wide.device_id, narrow.device_id)
    &&& crate::device_policy::pinned(wide.revision_id, narrow.revision_id)
    &&& crate::device_policy::pinned(wide.prog_if, narrow.prog_if)
    &&& crate::device_policy::pinned(wide.sub_class, narrow.sub_class)
    &&& crate::device_policy::pinned(wide.base_class, narrow.base_class)
    &&& crate::device_policy::pinned(wide.sub_vendor_id, narrow.sub_vendor_id)
    &&& crate::device_policy::pinned(wide.sub_system_id, narrow.sub_system_id)
}

/// Setting further fields narrows a rule.
pub proof fn law_set_fields_narrow(narrow: PolicyRule, wide: PolicyRule, hw: HardwareIds)
    requires
        refines(narrow, wide),
        narrow.admits_device(hw),
    ensures
        wide.admits_device(hw),
{
}

/// Narrowing a rule that is within the ceiling leaves it within the ceiling.
pub proof fn law_narrowed_rule_stays_within_ceiling(narrow: PolicyRule, wide: PolicyRule)
    requires
        refines(narrow, wide),
        crate::device_policy::within_ceiling(wide),
    ensures
        crate::device_policy::within_ceiling(narrow),
{
    law_rule_within_ceiling(wide);
    law_rule_within_ceiling(narrow);
    assert forall|hw: HardwareIds| #[trigger]
        narrow.admits_device(hw) implies crate::device_policy::ceiling_admits(hw) by {
        law_set_fields_narrow(narrow, wide, hw);
    }
}

/// Whether the rule refines some rule of `wide`.
pub open spec fn refines_some(rule: PolicyRule, wide: PolicyModel) -> bool {
    exists|i: int| 0 <= i < wide.rules.len() && refines(rule, #[trigger] wide.rules[i])
}

/// Whether every rule of `narrow` refines some rule of `wide`.
pub open spec fn policy_refines(narrow: PolicyModel, wide: PolicyModel) -> bool {
    forall|j: int|
        0 <= j < narrow.rules.len() ==> refines_some(#[trigger] narrow.rules[j], wide)
}

/// Narrowing a valid policy, rule by rule or by leaving rules out, leaves it valid
/// and admits no device that was not admitted before.
pub proof fn law_narrowed_policy_stays_valid(narrow: PolicyModel, wide: PolicyModel)
    requires
        wide.is_valid(),
        narrow.version == wide.version,
        policy_refines(narrow, wide),
    ensures
        narrow.is_valid(),
        forall|hw: HardwareIds| #[trigger] narrow.admits_device(hw) ==> wide.admits_device(hw),
{
    assert forall|j: int| 0 <= j < narrow.rules.len() implies crate::device_policy::within_ceiling(
        #[trigger] narrow.rules[j],
    ) by {
        let i = choose|i: int|
            0 <= i < wide.rules.len() && refines(narrow.rules[j], #[trigger] wide.rules[i]);
        law_narrowed_rule_stays_within_ceiling(narrow.rules[j], wide.rules[i]);
    }
    assert forall|hw: HardwareIds| #[trigger]
        narrow.admits_device(hw) implies wide.admits_device(hw) by {
        let j = choose|j: int|
            0 <= j < narrow.rules.len() && (#[trigger] narrow.rules[j]).admits_device(hw);
        let i = choose|i: int|
            0 <= i < wide.rules.len() && refines(narrow.rules[j], #[trigger] wide.rules[i]);
        law_set_fields_narrow(narrow.rules[j], wide.rules[i], hw);
    }
}

/// Every range is within itself and within the range without bounds, and being
/// within carries over.
pub proof fn law_ranges_are_ordered(a: DeviceIdRange, b: DeviceIdRange, c: DeviceIdRange)
    ensures
        a.within(a),
        a.within((DeviceIdRange { start: None, end: None })),
        a.within(b) && b.within(c) ==> a.within(c),
{
}

/// The range of a single ID is within another range exactly where that one holds
/// the ID.
pub proof fn law_exact_range_within(id: u16, range: DeviceIdRange)
    ensures
        (DeviceIdRange { start: Some(id), end: Some(id) }).within(range) <==> range.holds(id),
{
    assert((DeviceIdRange { start: Some(id), end: Some(id) }).holds(id));
}

/// Between ranges that hold an ID and do not spell the ends of the ID space out,
/// being within is a matter of comparing the bounds.
pub proof fn law_within_compares_bounds(a: DeviceIdRange, b: DeviceIdRange)
    requires
        !a.is_void(),
        b.start != Some(0u16),
        b.end != Some(u16::MAX),
    ensures
        a.within(b) <==> {
            &&& b.start matches Some(start) ==> a.start matches Some(own) && start <= own
            &&& b.end matches Some(end) ==> a.end matches Some(own) && own <= end
        },
{
    let first: u16 = a.start.unwrap_or(0);
    let last: u16 = a.end.unwrap_or(u16::MAX);
    assert(a.holds(first) && a.holds(last));
}

/// A field that is given as `null` is as good as one that is left out.
pub proof fn law_null_is_left_out(text: Seq<u8>)
    requires
        crate::json::is_word(text, crate::json::null_literal()),
    ensures
        crate::schema::decoded_u16(Some(text)) == crate::schema::decoded_u16(None),
        crate::schema::decoded_u8(Some(text)) == crate::schema::decoded_u8(None),
        crate::schema::decoded_range_field(Some(text)) == crate::schema::decoded_range_field(None),
{
}

/// In a record that gives no field twice, a field has the value that its item
/// gives.
pub proof fn law_field_has_given_value(items: Seq<ItemModel>, name: Seq<char>, i: int)
    requires
        !crate::record::gives_twice(items, name),
        0 <= i < items.len(),
        crate::record::gives(items[i], name),
    ensures
        crate::record::named_field(items, name) == Some(items[i].value),
{
    let j = choose|j: int| 0 <= j < items.len() && #[trigger] crate::record::gives(items[j], name);
    if i < j {
        assert(crate::record::gives(items[i], name) && crate::record::gives(items[j], name));
    }
}

/// A member that names none of the fields changes nothing, wherever it stands.
pub proof fn law_other_members_are_passed_over(
    items: Seq<ItemModel>,
    names: Seq<Seq<char>>,
    i: int,
)
    requires
        0 <= i < items.len(),
        forall|k: int| 0 <= k < names.len() ==> !crate::record::gives(items[i], #[trigger] names[k]),
    ensures
        crate::record::named_fields(items.remove(i), names) == crate::record::named_fields(
            items,
            names,
        ),
{
    let rest = items.remove(i);
    assert forall|k: int| 0 <= k < names.len() implies crate::record::gives_twice(
        rest,
        #[trigger] names[k],
    ) == crate::record::gives_twice(items, names[k]) && (!crate::record::gives_twice(
        items,
        names[k],
    ) ==> crate::record::named_field(rest, names[k]) == crate::record::named_field(
        items,
        names[k],
    )) by {
        lemma_remove_other(items, names[k], i);
    }
    if crate::record::named_fields(items, names) is Some {
        assert(crate::record::named_fields(rest, names)->0
            =~= crate::record::named_fields(items, names)->0);
    }
}

proof fn lemma_remove_other(items: Seq<ItemModel>, name: Seq<char>, i: int)
    requires
        0 <= i < items.len(),
        !crate::record::gives(items[i], name),
    ensures
        crate::record::gives_twice(items.remove(i), name) == crate::record::gives_twice(
            items,
            name,
        ),
        !crate::record::gives_twice(items, name) ==> crate::record::named_field(
            items.remove(i),
            name,
        ) == crate::record::named_field(items, name),
{
    let rest = items.remove(i);
    assert(forall|j: int| 0 <= j < i ==> rest[j] == items[j]);
    assert(forall|j: int| i <= j < rest.len() ==> rest[j] == items[j + 1]);
    if crate::record::gives_twice(items, name) {
        let (a, b) = choose|a: int, b: int|
            0 <= a < b < items.len() && #[trigger] crate::record::gives(items[a], name)
                && #[trigger] crate::record::gives(items[b], name);
        let a2 = if a < i { a } else { a - 1 };
        let b2 = if b < i { b } else { b - 1 };
        assert(crate::record::gives(rest[a2], name) && crate::record::gives(rest[b2], name));
    }
    if crate::record::gives_twice(rest, name) {
        let (a, b) = choose|a: int, b: int|
            0 <= a < b < rest.len() && #[trigger] crate::record::gives(rest[a], name)
                && #[trigger] crate::record::gives(rest[b], name);
        let a2 = if a < i { a } else { a + 1 };
        let b2 = if b < i { b } else { b + 1 };
        assert(crate::record::gives(items[a2], name) && crate::record::gives(items[b2], name));
    } else {
        if exists|j: int| 0 <= j < items.len() && #[trigger] crate::record::gives(items[j], name) {
            let j = choose|j: int|
                0 <= j < items.len() && #[trigger] crate::record::gives(items[j], name);
            let j2 = if j < i { j } else { j - 1 };
            assert(crate::record::gives(rest[j2], name));
            if !crate::record::gives_twice(items, name) {
                law_field_has_given_value(rest, name, j2);
                law_field_has_given_value(items, name, j);
            }
        } else {
            assert(forall|j: int|
                0 <= j < rest.len() ==> !#[trigger] crate::record::gives(rest[j], name));
        }
    }
}

} // verus!
