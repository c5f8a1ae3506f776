//! Which devices a rule, a policy and the ceiling let through, field by field.

use crate::device_policy::CeilingEntry;
use crate::device_policy::DeviceIdRange;
use crate::device_policy::DevicePolicyError;
use crate::device_policy::PolicyModel;
use crate::device_policy::PolicyRule;
use crate::device_policy::CLASS_BRIDGE;
use crate::device_policy::CLASS_DISPLAY_CONTROLLER;
use crate::device_policy::NVIDIA_VENDOR_ID;
use crate::device_policy::SCHEMA_VERSION;
use crate::hwid::HardwareIds;
use vstd::prelude::*;

verus! {

/// A range holds exactly the IDs between its bounds, both of them included; a bound
/// that is left open holds nothing back.
pub proof fn law_range_holds_what_lies_between(range: DeviceIdRange, id: u16)
    ensures
        range.start matches Some(start) && id < start ==> !range.holds(id),
        range.end matches Some(end) && end < id ==> !range.holds(id),
        !range.holds(id) ==> {
            ||| range.start matches Some(start) && id < start
            ||| range.end matches Some(end) && end < id
        },
        range.start is None && range.end is None ==> range.holds(id),
{
}

/// What lies between two IDs of a range is in the range.
pub proof fn law_range_has_no_gap(range: DeviceIdRange, low: u16, id: u16, high: u16)
    requires
        range.holds(low),
        range.holds(high),
        low <= id <= high,
    ensures
        range.holds(id),
{
}

/// Taking a bound away loses no ID, and only lets in what lay beyond it.
pub proof fn law_open_end_lets_more_in(range: DeviceIdRange, id: u16)
    ensures
        ({
            let open_below = DeviceIdRange { start: None, end: range.end };
            let open_above = DeviceIdRange { start: range.start, end: None };
            &&& range.holds(id) <==> open_below.holds(id) && open_above.holds(id)
            &&& range.holds(id) <==> open_below.holds(id) && (range.start matches Some(start)
                ==> start <= id)
            &&& range.holds(id) <==> open_above.holds(id) && (range.end matches Some(end) ==> id
                <= end)
        }),
{
}

/// A range is within another one exactly where it is the wrong way round, or
/// neither its least nor its greatest ID lies beyond a bound of the other.
pub proof fn law_range_within_by_its_ends(range: DeviceIdRange, other: DeviceIdRange)
    ensures
        ({
            let least: u16 = match range.start {
                Some(start) => start,
                None => 0,
            };
            let greatest: u16 = match range.end {
                Some(end) => end,
                None => u16::MAX,
            };
            range.within(other) <==> {
                ||| least > greatest
                ||| {
                    &&& other.start matches Some(start) ==> start <= least
                    &&& other.end matches Some(end) ==> greatest <= end
                }
            }
        }),
        range.is_void() <==> {
            &&& range.start matches Some(start)
            &&& range.end matches Some(end)
            &&& end < start
        },
{
    let least: u16 = range.start.unwrap_or(0);
    let greatest: u16 = range.end.unwrap_or(u16::MAX);
    assert(least <= greatest ==> range.holds(least) && range.holds(greatest));
}

/// A device that a rule admits has the very value that the rule sets, in each field
/// that the rule sets, whatever the other fields are; and a device ID within the
/// bounds that the rule gives.
pub proof fn law_admitted_device_has_what_the_rule_sets(rule: PolicyRule, hw: HardwareIds)
    requires
        rule.admits_device(hw),
    ensures
        rule.vendor_id matches Some(value) ==> hw.vendor_id == value,
        rule.device_id matches Some(range) ==> (range.start matches Some(start) ==> start
            <= hw.device_id),
        rule.device_id matches Some(range) ==> (range.end matches Some(end) ==> hw.device_id
            <= end),
        rule.revision_id matches Some(value) ==> hw.revision_id == value,
        rule.prog_if matches Some(value) ==> hw.prog_if.0 == value,
        rule.sub_class matches Some(value) ==> hw.sub_class.0 == value,
        rule.base_class matches Some(value) ==> hw.base_class.0 == value,
        rule.sub_vendor_id matches Some(value) ==> hw.type0_sub_vendor_id == value,
        rule.sub_system_id matches Some(value) ==> hw.type0_sub_system_id == value,
{
}

/// A device that a rule does not admit differs from the rule in a field that the
/// rule sets. So a field that is not set is a wildcard.
pub proof fn law_refused_device_differs_from_the_rule(rule: PolicyRule, hw: HardwareIds)
    requires
        !rule.admits_device(hw),
    ensures
        ({
            ||| rule.vendor_id matches Some(value) && hw.vendor_id != value
            ||| rule.device_id matches Some(range) && (range.start matches Some(start)
                && hw.device_id < start)
            ||| rule.device_id matches Some(range) && (range.end matches Some(end) && end
                < hw.device_id)
            ||| rule.revision_id matches Some(value) && hw.revision_id != value
            ||| rule.prog_if matches Some(value) && hw.prog_if.0 != value
            ||| rule.sub_class matches Some(value) && hw.sub_class.0 != value
            ||| rule.base_class matches Some(value) && hw.base_class.0 != value
            ||| rule.sub_vendor_id matches Some(value) && hw.type0_sub_vendor_id != value
            ||| rule.sub_system_id matches Some(value) && hw.type0_sub_system_id != value
        }),
{
}

/// A rule looks at no field that it does not set: two devices that are the same in
/// all fields that the rule sets are both admitted or both refused.
pub proof fn law_rule_ignores_what_it_does_not_set(
    rule: PolicyRule,
    hw: HardwareIds,
    other: HardwareIds,
)
    requires
        rule.vendor_id is Some ==> hw.vendor_id == other.vendor_id,
        rule.device_id is Some ==> hw.device_id == other.device_id,
        rule.revision_id is Some ==> hw.revision_id == other.revision_id,
        rule.prog_if is Some ==> hw.prog_if == other.prog_if,
        rule.sub_class is Some ==> hw.sub_class == other.sub_class,
        rule.base_class is Some ==> hw.base_class == other.base_class,
        rule.sub_vendor_id is Some ==> hw.type0_sub_vendor_id == other.type0_sub_vendor_id,
        rule.sub_system_id is Some ==> hw.type0_sub_system_id == other.type0_sub_system_id,
    ensures
        rule.admits_device(hw) == rule.admits_device(other),
{
}

/// The rule without any field.
pub open spec fn open_rule() -> PolicyRule {
    PolicyRule {
        vendor_id: None,
        device_id: None,
        revision_id: None,
        prog_if: None,
        sub_class: None,
        base_class: None,
        sub_vendor_id: None,
        sub_system_id: None,
    }
}

/// Each field of a rule counts on its own: a rule admits a device exactly where
/// each of its fields, alone in a rule, does.
pub proof fn law_fields_count_one_by_one(rule: PolicyRule, hw: HardwareIds)
    ensures
        rule.admits_device(hw) <==> {
            &&& (PolicyRule { vendor_id: rule.vendor_id, ..open_rule() }).admits_device(hw)
            &&& (PolicyRule { device_id: rule.device_id, ..open_rule() }).admits_device(hw)
            &&& (PolicyRule { revision_id: rule.revision_id, ..open_rule() }).admits_device(hw)
            &&& (PolicyRule { prog_if: rule.prog_if, ..open_rule() }).admits_device(hw)
            &&& (PolicyRule { sub_class: rule.sub_class, ..open_rule() }).admits_device(hw)
            &&& (PolicyRule { base_class: rule.base_class, ..open_rule() }).admits_device(hw)
            &&& (PolicyRule { sub_vendor_id: rule.sub_vendor_id, ..open_rule() }).admits_device(hw)
            &&& (PolicyRule { sub_system_id: rule.sub_system_id, ..open_rule() }).admits_device(hw)
        },
{
}

/// A device that a policy admits agrees with one and the same rule in every field
/// that this rule sets, each field on its own.
pub proof fn law_admitted_device_agrees_with_some_rule(policy: PolicyModel, hw: HardwareIds)
    requires
        policy.admits_device(hw),
    ensures
        exists|i: int|
            {
                &&& 0 <= i < policy.rules.len()
                &&& (#[trigger] policy.rules[i]).vendor_id matches Some(value) ==> hw.vendor_id
                    == value
                &&& policy.rules[i].device_id matches Some(range) ==> {
                    &&& range.start matches Some(start) ==> start <= hw.device_id
                    &&& range.end matches Some(end) ==> hw.device_id <= end
                }
                &&& policy.rules[i].revision_id matches Some(value) ==> hw.revision_id == value
                &&& policy.rules[i].prog_if matches Some(value) ==> hw.prog_if.0 == value
                &&& policy.rules[i].sub_class matches Some(value) ==> hw.sub_class.0 == value
                &&& policy.rules[i].base_class matches Some(value) ==> hw.base_class.0 == value
                &&& policy.rules[i].sub_vendor_id matches Some(value) ==> hw.type0_sub_vendor_id
                    == value
                &&& policy.rules[i].sub_system_id matches Some(value) ==> hw.type0_sub_system_id
                    == value
            },
{
    let i = choose|i: int|
        0 <= i < policy.rules.len() && (#[trigger] policy.rules[i]).admits_device(hw);
    law_admitted_device_has_what_the_rule_sets(policy.rules[i], hw);
}

/// A device that agrees with some rule of a policy in every field that the rule
/// sets is admitted, wherever the rule stands and whatever the other rules are.
pub proof fn law_agreeing_device_is_admitted(policy: PolicyModel, i: int, hw: HardwareIds)
    requires
        0 <= i < policy.rules.len(),
        policy.rules[i].vendor_id matches Some(value) ==> hw.vendor_id == value,
        policy.rules[i].device_id matches Some(range) ==> (range.start matches Some(start)
            ==> start <= hw.device_id),
        policy.rules[i].device_id matches Some(range) ==> (range.end matches Some(end)
            ==> hw.device_id <= end),
        policy.rules[i].revision_id matches Some(value) ==> hw.revision_id == value,
        policy.rules[i].prog_if matches Some(value) ==> hw.prog_if.0 == value,
        policy.rules[i].sub_class matches Some(value) ==> hw.sub_class.0 == value,
        policy.rules[i].base_class matches Some(value) ==> hw.base_class.0 == value,
        policy.rules[i].sub_vendor_id matches Some(value) ==> hw.type0_sub_vendor_id == value,
        policy.rules[i].sub_system_id matches Some(value) ==> hw.type0_sub_system_id == value,
    ensures
        policy.admits_device(hw),
        policy.rules[i].admits_device(hw),
{
    if !policy.rules[i].admits_device(hw) {
        law_refused_device_differs_from_the_rule(policy.rules[i], hw);
    }
    assert(policy.rules[i].admits_device(hw));
}

/// A policy with one rule admits what the rule admits, whatever its version.
pub proof fn law_policy_of_one_rule(policy: PolicyModel, hw: HardwareIds)
    requires
        policy.rules.len() == 1,
    ensures
        policy.admits_device(hw) == policy.rules[0].admits_device(hw),
{
    if policy.rules[0].admits_device(hw) {
        assert(policy.admits_device(hw));
    }
}

/// An entry of the ceiling covers a rule exactly where every device that agrees
/// with the rule has what the entry demands.
pub proof fn law_entry_covers_by_devices(entry: CeilingEntry, rule: PolicyRule)
    ensures
        entry.covers(rule) <==> forall|hw: HardwareIds| #[trigger]
            rule.admits_device(hw) ==> {
                &&& entry.vendor_id matches Some(value) ==> hw.vendor_id == value
                &&& entry.device_id.start matches Some(start) ==> start <= hw.device_id
                &&& entry.device_id.end matches Some(end) ==> hw.device_id <= end
                &&& entry.base_class matches Some(value) ==> hw.base_class.0 == value
                &&& entry.sub_class matches Some(value) ==> hw.sub_class.0 == value
            },
{
}

/// An entry of the ceiling covers a rule exactly where the rule's device-ID range
/// is the wrong way round, or the rule sets each value that the entry demands and
/// does not reach beyond the entry's device IDs.
pub proof fn law_entry_covers_by_fields(entry: CeilingEntry, rule: PolicyRule)
    ensures
        ({
            let least: u16 = match rule.device_id {
                Some(range) => match range.start {
                    Some(start) => start,
                    None => 0,
                },
                None => 0,
            };
            let greatest: u16 = match rule.device_id {
                Some(range) => match range.end {
                    Some(end) => end,
                    None => u16::MAX,
                },
                None => u16::MAX,
            };
            entry.covers(rule) <==> {
                ||| least > greatest
                ||| {
                    &&& entry.vendor_id matches Some(value) ==> rule.vendor_id == Some(value)
                    &&& entry.base_class matches Some(value) ==> rule.base_class == Some(value)
                    &&& entry.sub_class matches Some(value) ==> rule.sub_class == Some(value)
                    &&& entry.device_id.start matches Some(start) ==> start <= least
                    &&& entry.device_id.end matches Some(end) ==> greatest <= end
                }
            }
        }),
{
    crate::device_policy::law_cover_is_field_by_field(entry, rule);
    law_range_within_by_its_ends(rule.device_ids(), entry.device_id);
}

/// A rule is within the ceiling exactly where its device-ID range is the wrong way
/// round, or it sets NVIDIA as the vendor and one of the two base classes.
pub proof fn law_rule_within_ceiling_by_fields(rule: PolicyRule)
    ensures
        crate::device_policy::within_ceiling(rule) <==> {
            ||| rule.device_id matches Some(range) && (range.start matches Some(start) && (
            range.end matches Some(end) && end < start))
            ||| rule.vendor_id == Some(NVIDIA_VENDOR_ID) && (rule.base_class == Some(
                CLASS_DISPLAY_CONTROLLER,
            ) || rule.base_class == Some(CLASS_BRIDGE))
        },
{
    crate::laws::law_ceiling_pins_vendor_and_class(rule);
}

/// A policy that validates has the schema version of this build, and no other.
pub proof fn law_valid_policy_has_the_schema_version(policy: PolicyModel)
    requires
        policy.has_verdict(Ok(())) || policy.is_valid(),
    ensures
        policy.version == SCHEMA_VERSION,
{
}

/// A policy of any other version is refused for its version, whatever its rules,
/// and for nothing else.
pub proof fn law_other_version_is_refused(
    policy: PolicyModel,
    verdict: Result<(), DevicePolicyError>,
)
    requires
        policy.version != SCHEMA_VERSION,
    ensures
        policy.has_verdict(Err(DevicePolicyError::UnsupportedVersion(policy.version))),
        policy.has_verdict(verdict) ==> verdict == Err::<(), DevicePolicyError>(
            DevicePolicyError::UnsupportedVersion(policy.version),
        ),
        !policy.is_valid(),
{
}

/// A policy is refused for its version only where the version is another one, and
/// the error gives the policy's own version.
pub proof fn law_version_error_is_justified(policy: PolicyModel, version: u32)
    requires
        policy.has_verdict(Err(DevicePolicyError::UnsupportedVersion(version))),
    ensures
        version == policy.version,
        version != SCHEMA_VERSION,
{
}

/// A policy of this build's version validates exactly where each rule that could
/// admit a device admits only display controllers and bridges of NVIDIA.
pub proof fn law_policy_validates_by_its_devices(policy: PolicyModel)
    requires
        policy.version == SCHEMA_VERSION,
    ensures
        policy.has_verdict(Ok(())) <==> forall|i: int, hw: HardwareIds|
            0 <= i < policy.rules.len() && #[trigger] policy.rules[i].admits_device(hw)
                ==> hw.vendor_id == NVIDIA_VENDOR_ID && (hw.base_class.0
                == CLASS_DISPLAY_CONTROLLER || hw.base_class.0 == CLASS_BRIDGE),
        policy.is_valid() == policy.has_verdict(Ok(())),
{
    assert forall|i: int, hw: HardwareIds|
        policy.is_valid() && 0 <= i < policy.rules.len()
            && #[trigger] policy.rules[i].admits_device(
            hw,
        ) implies hw.vendor_id == NVIDIA_VENDOR_ID && (hw.base_class.0 == CLASS_DISPLAY_CONTROLLER
        || hw.base_class.0 == CLASS_BRIDGE) by {
        crate::laws::law_rule_within_ceiling(policy.rules[i]);
        crate::laws::law_ceiling_devices(hw);
    }
    if !policy.is_valid() {
        let i = choose|i: int|
            0 <= i < policy.rules.len() && !crate::device_policy::within_ceiling(
                #[trigger] policy.rules[i],
            );
        crate::laws::law_rule_within_ceiling(policy.rules[i]);
        let hw = choose|hw: HardwareIds| #[trigger]
            policy.rules[i].admits_device(hw) && !crate::device_policy::ceiling_admits(hw);
        crate::laws::law_ceiling_devices(hw);
    }
}

/// Among policies of this build's version, rule `index` is blamed exactly where its
/// device-ID range is not the wrong way round and it does not set NVIDIA as the
/// vendor and one of the two base classes, while every rule before it passes.
pub proof fn law_first_rule_over_the_ceiling_is_blamed(policy: PolicyModel, index: usize)
    ensures
        policy.has_verdict(Err(DevicePolicyError::RuleExceedsCeiling(index))) <==> {
            &&& policy.version == SCHEMA_VERSION
            &&& index < policy.rules.len()
            &&& forall|i: int|
                0 <= i < index ==> {
                    ||| (#[trigger] policy.rules[i]).device_id matches Some(range) && (
                    range.start matches Some(start) && (range.end matches Some(end) && end
                        < start))
                    ||| policy.rules[i].vendor_id == Some(NVIDIA_VENDOR_ID) && (
                    policy.rules[i].base_class == Some(CLASS_DISPLAY_CONTROLLER)
                        || policy.rules[i].base_class == Some(CLASS_BRIDGE))
                }
            &&& policy.rules[index as int].vendor_id != Some(NVIDIA_VENDOR_ID) || (
            policy.rules[index as int].base_class != Some(CLASS_DISPLAY_CONTROLLER)
                && policy.rules[index as int].base_class != Some(CLASS_BRIDGE))
            &&& policy.rules[index as int].device_id matches Some(range) ==> (
            range.start matches Some(start) ==> (range.end matches Some(end) ==> start <= end))
        },
{
    assert forall|i: int| 0 <= i < policy.rules.len() implies crate::device_policy::within_ceiling(
        #[trigger] policy.rules[i],
    ) == {
        ||| policy.rules[i].device_id matches Some(range) && (range.start matches Some(start) && (
        range.end matches Some(end) && end < start))
        ||| policy.rules[i].vendor_id == Some(NVIDIA_VENDOR_ID) && (policy.rules[i].base_class
            == Some(CLASS_DISPLAY_CONTROLLER) || policy.rules[i].base_class == Some(CLASS_BRIDGE))
    } by {
        law_rule_within_ceiling_by_fields(policy.rules[i]);
    }
}

/// Validation refuses a policy for its version or its rules, never for its form.
pub proof fn law_validation_never_blames_the_form(policy: PolicyModel, text: String)
    ensures
        !policy.has_verdict(Err(DevicePolicyError::Parse(text))),
{
}

/// Every policy whose rules can be counted has a verdict.
pub proof fn law_every_policy_has_a_verdict(policy: PolicyModel)
    requires
        policy.rules.len() <= usize::MAX,
    ensures
        exists|verdict: Result<(), DevicePolicyError>| #[trigger] policy.has_verdict(verdict),
{
    if policy.version != SCHEMA_VERSION {
        law_other_version_is_refused(policy, Ok(()));
    } else if policy.is_valid() {
        assert(policy.has_verdict(Ok(())));
    } else {
        let i = choose|i: int|
            0 <= i < policy.rules.len() && !crate::device_policy::within_ceiling(
                #[trigger] policy.rules[i],
            );
        lemma_first_excess(policy, i);
        let index = choose|index: int|
            0 <= index <= usize::MAX && #[trigger] policy.first_excess(index);
        assert(policy.has_verdict(Err(DevicePolicyError::RuleExceedsCeiling(index as usize))));
    }
}

proof fn lemma_first_excess(policy: PolicyModel, i: int)
    requires
        0 <= i < policy.rules.len() <= usize::MAX,
        !crate::device_policy::within_ceiling(policy.rules[i]),
    ensures
        exists|index: int| 0 <= index <= usize::MAX && #[trigger] policy.first_excess(index),
    decreases i,
{
    if exists|j: int|
        0 <= j < i && !crate::device_policy::within_ceiling(#[trigger] policy.rules[j]) {
        let j = choose|j: int|
            0 <= j < i && !crate::device_policy::within_ceiling(#[trigger] policy.rules[j]);
        lemma_first_excess(policy, j);
    } else {
        assert(policy.first_excess(i));
    }
}

/// Changing the version of a policy changes nothing about the devices that its
/// rules describe.
pub proof fn law_version_has_no_say_in_admission(
    policy: PolicyModel,
    other: PolicyModel,
    hw: HardwareIds,
)
    requires
        policy.rules == other.rules,
    ensures
        policy.admits_device(hw) == other.admits_device(hw),
{
}

} // verus!
