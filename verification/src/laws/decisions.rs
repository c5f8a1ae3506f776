//! What the decisions on ranges, rules and policies come to, in terms of what goes
//! into them.

use crate::device_policy::CeilingEntry;
use crate::device_policy::DeviceIdRange;
use crate::device_policy::DevicePolicy;
use crate::device_policy::PolicyRule;
use crate::hwid::HardwareIds;
use vstd::prelude::*;

verus! {

/// The three ways to make a range: without bounds, for a single ID, and from one
/// ID to another, both included.
pub proof fn law_made_ranges_contain(id: u16, start: u16, end: u16, other: u16)
    ensures
        DeviceIdRange::any().contains(other),
        DeviceIdRange::exact(id).contains(other) <==> other == id,
        DeviceIdRange::inclusive(start, end).contains(other) <==> start <= other && other <= end,
{
}

/// A range made of two bounds gives them back, and one without bounds gives none.
pub proof fn law_made_ranges_have_their_bounds(id: u16, start: u16, end: u16)
    ensures
        DeviceIdRange::any().start is None && DeviceIdRange::any().end is None,
        DeviceIdRange::exact(id) == DeviceIdRange::inclusive(id, id),
        DeviceIdRange::inclusive(start, end).start == Some(start),
        DeviceIdRange::inclusive(start, end).end == Some(end),
{
}

/// Whether a range contains an ID is decided by comparing the ID with each bound
/// that there is.
pub proof fn law_contains_compares_with_the_bounds(range: DeviceIdRange, id: u16)
    ensures
        range.contains(id) <==> {
            &&& range.start matches Some(start) ==> start <= id
            &&& range.end matches Some(end) ==> id <= end
        },
{
}

/// A range is empty exactly where it contains no ID, and a subset of another exactly
/// where that one contains each of its IDs.
pub proof fn law_ranges_are_sets_of_ids(range: DeviceIdRange, other: DeviceIdRange)
    ensures
        range.is_empty() <==> forall|id: u16| !#[trigger] range.contains(id),
        range.is_subset_of(&other) <==> forall|id: u16| #[trigger]
            range.contains(id) ==> other.contains(id),
        range.is_subset_of(&other) && other.is_empty() ==> range.is_empty(),
{
    crate::laws::admission::law_range_within_by_its_ends(range, other);
    if range.is_void() {
        assert forall|id: u16| !#[trigger] range.contains(id) by {
            assert(!range.holds(id));
        }
    }
    if forall|id: u16| !#[trigger] range.contains(id) {
        assert forall|id: u16| !#[trigger] range.holds(id) by {
            assert(!range.contains(id));
        }
    }
    if range.within(other) {
        assert forall|id: u16| #[trigger] range.contains(id) implies other.contains(id) by {
            assert(range.holds(id));
        }
    }
    if forall|id: u16| #[trigger] range.contains(id) ==> other.contains(id) {
        assert forall|id: u16| #[trigger] range.holds(id) implies other.holds(id) by {
            assert(range.contains(id));
        }
    }
    if range.within(other) && other.is_void() {
        assert forall|id: u16| !#[trigger] range.holds(id) by {
            assert(!other.holds(id));
        }
    }
}

/// A rule matches a device exactly where the device has the value that the rule
/// sets in each field that it sets, and a device ID that the rule's range contains.
pub proof fn law_rule_matches_field_by_field(rule: PolicyRule, hw: HardwareIds)
    ensures
        rule.matches(&hw) <==> {
            &&& rule.vendor_id matches Some(value) ==> value == hw.vendor_id
            &&& rule.device_id matches Some(range) ==> range.contains(hw.device_id)
            &&& rule.revision_id matches Some(value) ==> value == hw.revision_id
            &&& rule.prog_if matches Some(value) ==> value == hw.prog_if.0
            &&& rule.sub_class matches Some(value) ==> value == hw.sub_class.0
            &&& rule.base_class matches Some(value) ==> value == hw.base_class.0
            &&& rule.sub_vendor_id matches Some(value) ==> value == hw.type0_sub_vendor_id
            &&& rule.sub_system_id matches Some(value) ==> value == hw.type0_sub_system_id
        },
{
}

/// A policy admits a device exactly where one of its rules matches it.
pub proof fn law_policy_admits_by_a_rule(policy: DevicePolicy, hw: HardwareIds)
    ensures
        policy.admits(&hw) <==> exists|i: int|
            0 <= i < policy.rules@.len() && (#[trigger] policy.rules@[i]).matches(&hw),
{
    if policy.admits(&hw) {
        let i = choose|i: int|
            0 <= i < policy@.rules.len() && (#[trigger] policy@.rules[i]).admits_device(hw);
        assert(policy.rules@[i].matches(&hw));
    }
    if exists|i: int|
        0 <= i < policy.rules@.len() && (#[trigger] policy.rules@[i]).matches(&hw) {
        let i = choose|i: int|
            0 <= i < policy.rules@.len() && (#[trigger] policy.rules@[i]).matches(&hw);
        assert(policy@.rules[i].admits_device(hw));
    }
}

/// An entry of the ceiling admits a rule exactly where each device that the rule
/// matches has what the entry demands.
pub proof fn law_entry_admits_rules_by_their_devices(entry: CeilingEntry, rule: PolicyRule)
    ensures
        entry.admits_rule(&rule) <==> forall|hw: HardwareIds| #[trigger]
            rule.matches(&hw) ==> {
                &&& entry.vendor_id matches Some(value) ==> value == hw.vendor_id
                &&& entry.device_id.contains(hw.device_id)
                &&& entry.base_class matches Some(value) ==> value == hw.base_class.0
                &&& entry.sub_class matches Some(value) ==> value == hw.sub_class.0
            },
{
    crate::laws::admission::law_entry_covers_by_devices(entry, rule);
    if entry.covers(rule) {
        assert forall|hw: HardwareIds| #[trigger] rule.matches(&hw) implies {
            &&& entry.vendor_id matches Some(value) ==> value == hw.vendor_id
            &&& entry.device_id.contains(hw.device_id)
            &&& entry.base_class matches Some(value) ==> value == hw.base_class.0
            &&& entry.sub_class matches Some(value) ==> value == hw.sub_class.0
        } by {
            assert(rule.admits_device(hw));
        }
    }
    if forall|hw: HardwareIds| #[trigger]
        rule.matches(&hw) ==> {
            &&& entry.vendor_id matches Some(value) ==> value == hw.vendor_id
            &&& entry.device_id.contains(hw.device_id)
            &&& entry.base_class matches Some(value) ==> value == hw.base_class.0
            &&& entry.sub_class matches Some(value) ==> value == hw.sub_class.0
        } {
        assert forall|hw: HardwareIds| #[trigger] rule.admits_device(hw) implies {
            &&& entry.vendor_id matches Some(value) ==> hw.vendor_id == value
            &&& entry.device_id.start matches Some(start) ==> start <= hw.device_id
            &&& entry.device_id.end matches Some(end) ==> hw.device_id <= end
            &&& entry.base_class matches Some(value) ==> hw.base_class.0 == value
            &&& entry.sub_class matches Some(value) ==> hw.sub_class.0 == value
        } by {
            assert(rule.matches(&hw));
        }
    }
}

} // verus!
