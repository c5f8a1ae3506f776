//! Device-admission policy for the VPCI relay.
//!
//! Implements the measured-policy framework for the "which host devices may be
//! relayed into a confidential guest" domain. A [`DevicePolicy`] extends the
//! relay's static allow list with additional admissions, bounded by a compiled-in
//! capability ceiling that a policy may narrow but never widen.

use crate::framework::MeasuredPolicy;
use crate::hwid::ClassCode;
use crate::hwid::HardwareIds;
use crate::hwid::ProgrammingInterface;
use crate::hwid::Subclass;
use crate::json::fault_of;
use crate::schema::decode_policy;
use vstd::prelude::*;

verus! {

/// PCI vendor ID of NVIDIA.
pub const NVIDIA_VENDOR_ID: u16 = 0x10DE;

/// PCI base class of display controllers.
pub const CLASS_DISPLAY_CONTROLLER: u8 = 0x03;

/// PCI base class of bridges.
pub const CLASS_BRIDGE: u8 = 0x06;

/// The policy schema version understood by this build.
pub const SCHEMA_VERSION: u32 = 1;

/// Whether a field of a rule lets `value` through: an unset field is a wildcard.
pub open spec fn permits<T>(field: Option<T>, value: T) -> bool {
    field is None || field == Some(value)
}

/// Whether a field of a rule is held to what a ceiling entry demands of it. An
/// entry that demands nothing leaves the field free; otherwise the rule has to
/// pin the very value.
pub open spec fn pinned<T>(demand: Option<T>, field: Option<T>) -> bool {
    demand is None || field == demand
}

fn permits_u16(field: Option<u16>, value: u16) -> (permitted: bool)
    ensures
        permitted == permits(field, value),
{
    match field {
        None => true,
        Some(wanted) => wanted == value,
    }
}

fn permits_u8(field: Option<u8>, value: u8) -> (permitted: bool)
    ensures
        permitted == permits(field, value),
{
    match field {
        None => true,
        Some(wanted) => wanted == value,
    }
}

fn pinned_u16(demand: Option<u16>, field: Option<u16>) -> (held: bool)
    ensures
        held == pinned(demand, field),
{
    match (demand, field) {
        (None, _) => true,
        (Some(wanted), Some(value)) => wanted == value,
        (Some(_), None) => false,
    }
}

fn pinned_u8(demand: Option<u8>, field: Option<u8>) -> (held: bool)
    ensures
        held == pinned(demand, field),
{
    match (demand, field) {
        (None, _) => true,
        (Some(wanted), Some(value)) => wanted == value,
        (Some(_), None) => false,
    }
}

/// An inclusive device-ID range. A `None` bound is open on that end, so a rule
/// can cover a whole GPU family and future SKUs within it.
#[derive(Debug, Copy, Clone, PartialEq, Eq, Structural)]
pub struct DeviceIdRange {
    /// Inclusive lower bound, or `None` for open-below.
    pub start: Option<u16>,
    /// Inclusive upper bound, or `None` for open-above.
    pub end: Option<u16>,
}

impl DeviceIdRange {
    /// Whether the range holds `id`.
    pub open spec fn holds(self, id: u16) -> bool {
        &&& self.start matches Some(start) ==> start <= id
        &&& self.end matches Some(end) ==> id <= end
    }

    /// Whether the range holds no ID at all.
    pub open spec fn is_void(self) -> bool {
        forall|id: u16| !#[trigger] self.holds(id)
    }

    /// Whether every ID that this range holds is held by `other` too.
    pub open spec fn within(self, other: DeviceIdRange) -> bool {
        forall|id: u16| #[trigger] self.holds(id) ==> other.holds(id)
    }

    /// Matches any device ID.
    #[verifier::allow_in_spec]
    pub fn any() -> (range: Self)
        ensures
            range == (DeviceIdRange { start: None, end: None }),
            forall|id: u16| range.holds(id),
        returns
            (DeviceIdRange { start: None, end: None }),
    {
        DeviceIdRange { start: None, end: None }
    }

    /// Matches a single device ID.
    #[verifier::allow_in_spec]
    pub fn exact(id: u16) -> (range: Self)
        ensures
            range == (DeviceIdRange { start: Some(id), end: Some(id) }),
            forall|other: u16| range.holds(other) <==> other == id,
        returns
            (DeviceIdRange { start: Some(id), end: Some(id) }),
    {
        DeviceIdRange { start: Some(id), end: Some(id) }
    }

    /// An inclusive `start..=end` range.
    #[verifier::allow_in_spec]
    pub fn inclusive(start: u16, end: u16) -> (range: Self)
        ensures
            range == (DeviceIdRange { start: Some(start), end: Some(end) }),
            forall|id: u16| range.holds(id) <==> start <= id <= end,
        returns
            (DeviceIdRange { start: Some(start), end: Some(end) }),
    {
        DeviceIdRange { start: Some(start), end: Some(end) }
    }

    /// Whether `id` falls within the range.
    #[verifier::allow_in_spec]
    pub fn contains(&self, id: u16) -> (contained: bool)
        ensures
            contained == self.holds(id),
        returns
            self.holds(id),
    {
        let above_start = match self.start {
            None => true,
            Some(start) => id >= start,
        };
        let below_end = match self.end {
            None => true,
            Some(end) => id <= end,
        };
        above_start && below_end
    }

    /// Whether no ID falls within the range.
    #[verifier::allow_in_spec]
    pub fn is_empty(&self) -> (empty: bool)
        ensures
            empty == self.is_void(),
            empty <==> (self.start matches Some(start) && self.end matches Some(end) && start
                > end),
        returns
            self.is_void(),
    {
        let start: u16 = self.start.unwrap_or(0);
        let end: u16 = self.end.unwrap_or(u16::MAX);
        assert(start <= end ==> self.holds(start));
        start > end
    }

    /// Whether every ID in `self` is also in `other`. A range that holds no ID is
    /// in every range.
    #[verifier::allow_in_spec]
    pub fn is_subset_of(&self, other: &DeviceIdRange) -> (subset: bool)
        ensures
            subset == self.within(*other),
        returns
            self.within(*other),
    {
        let start: u16 = self.start.unwrap_or(0);
        let end: u16 = self.end.unwrap_or(u16::MAX);
        assert(start <= end ==> self.holds(start) && self.holds(end));
        start > end || (other.contains(start) && other.contains(end))
    }
}

/// A single device-admission rule. Every populated field must match; `None`
/// fields are wildcards.
#[derive(Debug, Copy, Clone, PartialEq, Eq, Structural)]
pub struct PolicyRule {
    /// PCI vendor ID.
    pub vendor_id: Option<u16>,
    /// PCI device ID range.
    pub device_id: Option<DeviceIdRange>,
    /// PCI revision ID.
    pub revision_id: Option<u8>,
    /// PCI programming interface.
    pub prog_if: Option<u8>,
    /// PCI subclass.
    pub sub_class: Option<u8>,
    /// PCI base class.
    pub base_class: Option<u8>,
    /// PCI subsystem vendor ID.
    pub sub_vendor_id: Option<u16>,
    /// PCI subsystem ID.
    pub sub_system_id: Option<u16>,
}

impl PolicyRule {
    /// The device IDs that the rule lets through.
    pub open spec fn device_ids(self) -> DeviceIdRange {
        match self.device_id {
            Some(range) => range,
            None => DeviceIdRange { start: None, end: None },
        }
    }

    /// Whether every populated field of the rule matches the device.
    pub open spec fn admits_device(self, hw: HardwareIds) -> bool {
        &&& permits(self.vendor_id, hw.vendor_id)
        &&& self.device_ids().holds(hw.device_id)
        &&& permits(self.revision_id, hw.revision_id)
        &&& permits(self.prog_if, hw.prog_if.0)
        &&& permits(self.sub_class, hw.sub_class.0)
        &&& permits(self.base_class, hw.base_class.0)
        &&& permits(self.sub_vendor_id, hw.type0_sub_vendor_id)
        &&& permits(self.sub_system_id, hw.type0_sub_system_id)
    }

    /// Whether this rule admits the device described by `hw`.
    #[verifier::allow_in_spec]
    pub fn matches(&self, hw: &HardwareIds) -> (matched: bool)
        ensures
            matched == self.admits_device(*hw),
        returns
            self.admits_device(*hw),
    {
        let device_id = match self.device_id {
            None => true,
            Some(range) => range.contains(hw.device_id),
        };
        permits_u16(self.vendor_id, hw.vendor_id) && device_id && permits_u8(
            self.revision_id,
            hw.revision_id,
        ) && permits_u8(self.prog_if, hw.prog_if.0) && permits_u8(self.sub_class, hw.sub_class.0)
            && permits_u8(self.base_class, hw.base_class.0) && permits_u16(
            self.sub_vendor_id,
            hw.type0_sub_vendor_id,
        ) && permits_u16(self.sub_system_id, hw.type0_sub_system_id)
    }
}

/// One entry in the compiled-in capability ceiling.
#[derive(Debug, Copy, Clone, PartialEq, Eq, Structural)]
pub struct CeilingEntry {
    /// The vendor that a rule must pin.
    pub vendor_id: Option<u16>,
    /// The device IDs that a rule must stay within.
    pub device_id: DeviceIdRange,
    /// The base class that a rule must pin.
    pub base_class: Option<u8>,
    /// The subclass that a rule must pin.
    pub sub_class: Option<u8>,
}

impl CeilingEntry {
    /// Whether the device lies within this entry.
    pub open spec fn admits_device(self, hw: HardwareIds) -> bool {
        &&& permits(self.vendor_id, hw.vendor_id)
        &&& self.device_id.holds(hw.device_id)
        &&& permits(self.base_class, hw.base_class.0)
        &&& permits(self.sub_class, hw.sub_class.0)
    }

    /// Whether every device that the rule admits lies within this entry.
    pub open spec fn covers(self, rule: PolicyRule) -> bool {
        forall|hw: HardwareIds| #[trigger] rule.admits_device(hw) ==> self.admits_device(hw)
    }

    /// Whether the rule pins what this entry demands and stays within the entry's
    /// device IDs.
    pub open spec fn bounds(self, rule: PolicyRule) -> bool {
        &&& pinned(self.vendor_id, rule.vendor_id)
        &&& pinned(self.base_class, rule.base_class)
        &&& pinned(self.sub_class, rule.sub_class)
        &&& rule.device_ids().within(self.device_id)
    }

    /// Whether every device `rule` could admit is also admitted by this entry.
    ///
    /// A rule whose device IDs leave nothing to admit is within every entry; any
    /// other rule has to pin what the entry demands.
    #[verifier::allow_in_spec]
    pub fn admits_rule(&self, rule: &PolicyRule) -> (admitted: bool)
        ensures
            admitted == self.covers(*rule),
        returns
            self.covers(*rule),
    {
        proof {
            law_cover_is_field_by_field(*self, *rule);
        }
        let range = rule.device_id.unwrap_or(DeviceIdRange::any());
        range.is_empty() || (pinned_u16(self.vendor_id, rule.vendor_id) && pinned_u8(
            self.base_class,
            rule.base_class,
        ) && pinned_u8(self.sub_class, rule.sub_class) && range.is_subset_of(&self.device_id))
    }
}

/// A device that the rule admits: the device ID `id`, the values that the rule
/// pins, and the given ones where it pins none.
pub open spec fn sample_device(
    rule: PolicyRule,
    id: u16,
    vendor_id: u16,
    base_class: u8,
    sub_class: u8,
) -> HardwareIds {
    HardwareIds {
        vendor_id: rule.vendor_id.unwrap_or(vendor_id),
        device_id: id,
        revision_id: rule.revision_id.unwrap_or(0),
        prog_if: ProgrammingInterface(rule.prog_if.unwrap_or(0)),
        sub_class: Subclass(rule.sub_class.unwrap_or(sub_class)),
        base_class: ClassCode(rule.base_class.unwrap_or(base_class)),
        type0_sub_vendor_id: rule.sub_vendor_id.unwrap_or(0),
        type0_sub_system_id: rule.sub_system_id.unwrap_or(0),
    }
}

/// An entry covers a rule exactly where the rule admits no device ID at all, or
/// pins what the entry demands and stays within the entry's device IDs.
pub proof fn law_cover_is_field_by_field(entry: CeilingEntry, rule: PolicyRule)
    ensures
        entry.covers(rule) <==> rule.device_ids().is_void() || entry.bounds(rule),
{
    if entry.covers(rule) && !rule.device_ids().is_void() {
        let id = choose|id: u16| #[trigger] rule.device_ids().holds(id);
        let vendor_id: u16 = if entry.vendor_id == Some(0u16) { 1 } else { 0 };
        let base_class: u8 = if entry.base_class == Some(0u8) { 1 } else { 0 };
        let sub_class: u8 = if entry.sub_class == Some(0u8) { 1 } else { 0 };
        assert(rule.admits_device(sample_device(rule, id, vendor_id, base_class, sub_class)));
        assert forall|other: u16| #[trigger]
            rule.device_ids().holds(other) implies entry.device_id.holds(other) by {
            assert(rule.admits_device(
                sample_device(rule, other, vendor_id, base_class, sub_class),
            ));
        }
    }
}

/// The compiled-in upper bound on what any policy may admit: NVIDIA display
/// controllers (GPUs) and NVIDIA bridges (NVSwitch NVLink fabric). Extending
/// this to a new device class is a reviewed source change, not a policy change.
pub open spec fn ceiling() -> Seq<CeilingEntry> {
    seq![
        CeilingEntry {
            vendor_id: Some(NVIDIA_VENDOR_ID),
            device_id: DeviceIdRange { start: None, end: None },
            base_class: Some(CLASS_DISPLAY_CONTROLLER),
            sub_class: None,
        },
        CeilingEntry {
            vendor_id: Some(NVIDIA_VENDOR_ID),
            device_id: DeviceIdRange { start: None, end: None },
            base_class: Some(CLASS_BRIDGE),
            sub_class: None,
        },
    ]
}

/// The entries of the capability ceiling.
pub fn capability_ceiling() -> (entries: [CeilingEntry; 2])
    ensures
        entries@ == ceiling(),
{
    let entries = [
        CeilingEntry {
            vendor_id: Some(NVIDIA_VENDOR_ID),
            device_id: DeviceIdRange::any(),
            base_class: Some(CLASS_DISPLAY_CONTROLLER),
            sub_class: None,
        },
        CeilingEntry {
            vendor_id: Some(NVIDIA_VENDOR_ID),
            device_id: DeviceIdRange::any(),
            base_class: Some(CLASS_BRIDGE),
            sub_class: None,
        },
    ];
    assert(entries@ =~= ceiling());
    entries
}

/// Whether one entry of the ceiling covers the rule.
pub open spec fn within_ceiling(rule: PolicyRule) -> bool {
    exists|k: int| 0 <= k < ceiling().len() && (#[trigger] ceiling()[k]).covers(rule)
}

/// Whether some entry of the ceiling admits the device.
pub open spec fn ceiling_admits(hw: HardwareIds) -> bool {
    exists|k: int| 0 <= k < ceiling().len() && (#[trigger] ceiling()[k]).admits_device(hw)
}

fn is_within_ceiling(rule: &PolicyRule) -> (bounded: bool)
    ensures
        bounded == within_ceiling(*rule),
{
    let entries = capability_ceiling();
    let mut index: usize = 0;
    while index < entries.len()
        invariant
            entries@ == ceiling(),
            index <= entries@.len(),
            forall|k: int| 0 <= k < index ==> !(#[trigger] ceiling()[k]).covers(*rule),
        decreases entries@.len() - index,
    {
        if entries[index].admits_rule(rule) {
            assert(ceiling()[index as int].covers(*rule));
            return true;
        }
        index += 1;
    }
    false
}

/// What a device-admission policy says: its schema version and its rules in
/// order.
#[verifier::ext_equal]
pub struct PolicyModel {
    /// Schema version.
    pub version: u32,
    /// Admission rules.
    pub rules: Seq<PolicyRule>,
}

/// An error parsing or validating a [`DevicePolicy`].
#[derive(Debug)]
pub enum DevicePolicyError {
    /// The bytes were not valid policy JSON.
    Parse(String),
    /// The schema version is not understood by this build.
    UnsupportedVersion(u32),
    /// A rule would admit a device outside the compiled-in capability ceiling.
    RuleExceedsCeiling(usize),
}

impl PolicyModel {
    /// Whether some rule admits the device.
    pub open spec fn admits_device(self, hw: HardwareIds) -> bool {
        exists|i: int| 0 <= i < self.rules.len() && (#[trigger] self.rules[i]).admits_device(hw)
    }

    /// Whether rule `index` is the first one that exceeds the ceiling.
    pub open spec fn first_excess(self, index: int) -> bool {
        &&& 0 <= index < self.rules.len()
        &&& !within_ceiling(self.rules[index])
        &&& forall|i: int| 0 <= i < index ==> within_ceiling(#[trigger] self.rules[i])
    }

    /// Whether the policy has the version of this build and every rule stays
    /// within the ceiling.
    pub open spec fn is_valid(self) -> bool {
        &&& self.version == SCHEMA_VERSION
        &&& forall|i: int| 0 <= i < self.rules.len() ==> within_ceiling(#[trigger] self.rules[i])
    }

    /// The verdict of validation. A version that this build does not understand is
    /// reported before any rule; of the rules, the first that exceeds the ceiling.
    pub open spec fn has_verdict(self, verdict: Result<(), DevicePolicyError>) -> bool {
        match verdict {
            Ok(()) => self.is_valid(),
            Err(DevicePolicyError::UnsupportedVersion(version)) => {
                version == self.version && version != SCHEMA_VERSION
            },
            Err(DevicePolicyError::RuleExceedsCeiling(index)) => {
                self.version == SCHEMA_VERSION && self.first_excess(index as int)
            },
            Err(DevicePolicyError::Parse(_)) => false,
        }
    }
}

/// A versioned device-admission policy. Load it through the framework
/// ([`load`](crate::framework::load)) so it is authenticated and validated against
/// the capability ceiling before use.
#[derive(Debug, PartialEq, Eq)]
pub struct DevicePolicy {
    /// Schema version; must equal [`SCHEMA_VERSION`].
    pub version: u32,
    /// Admission rules. Deny-by-default: a device is admitted only if a rule
    /// matches.
    pub rules: Vec<PolicyRule>,
}

impl View for DevicePolicy {
    type V = PolicyModel;

    open spec fn view(&self) -> PolicyModel {
        PolicyModel { version: self.version, rules: self.rules@ }
    }
}

impl Clone for DevicePolicy {
    fn clone(&self) -> (copy: Self)
        ensures
            copy@ == self@,
    {
        DevicePolicy { version: self.version, rules: self.rules.clone() }
    }
}

impl DevicePolicy {
    /// Whether the policy admits the device described by `hw`.
    #[verifier::allow_in_spec]
    pub fn admits(&self, hw: &HardwareIds) -> (admitted: bool)
        ensures
            admitted == self@.admits_device(*hw),
        returns
            self@.admits_device(*hw),
    {
        let mut index: usize = 0;
        while index < self.rules.len()
            invariant
                index <= self.rules@.len(),
                forall|i: int|
                    0 <= i < index ==> !(#[trigger] self@.rules[i]).admits_device(*hw),
            decreases self.rules@.len() - index,
        {
            if self.rules[index].matches(hw) {
                assert(self@.rules[index as int].admits_device(*hw));
                return true;
            }
            index += 1;
        }
        false
    }
}

/// The text that goes with bytes that are no policy: what `serde_json` has to say
/// against them, or, where they are JSON, that they do not follow the schema.
pub open spec fn parse_fault(bytes: Seq<u8>) -> Seq<char> {
    match crate::json::json_fault(bytes) {
        Some(text) => text,
        None => "the document does not follow the device policy schema"@,
    }
}

fn describe_parse_fault(bytes: &[u8]) -> (text: String)
    ensures
        text@ == parse_fault(bytes@),
{
    match fault_of(bytes) {
        Some(text) => text,
        None => "the document does not follow the device policy schema".to_owned(),
    }
}

impl MeasuredPolicy for DevicePolicy {
    const DOMAIN: &'static str = "vpci-device";

    type Error = DevicePolicyError;

    /// Bytes in the JSON form of a policy parse to that policy; all others are an
    /// error. A document parses to the policy that it is laid out from, and is an
    /// error where it is laid out from none.
    open spec fn may_parse(
        bytes: Seq<u8>,
        outcome: Result<DevicePolicy, DevicePolicyError>,
    ) -> bool {
        &&& crate::document::policy_reads_as(bytes)
        &&& match outcome {
            Ok(policy) => crate::schema::decoded_policy(bytes) == Some(policy@),
            Err(DevicePolicyError::Parse(text)) => {
                crate::schema::decoded_policy(bytes) is None && text@ == parse_fault(bytes)
            },
            Err(_) => false,
        }
    }

    open spec fn may_validate(&self, outcome: Result<(), DevicePolicyError>) -> bool {
        self@.has_verdict(outcome)
    }

    fn parse(bytes: &[u8]) -> (outcome: Result<DevicePolicy, DevicePolicyError>) {
        match decode_policy(bytes) {
            Some(policy) => Ok(policy),
            None => Err(DevicePolicyError::Parse(describe_parse_fault(bytes))),
        }
    }

    fn validate(&self) -> (outcome: Result<(), DevicePolicyError>) {
        if self.version != SCHEMA_VERSION {
            return Err(DevicePolicyError::UnsupportedVersion(self.version));
        }
        let mut index: usize = 0;
        while index < self.rules.len()
            invariant
                self.version == SCHEMA_VERSION,
                index <= self.rules@.len(),
                forall|i: int| 0 <= i < index ==> within_ceiling(#[trigger] self@.rules[i]),
            decreases self.rules@.len() - index,
        {
            if !is_within_ceiling(&self.rules[index]) {
                return Err(DevicePolicyError::RuleExceedsCeiling(index));
            }
            index += 1;
        }
        Ok(())
    }
}

/// What loading comes to for a policy that was parsed: the policy itself where it
/// is valid, the error of parsing where there is no policy, and the error of
/// validation otherwise.
pub fn load_parsed(parsed: Result<DevicePolicy, DevicePolicyError>) -> (outcome: Result<
    DevicePolicy,
    DevicePolicyError,
>)
    ensures
        match parsed {
            Ok(policy) => match outcome {
                Ok(loaded) => loaded == policy && policy@.is_valid(),
                Err(error) => policy@.has_verdict(Err(error)),
            },
            Err(error) => outcome == Err::<DevicePolicy, DevicePolicyError>(error),
        },
{
    match parsed {
        Ok(policy) => match policy.validate() {
            Ok(()) => Ok(policy),
            Err(error) => Err(error),
        },
        Err(error) => Err(error),
    }
}

/// Whether loading `bytes` without authenticating them may end in `outcome`.
pub open spec fn may_load_bytes(
    bytes: Seq<u8>,
    outcome: Result<DevicePolicy, DevicePolicyError>,
) -> bool {
    &&& crate::document::policy_reads_as(bytes)
    &&& match crate::schema::decoded_policy(bytes) {
        Some(model) => match outcome {
            Ok(policy) => policy@ == model && model.is_valid(),
            Err(error) => model.has_verdict(Err(error)),
        },
        None => outcome matches Err(DevicePolicyError::Parse(text)) && text@ == parse_fault(bytes),
    }
}

/// Parse and validate a device policy from raw (already-delivered) bytes,
/// enforcing the capability ceiling.
///
/// This performs the structural checks (schema, version, ceiling) but not
/// authenticity. Callers that must authenticate the bytes should instead use
/// [`load`](crate::framework::load) with a
/// [`PolicyVerifier`](crate::framework::PolicyVerifier).
pub fn load_from_bytes(bytes: &[u8]) -> (outcome: Result<DevicePolicy, DevicePolicyError>)
    ensures
        may_load_bytes(bytes@, outcome),
{
    load_parsed(DevicePolicy::parse(bytes))
}

} // verus!
