//! The JSON form of a device policy.
//!
//! A policy, its rules and their device-ID ranges are records (see
//! [`record`](crate::record)). A policy gives its `version` and lists its `rules`;
//! both must be there. Every field of a rule and of a range may be left out or
//! given as `null`, which leaves it unset. [`document`](crate::document) says what a
//! whole document decodes to.

use crate::device_policy::DeviceIdRange;
use crate::device_policy::DevicePolicy;
use crate::device_policy::PolicyModel;
use crate::device_policy::PolicyRule;
use crate::json::is_null;
use crate::json::nullable_u16_of;
use crate::json::nullable_u8_of;
use crate::json::read_items;
use crate::json::u32_of;
use crate::json::Item;
use crate::json::ItemModel;
use crate::record::read_fields;
use vstd::prelude::*;

verus! {

/// The fields of a device-ID range.
pub open spec fn range_names() -> Seq<Seq<char>> {
    seq!["start"@, "end"@]
}

/// The fields of a rule.
pub open spec fn rule_names() -> Seq<Seq<char>> {
    seq![
        "vendor_id"@,
        "device_id"@,
        "revision_id"@,
        "prog_if"@,
        "sub_class"@,
        "base_class"@,
        "sub_vendor_id"@,
        "sub_system_id"@,
    ]
}

/// The fields of a policy.
pub open spec fn policy_names() -> Seq<Seq<char>> {
    seq!["version"@, "rules"@]
}

/// A 16-bit field that may be unset.
pub open spec fn decoded_u16(field: Option<Seq<u8>>) -> Option<Option<u16>> {
    match field {
        Some(text) => crate::json::nullable_u16(text),
        None => Some(None),
    }
}

/// An 8-bit field that may be unset.
pub open spec fn decoded_u8(field: Option<Seq<u8>>) -> Option<Option<u8>> {
    match field {
        Some(text) => crate::json::nullable_u8(text),
        None => Some(None),
    }
}

/// The device-ID range with these fields, or `None` where one of them is not what
/// it should be.
pub open spec fn range_of(fields: Seq<Option<Seq<u8>>>) -> Option<DeviceIdRange> {
    match (decoded_u16(fields[0]), decoded_u16(fields[1])) {
        (Some(start), Some(end)) => Some(DeviceIdRange { start, end }),
        _ => None,
    }
}

/// The device-ID range that `text` is, or `None` where it is none.
pub open spec fn decoded_range(text: Seq<u8>) -> Option<DeviceIdRange> {
    match crate::record::fields(text, range_names()) {
        Some(fields) => range_of(fields),
        None => None,
    }
}

/// A device-ID range field that may be unset.
pub open spec fn decoded_range_field(field: Option<Seq<u8>>) -> Option<Option<DeviceIdRange>> {
    match field {
        Some(text) => if crate::json::is_word(text, crate::json::null_literal()) {
            Some(None)
        } else {
            match decoded_range(text) {
                Some(range) => Some(Some(range)),
                None => None,
            }
        },
        None => Some(None),
    }
}

/// The rule with these fields, or `None` where one of them is not what it should
/// be.
pub open spec fn rule_of(fields: Seq<Option<Seq<u8>>>) -> Option<PolicyRule> {
    match (
        decoded_u16(fields[0]),
        decoded_range_field(fields[1]),
        decoded_u8(fields[2]),
        decoded_u8(fields[3]),
        decoded_u8(fields[4]),
        decoded_u8(fields[5]),
        decoded_u16(fields[6]),
        decoded_u16(fields[7]),
    ) {
        (
            Some(vendor_id),
            Some(device_id),
            Some(revision_id),
            Some(prog_if),
            Some(sub_class),
            Some(base_class),
            Some(sub_vendor_id),
            Some(sub_system_id),
        ) => Some(
            PolicyRule {
                vendor_id,
                device_id,
                revision_id,
                prog_if,
                sub_class,
                base_class,
                sub_vendor_id,
                sub_system_id,
            },
        ),
        _ => None,
    }
}

/// The rule that `text` is, or `None` where it is none.
pub open spec fn decoded_rule(text: Seq<u8>) -> Option<PolicyRule> {
    match crate::record::fields(text, rule_names()) {
        Some(fields) => rule_of(fields),
        None => None,
    }
}

/// The rules that the elements of an array are, or `None` where one is none.
pub open spec fn decoded_rules(elements: Seq<ItemModel>) -> Option<Seq<PolicyRule>> {
    if forall|i: int|
        0 <= i < elements.len() ==> decoded_rule((#[trigger] elements[i]).value) is Some {
        Some(Seq::new(elements.len(), |i: int| decoded_rule(elements[i].value)->0))
    } else {
        None
    }
}

/// The rules that the array `text` lists, or `None` where it is no array of rules.
pub open spec fn decoded_rule_list(text: Seq<u8>) -> Option<Seq<PolicyRule>> {
    match crate::json::items(text, false) {
        Some(elements) => decoded_rules(elements),
        None => None,
    }
}

/// The policy with these fields, or `None` where one of them is missing or not
/// what it should be.
pub open spec fn policy_of(fields: Seq<Option<Seq<u8>>>) -> Option<PolicyModel> {
    match (fields[0], fields[1]) {
        (Some(version), Some(rules)) => match (
            crate::json::number_u32(version),
            decoded_rule_list(rules),
        ) {
            (Some(version), Some(rules)) => Some(PolicyModel { version, rules }),
            _ => None,
        },
        _ => None,
    }
}

/// The policy that `text` is, or `None` where it is none.
pub open spec fn decoded_policy(text: Seq<u8>) -> Option<PolicyModel> {
    match crate::record::fields(text, policy_names()) {
        Some(fields) => policy_of(fields),
        None => None,
    }
}

fn decode_u16(field: Option<&[u8]>) -> (decoded: Option<Option<u16>>)
    ensures
        decoded == decoded_u16(crate::record::field_model(field)),
{
    match field {
        Some(text) => nullable_u16_of(text),
        None => Some(None),
    }
}

fn decode_u8(field: Option<&[u8]>) -> (decoded: Option<Option<u8>>)
    ensures
        decoded == decoded_u8(crate::record::field_model(field)),
{
    match field {
        Some(text) => nullable_u8_of(text),
        None => Some(None),
    }
}

/// Builds a device-ID range from its fields.
pub fn assemble_range(fields: &Vec<Option<&[u8]>>) -> (range: Option<DeviceIdRange>)
    requires
        fields@.len() == range_names().len(),
    ensures
        range == range_of(crate::record::field_models(fields@)),
{
    match (decode_u16(fields[0]), decode_u16(fields[1])) {
        (Some(start), Some(end)) => Some(DeviceIdRange { start, end }),
        _ => None,
    }
}

fn decode_range(text: &[u8]) -> (range: Option<DeviceIdRange>)
    ensures
        range == decoded_range(text@),
        crate::document::range_reads_as(text@),
{
    let names = vec!["start".to_owned(), "end".to_owned()];
    assert(crate::record::spelled(names@) =~= range_names());
    let read = read_fields(text, &names);
    proof {
        crate::document::lemma_range_reads_as(text@);
    }
    match read {
        Some(fields) => assemble_range(&fields),
        None => None,
    }
}

fn decode_range_field(field: Option<&[u8]>) -> (decoded: Option<Option<DeviceIdRange>>)
    ensures
        decoded == decoded_range_field(crate::record::field_model(field)),
        field matches Some(text) ==> crate::document::range_field_reads_as(text@),
{
    match field {
        Some(text) => {
            let decoded = if is_null(text) {
                Some(None)
            } else {
                match decode_range(text) {
                    Some(range) => Some(Some(range)),
                    None => None,
                }
            };
            proof {
                crate::document::lemma_range_field_reads_as(text@);
            }
            decoded
        },
        None => Some(None),
    }
}

/// Builds a rule from its fields.
pub fn assemble_rule(fields: &Vec<Option<&[u8]>>) -> (rule: Option<PolicyRule>)
    requires
        fields@.len() == rule_names().len(),
    ensures
        rule == rule_of(crate::record::field_models(fields@)),
        fields@[1] matches Some(text) ==> crate::document::range_field_reads_as(text@),
{
    match (
        decode_u16(fields[0]),
        decode_range_field(fields[1]),
        decode_u8(fields[2]),
        decode_u8(fields[3]),
        decode_u8(fields[4]),
        decode_u8(fields[5]),
        decode_u16(fields[6]),
        decode_u16(fields[7]),
    ) {
        (
            Some(vendor_id),
            Some(device_id),
            Some(revision_id),
            Some(prog_if),
            Some(sub_class),
            Some(base_class),
            Some(sub_vendor_id),
            Some(sub_system_id),
        ) => Some(
            PolicyRule {
                vendor_id,
                device_id,
                revision_id,
                prog_if,
                sub_class,
                base_class,
                sub_vendor_id,
                sub_system_id,
            },
        ),
        _ => None,
    }
}

fn decode_rule(text: &[u8]) -> (rule: Option<PolicyRule>)
    ensures
        rule == decoded_rule(text@),
        crate::document::rule_reads_as(text@),
{
    let names = vec![
        "vendor_id".to_owned(),
        "device_id".to_owned(),
        "revision_id".to_owned(),
        "prog_if".to_owned(),
        "sub_class".to_owned(),
        "base_class".to_owned(),
        "sub_vendor_id".to_owned(),
        "sub_system_id".to_owned(),
    ];
    assert(crate::record::spelled(names@) =~= rule_names());
    let rule = match read_fields(text, &names) {
        Some(fields) => {
            assert(crate::record::field_models(fields@)[1] == crate::record::field_model(
                fields@[1],
            ));
            assemble_rule(&fields)
        },
        None => None,
    };
    proof {
        crate::document::lemma_rule_reads_as(text@);
    }
    rule
}

fn decode_rules<'a>(elements: &Vec<Item<'a>>) -> (rules: Option<Vec<PolicyRule>>)
    ensures
        match rules {
            Some(rules) => decoded_rules(crate::json::item_models(elements@)) == Some(rules@),
            None => decoded_rules(crate::json::item_models(elements@)) is None,
        },
        crate::document::rules_read_as(crate::json::item_models(elements@)),
{
    let ghost models = crate::json::item_models(elements@);
    let mut rules: Vec<PolicyRule> = Vec::new();
    let mut index: usize = 0;
    while index < elements.len()
        invariant
            models == crate::json::item_models(elements@),
            index <= elements@.len(),
            rules@.len() == index,
            forall|i: int|
                0 <= i < index ==> decoded_rule((#[trigger] models[i]).value) == Some(rules@[i])
                    && crate::document::rule_reads_as(models[i].value),
        decreases elements@.len() - index,
    {
        assert(models[index as int].value == elements[index as int].value@);
        match decode_rule(elements[index].value) {
            Some(rule) => rules.push(rule),
            None => {
                proof {
                    crate::document::lemma_refused_element(models, index as int);
                }
                return None;
            },
        }
        index += 1;
    }
    assert(rules@ =~= Seq::new(models.len(), |i: int| decoded_rule(models[i].value)->0));
    proof {
        crate::document::lemma_accepted_elements(models);
    }
    Some(rules)
}

fn decode_rule_list(text: &[u8]) -> (rules: Option<Vec<PolicyRule>>)
    ensures
        match rules {
            Some(rules) => decoded_rule_list(text@) == Some(rules@),
            None => decoded_rule_list(text@) is None,
        },
        crate::document::rule_list_reads_as(text@),
{
    let rules = match read_items(text, false) {
        Some(elements) => decode_rules(&elements),
        None => None,
    };
    proof {
        crate::document::lemma_rule_list_reads_as(text@);
    }
    rules
}

/// Builds a policy from its fields.
pub fn assemble_policy(fields: &Vec<Option<&[u8]>>) -> (policy: Option<DevicePolicy>)
    requires
        fields@.len() == policy_names().len(),
    ensures
        match policy {
            Some(policy) => policy_of(crate::record::field_models(fields@)) == Some(policy@),
            None => policy_of(crate::record::field_models(fields@)) is None,
        },
        fields@[0] is Some && fields@[1] is Some ==> crate::document::rule_list_reads_as(
            fields@[1]->0@,
        ),
{
    match (fields[0], fields[1]) {
        (Some(version), Some(rules)) => match (u32_of(version), decode_rule_list(rules)) {
            (Some(version), Some(rules)) => Some(DevicePolicy { version, rules }),
            _ => None,
        },
        _ => None,
    }
}

/// Decodes a policy from its JSON form. A document decodes to the policy that it is
/// laid out from.
pub fn decode_policy(text: &[u8]) -> (policy: Option<DevicePolicy>)
    ensures
        match policy {
            Some(policy) => decoded_policy(text@) == Some(policy@),
            None => decoded_policy(text@) is None,
        },
        crate::document::policy_reads_as(text@),
{
    let names = vec!["version".to_owned(), "rules".to_owned()];
    assert(crate::record::spelled(names@) =~= policy_names());
    let policy = match read_fields(text, &names) {
        Some(fields) => {
            proof {
                let models = crate::record::field_models(fields@);
                assert(models[0] == crate::record::field_model(fields@[0]));
                assert(models[1] == crate::record::field_model(fields@[1]));
            }
            assemble_policy(&fields)
        },
        None => None,
    };
    proof {
        crate::document::lemma_policy_reads_as(text@);
    }
    policy
}

} // verus!
