//! What a JSON document says as a device policy.
//!
//! A document that is laid out from a JSON value decodes to the policy that the
//! value is ([`value_policy`]); where the value is no policy, the document decodes
//! to none. [`policy_json`] is one value that a policy is: the one that `serde_json`
//! writes.

use crate::device_policy::DeviceIdRange;
use crate::device_policy::PolicyModel;
use crate::device_policy::PolicyRule;
use crate::json::ItemModel;
use crate::layout::JsonItem;
use crate::layout::JsonValue;
use vstd::prelude::*;

verus! {

/// The number up to `limit` that a JSON value is.
pub open spec fn value_number(value: JsonValue, limit: nat) -> Option<nat> {
    match value {
        JsonValue::Number(number) => if number <= limit {
            Some(number)
        } else {
            None
        },
        _ => None,
    }
}

/// The number up to `limit` of a field that may be left out or `null`.
pub open spec fn value_number_field(field: Option<JsonValue>, limit: nat) -> Option<Option<nat>> {
    match field {
        None => Some(None),
        Some(JsonValue::Null) => Some(None),
        Some(value) => match value_number(value, limit) {
            Some(number) => Some(Some(number)),
            None => None,
        },
    }
}

/// A 16-bit field that may be unset.
pub open spec fn value_u16(field: Option<JsonValue>) -> Option<Option<u16>> {
    match value_number_field(field, u16::MAX as nat) {
        Some(Some(number)) => Some(Some(number as u16)),
        Some(None) => Some(None),
        None => None,
    }
}

/// An 8-bit field that may be unset.
pub open spec fn value_u8(field: Option<JsonValue>) -> Option<Option<u8>> {
    match value_number_field(field, u8::MAX as nat) {
        Some(Some(number)) => Some(Some(number as u8)),
        Some(None) => Some(None),
        None => None,
    }
}

/// The device-ID range with these fields, or `None` where one of them is not what
/// it should be.
pub open spec fn range_of_values(fields: Seq<Option<JsonValue>>) -> Option<DeviceIdRange> {
    match (value_u16(fields[0]), value_u16(fields[1])) {
        (Some(start), Some(end)) => Some(DeviceIdRange { start, end }),
        _ => None,
    }
}

/// The device-ID range that a JSON value is, or `None` where it is none.
pub open spec fn value_range(value: JsonValue) -> Option<DeviceIdRange> {
    match crate::record::value_fields(value, crate::schema::range_names()) {
        Some(fields) => range_of_values(fields),
        None => None,
    }
}

/// A device-ID range field that may be unset.
pub open spec fn value_range_field(field: Option<JsonValue>) -> Option<Option<DeviceIdRange>> {
    match field {
        None => Some(None),
        Some(JsonValue::Null) => Some(None),
        Some(value) => match value_range(value) {
            Some(range) => Some(Some(range)),
            None => None,
        },
    }
}

/// The rule with these fields, or `None` where one of them is not what it should
/// be.
pub open spec fn rule_of_values(fields: Seq<Option<JsonValue>>) -> Option<PolicyRule> {
    match (
        value_u16(fields[0]),
        value_range_field(fields[1]),
        value_u8(fields[2]),
        value_u8(fields[3]),
        value_u8(fields[4]),
        value_u8(fields[5]),
        value_u16(fields[6]),
        value_u16(fields[7]),
    ) {
        (
            Some(vendor_id),
            Some(device_id),
            Some(revision_id),
            Some(prog_if),
            Some(sub_class),
            Some(base_class),
            Some(sub_vendor_id),
            Some(sub_system_id),
        ) => Some(
            PolicyRule {
                vendor_id,
                device_id,
                revision_id,
                prog_if,
                sub_class,
                base_class,
                sub_vendor_id,
                sub_system_id,
            },
        ),
        _ => None,
    }
}

/// The rule that a JSON value is, or `None` where it is none.
pub open spec fn value_rule(value: JsonValue) -> Option<PolicyRule> {
    match crate::record::value_fields(value, crate::schema::rule_names()) {
        Some(fields) => rule_of_values(fields),
        None => None,
    }
}

/// The rules that the elements of a JSON array are, or `None` where one is none.
pub open spec fn value_rules(elements: Seq<JsonItem>) -> Option<Seq<PolicyRule>> {
    if forall|i: int|
        0 <= i < elements.len() ==> value_rule((#[trigger] elements[i]).value) is Some {
        Some(Seq::new(elements.len(), |i: int| value_rule(elements[i].value)->0))
    } else {
        None
    }
}

/// The rules that a JSON array lists, or `None` where the value is no array of
/// rules.
pub open spec fn value_rule_list(value: JsonValue) -> Option<Seq<PolicyRule>> {
    match crate::layout::value_items(value, false) {
        Some(elements) => value_rules(elements),
        None => None,
    }
}

/// The policy with these fields, or `None` where one of them is missing or not
/// what it should be.
pub open spec fn policy_of_values(fields: Seq<Option<JsonValue>>) -> Option<PolicyModel> {
    match (fields[0], fields[1]) {
        (Some(version), Some(rules)) => match (
            value_number(version, u32::MAX as nat),
            value_rule_list(rules),
        ) {
            (Some(version), Some(rules)) => Some(PolicyModel { version: version as u32, rules }),
            _ => None,
        },
        _ => None,
    }
}

/// The policy that a JSON value is, or `None` where it is none.
pub open spec fn value_policy(value: JsonValue) -> Option<PolicyModel> {
    match crate::record::value_fields(value, crate::schema::policy_names()) {
        Some(fields) => policy_of_values(fields),
        None => None,
    }
}

/// A document decodes to the range that it is laid out from.
pub open spec fn range_reads_as(text: Seq<u8>) -> bool {
    forall|value: JsonValue| #[trigger]
        crate::layout::lays_out(text, value) ==> crate::schema::decoded_range(text) == value_range(
            value,
        )
}

/// A document decodes to the range field that it is laid out from.
pub open spec fn range_field_reads_as(text: Seq<u8>) -> bool {
    forall|value: JsonValue| #[trigger]
        crate::layout::lays_out(text, value) ==> crate::schema::decoded_range_field(Some(text))
            == value_range_field(Some(value))
}

/// A document decodes to the rule that it is laid out from.
pub open spec fn rule_reads_as(text: Seq<u8>) -> bool {
    forall|value: JsonValue| #[trigger]
        crate::layout::lays_out(text, value) ==> crate::schema::decoded_rule(text) == value_rule(
            value,
        )
}

/// The elements of an array decode to the rules that they are laid out from.
pub open spec fn rules_read_as(elements: Seq<ItemModel>) -> bool {
    forall|items: Seq<JsonItem>|
        elements == #[trigger] crate::layout::item_models(items) && (forall|i: int|
            0 <= i < items.len() ==> crate::layout::is_plain((#[trigger] items[i]).value))
            ==> crate::schema::decoded_rules(elements) == value_rules(items)
}

/// A document decodes to the list of rules that it is laid out from.
pub open spec fn rule_list_reads_as(text: Seq<u8>) -> bool {
    forall|value: JsonValue| #[trigger]
        crate::layout::lays_out(text, value) ==> crate::schema::decoded_rule_list(text)
            == value_rule_list(value)
}

/// A document decodes to the policy that it is laid out from.
pub open spec fn policy_reads_as(text: Seq<u8>) -> bool {
    forall|value: JsonValue| #[trigger]
        crate::layout::lays_out(text, value) ==> crate::schema::decoded_policy(text)
            == value_policy(value)
}

proof fn lemma_word_start(text: Seq<u8>, word: Seq<u8>)
    requires
        crate::json::is_word(text, word),
        word.len() > 0,
    ensures
        crate::json::trim(text)[0] == word[0],
{
    assert(crate::json::trim(text).take(word.len() as int)[0] == word[0]);
}

proof fn lemma_null_reads_as(text: Seq<u8>, value: JsonValue)
    requires
        crate::layout::lays_out(text, value),
    ensures
        crate::json::is_word(text, crate::json::null_literal()) == (value is Null),
{
    crate::layout::lemma_laid_out_start(text, value);
    if crate::json::is_word(text, crate::json::null_literal()) {
        lemma_word_start(text, crate::json::null_literal());
    }
}

proof fn lemma_number_reads_as(text: Seq<u8>, value: JsonValue, limit: nat)
    requires
        crate::layout::lays_out(text, value),
    ensures
        crate::json::number_in(text, limit) == value_number(value, limit),
{
    crate::layout::lemma_laid_out_start(text, value);
    if let JsonValue::Number(number) = value {
        crate::json::law_numeral_reads_back(text, number, limit);
    } else if let Some(number) = crate::json::number_in(text, limit) {
        crate::json::lemma_numeral_digits(number);
        lemma_word_start(text, crate::json::numeral(number));
    }
}

proof fn lemma_u16_reads_as(field: Option<JsonValue>)
    requires
        field matches Some(value) ==> crate::layout::is_plain(value),
    ensures
        crate::schema::decoded_u16(crate::record::written_field(field)) == value_u16(field),
{
    if let Some(value) = field {
        let text = crate::layout::written(value);
        crate::layout::lemma_lays_out_itself(value);
        lemma_null_reads_as(text, value);
        lemma_number_reads_as(text, value, u16::MAX as nat);
    }
}

proof fn lemma_u8_reads_as(field: Option<JsonValue>)
    requires
        field matches Some(value) ==> crate::layout::is_plain(value),
    ensures
        crate::schema::decoded_u8(crate::record::written_field(field)) == value_u8(field),
{
    if let Some(value) = field {
        let text = crate::layout::written(value);
        crate::layout::lemma_lays_out_itself(value);
        lemma_null_reads_as(text, value);
        lemma_number_reads_as(text, value, u8::MAX as nat);
    }
}

/// A document decodes to the range that it is laid out from, once its fields read
/// as those of the value.
pub proof fn lemma_range_reads_as(text: Seq<u8>)
    requires
        crate::record::fields_read_as(text, crate::schema::range_names()),
    ensures
        range_reads_as(text),
{
    let names = crate::schema::range_names();
    assert forall|value: JsonValue| #[trigger] crate::layout::lays_out(
        text,
        value,
    ) implies crate::schema::decoded_range(text) == value_range(value) by {
        if let Some(fields) = crate::record::value_fields(value, names) {
            crate::record::lemma_plain_fields(value, names, 0);
            crate::record::lemma_plain_fields(value, names, 1);
            lemma_u16_reads_as(fields[0]);
            lemma_u16_reads_as(fields[1]);
        }
    }
}

/// A document decodes to the range field that it is laid out from, once it decodes
/// to the range where it is not `null`.
pub proof fn lemma_range_field_reads_as(text: Seq<u8>)
    requires
        !crate::json::is_word(text, crate::json::null_literal()) ==> range_reads_as(text),
    ensures
        range_field_reads_as(text),
{
    assert forall|value: JsonValue| #[trigger] crate::layout::lays_out(
        text,
        value,
    ) implies crate::schema::decoded_range_field(Some(text)) == value_range_field(Some(value)) by {
        lemma_null_reads_as(text, value);
    }
}

/// A document decodes to the rule that it is laid out from, once its fields read as
/// those of the value and the range field decodes to the range.
pub proof fn lemma_rule_reads_as(text: Seq<u8>)
    requires
        crate::record::fields_read_as(text, crate::schema::rule_names()),
        crate::record::fields(text, crate::schema::rule_names()) matches Some(fields) ==> (
        fields[1] matches Some(field) ==> range_field_reads_as(field)),
    ensures
        rule_reads_as(text),
{
    let names = crate::schema::rule_names();
    assert forall|value: JsonValue| #[trigger] crate::layout::lays_out(
        text,
        value,
    ) implies crate::schema::decoded_rule(text) == value_rule(value) by {
        if let Some(fields) = crate::record::value_fields(value, names) {
            assert forall|k: int| 0 <= k < names.len() implies (#[trigger] fields[k] matches Some(
                field,
            ) ==> crate::layout::is_plain(field)) by {
                crate::record::lemma_plain_fields(value, names, k);
            }
            let texts = crate::record::fields(text, names)->0;
            assert(texts == crate::record::written_fields(fields));
            lemma_u16_reads_as(fields[0]);
            if let Some(range) = fields[1] {
                crate::layout::lemma_lays_out_itself(range);
                assert(texts[1] == Some(crate::layout::written(range)));
            }
            lemma_u8_reads_as(fields[2]);
            lemma_u8_reads_as(fields[3]);
            lemma_u8_reads_as(fields[4]);
            lemma_u8_reads_as(fields[5]);
            lemma_u16_reads_as(fields[6]);
            lemma_u16_reads_as(fields[7]);
        }
    }
}

/// Where an element decodes to no rule, it is laid out from none.
pub proof fn lemma_refused_element(elements: Seq<ItemModel>, i: int)
    requires
        0 <= i < elements.len(),
        rule_reads_as(elements[i].value),
        crate::schema::decoded_rule(elements[i].value) is None,
    ensures
        rules_read_as(elements),
{
    assert forall|items: Seq<JsonItem>|
        elements == #[trigger] crate::layout::item_models(items) && (forall|i: int|
            0 <= i < items.len() ==> crate::layout::is_plain(
                (#[trigger] items[i]).value,
            )) implies crate::schema::decoded_rules(elements) == value_rules(items) by {
        crate::layout::lemma_lays_out_itself(items[i].value);
        assert(value_rule(items[i].value) is None);
    }
}

/// Where all elements decode to rules, they are laid out from these.
pub proof fn lemma_accepted_elements(elements: Seq<ItemModel>)
    requires
        forall|i: int|
            0 <= i < elements.len() ==> rule_reads_as((#[trigger] elements[i]).value),
    ensures
        rules_read_as(elements),
{
    assert forall|items: Seq<JsonItem>|
        elements == #[trigger] crate::layout::item_models(items) && (forall|i: int|
            0 <= i < items.len() ==> crate::layout::is_plain(
                (#[trigger] items[i]).value,
            )) implies crate::schema::decoded_rules(elements) == value_rules(items) by {
        assert forall|i: int| 0 <= i < items.len() implies crate::schema::decoded_rule(
            (#[trigger] elements[i]).value,
        ) == value_rule(items[i].value) by {
            crate::layout::lemma_lays_out_itself(items[i].value);
        }
        if crate::schema::decoded_rules(elements) is Some {
            assert forall|i: int| 0 <= i < items.len() implies value_rule(
                (#[trigger] items[i]).value,
            ) is Some by {
                assert(crate::schema::decoded_rule(elements[i].value) is Some);
            }
            assert(crate::schema::decoded_rules(elements)->0 =~= value_rules(items)->0);
        } else {
            let i = choose|i: int|
                0 <= i < elements.len() && crate::schema::decoded_rule(
                    (#[trigger] elements[i]).value,
                ) is None;
            assert(value_rule(items[i].value) is None);
        }
    }
}

/// A document decodes to the list of rules that it is laid out from, once it reads
/// as the elements of the value and they decode to the rules.
pub proof fn lemma_rule_list_reads_as(text: Seq<u8>)
    requires
        crate::layout::items_read_as(text, false),
        crate::json::items(text, false) matches Some(elements) ==> rules_read_as(elements),
    ensures
        rule_list_reads_as(text),
{
    assert forall|value: JsonValue| #[trigger] crate::layout::lays_out(
        text,
        value,
    ) implies crate::schema::decoded_rule_list(text) == value_rule_list(value) by {
        if let Some(items) = crate::layout::value_items(value, false) {
            assert(crate::json::items(text, false) == Some(crate::layout::item_models(items)));
        }
    }
}

/// A document decodes to the policy that it is laid out from, once its fields read
/// as those of the value and the rules decode to the rules.
pub proof fn lemma_policy_reads_as(text: Seq<u8>)
    requires
        crate::record::fields_read_as(text, crate::schema::policy_names()),
        crate::record::fields(text, crate::schema::policy_names()) matches Some(fields) ==> (
        fields[0] is Some && fields[1] is Some ==> rule_list_reads_as(fields[1]->0)),
    ensures
        policy_reads_as(text),
{
    let names = crate::schema::policy_names();
    assert forall|value: JsonValue| #[trigger] crate::layout::lays_out(
        text,
        value,
    ) implies crate::schema::decoded_policy(text) == value_policy(value) by {
        if let Some(fields) = crate::record::value_fields(value, names) {
            let texts = crate::record::fields(text, names)->0;
            assert(texts == crate::record::written_fields(fields));
            crate::record::lemma_plain_fields(value, names, 0);
            crate::record::lemma_plain_fields(value, names, 1);
            assert(texts[0] == crate::record::written_field(fields[0]));
            assert(texts[1] == crate::record::written_field(fields[1]));
            if let (Some(version), Some(rules)) = (fields[0], fields[1]) {
                crate::layout::lemma_lays_out_itself(version);
                crate::layout::lemma_lays_out_itself(rules);
                lemma_number_reads_as(
                    crate::layout::written(version),
                    version,
                    u32::MAX as nat,
                );
            }
        }
    }
}

proof fn lemma_same_range(left: JsonValue, right: JsonValue)
    requires
        crate::layout::same_but_whitespace(left, right),
    ensures
        value_range(left) == value_range(right),
{
    crate::record::lemma_same_fields(left, right, crate::schema::range_names());
}

proof fn lemma_same_range_field(left: Option<JsonValue>, right: Option<JsonValue>)
    requires
        crate::record::same_field(left, right),
    ensures
        value_range_field(left) == value_range_field(right),
{
    if let (Some(value), Some(other)) = (left, right) {
        lemma_same_range(value, other);
    }
}

proof fn lemma_same_rule(left: JsonValue, right: JsonValue)
    requires
        crate::layout::same_but_whitespace(left, right),
    ensures
        value_rule(left) == value_rule(right),
{
    let names = crate::schema::rule_names();
    crate::record::lemma_same_fields(left, right, names);
    if let (Some(fields), Some(others)) = (
        crate::record::value_fields(left, names),
        crate::record::value_fields(right, names),
    ) {
        lemma_same_range_field(fields[1], others[1]);
        assert(value_u16(fields[0]) == value_u16(others[0]));
        assert(value_u8(fields[2]) == value_u8(others[2]));
        assert(value_u8(fields[3]) == value_u8(others[3]));
        assert(value_u8(fields[4]) == value_u8(others[4]));
        assert(value_u8(fields[5]) == value_u8(others[5]));
        assert(value_u16(fields[6]) == value_u16(others[6]));
        assert(value_u16(fields[7]) == value_u16(others[7]));
    }
}

proof fn lemma_same_rule_list(left: JsonValue, right: JsonValue)
    requires
        crate::layout::same_but_whitespace(left, right),
    ensures
        value_rule_list(left) == value_rule_list(right),
{
    if let (JsonValue::Items(false, items, _), JsonValue::Items(false, others, _)) = (left, right) {
        assert forall|i: int| 0 <= i < items.len() implies value_rule((#[trigger] items[i]).value)
            == value_rule(others[i].value) by {
            lemma_same_rule(items[i].value, others[i].value);
        }
        if value_rules(items) is Some {
            assert forall|i: int| 0 <= i < others.len() implies value_rule(
                (#[trigger] others[i]).value,
            ) is Some by {
                assert(value_rule(items[i].value) is Some);
            }
            assert(value_rules(items)->0 =~= value_rules(others)->0);
        } else {
            let i = choose|i: int|
                0 <= i < items.len() && value_rule((#[trigger] items[i]).value) is None;
            assert(value_rule(others[i].value) is None);
        }
    }
}

/// Values that differ in their whitespace alone are the same policy.
pub proof fn lemma_same_policy(left: JsonValue, right: JsonValue)
    requires
        crate::layout::same_but_whitespace(left, right),
    ensures
        value_policy(left) == value_policy(right),
{
    let names = crate::schema::policy_names();
    crate::record::lemma_same_fields(left, right, names);
    if let (Some(fields), Some(others)) = (
        crate::record::value_fields(left, names),
        crate::record::value_fields(right, names),
    ) {
        assert(crate::record::same_field(fields[0], others[0]));
        assert(crate::record::same_field(fields[1], others[1]));
        if let (Some(rules), Some(other_rules)) = (fields[1], others[1]) {
            lemma_same_rule_list(rules, other_rules);
        }
    }
}

/// A 16-bit field as JSON.
pub open spec fn u16_json(field: Option<u16>) -> JsonValue {
    match field {
        Some(number) => JsonValue::Number(number as nat),
        None => JsonValue::Null,
    }
}

/// An 8-bit field as JSON.
pub open spec fn u8_json(field: Option<u8>) -> JsonValue {
    match field {
        Some(number) => JsonValue::Number(number as nat),
        None => JsonValue::Null,
    }
}

/// The fields of a device-ID range as JSON.
pub open spec fn range_values(range: DeviceIdRange) -> Seq<JsonValue> {
    seq![u16_json(range.start), u16_json(range.end)]
}

/// A device-ID range as JSON.
pub open spec fn range_json(range: DeviceIdRange) -> JsonValue {
    crate::record::record_json(crate::schema::range_names(), range_values(range))
}

/// A device-ID range field as JSON.
pub open spec fn range_field_json(field: Option<DeviceIdRange>) -> JsonValue {
    match field {
        Some(range) => range_json(range),
        None => JsonValue::Null,
    }
}

/// The fields of a rule as JSON.
pub open spec fn rule_values(rule: PolicyRule) -> Seq<JsonValue> {
    seq![
        u16_json(rule.vendor_id),
        range_field_json(rule.device_id),
        u8_json(rule.revision_id),
        u8_json(rule.prog_if),
        u8_json(rule.sub_class),
        u8_json(rule.base_class),
        u16_json(rule.sub_vendor_id),
        u16_json(rule.sub_system_id),
    ]
}

/// A rule as JSON.
pub open spec fn rule_json(rule: PolicyRule) -> JsonValue {
    crate::record::record_json(crate::schema::rule_names(), rule_values(rule))
}

/// The elements of a list of rules as JSON.
pub open spec fn rule_elements(rules: Seq<PolicyRule>) -> Seq<JsonItem> {
    Seq::new(rules.len(), |i: int| crate::layout::compact_item(None, rule_json(rules[i])))
}

/// A list of rules as JSON.
pub open spec fn rules_json(rules: Seq<PolicyRule>) -> JsonValue {
    JsonValue::Items(false, rule_elements(rules), seq![])
}

/// The fields of a policy as JSON.
pub open spec fn policy_values(policy: PolicyModel) -> Seq<JsonValue> {
    seq![JsonValue::Number(policy.version as nat), rules_json(policy.rules)]
}

/// A policy as JSON.
pub open spec fn policy_json(policy: PolicyModel) -> JsonValue {
    crate::record::record_json(crate::schema::policy_names(), policy_values(policy))
}

/// The bytes that `serde_json` writes for a policy: an object with all fields in
/// order, `null` for each that is unset, and no whitespace.
pub open spec fn encoded_policy(policy: PolicyModel) -> Seq<u8> {
    crate::layout::written(policy_json(policy))
}

proof fn lemma_range_names()
    ensures
        crate::schema::range_names().no_duplicates(),
        forall|k: int|
            0 <= k < crate::schema::range_names().len() ==> crate::layout::is_plain_text(
                #[trigger] crate::schema::range_names()[k],
            ),
{
    reveal_strlit("start");
    reveal_strlit("end");
    assert("start"@.len() != "end"@.len());
}

proof fn lemma_policy_names()
    ensures
        crate::schema::policy_names().no_duplicates(),
        forall|k: int|
            0 <= k < crate::schema::policy_names().len() ==> crate::layout::is_plain_text(
                #[trigger] crate::schema::policy_names()[k],
            ),
{
    reveal_strlit("version");
    reveal_strlit("rules");
    assert("version"@.len() != "rules"@.len());
}

proof fn lemma_rule_names()
    ensures
        crate::schema::rule_names().no_duplicates(),
        forall|k: int|
            0 <= k < crate::schema::rule_names().len() ==> crate::layout::is_plain_text(
                #[trigger] crate::schema::rule_names()[k],
            ),
{
    reveal_strlit("vendor_id");
    reveal_strlit("device_id");
    reveal_strlit("revision_id");
    reveal_strlit("prog_if");
    reveal_strlit("sub_class");
    reveal_strlit("base_class");
    reveal_strlit("sub_vendor_id");
    reveal_strlit("sub_system_id");
    assert("vendor_id"@.len() == 9 && "vendor_id"@[0] == 'v');
    assert("device_id"@.len() == 9 && "device_id"@[0] == 'd');
    assert("sub_class"@.len() == 9 && "sub_class"@[0] == 's');
    assert("revision_id"@.len() == 11);
    assert("prog_if"@.len() == 7);
    assert("base_class"@.len() == 10);
    assert("sub_vendor_id"@.len() == 13 && "sub_vendor_id"@[4] == 'v');
    assert("sub_system_id"@.len() == 13 && "sub_system_id"@[4] == 's');
}

proof fn lemma_record_is_plain(names: Seq<Seq<char>>, values: Seq<JsonValue>)
    requires
        values.len() == names.len(),
        forall|k: int| 0 <= k < names.len() ==> crate::layout::is_plain_text(#[trigger] names[k]),
        forall|k: int| 0 <= k < values.len() ==> crate::layout::is_plain(#[trigger] values[k]),
    ensures
        crate::layout::is_plain(crate::record::record_json(names, values)),
{
}

proof fn lemma_range_json(range: DeviceIdRange)
    ensures
        crate::layout::is_plain(range_json(range)),
        value_range(range_json(range)) == Some(range),
{
    lemma_range_names();
    lemma_record_is_plain(crate::schema::range_names(), range_values(range));
    crate::record::lemma_record_fields(crate::schema::range_names(), range_values(range));
}

proof fn lemma_rule_is_plain(rule: PolicyRule)
    ensures
        crate::layout::is_plain(rule_json(rule)),
{
    lemma_rule_names();
    if let Some(range) = rule.device_id {
        lemma_range_json(range);
    }
    lemma_record_is_plain(crate::schema::rule_names(), rule_values(rule));
}

proof fn lemma_rule_of_values(rule: PolicyRule, fields: Seq<Option<JsonValue>>)
    requires
        fields == Seq::new(8, |k: int| Some(rule_values(rule)[k])),
    ensures
        rule_of_values(fields) == Some(rule),
{
    assert(value_range_field(Some(range_field_json(rule.device_id))) == Some(rule.device_id)) by {
        if let Some(range) = rule.device_id {
            lemma_range_json(range);
        }
    }
}

proof fn lemma_rule_json(rule: PolicyRule)
    ensures
        value_rule(rule_json(rule)) == Some(rule),
{
    lemma_rule_names();
    crate::record::lemma_record_fields(crate::schema::rule_names(), rule_values(rule));
    lemma_rule_of_values(rule, Seq::new(8, |k: int| Some(rule_values(rule)[k])));
}

proof fn lemma_rules_json(rules: Seq<PolicyRule>)
    ensures
        crate::layout::is_plain(rules_json(rules)),
        value_rule_list(rules_json(rules)) == Some(rules),
{
    let elements = rule_elements(rules);
    assert forall|i: int| 0 <= i < elements.len() implies crate::layout::is_plain_item(
        false,
        #[trigger] elements[i],
    ) && crate::layout::is_plain(elements[i].value) && value_rule(elements[i].value) == Some(
        rules[i],
    ) by {
        lemma_rule_is_plain(rules[i]);
        lemma_rule_json(rules[i]);
    }
    assert(value_rules(elements)->0 =~= rules);
}

/// A policy as JSON is a plain value, and is that policy.
pub proof fn lemma_policy_json(policy: PolicyModel)
    ensures
        crate::layout::is_plain(policy_json(policy)),
        value_policy(policy_json(policy)) == Some(policy),
{
    lemma_policy_names();
    lemma_rules_json(policy.rules);
    lemma_record_is_plain(crate::schema::policy_names(), policy_values(policy));
    crate::record::lemma_record_fields(crate::schema::policy_names(), policy_values(policy));
}

} // verus!
