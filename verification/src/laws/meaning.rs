//! What a JSON value is as a policy, read off its members and elements.
//!
//! An object is read by the keys of its members and an array by the places of its
//! elements. A field that is left out or `null` is unset, whatever the other fields
//! are; a number is that number.

use crate::device_policy::DeviceIdRange;
use crate::device_policy::PolicyModel;
use crate::device_policy::PolicyRule;
use crate::hwid::HardwareIds;
use crate::layout::JsonItem;
use crate::layout::JsonValue;
use vstd::prelude::*;

verus! {

/// Whether no two members have this key.
pub open spec fn at_most_once(items: Seq<JsonItem>, name: Seq<char>) -> bool {
    forall|i: int, j: int|
        0 <= i < j < items.len() ==> !((#[trigger] items[i]).key == Some(name) && (
        #[trigger] items[j]).key == Some(name))
}

/// Whether some member has this key.
pub open spec fn is_given(items: Seq<JsonItem>, name: Seq<char>) -> bool {
    exists|i: int| 0 <= i < items.len() && (#[trigger] items[i]).key == Some(name)
}

/// A 16-bit field is what the members say: the number that one of them gives under
/// the key, and unset where every member under the key, if there is one, is `null`.
pub open spec fn said_u16(items: Seq<JsonItem>, name: Seq<char>, field: Option<u16>) -> bool {
    match field {
        Some(number) => exists|i: int|
            0 <= i < items.len() && (#[trigger] items[i]).key == Some(name)
                && items[i].value == JsonValue::Number(number as nat),
        None => forall|i: int|
            0 <= i < items.len() && (#[trigger] items[i]).key == Some(name)
                ==> items[i].value is Null,
    }
}

/// A 16-bit field is what the element at this place says: its number, and unset
/// where it is `null` or the array ends before it.
pub open spec fn placed_u16(items: Seq<JsonItem>, place: int, field: Option<u16>) -> bool {
    match field {
        Some(number) => place < items.len()
            && items[place].value == JsonValue::Number(number as nat),
        None => place < items.len() ==> items[place].value is Null,
    }
}

/// An 8-bit field is what the members say: the number that one of them gives under
/// the key, and unset where every member under the key, if there is one, is `null`.
pub open spec fn said_u8(items: Seq<JsonItem>, name: Seq<char>, field: Option<u8>) -> bool {
    match field {
        Some(number) => exists|i: int|
            0 <= i < items.len() && (#[trigger] items[i]).key == Some(name)
                && items[i].value == JsonValue::Number(number as nat),
        None => forall|i: int|
            0 <= i < items.len() && (#[trigger] items[i]).key == Some(name)
                ==> items[i].value is Null,
    }
}

/// An 8-bit field is what the element at this place says: its number, and unset
/// where it is `null` or the array ends before it.
pub open spec fn placed_u8(items: Seq<JsonItem>, place: int, field: Option<u8>) -> bool {
    match field {
        Some(number) => place < items.len()
            && items[place].value == JsonValue::Number(number as nat),
        None => place < items.len() ==> items[place].value is Null,
    }
}

/// A device-ID range field is what the members say.
pub open spec fn said_range(
    items: Seq<JsonItem>,
    name: Seq<char>,
    field: Option<DeviceIdRange>,
) -> bool {
    match field {
        Some(range) => exists|i: int|
            0 <= i < items.len() && (#[trigger] items[i]).key == Some(name)
                && !(items[i].value is Null)
                && crate::document::value_range(items[i].value) == Some(range),
        None => forall|i: int|
            0 <= i < items.len() && (#[trigger] items[i]).key == Some(name)
                ==> items[i].value is Null,
    }
}

/// A device-ID range field is what the element at this place says.
pub open spec fn placed_range(
    items: Seq<JsonItem>,
    place: int,
    field: Option<DeviceIdRange>,
) -> bool {
    match field {
        Some(range) => place < items.len() && !(items[place].value is Null)
            && crate::document::value_range(items[place].value) == Some(range),
        None => place < items.len() ==> items[place].value is Null,
    }
}

proof fn lemma_given_once(items: Seq<JsonItem>, name: Seq<char>)
    ensures
        at_most_once(items, name) == !crate::record::gives_twice(
            crate::layout::item_models(items),
            name,
        ),
        at_most_once(items, name) ==> match crate::record::value_field(items, name) {
            Some(value) => exists|i: int|
                0 <= i < items.len() && (#[trigger] items[i]).key == Some(name) && items[i].value
                    == value,
            None => forall|i: int| 0 <= i < items.len() ==> (#[trigger] items[i]).key != Some(name),
        },
        at_most_once(items, name) ==> forall|i: int|
            0 <= i < items.len() && (#[trigger] items[i]).key == Some(name)
                ==> crate::record::value_field(items, name) == Some(items[i].value),
{
    let models = crate::layout::item_models(items);
    assert(forall|i: int|
        0 <= i < items.len() ==> ((#[trigger] items[i]).key == Some(name) <==> crate::record::gives(
            models[i],
            name,
        )));
    assert(forall|i: int|
        0 <= i < items.len() ==> (items[i].key == Some(name) <==> #[trigger] crate::record::gives(
            models[i],
            name,
        )));
    if at_most_once(items, name) {
        assert(!crate::record::gives_twice(models, name));
        assert forall|i: int|
            0 <= i < items.len() && (#[trigger] items[i]).key == Some(
                name,
            ) implies crate::record::value_field(items, name) == Some(items[i].value) by {
            assert(crate::record::gives(models[i], name));
            let j = crate::record::field_index(models, name)->0;
            assert(crate::record::gives(models[j], name));
            assert(items[j].key == Some(name));
            assert(i == j);
        }
        if let Some(j) = crate::record::field_index(models, name) {
            assert(crate::record::gives(models[j], name));
            assert(items[j].key == Some(name));
        }
    } else {
        let (i, j) = choose|i: int, j: int|
            0 <= i < j < items.len() && (#[trigger] items[i]).key == Some(name) && (
            #[trigger] items[j]).key == Some(name);
        assert(crate::record::gives(models[i], name) && crate::record::gives(models[j], name));
    }
}

proof fn lemma_said_u16(items: Seq<JsonItem>, name: Seq<char>, field: Option<u16>)
    requires
        at_most_once(items, name),
    ensures
        crate::document::value_u16(crate::record::value_field(items, name)) == Some(field)
            <==> said_u16(items, name, field),
{
    lemma_given_once(items, name);
}

proof fn lemma_said_u8(items: Seq<JsonItem>, name: Seq<char>, field: Option<u8>)
    requires
        at_most_once(items, name),
    ensures
        crate::document::value_u8(crate::record::value_field(items, name)) == Some(field)
            <==> said_u8(items, name, field),
{
    lemma_given_once(items, name);
}

proof fn lemma_said_range(items: Seq<JsonItem>, name: Seq<char>, field: Option<DeviceIdRange>)
    requires
        at_most_once(items, name),
    ensures
        crate::document::value_range_field(crate::record::value_field(items, name)) == Some(field)
            <==> said_range(items, name, field),
{
    lemma_given_once(items, name);
}

proof fn lemma_rule_of(fields: Seq<Option<JsonValue>>, rule: PolicyRule)
    ensures
        crate::document::rule_of_values(fields) == Some(rule) <==> {
            &&& crate::document::value_u16(fields[0]) == Some(rule.vendor_id)
            &&& crate::document::value_range_field(fields[1]) == Some(rule.device_id)
            &&& crate::document::value_u8(fields[2]) == Some(rule.revision_id)
            &&& crate::document::value_u8(fields[3]) == Some(rule.prog_if)
            &&& crate::document::value_u8(fields[4]) == Some(rule.sub_class)
            &&& crate::document::value_u8(fields[5]) == Some(rule.base_class)
            &&& crate::document::value_u16(fields[6]) == Some(rule.sub_vendor_id)
            &&& crate::document::value_u16(fields[7]) == Some(rule.sub_system_id)
        },
{
}

/// An object is a rule exactly where no field is given twice and each field of the
/// rule is what the member under its own name says.
pub proof fn law_rule_object(value: JsonValue, items: Seq<JsonItem>, gap: Seq<u8>, rule: PolicyRule)
    requires
        value == JsonValue::Items(true, items, gap),
    ensures
        crate::document::value_rule(value) == Some(rule) <==> {
            &&& at_most_once(items, "vendor_id"@)
            &&& at_most_once(items, "device_id"@)
            &&& at_most_once(items, "revision_id"@)
            &&& at_most_once(items, "prog_if"@)
            &&& at_most_once(items, "sub_class"@)
            &&& at_most_once(items, "base_class"@)
            &&& at_most_once(items, "sub_vendor_id"@)
            &&& at_most_once(items, "sub_system_id"@)
            &&& said_u16(items, "vendor_id"@, rule.vendor_id)
            &&& said_range(items, "device_id"@, rule.device_id)
            &&& said_u8(items, "revision_id"@, rule.revision_id)
            &&& said_u8(items, "prog_if"@, rule.prog_if)
            &&& said_u8(items, "sub_class"@, rule.sub_class)
            &&& said_u8(items, "base_class"@, rule.base_class)
            &&& said_u16(items, "sub_vendor_id"@, rule.sub_vendor_id)
            &&& said_u16(items, "sub_system_id"@, rule.sub_system_id)
        },
{
    let names = crate::schema::rule_names();
    assert(names[0] == "vendor_id"@ && names[1] == "device_id"@ && names[2] == "revision_id"@
        && names[3] == "prog_if"@ && names[4] == "sub_class"@ && names[5] == "base_class"@
        && names[6] == "sub_vendor_id"@ && names[7] == "sub_system_id"@);
    lemma_given_once(items, "vendor_id"@);
    lemma_given_once(items, "device_id"@);
    lemma_given_once(items, "revision_id"@);
    lemma_given_once(items, "prog_if"@);
    lemma_given_once(items, "sub_class"@);
    lemma_given_once(items, "base_class"@);
    lemma_given_once(items, "sub_vendor_id"@);
    lemma_given_once(items, "sub_system_id"@);
    if at_most_once(items, "vendor_id"@) && at_most_once(items, "device_id"@)
        && at_most_once(items, "revision_id"@) && at_most_once(items, "prog_if"@)
        && at_most_once(items, "sub_class"@) && at_most_once(items, "base_class"@)
        && at_most_once(items, "sub_vendor_id"@) && at_most_once(items, "sub_system_id"@) {
        assert(crate::record::value_fields(value, names) is Some);
        let fields = crate::record::value_fields(value, names)->0;
        assert(fields[0] == crate::record::value_field(items, "vendor_id"@));
        assert(fields[1] == crate::record::value_field(items, "device_id"@));
        assert(fields[2] == crate::record::value_field(items, "revision_id"@));
        assert(fields[3] == crate::record::value_field(items, "prog_if"@));
        assert(fields[4] == crate::record::value_field(items, "sub_class"@));
        assert(fields[5] == crate::record::value_field(items, "base_class"@));
        assert(fields[6] == crate::record::value_field(items, "sub_vendor_id"@));
        assert(fields[7] == crate::record::value_field(items, "sub_system_id"@));
        lemma_said_u16(items, "vendor_id"@, rule.vendor_id);
        lemma_said_range(items, "device_id"@, rule.device_id);
        lemma_said_u8(items, "revision_id"@, rule.revision_id);
        lemma_said_u8(items, "prog_if"@, rule.prog_if);
        lemma_said_u8(items, "sub_class"@, rule.sub_class);
        lemma_said_u8(items, "base_class"@, rule.base_class);
        lemma_said_u16(items, "sub_vendor_id"@, rule.sub_vendor_id);
        lemma_said_u16(items, "sub_system_id"@, rule.sub_system_id);
        lemma_rule_of(fields, rule);
    } else {
        let k = choose|k: int| 0 <= k < names.len() && !at_most_once(items, #[trigger] names[k]);
        assert(!at_most_once(items, "vendor_id"@) ==> !at_most_once(items, names[0]));
        assert(!at_most_once(items, "device_id"@) ==> !at_most_once(items, names[1]));
        assert(!at_most_once(items, "revision_id"@) ==> !at_most_once(items, names[2]));
        assert(!at_most_once(items, "prog_if"@) ==> !at_most_once(items, names[3]));
        assert(!at_most_once(items, "sub_class"@) ==> !at_most_once(items, names[4]));
        assert(!at_most_once(items, "base_class"@) ==> !at_most_once(items, names[5]));
        assert(!at_most_once(items, "sub_vendor_id"@) ==> !at_most_once(items, names[6]));
        assert(!at_most_once(items, "sub_system_id"@) ==> !at_most_once(items, names[7]));
        lemma_given_once(items, names[k]);
        assert(crate::record::gives_twice(crate::layout::item_models(items), names[k]));
        assert(crate::record::value_fields(value, names) is None);
    }
}

/// An object is a device-ID range exactly where no bound is given twice and each
/// bound is what the member under its own name says.
pub proof fn law_range_object(
    value: JsonValue,
    items: Seq<JsonItem>,
    gap: Seq<u8>,
    range: DeviceIdRange,
)
    requires
        value == JsonValue::Items(true, items, gap),
    ensures
        crate::document::value_range(value) == Some(range) <==> {
            &&& at_most_once(items, "start"@)
            &&& at_most_once(items, "end"@)
            &&& said_u16(items, "start"@, range.start)
            &&& said_u16(items, "end"@, range.end)
        },
{
    let names = crate::schema::range_names();
    assert(names[0] == "start"@ && names[1] == "end"@);
    lemma_given_once(items, "start"@);
    lemma_given_once(items, "end"@);
    if at_most_once(items, "start"@) && at_most_once(items, "end"@) {
        assert(crate::record::value_fields(value, names) is Some);
        let fields = crate::record::value_fields(value, names)->0;
        assert(fields[0] == crate::record::value_field(items, "start"@));
        assert(fields[1] == crate::record::value_field(items, "end"@));
        lemma_said_u16(items, "start"@, range.start);
        lemma_said_u16(items, "end"@, range.end);
    } else {
        let k = choose|k: int| 0 <= k < names.len() && !at_most_once(items, #[trigger] names[k]);
        assert(!at_most_once(items, "start"@) ==> !at_most_once(items, names[0]));
        assert(!at_most_once(items, "end"@) ==> !at_most_once(items, names[1]));
        lemma_given_once(items, names[k]);
        assert(crate::record::gives_twice(crate::layout::item_models(items), names[k]));
        assert(crate::record::value_fields(value, names) is None);
    }
}

/// An object is a policy exactly where neither field is given twice, the member
/// `version` is the policy's version and the member `rules` is its list of rules.
pub proof fn law_policy_object(
    value: JsonValue,
    items: Seq<JsonItem>,
    gap: Seq<u8>,
    policy: PolicyModel,
)
    requires
        value == JsonValue::Items(true, items, gap),
    ensures
        crate::document::value_policy(value) == Some(policy) <==> {
            &&& at_most_once(items, "version"@)
            &&& at_most_once(items, "rules"@)
            &&& exists|i: int| 0 <= i < items.len()
                && (#[trigger] items[i]).key == Some("version"@)
                && items[i].value == JsonValue::Number(policy.version as nat)
            &&& exists|i: int| 0 <= i < items.len() && (#[trigger] items[i]).key == Some("rules"@)
                && crate::document::value_rule_list(items[i].value) == Some(policy.rules)
        },
{
    let names = crate::schema::policy_names();
    assert(names[0] == "version"@ && names[1] == "rules"@);
    lemma_given_once(items, "version"@);
    lemma_given_once(items, "rules"@);
    if at_most_once(items, "version"@) && at_most_once(items, "rules"@) {
        assert(crate::record::value_fields(value, names) is Some);
        let fields = crate::record::value_fields(value, names)->0;
        assert(fields[0] == crate::record::value_field(items, "version"@));
        assert(fields[1] == crate::record::value_field(items, "rules"@));

    } else {
        let k = choose|k: int| 0 <= k < names.len() && !at_most_once(items, #[trigger] names[k]);
        assert(!at_most_once(items, "version"@) ==> !at_most_once(items, names[0]));
        assert(!at_most_once(items, "rules"@) ==> !at_most_once(items, names[1]));
        lemma_given_once(items, names[k]);
        assert(crate::record::gives_twice(crate::layout::item_models(items), names[k]));
        assert(crate::record::value_fields(value, names) is None);
    }
}

/// An array is a rule exactly where it has no more elements than a rule has fields
/// and each field is what the element at its place says.
pub proof fn law_rule_array(value: JsonValue, items: Seq<JsonItem>, gap: Seq<u8>, rule: PolicyRule)
    requires
        value == JsonValue::Items(false, items, gap),
    ensures
        crate::document::value_rule(value) == Some(rule) <==> {
            &&& items.len() <= 8
            &&& placed_u16(items, 0, rule.vendor_id)
            &&& placed_range(items, 1, rule.device_id)
            &&& placed_u8(items, 2, rule.revision_id)
            &&& placed_u8(items, 3, rule.prog_if)
            &&& placed_u8(items, 4, rule.sub_class)
            &&& placed_u8(items, 5, rule.base_class)
            &&& placed_u16(items, 6, rule.sub_vendor_id)
            &&& placed_u16(items, 7, rule.sub_system_id)
        },
{
    let names = crate::schema::rule_names();
    if items.len() <= 8 {
        let fields = crate::record::value_fields(value, names)->0;
        assert(crate::record::value_fields(value, names) is Some);
        assert(fields[0] == if 0 < items.len() { Some(items[0].value) } else { None });

        assert(fields[1] == if 1 < items.len() { Some(items[1].value) } else { None });

        assert(fields[2] == if 2 < items.len() { Some(items[2].value) } else { None });

        assert(fields[3] == if 3 < items.len() { Some(items[3].value) } else { None });

        assert(fields[4] == if 4 < items.len() { Some(items[4].value) } else { None });

        assert(fields[5] == if 5 < items.len() { Some(items[5].value) } else { None });

        assert(fields[6] == if 6 < items.len() { Some(items[6].value) } else { None });

        assert(fields[7] == if 7 < items.len() { Some(items[7].value) } else { None });

        lemma_rule_of(fields, rule);
    }
}

/// An array is a device-ID range exactly where it has no more than two elements and
/// each bound is what the element at its place says.
pub proof fn law_range_array(
    value: JsonValue,
    items: Seq<JsonItem>,
    gap: Seq<u8>,
    range: DeviceIdRange,
)
    requires
        value == JsonValue::Items(false, items, gap),
    ensures
        crate::document::value_range(value) == Some(range) <==> {
            &&& items.len() <= 2
            &&& placed_u16(items, 0, range.start)
            &&& placed_u16(items, 1, range.end)
        },
{
    let names = crate::schema::range_names();
    if items.len() <= 2 {
        let fields = crate::record::value_fields(value, names)->0;
        assert(crate::record::value_fields(value, names) is Some);
        assert(fields[0] == if 0 < items.len() { Some(items[0].value) } else { None });

        assert(fields[1] == if 1 < items.len() { Some(items[1].value) } else { None });

    }
}

/// An array is a policy exactly where it has two elements, the policy's version and
/// its list of rules.
pub proof fn law_policy_array(
    value: JsonValue,
    items: Seq<JsonItem>,
    gap: Seq<u8>,
    policy: PolicyModel,
)
    requires
        value == JsonValue::Items(false, items, gap),
    ensures
        crate::document::value_policy(value) == Some(policy) <==> {
            &&& items.len() == 2
            &&& items[0].value == JsonValue::Number(policy.version as nat)
            &&& crate::document::value_rule_list(items[1].value) == Some(policy.rules)
        },
{
    let names = crate::schema::policy_names();
    if items.len() <= 2 {
        let fields = crate::record::value_fields(value, names)->0;
        assert(crate::record::value_fields(value, names) is Some);
        assert(items.len() < 2 ==> fields[1] is None);
    }
}

/// An array is a list of rules exactly where each of its elements is the rule at the
/// same place in the list, one for one.
pub proof fn law_rule_list(
    value: JsonValue,
    items: Seq<JsonItem>,
    gap: Seq<u8>,
    rules: Seq<PolicyRule>,
)
    requires
        value == JsonValue::Items(false, items, gap),
    ensures
        crate::document::value_rule_list(value) == Some(rules) <==> {
            &&& items.len() == rules.len()
            &&& forall|i: int| 0 <= i < items.len()
                ==> crate::document::value_rule((#[trigger] items[i]).value) == Some(rules[i])
        },
{
    if crate::document::value_rule_list(value) == Some(rules) {
        assert forall|i: int| 0 <= i < items.len() implies crate::document::value_rule(
            (#[trigger] items[i]).value,
        ) == Some(rules[i]) by {
            assert(crate::document::value_rule(items[i].value) is Some);
        }
    }
    if items.len() == rules.len() && (forall|i: int|
        0 <= i < items.len()
            ==> crate::document::value_rule((#[trigger] items[i]).value) == Some(rules[i])) {
        assert(crate::document::value_rule_list(value)->0 =~= rules);
    }
}

/// What is neither an object nor an array is no policy, no rule and no range; and
/// what is no array is no list of rules.
pub proof fn law_only_records_are_read(value: JsonValue)
    ensures
        !(value is Items) ==> {
            &&& crate::document::value_policy(value) is None
            &&& crate::document::value_rule(value) is None
            &&& crate::document::value_range(value) is None
        },
        !(value is Items && !value->Items_0) ==> crate::document::value_rule_list(value) is None,
{
}

/// A field of a rule that no member gives is unset, whatever the other members are.
pub proof fn law_left_out_field_is_unset(
    value: JsonValue,
    items: Seq<JsonItem>,
    gap: Seq<u8>,
    rule: PolicyRule,
)
    requires
        value == JsonValue::Items(true, items, gap),
        crate::document::value_rule(value) == Some(rule),
    ensures
        !is_given(items, "vendor_id"@) ==> rule.vendor_id is None,
        !is_given(items, "device_id"@) ==> rule.device_id is None,
        !is_given(items, "revision_id"@) ==> rule.revision_id is None,
        !is_given(items, "prog_if"@) ==> rule.prog_if is None,
        !is_given(items, "sub_class"@) ==> rule.sub_class is None,
        !is_given(items, "base_class"@) ==> rule.base_class is None,
        !is_given(items, "sub_vendor_id"@) ==> rule.sub_vendor_id is None,
        !is_given(items, "sub_system_id"@) ==> rule.sub_system_id is None,
{
    law_rule_object(value, items, gap, rule);
}

/// A bound of a device-ID range that no member gives is open, whatever the other
/// bound is.
pub proof fn law_left_out_bound_is_open(
    value: JsonValue,
    items: Seq<JsonItem>,
    gap: Seq<u8>,
    range: DeviceIdRange,
)
    requires
        value == JsonValue::Items(true, items, gap),
        crate::document::value_range(value) == Some(range),
    ensures
        !is_given(items, "start"@) ==> range.start is None,
        !is_given(items, "end"@) ==> range.end is None,
{
    law_range_object(value, items, gap, range);
}

/// A policy gives its version and its rules: where either is left out, there is no
/// policy.
pub proof fn law_policy_needs_both_fields(value: JsonValue, items: Seq<JsonItem>, gap: Seq<u8>)
    requires
        value == JsonValue::Items(true, items, gap),
        !is_given(items, "version"@) || !is_given(items, "rules"@),
    ensures
        crate::document::value_policy(value) is None,
{
    if let Some(policy) = crate::document::value_policy(value) {
        law_policy_object(value, items, gap, policy);
    }
}

/// A field that is given twice, were it twice the same, makes an object no rule, no
/// range and no policy.
pub proof fn law_field_given_twice_is_refused(value: JsonValue, items: Seq<JsonItem>, gap: Seq<u8>)
    requires
        value == JsonValue::Items(true, items, gap),
    ensures
        ({
            ||| !at_most_once(items, "vendor_id"@)
            ||| !at_most_once(items, "device_id"@)
            ||| !at_most_once(items, "revision_id"@)
            ||| !at_most_once(items, "prog_if"@)
            ||| !at_most_once(items, "sub_class"@)
            ||| !at_most_once(items, "base_class"@)
            ||| !at_most_once(items, "sub_vendor_id"@)
            ||| !at_most_once(items, "sub_system_id"@)
        }) ==> crate::document::value_rule(value) is None,
        !at_most_once(items, "start"@) || !at_most_once(items, "end"@)
            ==> crate::document::value_range(value) is None,
        !at_most_once(items, "version"@) || !at_most_once(items, "rules"@)
            ==> crate::document::value_policy(value) is None,
{
    if let Some(rule) = crate::document::value_rule(value) {
        law_rule_object(value, items, gap, rule);
    }
    if let Some(range) = crate::document::value_range(value) {
        law_range_object(value, items, gap, range);
    }
    if let Some(policy) = crate::document::value_policy(value) {
        law_policy_object(value, items, gap, policy);
    }
}

/// Adding a member that gives a field as `null` changes nothing where the field was
/// left out: a rule object decodes to the same rule as the object with `null` for
/// all fields that it leaves out, and is refused where that one is.
pub proof fn law_null_member_changes_nothing(
    items: Seq<JsonItem>,
    gap: Seq<u8>,
    item: JsonItem,
    name: Seq<char>,
)
    requires
        item.key == Some(name),
        item.value is Null,
        !is_given(items, name),
    ensures
        crate::schema::rule_names().contains(name) ==> crate::document::value_rule(
            JsonValue::Items(true, items.push(item), gap),
        ) == crate::document::value_rule(JsonValue::Items(true, items, gap)),
        crate::schema::range_names().contains(name) ==> crate::document::value_range(
            JsonValue::Items(true, items.push(item), gap),
        ) == crate::document::value_range(JsonValue::Items(true, items, gap)),
{
    let more = items.push(item);
    let value = JsonValue::Items(true, items, gap);
    let other = JsonValue::Items(true, more, gap);
    lemma_null_member(items, item, name, "vendor_id"@);
    lemma_null_member(items, item, name, "device_id"@);
    lemma_null_member(items, item, name, "revision_id"@);
    lemma_null_member(items, item, name, "prog_if"@);
    lemma_null_member(items, item, name, "sub_class"@);
    lemma_null_member(items, item, name, "base_class"@);
    lemma_null_member(items, item, name, "sub_vendor_id"@);
    lemma_null_member(items, item, name, "sub_system_id"@);
    lemma_null_member(items, item, name, "start"@);
    lemma_null_member(items, item, name, "end"@);
    if let Some(rule) = crate::document::value_rule(value) {
        law_rule_object(value, items, gap, rule);
        law_rule_object(other, more, gap, rule);
    }
    if let Some(rule) = crate::document::value_rule(other) {
        law_rule_object(value, items, gap, rule);
        law_rule_object(other, more, gap, rule);
    }
    if let Some(range) = crate::document::value_range(value) {
        law_range_object(value, items, gap, range);
        law_range_object(other, more, gap, range);
    }
    if let Some(range) = crate::document::value_range(other) {
        law_range_object(value, items, gap, range);
        law_range_object(other, more, gap, range);
    }
}

proof fn lemma_null_member(items: Seq<JsonItem>, item: JsonItem, name: Seq<char>, field: Seq<char>)
    requires
        item.key == Some(name),
        item.value is Null,
        !is_given(items, name),
    ensures
        at_most_once(items.push(item), field) == at_most_once(items, field),
        forall|number: Option<u16>| #[trigger]
            said_u16(items.push(item), field, number) == said_u16(items, field, number),
        forall|number: Option<u8>| #[trigger]
            said_u8(items.push(item), field, number) == said_u8(items, field, number),
        forall|range: Option<DeviceIdRange>| #[trigger]
            said_range(items.push(item), field, range) == said_range(items, field, range),
{
    let more = items.push(item);
    assert(more[items.len() as int] == item);
    assert(forall|i: int| 0 <= i < items.len() ==> #[trigger] more[i] == items[i]);
    assert(forall|i: int| 0 <= i < items.len() ==> more[i] == #[trigger] items[i]);
}

/// A field that a rule object leaves out is a wildcard: the rule admits a device of
/// any value there as it admits the same device of any other.
pub proof fn law_left_out_field_is_a_wildcard(
    value: JsonValue,
    items: Seq<JsonItem>,
    gap: Seq<u8>,
    rule: PolicyRule,
    hw: HardwareIds,
    other: HardwareIds,
)
    requires
        value == JsonValue::Items(true, items, gap),
        crate::document::value_rule(value) == Some(rule),
        is_given(items, "vendor_id"@) ==> hw.vendor_id == other.vendor_id,
        is_given(items, "device_id"@) ==> hw.device_id == other.device_id,
        is_given(items, "revision_id"@) ==> hw.revision_id == other.revision_id,
        is_given(items, "prog_if"@) ==> hw.prog_if == other.prog_if,
        is_given(items, "sub_class"@) ==> hw.sub_class == other.sub_class,
        is_given(items, "base_class"@) ==> hw.base_class == other.base_class,
        is_given(items, "sub_vendor_id"@) ==> hw.type0_sub_vendor_id == other.type0_sub_vendor_id,
        is_given(items, "sub_system_id"@) ==> hw.type0_sub_system_id == other.type0_sub_system_id,
    ensures
        rule.admits_device(hw) == rule.admits_device(other),
{
    law_left_out_field_is_unset(value, items, gap, rule);
    crate::laws::admission::law_rule_ignores_what_it_does_not_set(rule, hw, other);
}

} // verus!
