//! What a document decodes to, read off the members and elements that it is written
//! with.
//!
//! An object decodes by the keys of its members and an array by the places of its
//! elements. A field that is left out or `null` is unset, whatever the other fields
//! are; a number is the number that is written.

use crate::device_policy::DeviceIdRange;
use crate::device_policy::PolicyModel;
use crate::device_policy::PolicyRule;
use crate::json::Item;
use crate::json::ItemModel;
use vstd::prelude::*;

verus! {

/// Whether no two members have this key.
pub open spec fn at_most_once(items: Seq<ItemModel>, name: Seq<char>) -> bool {
    forall|i: int, j: int|
        0 <= i < j < items.len() ==> !((#[trigger] items[i]).key == Some(name) && (
        #[trigger] items[j]).key == Some(name))
}

/// Whether some member has this key.
pub open spec fn is_given(items: Seq<ItemModel>, name: Seq<char>) -> bool {
    exists|i: int| 0 <= i < items.len() && (#[trigger] items[i]).key == Some(name)
}

/// A 16-bit field is what the members say: the number that one of them gives under
/// the key, and unset where every member under the key, if there is one, is `null`.
pub open spec fn said_u16(items: Seq<ItemModel>, name: Seq<char>, field: Option<u16>) -> bool {
    match field {
        Some(number) => exists|i: int|
            0 <= i < items.len() && (#[trigger] items[i]).key == Some(name)
                && crate::json::is_word(items[i].value, crate::json::numeral(number as nat)),
        None => forall|i: int|
            0 <= i < items.len() && (#[trigger] items[i]).key == Some(name)
                ==> crate::json::is_word(items[i].value, crate::json::null_literal()),
    }
}

/// A 16-bit field is what the element at this place says: its number, and unset
/// where it is `null` or the array ends before it.
pub open spec fn placed_u16(items: Seq<ItemModel>, place: int, field: Option<u16>) -> bool {
    match field {
        Some(number) => place < items.len()
            && crate::json::is_word(items[place].value, crate::json::numeral(number as nat)),
        None => place < items.len()
            ==> crate::json::is_word(items[place].value, crate::json::null_literal()),
    }
}

/// An 8-bit field is what the members say: the number that one of them gives under
/// the key, and unset where every member under the key, if there is one, is `null`.
pub open spec fn said_u8(items: Seq<ItemModel>, name: Seq<char>, field: Option<u8>) -> bool {
    match field {
        Some(number) => exists|i: int|
            0 <= i < items.len() && (#[trigger] items[i]).key == Some(name)
                && crate::json::is_word(items[i].value, crate::json::numeral(number as nat)),
        None => forall|i: int|
            0 <= i < items.len() && (#[trigger] items[i]).key == Some(name)
                ==> crate::json::is_word(items[i].value, crate::json::null_literal()),
    }
}

/// An 8-bit field is what the element at this place says: its number, and unset
/// where it is `null` or the array ends before it.
pub open spec fn placed_u8(items: Seq<ItemModel>, place: int, field: Option<u8>) -> bool {
    match field {
        Some(number) => place < items.len()
            && crate::json::is_word(items[place].value, crate::json::numeral(number as nat)),
        None => place < items.len()
            ==> crate::json::is_word(items[place].value, crate::json::null_literal()),
    }
}

/// A device-ID range field is what the members say.
pub open spec fn said_range(
    items: Seq<ItemModel>,
    name: Seq<char>,
    field: Option<DeviceIdRange>,
) -> bool {
    match field {
        Some(range) => exists|i: int|
            0 <= i < items.len() && (#[trigger] items[i]).key == Some(name)
                && !(crate::json::is_word(items[i].value, crate::json::null_literal()))
                && crate::schema::decoded_range(items[i].value) == Some(range),
        None => forall|i: int|
            0 <= i < items.len() && (#[trigger] items[i]).key == Some(name)
                ==> crate::json::is_word(items[i].value, crate::json::null_literal()),
    }
}

/// A device-ID range field is what the element at this place says.
pub open spec fn placed_range(
    items: Seq<ItemModel>,
    place: int,
    field: Option<DeviceIdRange>,
) -> bool {
    match field {
        Some(range) => place < items.len()
            && !(crate::json::is_word(items[place].value, crate::json::null_literal()))
            && crate::schema::decoded_range(items[place].value) == Some(range),
        None => place < items.len()
            ==> crate::json::is_word(items[place].value, crate::json::null_literal()),
    }
}

proof fn lemma_given_once(items: Seq<ItemModel>, name: Seq<char>)
    ensures
        at_most_once(items, name) == !crate::record::gives_twice(items, name),
        at_most_once(items, name) ==> match crate::record::named_field(items, name) {
            Some(value) => exists|i: int|
                0 <= i < items.len() && (#[trigger] items[i]).key == Some(name) && items[i].value
                    == value,
            None => forall|i: int| 0 <= i < items.len() ==> (#[trigger] items[i]).key != Some(name),
        },
        at_most_once(items, name) ==> forall|i: int|
            0 <= i < items.len() && (#[trigger] items[i]).key == Some(name)
                ==> crate::record::named_field(items, name) == Some(items[i].value),
{
    assert(forall|i: int|
        0 <= i < items.len() ==> ((#[trigger] items[i]).key == Some(name)
            <==> crate::record::gives(items[i], name)));
    if at_most_once(items, name) {
        assert(!crate::record::gives_twice(items, name));
        assert forall|i: int|
            0 <= i < items.len() && (#[trigger] items[i]).key == Some(
                name,
            ) implies crate::record::named_field(items, name) == Some(items[i].value) by {
            crate::laws::law_field_has_given_value(items, name, i);
        }
    } else {
        let (i, j) = choose|i: int, j: int|
            0 <= i < j < items.len() && (#[trigger] items[i]).key == Some(name) && (
            #[trigger] items[j]).key == Some(name);
        assert(crate::record::gives(items[i], name) && crate::record::gives(items[j], name));
    }
}

proof fn lemma_number_decodes(text: Seq<u8>, limit: nat)
    ensures
        crate::json::number_in(text, limit) matches Some(number) ==> number <= limit
            && crate::json::is_word(text, crate::json::numeral(number)),
        forall|number: nat|
            number <= limit && #[trigger] crate::json::is_word(text, crate::json::numeral(number))
                ==> crate::json::number_in(text, limit) == Some(number)
                && !crate::json::is_word(text, crate::json::null_literal()),
{
    assert forall|number: nat|
        number <= limit && #[trigger] crate::json::is_word(
            text,
            crate::json::numeral(number),
        ) implies crate::json::number_in(text, limit) == Some(number) && !crate::json::is_word(
        text,
        crate::json::null_literal(),
    ) by {
        crate::json::law_numeral_reads_back(text, number, limit);
        if crate::json::is_word(text, crate::json::null_literal()) {
            crate::json::law_null_is_no_number(text, number);
        }
    }
}

proof fn lemma_text_u16(text: Seq<u8>, field: Option<u16>)
    ensures
        crate::schema::decoded_u16(Some(text)) == Some(field) <==> match field {
            Some(number) => crate::json::is_word(text, crate::json::numeral(number as nat)),
            None => crate::json::is_word(text, crate::json::null_literal()),
        },
{
    lemma_number_decodes(text, u16::MAX as nat);
    if let Some(number) = field {
        let numeral = crate::json::numeral(number as nat);
        assert(crate::json::is_word(text, numeral) ==> crate::json::number_in(
            text,
            u16::MAX as nat,
        ) == Some(number as nat));
    }
}

proof fn lemma_said_u16(items: Seq<ItemModel>, name: Seq<char>, field: Option<u16>)
    requires
        at_most_once(items, name),
    ensures
        crate::schema::decoded_u16(crate::record::named_field(items, name)) == Some(field)
            <==> said_u16(items, name, field),
{
    lemma_given_once(items, name);
    if let Some(text) = crate::record::named_field(items, name) {
        lemma_text_u16(text, field);
    }
}

proof fn lemma_text_u8(text: Seq<u8>, field: Option<u8>)
    ensures
        crate::schema::decoded_u8(Some(text)) == Some(field) <==> match field {
            Some(number) => crate::json::is_word(text, crate::json::numeral(number as nat)),
            None => crate::json::is_word(text, crate::json::null_literal()),
        },
{
    lemma_number_decodes(text, u8::MAX as nat);
    if let Some(number) = field {
        let numeral = crate::json::numeral(number as nat);
        assert(crate::json::is_word(text, numeral) ==> crate::json::number_in(
            text,
            u8::MAX as nat,
        ) == Some(number as nat));
    }
}

proof fn lemma_said_u8(items: Seq<ItemModel>, name: Seq<char>, field: Option<u8>)
    requires
        at_most_once(items, name),
    ensures
        crate::schema::decoded_u8(crate::record::named_field(items, name)) == Some(field)
            <==> said_u8(items, name, field),
{
    lemma_given_once(items, name);
    if let Some(text) = crate::record::named_field(items, name) {
        lemma_text_u8(text, field);
    }
}

proof fn lemma_said_range(items: Seq<ItemModel>, name: Seq<char>, field: Option<DeviceIdRange>)
    requires
        at_most_once(items, name),
    ensures
        crate::schema::decoded_range_field(crate::record::named_field(items, name)) == Some(field)
            <==> said_range(items, name, field),
{
    lemma_given_once(items, name);
}

proof fn lemma_rule_of(fields: Seq<Option<Seq<u8>>>, rule: PolicyRule)
    ensures
        crate::schema::rule_of(fields) == Some(rule) <==> {
            &&& crate::schema::decoded_u16(fields[0]) == Some(rule.vendor_id)
            &&& crate::schema::decoded_range_field(fields[1]) == Some(rule.device_id)
            &&& crate::schema::decoded_u8(fields[2]) == Some(rule.revision_id)
            &&& crate::schema::decoded_u8(fields[3]) == Some(rule.prog_if)
            &&& crate::schema::decoded_u8(fields[4]) == Some(rule.sub_class)
            &&& crate::schema::decoded_u8(fields[5]) == Some(rule.base_class)
            &&& crate::schema::decoded_u16(fields[6]) == Some(rule.sub_vendor_id)
            &&& crate::schema::decoded_u16(fields[7]) == Some(rule.sub_system_id)
        },
{
}

/// An object is a rule exactly where no field is given twice and each field of the
/// rule is what the member under its own name says.
pub proof fn law_rule_object(text: Seq<u8>, items: Seq<ItemModel>, rule: PolicyRule)
    requires
        crate::json::items(text, true) == Some(items),
    ensures
        crate::schema::decoded_rule(text) == Some(rule) <==> {
            &&& at_most_once(items, "vendor_id"@)
            &&& at_most_once(items, "device_id"@)
            &&& at_most_once(items, "revision_id"@)
            &&& at_most_once(items, "prog_if"@)
            &&& at_most_once(items, "sub_class"@)
            &&& at_most_once(items, "base_class"@)
            &&& at_most_once(items, "sub_vendor_id"@)
            &&& at_most_once(items, "sub_system_id"@)
            &&& said_u16(items, "vendor_id"@, rule.vendor_id)
            &&& said_range(items, "device_id"@, rule.device_id)
            &&& said_u8(items, "revision_id"@, rule.revision_id)
            &&& said_u8(items, "prog_if"@, rule.prog_if)
            &&& said_u8(items, "sub_class"@, rule.sub_class)
            &&& said_u8(items, "base_class"@, rule.base_class)
            &&& said_u16(items, "sub_vendor_id"@, rule.sub_vendor_id)
            &&& said_u16(items, "sub_system_id"@, rule.sub_system_id)
        },
{
    let names = crate::schema::rule_names();
    assert(names[0] == "vendor_id"@ && names[1] == "device_id"@ && names[2] == "revision_id"@
        && names[3] == "prog_if"@ && names[4] == "sub_class"@ && names[5] == "base_class"@
        && names[6] == "sub_vendor_id"@ && names[7] == "sub_system_id"@);
    lemma_given_once(items, "vendor_id"@);
    lemma_given_once(items, "device_id"@);
    lemma_given_once(items, "revision_id"@);
    lemma_given_once(items, "prog_if"@);
    lemma_given_once(items, "sub_class"@);
    lemma_given_once(items, "base_class"@);
    lemma_given_once(items, "sub_vendor_id"@);
    lemma_given_once(items, "sub_system_id"@);
    if at_most_once(items, "vendor_id"@) && at_most_once(items, "device_id"@)
        && at_most_once(items, "revision_id"@) && at_most_once(items, "prog_if"@)
        && at_most_once(items, "sub_class"@) && at_most_once(items, "base_class"@)
        && at_most_once(items, "sub_vendor_id"@) && at_most_once(items, "sub_system_id"@) {
        assert(crate::record::fields(text, names) is Some);
        let fields = crate::record::fields(text, names)->0;
        assert(fields[0] == crate::record::named_field(items, "vendor_id"@));
        assert(fields[1] == crate::record::named_field(items, "device_id"@));
        assert(fields[2] == crate::record::named_field(items, "revision_id"@));
        assert(fields[3] == crate::record::named_field(items, "prog_if"@));
        assert(fields[4] == crate::record::named_field(items, "sub_class"@));
        assert(fields[5] == crate::record::named_field(items, "base_class"@));
        assert(fields[6] == crate::record::named_field(items, "sub_vendor_id"@));
        assert(fields[7] == crate::record::named_field(items, "sub_system_id"@));
        lemma_said_u16(items, "vendor_id"@, rule.vendor_id);
        lemma_said_range(items, "device_id"@, rule.device_id);
        lemma_said_u8(items, "revision_id"@, rule.revision_id);
        lemma_said_u8(items, "prog_if"@, rule.prog_if);
        lemma_said_u8(items, "sub_class"@, rule.sub_class);
        lemma_said_u8(items, "base_class"@, rule.base_class);
        lemma_said_u16(items, "sub_vendor_id"@, rule.sub_vendor_id);
        lemma_said_u16(items, "sub_system_id"@, rule.sub_system_id);
        lemma_rule_of(fields, rule);
    } else {
        let k = choose|k: int| 0 <= k < names.len() && !at_most_once(items, #[trigger] names[k]);
        assert(!at_most_once(items, "vendor_id"@) ==> !at_most_once(items, names[0]));
        assert(!at_most_once(items, "device_id"@) ==> !at_most_once(items, names[1]));
        assert(!at_most_once(items, "revision_id"@) ==> !at_most_once(items, names[2]));
        assert(!at_most_once(items, "prog_if"@) ==> !at_most_once(items, names[3]));
        assert(!at_most_once(items, "sub_class"@) ==> !at_most_once(items, names[4]));
        assert(!at_most_once(items, "base_class"@) ==> !at_most_once(items, names[5]));
        assert(!at_most_once(items, "sub_vendor_id"@) ==> !at_most_once(items, names[6]));
        assert(!at_most_once(items, "sub_system_id"@) ==> !at_most_once(items, names[7]));
        lemma_given_once(items, names[k]);
        assert(crate::record::gives_twice(items, names[k]));
        assert(crate::record::fields(text, names) is None);
    }
}

/// An object is a device-ID range exactly where no bound is given twice and each
/// bound is what the member under its own name says.
pub proof fn law_range_object(text: Seq<u8>, items: Seq<ItemModel>, range: DeviceIdRange)
    requires
        crate::json::items(text, true) == Some(items),
    ensures
        crate::schema::decoded_range(text) == Some(range) <==> {
            &&& at_most_once(items, "start"@)
            &&& at_most_once(items, "end"@)
            &&& said_u16(items, "start"@, range.start)
            &&& said_u16(items, "end"@, range.end)
        },
{
    let names = crate::schema::range_names();
    assert(names[0] == "start"@ && names[1] == "end"@);
    lemma_given_once(items, "start"@);
    lemma_given_once(items, "end"@);
    if at_most_once(items, "start"@) && at_most_once(items, "end"@) {
        assert(crate::record::fields(text, names) is Some);
        let fields = crate::record::fields(text, names)->0;
        assert(fields[0] == crate::record::named_field(items, "start"@));
        assert(fields[1] == crate::record::named_field(items, "end"@));
        lemma_said_u16(items, "start"@, range.start);
        lemma_said_u16(items, "end"@, range.end);
    } else {
        let k = choose|k: int| 0 <= k < names.len() && !at_most_once(items, #[trigger] names[k]);
        assert(!at_most_once(items, "start"@) ==> !at_most_once(items, names[0]));
        assert(!at_most_once(items, "end"@) ==> !at_most_once(items, names[1]));
        lemma_given_once(items, names[k]);
        assert(crate::record::gives_twice(items, names[k]));
        assert(crate::record::fields(text, names) is None);
    }
}

/// An object is a policy exactly where neither field is given twice, the member
/// `version` is the policy's version and the member `rules` is its list of rules.
pub proof fn law_policy_object(text: Seq<u8>, items: Seq<ItemModel>, policy: PolicyModel)
    requires
        crate::json::items(text, true) == Some(items),
    ensures
        crate::schema::decoded_policy(text) == Some(policy) <==> {
            &&& at_most_once(items, "version"@)
            &&& at_most_once(items, "rules"@)
            &&& exists|i: int| 0 <= i < items.len()
                && (#[trigger] items[i]).key == Some("version"@)
                && crate::json::is_word(
                items[i].value,
                crate::json::numeral(policy.version as nat),
            )
            &&& exists|i: int| 0 <= i < items.len() && (#[trigger] items[i]).key == Some("rules"@)
                && crate::schema::decoded_rule_list(items[i].value) == Some(policy.rules)
        },
{
    let names = crate::schema::policy_names();
    assert(names[0] == "version"@ && names[1] == "rules"@);
    lemma_given_once(items, "version"@);
    lemma_given_once(items, "rules"@);
    if at_most_once(items, "version"@) && at_most_once(items, "rules"@) {
        assert(crate::record::fields(text, names) is Some);
        let fields = crate::record::fields(text, names)->0;
        assert(fields[0] == crate::record::named_field(items, "version"@));
        assert(fields[1] == crate::record::named_field(items, "rules"@));
        if let (Some(version), Some(rules)) = (fields[0], fields[1]) {
            lemma_number_decodes(version, u32::MAX as nat);
            assert(crate::json::is_word(version, crate::json::numeral(policy.version as nat))
                ==> crate::json::number_in(version, u32::MAX as nat) == Some(
                policy.version as nat,
            ));
        }
    } else {
        let k = choose|k: int| 0 <= k < names.len() && !at_most_once(items, #[trigger] names[k]);
        assert(!at_most_once(items, "version"@) ==> !at_most_once(items, names[0]));
        assert(!at_most_once(items, "rules"@) ==> !at_most_once(items, names[1]));
        lemma_given_once(items, names[k]);
        assert(crate::record::gives_twice(items, names[k]));
        assert(crate::record::fields(text, names) is None);
    }
}

/// An array is a rule exactly where it has no more elements than a rule has fields
/// and each field is what the element at its place says.
pub proof fn law_rule_array(text: Seq<u8>, items: Seq<ItemModel>, rule: PolicyRule)
    requires
        crate::json::items(text, false) == Some(items),
    ensures
        crate::schema::decoded_rule(text) == Some(rule) <==> {
            &&& items.len() <= 8
            &&& placed_u16(items, 0, rule.vendor_id)
            &&& placed_range(items, 1, rule.device_id)
            &&& placed_u8(items, 2, rule.revision_id)
            &&& placed_u8(items, 3, rule.prog_if)
            &&& placed_u8(items, 4, rule.sub_class)
            &&& placed_u8(items, 5, rule.base_class)
            &&& placed_u16(items, 6, rule.sub_vendor_id)
            &&& placed_u16(items, 7, rule.sub_system_id)
        },
{
    let names = crate::schema::rule_names();
    if items.len() <= 8 {
        let fields = crate::record::fields(text, names)->0;
        assert(crate::record::fields(text, names) is Some);
        assert(fields[0] == if 0 < items.len() { Some(items[0].value) } else { None });
        if 0 < items.len() {
            lemma_text_u16(items[0].value, rule.vendor_id);
        }
        assert(fields[1] == if 1 < items.len() { Some(items[1].value) } else { None });

        assert(fields[2] == if 2 < items.len() { Some(items[2].value) } else { None });
        if 2 < items.len() {
            lemma_text_u8(items[2].value, rule.revision_id);
        }
        assert(fields[3] == if 3 < items.len() { Some(items[3].value) } else { None });
        if 3 < items.len() {
            lemma_text_u8(items[3].value, rule.prog_if);
        }
        assert(fields[4] == if 4 < items.len() { Some(items[4].value) } else { None });
        if 4 < items.len() {
            lemma_text_u8(items[4].value, rule.sub_class);
        }
        assert(fields[5] == if 5 < items.len() { Some(items[5].value) } else { None });
        if 5 < items.len() {
            lemma_text_u8(items[5].value, rule.base_class);
        }
        assert(fields[6] == if 6 < items.len() { Some(items[6].value) } else { None });
        if 6 < items.len() {
            lemma_text_u16(items[6].value, rule.sub_vendor_id);
        }
        assert(fields[7] == if 7 < items.len() { Some(items[7].value) } else { None });
        if 7 < items.len() {
            lemma_text_u16(items[7].value, rule.sub_system_id);
        }
        lemma_rule_of(fields, rule);
    }
}

/// An array is a device-ID range exactly where it has no more than two elements and
/// each bound is what the element at its place says.
pub proof fn law_range_array(text: Seq<u8>, items: Seq<ItemModel>, range: DeviceIdRange)
    requires
        crate::json::items(text, false) == Some(items),
    ensures
        crate::schema::decoded_range(text) == Some(range) <==> {
            &&& items.len() <= 2
            &&& placed_u16(items, 0, range.start)
            &&& placed_u16(items, 1, range.end)
        },
{
    let names = crate::schema::range_names();
    if items.len() <= 2 {
        let fields = crate::record::fields(text, names)->0;
        assert(crate::record::fields(text, names) is Some);
        assert(fields[0] == if 0 < items.len() { Some(items[0].value) } else { None });
        if 0 < items.len() {
            lemma_text_u16(items[0].value, range.start);
        }
        assert(fields[1] == if 1 < items.len() { Some(items[1].value) } else { None });
        if 1 < items.len() {
            lemma_text_u16(items[1].value, range.end);
        }
    }
}

/// An array is a policy exactly where it has two elements, the policy's version and
/// its list of rules.
pub proof fn law_policy_array(text: Seq<u8>, items: Seq<ItemModel>, policy: PolicyModel)
    requires
        crate::json::items(text, false) == Some(items),
    ensures
        crate::schema::decoded_policy(text) == Some(policy) <==> {
            &&& items.len() == 2
            &&& crate::json::is_word(items[0].value, crate::json::numeral(policy.version as nat))
            &&& crate::schema::decoded_rule_list(items[1].value) == Some(policy.rules)
        },
{
    let names = crate::schema::policy_names();
    if items.len() <= 2 {
        let fields = crate::record::fields(text, names)->0;
        assert(crate::record::fields(text, names) is Some);
        if items.len() == 2 {
            assert(fields[0] == Some(items[0].value) && fields[1] == Some(items[1].value));
            lemma_number_decodes(items[0].value, u32::MAX as nat);
            assert(crate::json::is_word(items[0].value, crate::json::numeral(policy.version as nat))
                ==> crate::json::number_in(items[0].value, u32::MAX as nat) == Some(
                policy.version as nat,
            ));
        } else {
            assert(fields[1] is None);
        }
    }
}

/// An array is a list of rules exactly where each of its elements is the rule at the
/// same place in the list, one for one.
pub proof fn law_rule_list(text: Seq<u8>, items: Seq<ItemModel>, rules: Seq<PolicyRule>)
    requires
        crate::json::items(text, false) == Some(items),
    ensures
        crate::schema::decoded_rule_list(text) == Some(rules) <==> {
            &&& items.len() == rules.len()
            &&& forall|i: int| 0 <= i < items.len()
                ==> crate::schema::decoded_rule((#[trigger] items[i]).value) == Some(rules[i])
        },
{
    if crate::schema::decoded_rule_list(text) == Some(rules) {
        assert forall|i: int| 0 <= i < items.len() implies crate::schema::decoded_rule(
            (#[trigger] items[i]).value,
        ) == Some(rules[i]) by {
            assert(crate::schema::decoded_rule(items[i].value) is Some);
        }
    }
    if items.len() == rules.len() && (forall|i: int|
        0 <= i < items.len()
            ==> crate::schema::decoded_rule((#[trigger] items[i]).value) == Some(rules[i])) {
        assert(crate::schema::decoded_rule_list(text)->0 =~= rules);
    }
}

/// What is neither an object nor an array is no policy, no rule and no range; and
/// what is no array is no list of rules.
pub proof fn law_only_records_decode(text: Seq<u8>)
    ensures
        crate::json::items(text, true) is None && crate::json::items(text, false) is None ==> {
            &&& crate::schema::decoded_policy(text) is None
            &&& crate::schema::decoded_rule(text) is None
            &&& crate::schema::decoded_range(text) is None
        },
        crate::json::items(text, false) is None ==> crate::schema::decoded_rule_list(text) is None,
{
}

/// A field of a rule that no member gives is unset, whatever the other members are.
pub proof fn law_left_out_field_is_unset(text: Seq<u8>, items: Seq<ItemModel>, rule: PolicyRule)
    requires
        crate::json::items(text, true) == Some(items),
        crate::schema::decoded_rule(text) == Some(rule),
    ensures
        !is_given(items, "vendor_id"@) ==> rule.vendor_id is None,
        !is_given(items, "device_id"@) ==> rule.device_id is None,
        !is_given(items, "revision_id"@) ==> rule.revision_id is None,
        !is_given(items, "prog_if"@) ==> rule.prog_if is None,
        !is_given(items, "sub_class"@) ==> rule.sub_class is None,
        !is_given(items, "base_class"@) ==> rule.base_class is None,
        !is_given(items, "sub_vendor_id"@) ==> rule.sub_vendor_id is None,
        !is_given(items, "sub_system_id"@) ==> rule.sub_system_id is None,
{
    law_rule_object(text, items, rule);
}

/// A bound of a device-ID range that no member gives is open, whatever the other
/// bound is.
pub proof fn law_left_out_bound_is_open(text: Seq<u8>, items: Seq<ItemModel>, range: DeviceIdRange)
    requires
        crate::json::items(text, true) == Some(items),
        crate::schema::decoded_range(text) == Some(range),
    ensures
        !is_given(items, "start"@) ==> range.start is None,
        !is_given(items, "end"@) ==> range.end is None,
{
    law_range_object(text, items, range);
}

/// A policy gives its version and its rules: where either is left out, there is no
/// policy.
pub proof fn law_policy_needs_both_fields(text: Seq<u8>, items: Seq<ItemModel>)
    requires
        crate::json::items(text, true) == Some(items),
        !is_given(items, "version"@) || !is_given(items, "rules"@),
    ensures
        crate::schema::decoded_policy(text) is None,
{
    if let Some(policy) = crate::schema::decoded_policy(text) {
        law_policy_object(text, items, policy);
    }
}

/// A field that is given twice, were it twice the same, makes an object no rule, no
/// range and no policy.
pub proof fn law_field_given_twice_is_refused(text: Seq<u8>, items: Seq<ItemModel>)
    requires
        crate::json::items(text, true) == Some(items),
    ensures
        ({
            ||| !at_most_once(items, "vendor_id"@)
            ||| !at_most_once(items, "device_id"@)
            ||| !at_most_once(items, "revision_id"@)
            ||| !at_most_once(items, "prog_if"@)
            ||| !at_most_once(items, "sub_class"@)
            ||| !at_most_once(items, "base_class"@)
            ||| !at_most_once(items, "sub_vendor_id"@)
            ||| !at_most_once(items, "sub_system_id"@)
        }) ==> crate::schema::decoded_rule(text) is None,
        !at_most_once(items, "start"@) || !at_most_once(items, "end"@)
            ==> crate::schema::decoded_range(text) is None,
        !at_most_once(items, "version"@) || !at_most_once(items, "rules"@)
            ==> crate::schema::decoded_policy(text) is None,
{
    if let Some(rule) = crate::schema::decoded_rule(text) {
        law_rule_object(text, items, rule);
    }
    if let Some(range) = crate::schema::decoded_range(text) {
        law_range_object(text, items, range);
    }
    if let Some(policy) = crate::schema::decoded_policy(text) {
        law_policy_object(text, items, policy);
    }
}

/// A 16-bit field is what is written for it: unset where it is left out or `null`,
/// and otherwise the number whose numeral stands there.
pub open spec fn written_u16(written: Option<Seq<u8>>, field: Option<u16>) -> bool {
    match (written, field) {
        (Some(text), Some(number)) => crate::json::is_word(
            text,
            crate::json::numeral(number as nat),
        ),
        (Some(text), None) => crate::json::is_word(text, crate::json::null_literal()),
        (None, _) => field is None,
    }
}

/// An 8-bit field is what is written for it.
pub open spec fn written_u8(written: Option<Seq<u8>>, field: Option<u8>) -> bool {
    match (written, field) {
        (Some(text), Some(number)) => crate::json::is_word(
            text,
            crate::json::numeral(number as nat),
        ),
        (Some(text), None) => crate::json::is_word(text, crate::json::null_literal()),
        (None, _) => field is None,
    }
}

/// A device-ID range field is what is written for it.
pub open spec fn written_range(written: Option<Seq<u8>>, field: Option<DeviceIdRange>) -> bool {
    match (written, field) {
        (Some(text), Some(range)) => {
            &&& !crate::json::is_word(text, crate::json::null_literal())
            &&& crate::schema::decoded_range(text) == Some(range)
        },
        (Some(text), None) => crate::json::is_word(text, crate::json::null_literal()),
        (None, _) => field is None,
    }
}

proof fn lemma_written_u16(written: Option<Seq<u8>>, field: Option<u16>)
    ensures
        crate::schema::decoded_u16(written) == Some(field) <==> written_u16(written, field),
{
    if let Some(text) = written {
        lemma_text_u16(text, field);
    }
}

proof fn lemma_written_u8(written: Option<Seq<u8>>, field: Option<u8>)
    ensures
        crate::schema::decoded_u8(written) == Some(field) <==> written_u8(written, field),
{
    if let Some(text) = written {
        lemma_text_u8(text, field);
    }
}

/// The fields that are written for a rule make it up one by one, in their order:
/// none of them depends on another.
pub proof fn law_rule_is_made_of_its_fields(fields: Seq<Option<Seq<u8>>>, rule: PolicyRule)
    ensures
        crate::schema::rule_of(fields) == Some(rule) <==> {
            &&& written_u16(fields[0], rule.vendor_id)
            &&& written_range(fields[1], rule.device_id)
            &&& written_u8(fields[2], rule.revision_id)
            &&& written_u8(fields[3], rule.prog_if)
            &&& written_u8(fields[4], rule.sub_class)
            &&& written_u8(fields[5], rule.base_class)
            &&& written_u16(fields[6], rule.sub_vendor_id)
            &&& written_u16(fields[7], rule.sub_system_id)
        },
{
    lemma_rule_of(fields, rule);
    lemma_written_u16(fields[0], rule.vendor_id);
    lemma_written_u8(fields[2], rule.revision_id);
    lemma_written_u8(fields[3], rule.prog_if);
    lemma_written_u8(fields[4], rule.sub_class);
    lemma_written_u8(fields[5], rule.base_class);
    lemma_written_u16(fields[6], rule.sub_vendor_id);
    lemma_written_u16(fields[7], rule.sub_system_id);
}

/// The bounds that are written for a device-ID range make it up one by one, the
/// lower one first.
pub proof fn law_range_is_made_of_its_bounds(fields: Seq<Option<Seq<u8>>>, range: DeviceIdRange)
    ensures
        crate::schema::range_of(fields) == Some(range) <==> written_u16(fields[0], range.start)
            && written_u16(fields[1], range.end),
{
    lemma_written_u16(fields[0], range.start);
    lemma_written_u16(fields[1], range.end);
}

/// The version and the list of rules that are written for a policy make it up.
pub proof fn law_policy_is_made_of_its_fields(
    fields: Seq<Option<Seq<u8>>>,
    policy: PolicyModel,
)
    ensures
        crate::schema::policy_of(fields) == Some(policy) <==> {
            &&& fields[0] matches Some(text) && crate::json::is_word(
                text,
                crate::json::numeral(policy.version as nat),
            )
            &&& fields[1] matches Some(text) && crate::schema::decoded_rule_list(text) == Some(
                policy.rules,
            )
        },
{
    if let Some(version) = fields[0] {
        lemma_number_decodes(version, u32::MAX as nat);
        assert(crate::json::is_word(version, crate::json::numeral(policy.version as nat))
            ==> crate::json::number_in(version, u32::MAX as nat) == Some(policy.version as nat));
    }
}

/// The fields of a record that is written as an object are those that its members
/// give under their names, each given once at the most; members under other names
/// have no part in it.
pub proof fn law_record_object(
    text: Seq<u8>,
    items: Seq<ItemModel>,
    names: Seq<Seq<char>>,
    fields: Seq<Option<Seq<u8>>>,
)
    requires
        crate::json::items(text, true) == Some(items),
    ensures
        crate::record::fields(text, names) == Some(fields) <==> {
            &&& fields.len() == names.len()
            &&& forall|k: int|
                0 <= k < names.len() ==> at_most_once(items, #[trigger] names[k])
                    && match fields[k] {
                    Some(value) => exists|i: int|
                        0 <= i < items.len() && (#[trigger] items[i]).key == Some(names[k])
                            && items[i].value == value,
                    None => !is_given(items, names[k]),
                }
        },
{
    let read = crate::record::fields(text, names);
    if read == Some(fields) {
        assert forall|k: int| 0 <= k < names.len() implies at_most_once(items, #[trigger] names[k])
            && match fields[k] {
            Some(value) => exists|i: int|
                0 <= i < items.len() && (#[trigger] items[i]).key == Some(names[k])
                    && items[i].value == value,
            None => !is_given(items, names[k]),
        } by {
            lemma_given_once(items, names[k]);
            assert(!crate::record::gives_twice(items, names[k]));
        }
    }
    if fields.len() == names.len() && (forall|k: int|
        0 <= k < names.len() ==> at_most_once(items, #[trigger] names[k]) && match fields[k] {
            Some(value) => exists|i: int|
                0 <= i < items.len() && (#[trigger] items[i]).key == Some(names[k])
                    && items[i].value == value,
            None => !is_given(items, names[k]),
        }) {
        assert forall|k: int| 0 <= k < names.len() implies !crate::record::gives_twice(
            items,
            #[trigger] names[k],
        ) && crate::record::named_field(items, names[k]) == fields[k] by {
            lemma_given_once(items, names[k]);
        }
        assert(read->0 =~= fields);
    }
}

/// The fields of a record that is written as an array are its elements in order,
/// with the last ones left out where there are fewer elements.
pub proof fn law_record_array(
    text: Seq<u8>,
    items: Seq<ItemModel>,
    names: Seq<Seq<char>>,
    fields: Seq<Option<Seq<u8>>>,
)
    requires
        crate::json::items(text, false) == Some(items),
    ensures
        crate::record::fields(text, names) == Some(fields) <==> {
            &&& fields.len() == names.len()
            &&& items.len() <= names.len()
            &&& forall|k: int|
                0 <= k < items.len() ==> #[trigger] fields[k] == Some(items[k].value)
            &&& forall|k: int|
                items.len() <= k < names.len() ==> (#[trigger] fields[k]) is None
        },
{
    let read = crate::record::fields(text, names);
    if read is Some {
        let found = read->0;
        assert(forall|k: int| 0 <= k < items.len() ==> #[trigger] found[k] == Some(items[k].value));
        assert(forall|k: int|
            items.len() <= k < names.len() ==> (#[trigger] found[k]) is None);
        if fields.len() == names.len() && (forall|k: int|
            0 <= k < items.len() ==> #[trigger] fields[k] == Some(items[k].value)) && (forall|
            k: int,
        |
            items.len() <= k < names.len() ==> (#[trigger] fields[k]) is None) {
            assert forall|k: int| 0 <= k < names.len() implies found[k] == fields[k] by {
                assert(k < items.len() ==> fields[k] == Some(items[k].value));
                assert(k >= items.len() ==> fields[k] is None);
            }
            assert(found =~= fields);
        }
    }
}

/// Items and fields are seen as they are, one for one.
pub proof fn law_items_are_seen_as_they_are<'a>(
    items: Seq<Item<'a>>,
    fields: Seq<Option<&'a [u8]>>,
    i: int,
)
    ensures
        crate::json::item_models(items).len() == items.len(),
        0 <= i < items.len() ==> {
            let model = crate::json::item_models(items)[i];
            &&& model.value == items[i].value@
            &&& items[i].key matches Some(key) ==> model.key == Some(key@)
            &&& items[i].key is None ==> model.key is None
        },
        crate::record::field_models(fields).len() == fields.len(),
        0 <= i < fields.len() ==> {
            let model = crate::record::field_models(fields)[i];
            &&& fields[i] matches Some(value) ==> model == Some(value@)
            &&& fields[i] is None ==> model is None
        },
{
}

} // verus!
