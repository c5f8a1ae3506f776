//! Records: values with named fields.
//!
//! A record is written as an object or as an array. In an object, the key names
//! the field; a member under any other key is passed over, and no field may be
//! given twice. In an array, the fields stand in order; the last ones may be left
//! out, and nothing may follow the last one.

use crate::json::opens_object;
use crate::json::read_items;
use crate::json::Item;
use crate::json::ItemModel;
use crate::json::OPEN_BRACE;
use crate::layout::JsonItem;
use crate::layout::JsonValue;
use vstd::prelude::*;

verus! {

/// Whether the item gives the field of this name.
pub open spec fn gives(item: ItemModel, name: Seq<char>) -> bool {
    item.key == Some(name)
}

/// Whether two items give the field of this name.
pub open spec fn gives_twice(items: Seq<ItemModel>, name: Seq<char>) -> bool {
    exists|i: int, j: int|
        0 <= i < j < items.len() && #[trigger] gives(items[i], name) && #[trigger] gives(
            items[j],
            name,
        )
}

/// Which item gives the field of this name, or `None` where none does.
pub open spec fn field_index(items: Seq<ItemModel>, name: Seq<char>) -> Option<int> {
    if exists|i: int| 0 <= i < items.len() && #[trigger] gives(items[i], name) {
        Some(choose|i: int| 0 <= i < items.len() && #[trigger] gives(items[i], name))
    } else {
        None
    }
}

/// The value of the field of this name, or `None` where no item gives it.
pub open spec fn named_field(items: Seq<ItemModel>, name: Seq<char>) -> Option<Seq<u8>> {
    match field_index(items, name) {
        Some(i) => Some(items[i].value),
        None => None,
    }
}

/// The fields of a record that is written as an object with these members, one
/// for each of `names`; `None` where one of them is given twice.
pub open spec fn named_fields(items: Seq<ItemModel>, names: Seq<Seq<char>>) -> Option<
    Seq<Option<Seq<u8>>>,
> {
    if exists|k: int| 0 <= k < names.len() && gives_twice(items, #[trigger] names[k]) {
        None
    } else {
        Some(Seq::new(names.len(), |k: int| named_field(items, names[k])))
    }
}

/// The fields of a record of `count` fields that is written as an array with
/// these elements; `None` where there are more elements than fields.
pub open spec fn listed_fields(items: Seq<ItemModel>, count: nat) -> Option<
    Seq<Option<Seq<u8>>>,
> {
    if items.len() > count {
        None
    } else {
        Some(
            Seq::new(
                count,
                |k: int|
                    if k < items.len() {
                        Some(items[k].value)
                    } else {
                        None
                    },
            ),
        )
    }
}

/// The fields of the record that `text` is, one for each of `names`: the bytes
/// that the field's value is written in, or `None` where the field is left out.
/// Where `text` is no record with these fields, there are none.
pub open spec fn fields(text: Seq<u8>, names: Seq<Seq<char>>) -> Option<Seq<Option<Seq<u8>>>> {
    let keyed = crate::json::starts(crate::json::trim(text), OPEN_BRACE);
    match crate::json::items(text, keyed) {
        Some(items) => if keyed {
            named_fields(items, names)
        } else {
            listed_fields(items, names.len())
        },
        None => None,
    }
}

/// The value that the members of an object give the field of this name, or `None`
/// where none does.
pub open spec fn value_field(items: Seq<JsonItem>, name: Seq<char>) -> Option<JsonValue> {
    match field_index(crate::layout::item_models(items), name) {
        Some(i) => Some(items[i].value),
        None => None,
    }
}

/// The fields of the record that a JSON value is, one for each of `names`; `None`
/// where it is no record with these fields.
pub open spec fn value_fields(value: JsonValue, names: Seq<Seq<char>>) -> Option<
    Seq<Option<JsonValue>>,
> {
    match value {
        JsonValue::Items(true, items, _) => if exists|k: int|
            0 <= k < names.len() && gives_twice(
                crate::layout::item_models(items),
                #[trigger] names[k],
            ) {
            None
        } else {
            Some(Seq::new(names.len(), |k: int| value_field(items, names[k])))
        },
        JsonValue::Items(false, items, _) => if items.len() > names.len() {
            None
        } else {
            Some(
                Seq::new(
                    names.len(),
                    |k: int|
                        if k < items.len() {
                            Some(items[k].value)
                        } else {
                            None
                        },
                ),
            )
        },
        _ => None,
    }
}

/// The bytes that a field is laid out in.
pub open spec fn written_field(field: Option<JsonValue>) -> Option<Seq<u8>> {
    match field {
        Some(value) => Some(crate::layout::written(value)),
        None => None,
    }
}

/// The bytes that each of the fields is laid out in.
pub open spec fn written_fields(fields: Seq<Option<JsonValue>>) -> Seq<Option<Seq<u8>>> {
    Seq::new(fields.len(), |k: int| written_field(fields[k]))
}

/// A document reads as the fields of the value that it is laid out from.
pub open spec fn fields_read_as(text: Seq<u8>, names: Seq<Seq<char>>) -> bool {
    forall|value: JsonValue| #[trigger]
        crate::layout::lays_out(text, value) ==> fields(text, names) == match value_fields(
            value,
            names,
        ) {
            Some(fields) => Some(written_fields(fields)),
            None => None,
        }
}

proof fn lemma_fields_read_as(text: Seq<u8>, names: Seq<Seq<char>>)
    requires
        crate::layout::items_read_as(
            text,
            crate::json::starts(crate::json::trim(text), OPEN_BRACE),
        ),
    ensures
        fields_read_as(text, names),
{
    assert forall|value: JsonValue| #[trigger] crate::layout::lays_out(
        text,
        value,
    ) implies fields(text, names) == match value_fields(value, names) {
        Some(fields) => Some(written_fields(fields)),
        None => None,
    } by {
        crate::layout::lemma_laid_out_start(text, value);
        if let JsonValue::Items(keyed, items, _) = value {
            let models = crate::layout::item_models(items);
            assert(keyed == crate::json::starts(crate::json::trim(text), OPEN_BRACE));
            assert(crate::json::items(text, keyed) == Some(models));
            if let Some(given) = value_fields(value, names) {
                if keyed {
                    assert(named_fields(models, names)->0 =~= written_fields(given));
                } else {
                    assert(listed_fields(models, names.len())->0 =~= written_fields(given));
                }
            }
        }
    }
}

/// What a plain value gives its fields is plain.
pub proof fn lemma_plain_fields(value: JsonValue, names: Seq<Seq<char>>, k: int)
    requires
        crate::layout::is_plain(value),
        0 <= k < names.len(),
    ensures
        value_fields(value, names) matches Some(fields) ==> (fields[k] matches Some(field)
            ==> crate::layout::is_plain(field)),
{
}

/// Whether two fields differ in their whitespace alone.
pub open spec fn same_field(left: Option<JsonValue>, right: Option<JsonValue>) -> bool {
    match (left, right) {
        (Some(value), Some(other)) => crate::layout::same_but_whitespace(value, other),
        _ => left is None && right is None,
    }
}

/// The fields of values that differ in their whitespace alone do so too.
pub proof fn lemma_same_fields(left: JsonValue, right: JsonValue, names: Seq<Seq<char>>)
    requires
        crate::layout::same_but_whitespace(left, right),
    ensures
        match (value_fields(left, names), value_fields(right, names)) {
            (Some(fields), Some(others)) => {
                forall|k: int| 0 <= k < names.len() ==> same_field(#[trigger] fields[k], others[k])
            },
            (None, None) => true,
            _ => false,
        },
{
    if let (JsonValue::Items(true, items, _), JsonValue::Items(true, others, _)) = (left, right) {
        let models = crate::layout::item_models(items);
        let other_models = crate::layout::item_models(others);
        assert(forall|i: int, name: Seq<char>|
            0 <= i < items.len() ==> #[trigger] gives(models[i], name) == gives(
                other_models[i],
                name,
            ));
        assert(forall|i: int, name: Seq<char>|
            0 <= i < items.len() ==> gives(models[i], name) == #[trigger] gives(
                other_models[i],
                name,
            ));
        assert forall|k: int| 0 <= k < names.len() implies gives_twice(models, #[trigger] names[k])
            == gives_twice(other_models, names[k]) && (!gives_twice(models, names[k])
            ==> same_field(value_field(items, names[k]), value_field(others, names[k]))) by {
            if let (Some(i), Some(j)) = (
                field_index(models, names[k]),
                field_index(other_models, names[k]),
            ) {
                assert(gives(models[i], names[k]) && gives(models[j], names[k]));
            }
        }
    }
}

/// Where the item at `place` goes when the ones at `i` and `j` change places.
spec fn moved(place: int, i: int, j: int) -> int {
    if place == i {
        j
    } else if place == j {
        i
    } else {
        place
    }
}

proof fn lemma_moved_twice(
    items: Seq<ItemModel>,
    others: Seq<ItemModel>,
    name: Seq<char>,
    i: int,
    j: int,
)
    requires
        0 <= i < items.len(),
        0 <= j < items.len(),
        others == items.update(i, items[j]).update(j, items[i]),
        gives_twice(items, name),
    ensures
        gives_twice(others, name),
{
    let (p, q) = choose|p: int, q: int|
        0 <= p < q < items.len() && #[trigger] gives(items[p], name) && #[trigger] gives(
            items[q],
            name,
        );
    assert(others[moved(p, i, j)] == items[p] && others[moved(q, i, j)] == items[q]);
    assert(gives(others[moved(p, i, j)], name) && gives(others[moved(q, i, j)], name));
}

/// The order of an object's members makes no difference to the fields of a record.
pub proof fn lemma_member_order(
    items: Seq<JsonItem>,
    gap: Seq<u8>,
    names: Seq<Seq<char>>,
    i: int,
    j: int,
)
    requires
        0 <= i < items.len(),
        0 <= j < items.len(),
    ensures
        value_fields(
            JsonValue::Items(true, items.update(i, items[j]).update(j, items[i]), gap),
            names,
        ) == value_fields(JsonValue::Items(true, items, gap), names),
{
    let others = items.update(i, items[j]).update(j, items[i]);
    let models = crate::layout::item_models(items);
    let other_models = crate::layout::item_models(others);
    assert(other_models =~= models.update(i, models[j]).update(j, models[i]));
    assert(models =~= other_models.update(i, other_models[j]).update(j, other_models[i]));
    assert forall|k: int| 0 <= k < names.len() implies gives_twice(models, #[trigger] names[k])
        == gives_twice(other_models, names[k]) && (!gives_twice(models, names[k]) ==> value_field(
        items,
        names[k],
    ) == value_field(others, names[k])) by {
        let name = names[k];
        if gives_twice(models, name) {
            lemma_moved_twice(models, other_models, name, i, j);
        }
        if gives_twice(other_models, name) {
            lemma_moved_twice(other_models, models, name, i, j);
        }
        if let Some(p) = field_index(models, name) {
            assert(others[moved(p, i, j)] == items[p]);
            assert(gives(other_models[moved(p, i, j)], name));
            if let Some(q) = field_index(other_models, name) {
                assert(gives(other_models[q], name));
            }
        }
        if let Some(q) = field_index(other_models, name) {
            assert(others[q] == items[moved(q, i, j)]);
            assert(gives(models[moved(q, i, j)], name));
        }
    }
    if value_fields(JsonValue::Items(true, items, gap), names) is Some {
        assert(value_fields(JsonValue::Items(true, others, gap), names)->0 =~= value_fields(
            JsonValue::Items(true, items, gap),
            names,
        )->0);
    }
}

/// The record with these fields as a JSON object without whitespace.
pub open spec fn record_json(names: Seq<Seq<char>>, values: Seq<JsonValue>) -> JsonValue {
    JsonValue::Items(
        true,
        Seq::new(
            names.len(),
            |k: int| crate::layout::compact_item(Some(names[k]), values[k]),
        ),
        seq![],
    )
}

/// A record as a JSON object gives each field its value.
pub proof fn lemma_record_fields(names: Seq<Seq<char>>, values: Seq<JsonValue>)
    requires
        values.len() == names.len(),
        names.no_duplicates(),
    ensures
        value_fields(record_json(names, values), names) == Some(
            Seq::new(names.len(), |k: int| Some(values[k])),
        ),
{
    let members = Seq::new(
        names.len(),
        |k: int| crate::layout::compact_item(Some(names[k]), values[k]),
    );
    let models = crate::layout::item_models(members);
    assert forall|k: int| 0 <= k < names.len() implies !gives_twice(models, #[trigger] names[k])
        && value_field(members, names[k]) == Some(values[k]) by {
        assert(gives(models[k], names[k]));
        assert(forall|i: int|
            0 <= i < models.len() && #[trigger] gives(models[i], names[k]) ==> i == k);
    }
    assert(value_fields(record_json(names, values), names)->0 =~= Seq::new(
        names.len(),
        |k: int| Some(values[k]),
    ));
}

/// What each of the names spells.
pub open spec fn spelled(names: Seq<String>) -> Seq<Seq<char>> {
    Seq::new(names.len(), |k: int| names[k]@)
}

/// What the field holds.
pub open spec fn field_model(field: Option<&[u8]>) -> Option<Seq<u8>> {
    match field {
        Some(value) => Some(value@),
        None => None,
    }
}

/// What each of the fields holds.
pub open spec fn field_models(fields: Seq<Option<&[u8]>>) -> Seq<Option<Seq<u8>>> {
    Seq::new(fields.len(), |k: int| field_model(fields[k]))
}

/// Whether the item gives the field of this name.
fn is_given<'a>(item: &Item<'a>, name: &String) -> (given: bool)
    ensures
        given == gives(item@, name@),
{
    match &item.key {
        Some(key) => *key == *name,
        None => false,
    }
}

/// Looks the field of this name up among the members of an object. `None` says
/// that it is given twice.
fn find_field<'a>(items: &Vec<Item<'a>>, name: &String) -> (field: Option<Option<&'a [u8]>>)
    ensures
        match field {
            None => gives_twice(crate::json::item_models(items@), name@),
            Some(None) => {
                &&& !gives_twice(crate::json::item_models(items@), name@)
                &&& named_field(crate::json::item_models(items@), name@) is None
            },
            Some(Some(value)) => {
                &&& !gives_twice(crate::json::item_models(items@), name@)
                &&& named_field(crate::json::item_models(items@), name@) == Some(value@)
            },
        },
{
    let ghost models = crate::json::item_models(items@);
    let mut field: Option<&'a [u8]> = None;
    let ghost mut place: int = -1;
    let mut index: usize = 0;
    while index < items.len()
        invariant
            models == crate::json::item_models(items@),
            index <= items@.len(),
            field is None <==> place < 0,
            place < index,
            field matches Some(value) ==> value@ == models[place].value && gives(
                models[place],
                name@,
            ),
            forall|i: int| 0 <= i < index && i != place ==> !#[trigger] gives(models[i], name@),
        decreases items@.len() - index,
    {
        if is_given(&items[index], name) {
            assert(gives(models[index as int], name@));
            if field.is_some() {
                assert(gives(models[place], name@));
                return None;
            }
            field = Some(items[index].value);
            proof {
                place = index as int;
            }
        }
        index += 1;
    }
    assert(field is Some ==> gives(models[place], name@));
    Some(field)
}

/// Sorts the members of an object into the fields that `names` lists.
pub fn read_named_fields<'a>(items: &Vec<Item<'a>>, names: &Vec<String>) -> (read: Option<
    Vec<Option<&'a [u8]>>,
>)
    ensures
        match read {
            Some(found) => named_fields(crate::json::item_models(items@), spelled(names@)) == Some(
                field_models(found@),
            ),
            None => named_fields(crate::json::item_models(items@), spelled(names@)) is None,
        },
{
    let ghost models = crate::json::item_models(items@);
    let ghost spellings = spelled(names@);
    let mut found: Vec<Option<&'a [u8]>> = Vec::new();
    let mut index: usize = 0;
    while index < names.len()
        invariant
            models == crate::json::item_models(items@),
            spellings == spelled(names@),
            index <= names@.len(),
            found@.len() == index,
            forall|k: int| 0 <= k < index ==> !gives_twice(models, #[trigger] spellings[k]),
            forall|k: int|
                0 <= k < index ==> #[trigger] field_models(found@)[k] == named_field(
                    models,
                    spellings[k],
                ),
        decreases names@.len() - index,
    {
        let ghost before = found@;
        match find_field(items, &names[index]) {
            None => {
                assert(gives_twice(models, spellings[index as int]));
                return None;
            },
            Some(field) => {
                found.push(field);
            },
        }
        assert(forall|k: int|
            0 <= k < index ==> #[trigger] field_models(found@)[k] == field_models(before)[k]);
        index += 1;
    }
    assert(field_models(found@) =~= Seq::new(
        spellings.len(),
        |k: int| named_field(models, spellings[k]),
    ));
    Some(found)
}

/// Takes the elements of an array as the first of `count` fields.
pub fn read_listed_fields<'a>(items: &Vec<Item<'a>>, count: usize) -> (read: Option<
    Vec<Option<&'a [u8]>>,
>)
    ensures
        match read {
            Some(found) => listed_fields(crate::json::item_models(items@), count as nat) == Some(
                field_models(found@),
            ),
            None => listed_fields(crate::json::item_models(items@), count as nat) is None,
        },
{
    let ghost models = crate::json::item_models(items@);
    if items.len() > count {
        return None;
    }
    let mut found: Vec<Option<&'a [u8]>> = Vec::new();
    let mut index: usize = 0;
    while index < count
        invariant
            models == crate::json::item_models(items@),
            index <= count,
            found@.len() == index,
            forall|k: int|
                0 <= k < index ==> #[trigger] field_models(found@)[k] == (if k < models.len() {
                    Some(models[k].value)
                } else {
                    None
                }),
        decreases count - index,
    {
        let ghost before = found@;
        if index < items.len() {
            found.push(Some(items[index].value));
        } else {
            found.push(None);
        }
        assert(forall|k: int|
            0 <= k < index ==> #[trigger] field_models(found@)[k] == field_models(before)[k]);
        index += 1;
    }
    assert(field_models(found@) =~= listed_fields(models, count as nat)->0);
    Some(found)
}

/// Reads the fields of a record, one for each of `names`.
///
/// A document reads as the fields of the value that it is laid out from.
pub fn read_fields<'a>(text: &'a [u8], names: &Vec<String>) -> (read: Option<
    Vec<Option<&'a [u8]>>,
>)
    ensures
        match read {
            Some(found) => {
                &&& fields(text@, spelled(names@)) == Some(field_models(found@))
                &&& found@.len() == names@.len()
            },
            None => fields(text@, spelled(names@)) is None,
        },
        fields_read_as(text@, spelled(names@)),
{
    let keyed = opens_object(text);
    let read = read_items(text, keyed);
    proof {
        lemma_fields_read_as(text@, spelled(names@));
    }
    match read {
        Some(found) => {
            let read = if keyed {
                read_named_fields(&found, names)
            } else {
                read_listed_fields(&found, names.len())
            };
            assert(read matches Some(read) ==> field_models(read@).len() == names@.len());
            read
        },
        None => None,
    }
}

} // verus!
