//! JSON values as they are laid out in bytes, with whitespace between the tokens or
//! none.
//!
//! A document that is laid out from a value reads as that value. That rests on two
//! facts about reading it, which come with each token that `serde_json` reads: how
//! far a value reaches ([`extent_known`]) and what a string spells
//! ([`spelling_known`]). The rest follows from the walk over objects and arrays.

use crate::json::ItemModel;
use crate::json::CLOSE_BRACE;
use crate::json::CLOSE_BRACKET;
use crate::json::COLON;
use crate::json::COMMA;
use crate::json::QUOTE;
use vstd::prelude::*;

verus! {

/// A JSON value and the whitespace inside it.
pub enum JsonValue {
    /// `null`.
    Null,
    /// `true` or `false`.
    Bool(bool),
    /// A natural number.
    Number(nat),
    /// A string.
    Text(Seq<char>),
    /// An object (`true`) with its members, or an array with its elements, and the
    /// whitespace that stands in it where it has none.
    Items(bool, Seq<JsonItem>, Seq<u8>),
}

/// A member of an object, or an element of an array, which has no key, and the
/// whitespace around its tokens.
pub struct JsonItem {
    /// The whitespace before the item.
    pub before: Seq<u8>,
    /// The key of an object's member.
    pub key: Option<Seq<char>>,
    /// The whitespace between the key and the colon.
    pub before_colon: Seq<u8>,
    /// The whitespace between the colon and the value.
    pub after_colon: Seq<u8>,
    /// The value.
    pub value: JsonValue,
    /// The whitespace after the value.
    pub after: Seq<u8>,
}

/// An item without any whitespace.
pub open spec fn compact_item(key: Option<Seq<char>>, value: JsonValue) -> JsonItem {
    JsonItem {
        before: seq![],
        key,
        before_colon: seq![],
        after_colon: seq![],
        value,
        after: seq![],
    }
}

/// Whether all bytes are whitespace.
pub open spec fn is_gap(bytes: Seq<u8>) -> bool {
    forall|i: int| 0 <= i < bytes.len() ==> crate::json::is_space(#[trigger] bytes[i])
}

/// Whether a character stands for itself in a JSON string and is a single byte:
/// printable ASCII other than the quote and the backslash.
pub open spec fn is_plain_char(c: char) -> bool {
    0x20 <= c as u32 <= 0x7e && c as u32 != 0x22 && c as u32 != 0x5c
}

/// Whether all characters stand for themselves.
pub open spec fn is_plain_text(text: Seq<char>) -> bool {
    forall|i: int| 0 <= i < text.len() ==> is_plain_char(#[trigger] text[i])
}

/// Whether a key is there exactly in an object, and plain.
pub open spec fn is_plain_key(keyed: bool, key: Option<Seq<char>>) -> bool {
    match key {
        Some(key) => keyed && is_plain_text(key),
        None => !keyed,
    }
}

/// Whether the item has a key exactly in an object, a plain one, and whitespace
/// where whitespace belongs.
pub open spec fn is_plain_item(keyed: bool, item: JsonItem) -> bool {
    &&& is_plain_key(keyed, item.key)
    &&& is_gap(item.before)
    &&& is_gap(item.before_colon)
    &&& is_gap(item.after_colon)
    &&& is_gap(item.after)
}

/// Whether every string in the value is plain, there are keys in objects and
/// nowhere else, and there is whitespace where whitespace belongs.
pub open spec fn is_plain(value: JsonValue) -> bool
    decreases value,
{
    match value {
        JsonValue::Text(text) => is_plain_text(text),
        JsonValue::Items(keyed, items, gap) => {
            &&& is_gap(gap)
            &&& forall|i: int|
                0 <= i < items.len() ==> is_plain_item(keyed, #[trigger] items[i]) && is_plain(
                    items[i].value,
                )
        },
        _ => true,
    }
}

/// The literal `true`.
pub open spec fn true_literal() -> Seq<u8> {
    seq![0x74, 0x72, 0x75, 0x65]
}

/// The literal `false`.
pub open spec fn false_literal() -> Seq<u8> {
    seq![0x66, 0x61, 0x6c, 0x73, 0x65]
}

/// A plain string between quotes.
pub open spec fn quoted(text: Seq<char>) -> Seq<u8> {
    seq![QUOTE] + Seq::new(text.len(), |i: int| text[i] as u8) + seq![QUOTE]
}

/// What stands before the value of an item: the key and a colon, or nothing.
pub open spec fn written_key(item: JsonItem) -> Seq<u8> {
    match item.key {
        Some(key) => quoted(key) + (item.before_colon + (seq![COLON] + item.after_colon)),
        None => seq![],
    }
}

/// The bytes that a plain value is laid out in.
pub open spec fn written(value: JsonValue) -> Seq<u8>
    decreases value, 0nat,
{
    match value {
        JsonValue::Null => crate::json::null_literal(),
        JsonValue::Bool(true) => true_literal(),
        JsonValue::Bool(false) => false_literal(),
        JsonValue::Number(number) => crate::json::numeral(number),
        JsonValue::Text(text) => quoted(text),
        JsonValue::Items(keyed, items, gap) => if items.len() == 0 {
            seq![crate::json::opening(keyed)] + (gap + seq![crate::json::closing(keyed)])
        } else {
            seq![crate::json::opening(keyed)] + written_from(keyed, items, 0)
        },
    }
}

/// The bytes from item `n` to the end of an object or an array.
pub open spec fn written_from(keyed: bool, items: Seq<JsonItem>, n: nat) -> Seq<u8>
    decreases items, items.len() - n,
{
    if n >= items.len() {
        seq![]
    } else {
        let item = items[n as int];
        let rest = if n + 1 == items.len() {
            seq![crate::json::closing(keyed)]
        } else {
            seq![COMMA] + written_from(keyed, items, n + 1)
        };
        item.before + (written_key(item) + (written(items[n as int].value) + (item.after + rest)))
    }
}

/// Whether `text` starts with `word`, and there follows nothing or a byte that can
/// follow a value.
pub open spec fn leads(text: Seq<u8>, word: Seq<u8>) -> bool {
    &&& word.len() <= text.len()
    &&& text.take(word.len() as int) == word
    &&& text.len() == word.len() || ends_value(text[word.len() as int])
}

/// Whether a byte can follow a value: whitespace, `,`, `:`, `]` or `}`.
pub open spec fn ends_value(byte: u8) -> bool {
    crate::json::is_space(byte) || byte == COMMA || byte == COLON || byte == CLOSE_BRACKET || byte
        == CLOSE_BRACE
}

/// Where a plain value stands at the start of `bytes`, the value there reaches as
/// far as it is laid out.
pub open spec fn extent_known(bytes: Seq<u8>, len: Option<usize>) -> bool {
    forall|value: JsonValue| #[trigger]
        leads(bytes, written(value)) && is_plain(value) ==> len == Some(
            written(value).len() as usize,
        )
}

/// Where `bytes` are a plain string between quotes, they spell that string.
pub open spec fn spelling_known(bytes: Seq<u8>, spelled: Option<Seq<char>>) -> bool {
    forall|text: Seq<char>| bytes == #[trigger] quoted(text) && is_plain_text(text) ==> spelled
        == Some(text)
}

/// Whether `text` is laid out from the value, with whitespace around it or none.
pub open spec fn lays_out(text: Seq<u8>, value: JsonValue) -> bool {
    is_plain(value) && crate::json::is_word(text, written(value))
}

/// Whether two values differ in their whitespace alone.
pub open spec fn same_but_whitespace(left: JsonValue, right: JsonValue) -> bool
    decreases left,
{
    match (left, right) {
        (JsonValue::Items(keyed, items, _), JsonValue::Items(other_keyed, others, _)) => {
            &&& keyed == other_keyed
            &&& items.len() == others.len()
            &&& forall|i: int|
                0 <= i < items.len() ==> (#[trigger] items[i]).key == others[i].key
                    && same_but_whitespace(items[i].value, others[i].value)
        },
        _ => left == right,
    }
}

/// The item, with its value as it is laid out.
pub open spec fn item_model(item: JsonItem) -> ItemModel {
    ItemModel { key: item.key, value: written(item.value) }
}

/// The items, with their values as they are laid out.
pub open spec fn item_models(items: Seq<JsonItem>) -> Seq<ItemModel> {
    Seq::new(items.len(), |i: int| item_model(items[i]))
}

/// The members of an object (`keyed`) or the elements of an array; `None` where the
/// value is none.
pub open spec fn value_items(value: JsonValue, keyed: bool) -> Option<Seq<JsonItem>> {
    match value {
        JsonValue::Items(is_keyed, items, _) => if is_keyed == keyed {
            Some(items)
        } else {
            None
        },
        _ => None,
    }
}

/// A document reads as the items of the value that it is laid out from.
pub open spec fn items_read_as(text: Seq<u8>, keyed: bool) -> bool {
    forall|value: JsonValue| #[trigger]
        lays_out(text, value) ==> crate::json::items(text, keyed) == match value_items(
            value,
            keyed,
        ) {
            Some(items) => Some(item_models(items)),
            None => None,
        }
}

/// What is known of the tokens of the item at the start of `text`.
pub open spec fn item_known(text: Seq<u8>, keyed: bool) -> bool {
    &&& extent_known(text, crate::json::json_value_len(text))
    &&& keyed ==> match crate::json::value_at(text) {
        Some((name, after_name)) => {
            crate::json::starts(text, QUOTE) && crate::json::starts(after_name, COLON) ==> {
                let value = crate::json::trim(after_name.skip(1));
                &&& spelling_known(name, crate::json::json_string(name))
                &&& extent_known(value, crate::json::json_value_len(value))
            }
        },
        None => true,
    }
}

/// What is known of the tokens of all items from the start of `text` on.
pub open spec fn items_known(text: Seq<u8>, keyed: bool) -> bool
    decreases text.len(),
{
    &&& item_known(text, keyed)
    &&& match crate::json::item_at(text, keyed) {
        Some((_, rest)) => if !crate::json::closes(rest, keyed) && crate::json::starts(
            rest,
            COMMA,
        ) {
            proof {
                crate::json::lemma_item_len(text, keyed);
                crate::json::lemma_trim_len(rest.skip(1));
            }
            items_known(crate::json::trim(rest.skip(1)), keyed)
        } else {
            true
        },
        None => true,
    }
}

/// What is known of the tokens of all items of the object or array `text`.
pub open spec fn walk_known(text: Seq<u8>, keyed: bool) -> bool {
    let inner = crate::json::trim(crate::json::trim(text).skip(1));
    crate::json::starts(crate::json::trim(text), crate::json::opening(keyed))
        && !crate::json::closes(inner, keyed) ==> items_known(inner, keyed)
}

/// Whether a byte is the first one of this kind of value.
pub open spec fn starts_kind(byte: u8, value: JsonValue) -> bool {
    match value {
        JsonValue::Null => byte == 0x6e,
        JsonValue::Bool(truth) => byte == if truth {
            0x74
        } else {
            0x66u8
        },
        JsonValue::Number(_) => 0x30 <= byte <= 0x39,
        JsonValue::Text(_) => byte == QUOTE,
        JsonValue::Items(keyed, _, _) => byte == crate::json::opening(keyed),
    }
}

/// What the first byte of a value says about it.
pub proof fn lemma_written_start(value: JsonValue)
    ensures
        written(value).len() > 0,
        starts_kind(written(value)[0], value),
{
    if let JsonValue::Number(number) = value {
        crate::json::lemma_numeral_digits(number);
    }
}

/// A value is laid out in its own bytes.
pub proof fn lemma_lays_out_itself(value: JsonValue)
    requires
        is_plain(value),
    ensures
        lays_out(written(value), value),
{
    let text = written(value);
    lemma_written_start(value);
    assert(crate::json::trim(text) == text);
    assert(text.take(text.len() as int) == text);
}

/// What the first byte of a document says about the value that it is laid out
/// from.
pub proof fn lemma_laid_out_start(text: Seq<u8>, value: JsonValue)
    requires
        lays_out(text, value),
    ensures
        crate::json::trim(text).len() > 0,
        starts_kind(crate::json::trim(text)[0], value),
{
    lemma_written_start(value);
    assert(crate::json::trim(text).take(written(value).len() as int)[0] == written(value)[0]);
}

proof fn lemma_trim_gap(gap: Seq<u8>, rest: Seq<u8>)
    requires
        is_gap(gap),
        rest.len() > 0 ==> !crate::json::is_space(rest[0]),
    ensures
        crate::json::trim(gap + rest) == rest,
    decreases gap.len(),
{
    if gap.len() == 0 {
        assert(gap + rest == rest);
    } else {
        assert((gap + rest)[0] == gap[0]);
        assert((gap + rest).skip(1) == gap.skip(1) + rest);
        lemma_trim_gap(gap.skip(1), rest);
    }
}

proof fn lemma_cut(text: Seq<u8>, value: JsonValue, gap: Seq<u8>, rest: Seq<u8>)
    requires
        text == written(value) + (gap + rest),
        is_gap(gap),
        rest.len() > 0,
        ends_value(rest[0]),
        !crate::json::is_space(rest[0]),
        is_plain(value),
        extent_known(text, crate::json::json_value_len(text)),
        text.len() <= usize::MAX,
    ensures
        crate::json::value_at(text) == Some((written(value), rest)),
{
    let len = written(value).len() as int;
    assert(text.take(len) == written(value));
    assert(text[len] == (gap + rest)[0]);
    assert(leads(text, written(value)));
    assert(text.skip(len) == gap + rest);
    lemma_trim_gap(gap, rest);
}

/// What stands behind item `n` of an object or an array, when `trail` follows the
/// object or array.
spec fn behind(keyed: bool, items: Seq<JsonItem>, n: nat, trail: Seq<u8>) -> Seq<u8> {
    if n + 1 == items.len() {
        seq![crate::json::closing(keyed)] + trail
    } else {
        seq![COMMA] + (written_from(keyed, items, n + 1) + trail)
    }
}

/// The bytes from item `n` on, without the whitespace before it.
spec fn from_item(keyed: bool, items: Seq<JsonItem>, n: nat, trail: Seq<u8>) -> Seq<u8> {
    let item = items[n as int];
    written_key(item) + (written(item.value) + (item.after + behind(keyed, items, n, trail)))
}

proof fn lemma_from_item(keyed: bool, items: Seq<JsonItem>, n: nat, trail: Seq<u8>)
    requires
        n < items.len(),
        is_plain_item(keyed, items[n as int]),
    ensures
        written_from(keyed, items, n) + trail == items[n as int].before + from_item(
            keyed,
            items,
            n,
            trail,
        ),
        from_item(keyed, items, n, trail).len() > 0,
        keyed ==> from_item(keyed, items, n, trail)[0] == QUOTE,
        !keyed ==> starts_kind(from_item(keyed, items, n, trail)[0], items[n as int].value),
        crate::json::trim(written_from(keyed, items, n) + trail) == from_item(
            keyed,
            items,
            n,
            trail,
        ),
{
    let item = items[n as int];
    lemma_written_start(item.value);
    let rest = if n + 1 == items.len() {
        seq![crate::json::closing(keyed)]
    } else {
        seq![COMMA] + written_from(keyed, items, n + 1)
    };
    assert(rest + trail == behind(keyed, items, n, trail));
    assert(written_from(keyed, items, n) == item.before + (written_key(item) + (written(item.value)
        + (item.after + rest))));
    assert((item.before + (written_key(item) + (written(item.value) + (item.after + rest))))
        + trail == item.before + (written_key(item) + (written(item.value) + (item.after + (rest
        + trail)))));
    lemma_trim_gap(item.before, from_item(keyed, items, n, trail));
}

proof fn lemma_item_reads_as(keyed: bool, items: Seq<JsonItem>, n: nat, trail: Seq<u8>)
    requires
        n < items.len(),
        is_plain_item(keyed, items[n as int]),
        is_plain(items[n as int].value),
        item_known(from_item(keyed, items, n, trail), keyed),
        from_item(keyed, items, n, trail).len() <= usize::MAX,
    ensures
        crate::json::item_at(from_item(keyed, items, n, trail), keyed) == Some(
            (item_model(items[n as int]), behind(keyed, items, n, trail)),
        ),
{
    let text = from_item(keyed, items, n, trail);
    let item = items[n as int];
    let rest = behind(keyed, items, n, trail);
    let tail = written(item.value) + (item.after + rest);
    lemma_written_start(item.value);
    if keyed {
        let key = item.key->0;
        let after = seq![COLON] + (item.after_colon + tail);
        assert(text == quoted(key) + (item.before_colon + after));
        assert(is_plain(JsonValue::Text(key)));
        lemma_cut(text, JsonValue::Text(key), item.before_colon, after);
        assert(text[0] == QUOTE);
        assert(after.skip(1) == item.after_colon + tail);
        lemma_trim_gap(item.after_colon, tail);
        lemma_cut(tail, item.value, item.after, rest);
    } else {
        assert(text == tail);
        lemma_cut(text, item.value, item.after, rest);
    }
}

proof fn lemma_items_read_as_from(keyed: bool, items: Seq<JsonItem>, n: nat, trail: Seq<u8>)
    requires
        n < items.len(),
        forall|i: int|
            0 <= i < items.len() ==> is_plain_item(keyed, #[trigger] items[i]) && is_plain(
                items[i].value,
            ),
        items_known(from_item(keyed, items, n, trail), keyed),
        from_item(keyed, items, n, trail).len() <= usize::MAX,
        crate::json::trim(trail).len() == 0,
    ensures
        crate::json::items_from(from_item(keyed, items, n, trail), keyed) == Some(
            item_models(items).skip(n as int),
        ),
    decreases items.len() - n,
{
    let rest = behind(keyed, items, n, trail);
    lemma_item_reads_as(keyed, items, n, trail);
    if n + 1 == items.len() {
        assert(rest.skip(1) == trail);
        assert(crate::json::closes(rest, keyed));
        assert(item_models(items).skip(n as int) == seq![item_model(items[n as int])]);
    } else {
        let next = written_from(keyed, items, n + 1) + trail;
        assert(rest.skip(1) == next);
        lemma_from_item(keyed, items, n + 1, trail);
        crate::json::lemma_trim_len(next);
        lemma_items_read_as_from(keyed, items, n + 1, trail);
        assert(item_models(items).skip(n as int) == seq![item_model(items[n as int])]
            + item_models(items).skip((n + 1) as int));
    }
}

/// A document reads as the items of the value that it is laid out from, once the
/// tokens in it are known.
pub proof fn lemma_items_read_as(text: Seq<u8>, keyed: bool)
    requires
        text.len() <= usize::MAX,
        walk_known(text, keyed),
    ensures
        items_read_as(text, keyed),
{
    assert forall|value: JsonValue| #[trigger] lays_out(text, value) implies crate::json::items(
        text,
        keyed,
    ) == match value_items(value, keyed) {
        Some(items) => Some(item_models(items)),
        None => None,
    } by {
        lemma_laid_out_start(text, value);
        if let JsonValue::Items(is_keyed, items, gap) = value {
            if is_keyed == keyed {
                lemma_value_reads_as(text, keyed, items, gap);
            }
        }
    }
}

proof fn lemma_value_reads_as(text: Seq<u8>, keyed: bool, items: Seq<JsonItem>, gap: Seq<u8>)
    requires
        text.len() <= usize::MAX,
        walk_known(text, keyed),
        lays_out(text, JsonValue::Items(keyed, items, gap)),
    ensures
        crate::json::items(text, keyed) == Some(item_models(items)),
{
    let body = written(JsonValue::Items(keyed, items, gap));
    let trimmed = crate::json::trim(text);
    let trail = trimmed.skip(body.len() as int);
    assert(trimmed == body + trail);
    let inner = trimmed.skip(1);
    crate::json::lemma_trim_len(text);
    crate::json::lemma_trim_len(inner);
    if items.len() == 0 {
        let end = seq![crate::json::closing(keyed)] + trail;
        assert(inner == gap + end);
        lemma_trim_gap(gap, end);
        assert(end.skip(1) == trail);
        assert(item_models(items) == Seq::<ItemModel>::empty());
    } else {
        assert(inner == written_from(keyed, items, 0) + trail);
        assert(is_plain_item(keyed, items[0]) && is_plain(items[0].value));
        lemma_from_item(keyed, items, 0, trail);
        lemma_items_read_as_from(keyed, items, 0, trail);
        assert(item_models(items).skip(0) == item_models(items));
    }
}

} // verus!
