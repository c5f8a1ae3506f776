//! Reading the fields of a JSON document without building a tree.
//!
//! `serde_json` reads the tokens: how far a value reaches, what a string spells,
//! which number a literal denotes. This module walks the objects and arrays in
//! between and hands out each value as the bytes it is written in. A record (a
//! value with named fields) is written either as an object, whose keys name the
//! fields, or as an array, which lists them in order.

use vstd::prelude::*;
use vstd::slice::slice_subrange;

verus! {

/// The byte `"`.
pub const QUOTE: u8 = 0x22;

/// The byte `:`.
pub const COLON: u8 = 0x3a;

/// The byte `,`.
pub const COMMA: u8 = 0x2c;

/// The byte `{`.
pub const OPEN_BRACE: u8 = 0x7b;

/// The byte `}`.
pub const CLOSE_BRACE: u8 = 0x7d;

/// The byte `[`.
pub const OPEN_BRACKET: u8 = 0x5b;

/// The byte `]`.
pub const CLOSE_BRACKET: u8 = 0x5d;

/// How many bytes `serde_json` reads as one value at the start of `bytes`, or
/// `None` where no value stands there.
pub uninterp spec fn json_value_len(bytes: Seq<u8>) -> Option<usize>;

/// The string that `serde_json` reads `bytes` as, or `None` where they are not
/// one JSON string.
pub uninterp spec fn json_string(bytes: Seq<u8>) -> Option<Seq<char>>;

/// What `serde_json` has to say against `bytes` as a JSON document, or `None`
/// where they are one.
pub uninterp spec fn json_fault(bytes: Seq<u8>) -> Option<Seq<char>>;

/// Takes one `serde::de::IgnoredAny` from a `serde_json::StreamDeserializer` over
/// `bytes` and returns the stream's `byte_offset` behind it. The offset is a
/// function of the bytes and lies within them. Over a value of plain strings,
/// natural numbers and literals, with whitespace between the tokens or none, and
/// with nothing or a byte that ends a value behind it, the offset is the length of
/// the value.
#[verifier::external_body]
pub(crate) fn value_len(bytes: &[u8]) -> (len: Option<usize>)
    ensures
        len == json_value_len(bytes@),
        len matches Some(n) ==> n <= bytes@.len(),
        crate::layout::extent_known(bytes@, len),
{
    let mut stream = serde_json::Deserializer::from_slice(bytes).into_iter::<
        serde::de::IgnoredAny,
    >();
    match stream.next() {
        Some(Ok(_)) => Some(stream.byte_offset()),
        Some(Err(_)) => None,
        None => None,
    }
}

/// Calls `serde_json::from_slice` for a `String`. Whether it succeeds, and with
/// which string, is a function of the bytes. Plain characters between quotes spell
/// themselves.
#[verifier::external_body]
pub(crate) fn string_of(bytes: &[u8]) -> (string: Option<String>)
    ensures
        match string {
            Some(string) => {
                &&& json_string(bytes@) == Some(string@)
                &&& crate::layout::spelling_known(bytes@, Some(string@))
            },
            None => {
                &&& json_string(bytes@) is None
                &&& crate::layout::spelling_known(bytes@, None)
            },
        },
{
    serde_json::from_slice::<String>(bytes).ok()
}

/// Calls `serde_json::from_slice` for a `u32`. It succeeds exactly on the numeral
/// of a number that fits, with whitespace around it or none: a sign, a fraction,
/// an exponent or a leading zero makes it fail.
#[verifier::external_body]
pub(crate) fn u32_of(bytes: &[u8]) -> (number: Option<u32>)
    ensures
        number == number_u32(bytes@),
{
    serde_json::from_slice::<u32>(bytes).ok()
}

/// Calls `serde_json::from_slice` for an `Option<u16>`. It succeeds exactly on
/// `null` and on the numeral of a number that fits, with whitespace around it or
/// none.
#[verifier::external_body]
pub(crate) fn nullable_u16_of(bytes: &[u8]) -> (number: Option<Option<u16>>)
    ensures
        number == nullable_u16(bytes@),
{
    serde_json::from_slice::<Option<u16>>(bytes).ok()
}

/// Calls `serde_json::from_slice` for an `Option<u8>`. It succeeds exactly on
/// `null` and on the numeral of a number that fits, with whitespace around it or
/// none.
#[verifier::external_body]
pub(crate) fn nullable_u8_of(bytes: &[u8]) -> (number: Option<Option<u8>>)
    ensures
        number == nullable_u8(bytes@),
{
    serde_json::from_slice::<Option<u8>>(bytes).ok()
}

/// Calls `serde_json::from_slice` for a `serde::de::IgnoredAny` and returns the
/// text of the error, if there is one. The text is a function of the bytes.
#[verifier::external_body]
pub(crate) fn fault_of(bytes: &[u8]) -> (fault: Option<String>)
    ensures
        match fault {
            Some(text) => json_fault(bytes@) == Some(text@),
            None => json_fault(bytes@) is None,
        },
{
    match serde_json::from_slice::<serde::de::IgnoredAny>(bytes) {
        Ok(_) => None,
        Err(error) => Some(error.to_string()),
    }
}

/// Whether a byte is JSON whitespace.
pub open spec fn is_space(byte: u8) -> bool {
    byte == 0x20 || byte == 0x0a || byte == 0x09 || byte == 0x0d
}

/// `text` without the whitespace at its start.
pub open spec fn trim(text: Seq<u8>) -> Seq<u8>
    decreases text.len(),
{
    if text.len() > 0 && is_space(text[0]) {
        trim(text.skip(1))
    } else {
        text
    }
}

/// Whether `text` starts with `byte`.
pub open spec fn starts(text: Seq<u8>, byte: u8) -> bool {
    text.len() > 0 && text[0] == byte
}

/// Whether `text` is `word`, with whitespace around it or none.
pub open spec fn is_word(text: Seq<u8>, word: Seq<u8>) -> bool {
    let text = trim(text);
    &&& word.len() <= text.len()
    &&& text.take(word.len() as int) == word
    &&& trim(text.skip(word.len() as int)).len() == 0
}

/// The literal `null`.
pub open spec fn null_literal() -> Seq<u8> {
    seq![0x6e, 0x75, 0x6c, 0x6c]
}

/// The numeral of a number: its decimal digits, without leading zeros.
pub open spec fn numeral(number: nat) -> Seq<u8>
    decreases number,
{
    if number < 10 {
        seq![(0x30 + number) as u8]
    } else {
        numeral(number / 10).push((0x30 + number % 10) as u8)
    }
}

/// The number up to `limit` whose numeral `text` is, or `None` where there is
/// none.
pub open spec fn number_in(text: Seq<u8>, limit: nat) -> Option<nat> {
    if exists|n: nat| n <= limit && is_word(text, #[trigger] numeral(n)) {
        Some(choose|n: nat| n <= limit && is_word(text, #[trigger] numeral(n)))
    } else {
        None
    }
}

/// The `u32` that `text` is, or `None` where it is none.
pub open spec fn number_u32(text: Seq<u8>) -> Option<u32> {
    match number_in(text, u32::MAX as nat) {
        Some(n) => Some(n as u32),
        None => None,
    }
}

/// The `u16` that `text` is, or nothing for `null`; `None` where it is neither.
pub open spec fn nullable_u16(text: Seq<u8>) -> Option<Option<u16>> {
    if is_word(text, null_literal()) {
        Some(None)
    } else {
        match number_in(text, u16::MAX as nat) {
            Some(n) => Some(Some(n as u16)),
            None => None,
        }
    }
}

/// The `u8` that `text` is, or nothing for `null`; `None` where it is neither.
pub open spec fn nullable_u8(text: Seq<u8>) -> Option<Option<u8>> {
    if is_word(text, null_literal()) {
        Some(None)
    } else {
        match number_in(text, u8::MAX as nat) {
            Some(n) => Some(Some(n as u8)),
            None => None,
        }
    }
}

/// The value at the start of `text` where it reaches over `len` bytes, and what
/// follows it up to the next byte that is no whitespace.
pub open spec fn cut_at(text: Seq<u8>, len: Option<usize>) -> Option<(Seq<u8>, Seq<u8>)> {
    match len {
        Some(n) => if n <= text.len() {
            Some((text.take(n as int), trim(text.skip(n as int))))
        } else {
            None
        },
        None => None,
    }
}

/// The value at the start of `text`, and what follows it up to the next byte that
/// is no whitespace.
pub open spec fn value_at(text: Seq<u8>) -> Option<(Seq<u8>, Seq<u8>)> {
    cut_at(text, json_value_len(text))
}

/// A member of an object or an element of an array: the value as it is written,
/// under its key where it has one.
#[verifier::ext_equal]
pub struct ItemModel {
    /// The key of an object's member.
    pub key: Option<Seq<char>>,
    /// The bytes that the value is written in.
    pub value: Seq<u8>,
}

/// The item at the start of `text`, and what follows it. In an object (`keyed`) a
/// string and a colon stand before the value.
pub open spec fn item_at(text: Seq<u8>, keyed: bool) -> Option<(ItemModel, Seq<u8>)> {
    if keyed {
        match value_at(text) {
            Some((name, after_name)) => if starts(text, QUOTE) && starts(after_name, COLON) {
                match (json_string(name), value_at(trim(after_name.skip(1)))) {
                    (Some(key), Some((value, rest))) => {
                        Some((ItemModel { key: Some(key), value }, rest))
                    },
                    _ => None,
                }
            } else {
                None
            },
            None => None,
        }
    } else {
        match value_at(text) {
            Some((value, rest)) => Some((ItemModel { key: None, value }, rest)),
            None => None,
        }
    }
}

/// The byte that opens an object (`keyed`) or an array.
pub open spec fn opening(keyed: bool) -> u8 {
    if keyed {
        OPEN_BRACE
    } else {
        OPEN_BRACKET
    }
}

/// The byte that closes an object (`keyed`) or an array.
pub open spec fn closing(keyed: bool) -> u8 {
    if keyed {
        CLOSE_BRACE
    } else {
        CLOSE_BRACKET
    }
}

/// Whether `text` is the closing byte and nothing more but whitespace.
pub open spec fn closes(text: Seq<u8>, keyed: bool) -> bool {
    starts(text, closing(keyed)) && trim(text.skip(1)).len() == 0
}

/// The items from the start of `text` to the end of the object or array: one or
/// more, with a comma between each two.
pub open spec fn items_from(text: Seq<u8>, keyed: bool) -> Option<Seq<ItemModel>>
    decreases text.len(),
{
    match item_at(text, keyed) {
        Some((item, rest)) => if closes(rest, keyed) {
            Some(seq![item])
        } else if starts(rest, COMMA) {
            proof {
                lemma_item_len(text, keyed);
                lemma_trim_len(rest.skip(1));
            }
            match items_from(trim(rest.skip(1)), keyed) {
                Some(items) => Some(seq![item] + items),
                None => None,
            }
        } else {
            None
        },
        None => None,
    }
}

/// The members of the object (`keyed`) or the elements of the array that `text`
/// is, in the order in which they are written; `None` where it is none.
pub open spec fn items(text: Seq<u8>, keyed: bool) -> Option<Seq<ItemModel>> {
    let text = trim(text);
    if starts(text, opening(keyed)) {
        let inner = trim(text.skip(1));
        if closes(inner, keyed) {
            Some(seq![])
        } else {
            items_from(inner, keyed)
        }
    } else {
        None
    }
}

pub proof fn lemma_trim_len(text: Seq<u8>)
    ensures
        trim(text).len() <= text.len(),
    decreases text.len(),
{
    if text.len() > 0 && is_space(text[0]) {
        lemma_trim_len(text.skip(1));
    }
}

pub proof fn lemma_value_len(text: Seq<u8>)
    ensures
        value_at(text) matches Some((_, rest)) ==> rest.len() <= text.len(),
{
    if let Some(n) = json_value_len(text) {
        if n <= text.len() {
            lemma_trim_len(text.skip(n as int));
        }
    }
}

pub proof fn lemma_item_len(text: Seq<u8>, keyed: bool)
    ensures
        item_at(text, keyed) matches Some((_, rest)) ==> rest.len() <= text.len(),
{
    lemma_value_len(text);
    if let Some((_, after_name)) = value_at(text) {
        if starts(after_name, COLON) {
            lemma_trim_len(after_name.skip(1));
            lemma_value_len(trim(after_name.skip(1)));
        }
    }
}

pub proof fn lemma_numeral_digits(number: nat)
    ensures
        numeral(number).len() > 0,
        forall|i: int|
            0 <= i < numeral(number).len() ==> 0x30 <= #[trigger] numeral(number)[i] <= 0x39,
    decreases number,
{
    if number >= 10 {
        lemma_numeral_digits(number / 10);
    }
}

proof fn lemma_numeral_injective(left: nat, right: nat)
    requires
        numeral(left) == numeral(right),
    ensures
        left == right,
    decreases left,
{
    lemma_numeral_digits(left / 10);
    lemma_numeral_digits(right / 10);
    assert(numeral(left).last() == 0x30 + left % 10);
    assert(numeral(right).last() == 0x30 + right % 10);
    if left >= 10 && right >= 10 {
        assert(numeral(left).drop_last() == numeral(left / 10));
        assert(numeral(right).drop_last() == numeral(right / 10));
        lemma_numeral_injective(left / 10, right / 10);
    }
}

proof fn lemma_word_no_longer(text: Seq<u8>, word: Seq<u8>, other: Seq<u8>)
    requires
        is_word(text, word),
        is_word(text, other),
        forall|i: int| 0 <= i < other.len() ==> !is_space(#[trigger] other[i]),
    ensures
        other.len() <= word.len(),
{
    if word.len() < other.len() {
        let rest = trim(text).skip(word.len() as int);
        assert(rest[0] == trim(text).take(other.len() as int)[word.len() as int]);
        assert(trim(rest) == rest);
    }
}

/// No text is the numeral of two numbers.
pub proof fn law_one_number(text: Seq<u8>, left: nat, right: nat)
    requires
        is_word(text, numeral(left)),
        is_word(text, numeral(right)),
    ensures
        left == right,
{
    lemma_numeral_digits(left);
    lemma_numeral_digits(right);
    lemma_word_no_longer(text, numeral(left), numeral(right));
    lemma_word_no_longer(text, numeral(right), numeral(left));
    lemma_numeral_injective(left, right);
}

/// The text of a numeral reads as its number where the number is within the
/// limit, and as no number where it is not.
pub proof fn law_numeral_reads_back(text: Seq<u8>, number: nat, limit: nat)
    requires
        is_word(text, numeral(number)),
    ensures
        number_in(text, limit) == if number <= limit {
            Some(number)
        } else {
            None
        },
{
    if let Some(read) = number_in(text, limit) {
        law_one_number(text, read, number);
    }
}

/// No text is both `null` and a numeral.
pub proof fn law_null_is_no_number(text: Seq<u8>, number: nat)
    requires
        is_word(text, null_literal()),
    ensures
        !is_word(text, numeral(number)),
{
    lemma_numeral_digits(number);
    if is_word(text, numeral(number)) {
        assert(trim(text).take(numeral(number).len() as int)[0] == numeral(number)[0]);
        assert(trim(text).take(null_literal().len() as int)[0] == null_literal()[0]);
    }
}

/// Where the next byte at or behind `from` stands that is no whitespace.
fn skip_space(text: &[u8], from: usize) -> (to: usize)
    requires
        from <= text@.len(),
    ensures
        from <= to <= text@.len(),
        text@.skip(to as int) == trim(text@.skip(from as int)),
{
    let mut to: usize = from;
    while to < text.len() && (text[to] == 0x20 || text[to] == 0x0a || text[to] == 0x09 || text[to]
        == 0x0d)
        invariant
            from <= to <= text@.len(),
            trim(text@.skip(to as int)) == trim(text@.skip(from as int)),
        decreases text@.len() - to,
    {
        assert(text@.skip(to as int).skip(1) == text@.skip(to + 1));
        to += 1;
    }
    to
}

/// Whether `byte` stands at `at`.
fn has_byte(text: &[u8], at: usize, byte: u8) -> (found: bool)
    requires
        at <= text@.len(),
    ensures
        found == starts(text@.skip(at as int), byte),
        found ==> at < text.len(),
{
    at < text.len() && text[at] == byte
}

/// Cuts the value off that stands at `from` and reaches over `len` bytes: its
/// bytes, and where to go on behind it.
pub fn cut_value<'a>(text: &'a [u8], from: usize, len: Option<usize>) -> (cut: Option<
    (&'a [u8], usize),
>)
    requires
        from <= text@.len(),
    ensures
        match cut {
            Some((value, to)) => {
                &&& cut_at(text@.skip(from as int), len) == Some((value@, text@.skip(to as int)))
                &&& from <= to <= text@.len()
            },
            None => cut_at(text@.skip(from as int), len) is None,
        },
{
    match len {
        Some(n) => if n <= text.len() - from {
            let value = slice_subrange(text, from, from + n);
            let to = skip_space(text, from + n);
            assert(value@ == text@.skip(from as int).take(n as int));
            assert(text@.skip(from as int).skip(n as int) == text@.skip(from + n));
            Some((value, to))
        } else {
            None
        },
        None => None,
    }
}

/// Reads the value at `from`: its bytes, and where to go on behind it.
fn read_value<'a>(text: &'a [u8], from: usize) -> (read: Option<(&'a [u8], usize)>)
    requires
        from <= text@.len(),
    ensures
        match read {
            Some((value, to)) => {
                &&& value_at(text@.skip(from as int)) == Some((value@, text@.skip(to as int)))
                &&& from <= to <= text@.len()
            },
            None => value_at(text@.skip(from as int)) is None,
        },
        crate::layout::extent_known(
            text@.skip(from as int),
            json_value_len(text@.skip(from as int)),
        ),
{
    let rest = slice_subrange(text, from, text.len());
    assert(rest@ == text@.skip(from as int));
    cut_value(text, from, value_len(rest))
}

/// A member of an object or an element of an array.
pub struct Item<'a> {
    /// The key of an object's member.
    pub key: Option<String>,
    /// The bytes that the value is written in.
    pub value: &'a [u8],
}

impl<'a> View for Item<'a> {
    type V = ItemModel;

    open spec fn view(&self) -> ItemModel {
        ItemModel {
            key: match self.key {
                Some(key) => Some(key@),
                None => None,
            },
            value: self.value@,
        }
    }
}

/// What each of the items is.
pub open spec fn item_models<'a>(items: Seq<Item<'a>>) -> Seq<ItemModel> {
    Seq::new(items.len(), |i: int| items[i]@)
}

/// Reads the item at `from`, and where to go on behind it.
fn read_item<'a>(text: &'a [u8], from: usize, keyed: bool) -> (read: Option<(Item<'a>, usize)>)
    requires
        from <= text@.len(),
    ensures
        match read {
            Some((item, to)) => {
                &&& item_at(text@.skip(from as int), keyed) == Some(
                    (item@, text@.skip(to as int)),
                )
                &&& from <= to <= text@.len()
            },
            None => item_at(text@.skip(from as int), keyed) is None,
        },
        crate::layout::item_known(text@.skip(from as int), keyed),
{
    let (first, after_first) = match read_value(text, from) {
        Some(read) => read,
        None => return None,
    };
    if !keyed {
        return Some((Item { key: None, value: first }, after_first));
    }
    if !has_byte(text, from, QUOTE) || !has_byte(text, after_first, COLON) {
        return None;
    }
    assert(text@.skip(after_first as int).skip(1) == text@.skip(after_first + 1));
    let value_from = skip_space(text, after_first + 1);
    match (string_of(first), read_value(text, value_from)) {
        (Some(key), Some((value, to))) => Some((Item { key: Some(key), value }, to)),
        _ => None,
    }
}

/// Whether the closing byte stands at `at` with nothing but whitespace behind it.
fn is_closed(text: &[u8], at: usize, keyed: bool) -> (closed: bool)
    requires
        at <= text@.len(),
    ensures
        closed == closes(text@.skip(at as int), keyed),
{
    let byte = if keyed {
        CLOSE_BRACE
    } else {
        CLOSE_BRACKET
    };
    if !has_byte(text, at, byte) {
        return false;
    }
    assert(text@.skip(at as int).skip(1) == text@.skip(at + 1));
    skip_space(text, at + 1) == text.len()
}

/// Whether `text` is `null`, with whitespace around it or none.
pub fn is_null(text: &[u8]) -> (null: bool)
    ensures
        null == is_word(text@, null_literal()),
{
    assert(text@.skip(0) == text@);
    let start = skip_space(text, 0);
    let ghost trimmed = trim(text@);
    if text.len() - start < 4 {
        return false;
    }
    if text[start] != 0x6e || text[start + 1] != 0x75 || text[start + 2] != 0x6c || text[start + 3]
        != 0x6c {
        assert(trimmed.take(4)[0] == text@[start as int]);
        assert(trimmed.take(4)[1] == text@[start + 1]);
        assert(trimmed.take(4)[2] == text@[start + 2]);
        assert(trimmed.take(4)[3] == text@[start + 3]);
        return false;
    }
    assert(trimmed.take(4) =~= null_literal());
    assert(trimmed.skip(4) == text@.skip(start + 4));
    skip_space(text, start + 4) == text.len()
}

/// Whether the first byte of `text` that is no whitespace opens an object.
pub fn opens_object(text: &[u8]) -> (opens: bool)
    ensures
        opens == starts(trim(text@), OPEN_BRACE),
{
    assert(text@.skip(0) == text@);
    let start = skip_space(text, 0);
    has_byte(text, start, OPEN_BRACE)
}

/// `first` and then `rest`, where there is a rest.
spec fn extended(first: Seq<ItemModel>, rest: Option<Seq<ItemModel>>) -> Option<Seq<ItemModel>> {
    match rest {
        Some(rest) => Some(first + rest),
        None => None,
    }
}

/// Walks over the items of an object (`keyed`) or an array.
fn walk_items<'a>(text: &'a [u8], keyed: bool) -> (read: Option<Vec<Item<'a>>>)
    ensures
        match read {
            Some(found) => items(text@, keyed) == Some(item_models(found@)),
            None => items(text@, keyed) is None,
        },
        crate::layout::walk_known(text@, keyed),
{
    let opening_byte = if keyed {
        OPEN_BRACE
    } else {
        OPEN_BRACKET
    };
    assert(text@.skip(0) == text@);
    let start = skip_space(text, 0);
    if !has_byte(text, start, opening_byte) {
        return None;
    }
    assert(text@.skip(start as int).skip(1) == text@.skip(start + 1));
    let mut at = skip_space(text, start + 1);
    let mut found: Vec<Item<'a>> = Vec::new();
    let ghost inner = text@.skip(at as int);
    if is_closed(text, at, keyed) {
        assert(item_models(found@) == Seq::<ItemModel>::empty());
        return Some(found);
    }
    assert(extended(item_models(found@), items_from(text@.skip(at as int), keyed)) == items_from(
        text@.skip(at as int),
        keyed,
    )) by {
        if let Some(rest) = items_from(text@.skip(at as int), keyed) {
            assert(item_models(found@) + rest == rest);
        }
    }
    loop
        invariant
            at <= text@.len(),
            inner == trim(trim(text@).skip(1)),
            crate::layout::items_known(text@.skip(at as int), keyed)
                ==> crate::layout::items_known(inner, keyed),
            items(text@, keyed) == extended(
                item_models(found@),
                items_from(text@.skip(at as int), keyed),
            ),
        decreases text@.len() - at,
    {
        let ghost before = item_models(found@);
        let (item, to) = match read_item(text, at, keyed) {
            Some(read) => read,
            None => return None,
        };
        let ghost model = item@;
        found.push(item);
        assert(item_models(found@) == before + seq![model]);
        if is_closed(text, to, keyed) {
            return Some(found);
        }
        if !has_byte(text, to, COMMA) {
            return None;
        }
        assert(text@.skip(to as int).skip(1) == text@.skip(to + 1));
        let next = skip_space(text, to + 1);
        assert(items(text@, keyed) == extended(
            item_models(found@),
            items_from(text@.skip(next as int), keyed),
        )) by {
            if let Some(rest) = items_from(text@.skip(next as int), keyed) {
                assert(before + (seq![model] + rest) == (before + seq![model]) + rest);
            }
        }
        at = next;
    }
}

/// Reads the members of an object (`keyed`) or the elements of an array.
///
/// A document reads as the items of the value that it is laid out from.
pub fn read_items<'a>(text: &'a [u8], keyed: bool) -> (read: Option<Vec<Item<'a>>>)
    ensures
        match read {
            Some(found) => items(text@, keyed) == Some(item_models(found@)),
            None => items(text@, keyed) is None,
        },
        crate::layout::items_read_as(text@, keyed),
{
    let read = walk_items(text, keyed);
    proof {
        assert(text.len() == text@.len());
        crate::layout::lemma_items_read_as(text@, keyed);
    }
    read
}

} // verus!
