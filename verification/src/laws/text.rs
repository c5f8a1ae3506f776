//! How the bytes of a document are read: whitespace, words, and the punctuation of
//! objects and arrays.

use crate::json::ItemModel;
use vstd::prelude::*;

verus! {

/// Whether all bytes are spaces, line feeds, tabs or carriage returns.
pub open spec fn blank(bytes: Seq<u8>) -> bool {
    forall|i: int|
        0 <= i < bytes.len() ==> (#[trigger] bytes[i]) == 0x20 || bytes[i] == 0x0a || bytes[i]
            == 0x09 || bytes[i] == 0x0d
}

/// Whether the bytes do not start with a space, a line feed, a tab or a carriage
/// return.
pub open spec fn flush(bytes: Seq<u8>) -> bool {
    bytes.len() > 0 ==> bytes[0] != 0x20 && bytes[0] != 0x0a && bytes[0] != 0x09 && bytes[0] != 0x0d
}

/// Trimming takes the blanks at the start away, all of them and nothing else.
pub proof fn law_trim_takes_blanks_away(text: Seq<u8>) -> (gap: Seq<u8>)
    ensures
        text == gap + crate::json::trim(text),
        blank(gap),
        flush(crate::json::trim(text)),
    decreases text.len(),
{
    if text.len() > 0 && crate::json::is_space(text[0]) {
        let rest = law_trim_takes_blanks_away(text.skip(1));
        let gap = seq![text[0]] + rest;
        assert(text == seq![text[0]] + text.skip(1));
        assert(text == gap + crate::json::trim(text.skip(1)));
        assert forall|i: int| 0 <= i < gap.len() implies (#[trigger] gap[i]) == 0x20 || gap[i]
            == 0x0a || gap[i] == 0x09 || gap[i] == 0x0d by {
            if i > 0 {
                assert(gap[i] == rest[i - 1]);
            }
        }
        gap
    } else {
        assert(text == Seq::<u8>::empty() + crate::json::trim(text));
        Seq::empty()
    }
}

/// Blanks at the start make no difference to what is left after trimming.
pub proof fn law_trim_ignores_blanks(gap: Seq<u8>, text: Seq<u8>)
    requires
        blank(gap),
    ensures
        crate::json::trim(gap + text) == crate::json::trim(text),
    decreases gap.len(),
{
    if gap.len() == 0 {
        assert(gap + text == text);
    } else {
        assert((gap + text)[0] == gap[0]);
        assert((gap + text).skip(1) == gap.skip(1) + text);
        assert(blank(gap.skip(1))) by {
            assert(forall|i: int| 0 <= i < gap.len() - 1
                ==> #[trigger] gap.skip(1)[i] == gap[i + 1]);
        }
        law_trim_ignores_blanks(gap.skip(1), text);
    }
}

/// A text is a word exactly where the word stands in it with nothing but blanks
/// around it.
pub proof fn law_word_stands_alone(text: Seq<u8>, word: Seq<u8>)
    requires
        word.len() > 0,
        flush(word),
    ensures
        crate::json::is_word(text, word) <==> exists|before: Seq<u8>, after: Seq<u8>|
            text == #[trigger] (before + word + after) && blank(before) && blank(after),
{
    if crate::json::is_word(text, word) {
        let before = law_trim_takes_blanks_away(text);
        let trimmed = crate::json::trim(text);
        let after = trimmed.skip(word.len() as int);
        let gap = law_trim_takes_blanks_away(after);
        assert(gap == after);
        assert(trimmed == word + after);
        assert(text == before + word + after);
    }
    if exists|before: Seq<u8>, after: Seq<u8>|
        text == #[trigger] (before + word + after) && blank(before) && blank(after) {
        let (before, after) = choose|before: Seq<u8>, after: Seq<u8>|
            text == #[trigger] (before + word + after) && blank(before) && blank(after);
        assert(text == before + (word + after));
        law_trim_ignores_blanks(before, word + after);
        assert((word + after)[0] == word[0]);
        assert(crate::json::trim(word + after) == word + after);
        assert((word + after).take(word.len() as int) == word);
        assert((word + after).skip(word.len() as int) == after);
        law_trim_ignores_blanks(after, Seq::empty());
        assert(after + Seq::<u8>::empty() == after);
    }
}

/// The number that a string of decimal digits stands for.
pub open spec fn number_of(digits: Seq<u8>) -> int
    decreases digits.len(),
{
    if digits.len() == 0 {
        0
    } else {
        10 * number_of(digits.drop_last()) + (digits.last() - 0x30)
    }
}

/// A numeral is made of digits, has no leading zero, and stands for its number.
pub proof fn law_numeral_stands_for_its_number(number: nat)
    ensures
        number_of(crate::json::numeral(number)) == number,
        crate::json::numeral(number).len() > 0,
        forall|i: int|
            0 <= i < crate::json::numeral(number).len() ==> 0x30 <= #[trigger] crate::json::numeral(
                number,
            )[i] <= 0x39,
        crate::json::numeral(number)[0] == 0x30 ==> number == 0,
    decreases number,
{
    crate::json::lemma_numeral_digits(number);
    let text = crate::json::numeral(number);
    if number >= 10 {
        law_numeral_stands_for_its_number(number / 10);
        assert(text.drop_last() == crate::json::numeral(number / 10));
        assert(text[0] == crate::json::numeral(number / 10)[0]);
    } else {
        assert(text.drop_last() == Seq::<u8>::empty());
    }
    assert(number_of(text) == 10 * number_of(text.drop_last()) + (text.last() - 0x30));
}

/// Whether the bytes are an item with blanks around its tokens: the value alone in
/// an array; in an object a string that spells the key, a colon and the value.
pub open spec fn spells_item(bytes: Seq<u8>, keyed: bool, item: ItemModel) -> bool {
    if keyed {
        exists|before: Seq<u8>, name: Seq<u8>, colon: Seq<u8>, after: Seq<u8>|
            {
                &&& bytes == #[trigger] (before + name + colon + item.value + after)
                &&& blank(before)
                &&& blank(after)
                &&& is_colon(colon)
                &&& name.len() > 0
                &&& name[0] == 0x22
                &&& item.key is Some
                &&& crate::json::json_string(name) == item.key
            }
    } else {
        exists|before: Seq<u8>, after: Seq<u8>|
            {
                &&& bytes == #[trigger] (before + item.value + after)
                &&& blank(before)
                &&& blank(after)
                &&& item.key is None
            }
    }
}

/// Whether the bytes are a colon with blanks around it.
pub open spec fn is_colon(bytes: Seq<u8>) -> bool {
    exists|before: Seq<u8>, after: Seq<u8>|
        bytes == #[trigger] (before + seq![0x3au8] + after) && blank(before) && blank(after)
}

/// The pieces with a comma between each two.
pub open spec fn joined(pieces: Seq<Seq<u8>>) -> Seq<u8>
    decreases pieces.len(),
{
    if pieces.len() == 0 {
        seq![]
    } else if pieces.len() == 1 {
        pieces[0]
    } else {
        pieces[0] + seq![0x2cu8] + joined(pieces.skip(1))
    }
}

/// Whether each piece spells the item at the same place.
pub open spec fn spell_items(pieces: Seq<Seq<u8>>, keyed: bool, items: Seq<ItemModel>) -> bool {
    &&& pieces.len() == items.len()
    &&& forall|i: int|
        0 <= i < items.len() ==> spells_item(#[trigger] pieces[i], keyed, items[i])
}

/// The bracket that opens an object (`keyed`) or an array.
pub open spec fn opener(keyed: bool) -> Seq<u8> {
    if keyed {
        seq![0x7bu8]
    } else {
        seq![0x5bu8]
    }
}

/// The bracket that closes an object (`keyed`) or an array.
pub open spec fn closer(keyed: bool) -> Seq<u8> {
    if keyed {
        seq![0x7du8]
    } else {
        seq![0x5du8]
    }
}

proof fn lemma_value_cut(text: Seq<u8>) -> (gap: Seq<u8>)
    requires
        crate::json::value_at(text) is Some,
    ensures
        ({
            let (value, rest) = crate::json::value_at(text)->0;
            text == value + gap + rest
        }),
        blank(gap),
{
    let n = crate::json::json_value_len(text)->0;
    let gap = law_trim_takes_blanks_away(text.skip(n as int));
    let (value, rest) = crate::json::value_at(text)->0;
    assert(text == text.take(n as int) + text.skip(n as int));
    assert(text == value + gap + rest);
    gap
}

proof fn lemma_item_cut(text: Seq<u8>, keyed: bool) -> (piece: Seq<u8>)
    requires
        crate::json::item_at(text, keyed) is Some,
    ensures
        ({
            let (item, rest) = crate::json::item_at(text, keyed)->0;
            &&& text == piece + rest
            &&& spells_item(piece, keyed, item)
        }),
{
    let (item, rest) = crate::json::item_at(text, keyed)->0;
    let none = Seq::<u8>::empty();
    if keyed {
        let (name, after_name) = crate::json::value_at(text)->0;
        let first = lemma_value_cut(text);
        let second = law_trim_takes_blanks_away(after_name.skip(1));
        let behind = crate::json::trim(after_name.skip(1));
        let last = lemma_value_cut(behind);
        let colon = first + seq![0x3au8] + second;
        assert(is_colon(colon));
        assert(after_name == seq![0x3au8] + after_name.skip(1));
        assert(text == name + first + (seq![0x3au8] + (second + behind)));
        let piece = none + name + colon + item.value + last;
        assert(text == piece + rest);
        if name.len() == 0 {
            lemma_empty_name(text);
        }
        assert(name[0] == text[0]);
        assert(spells_item(piece, keyed, item));
        piece
    } else {
        let gap = lemma_value_cut(text);
        let piece = none + item.value + gap;
        assert(text == piece + rest);
        assert(spells_item(piece, keyed, item));
        piece
    }
}

/// A string that is read as a key has bytes: what stands before the colon starts
/// with a quote.
proof fn lemma_empty_name(text: Seq<u8>)
    requires
        crate::json::value_at(text) is Some,
        crate::json::starts(text, crate::json::QUOTE),
        crate::json::starts((crate::json::value_at(text)->0).1, crate::json::COLON),
    ensures
        (crate::json::value_at(text)->0).0.len() > 0,
{
    let (name, rest) = crate::json::value_at(text)->0;
    if name.len() == 0 {
        let n = crate::json::json_value_len(text)->0;
        assert(text.skip(n as int) == text);
        assert(crate::json::trim(text) == text);
    }
}

proof fn lemma_concatenation(
    text: Seq<u8>,
    piece: Seq<u8>,
    rest: Seq<u8>,
    gap: Seq<u8>,
    next: Seq<u8>,
    others: Seq<u8>,
    end: Seq<u8>,
    back: Seq<u8>,
)
    requires
        text == piece + rest,
        rest == seq![0x2cu8] + (gap + next),
        next == others + end + back,
    ensures
        text == (piece + seq![0x2cu8] + (gap + others)) + end + back,
{
    assert(text =~= (piece + seq![0x2cu8] + (gap + others)) + end + back);
}

proof fn lemma_prepend(
    piece: Seq<u8>,
    item: ItemModel,
    gap: Seq<u8>,
    others: Seq<Seq<u8>>,
    items: Seq<ItemModel>,
    keyed: bool,
)
    requires
        spells_item(piece, keyed, item),
        spell_items(others, keyed, items),
        others.len() > 0,
        blank(gap),
    ensures
        ({
            let pieces = seq![piece] + others.update(0, gap + others[0]);
            &&& spell_items(pieces, keyed, seq![item] + items)
            &&& joined(pieces) == piece + seq![0x2cu8] + (gap + joined(others))
        }),
{
    let moved = others.update(0, gap + others[0]);
    let pieces = seq![piece] + moved;
    assert(spells_item(others[0], keyed, items[0]));
    lemma_gap_before(others[0], gap, keyed, items[0]);
    lemma_joined_gap(others, gap);
    assert(pieces.skip(1) == moved);
    let all = seq![item] + items;
    assert forall|i: int| 0 <= i < all.len() implies spells_item(
        #[trigger] pieces[i],
        keyed,
        all[i],
    ) by {
        if i > 0 {
            assert(pieces[i] == moved[i - 1]);
            assert(all[i] == items[i - 1]);
            if i > 1 {
                assert(spells_item(others[i - 1], keyed, items[i - 1]));
            }
        }
    }
}

proof fn lemma_items_cut(text: Seq<u8>, keyed: bool) -> (cut: (Seq<Seq<u8>>, Seq<u8>))
    requires
        crate::json::items_from(text, keyed) is Some,
    ensures
        text == joined(cut.0) + closer(keyed) + cut.1,
        spell_items(cut.0, keyed, crate::json::items_from(text, keyed)->0),
        cut.0.len() > 0,
        blank(cut.1),
    decreases text.len(),
{
    let (item, rest) = crate::json::item_at(text, keyed)->0;
    let piece = lemma_item_cut(text, keyed);
    crate::json::lemma_item_len(text, keyed);
    if crate::json::closes(rest, keyed) {
        let back = law_trim_takes_blanks_away(rest.skip(1));
        assert(back == rest.skip(1));
        assert(rest == closer(keyed) + back);
        let pieces = seq![piece];
        assert(text == joined(pieces) + closer(keyed) + back);
        (pieces, back)
    } else {
        let gap = law_trim_takes_blanks_away(rest.skip(1));
        let next = crate::json::trim(rest.skip(1));
        crate::json::lemma_trim_len(rest.skip(1));
        let (others, back) = lemma_items_cut(next, keyed);
        let pieces = seq![piece] + others.update(0, gap + others[0]);
        lemma_prepend(piece, item, gap, others, crate::json::items_from(next, keyed)->0, keyed);
        assert(rest == seq![0x2cu8] + rest.skip(1));
        lemma_concatenation(text, piece, rest, gap, next, joined(others), closer(keyed), back);
        (pieces, back)
    }
}

proof fn lemma_blank_join(left: Seq<u8>, right: Seq<u8>)
    requires
        blank(left),
        blank(right),
    ensures
        blank(left + right),
{
    assert forall|i: int| 0 <= i < (left + right).len() implies (#[trigger] (left + right)[i])
        == 0x20 || (left + right)[i] == 0x0a || (left + right)[i] == 0x09 || (left + right)[i]
        == 0x0d by {
        if i < left.len() {
            assert((left + right)[i] == left[i]);
        } else {
            assert((left + right)[i] == right[i - left.len()]);
        }
    }
}

proof fn lemma_gap_before(piece: Seq<u8>, gap: Seq<u8>, keyed: bool, item: ItemModel)
    requires
        spells_item(piece, keyed, item),
        blank(gap),
    ensures
        spells_item(gap + piece, keyed, item),
{
    if keyed {
        let (before, name, colon, after) = choose|
            before: Seq<u8>,
            name: Seq<u8>,
            colon: Seq<u8>,
            after: Seq<u8>,
        |
            {
                &&& piece == #[trigger] (before + name + colon + item.value + after)
                &&& blank(before)
                &&& blank(after)
                &&& is_colon(colon)
                &&& name.len() > 0
                &&& name[0] == 0x22
                &&& item.key is Some
                &&& crate::json::json_string(name) == item.key
            };
        lemma_blank_join(gap, before);
        assert(gap + piece == (gap + before) + name + colon + item.value + after);
    } else {
        let (before, after) = choose|before: Seq<u8>, after: Seq<u8>|
            {
                &&& piece == #[trigger] (before + item.value + after)
                &&& blank(before)
                &&& blank(after)
                &&& item.key is None
            };
        lemma_blank_join(gap, before);
        assert(gap + piece == (gap + before) + item.value + after);
    }
}

proof fn lemma_joined_gap(pieces: Seq<Seq<u8>>, gap: Seq<u8>)
    requires
        pieces.len() > 0,
    ensures
        joined(pieces.update(0, gap + pieces[0])) == gap + joined(pieces),
{
    let moved = pieces.update(0, gap + pieces[0]);
    if pieces.len() > 1 {
        assert(moved.skip(1) == pieces.skip(1));
        assert(gap + pieces[0] + seq![0x2cu8] + joined(pieces.skip(1)) == gap + (pieces[0]
            + seq![0x2cu8] + joined(pieces.skip(1))));
    }
}

/// What is read as an object or an array is written as one: an opening bracket, the
/// items in order with a comma between each two and none behind the last, the
/// closing bracket that belongs to the opening one, and nothing else but blanks.
pub proof fn law_items_are_written_in_order(
    text: Seq<u8>,
    keyed: bool,
    items: Seq<ItemModel>,
) -> (parts: (Seq<u8>, Seq<Seq<u8>>, Seq<u8>))
    requires
        crate::json::items(text, keyed) == Some(items),
    ensures
        blank(parts.0),
        blank(parts.2),
        items.len() > 0 ==> spell_items(parts.1, keyed, items),
        items.len() == 0 ==> parts.1.len() == 1 && blank(parts.1[0]),
        text == parts.0 + opener(keyed) + joined(parts.1) + closer(keyed) + parts.2,
{
    let front = law_trim_takes_blanks_away(text);
    let trimmed = crate::json::trim(text);
    let gap = law_trim_takes_blanks_away(trimmed.skip(1));
    let inner = crate::json::trim(trimmed.skip(1));
    assert(trimmed == opener(keyed) + (gap + inner));
    if crate::json::closes(inner, keyed) {
        let back = law_trim_takes_blanks_away(inner.skip(1));
        assert(back == inner.skip(1));
        assert(inner == closer(keyed) + back);
        let pieces = seq![gap];
        assert(text == front + opener(keyed) + joined(pieces) + closer(keyed) + back);
        (front, pieces, back)
    } else {
        let (pieces, back) = lemma_items_cut(inner, keyed);
        let moved = pieces.update(0, gap + pieces[0]);
        lemma_gap_before(pieces[0], gap, keyed, items[0]);
        lemma_joined_gap(pieces, gap);
        assert(text == front + opener(keyed) + joined(moved) + closer(keyed) + back);
        assert forall|i: int| 0 <= i < moved.len() implies spells_item(
            #[trigger] moved[i],
            keyed,
            items[i],
        ) by {
            if i > 0 {
                assert(spells_item(pieces[i], keyed, items[i]));
            }
        }
        (front, moved, back)
    }
}

proof fn lemma_value_at(value: Seq<u8>, gap: Seq<u8>, rest: Seq<u8>)
    requires
        blank(gap),
        flush(rest),
        crate::json::json_value_len(value + gap + rest) == Some(value.len() as usize),
        value.len() <= usize::MAX,
    ensures
        crate::json::value_at(value + gap + rest) == Some((value, rest)),
{
    let text = value + gap + rest;
    assert(text.take(value.len() as int) == value);
    assert(text.skip(value.len() as int) == gap + rest);
    law_trim_ignores_blanks(gap, rest);
    assert(crate::json::trim(rest) == rest);
}

/// A value is cut off where it ends, and what follows is taken up behind the blanks;
/// nothing is cut off where no value stands or it would reach beyond the text.
pub proof fn law_value_is_cut_off(text: Seq<u8>, len: Option<usize>)
    ensures
        match len {
            Some(n) => if n <= text.len() {
                &&& crate::json::cut_at(text, len) matches Some((value, rest)) && value.len() == n
                    && flush(rest) && exists|gap: Seq<u8>|
                    blank(gap) && text == #[trigger] (value + gap + rest)
            } else {
                crate::json::cut_at(text, len) is None
            },
            None => crate::json::cut_at(text, len) is None,
        },
{
    if let Some(n) = len {
        if n <= text.len() {
            let gap = law_trim_takes_blanks_away(text.skip(n as int));
            let (value, rest) = crate::json::cut_at(text, len)->0;
            assert(text == text.take(n as int) + text.skip(n as int));
            assert(text == value + gap + rest);
        }
    }
}

/// A value is an element of an array as it stands, up to the blanks behind it.
pub proof fn law_element_is_read(value: Seq<u8>, gap: Seq<u8>, rest: Seq<u8>)
    requires
        blank(gap),
        flush(rest),
        crate::json::json_value_len(value + gap + rest) == Some(value.len() as usize),
        value.len() <= usize::MAX,
    ensures
        crate::json::item_at(value + gap + rest, false) == Some(
            (ItemModel { key: None, value }, rest),
        ),
{
    lemma_value_at(value, gap, rest);
}

/// A string, a colon and a value are a member of an object, whatever the key and
/// the blanks between them: the string spells the key and the value stands for
/// itself.
pub proof fn law_member_is_read(
    name: Seq<u8>,
    key: Seq<char>,
    before_colon: Seq<u8>,
    after_colon: Seq<u8>,
    value: Seq<u8>,
    gap: Seq<u8>,
    rest: Seq<u8>,
)
    requires
        blank(before_colon),
        blank(after_colon),
        blank(gap),
        flush(value + gap + rest),
        flush(rest),
        name.len() > 0,
        name[0] == 0x22,
        crate::json::json_string(name) == Some(key),
        crate::json::json_value_len(
            name + before_colon + (seq![0x3au8] + (after_colon + (value + gap + rest))),
        ) == Some(name.len() as usize),
        crate::json::json_value_len(value + gap + rest) == Some(value.len() as usize),
        name.len() <= usize::MAX,
        value.len() <= usize::MAX,
    ensures
        crate::json::item_at(
            name + before_colon + (seq![0x3au8] + (after_colon + (value + gap + rest))),
            true,
        ) == Some((ItemModel { key: Some(key), value }, rest)),
{
    let behind = seq![0x3au8] + (after_colon + (value + gap + rest));
    let text = name + before_colon + behind;
    lemma_value_at(name, before_colon, behind);
    assert(text[0] == name[0]);
    assert(behind.skip(1) == after_colon + (value + gap + rest));
    law_trim_ignores_blanks(after_colon, value + gap + rest);
    assert(crate::json::trim(value + gap + rest) == value + gap + rest);
    lemma_value_at(value, gap, rest);
}

/// The closing bracket and nothing but blanks behind an item end the list with it.
pub proof fn law_bracket_ends_the_items(
    text: Seq<u8>,
    keyed: bool,
    item: ItemModel,
    back: Seq<u8>,
)
    requires
        crate::json::item_at(text, keyed) == Some((item, closer(keyed) + back)),
        blank(back),
    ensures
        crate::json::items_from(text, keyed) == Some(seq![item]),
{
    let rest = closer(keyed) + back;
    assert(rest.skip(1) == back);
    law_trim_ignores_blanks(back, Seq::empty());
    assert(back + Seq::<u8>::empty() == back);
}

/// A comma behind an item goes on to the items that follow it, whatever the blanks
/// between.
pub proof fn law_comma_goes_on(
    text: Seq<u8>,
    keyed: bool,
    item: ItemModel,
    gap: Seq<u8>,
    next: Seq<u8>,
    items: Seq<ItemModel>,
)
    requires
        crate::json::item_at(text, keyed) == Some((item, seq![0x2cu8] + (gap + next))),
        blank(gap),
        flush(next),
        crate::json::items_from(next, keyed) == Some(items),
    ensures
        crate::json::items_from(text, keyed) == Some(seq![item] + items),
{
    let rest = seq![0x2cu8] + (gap + next);
    assert(rest.skip(1) == gap + next);
    law_trim_ignores_blanks(gap, next);
    assert(crate::json::trim(next) == next);
}

/// The opening bracket leads to the items behind it, and to none where the closing
/// one follows, whatever the blanks around it.
pub proof fn law_bracket_leads_to_the_items(
    front: Seq<u8>,
    keyed: bool,
    gap: Seq<u8>,
    inner: Seq<u8>,
    back: Seq<u8>,
)
    requires
        blank(front),
        blank(gap),
        blank(back),
        flush(inner),
        inner.len() > 0,
        inner[0] != 0x7d,
        inner[0] != 0x5d,
    ensures
        crate::json::items(front + (opener(keyed) + (gap + inner)), keyed)
            == crate::json::items_from(inner, keyed),
        crate::json::items(front + (opener(keyed) + (gap + (closer(keyed) + back))), keyed) == Some(
            Seq::<ItemModel>::empty(),
        ),
{
    let open = opener(keyed) + (gap + inner);
    law_trim_ignores_blanks(front, open);
    assert(crate::json::trim(open) == open);
    assert(open.skip(1) == gap + inner);
    law_trim_ignores_blanks(gap, inner);
    assert(crate::json::trim(inner) == inner);
    let end = closer(keyed) + back;
    let empty = opener(keyed) + (gap + end);
    law_trim_ignores_blanks(front, empty);
    assert(crate::json::trim(empty) == empty);
    assert(empty.skip(1) == gap + end);
    law_trim_ignores_blanks(gap, end);
    assert(crate::json::trim(end) == end);
    assert(end.skip(1) == back);
    law_trim_ignores_blanks(back, Seq::empty());
    assert(back + Seq::<u8>::empty() == back);
}

} // verus!
