//! The plain form of the `baggage` header: entries written as `key=value`
//! and joined by commas, with what needs it in a value escaped by a percent
//! sign and two digits.

use vstd::prelude::*;
use crate::carrier::{is_text_char, value_readable};
use crate::text::Field;

verus! {

/// The characters of a plain key: visible ASCII but the separators
/// `(),/:;<=>?@[\]{}"` and the percent sign.
pub open spec fn is_key_char(c: char) -> bool {
    &&& '!' <= c <= '~'
    &&& c != '(' && c != ')' && c != ',' && c != '/' && c != ':' && c != ';' && c != '<'
    &&& c != '=' && c != '>' && c != '?' && c != '@' && c != '[' && c != '\\' && c != ']'
    &&& c != '{' && c != '}' && c != '"' && c != '%'
}

/// The ASCII white space that is trimmed off a value.
pub open spec fn is_blank(c: char) -> bool {
    c == ' ' || '\t' <= c <= '\r'
}

/// A plain value: ASCII without a percent sign, and without white space at
/// its ends.
pub open spec fn is_plain_value(value: Seq<char>) -> bool {
    &&& forall|i: int| 0 <= i < value.len() ==> (#[trigger] value[i]) <= '\x7f' && value[i] != '%'
    &&& value.len() > 0 ==> !is_blank(value[0]) && !is_blank(value.last())
}

/// The characters of a value that are escaped: control characters, the
/// space, and `"`, `;`, `,`, `=`.
pub open spec fn needs_escape(c: char) -> bool {
    c < ' ' || c == '\x7f' || c == ' ' || c == '"' || c == ';' || c == ',' || c == '='
}

/// The uppercase hexadecimal digit of a value below 16.
pub open spec fn upper_hex_digit(value: nat) -> char {
    if value < 10 {
        (('0' as u8) + value) as char
    } else {
        (('A' as u8) + value - 10) as char
    }
}

/// A character as it stands in a value: itself, or a percent sign and the
/// two digits of its code where it is escaped.
pub open spec fn escape_char(c: char) -> Seq<char> {
    if needs_escape(c) {
        seq![
            '%',
            upper_hex_digit((c as u8 / 16) as nat),
            upper_hex_digit((c as u8 % 16) as nat),
        ]
    } else {
        seq![c]
    }
}

/// A value as it stands in the header, character by character.
pub open spec fn escaped(value: Seq<char>) -> Seq<char>
    decreases value.len(),
{
    if value.len() == 0 {
        Seq::empty()
    } else {
        escape_char(value[0]) + escaped(value.skip(1))
    }
}

/// An entry whose key is made of key characters and is not empty, and whose
/// value is a plain value.
pub open spec fn is_plain_entry(entry: Field) -> bool {
    &&& entry.0.len() > 0
    &&& forall|i: int| 0 <= i < entry.0.len() ==> is_key_char(#[trigger] entry.0[i])
    &&& is_plain_value(entry.1)
}

/// An entry as it stands in the header: key, `=`, escaped value.
pub open spec fn entry_text(entry: Field) -> Seq<char> {
    entry.0 + seq!['='] + escaped(entry.1)
}

/// The header that lists the entries in their order, with commas between
/// them.
pub open spec fn baggage_text(entries: Seq<Field>) -> Seq<char>
    decreases entries.len(),
{
    if entries.len() == 0 {
        Seq::empty()
    } else if entries.len() == 1 {
        entry_text(entries[0])
    } else {
        baggage_text(entries.drop_last()) + seq![','] + entry_text(entries.last())
    }
}

/// Entries that the format takes and gives back: plain entries, no more
/// than 64 of them, in a header of no more than 8192 characters.
pub open spec fn is_plain_baggage(entries: Seq<Field>) -> bool {
    &&& entries.len() <= 64
    &&& baggage_text(entries).len() <= 8192
    &&& forall|i: int| 0 <= i < entries.len() ==> is_plain_entry(#[trigger] entries[i])
}

/// True when the text holds the character.
pub open spec fn holds(text: Seq<char>, c: char) -> bool {
    exists|i: int| 0 <= i < text.len() && #[trigger] text[i] == c
}

/// True for what an escaped value is made of: visible ASCII but the
/// separators `,`, `;`, `=`.
pub open spec fn is_escaped_char(c: char) -> bool {
    '!' <= c <= '~' && c != ',' && c != ';' && c != '='
}

/// An escaped value is made of visible characters that are no separators,
/// and is empty only for the empty value.
pub proof fn lemma_escaped_chars(value: Seq<char>)
    requires
        forall|i: int| 0 <= i < value.len() ==> (#[trigger] value[i]) <= '\x7f' && value[i] != '%',
    ensures
        forall|i: int|
            0 <= i < escaped(value).len() ==> is_escaped_char(#[trigger] escaped(value)[i]),
        escaped(value).len() >= value.len(),
    decreases value.len(),
{
    if value.len() > 0 {
        let rest = value.skip(1);
        assert forall|i: int| 0 <= i < rest.len() implies (#[trigger] rest[i]) <= '\x7f' && rest[i]
            != '%' by {
            assert(rest[i] == value[i + 1]);
        }
        lemma_escaped_chars(rest);
        let first = escape_char(value[0]);
        let whole = escaped(value);
        assert(value[0] <= '\x7f' && value[0] != '%');
        assert forall|i: int| 0 <= i < first.len() implies is_escaped_char(#[trigger] first[i]) by {
        }
        assert forall|i: int| 0 <= i < whole.len() implies is_escaped_char(#[trigger] whole[i]) by {
            if i < first.len() {
                assert(whole[i] == first[i]);
            } else {
                assert(whole[i] == escaped(rest)[i - first.len()]);
            }
        }
    }
}

/// Two values below 16 with the same digit are the same value.
pub proof fn lemma_upper_hex_digit_injective(first: nat, second: nat)
    requires
        first < 16,
        second < 16,
        upper_hex_digit(first) == upper_hex_digit(second),
    ensures
        first == second,
{
    assert(upper_hex_digit(first) as u32 == upper_hex_digit(second) as u32);
}

/// Two ASCII characters whose codes have the same two digits are the same
/// character.
pub proof fn lemma_escape_code_injective(first: char, second: char)
    requires
        first <= '\x7f',
        second <= '\x7f',
        upper_hex_digit((first as u8 / 16) as nat) == upper_hex_digit((second as u8 / 16) as nat),
        upper_hex_digit((first as u8 % 16) as nat) == upper_hex_digit((second as u8 % 16) as nat),
    ensures
        first == second,
{
    let x = first as u8;
    let y = second as u8;
    lemma_upper_hex_digit_injective((x / 16) as nat, (y / 16) as nat);
    lemma_upper_hex_digit_injective((x % 16) as nat, (y % 16) as nat);
    assert(x == y);
}

/// Two values that are escaped to the same text are the same value.
pub proof fn lemma_escaped_injective(first: Seq<char>, second: Seq<char>)
    requires
        forall|i: int| 0 <= i < first.len() ==> (#[trigger] first[i]) <= '\x7f' && first[i] != '%',
        forall|i: int|
            0 <= i < second.len() ==> (#[trigger] second[i]) <= '\x7f' && second[i] != '%',
        escaped(first) == escaped(second),
    ensures
        first == second,
    decreases first.len(),
{
    lemma_escaped_chars(first);
    lemma_escaped_chars(second);
    if first.len() == 0 || second.len() == 0 {
        assert(first =~= second);
    } else {
        let text = escaped(first);
        let a = first[0];
        let b = second[0];
        let head = escape_char(a);
        let other = escape_char(b);
        let rest = first.skip(1);
        let tail = second.skip(1);
        assert(a <= '\x7f' && a != '%' && b <= '\x7f' && b != '%');
        assert(text[0] == head[0]);
        assert(text[0] == other[0]);
        assert(needs_escape(a) == needs_escape(b));
        if needs_escape(a) {
            assert(text[1] == head[1] && text[2] == head[2]);
            assert(text[1] == other[1] && text[2] == other[2]);
            lemma_escape_code_injective(a, b);
        } else {
            assert(a == b);
        }
        assert(escaped(rest) =~= text.skip(head.len() as int));
        assert(escaped(tail) =~= text.skip(other.len() as int));
        assert forall|i: int| 0 <= i < rest.len() implies (#[trigger] rest[i]) <= '\x7f' && rest[i]
            != '%' by {
            assert(rest[i] == first[i + 1]);
        }
        assert forall|i: int| 0 <= i < tail.len() implies (#[trigger] tail[i]) <= '\x7f' && tail[i]
            != '%' by {
            assert(tail[i] == second[i + 1]);
        }
        lemma_escaped_injective(rest, tail);
        assert(first =~= seq![a] + rest);
        assert(second =~= seq![b] + tail);
    }
}

/// The text of a plain entry holds no comma, and its parts can be told from
/// the whole.
pub proof fn lemma_entry_text(entry: Field)
    requires
        is_plain_entry(entry),
    ensures
        !holds(entry_text(entry), ','),
        entry_text(entry).len() == entry.0.len() + 1 + escaped(entry.1).len(),
        entry_text(entry)[entry.0.len() as int] == '=',
        forall|i: int| 0 <= i < entry.0.len() ==> entry_text(entry)[i] == entry.0[i],
        forall|i: int|
            0 <= i < escaped(entry.1).len() ==> entry_text(entry)[entry.0.len() + 1 + i]
                == escaped(entry.1)[i],
        value_readable(entry_text(entry)),
{
    lemma_escaped_chars(entry.1);
    let text = entry_text(entry);
    let split = entry.0.len() as int;
    let value = escaped(entry.1);
    assert forall|i: int| 0 <= i < text.len() implies #[trigger] text[i] != ',' && is_text_char(
        text[i],
    ) by {
        if i < split {
            assert(text[i] == entry.0[i]);
            assert(is_key_char(entry.0[i]));
        } else if i > split {
            assert(text[i] == value[i - split - 1]);
            assert(is_escaped_char(value[i - split - 1]));
        }
    }
}

/// Two plain entries with the same text are the same entry.
pub proof fn lemma_entry_text_injective(first: Field, second: Field)
    requires
        is_plain_entry(first),
        is_plain_entry(second),
        entry_text(first) == entry_text(second),
    ensures
        first == second,
{
    lemma_entry_text(first);
    lemma_entry_text(second);
    let text = entry_text(first);
    if first.0.len() < second.0.len() {
        assert(second.0[first.0.len() as int] == text[first.0.len() as int]);
        assert(is_key_char(second.0[first.0.len() as int]));
        assert(false);
    }
    if second.0.len() < first.0.len() {
        assert(first.0[second.0.len() as int] == text[second.0.len() as int]);
        assert(is_key_char(first.0[second.0.len() as int]));
        assert(false);
    }
    let split = first.0.len() as int;
    assert(first.0 =~= second.0) by {
        assert forall|i: int| 0 <= i < split implies first.0[i] == second.0[i] by {
            assert(entry_text(first)[i] == first.0[i]);
            assert(entry_text(second)[i] == second.0[i]);
        }
    }
    assert(escaped(first.1) =~= escaped(second.1)) by {
        assert(escaped(first.1).len() == escaped(second.1).len());
        assert forall|i: int| 0 <= i < escaped(first.1).len() implies escaped(first.1)[i]
            == escaped(second.1)[i] by {
            assert(entry_text(first)[split + 1 + i] == escaped(first.1)[i]);
            assert(entry_text(second)[split + 1 + i] == escaped(second.1)[i]);
        }
    }
    lemma_escaped_injective(first.1, second.1);
}

/// The header of plain entries ends in the text of the last entry, with a
/// comma before it where there are entries before it.
pub proof fn lemma_baggage_text_end(entries: Seq<Field>)
    requires
        entries.len() > 0,
        forall|i: int| 0 <= i < entries.len() ==> is_plain_entry(#[trigger] entries[i]),
    ensures
        ({
            let text = baggage_text(entries);
            let last = entry_text(entries.last());
            &&& text.len() >= last.len()
            &&& text.skip(text.len() - last.len()) == last
            &&& entries.len() == 1 ==> text.len() == last.len()
            &&& entries.len() > 1 ==> text.len() > last.len() && text[text.len() - last.len() - 1]
                == ',' && text.take(text.len() - last.len() - 1) == baggage_text(
                entries.drop_last(),
            )
        }),
{
    let text = baggage_text(entries);
    let last = entry_text(entries.last());
    if entries.len() == 1 {
        assert(entries.last() == entries[0]);
        assert(text.skip(0) =~= last);
    } else {
        let front = baggage_text(entries.drop_last());
        assert(text == front + seq![','] + last);
        assert(text.skip(text.len() - last.len()) =~= last);
        assert(text.take(text.len() - last.len() - 1) =~= front);
    }
}

/// The header of plain entries reads as text.
pub proof fn lemma_baggage_text_readable(entries: Seq<Field>)
    requires
        forall|i: int| 0 <= i < entries.len() ==> is_plain_entry(#[trigger] entries[i]),
    ensures
        value_readable(baggage_text(entries)),
    decreases entries.len(),
{
    if entries.len() == 1 {
        lemma_entry_text(entries[0]);
    } else if entries.len() > 1 {
        let front = entries.drop_last();
        assert forall|i: int| 0 <= i < front.len() implies is_plain_entry(#[trigger] front[i]) by {
            assert(front[i] == entries[i]);
        }
        lemma_baggage_text_readable(front);
        lemma_entry_text(entries.last());
        let text = baggage_text(entries);
        let head = baggage_text(front);
        let last = entry_text(entries.last());
        assert forall|i: int| 0 <= i < text.len() implies is_text_char(#[trigger] text[i]) by {
            if i < head.len() {
                assert(text[i] == head[i]);
            } else if i > head.len() {
                assert(text[i] == last[i - head.len() - 1]);
            }
        }
    }
}

/// One header, one list: plain entries with the same header are the same
/// entries in the same order.
pub proof fn lemma_baggage_text_injective(first: Seq<Field>, second: Seq<Field>)
    requires
        forall|i: int| 0 <= i < first.len() ==> is_plain_entry(#[trigger] first[i]),
        forall|i: int| 0 <= i < second.len() ==> is_plain_entry(#[trigger] second[i]),
        baggage_text(first) == baggage_text(second),
    ensures
        first == second,
    decreases first.len(),
{
    let text = baggage_text(first);
    if first.len() == 0 || second.len() == 0 {
        if first.len() > 0 {
            lemma_baggage_text_end(first);
            lemma_entry_text(first.last());
        }
        if second.len() > 0 {
            lemma_baggage_text_end(second);
            lemma_entry_text(second.last());
        }
        assert(first =~= second);
    } else {
        lemma_baggage_text_end(first);
        lemma_baggage_text_end(second);
        lemma_entry_text(first.last());
        lemma_entry_text(second.last());
        let a = entry_text(first.last());
        let b = entry_text(second.last());
        if a.len() < b.len() {
            if first.len() > 1 {
                let at = text.len() - a.len() - 1;
                assert(text.skip(text.len() - b.len())[at - (text.len() - b.len())] == text[at]);
                assert(b[at - (text.len() - b.len())] == ',');
            }
            assert(false);
        }
        if b.len() < a.len() {
            if second.len() > 1 {
                let at = text.len() - b.len() - 1;
                assert(text.skip(text.len() - a.len())[at - (text.len() - a.len())] == text[at]);
                assert(a[at - (text.len() - a.len())] == ',');
            }
            assert(false);
        }
        assert(a == b);
        lemma_entry_text_injective(first.last(), second.last());
        if first.len() == 1 || second.len() == 1 {
            assert(first.len() == 1 && second.len() == 1);
            assert(first =~= second);
        } else {
            let front = first.drop_last();
            let other = second.drop_last();
            assert forall|i: int| 0 <= i < front.len() implies is_plain_entry(
                #[trigger] front[i],
            ) by {
                assert(front[i] == first[i]);
            }
            assert forall|i: int| 0 <= i < other.len() implies is_plain_entry(
                #[trigger] other[i],
            ) by {
                assert(other[i] == second[i]);
            }
            lemma_baggage_text_injective(front, other);
            assert(first =~= front.push(first.last()));
            assert(second =~= other.push(second.last()));
        }
    }
}

} // verus!
