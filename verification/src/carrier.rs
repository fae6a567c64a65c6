//! Carriers: the key/value side of a transport's metadata, as far as
//! propagation needs it. A carrier can take a text value under a text key,
//! give it back, and list its keys. HTTP header maps and gRPC metadata are
//! carriers.

use vstd::prelude::*;
use crate::text::text_of;

verus! {

/// A key of one to 64 lowercase ASCII letters. Every transport keeps such a
/// key under its own name.
pub open spec fn is_plain_key(key: Seq<char>) -> bool {
    &&& 1 <= key.len() <= 64
    &&& forall|i: int| 0 <= i < key.len() ==> 'a' <= #[trigger] key[i] <= 'z'
}

/// The characters of a header name: letters, digits and a few marks.
pub open spec fn is_name_char(c: char) -> bool {
    ||| 'a' <= c <= 'z'
    ||| 'A' <= c <= 'Z'
    ||| '0' <= c <= '9'
    ||| c == '!' || c == '#' || c == '$' || c == '%' || c == '&' || c == '\'' || c == '*'
    ||| c == '+' || c == '-' || c == '.' || c == '^' || c == '_' || c == '`' || c == '|'
    ||| c == '~'
}

/// An upper-case ASCII letter as its lower-case letter, any other character as
/// it is.
pub open spec fn lower(c: char) -> char {
    if 'A' <= c <= 'Z' {
        ((c as u8) + 32) as char
    } else {
        c
    }
}

/// The name under which a header map keeps an entry for `key`: the key in
/// lower case, where it is one to 65535 name characters long.
pub open spec fn header_slot(key: Seq<char>) -> Option<Seq<char>> {
    if 1 <= key.len() <= 65535 && (forall|i: int|
        0 <= i < key.len() ==> is_name_char(#[trigger] key[i])) {
        Some(key.map_values(|c: char| lower(c)))
    } else {
        None
    }
}

/// A plain key is a header name, and its own normal form.
pub proof fn lemma_plain_key_header_slot(key: Seq<char>)
    requires
        is_plain_key(key),
    ensures
        header_slot(key) == Some(key),
        !ends_in_bin(key),
{
    assert(key.map_values(|c: char| lower(c)) =~= key);
    if key.len() >= 4 {
        let tail = key.subrange(key.len() - 4, key.len() as int);
        assert(tail[0] == key[key.len() - 4]);
        assert(seq!['-', 'b', 'i', 'n'][0] == '-');
    }
}

/// True when `name` ends in `-bin`, the mark of a binary metadata key.
pub open spec fn ends_in_bin(name: Seq<char>) -> bool {
    name.len() >= 4 && name.subrange(name.len() - 4, name.len() as int) == seq!['-', 'b', 'i', 'n']
}

/// The name under which gRPC metadata keeps a text entry for `key`: that of
/// the header map, unless it marks the entry as binary.
pub open spec fn metadata_slot(key: Seq<char>) -> Option<Seq<char>> {
    match header_slot(key) {
        Some(name) => if ends_in_bin(name) {
            None
        } else {
            Some(name)
        },
        None => None,
    }
}

/// A header value can hold a character that is a tab or is neither a control
/// character nor DEL.
pub open spec fn is_value_char(c: char) -> bool {
    c == '\t' || (' ' <= c && c != '\x7f')
}

/// A header value reads back as text when every character is a tab or
/// visible ASCII.
pub open spec fn is_text_char(c: char) -> bool {
    c == '\t' || (' ' <= c && c < '\x7f')
}

/// The values that a carrier can store.
pub open spec fn value_storable(value: Seq<char>) -> bool {
    forall|i: int| 0 <= i < value.len() ==> is_value_char(#[trigger] value[i])
}

/// The values that a carrier gives back as text once stored.
pub open spec fn value_readable(value: Seq<char>) -> bool {
    forall|i: int| 0 <= i < value.len() ==> is_text_char(#[trigger] value[i])
}

/// The text entries after `value` has replaced what was stored under `name`.
/// A stored value that does not read as text hides the entry.
pub open spec fn after_set(
    entries: Map<Seq<char>, Seq<char>>,
    name: Seq<char>,
    value: Seq<char>,
) -> Map<Seq<char>, Seq<char>> {
    if value_readable(value) {
        entries.insert(name, value)
    } else {
        entries.remove(name)
    }
}

/// The number of values up to which a header map is sure to take another
/// one. The map refuses an entry only when its table would have to grow past
/// its largest size, which takes more names than this.
pub open spec fn sure_capacity() -> nat {
    4096
}

/// The room that is sure to be left in a header map with `count` values.
pub open spec fn room_left(count: nat) -> nat {
    if count < sure_capacity() {
        (sure_capacity() - count) as nat
    } else {
        0
    }
}

/// The entry of a name, if there is one.
pub open spec fn entry(entries: Map<Seq<char>, Seq<char>>, name: Seq<char>) -> Option<Seq<char>> {
    if entries.contains_key(name) {
        Some(entries[name])
    } else {
        None
    }
}

/// The entry that a carrier holds in a slot, if there is such a slot and an
/// entry in it.
pub open spec fn lookup(entries: Map<Seq<char>, Seq<char>>, slot: Option<Seq<char>>) -> Option<
    Seq<char>,
> {
    match slot {
        Some(name) => entry(entries, name),
        None => None,
    }
}

/// The number of values that are held under a name.
pub open spec fn held(sizes: Map<Seq<char>, nat>, name: Seq<char>) -> nat {
    if sizes.contains_key(name) {
        sizes[name]
    } else {
        0
    }
}

/// True when one of `names` is `key`.
pub open spec fn lists(names: Seq<String>, key: Seq<char>) -> bool {
    exists|i: int| 0 <= i < names.len() && (#[trigger] names[i])@ == key
}

/// True when no two of `names` are the same.
pub open spec fn all_distinct(names: Seq<String>) -> bool {
    forall|i: int, j: int|
        0 <= i < j < names.len() ==> (#[trigger] names[i])@ != (#[trigger] names[j])@
}

/// What every carrier has: text entries, and a rule that says under which
/// name an entry for a key is kept.
pub trait Carrier: Sized {
    /// The text entries that the carrier holds.
    spec fn entries(&self) -> Map<Seq<char>, Seq<char>>;

    /// The names that the carrier holds, each with the number of values
    /// under it. A name can hold values that are no text and do not show
    /// among the entries.
    spec fn sizes(&self) -> Map<Seq<char>, nat>;

    /// The number of values that the carrier holds, under all its names.
    spec fn count(&self) -> nat;

    /// The name under which the carrier keeps an entry for `key`, or `None`
    /// where it has no place for such a key.
    spec fn slot(key: Seq<char>) -> Option<Seq<char>>;

    /// A number of entries that the carrier is sure to take yet. It may take
    /// more.
    spec fn room(&self) -> nat;

    /// A plain key is kept under its own name.
    proof fn plain_key_slot(key: Seq<char>)
        requires
            is_plain_key(key),
        ensures
            Self::slot(key) == Some(key),
    ;
}

/// The write side of a carrier.
pub trait Injector: Carrier {
    /// Stores `value` under `key`, in place of every value that was stored
    /// there, and says whether it did. The name then holds this one value. A
    /// key or a value that the transport cannot hold is skipped, and the
    /// carrier is then untouched. A carrier with room stores every entry that
    /// the transport can hold; one without may skip it, and then holds what it
    /// held.
    fn set(&mut self, key: &str, value: String) -> (stored: bool)
        ensures
            stored ==> Self::slot(key@) is Some && value_storable(value@),
            stored ==> final(self).entries() == after_set(
                old(self).entries(),
                Self::slot(key@).unwrap(),
                value@,
            ),
            stored ==> final(self).sizes() == old(self).sizes().insert(
                Self::slot(key@).unwrap(),
                1,
            ),
            stored ==> final(self).count() + held(old(self).sizes(), Self::slot(key@).unwrap())
                == old(self).count() + 1,
            !stored ==> final(self).entries() == old(self).entries(),
            !stored ==> final(self).sizes() == old(self).sizes(),
            !stored ==> final(self).count() == old(self).count(),
            Self::slot(key@) is None || !value_storable(value@) ==> *final(self) == *old(self),
            old(self).room() > 0 && Self::slot(key@) is Some && value_storable(value@) ==> stored,
            final(self).room() + 1 >= old(self).room(),
    ;
}

/// The read side of a carrier.
pub trait Extractor: Carrier {
    /// The text stored under `key`, if there is any: the first value under
    /// the key's name, where it reads as text.
    fn get(&self, key: &str) -> (value: Option<String>)
        ensures
            text_of(value) == lookup(self.entries(), Self::slot(key@)),
            value is Some ==> held(self.sizes(), Self::slot(key@).unwrap()) >= 1,
    ;

    /// The names that the carrier holds, each once: those of its entries,
    /// and those under which it holds values that are no text.
    fn keys(&self) -> (names: Vec<String>)
        ensures
            forall|name: Seq<char>| #[trigger]
                lists(names@, name) <==> self.sizes().contains_key(name),
            forall|name: Seq<char>| #[trigger]
                self.entries().contains_key(name) ==> lists(names@, name),
            all_distinct(names@),
    ;
}

} // verus!
