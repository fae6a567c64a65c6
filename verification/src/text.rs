//! Text, and lists of key/value pairs of text, as the rest of the library
//! speaks of them.

use vstd::prelude::*;

verus! {

/// The characters of an optional string.
pub open spec fn text_of(value: Option<String>) -> Option<Seq<char>> {
    match value {
        Some(s) => Some(s@),
        None => None,
    }
}

/// A key/value pair as text.
pub type Field = (Seq<char>, Seq<char>);

/// The pairs of a list as text.
pub open spec fn fields_text(fields: Seq<(String, String)>) -> Seq<Field> {
    fields.map_values(|field: (String, String)| (field.0@, field.1@))
}

/// The mapping that a list of entries stands for: each key with the value of
/// its last entry.
pub open spec fn entries_map(entries: Seq<Field>) -> Map<Seq<char>, Seq<char>>
    decreases entries.len(),
{
    if entries.len() == 0 {
        Map::empty()
    } else {
        entries_map(entries.drop_last()).insert(entries.last().0, entries.last().1)
    }
}

/// A key that no entry holds is not in the mapping.
pub proof fn lemma_entries_map_absent(entries: Seq<Field>, key: Seq<char>)
    requires
        forall|i: int| 0 <= i < entries.len() ==> (#[trigger] entries[i]).0 != key,
    ensures
        !entries_map(entries).contains_key(key),
    decreases entries.len(),
{
    if entries.len() > 0 {
        lemma_entries_map_absent(entries.drop_last(), key);
    }
}

/// The last entry with a key gives the key's value.
pub proof fn lemma_entries_map_last(entries: Seq<Field>, key: Seq<char>, at: int)
    requires
        0 <= at < entries.len(),
        entries[at].0 == key,
        forall|i: int| at < i < entries.len() ==> (#[trigger] entries[i]).0 != key,
    ensures
        entries_map(entries).contains_key(key),
        entries_map(entries)[key] == entries[at].1,
    decreases entries.len(),
{
    if at < entries.len() - 1 {
        lemma_entries_map_last(entries.drop_last(), key, at);
    }
}

/// Entries put one after the other stand for the union of their mappings, in
/// which the later list wins.
pub proof fn lemma_entries_map_concat(first: Seq<Field>, second: Seq<Field>)
    ensures
        entries_map(first + second) == entries_map(first).union_prefer_right(
            entries_map(second),
        ),
    decreases second.len(),
{
    if second.len() == 0 {
        assert(first + second =~= first);
        assert(entries_map(first).union_prefer_right(entries_map(second)) =~= entries_map(first));
    } else {
        assert((first + second).drop_last() =~= first + second.drop_last());
        assert((first + second).last() == second.last());
        lemma_entries_map_concat(first, second.drop_last());
        assert(entries_map(first + second) =~= entries_map(first).union_prefer_right(
            entries_map(second),
        ));
    }
}

} // verus!
