//! Propagators: each writes a trace context into a carrier under the keys of
//! its own format and reads it back from them. A composite runs several in
//! order.

use vstd::prelude::*;
use crate::baggage::{
    baggage_text, entry_text, is_plain_baggage, is_plain_entry, lemma_baggage_text_readable,
};
use crate::carrier::{
    after_set, entry, is_plain_key, is_text_char, value_readable, value_storable, Carrier,
    Extractor, Injector,
};
use crate::codec::{
    baggage_reading, decode_baggage, decode_trace_parent, encode_baggage_entry,
    encode_trace_parent, is_plain_baggage_text, is_plain_member, lemma_hex_digits, lower_hex,
    member_text, trace_parent_reading, traceparent_text,
};
use crate::context::{pairs_map, TraceContext, TraceContextView};
use crate::text::{entries_map, fields_text, Field};

verus! {

/// The key of the header that holds the identity of a span.
pub open spec fn traceparent_key() -> Seq<char> {
    "traceparent"@
}

/// The key of the header that holds the vendors' trace state.
pub open spec fn tracestate_key() -> Seq<char> {
    "tracestate"@
}

/// The key of the header that holds the baggage.
pub open spec fn baggage_key() -> Seq<char> {
    "baggage"@
}

/// The three keys are plain keys, and no two of them are the same.
pub proof fn lemma_keys()
    ensures
        is_plain_key(traceparent_key()),
        is_plain_key(tracestate_key()),
        is_plain_key(baggage_key()),
        traceparent_key() != tracestate_key(),
        traceparent_key() != baggage_key(),
        tracestate_key() != baggage_key(),
{
    reveal_strlit("traceparent");
    reveal_strlit("tracestate");
    reveal_strlit("baggage");
    assert(traceparent_key().len() == 11);
    assert(tracestate_key().len() == 10);
    assert(baggage_key().len() == 7);
}

/// The entries of a carrier after the fields have been stored in it, one
/// after the other. A field whose key the carrier has no place for changes
/// nothing.
pub open spec fn write_all<C: Carrier>(
    entries: Map<Seq<char>, Seq<char>>,
    fields: Seq<Field>,
) -> Map<Seq<char>, Seq<char>>
    decreases fields.len(),
{
    if fields.len() == 0 {
        entries
    } else {
        let before = write_all::<C>(entries, fields.drop_last());
        match C::slot(fields.last().0) {
            Some(name) => after_set(before, name, fields.last().1),
            None => before,
        }
    }
}

/// The names of a carrier, each with the number of its values, after the
/// fields have been stored in it: the name of every field holds one value.
pub open spec fn write_sizes<C: Carrier>(
    sizes: Map<Seq<char>, nat>,
    fields: Seq<Field>,
) -> Map<Seq<char>, nat>
    decreases fields.len(),
{
    if fields.len() == 0 {
        sizes
    } else {
        let before = write_sizes::<C>(sizes, fields.drop_last());
        match C::slot(fields.last().0) {
            Some(name) => before.insert(name, 1),
            None => before,
        }
    }
}

/// True when `part` is `whole` with some of its members left out.
pub open spec fn is_subsequence(part: Seq<Field>, whole: Seq<Field>) -> bool
    decreases whole.len(),
{
    if part.len() == 0 {
        true
    } else if whole.len() == 0 {
        false
    } else {
        ||| (part.last() == whole.last() && is_subsequence(part.drop_last(), whole.drop_last()))
        ||| is_subsequence(part, whole.drop_last())
    }
}

/// True when the carrier can store the field.
pub open spec fn storable<C: Carrier>(field: Field) -> bool {
    C::slot(field.0) is Some && value_storable(field.1)
}

/// True when the carrier can store every one of the fields.
pub open spec fn all_storable<C: Carrier>(fields: Seq<Field>) -> bool {
    forall|i: int| 0 <= i < fields.len() ==> storable::<C>(#[trigger] fields[i])
}

/// Those of the fields that the carrier can store, in their order.
pub open spec fn storable_part<C: Carrier>(fields: Seq<Field>) -> Seq<Field>
    decreases fields.len(),
{
    if fields.len() == 0 {
        Seq::empty()
    } else if storable::<C>(fields.last()) {
        storable_part::<C>(fields.drop_last()).push(fields.last())
    } else {
        storable_part::<C>(fields.drop_last())
    }
}

/// Stores the fields in the carrier, in order, and returns those that the
/// carrier took. The carrier ends as if exactly the returned fields had been
/// stored in it: each of their names holds one value, the last one stored
/// under it, and no other name is touched. A carrier with room for all the
/// fields takes every field that it can store.
pub fn write_fields<C: Injector>(carrier: &mut C, fields: &Vec<(String, String)>) -> (written: Vec<
    (String, String),
>)
    ensures
        final(carrier).entries() == write_all::<C>(old(carrier).entries(), fields_text(written@)),
        final(carrier).sizes() == write_sizes::<C>(old(carrier).sizes(), fields_text(written@)),
        is_subsequence(fields_text(written@), fields_text(fields@)),
        all_storable::<C>(fields_text(written@)),
        old(carrier).room() >= fields@.len() ==> fields_text(written@) == storable_part::<C>(
            fields_text(fields@),
        ),
        final(carrier).room() + fields@.len() >= old(carrier).room(),
{
    let mut written: Vec<(String, String)> = Vec::new();
    let mut at: usize = 0;
    while at < fields.len()
        invariant
            at <= fields.len(),
            carrier.entries() == write_all::<C>(old(carrier).entries(), fields_text(written@)),
            carrier.sizes() == write_sizes::<C>(old(carrier).sizes(), fields_text(written@)),
            is_subsequence(fields_text(written@), fields_text(fields@.take(at as int))),
            all_storable::<C>(fields_text(written@)),
            carrier.room() + at >= old(carrier).room(),
            old(carrier).room() >= fields@.len() ==> fields_text(written@) == storable_part::<C>(
                fields_text(fields@.take(at as int)),
            ),
        decreases fields.len() - at,
    {
        let key = fields[at].0.clone();
        let value = fields[at].1.clone();
        let ghost done = fields_text(written@);
        let ghost seen = fields_text(fields@.take(at as int));
        let ghost next = fields_text(fields@.take(at + 1));
        proof {
            assert(next.drop_last() =~= seen);
            assert(next.last() == (key@, value@));
        }
        let stored = carrier.set(key.as_str(), value.clone());
        proof {
            if old(carrier).room() >= fields@.len() {
                assert(stored == storable::<C>(next.last()));
            }
        }
        if stored {
            written.push((key, value));
            proof {
                let now = fields_text(written@);
                assert(now.drop_last() =~= done);
                assert(now.last() == next.last());
                assert forall|i: int| 0 <= i < now.len() implies storable::<C>(
                    #[trigger] now[i],
                ) by {
                    if i < now.len() - 1 {
                        assert(now[i] == done[i]);
                    }
                }
            }
        }
        at = at + 1;
    }
    proof {
        assert(fields@.take(at as int) =~= fields@);
    }
    written
}

/// A format in which a trace context travels.
#[derive(Clone, Copy, Debug, PartialEq, Eq, Structural)]
pub enum Propagator {
    /// The identity of the span, under `traceparent` and `tracestate`.
    TraceParent,
    /// The baggage, under `baggage`.
    Baggage,
}

/// The fields that hold the identity of a context's span: none without a
/// span.
pub open spec fn trace_parent_fields(context: TraceContextView) -> Seq<Field> {
    if context.has_active_span {
        seq![
            (
                traceparent_key(),
                traceparent_text(context.trace_id, context.span_id, context.trace_flags),
            ),
            (tracestate_key(), Seq::empty()),
        ]
    } else {
        Seq::empty()
    }
}

/// Members put one after the other, with commas between them.
pub open spec fn joined(members: Seq<Seq<char>>) -> Seq<char>
    decreases members.len(),
{
    if members.len() == 0 {
        Seq::empty()
    } else if members.len() == 1 {
        members[0]
    } else {
        joined(members.drop_last()) + seq![','] + members.last()
    }
}

/// A header takes one member more while it has fewer than 64 members and
/// stays within 8192 characters.
pub open spec fn fits(before: Seq<Seq<char>>, member: Seq<char>) -> bool {
    before.len() < 64 && joined(before.push(member)).len() <= 8192
}

/// The members of the header that is written for baggage: the members of
/// its entries, in the order of the list, without those that the SDK does
/// not take and those that no longer fit.
pub open spec fn kept_members(listed: Seq<Field>) -> Seq<Seq<char>>
    decreases listed.len(),
{
    if listed.len() == 0 {
        Seq::empty()
    } else {
        let before = kept_members(listed.drop_last());
        match member_text(listed.last()) {
            Some(member) => if fits(before, member) {
                before.push(member)
            } else {
                before
            },
            None => before,
        }
    }
}

/// The field that holds the baggage that was put in as `listed`: one header
/// of its members, or none where no member is kept.
pub open spec fn baggage_fields(listed: Seq<Field>) -> Seq<Field> {
    if kept_members(listed).len() == 0 {
        Seq::empty()
    } else {
        seq![(baggage_key(), joined(kept_members(listed)))]
    }
}

/// The context that an optional identity stands for.
pub open spec fn identity_context(identity: Option<(u128, u64, u8)>) -> TraceContextView {
    match identity {
        Some(id) => TraceContextView::span(id.0, id.1, id.2),
        None => TraceContextView::empty(),
    }
}

impl Propagator {
    /// The fields that the propagator offers to write for a context whose
    /// baggage was put in as `listed`.
    pub open spec fn offered(self, context: TraceContextView, listed: Seq<Field>) -> Seq<Field> {
        match self {
            Propagator::TraceParent => trace_parent_fields(context),
            Propagator::Baggage => baggage_fields(listed),
        }
    }

    /// The context that the propagator reads from the entries of a carrier.
    /// Without its header, or with one that does not decode, it is empty.
    pub open spec fn reads(self, entries: Map<Seq<char>, Seq<char>>) -> TraceContextView {
        match self {
            Propagator::TraceParent => match entry(entries, traceparent_key()) {
                Some(header) => identity_context(trace_parent_reading(header)),
                None => TraceContextView::empty(),
            },
            Propagator::Baggage => match entry(entries, baggage_key()) {
                Some(header) => TraceContextView::of_baggage(baggage_reading(header)),
                None => TraceContextView::empty(),
            },
        }
    }

    /// The fields that the propagator offers to write for a context, as the
    /// SDK encodes them. Baggage is encoded entry by entry and joined in the
    /// order of the list, so the same context always gives the same fields.
    pub fn fields(&self, context: &TraceContext) -> (fields: Vec<(String, String)>)
        ensures
            fields_text(fields@) == self.offered(context@, context.baggage_list()),
    {
        let mut fields: Vec<(String, String)> = Vec::new();
        match self {
            Propagator::TraceParent => {
                if context.has_active_span() {
                    let encoded = encode_trace_parent(
                        context.trace_id(),
                        context.span_id(),
                        context.trace_flags(),
                    );
                    if let Some(parent) = encoded.0 {
                        fields.push(("traceparent".to_owned(), parent));
                    }
                    if let Some(state) = encoded.1 {
                        fields.push(("tracestate".to_owned(), state));
                    }
                }
                proof {
                    assert(fields_text(fields@) =~= trace_parent_fields(context@));
                }
            },
            Propagator::Baggage => {
                match baggage_header(context.baggage_pairs()) {
                    Some(header) => {
                        fields.push(("baggage".to_owned(), header));
                    },
                    None => {},
                }
                proof {
                    assert(fields_text(fields@) =~= baggage_fields(context.baggage_list()));
                }
            },
        }
        fields
    }

    /// Writes the context into the carrier and returns the fields that the
    /// carrier took, which are among those that the propagator offers. A
    /// carrier with room for two entries takes every offered field that it
    /// can store.
    pub fn inject<C: Injector>(&self, context: &TraceContext, carrier: &mut C) -> (written: Vec<
        (String, String),
    >)
        ensures
            final(carrier).entries() == write_all::<C>(
                old(carrier).entries(),
                fields_text(written@),
            ),
            final(carrier).sizes() == write_sizes::<C>(
                old(carrier).sizes(),
                fields_text(written@),
            ),
            is_subsequence(
                fields_text(written@),
                self.offered(context@, context.baggage_list()),
            ),
            old(carrier).room() >= 2 ==> fields_text(written@) == storable_part::<C>(
                self.offered(context@, context.baggage_list()),
            ),
            all_storable::<C>(fields_text(written@)),
            final(carrier).room() + 2 >= old(carrier).room(),
    {
        let offered = self.fields(context);
        write_fields(carrier, &offered)
    }

    /// Reads a context from the carrier. Without the propagator's header, or
    /// with one that does not decode, the context is empty.
    pub fn extract<C: Extractor>(&self, carrier: &C) -> (context: TraceContext)
        ensures
            context@ == self.reads(carrier.entries()),
    {
        proof {
            lemma_keys();
            C::plain_key_slot(traceparent_key());
            C::plain_key_slot(baggage_key());
        }
        match self {
            Propagator::TraceParent => match carrier.get("traceparent") {
                Some(header) => match decode_trace_parent(header.as_str()) {
                    Some(id) => TraceContext::span(id.0, id.1, id.2),
                    None => TraceContext::empty(),
                },
                None => TraceContext::empty(),
            },
            Propagator::Baggage => match carrier.get("baggage") {
                Some(header) => {
                    let pairs = decode_baggage(header.as_str());
                    proof {
                        if is_plain_baggage_text(header@) {
                            let chosen = choose|entries: Seq<Field>| #[trigger]
                                is_plain_baggage(entries) && baggage_text(entries) == header@;
                            assert(pairs_map(pairs@) == entries_map(chosen));
                        }
                    }
                    TraceContext::of_baggage(pairs)
                },
                None => TraceContext::empty(),
            },
        }
    }
}

/// A `traceparent` header reads as text, and so can be stored.
pub proof fn lemma_traceparent_readable(trace_id: u128, span_id: u64, trace_flags: u8)
    ensures
        value_readable(traceparent_text(trace_id, span_id, trace_flags)),
        value_storable(traceparent_text(trace_id, span_id, trace_flags)),
{
    lemma_hex_digits(trace_id as nat, 32);
    lemma_hex_digits(span_id as nat, 16);
    lemma_hex_digits((trace_flags % 2) as nat, 2);
    let text = traceparent_text(trace_id, span_id, trace_flags);
    let a = lower_hex(trace_id as nat, 32);
    let b = lower_hex(span_id as nat, 16);
    let c = lower_hex((trace_flags % 2) as nat, 2);
    assert forall|i: int| 0 <= i < text.len() implies is_text_char(#[trigger] text[i]) by {
        if i < 3 {
        } else if i < 35 {
            assert(text[i] == a[i - 3]);
        } else if i < 36 {
        } else if i < 52 {
            assert(text[i] == b[i - 36]);
        } else if i < 53 {
        } else {
            assert(text[i] == c[i - 53]);
        }
    }
}

/// The number of characters of members that are joined.
pub proof fn lemma_joined_push(before: Seq<Seq<char>>, member: Seq<char>)
    ensures
        joined(before.push(member)) == (if before.len() == 0 {
            member
        } else {
            joined(before) + seq![','] + member
        }),
{
    let all = before.push(member);
    assert(all.drop_last() =~= before);
    assert(all.last() == member);
    if before.len() == 0 {
        assert(all[0] == member);
    }
}

/// The header for baggage: the members that the SDK writes for the pairs,
/// one by one, joined by commas in the order of the pairs. A pair that the
/// SDK does not take is left out, and so is one that would be the 65th member
/// or make the header longer than 8192 characters. Without a member there is
/// no header.
pub fn baggage_header(pairs: &Vec<(String, String)>) -> (header: Option<String>)
    ensures
        header is Some == (kept_members(fields_text(pairs@)).len() > 0),
        header matches Some(text) ==> text@ == joined(kept_members(fields_text(pairs@))),
{
    let mut text = String::new();
    let mut count: usize = 0;
    let mut length: usize = 0;
    let mut at: usize = 0;
    proof {
        assert(fields_text(pairs@.take(0)) =~= Seq::<Field>::empty());
    }
    while at < pairs.len()
        invariant
            at <= pairs.len(),
            text@ == joined(kept_members(fields_text(pairs@.take(at as int)))),
            count == kept_members(fields_text(pairs@.take(at as int))).len(),
            length == text@.len(),
            count <= 64,
            length <= 8192,
        decreases pairs.len() - at,
    {
        let ghost seen = fields_text(pairs@.take(at as int));
        let ghost next = fields_text(pairs@.take(at + 1));
        let ghost before = kept_members(seen);
        proof {
            assert(next.drop_last() =~= seen);
            assert(next.last() == (pairs[at as int].0@, pairs[at as int].1@));
        }
        match encode_baggage_entry(pairs[at].0.as_str(), pairs[at].1.as_str()) {
            Some(member) => {
                let size = member.as_str().unicode_len();
                proof {
                    assert(member_text(next.last()) == Some(member@));
                    lemma_joined_push(before, member@);
                }
                let room = if size > 8192 {
                    false
                } else if count == 0 {
                    true
                } else {
                    count < 64 && length + 1 + size <= 8192
                };
                if room {
                    if count > 0 {
                        text.append(",");
                        proof {
                            reveal_strlit(",");
                            assert(","@ =~= seq![',']);
                        }
                        length = length + 1;
                    }
                    text.append(member.as_str());
                    length = length + size;
                    count = count + 1;
                    proof {
                        assert(fits(before, member@));
                        assert(text@ =~= joined(before.push(member@)));
                    }
                } else {
                    proof {
                        assert(!fits(before, member@));
                    }
                }
            },
            None => {
                proof {
                    assert(member_text(next.last()) is None);
                }
            },
        }
        at = at + 1;
    }
    proof {
        assert(pairs@.take(at as int) =~= pairs@);
    }
    if count > 0 {
        Some(text)
    } else {
        None
    }
}

/// Plain baggage is written as it is listed: every entry is kept, and the
/// header is the plain text of the list.
pub proof fn lemma_plain_baggage_is_kept(listed: Seq<Field>)
    requires
        is_plain_baggage(listed),
    ensures
        kept_members(listed).len() == listed.len(),
        joined(kept_members(listed)) == baggage_text(listed),
    decreases listed.len(),
{
    if listed.len() > 0 {
        let front = listed.drop_last();
        assert forall|i: int| 0 <= i < front.len() implies is_plain_entry(#[trigger] front[i]) by {
            assert(front[i] == listed[i]);
        }
        assert(is_plain_entry(listed.last()));
        let last = entry_text(listed.last());
        if listed.len() == 1 {
            assert(listed.last() == listed[0]);
            assert(front.len() == 0);
            assert(baggage_text(front).len() == 0);
        } else {
            assert(baggage_text(listed) == baggage_text(front) + seq![','] + last);
        }
        lemma_plain_baggage_is_kept(front);
        lemma_joined_push(kept_members(front), last);
        assert(is_plain_member(listed.last()));
        assert(member_text(listed.last()) == Some(last));
        if listed.len() == 1 {
            assert(baggage_text(listed) == last);
        }
        assert(fits(kept_members(front), last));
    }
}

/// Every carrier can store, under the baggage key, the header of plain
/// baggage.
pub proof fn lemma_plain_baggage_storable<C: Carrier>(listed: Seq<Field>)
    requires
        is_plain_baggage(listed),
    ensures
        storable_part::<C>(baggage_fields(listed)) == baggage_fields(listed),
        value_readable(baggage_text(listed)),
{
    lemma_plain_baggage_is_kept(listed);
    lemma_baggage_text_readable(listed);
    lemma_keys();
    C::plain_key_slot(baggage_key());
    let header = baggage_text(listed);
    assert forall|i: int| 0 <= i < header.len() implies crate::carrier::is_value_char(
        #[trigger] header[i],
    ) by {
        assert(is_text_char(header[i]));
    }
    let fields = baggage_fields(listed);
    if fields.len() > 0 {
        assert(fields.last() == fields[0]);
        assert(fields.drop_last() =~= Seq::<Field>::empty());
        assert(storable_part::<C>(fields.drop_last()) =~= Seq::<Field>::empty());
        assert(storable::<C>(fields.last()));
        assert(storable_part::<C>(fields) =~= fields);
    } else {
        assert(storable_part::<C>(fields) =~= fields);
    }
}

/// The storable part of two lists is the storable part of the first followed
/// by that of the second.
pub proof fn lemma_storable_part_concat<C: Carrier>(first: Seq<Field>, second: Seq<Field>)
    ensures
        storable_part::<C>(first + second) == storable_part::<C>(first) + storable_part::<C>(
            second,
        ),
    decreases second.len(),
{
    if second.len() == 0 {
        assert(first + second =~= first);
        assert(storable_part::<C>(first) + storable_part::<C>(second) =~= storable_part::<C>(
            first,
        ));
    } else {
        assert((first + second).drop_last() =~= first + second.drop_last());
        assert((first + second).last() == second.last());
        lemma_storable_part_concat::<C>(first, second.drop_last());
        assert(storable_part::<C>(first + second) =~= storable_part::<C>(first)
            + storable_part::<C>(second));
    }
}

/// Every carrier can store the fields that hold the identity of a span.
pub proof fn lemma_trace_parent_fields_storable<C: Carrier>(context: TraceContextView)
    ensures
        storable_part::<C>(trace_parent_fields(context)) == trace_parent_fields(context),
{
    let fields = trace_parent_fields(context);
    if context.has_active_span {
        lemma_keys();
        C::plain_key_slot(traceparent_key());
        C::plain_key_slot(tracestate_key());
        lemma_traceparent_readable(context.trace_id, context.span_id, context.trace_flags);
        let front = fields.drop_last();
        assert(fields.last() == fields[1]);
        assert(front.last() == fields[0]);
        assert(front.drop_last() =~= Seq::<Field>::empty());
        assert(storable_part::<C>(front.drop_last()) =~= Seq::<Field>::empty());
        assert(storable::<C>(fields[0]));
        assert(storable::<C>(fields[1]));
        assert(storable_part::<C>(front) =~= seq![fields[0]]);
        assert(storable_part::<C>(fields) =~= fields);
    } else {
        assert(storable_part::<C>(fields) =~= fields);
    }
}

} // verus!
