//! Laws of propagation, proved from the definitions that the contracts of
//! the carriers and propagators are stated in.

use vstd::prelude::*;
use crate::baggage::{baggage_text, is_plain_baggage, lemma_baggage_text_readable};
use crate::carrier::{after_set, entry, lookup, value_readable, Carrier};
use crate::codec::{
    baggage_reading, lemma_baggage_reads_back, lemma_traceparent_reads_back, traceparent_text,
};
use crate::composite::{lemma_write_all_concat, offered_all, read_all};
use crate::context::TraceContextView;
use crate::propagation::{
    baggage_fields, baggage_key, lemma_keys, lemma_plain_baggage_is_kept,
    lemma_plain_baggage_storable, lemma_storable_part_concat, lemma_trace_parent_fields_storable,
    lemma_traceparent_readable, storable_part, trace_parent_fields, traceparent_key,
    tracestate_key, write_all, write_sizes, Propagator,
};
use crate::text::{entries_map, Field};

verus! {

/// The value that the last of the fields stored under `name` holds, if one
/// of them is stored there.
pub open spec fn last_write<C: Carrier>(fields: Seq<Field>, name: Seq<char>) -> Option<Seq<char>>
    decreases fields.len(),
{
    if fields.len() == 0 {
        None
    } else if C::slot(fields.last().0) == Some(name) {
        Some(fields.last().1)
    } else {
        last_write::<C>(fields.drop_last(), name)
    }
}

/// What a carrier holds under a name once fields have been stored: the last
/// value stored there, where it reads as text; nothing, where it does not;
/// and what it held before, where no field is stored there.
pub proof fn lemma_write_all_at<C: Carrier>(
    entries: Map<Seq<char>, Seq<char>>,
    fields: Seq<Field>,
    name: Seq<char>,
)
    ensures
        entry(write_all::<C>(entries, fields), name) == (match last_write::<C>(fields, name) {
            Some(value) => if value_readable(value) {
                Some(value)
            } else {
                None
            },
            None => entry(entries, name),
        }),
    decreases fields.len(),
{
    if fields.len() > 0 {
        lemma_write_all_at::<C>(entries, fields.drop_last(), name);
    }
}

/// Storing a value and reading the same key gives the value back, where the
/// value reads as text, and nothing where it does not.
pub proof fn lemma_set_then_get<C: Carrier>(
    entries: Map<Seq<char>, Seq<char>>,
    key: Seq<char>,
    value: Seq<char>,
)
    requires
        C::slot(key) is Some,
    ensures
        lookup(after_set(entries, C::slot(key).unwrap(), value), C::slot(key)) == (
            if value_readable(value) {
                Some(value)
            } else {
                None
            }
        ),
{
}

/// Injecting twice is injecting once: storing the same fields a second time
/// leaves the entries of the carrier as they were after the first time.
pub proof fn lemma_inject_twice<C: Carrier>(entries: Map<Seq<char>, Seq<char>>, fields: Seq<Field>)
    ensures
        write_all::<C>(write_all::<C>(entries, fields), fields) == write_all::<C>(entries, fields),
{
    let once = write_all::<C>(entries, fields);
    let twice = write_all::<C>(once, fields);
    assert forall|name: Seq<char>| entry(twice, name) == entry(once, name) by {
        lemma_write_all_at::<C>(entries, fields, name);
        lemma_write_all_at::<C>(once, fields, name);
    }
    assert forall|name: Seq<char>| twice.contains_key(name) == once.contains_key(name) by {
        assert(entry(twice, name) == entry(once, name));
    }
    assert forall|name: Seq<char>| twice.contains_key(name) implies twice[name] == once[name] by {
        assert(entry(twice, name) == entry(once, name));
    }
    assert(twice =~= once);
}

/// True when one of the fields is stored under the name.
pub open spec fn touches<C: Carrier>(fields: Seq<Field>, name: Seq<char>) -> bool
    decreases fields.len(),
{
    if fields.len() == 0 {
        false
    } else {
        C::slot(fields.last().0) == Some(name) || touches::<C>(fields.drop_last(), name)
    }
}

/// What a carrier holds under a name once fields have been stored: one
/// value, where a field is stored under the name, and what it held before
/// where none is.
pub proof fn lemma_write_sizes_at<C: Carrier>(
    sizes: Map<Seq<char>, nat>,
    fields: Seq<Field>,
    name: Seq<char>,
)
    ensures
        write_sizes::<C>(sizes, fields).contains_key(name) == (touches::<C>(fields, name)
            || sizes.contains_key(name)),
        write_sizes::<C>(sizes, fields).contains_key(name) ==> write_sizes::<C>(
            sizes,
            fields,
        )[name] == (if touches::<C>(fields, name) {
            1
        } else {
            sizes[name]
        }),
    decreases fields.len(),
{
    if fields.len() > 0 {
        lemma_write_sizes_at::<C>(sizes, fields.drop_last(), name);
    }
}

/// Replaced, not appended: storing the same fields a second time leaves
/// every name with the values it had after the first time, one under each
/// name that a field is stored under.
pub proof fn lemma_inject_twice_sizes<C: Carrier>(sizes: Map<Seq<char>, nat>, fields: Seq<Field>)
    ensures
        write_sizes::<C>(write_sizes::<C>(sizes, fields), fields) == write_sizes::<C>(
            sizes,
            fields,
        ),
{
    let once = write_sizes::<C>(sizes, fields);
    let twice = write_sizes::<C>(once, fields);
    assert forall|name: Seq<char>| twice.contains_key(name) == once.contains_key(name) by {
        lemma_write_sizes_at::<C>(sizes, fields, name);
        lemma_write_sizes_at::<C>(once, fields, name);
    }
    assert forall|name: Seq<char>| twice.contains_key(name) implies twice[name] == once[name] by {
        lemma_write_sizes_at::<C>(sizes, fields, name);
        lemma_write_sizes_at::<C>(once, fields, name);
    }
    assert(twice =~= once);
}

/// A carrier without a `traceparent` and without a `baggage` entry reads as
/// the empty context, whatever the propagators and their order: no span, no
/// baggage.
pub proof fn lemma_unrecognized_reads_empty(
    members: Seq<Propagator>,
    entries: Map<Seq<char>, Seq<char>>,
)
    requires
        !entries.contains_key(traceparent_key()),
        !entries.contains_key(baggage_key()),
    ensures
        read_all(members, entries) == TraceContextView::empty(),
        !read_all(members, entries).has_active_span,
        read_all(members, entries).baggage == Map::<Seq<char>, Seq<char>>::empty(),
    decreases members.len(),
{
    if members.len() > 0 {
        lemma_unrecognized_reads_empty(members.drop_last(), entries);
        let empty = TraceContextView::empty();
        assert(members.last().reads(entries) == empty);
        assert(empty.baggage.union_prefer_right(empty.baggage) =~= empty.baggage);
    }
}

/// Once the identity of a span has been written, the carrier holds its
/// `traceparent` header.
pub proof fn lemma_trace_parent_entry<C: Carrier>(
    entries: Map<Seq<char>, Seq<char>>,
    context: TraceContextView,
)
    requires
        context.has_active_span,
    ensures
        entry(write_all::<C>(entries, trace_parent_fields(context)), traceparent_key()) == Some(
            traceparent_text(context.trace_id, context.span_id, context.trace_flags),
        ),
{
    lemma_keys();
    C::plain_key_slot(traceparent_key());
    C::plain_key_slot(tracestate_key());
    lemma_traceparent_readable(context.trace_id, context.span_id, context.trace_flags);
    let fields = trace_parent_fields(context);
    lemma_write_all_at::<C>(entries, fields, traceparent_key());
    let front = fields.drop_last();
    assert(fields.last() == fields[1]);
    assert(front.last() == fields[0]);
    assert(last_write::<C>(front, traceparent_key()) == Some(fields[0].1));
    assert(last_write::<C>(fields, traceparent_key()) == Some(fields[0].1));
}

/// The round trip of an identity. What the trace-context propagator reads
/// from a carrier into which the identity of a span was written is that
/// identity: the trace id, the span id, and of the flags the sampled bit.
pub proof fn lemma_identity_round_trip<C: Carrier>(
    entries: Map<Seq<char>, Seq<char>>,
    context: TraceContextView,
)
    requires
        context.has_active_span,
        context.consistent(),
    ensures
        Propagator::TraceParent.reads(write_all::<C>(entries, trace_parent_fields(context)))
            == TraceContextView::span(
            context.trace_id,
            context.span_id,
            context.trace_flags % 2,
        ),
{
    lemma_trace_parent_entry::<C>(entries, context);
    lemma_traceparent_reads_back(context.trace_id, context.span_id, context.trace_flags);
}

/// The round trip of baggage. What the baggage propagator reads from a
/// carrier into which plain baggage was written is that baggage.
pub proof fn lemma_baggage_round_trip<C: Carrier>(
    entries: Map<Seq<char>, Seq<char>>,
    listed: Seq<Field>,
)
    requires
        is_plain_baggage(listed),
        listed.len() > 0,
    ensures
        baggage_fields(listed) == seq![(baggage_key(), baggage_text(listed))],
        Propagator::Baggage.reads(write_all::<C>(entries, baggage_fields(listed)))
            == TraceContextView::of_baggage(entries_map(listed)),
{
    lemma_keys();
    C::plain_key_slot(baggage_key());
    lemma_plain_baggage_is_kept(listed);
    lemma_baggage_text_readable(listed);
    lemma_baggage_reads_back(listed);
    let single = seq![(baggage_key(), baggage_text(listed))];
    lemma_write_all_at::<C>(entries, single, baggage_key());
    assert(single.last() == single[0]);
}

/// The two propagators, in one order or the other.
pub open spec fn both(baggage_first: bool) -> Seq<Propagator> {
    if baggage_first {
        seq![Propagator::Baggage, Propagator::TraceParent]
    } else {
        seq![Propagator::TraceParent, Propagator::Baggage]
    }
}

/// The entries of a carrier after the identity of a span and a baggage
/// header have been written into it, in one order or the other.
pub open spec fn carried<C: Carrier>(
    entries: Map<Seq<char>, Seq<char>>,
    context: TraceContextView,
    baggage_header: Seq<char>,
    baggage_first: bool,
) -> Map<Seq<char>, Seq<char>> {
    let identity = trace_parent_fields(context);
    let baggage = seq![(baggage_key(), baggage_header)];
    if baggage_first {
        write_all::<C>(write_all::<C>(entries, baggage), identity)
    } else {
        write_all::<C>(write_all::<C>(entries, identity), baggage)
    }
}

/// Neither of the two writes disturbs the other: the carrier ends up with
/// both headers as they were written.
pub proof fn lemma_carried_entries<C: Carrier>(
    entries: Map<Seq<char>, Seq<char>>,
    context: TraceContextView,
    baggage_header: Seq<char>,
    baggage_first: bool,
)
    requires
        context.has_active_span,
        value_readable(baggage_header),
    ensures
        entry(carried::<C>(entries, context, baggage_header, baggage_first), traceparent_key())
            == Some(traceparent_text(context.trace_id, context.span_id, context.trace_flags)),
        entry(carried::<C>(entries, context, baggage_header, baggage_first), baggage_key())
            == Some(baggage_header),
{
    lemma_keys();
    C::plain_key_slot(traceparent_key());
    C::plain_key_slot(tracestate_key());
    C::plain_key_slot(baggage_key());
    let identity = trace_parent_fields(context);
    let baggage = seq![(baggage_key(), baggage_header)];
    assert(baggage.last() == baggage[0]);
    assert(baggage.drop_last().len() == 0);
    assert(last_write::<C>(baggage, baggage_key()) == Some(baggage_header));
    assert(last_write::<C>(baggage.drop_last(), traceparent_key()) is None);
    assert(last_write::<C>(baggage, traceparent_key()) is None);
    let front = identity.drop_last();
    assert(identity.last() == identity[1]);
    assert(front.last() == identity[0]);
    assert(front.drop_last().len() == 0);
    assert(last_write::<C>(front.drop_last(), baggage_key()) is None);
    assert(last_write::<C>(front, baggage_key()) is None);
    assert(last_write::<C>(identity, baggage_key()) is None);
    if baggage_first {
        let first = write_all::<C>(entries, baggage);
        lemma_write_all_at::<C>(entries, baggage, baggage_key());
        lemma_trace_parent_entry::<C>(first, context);
        lemma_write_all_at::<C>(first, identity, baggage_key());
    } else {
        let first = write_all::<C>(entries, identity);
        lemma_trace_parent_entry::<C>(entries, context);
        lemma_write_all_at::<C>(first, baggage, traceparent_key());
        lemma_write_all_at::<C>(first, baggage, baggage_key());
    }
}

/// The composite union. After the identity of a span and a baggage header
/// have been written into one carrier, the composite of the two propagators
/// reads a context that has both: the identity that was written, and the
/// entries that the header is read as.
pub proof fn lemma_composite_union<C: Carrier>(
    entries: Map<Seq<char>, Seq<char>>,
    context: TraceContextView,
    baggage_header: Seq<char>,
    baggage_first: bool,
)
    requires
        context.has_active_span,
        context.consistent(),
        value_readable(baggage_header),
    ensures
        read_all(
            both(baggage_first),
            carried::<C>(entries, context, baggage_header, baggage_first),
        ) == (TraceContextView {
            trace_id: context.trace_id,
            span_id: context.span_id,
            trace_flags: context.trace_flags % 2,
            baggage: baggage_reading(baggage_header),
            has_active_span: true,
        }),
{
    let held = carried::<C>(entries, context, baggage_header, baggage_first);
    lemma_carried_entries::<C>(entries, context, baggage_header, baggage_first);
    lemma_traceparent_reads_back(context.trace_id, context.span_id, context.trace_flags);
    let members = both(baggage_first);
    let identity = TraceContextView::span(
        context.trace_id,
        context.span_id,
        context.trace_flags % 2,
    );
    let baggage = TraceContextView::of_baggage(baggage_reading(baggage_header));
    assert(Propagator::TraceParent.reads(held) == identity);
    assert(Propagator::Baggage.reads(held) == baggage);
    let empty = TraceContextView::empty();
    assert(members.drop_last().drop_last() =~= Seq::<Propagator>::empty());
    assert(read_all(members.drop_last().drop_last(), held) == empty);
    assert(members.drop_last().last() == members[0]);
    assert(members.last() == members[1]);
    let after_first = empty.merge(members[0].reads(held));
    assert(read_all(members.drop_last(), held) == after_first);
    let found = after_first.merge(members[1].reads(held));
    assert(read_all(members, held) == found);
    assert(found.baggage =~= baggage_reading(baggage_header));
}

/// The composite of the two propagators offers the baggage header and the
/// identity of the span, in the order of its members.
pub proof fn lemma_offered_by_both(
    context: TraceContextView,
    listed: Seq<Field>,
    baggage_first: bool,
)
    ensures
        offered_all(both(baggage_first), context, listed) == (if baggage_first {
            baggage_fields(listed) + trace_parent_fields(context)
        } else {
            trace_parent_fields(context) + baggage_fields(listed)
        }),
{
    let members = both(baggage_first);
    let front = members.drop_last();
    assert(front.last() == members[0]);
    assert(members.last() == members[1]);
    assert(front.drop_last().len() == 0);
    assert(offered_all(front.drop_last(), context, listed) =~= Seq::<Field>::empty());
    assert(offered_all(front, context, listed) =~= members[0].offered(context, listed));
}

/// The round trip. Let a context with a span and plain baggage be injected
/// into a carrier with room, by the composite of the two propagators, and
/// let the same composite extract from the carrier. Every field that is
/// offered is stored, and the context that comes back is the one that went
/// in: trace id, span id and baggage are the same, and of the flags the
/// sampled bit, which is all that the header holds of them.
pub proof fn lemma_round_trip<C: Carrier>(
    entries: Map<Seq<char>, Seq<char>>,
    context: TraceContextView,
    listed: Seq<Field>,
    baggage_first: bool,
)
    requires
        context.has_active_span,
        context.consistent(),
        is_plain_baggage(listed),
        listed.len() > 0,
        entries_map(listed) == context.baggage,
    ensures
        storable_part::<C>(offered_all(both(baggage_first), context, listed)) == offered_all(
            both(baggage_first),
            context,
            listed,
        ),
        read_all(
            both(baggage_first),
            write_all::<C>(entries, offered_all(both(baggage_first), context, listed)),
        ) == (TraceContextView { trace_flags: context.trace_flags % 2, ..context }),
{
    let identity = trace_parent_fields(context);
    let baggage = baggage_fields(listed);
    let header = baggage_text(listed);
    lemma_offered_by_both(context, listed, baggage_first);
    lemma_baggage_round_trip::<C>(entries, listed);
    lemma_plain_baggage_storable::<C>(listed);
    lemma_trace_parent_fields_storable::<C>(context);
    if baggage_first {
        lemma_storable_part_concat::<C>(baggage, identity);
        lemma_write_all_concat::<C>(entries, baggage, identity);
    } else {
        lemma_storable_part_concat::<C>(identity, baggage);
        lemma_write_all_concat::<C>(entries, identity, baggage);
    }
    lemma_baggage_reads_back(listed);
    lemma_composite_union::<C>(entries, context, header, baggage_first);
}

/// Idempotence. Injecting a context a second time, into a carrier that had
/// room both times, leaves the carrier as it was after the first time,
/// whatever the context and the propagators: the same names with the same
/// text, one value under each name that was written. What is written for a
/// context is fixed, and storing the same fields twice is storing them once.
pub proof fn lemma_reinjection_changes_nothing<C: Carrier>(
    entries: Map<Seq<char>, Seq<char>>,
    sizes: Map<Seq<char>, nat>,
    members: Seq<Propagator>,
    context: TraceContextView,
    listed: Seq<Field>,
)
    ensures
        ({
            let written = storable_part::<C>(offered_all(members, context, listed));
            &&& write_all::<C>(write_all::<C>(entries, written), written) == write_all::<C>(
                entries,
                written,
            )
            &&& write_sizes::<C>(write_sizes::<C>(sizes, written), written) == write_sizes::<C>(
                sizes,
                written,
            )
        }),
{
    let written = storable_part::<C>(offered_all(members, context, listed));
    lemma_inject_twice::<C>(entries, written);
    lemma_inject_twice_sizes::<C>(sizes, written);
}

} // verus!
