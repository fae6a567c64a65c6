//! The composite propagator: an ordered list of propagators that write into
//! one carrier and whose readings are merged into one context.
//!
//! The merge is not that of the composite in the `opentelemetry` crate, which
//! hands the context from member to member, so that a later member replaces
//! the span and the baggage that an earlier one found. Here the identity of
//! the first member that finds a span stays, and the baggage of all members
//! is united, a later member winning where two have the same key.

use vstd::prelude::*;
use crate::carrier::{Carrier, Extractor, Injector};
use crate::context::{TraceContext, TraceContextView};
use crate::propagation::{
    all_storable, is_subsequence, storable_part, write_all, write_fields, write_sizes,
    Propagator,
};
use crate::text::{fields_text, Field};

verus! {

/// All that the members offer to write for a context whose baggage was put
/// in as `listed`, each member in its turn.
pub open spec fn offered_all(
    members: Seq<Propagator>,
    context: TraceContextView,
    listed: Seq<Field>,
) -> Seq<Field>
    decreases members.len(),
{
    if members.len() == 0 {
        Seq::empty()
    } else {
        offered_all(members.drop_last(), context, listed) + members.last().offered(
            context,
            listed,
        )
    }
}

/// No member offers more than two fields.
pub proof fn lemma_offered_all_length(
    members: Seq<Propagator>,
    context: TraceContextView,
    listed: Seq<Field>,
)
    ensures
        offered_all(members, context, listed).len() <= 2 * members.len(),
    decreases members.len(),
{
    if members.len() > 0 {
        lemma_offered_all_length(members.drop_last(), context, listed);
    }
}

/// The context that the members read from the entries of a carrier: the
/// readings of all members, merged in order. The identity is that of the
/// first member that finds a span; the baggage is the union of what the
/// members find, in which a later member wins.
pub open spec fn read_all(
    members: Seq<Propagator>,
    entries: Map<Seq<char>, Seq<char>>,
) -> TraceContextView
    decreases members.len(),
{
    if members.len() == 0 {
        TraceContextView::empty()
    } else {
        read_all(members.drop_last(), entries).merge(members.last().reads(entries))
    }
}

/// Storing one list of fields after another is storing the two as one list.
pub proof fn lemma_write_all_concat<C: Carrier>(
    entries: Map<Seq<char>, Seq<char>>,
    first: Seq<Field>,
    second: Seq<Field>,
)
    ensures
        write_all::<C>(write_all::<C>(entries, first), second) == write_all::<C>(
            entries,
            first + second,
        ),
    decreases second.len(),
{
    if second.len() == 0 {
        assert(first + second =~= first);
    } else {
        assert((first + second).drop_last() =~= first + second.drop_last());
        assert((first + second).last() == second.last());
        lemma_write_all_concat::<C>(entries, first, second.drop_last());
    }
}

/// An ordered list of propagators, used as one.
#[derive(Debug)]
pub struct CompositePropagator {
    pub members: Vec<Propagator>,
}

impl CompositePropagator {
    /// The composite of the given propagators, in the given order.
    pub fn new(members: Vec<Propagator>) -> (composite: Self)
        ensures
            composite.members@ == members@,
    {
        CompositePropagator { members }
    }

    /// The composite that the pipeline registers: baggage first, then the
    /// identity of the span.
    pub fn standard() -> (composite: Self)
        ensures
            composite.members@ == seq![Propagator::Baggage, Propagator::TraceParent],
    {
        let mut members: Vec<Propagator> = Vec::new();
        members.push(Propagator::Baggage);
        members.push(Propagator::TraceParent);
        proof {
            assert(members@ =~= seq![Propagator::Baggage, Propagator::TraceParent]);
        }
        CompositePropagator { members }
    }

    /// All that the members offer to write for a context, each member in
    /// its turn.
    pub fn fields(&self, context: &TraceContext) -> (fields: Vec<(String, String)>)
        ensures
            fields_text(fields@) == offered_all(self.members@, context@, context.baggage_list()),
    {
        let mut fields: Vec<(String, String)> = Vec::new();
        let mut at: usize = 0;
        proof {
            assert(fields_text(fields@) =~= Seq::<Field>::empty());
        }
        while at < self.members.len()
            invariant
                at <= self.members.len(),
                fields_text(fields@) == offered_all(
                    self.members@.take(at as int),
                    context@,
                    context.baggage_list(),
                ),
            decreases self.members.len() - at,
        {
            let ghost done = fields_text(fields@);
            let mut part = self.members[at].fields(context);
            let ghost added = fields_text(part@);
            fields.append(&mut part);
            proof {
                let upto = self.members@.take(at + 1);
                assert(upto.drop_last() =~= self.members@.take(at as int));
                assert(upto.last() == self.members@[at as int]);
                assert(fields_text(fields@) =~= done + added);
            }
            at = at + 1;
        }
        proof {
            assert(self.members@.take(at as int) =~= self.members@);
        }
        fields
    }

    /// Lets every member write the context into the carrier, in order, and
    /// returns the fields that the carrier took, which are among those that
    /// the members offer. A carrier with room for two entries per member
    /// takes every offered field that it can store.
    pub fn inject<C: Injector>(&self, context: &TraceContext, carrier: &mut C) -> (written: Vec<
        (String, String),
    >)
        ensures
            final(carrier).entries() == write_all::<C>(
                old(carrier).entries(),
                fields_text(written@),
            ),
            final(carrier).sizes() == write_sizes::<C>(
                old(carrier).sizes(),
                fields_text(written@),
            ),
            is_subsequence(
                fields_text(written@),
                offered_all(self.members@, context@, context.baggage_list()),
            ),
            old(carrier).room() >= 2 * self.members@.len() ==> fields_text(written@)
                == storable_part::<C>(
                offered_all(self.members@, context@, context.baggage_list()),
            ),
            all_storable::<C>(fields_text(written@)),
            final(carrier).room() + 2 * self.members@.len() >= old(carrier).room(),
    {
        let offered = self.fields(context);
        proof {
            lemma_offered_all_length(self.members@, context@, context.baggage_list());
        }
        write_fields(carrier, &offered)
    }

    /// Lets every member read from the carrier, in order, and merges what
    /// they find. A carrier without the members' headers gives the empty
    /// context.
    pub fn extract<C: Extractor>(&self, carrier: &C) -> (context: TraceContext)
        ensures
            context@ == read_all(self.members@, carrier.entries()),
    {
        let mut context = TraceContext::empty();
        let mut at: usize = 0;
        while at < self.members.len()
            invariant
                at <= self.members.len(),
                context@ == read_all(self.members@.take(at as int), carrier.entries()),
            decreases self.members.len() - at,
        {
            let found = self.members[at].extract(carrier);
            proof {
                let upto = self.members@.take(at + 1);
                assert(upto.drop_last() =~= self.members@.take(at as int));
                assert(upto.last() == self.members@[at as int]);
            }
            context = context.merge(found);
            at = at + 1;
        }
        proof {
            assert(self.members@.take(at as int) =~= self.members@);
        }
        context
    }
}

} // verus!
