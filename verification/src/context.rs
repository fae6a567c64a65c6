//! The trace context: the identity of a span and the baggage that travels
//! with it.

use vstd::prelude::*;
use crate::text::{
    entries_map, fields_text, Field, lemma_entries_map_absent, lemma_entries_map_concat,
    lemma_entries_map_last, text_of,
};

verus! {

/// What a trace context holds, as plain mathematical values.
pub struct TraceContextView {
    pub trace_id: u128,
    pub span_id: u64,
    pub trace_flags: u8,
    pub baggage: Map<Seq<char>, Seq<char>>,
    pub has_active_span: bool,
}

impl TraceContextView {
    /// The context without a span and without baggage.
    pub open spec fn empty() -> TraceContextView {
        TraceContextView {
            trace_id: 0,
            span_id: 0,
            trace_flags: 0,
            baggage: Map::empty(),
            has_active_span: false,
        }
    }

    /// The context of a span with the given identity, without baggage. An
    /// identity with a zero id is none.
    pub open spec fn span(trace_id: u128, span_id: u64, trace_flags: u8) -> TraceContextView {
        if trace_id != 0 && span_id != 0 {
            TraceContextView {
                trace_id,
                span_id,
                trace_flags,
                baggage: Map::empty(),
                has_active_span: true,
            }
        } else {
            TraceContextView::empty()
        }
    }

    /// The context without a span that carries the given baggage.
    pub open spec fn of_baggage(baggage: Map<Seq<char>, Seq<char>>) -> TraceContextView {
        TraceContextView { baggage, ..TraceContextView::empty() }
    }

    /// A context with a span has two non-zero ids; one without has neither
    /// ids nor flags.
    pub open spec fn consistent(self) -> bool {
        if self.has_active_span {
            self.trace_id != 0 && self.span_id != 0
        } else {
            self.trace_id == 0 && self.span_id == 0 && self.trace_flags == 0
        }
    }

    /// This context, completed by one that was found after it: the identity
    /// is that of the first of the two that has a span, and the baggage is the
    /// union of both, in which the later entry wins.
    pub open spec fn merge(self, later: TraceContextView) -> TraceContextView {
        let baggage = self.baggage.union_prefer_right(later.baggage);
        if self.has_active_span {
            TraceContextView { baggage, ..self }
        } else {
            TraceContextView { baggage, ..later }
        }
    }
}

/// The mapping that a list of pairs stands for: each key with the value of
/// its last pair.
pub open spec fn pairs_map(pairs: Seq<(String, String)>) -> Map<Seq<char>, Seq<char>> {
    entries_map(fields_text(pairs))
}

/// A trace context: a value that is never changed in place. Propagation makes
/// a new context from an old one.
#[derive(Debug)]
pub struct TraceContext {
    trace_id: u128,
    span_id: u64,
    trace_flags: u8,
    baggage: Vec<(String, String)>,
    has_active_span: bool,
}

impl View for TraceContext {
    type V = TraceContextView;

    closed spec fn view(&self) -> TraceContextView {
        TraceContextView {
            trace_id: self.trace_id,
            span_id: self.span_id,
            trace_flags: self.trace_flags,
            baggage: pairs_map(self.baggage@),
            has_active_span: self.has_active_span,
        }
    }
}

impl TraceContext {
    /// The baggage as the list of entries that were put into the context, in
    /// their order. A later entry replaces an earlier one with the same key,
    /// so the list stands for the baggage of the view.
    pub closed spec fn baggage_list(&self) -> Seq<Field> {
        fields_text(self.baggage@)
    }

    #[verifier::type_invariant]
    closed spec fn well_formed(&self) -> bool {
        self@.consistent()
    }

    /// The context without a span and without baggage.
    pub fn empty() -> (context: Self)
        ensures
            context@ == TraceContextView::empty(),
            context.baggage_list() == Seq::<Field>::empty(),
    {
        assert(fields_text(Seq::<(String, String)>::empty()) =~= Seq::<Field>::empty());
        TraceContext {
            trace_id: 0,
            span_id: 0,
            trace_flags: 0,
            baggage: Vec::new(),
            has_active_span: false,
        }
    }

    /// The context of a span with the given identity, without baggage. Where
    /// one of the ids is zero there is no span, and the context is empty.
    pub fn span(trace_id: u128, span_id: u64, trace_flags: u8) -> (context: Self)
        ensures
            context@ == TraceContextView::span(trace_id, span_id, trace_flags),
            context.baggage_list() == Seq::<Field>::empty(),
    {
        assert(fields_text(Seq::<(String, String)>::empty()) =~= Seq::<Field>::empty());
        if trace_id != 0 && span_id != 0 {
            TraceContext {
                trace_id,
                span_id,
                trace_flags,
                baggage: Vec::new(),
                has_active_span: true,
            }
        } else {
            TraceContext::empty()
        }
    }

    /// The context without a span that carries the given baggage, in which a
    /// later pair replaces an earlier one with the same key.
    pub fn of_baggage(baggage: Vec<(String, String)>) -> (context: Self)
        ensures
            context@ == TraceContextView::of_baggage(pairs_map(baggage@)),
            context.baggage_list() == fields_text(baggage@),
    {
        TraceContext { trace_id: 0, span_id: 0, trace_flags: 0, baggage, has_active_span: false }
    }

    /// This context with one more baggage entry, which replaces an entry with
    /// the same key.
    pub fn with_baggage(self, key: String, value: String) -> (context: Self)
        ensures
            context@ == (TraceContextView {
                baggage: self@.baggage.insert(key@, value@),
                ..self@
            }),
            context.baggage_list() == self.baggage_list().push((key@, value@)),
    {
        proof {
            use_type_invariant(&self);
        }
        let ghost before = self.baggage@;
        let mut baggage = self.baggage;
        baggage.push((key, value));
        proof {
            assert(fields_text(baggage@).drop_last() =~= fields_text(before));
            assert(fields_text(baggage@) =~= fields_text(before).push((key@, value@)));
        }
        TraceContext {
            trace_id: self.trace_id,
            span_id: self.span_id,
            trace_flags: self.trace_flags,
            baggage,
            has_active_span: self.has_active_span,
        }
    }

    /// This context, completed by one that was found after it: the identity
    /// is that of the first of the two that has a span, and the baggage is the
    /// union of both, in which the later entry wins.
    pub fn merge(self, later: TraceContext) -> (context: Self)
        ensures
            context@ == self@.merge(later@),
            context.baggage_list() == self.baggage_list() + later.baggage_list(),
    {
        proof {
            use_type_invariant(&self);
            use_type_invariant(&later);
            lemma_entries_map_concat(fields_text(self.baggage@), fields_text(later.baggage@));
        }
        let ghost first = self.baggage@;
        let ghost second = later.baggage@;
        let mut baggage = self.baggage;
        let mut rest = later.baggage;
        baggage.append(&mut rest);
        proof {
            assert(fields_text(baggage@) =~= fields_text(first) + fields_text(second));
        }
        if self.has_active_span {
            TraceContext {
                trace_id: self.trace_id,
                span_id: self.span_id,
                trace_flags: self.trace_flags,
                baggage,
                has_active_span: true,
            }
        } else {
            TraceContext {
                trace_id: later.trace_id,
                span_id: later.span_id,
                trace_flags: later.trace_flags,
                baggage,
                has_active_span: later.has_active_span,
            }
        }
    }

    /// The id of the trace, zero where there is no span.
    pub fn trace_id(&self) -> (id: u128)
        ensures
            id == self@.trace_id,
    {
        self.trace_id
    }

    /// The id of the span, zero where there is no span.
    pub fn span_id(&self) -> (id: u64)
        ensures
            id == self@.span_id,
    {
        self.span_id
    }

    /// The flags of the span, of which the lowest bit says that it is sampled.
    pub fn trace_flags(&self) -> (flags: u8)
        ensures
            flags == self@.trace_flags,
    {
        self.trace_flags
    }

    /// True when the context holds the identity of a span: two ids that are
    /// not zero. Without a span the ids and the flags are zero.
    pub fn has_active_span(&self) -> (active: bool)
        ensures
            active == self@.has_active_span,
            self@.consistent(),
    {
        proof {
            use_type_invariant(self);
        }
        self.has_active_span
    }

    /// The baggage as pairs, in which a later pair replaces an earlier one
    /// with the same key.
    pub fn baggage_pairs(&self) -> (pairs: &Vec<(String, String)>)
        ensures
            pairs_map(pairs@) == self@.baggage,
            fields_text(pairs@) == self.baggage_list(),
    {
        &self.baggage
    }

    /// The baggage value of a key, if the context has one.
    pub fn baggage_get(&self, key: &str) -> (value: Option<String>)
        ensures
            text_of(value) == (if self@.baggage.contains_key(key@) {
                Some(self@.baggage[key@])
            } else {
                None
            }),
    {
        let wanted = key.to_owned();
        let mut at = self.baggage.len();
        while at > 0
            invariant
                at <= self.baggage.len(),
                wanted@ == key@,
                forall|i: int|
                    at <= i < self.baggage.len() ==> (#[trigger] self.baggage[i]).0@ != key@,
            decreases at,
        {
            at = at - 1;
            if self.baggage[at].0 == wanted {
                proof {
                    lemma_entries_map_last(fields_text(self.baggage@), key@, at as int);
                }
                return Some(self.baggage[at].1.clone());
            }
        }
        proof {
            lemma_entries_map_absent(fields_text(self.baggage@), key@);
        }
        None
    }
}

} // verus!
