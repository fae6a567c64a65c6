//! The HTTP side: a layer whose service writes the trace context into the
//! headers of an outgoing request, and the reading of the context from the
//! headers of an incoming one.

use vstd::prelude::*;
use crate::carrier::{entry, room_left};
use crate::codec::trace_parent_reading;
use crate::composite::{offered_all, read_all, CompositePropagator};
use crate::context::{TraceContext, TraceContextView};
use crate::headers::{header_count, header_sizes, header_text};
use crate::propagation::{
    all_storable, is_subsequence, storable_part, traceparent_key, write_all, write_sizes,
    Propagator,
};
use crate::text::fields_text;

verus! {

/// Wraps a service into one that propagates the trace context.
#[derive(Clone, Copy, Debug)]
pub struct TracingLayer;

impl TracingLayer {
    /// The given service, wrapped.
    pub fn layer<S>(&self, service: S) -> (wrapped: TracingService<S>)
        ensures
            wrapped.service == service,
    {
        TracingService { service }
    }
}

/// A service around another one. Before it hands a request on, it writes the
/// trace context into the request's headers.
#[derive(Clone, Debug)]
pub struct TracingService<S> {
    pub service: S,
}

impl<S> TracingService<S> {
    /// What happens to a request before the wrapped service is called: the
    /// context is written into its headers with the registered propagator.
    /// Returns the fields that the headers took.
    pub fn before_call(
        &self,
        propagator: &CompositePropagator,
        context: &TraceContext,
        headers: &mut http::HeaderMap,
    ) -> (written: Vec<(String, String)>)
        ensures
            header_text(*final(headers)) == write_all::<http::HeaderMap>(
                header_text(*old(headers)),
                fields_text(written@),
            ),
            header_sizes(*final(headers)) == write_sizes::<http::HeaderMap>(
                header_sizes(*old(headers)),
                fields_text(written@),
            ),
            is_subsequence(
                fields_text(written@),
                offered_all(propagator.members@, context@, context.baggage_list()),
            ),
            room_left(header_count(*old(headers))) >= 2 * propagator.members@.len() ==> fields_text(
                written@,
            ) == storable_part::<http::HeaderMap>(
                offered_all(propagator.members@, context@, context.baggage_list()),
            ),
            all_storable::<http::HeaderMap>(fields_text(written@)),
            room_left(header_count(*final(headers))) + 2 * propagator.members@.len() >= room_left(
                header_count(*old(headers)),
            ),
    {
        propagator.inject(context, headers)
    }

    /// The wrapped service.
    pub fn into_inner(self) -> (service: S)
        ensures
            service == self.service,
    {
        self.service
    }
}

/// The parent of the span that is made for an incoming request.
#[derive(Clone, Copy, Debug, PartialEq, Eq, Structural)]
pub enum SpanParent {
    /// No context came with the request: the span starts a trace of its own.
    Root,
    /// The span continues the trace of the remote span that sent the request.
    Remote { trace_id: u128, span_id: u64, sampled: bool },
}

/// The parent that a context gives to a new span.
pub open spec fn parent_of(context: TraceContextView) -> SpanParent {
    if context.has_active_span {
        SpanParent::Remote {
            trace_id: context.trace_id,
            span_id: context.span_id,
            sampled: context.trace_flags % 2 == 1,
        }
    } else {
        SpanParent::Root
    }
}

/// The context that the headers of a request carry, read with the
/// registered propagator. Headers without a context, or with one that does
/// not decode, give the empty context. Nothing is made the parent of
/// anything here.
pub fn get_otel_context_from_request(
    propagator: &CompositePropagator,
    headers: &http::HeaderMap,
) -> (context: TraceContext)
    ensures
        context@ == read_all(propagator.members@, header_text(*headers)),
{
    propagator.extract(headers)
}

/// The parent of the span that is made for a request with the given
/// headers: the remote span whose context the headers carry, or none.
pub fn request_span_parent(propagator: &CompositePropagator, headers: &http::HeaderMap) -> (parent:
    SpanParent)
    ensures
        parent == parent_of(read_all(propagator.members@, header_text(*headers))),
{
    let context = get_otel_context_from_request(propagator, headers);
    if context.has_active_span() {
        SpanParent::Remote {
            trace_id: context.trace_id(),
            span_id: context.span_id(),
            sampled: context.trace_flags() % 2 == 1,
        }
    } else {
        SpanParent::Root
    }
}

/// The identity that the members read is that of the `traceparent` header,
/// where one of them is the trace-context propagator, and none otherwise.
pub proof fn lemma_read_all_identity(members: Seq<Propagator>, entries: Map<Seq<char>, Seq<char>>)
    ensures
        parent_of(read_all(members, entries)) == (if members.contains(Propagator::TraceParent) {
            parent_of(Propagator::TraceParent.reads(entries))
        } else {
            SpanParent::Root
        }),
    decreases members.len(),
{
    if members.len() > 0 {
        let front = members.drop_last();
        lemma_read_all_identity(front, entries);
        assert(members.contains(Propagator::TraceParent) == (front.contains(Propagator::TraceParent)
            || members.last() == Propagator::TraceParent)) by {
            if front.contains(Propagator::TraceParent) {
                let i = choose|i: int| 0 <= i < front.len() && front[i] == Propagator::TraceParent;
                assert(members[i] == Propagator::TraceParent);
            }
            if members.last() == Propagator::TraceParent {
                assert(members[members.len() - 1] == Propagator::TraceParent);
            }
            if members.contains(Propagator::TraceParent) {
                let i = choose|i: int|
                    0 <= i < members.len() && members[i] == Propagator::TraceParent;
                if i < members.len() - 1 {
                    assert(front[i] == Propagator::TraceParent);
                }
            }
        }
    } else {
        assert(!members.contains(Propagator::TraceParent));
    }
}

/// Parent linking. Where the headers of a request hold a `traceparent` that
/// decodes to an identity, the span made for the request continues that
/// trace: its parent has the trace id of the header. Where they hold none,
/// the span is the root of a new trace.
pub proof fn lemma_parent_linking(members: Seq<Propagator>, entries: Map<Seq<char>, Seq<char>>)
    requires
        members.contains(Propagator::TraceParent),
    ensures
        entry(entries, traceparent_key()) is None ==> parent_of(read_all(members, entries))
            == SpanParent::Root,
        entry(entries, traceparent_key()) matches Some(header) ==> (trace_parent_reading(header)
            matches Some(id) ==> id.0 != 0 && id.1 != 0 ==> parent_of(read_all(members, entries))
            == SpanParent::Remote { trace_id: id.0, span_id: id.1, sampled: id.2 % 2 == 1 }),
{
    lemma_read_all_identity(members, entries);
}

} // verus!
