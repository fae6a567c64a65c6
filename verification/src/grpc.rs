//! The gRPC side: an interceptor that writes the trace context into the
//! metadata of an outgoing request.

use vstd::prelude::*;
use crate::carrier::room_left;
use crate::composite::{offered_all, CompositePropagator};
use crate::context::TraceContext;
use crate::metadata::{metadata_count, metadata_sizes, metadata_text};
use crate::propagation::{
    all_storable, is_subsequence, storable_part, write_all, write_sizes,
};
use crate::text::fields_text;

verus! {

/// Adds the trace context to outgoing gRPC requests, so that the spans of
/// the two sides end up in one trace.
#[derive(Clone, Copy, Debug)]
pub struct GrpcInterceptor;

impl GrpcInterceptor {
    /// Writes the context into the metadata of a request that is about to be
    /// sent, with the registered propagator, and returns the fields that the
    /// metadata took. What the metadata cannot hold is left out; the request
    /// is sent either way.
    pub fn call(
        &mut self,
        propagator: &CompositePropagator,
        context: &TraceContext,
        metadata: &mut tonic::metadata::MetadataMap,
    ) -> (written: Vec<(String, String)>)
        ensures
            metadata_text(*final(metadata)) == write_all::<tonic::metadata::MetadataMap>(
                metadata_text(*old(metadata)),
                fields_text(written@),
            ),
            metadata_sizes(*final(metadata)) == write_sizes::<tonic::metadata::MetadataMap>(
                metadata_sizes(*old(metadata)),
                fields_text(written@),
            ),
            is_subsequence(
                fields_text(written@),
                offered_all(propagator.members@, context@, context.baggage_list()),
            ),
            room_left(metadata_count(*old(metadata))) >= 2 * propagator.members@.len()
                ==> fields_text(written@) == storable_part::<tonic::metadata::MetadataMap>(
                offered_all(propagator.members@, context@, context.baggage_list()),
            ),
            all_storable::<tonic::metadata::MetadataMap>(fields_text(written@)),
            room_left(metadata_count(*final(metadata))) + 2 * propagator.members@.len()
                >= room_left(metadata_count(*old(metadata))),
    {
        propagator.inject(context, metadata)
    }
}

} // verus!
