use http::HeaderMap;
use opentelemetry_tracing_utils::carrier::{Extractor, Injector};
use opentelemetry_tracing_utils::composite::CompositePropagator;
use opentelemetry_tracing_utils::context::TraceContext;
use opentelemetry_tracing_utils::propagation::{write_fields, Propagator};
use opentelemetry_tracing_utils::tower_tracing::{
    get_otel_context_from_request, request_span_parent, SpanParent, TracingLayer,
};

const TRACE_ID: u128 = 0x4bf92f3577b34da6a3ce929d0e0e4736;
const SPAN_ID: u64 = 0x00f067aa0ba902b7;

fn header(headers: &mut HeaderMap, key: &'static str, value: &'static str) {
    headers.insert(key, http::HeaderValue::from_static(value));
}

fn pair(key: &str, value: &str) -> (String, String) {
    (key.to_string(), value.to_string())
}

/// Propagation from the standard headers.
#[test]
fn test_trace_context_extractor() {
    let mut headers = HeaderMap::new();
    header(&mut headers, "traceparent", "00-4bf92f3577b34da6a3ce929d0e0e4736-00f067aa0ba902b7-01");
    header(&mut headers, "tracestate", "asdf=123456");
    header(&mut headers, "baggage", "userId=alice,serverNode=DF%2028,isProduction=false");

    let context = get_otel_context_from_request(&CompositePropagator::standard(), &headers);

    assert!(context.has_active_span());
    assert_eq!(context.baggage_get("userId"), Some("alice".to_string()));
    assert_eq!(context.baggage_get("serverNode"), Some("DF 28".to_string()));
    assert_eq!(context.baggage_get("isProduction"), Some("false".to_string()));
}

#[test]
fn extracts_the_identity_of_the_header() {
    let mut headers = HeaderMap::new();
    header(&mut headers, "traceparent", "00-4bf92f3577b34da6a3ce929d0e0e4736-00f067aa0ba902b7-01");
    let context = Propagator::TraceParent.extract(&headers);
    assert!(context.has_active_span());
    assert_eq!(context.trace_id(), TRACE_ID);
    assert_eq!(context.span_id(), SPAN_ID);
    assert_eq!(context.trace_flags(), 1);
    assert_eq!(context.baggage_pairs().len(), 0);
}

#[test]
fn baggage_passthrough() {
    let mut headers = HeaderMap::new();
    header(&mut headers, "baggage", "userId=alice,serverNode=DF%2028,isProduction=false");
    let context = Propagator::Baggage.extract(&headers);
    assert!(!context.has_active_span());
    assert_eq!(context.baggage_pairs().len(), 3);
    assert_eq!(context.baggage_get("userId"), Some("alice".to_string()));
    assert_eq!(context.baggage_get("serverNode"), Some("DF 28".to_string()));
    assert_eq!(context.baggage_get("isProduction"), Some("false".to_string()));
    assert_eq!(context.baggage_get("userid"), None);
}

#[test]
fn injects_the_traceparent_format() {
    let context = TraceContext::span(TRACE_ID, SPAN_ID, 1);
    let mut headers = HeaderMap::new();
    let written = Propagator::TraceParent.inject(&context, &mut headers);
    assert_eq!(
        written,
        vec![
            pair("traceparent", "00-4bf92f3577b34da6a3ce929d0e0e4736-00f067aa0ba902b7-01"),
            pair("tracestate", ""),
        ]
    );
    assert_eq!(
        headers.get("traceparent").unwrap(),
        "00-4bf92f3577b34da6a3ce929d0e0e4736-00f067aa0ba902b7-01"
    );
    assert_eq!(headers.get("tracestate").unwrap(), "");
    assert_eq!(headers.len(), 2);
}

#[test]
fn traceparent_has_leading_zeros_and_only_the_sampled_bit() {
    let context = TraceContext::span(0x2a, 0x1, 0xfe);
    let fields = Propagator::TraceParent.fields(&context);
    assert_eq!(
        fields[0],
        pair("traceparent", "00-0000000000000000000000000000002a-0000000000000001-00")
    );
    let sampled = TraceContext::span(u128::MAX, u64::MAX, 0xff);
    let fields = Propagator::TraceParent.fields(&sampled);
    assert_eq!(
        fields[0],
        pair("traceparent", "00-ffffffffffffffffffffffffffffffff-ffffffffffffffff-01")
    );
}

#[test]
fn a_context_without_a_span_writes_nothing() {
    let empty = TraceContext::empty();
    let mut headers = HeaderMap::new();
    assert!(CompositePropagator::standard().inject(&empty, &mut headers).is_empty());
    assert!(headers.is_empty());
    let zero_span = TraceContext::span(TRACE_ID, 0, 1);
    assert!(!zero_span.has_active_span());
    assert_eq!(zero_span.trace_id(), 0);
    assert!(Propagator::TraceParent.fields(&zero_span).is_empty());
    let zero_trace = TraceContext::span(0, SPAN_ID, 1);
    assert!(!zero_trace.has_active_span());
    assert!(Propagator::TraceParent.fields(&zero_trace).is_empty());
}

#[test]
fn round_trip_keeps_identity_and_baggage() {
    let context = TraceContext::span(TRACE_ID, SPAN_ID, 1)
        .with_baggage("userId".to_string(), "alice".to_string())
        .with_baggage("serverNode".to_string(), "DF 28".to_string());
    let composite = CompositePropagator::standard();
    let mut headers = HeaderMap::new();
    let written = composite.inject(&context, &mut headers);
    assert_eq!(written.len(), 3);
    assert_eq!(written[0].0, "baggage");
    let found = composite.extract(&headers);
    assert!(found.has_active_span());
    assert_eq!(found.trace_id(), TRACE_ID);
    assert_eq!(found.span_id(), SPAN_ID);
    assert_eq!(found.trace_flags(), 1);
    assert_eq!(found.baggage_pairs().len(), 2);
    assert_eq!(found.baggage_get("userId"), Some("alice".to_string()));
    assert_eq!(found.baggage_get("serverNode"), Some("DF 28".to_string()));
}

#[test]
fn round_trip_drops_all_flags_but_sampled() {
    let context = TraceContext::span(TRACE_ID, SPAN_ID, 0x02);
    let mut headers = HeaderMap::new();
    Propagator::TraceParent.inject(&context, &mut headers);
    let found = Propagator::TraceParent.extract(&headers);
    assert!(found.has_active_span());
    assert_eq!(found.trace_flags(), 0);
}

#[test]
fn no_recognized_keys_give_the_empty_context() {
    let mut headers = HeaderMap::new();
    header(&mut headers, "content-type", "text/plain");
    header(&mut headers, "tracestate", "asdf=123456");
    let context = CompositePropagator::standard().extract(&headers);
    assert!(!context.has_active_span());
    assert_eq!(context.trace_id(), 0);
    assert_eq!(context.span_id(), 0);
    assert_eq!(context.trace_flags(), 0);
    assert!(context.baggage_pairs().is_empty());
    let none = CompositePropagator::new(Vec::new()).extract(&HeaderMap::new());
    assert!(!none.has_active_span());
    assert!(none.baggage_pairs().is_empty());
}

#[test]
fn malformed_traceparent_gives_no_span() {
    for value in [
        "",
        "garbage",
        "00-4bf92f3577b34da6a3ce929d0e0e4736-00f067aa0ba902b7",
        "00-00000000000000000000000000000000-0000000000000000-01",
        "00-4BF92F3577B34DA6A3CE929D0E0E4736-00f067aa0ba902b7-01",
        "qw-4bf92f3577b34da6a3ce929d0e0e4736-00f067aa0ba902b7-01",
    ] {
        let mut headers = HeaderMap::new();
        headers.insert("traceparent", http::HeaderValue::from_str(value).unwrap());
        let context = Propagator::TraceParent.extract(&headers);
        assert!(!context.has_active_span(), "{value}");
        assert_eq!(context.trace_id(), 0);
        assert_eq!(request_span_parent(&CompositePropagator::standard(), &headers), SpanParent::Root);
    }
}

#[test]
fn composite_union_in_either_order() {
    let context = TraceContext::span(TRACE_ID, SPAN_ID, 1)
        .with_baggage("tenant".to_string(), "blue".to_string());
    for members in [
        vec![Propagator::TraceParent, Propagator::Baggage],
        vec![Propagator::Baggage, Propagator::TraceParent],
    ] {
        let composite = CompositePropagator::new(members);
        let mut headers = HeaderMap::new();
        composite.inject(&context, &mut headers);
        assert_eq!(headers.get("baggage").unwrap(), "tenant=blue");
        let found = composite.extract(&headers);
        assert!(found.has_active_span());
        assert_eq!(found.trace_id(), TRACE_ID);
        assert_eq!(found.baggage_get("tenant"), Some("blue".to_string()));
    }
}

#[test]
fn each_propagator_keeps_to_its_keys() {
    let context = TraceContext::span(TRACE_ID, SPAN_ID, 1)
        .with_baggage("tenant".to_string(), "blue".to_string());
    let mut only_baggage = HeaderMap::new();
    let written = Propagator::Baggage.inject(&context, &mut only_baggage);
    assert_eq!(written, vec![pair("baggage", "tenant=blue")]);
    assert_eq!(only_baggage.len(), 1);
    assert!(!Propagator::TraceParent.extract(&only_baggage).has_active_span());
    let mut only_identity = HeaderMap::new();
    Propagator::TraceParent.inject(&context, &mut only_identity);
    assert!(only_identity.get("baggage").is_none());
    assert!(Propagator::Baggage.extract(&only_identity).baggage_pairs().is_empty());
}

#[test]
fn injecting_twice_changes_nothing() {
    let context = TraceContext::span(TRACE_ID, SPAN_ID, 1)
        .with_baggage("tenant".to_string(), "blue".to_string())
        .with_baggage("region".to_string(), "eu west".to_string())
        .with_baggage("user".to_string(), "alice".to_string());
    let composite = CompositePropagator::standard();
    let mut headers = HeaderMap::new();
    header(&mut headers, "accept", "*/*");
    let first = composite.inject(&context, &mut headers);
    assert_eq!(first[0], pair("baggage", "tenant=blue,region=eu%20west,user=alice"));
    let once = headers.clone();
    for _ in 0..20 {
        let again = composite.inject(&context, &mut headers);
        assert_eq!(again, first);
        assert_eq!(headers, once);
        assert_eq!(headers.len(), 4);
        assert_eq!(headers.get_all("baggage").iter().count(), 1);
    }
}

#[test]
fn writing_replaces_what_was_stored() {
    let mut headers = HeaderMap::new();
    headers.append("baggage", http::HeaderValue::from_static("old=1"));
    headers.append("baggage", http::HeaderValue::from_static("older=2"));
    let written = write_fields(&mut headers, &vec![pair("baggage", "a=1"), pair("Baggage", "b=2")]);
    assert_eq!(written.len(), 2);
    assert_eq!(headers.len(), 1);
    assert_eq!(headers.get("baggage").unwrap(), "b=2");
}

#[test]
fn write_fields_skips_what_the_carrier_cannot_hold() {
    let mut headers = HeaderMap::new();
    let fields = vec![
        pair("x-good", "1"),
        pair("bad key", "2"),
        pair("x-bad-value", "line\nbreak"),
        pair("", "3"),
        pair("x-also-good", "4"),
    ];
    let written = write_fields(&mut headers, &fields);
    assert_eq!(written, vec![pair("x-good", "1"), pair("x-also-good", "4")]);
    assert_eq!(headers.len(), 2);
}

#[test]
fn later_baggage_wins() {
    let context = TraceContext::empty()
        .with_baggage("k".to_string(), "first".to_string())
        .with_baggage("k".to_string(), "second".to_string());
    assert_eq!(context.baggage_get("k"), Some("second".to_string()));
    let earlier = TraceContext::of_baggage(vec![pair("k", "a"), pair("only", "x")]);
    let later = TraceContext::of_baggage(vec![pair("k", "b")]);
    let merged = earlier.merge(later);
    assert_eq!(merged.baggage_get("k"), Some("b".to_string()));
    assert_eq!(merged.baggage_get("only"), Some("x".to_string()));
    assert_eq!(merged.baggage_get("absent"), None);
}

#[test]
fn merge_takes_the_first_identity() {
    let first = TraceContext::span(1, 2, 1);
    let second = TraceContext::span(3, 4, 0);
    let merged = first.merge(second);
    assert_eq!((merged.trace_id(), merged.span_id(), merged.trace_flags()), (1, 2, 1));
    let merged = TraceContext::empty().merge(TraceContext::span(3, 4, 0));
    assert!(merged.has_active_span());
    assert_eq!((merged.trace_id(), merged.span_id(), merged.trace_flags()), (3, 4, 0));
}

#[test]
fn parent_is_the_remote_span_of_the_header() {
    let composite = CompositePropagator::standard();
    let mut headers = HeaderMap::new();
    header(&mut headers, "traceparent", "00-4bf92f3577b34da6a3ce929d0e0e4736-00f067aa0ba902b7-01");
    assert_eq!(
        request_span_parent(&composite, &headers),
        SpanParent::Remote { trace_id: TRACE_ID, span_id: SPAN_ID, sampled: true }
    );
    let mut unsampled = HeaderMap::new();
    header(&mut unsampled, "traceparent", "00-4bf92f3577b34da6a3ce929d0e0e4736-00f067aa0ba902b7-00");
    assert_eq!(
        request_span_parent(&composite, &unsampled),
        SpanParent::Remote { trace_id: TRACE_ID, span_id: SPAN_ID, sampled: false }
    );
}

#[test]
fn a_request_without_context_starts_a_trace() {
    let composite = CompositePropagator::standard();
    assert_eq!(request_span_parent(&composite, &HeaderMap::new()), SpanParent::Root);
    let mut headers = HeaderMap::new();
    header(&mut headers, "baggage", "a=1");
    assert_eq!(request_span_parent(&composite, &headers), SpanParent::Root);
    let only_baggage = CompositePropagator::new(vec![Propagator::Baggage]);
    header(&mut headers, "traceparent", "00-4bf92f3577b34da6a3ce929d0e0e4736-00f067aa0ba902b7-01");
    assert_eq!(request_span_parent(&only_baggage, &headers), SpanParent::Root);
}

#[test]
fn the_layer_wraps_the_service() {
    let wrapped = TracingLayer.layer(7u32);
    assert_eq!(wrapped.service, 7);
    let context = TraceContext::span(TRACE_ID, SPAN_ID, 0);
    let mut headers = HeaderMap::new();
    let written = wrapped.before_call(&CompositePropagator::standard(), &context, &mut headers);
    assert_eq!(written.len(), 2);
    assert_eq!(
        headers.get("traceparent").unwrap(),
        "00-4bf92f3577b34da6a3ce929d0e0e4736-00f067aa0ba902b7-00"
    );
    assert_eq!(wrapped.into_inner(), 7);
}

#[test]
fn header_set_and_get() {
    let mut headers = HeaderMap::new();
    assert!(headers.set("X-Request-Id", "abc".to_string()));
    assert_eq!(Extractor::get(&headers, "x-request-id"), Some("abc".to_string()));
    assert_eq!(Extractor::get(&headers, "X-REQUEST-ID"), Some("abc".to_string()));
    assert_eq!(Extractor::get(&headers, "x-other"), None);
    assert_eq!(Extractor::get(&headers, "not a name"), None);
    assert!(headers.set("x-request-id", "def".to_string()));
    assert_eq!(Extractor::get(&headers, "x-request-id"), Some("def".to_string()));
    assert_eq!(Extractor::keys(&headers), vec!["x-request-id".to_string()]);
}

#[test]
fn header_set_skips_what_cannot_be_stored() {
    let mut headers = HeaderMap::new();
    assert!(!headers.set("bad key", "v".to_string()));
    assert!(!headers.set("", "v".to_string()));
    assert!(!headers.set("x-k", "a\u{7f}".to_string()));
    assert!(!headers.set("x-k", "a\rb".to_string()));
    assert!(headers.is_empty());
    assert!(headers.set("x-k", "tab\tok".to_string()));
    assert_eq!(Extractor::get(&headers, "x-k"), Some("tab\tok".to_string()));
}

#[test]
fn a_value_that_is_not_ascii_is_stored_but_not_read() {
    let mut headers = HeaderMap::new();
    assert!(headers.set("x-k", "plain".to_string()));
    assert!(headers.set("x-k", "caf\u{e9}".to_string()));
    assert_eq!(headers.len(), 1);
    assert_eq!(Extractor::get(&headers, "x-k"), None);
    assert_eq!(Extractor::keys(&headers), vec!["x-k".to_string()]);
}

#[test]
fn a_percent_escape_in_a_baggage_value_does_not_survive() {
    let context = TraceContext::empty().with_baggage("k".to_string(), "100%41".to_string());
    let mut headers = HeaderMap::new();
    Propagator::Baggage.inject(&context, &mut headers);
    let found = Propagator::Baggage.extract(&headers);
    assert_eq!(found.baggage_get("k"), Some("100A".to_string()));
}

#[test]
fn baggage_that_the_format_cannot_name_is_left_out() {
    let context = TraceContext::empty().with_baggage("bad key".to_string(), "v".to_string());
    let mut headers = HeaderMap::new();
    assert!(Propagator::Baggage.inject(&context, &mut headers).is_empty());
    assert!(headers.is_empty());
}

#[test]
fn plain_traceparent_is_read_digit_by_digit() {
    for (value, identity) in [
        ("00-0000000000000000000000000000002a-0000000000000001-00", (0x2a, 0x1, 0)),
        ("00-ffffffffffffffffffffffffffffffff-ffffffffffffffff-ff", (u128::MAX, u64::MAX, 1)),
        ("00-0123456789abcdef0123456789abcdef-fedcba9876543210-fe", (
            0x0123456789abcdef0123456789abcdef,
            0xfedcba9876543210,
            0,
        )),
        ("00-10000000000000000000000000000000-1000000000000000-03", (1 << 124, 1 << 60, 1)),
    ] {
        let mut headers = HeaderMap::new();
        headers.insert("traceparent", http::HeaderValue::from_static(value));
        let context = Propagator::TraceParent.extract(&headers);
        assert!(context.has_active_span(), "{value}");
        assert_eq!(
            (context.trace_id(), context.span_id(), context.trace_flags()),
            identity,
            "{value}"
        );
    }
}

#[test]
fn plain_traceparent_with_a_zero_id_holds_no_span() {
    for value in [
        "00-00000000000000000000000000000000-00f067aa0ba902b7-01",
        "00-4bf92f3577b34da6a3ce929d0e0e4736-0000000000000000-01",
    ] {
        let mut headers = HeaderMap::new();
        headers.insert("traceparent", http::HeaderValue::from_static(value));
        let context = Propagator::TraceParent.extract(&headers);
        assert!(!context.has_active_span(), "{value}");
        assert_eq!((context.trace_id(), context.span_id(), context.trace_flags()), (0, 0, 0));
    }
}
