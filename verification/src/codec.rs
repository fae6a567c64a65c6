//! The two header formats, as the OpenTelemetry SDK writes and reads them:
//! `traceparent` for the identity of a span and `baggage` for the entries
//! that travel with it.

use std::collections::HashMap;
use opentelemetry::baggage::BaggageExt;
use opentelemetry::Context;
use opentelemetry::propagation::TextMapPropagator;
use opentelemetry::trace::{SpanContext, SpanId, TraceContextExt, TraceFlags, TraceId, TraceState};
use opentelemetry_sdk::propagation::{BaggagePropagator, TraceContextPropagator};
use vstd::prelude::*;
use crate::baggage::{
    baggage_text, entry_text, is_plain_baggage, is_plain_entry, lemma_baggage_text_injective,
};
use crate::context::pairs_map;
use crate::text::{entries_map, text_of, Field};

verus! {

/// The lowercase hexadecimal digit of a value below 16.
pub open spec fn hex_digit(value: nat) -> char {
    if value < 10 {
        (('0' as u8) + value) as char
    } else {
        (('a' as u8) + value - 10) as char
    }
}

/// The last `width` lowercase hexadecimal digits of a value, with leading
/// zeros.
pub open spec fn lower_hex(value: nat, width: nat) -> Seq<char>
    decreases width,
{
    if width == 0 {
        Seq::empty()
    } else {
        lower_hex(value / 16, (width - 1) as nat).push(hex_digit(value % 16))
    }
}

/// The `traceparent` header of a span: version `00`, the trace id in 32
/// digits, the span id in 16, and the sampled bit of the flags in two, with
/// hyphens between them.
pub open spec fn traceparent_text(trace_id: u128, span_id: u64, trace_flags: u8) -> Seq<char> {
    seq!['0', '0', '-'] + lower_hex(trace_id as nat, 32) + seq!['-'] + lower_hex(
        span_id as nat,
        16,
    ) + seq!['-'] + lower_hex((trace_flags % 2) as nat, 2)
}

/// True for the sixteen lowercase hexadecimal digits.
pub open spec fn is_hex_digit(c: char) -> bool {
    ('0' <= c <= '9') || ('a' <= c <= 'f')
}

/// The value of a lowercase hexadecimal digit.
pub open spec fn digit_value(c: char) -> nat {
    if '0' <= c <= '9' {
        (c as u8 - '0' as u8) as nat
    } else {
        (c as u8 - 'a' as u8 + 10) as nat
    }
}

/// The number that lowercase hexadecimal digits stand for.
pub open spec fn hex_value(digits: Seq<char>) -> nat
    decreases digits.len(),
{
    if digits.len() == 0 {
        0
    } else {
        hex_value(digits.drop_last()) * 16 + digit_value(digits.last())
    }
}

/// True when every one of the characters is a lowercase hexadecimal digit.
pub open spec fn all_hex_digits(digits: Seq<char>) -> bool {
    forall|i: int| 0 <= i < digits.len() ==> is_hex_digit(#[trigger] digits[i])
}

/// A `traceparent` header in its plain form: version `00`, 32 digits of
/// trace id, 16 digits of span id and two digits of flags, all lowercase,
/// with hyphens between them and nothing around them.
pub open spec fn is_plain_traceparent(header: Seq<char>) -> bool {
    &&& header.len() == 55
    &&& header[0] == '0' && header[1] == '0'
    &&& header[2] == '-' && header[35] == '-' && header[52] == '-'
    &&& all_hex_digits(header.subrange(3, 35))
    &&& all_hex_digits(header.subrange(36, 52))
    &&& all_hex_digits(header.subrange(53, 55))
}

/// The identity that a plain `traceparent` header holds: the ids that its
/// digits stand for and the sampled bit of its flags, or none where one of
/// the ids is zero.
pub open spec fn plain_traceparent_identity(header: Seq<char>) -> Option<(u128, u64, u8)> {
    let trace_id = hex_value(header.subrange(3, 35));
    let span_id = hex_value(header.subrange(36, 52));
    let flags = hex_value(header.subrange(53, 55));
    if trace_id != 0 && span_id != 0 {
        Some((trace_id as u128, span_id as u64, (flags % 2) as u8))
    } else {
        None
    }
}

/// The identity that the SDK's trace-context propagator reads from a
/// `traceparent` header that is not in the plain form and stands alone:
/// trace id, span id and flags, or `None` where it rejects the header.
pub uninterp spec fn trace_parent_decoding(header: Seq<char>) -> Option<(u128, u64, u8)>;

/// The identity that is read from a `traceparent` header: what the format
/// says for a header in the plain form, and what the SDK makes of any other.
pub open spec fn trace_parent_reading(header: Seq<char>) -> Option<(u128, u64, u8)> {
    if is_plain_traceparent(header) {
        plain_traceparent_identity(header)
    } else {
        trace_parent_decoding(header)
    }
}

/// The entries that the SDK's baggage propagator reads from a `baggage`
/// header that is not in the plain form.
pub uninterp spec fn baggage_decoding(header: Seq<char>) -> Map<Seq<char>, Seq<char>>;

/// What the SDK's baggage propagator writes for a baggage of one pair that
/// is not plain (a value that is not ASCII, that holds a percent sign or
/// that has white space at its ends; a key with a separator): the pair as
/// the SDK escapes and trims it, or `None` where its baggage does not take
/// the pair.
pub uninterp spec fn baggage_member_encoding(key: Seq<char>, value: Seq<char>) -> Option<
    Seq<char>,
>;

/// A plain entry that is short enough to be a header of its own.
pub open spec fn is_plain_member(entry: Field) -> bool {
    is_plain_entry(entry) && entry_text(entry).len() <= 8192
}

/// The member of the header that stands for an entry: its plain text, where
/// it is plain, and what the SDK makes of it where not.
pub open spec fn member_text(entry: Field) -> Option<Seq<char>> {
    if is_plain_member(entry) {
        Some(entry_text(entry))
    } else {
        baggage_member_encoding(entry.0, entry.1)
    }
}

/// True when the header is the plain text of some entries.
pub open spec fn is_plain_baggage_text(header: Seq<char>) -> bool {
    exists|entries: Seq<Field>| #[trigger]
        is_plain_baggage(entries) && baggage_text(entries) == header
}

/// The entries that are read from a `baggage` header: those that it lists,
/// where it is in the plain form, and what the SDK makes of any other.
pub open spec fn baggage_reading(header: Seq<char>) -> Map<Seq<char>, Seq<char>> {
    if is_plain_baggage_text(header) {
        entries_map(
            choose|entries: Seq<Field>| #[trigger]
                is_plain_baggage(entries) && baggage_text(entries) == header,
        )
    } else {
        baggage_decoding(header)
    }
}

/// Reading back. The plain header of entries holds those entries.
pub proof fn lemma_baggage_reads_back(entries: Seq<Field>)
    requires
        is_plain_baggage(entries),
    ensures
        is_plain_baggage_text(baggage_text(entries)),
        baggage_reading(baggage_text(entries)) == entries_map(entries),
{
    let header = baggage_text(entries);
    let chosen = choose|other: Seq<Field>| #[trigger]
        is_plain_baggage(other) && baggage_text(other) == header;
    lemma_baggage_text_injective(chosen, entries);
}

/// True when a number can be written in `width` hexadecimal digits.
pub open spec fn fits_in(value: nat, width: nat) -> bool
    decreases width,
{
    if width == 0 {
        value == 0
    } else {
        fits_in(value / 16, (width - 1) as nat)
    }
}

/// The digits of a number are hexadecimal digits, as many as asked for, and
/// they stand for the number where it can be written in so many digits.
pub proof fn lemma_hex_digits(value: nat, width: nat)
    ensures
        lower_hex(value, width).len() == width,
        all_hex_digits(lower_hex(value, width)),
        fits_in(value, width) ==> hex_value(lower_hex(value, width)) == value,
    decreases width,
{
    if width > 0 {
        let front = lower_hex(value / 16, (width - 1) as nat);
        let digits = lower_hex(value, width);
        lemma_hex_digits(value / 16, (width - 1) as nat);
        assert(digits.drop_last() =~= front);
        assert(digits.last() == hex_digit(value % 16));
        assert(is_hex_digit(hex_digit(value % 16)));
        assert(digit_value(hex_digit(value % 16)) == value % 16);
        assert forall|i: int| 0 <= i < digits.len() implies is_hex_digit(#[trigger] digits[i]) by {
            if i < width - 1 {
                assert(digits[i] == front[i]);
            }
        }
    }
}

/// Every trace id can be written in 32 digits, every span id in 16, and a
/// sampled bit in two.
pub proof fn lemma_ids_fit(trace_id: u128, span_id: u64, trace_flags: u8)
    ensures
        fits_in(trace_id as nat, 32),
        fits_in(span_id as nat, 16),
        fits_in((trace_flags % 2) as nat, 2),
{
    reveal_with_fuel(fits_in, 33);
}

/// Reading back. The plain `traceparent` header of an identity holds that
/// identity: the two ids, and of the flags the sampled bit.
pub proof fn lemma_traceparent_reads_back(trace_id: u128, span_id: u64, trace_flags: u8)
    ensures
        is_plain_traceparent(traceparent_text(trace_id, span_id, trace_flags)),
        trace_parent_reading(traceparent_text(trace_id, span_id, trace_flags)) == (if trace_id != 0
            && span_id != 0 {
            Some((trace_id, span_id, trace_flags % 2))
        } else {
            None
        }),
{
    let text = traceparent_text(trace_id, span_id, trace_flags);
    let a = lower_hex(trace_id as nat, 32);
    let b = lower_hex(span_id as nat, 16);
    let c = lower_hex((trace_flags % 2) as nat, 2);
    lemma_hex_digits(trace_id as nat, 32);
    lemma_hex_digits(span_id as nat, 16);
    lemma_hex_digits((trace_flags % 2) as nat, 2);
    lemma_ids_fit(trace_id, span_id, trace_flags);
    assert(text.len() == 55);
    assert(text.subrange(3, 35) =~= a);
    assert(text.subrange(36, 52) =~= b);
    assert(text.subrange(53, 55) =~= c);
    assert(text[0] == '0' && text[1] == '0' && text[2] == '-');
    assert(text[35] == '-');
    assert(text[52] == '-');
}

/// `TraceContextPropagator::inject_context` from opentelemetry_sdk, on the
/// context of a remote span with the given identity and an empty trace state:
/// the values it sets under `traceparent` and `tracestate`. For an identity
/// with a zero id it sets neither.
#[verifier::external_body]
pub(crate) fn encode_trace_parent(trace_id: u128, span_id: u64, trace_flags: u8) -> (fields: (
    Option<String>,
    Option<String>,
))
    ensures
        trace_id != 0 && span_id != 0 ==> text_of(fields.0) == Some(
            traceparent_text(trace_id, span_id, trace_flags),
        ) && text_of(fields.1) == Some(Seq::<char>::empty()),
        trace_id == 0 || span_id == 0 ==> fields.0 is None && fields.1 is None,
{
    let (trace_id, span_id) = (TraceId::from(trace_id), SpanId::from(span_id));
    let flags = TraceFlags::new(trace_flags);
    let span_context = SpanContext::new(trace_id, span_id, flags, true, TraceState::default());
    let context = Context::new().with_remote_span_context(span_context);
    let mut fields: HashMap<String, String> = HashMap::new();
    TraceContextPropagator::new().inject_context(&context, &mut fields);
    (fields.remove("traceparent"), fields.remove("tracestate"))
}

/// `TraceContextPropagator::extract_with_context` from opentelemetry_sdk, on
/// an empty context and a carrier that holds `header` under `traceparent` and
/// nothing else: the identity of the span it finds. From a header in the
/// plain form it reads the ids digit by digit and keeps the sampled bit of
/// the flags. An identity that it accepts has two non-zero ids, and of the
/// flags only the sampled bit.
#[verifier::external_body]
pub(crate) fn decode_trace_parent(header: &str) -> (identity: Option<(u128, u64, u8)>)
    ensures
        is_plain_traceparent(header@) ==> identity == plain_traceparent_identity(header@),
        !is_plain_traceparent(header@) ==> identity == trace_parent_decoding(header@),
        identity matches Some(id) ==> id.0 != 0 && id.1 != 0 && id.2 <= 1,
{
    let mut carrier: HashMap<String, String> = HashMap::new();
    carrier.insert("traceparent".to_string(), header.to_string());
    let context = TraceContextPropagator::new().extract_with_context(&Context::new(), &carrier);
    if !context.has_active_span() {
        return None;
    }
    let span = context.span();
    let found = span.span_context();
    let trace_id = u128::from_be_bytes(found.trace_id().to_bytes());
    let span_id = u64::from_be_bytes(found.span_id().to_bytes());
    Some((trace_id, span_id, found.trace_flags().to_u8()))
}

/// `BaggagePropagator::inject_context` from opentelemetry_sdk, on the context
/// whose baggage is the one pair: the value it sets under `baggage`, or
/// `None` where its baggage does not take the pair. A plain pair it writes as
/// key, `=`, value, with the control characters, the space and `"`, `;`,
/// `,`, `=` of the value as a percent sign and the two uppercase digits of
/// their code.
#[verifier::external_body]
pub(crate) fn encode_baggage_entry(key: &str, value: &str) -> (member: Option<String>)
    ensures
        is_plain_member((key@, value@)) ==> text_of(member) == Some(entry_text((key@, value@))),
        !is_plain_member((key@, value@)) ==> text_of(member) == baggage_member_encoding(
            key@,
            value@,
        ),
{
    let pair = opentelemetry::KeyValue::new(key.to_string(), value.to_string());
    let context = Context::new().with_baggage([pair]);
    let mut fields: HashMap<String, String> = HashMap::new();
    BaggagePropagator::new().inject_context(&context, &mut fields);
    fields.remove("baggage")
}

/// `BaggagePropagator::extract_with_context` from opentelemetry_sdk, on an
/// empty context and a carrier that holds `header` under `baggage`: the
/// entries of the baggage it finds, each key once, in no fixed order. From a
/// header in the plain form it reads the entries that the header lists,
/// their values unescaped, of which a later one replaces an earlier one with
/// the same key.
#[verifier::external_body]
pub(crate) fn decode_baggage(header: &str) -> (pairs: Vec<(String, String)>)
    ensures
        forall|entries: Seq<Field>| #[trigger]
            is_plain_baggage(entries) && baggage_text(entries) == header@ ==> pairs_map(pairs@)
                == entries_map(entries),
        !is_plain_baggage_text(header@) ==> pairs_map(pairs@) == baggage_decoding(header@),
{
    let mut carrier: HashMap<String, String> = HashMap::new();
    carrier.insert("baggage".to_string(), header.to_string());
    let context = BaggagePropagator::new().extract_with_context(&Context::new(), &carrier);
    let entries = context.baggage().iter();
    entries.map(|(key, value)| (key.as_str().to_string(), value.0.as_str().to_string())).collect()
}

} // verus!
