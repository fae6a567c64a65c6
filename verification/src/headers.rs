//! HTTP header maps as carriers.

use vstd::prelude::*;
use crate::carrier::{
    after_set, all_distinct, header_slot, held, lemma_plain_key_header_slot, lists, lookup,
    room_left, sure_capacity, value_storable, Carrier, Extractor, Injector,
};
use crate::text::text_of;

verus! {

/// `HeaderMap` from http: a map from header names to one or more values.
#[verifier::external_type_specification]
#[verifier::external_body]
#[verifier::reject_recursive_types(T)]
pub struct ExHeaderMap<T>(http::HeaderMap<T>);

/// `HeaderValue` from http: the bytes of one header value.
#[verifier::external_type_specification]
#[verifier::external_body]
pub struct ExHeaderValue(http::HeaderValue);

/// The text entries of a header map: each header name whose first value reads
/// as text (`HeaderValue::to_str`), with that text.
pub uninterp spec fn header_text(headers: http::HeaderMap) -> Map<Seq<char>, Seq<char>>;

/// The number of values that a header map holds (`HeaderMap::len`).
pub uninterp spec fn header_count(headers: http::HeaderMap) -> nat;

/// The names that a header map holds, each with the number of values under
/// it (`HeaderMap::keys`, `HeaderMap::get_all`).
pub uninterp spec fn header_sizes(headers: http::HeaderMap) -> Map<Seq<char>, nat>;

impl Carrier for http::HeaderMap {
    open spec fn entries(&self) -> Map<Seq<char>, Seq<char>> {
        header_text(*self)
    }

    open spec fn sizes(&self) -> Map<Seq<char>, nat> {
        header_sizes(*self)
    }

    open spec fn count(&self) -> nat {
        header_count(*self)
    }

    open spec fn slot(key: Seq<char>) -> Option<Seq<char>> {
        header_slot(key)
    }

    open spec fn room(&self) -> nat {
        room_left(header_count(*self))
    }

    proof fn plain_key_slot(key: Seq<char>) {
        lemma_plain_key_header_slot(key);
    }
}

impl Injector for http::HeaderMap {
    fn set(&mut self, key: &str, value: String) -> (stored: bool) {
        header_insert(self, key, value.as_str())
    }
}

impl Extractor for http::HeaderMap {
    fn get(&self, key: &str) -> (value: Option<String>) {
        header_get(self, key)
    }

    fn keys(&self) -> (names: Vec<String>) {
        header_keys(self)
    }
}

/// `HeaderMap::try_insert` from http, with the key and the value converted by
/// `HeaderName::from_bytes` and `HeaderValue::from_str`. Where both
/// conversions succeed and the map has room, the value replaces every value
/// stored under the normalised name: the name then holds one value, and the
/// map one value more less those that were replaced. Where a conversion
/// fails the map is not touched; where the map has no room it holds what it
/// held. The map has room as long as it holds fewer values than
/// `sure_capacity`: it refuses an entry only when its table would grow past
/// 32768 slots, and a table of that size is not grown before it holds more
/// than 6553 names.
#[verifier::external_body]
pub(crate) fn header_insert(headers: &mut http::HeaderMap, key: &str, value: &str) -> (stored: bool)
    ensures
        stored ==> header_slot(key@) is Some && value_storable(value@),
        stored ==> header_text(*final(headers)) == after_set(
            header_text(*old(headers)),
            header_slot(key@).unwrap(),
            value@,
        ),
        stored ==> header_sizes(*final(headers)) == header_sizes(*old(headers)).insert(
            header_slot(key@).unwrap(),
            1,
        ),
        stored ==> header_count(*final(headers)) + held(
            header_sizes(*old(headers)),
            header_slot(key@).unwrap(),
        ) == header_count(*old(headers)) + 1,
        !stored ==> header_text(*final(headers)) == header_text(*old(headers)),
        !stored ==> header_sizes(*final(headers)) == header_sizes(*old(headers)),
        !stored ==> header_count(*final(headers)) == header_count(*old(headers)),
        header_slot(key@) is None || !value_storable(value@) ==> *final(headers) == *old(headers),
        header_count(*old(headers)) < sure_capacity() && header_slot(key@) is Some
            && value_storable(value@) ==> stored,
{
    match (http::HeaderName::from_bytes(key.as_bytes()), http::HeaderValue::from_str(value)) {
        (Ok(name), Ok(val)) => headers.try_insert(name, val).is_ok(),
        _ => false,
    }
}

/// `HeaderExtractor::get` from opentelemetry-http: the first value stored
/// under the normalised name of `key`, where it reads as text.
#[verifier::external_body]
pub(crate) fn header_get(headers: &http::HeaderMap, key: &str) -> (value: Option<String>)
    ensures
        text_of(value) == lookup(header_text(*headers), header_slot(key@)),
        value is Some ==> held(header_sizes(*headers), header_slot(key@).unwrap()) >= 1,
{
    let extractor = opentelemetry_http::HeaderExtractor(headers);
    opentelemetry::propagation::Extractor::get(&extractor, key).map(String::from)
}

/// `HeaderExtractor::keys` from opentelemetry-http: the name of every entry
/// of the map, each once, whether its value reads as text or not.
#[verifier::external_body]
pub(crate) fn header_keys(headers: &http::HeaderMap) -> (names: Vec<String>)
    ensures
        forall|name: Seq<char>| #[trigger]
            lists(names@, name) <==> header_sizes(*headers).contains_key(name),
        forall|name: Seq<char>| #[trigger]
            header_text(*headers).contains_key(name) ==> lists(names@, name),
        all_distinct(names@),
{
    let extractor = opentelemetry_http::HeaderExtractor(headers);
    opentelemetry::propagation::Extractor::keys(&extractor).into_iter().map(String::from).collect()
}

} // verus!
