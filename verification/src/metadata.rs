//! gRPC metadata as a carrier. Its text entries are written and read; its
//! binary entries, under keys that end in `-bin`, are left alone.

use vstd::prelude::*;
use crate::carrier::{
    after_set, held, lemma_plain_key_header_slot, metadata_slot, room_left, sure_capacity,
    value_storable, Carrier, Extractor, Injector,
};
use crate::headers::{
    header_count, header_get, header_insert, header_keys, header_sizes, header_text,
};

verus! {

/// `MetadataMap` from tonic: the metadata of a gRPC request, a header map
/// under another name.
#[verifier::external_type_specification]
#[verifier::external_body]
pub struct ExMetadataMap(tonic::metadata::MetadataMap);

/// The text entries of gRPC metadata: those of the header map inside it.
pub uninterp spec fn metadata_text(metadata: tonic::metadata::MetadataMap) -> Map<
    Seq<char>,
    Seq<char>,
>;

/// The number of values that the metadata holds (`MetadataMap::len`).
pub uninterp spec fn metadata_count(metadata: tonic::metadata::MetadataMap) -> nat;

/// The names that the metadata holds, each with the number of values under
/// it: those of the header map inside it.
pub uninterp spec fn metadata_sizes(metadata: tonic::metadata::MetadataMap) -> Map<
    Seq<char>,
    nat,
>;

/// The rule by which the metadata of a gRPC request takes a text entry.
#[derive(Clone, Copy, Debug)]
pub struct MetadataInjector;

impl MetadataInjector {
    /// Stores the value, in place of every value under the key, where the key
    /// is a text metadata key and the value a metadata value, and says whether
    /// it did. The name then holds this one value. An entry that the metadata
    /// cannot hold is skipped, and the metadata is then untouched.
    pub fn set(metadata: &mut tonic::metadata::MetadataMap, key: &str, value: String) -> (stored:
        bool)
        ensures
            stored ==> metadata_slot(key@) is Some && value_storable(value@),
            stored ==> metadata_text(*final(metadata)) == after_set(
                metadata_text(*old(metadata)),
                metadata_slot(key@).unwrap(),
                value@,
            ),
            stored ==> metadata_sizes(*final(metadata)) == metadata_sizes(*old(metadata)).insert(
                metadata_slot(key@).unwrap(),
                1,
            ),
            stored ==> metadata_count(*final(metadata)) + held(
                metadata_sizes(*old(metadata)),
                metadata_slot(key@).unwrap(),
            ) == metadata_count(*old(metadata)) + 1,
            !stored ==> metadata_text(*final(metadata)) == metadata_text(*old(metadata)),
            !stored ==> metadata_sizes(*final(metadata)) == metadata_sizes(*old(metadata)),
            !stored ==> metadata_count(*final(metadata)) == metadata_count(*old(metadata)),
            metadata_slot(key@) is None || !value_storable(value@) ==> *final(metadata) == *old(
                metadata,
            ),
            metadata_count(*old(metadata)) < sure_capacity() && metadata_slot(key@) is Some
                && value_storable(value@) ==> stored,
    {
        if metadata_key_accepted(key) {
            let headers = metadata_headers_mut(metadata);
            header_insert(headers, key, value.as_str())
        } else {
            false
        }
    }
}

impl Carrier for tonic::metadata::MetadataMap {
    open spec fn entries(&self) -> Map<Seq<char>, Seq<char>> {
        metadata_text(*self)
    }

    open spec fn sizes(&self) -> Map<Seq<char>, nat> {
        metadata_sizes(*self)
    }

    open spec fn count(&self) -> nat {
        metadata_count(*self)
    }

    open spec fn slot(key: Seq<char>) -> Option<Seq<char>> {
        metadata_slot(key)
    }

    open spec fn room(&self) -> nat {
        room_left(metadata_count(*self))
    }

    proof fn plain_key_slot(key: Seq<char>) {
        lemma_plain_key_header_slot(key);
    }
}

impl Injector for tonic::metadata::MetadataMap {
    fn set(&mut self, key: &str, value: String) -> (stored: bool) {
        MetadataInjector::set(self, key, value)
    }
}

impl Extractor for tonic::metadata::MetadataMap {
    /// The text stored under a text metadata key. A binary key has no text.
    fn get(&self, key: &str) -> (value: Option<String>) {
        if metadata_key_accepted(key) {
            header_get(metadata_headers(self), key)
        } else {
            None
        }
    }

    fn keys(&self) -> (names: Vec<String>) {
        header_keys(metadata_headers(self))
    }
}

/// `MetadataKey::<Ascii>::from_str` from tonic: accepts a key that is a header
/// name and whose normal form does not end in `-bin`.
#[verifier::external_body]
fn metadata_key_accepted(key: &str) -> (accepted: bool)
    ensures
        accepted == (metadata_slot(key@) is Some),
{
    <tonic::metadata::AsciiMetadataKey as std::str::FromStr>::from_str(key).is_ok()
}

/// `AsRef::<http::HeaderMap>::as_ref` from tonic: the header map inside the
/// metadata, which holds its entries.
#[verifier::external_body]
fn metadata_headers(metadata: &tonic::metadata::MetadataMap) -> (headers: &http::HeaderMap)
    ensures
        header_text(*headers) == metadata_text(*metadata),
        header_count(*headers) == metadata_count(*metadata),
        header_sizes(*headers) == metadata_sizes(*metadata),
{
    metadata.as_ref()
}

/// `AsMut::<http::HeaderMap>::as_mut` from tonic: the header map inside the
/// metadata, to be changed in place. What the header map ends up holding is
/// what the metadata holds, and where the header map is not touched the
/// metadata is not.
#[verifier::external_body]
fn metadata_headers_mut(metadata: &mut tonic::metadata::MetadataMap) -> (headers:
    &mut http::HeaderMap)
    ensures
        header_text(*headers) == metadata_text(*old(metadata)),
        header_count(*headers) == metadata_count(*old(metadata)),
        header_sizes(*headers) == metadata_sizes(*old(metadata)),
        metadata_text(*final(metadata)) == header_text(*final(headers)),
        metadata_count(*final(metadata)) == header_count(*final(headers)),
        metadata_sizes(*final(metadata)) == header_sizes(*final(headers)),
        *final(headers) == *headers ==> *final(metadata) == *old(metadata),
{
    metadata.as_mut()
}

} // verus!
