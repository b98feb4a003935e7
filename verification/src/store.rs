//! What the service asks of the key-value table, and what the table answers.
//!
//! The table is an ordered, durable map from byte strings to byte strings
//! that lives outside this crate. The service never calls it: an operation
//! names a `StoreRequest`, whoever runs the operation performs it on the
//! table, and hands back a `StoreReply`. This module holds the two types and
//! the model against which the service's laws are stated: the table as a
//! `Map`, and what a table that keeps its word replies to each request.
//!
//! A scan need not be a snapshot of the table at one instant, and nothing
//! here makes a request and the requests after it atomic: two operations
//! on one id that run at the same time race, and the last `Put` wins.

use vstd::prelude::*;
use vstd::utf8::encode_utf8;

verus! {

/// One entry of the table, as a scan yields it.
#[derive(Clone, Debug, PartialEq, Eq)]
pub struct Entry {
    pub key: Vec<u8>,
    pub value: Vec<u8>,
}

/// What an `Entry` is, mathematically.
pub struct EntryView {
    pub key: Seq<u8>,
    pub value: Seq<u8>,
}

impl View for Entry {
    type V = EntryView;

    open spec fn view(&self) -> EntryView {
        EntryView { key: self.key@, value: self.value@ }
    }
}

/// The views of a sequence of entries.
pub open spec fn entry_views(entries: Seq<Entry>) -> Seq<EntryView> {
    Seq::new(entries.len(), |i: int| entries[i]@)
}

/// A request to the table.
#[derive(Clone, Debug, PartialEq, Eq)]
pub enum StoreRequest {
    /// Is there a value under `key`?
    Exists { key: String },
    /// The value under `key`.
    Get { key: String },
    /// Store `value` under `key`, replacing any value that was there.
    Put { key: String, value: Vec<u8> },
    /// Every entry of the table, each key once.
    ScanAll,
}

/// What a `StoreRequest` is, mathematically.
pub enum RequestView {
    Exists { key: Seq<char> },
    Get { key: Seq<char> },
    Put { key: Seq<char>, value: Seq<u8> },
    ScanAll,
}

impl View for StoreRequest {
    type V = RequestView;

    open spec fn view(&self) -> RequestView {
        match self {
            StoreRequest::Exists { key } => RequestView::Exists { key: key@ },
            StoreRequest::Get { key } => RequestView::Get { key: key@ },
            StoreRequest::Put { key, value } => RequestView::Put { key: key@, value: value@ },
            StoreRequest::ScanAll => RequestView::ScanAll,
        }
    }
}

/// The table's reply to a request.
#[derive(Clone, Debug, PartialEq, Eq)]
pub enum StoreReply {
    /// To `Exists`: whether the key is present.
    Exists(bool),
    /// To `Get`: the value under the key.
    Value(Vec<u8>),
    /// To `Get`: the key is not present.
    Missing,
    /// To `Put`: the value is stored.
    Stored,
    /// To `ScanAll`: the entries.
    Entries(Vec<Entry>),
    /// To any request: the table failed.
    Failed,
}

/// What a `StoreReply` is, mathematically.
pub enum ReplyView {
    Exists(bool),
    Value(Seq<u8>),
    Missing,
    Stored,
    Entries(Seq<EntryView>),
    Failed,
}

impl View for StoreReply {
    type V = ReplyView;

    open spec fn view(&self) -> ReplyView {
        match self {
            StoreReply::Exists(present) => ReplyView::Exists(*present),
            StoreReply::Value(value) => ReplyView::Value(value@),
            StoreReply::Missing => ReplyView::Missing,
            StoreReply::Stored => ReplyView::Stored,
            StoreReply::Entries(entries) => ReplyView::Entries(entry_views(entries@)),
            StoreReply::Failed => ReplyView::Failed,
        }
    }
}

/// The table key of a record id: its UTF-8 bytes.
pub open spec fn key_bytes(key: Seq<char>) -> Seq<u8> {
    encode_utf8(key)
}

/// The table after a request has been performed on it. Only `Put` changes
/// the table.
pub open spec fn table_after(table: Map<Seq<u8>, Seq<u8>>, request: RequestView) -> Map<
    Seq<u8>,
    Seq<u8>,
> {
    match request {
        RequestView::Put { key, value } => table.insert(key_bytes(key), value),
        _ => table,
    }
}

/// `entries` lists the table: every entry is in the table, every key of the
/// table occurs, and none occurs twice. The order is left open.
pub open spec fn is_scan_of(entries: Seq<EntryView>, table: Map<Seq<u8>, Seq<u8>>) -> bool {
    &&& forall|i: int|
        0 <= i < entries.len() ==> table.contains_key((#[trigger] entries[i]).key)
            && table[entries[i].key] == entries[i].value
    &&& forall|i: int, j: int|
        0 <= i < j < entries.len() ==> (#[trigger] entries[i]).key != (#[trigger] entries[j]).key
    &&& forall|key: Seq<u8>| #[trigger]
        table.contains_key(key) ==> exists|i: int|
            0 <= i < entries.len() && (#[trigger] entries[i]).key == key
}

/// What a table that holds `table` and does not fail replies to `request`,
/// where `scan` is how it lists its entries.
pub open spec fn reply_of(
    table: Map<Seq<u8>, Seq<u8>>,
    request: RequestView,
    scan: Seq<EntryView>,
) -> ReplyView {
    match request {
        RequestView::Exists { key } => ReplyView::Exists(table.contains_key(key_bytes(key))),
        RequestView::Get { key } => if table.contains_key(key_bytes(key)) {
            ReplyView::Value(table[key_bytes(key)])
        } else {
            ReplyView::Missing
        },
        RequestView::Put { key, value } => ReplyView::Stored,
        RequestView::ScanAll => ReplyView::Entries(scan),
    }
}

} // verus!
