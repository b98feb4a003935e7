//! The three operations on records: create, update and list.
//!
//! Each operation is a short conversation with the key-value table. A
//! function that starts an operation returns a `Step`: either a request for
//! the table together with what is pending, or the operation's result.
//! Whoever runs the operation performs the request and calls `resume` with
//! the reply, until the step is `Done`. The service keeps nothing between
//! steps: the authoritative copy of every record is the one in the table.
//!
//! The right to update a record is proven by presenting the secret that was
//! stored when the record was created. The secret is returned once, by the
//! create operation, and by nothing else.

use crate::codec::{decodable, decode, decoded, encodable, encode, record_image, record_of};
use crate::error::ServiceError;
use crate::listing::{mapping_of, Listing};
use crate::record::{Location, RecordView, StoredRecord};
use crate::store::{
    entry_views, Entry, EntryView, ReplyView, RequestView, StoreReply, StoreRequest,
};
use crate::token::{is_token, lemma_token_bytes, uuid_v4_text};
use vstd::prelude::*;

verus! {

/// What an operation is waiting for.
#[derive(Debug, PartialEq, Eq)]
pub enum Pending {
    /// A create waits for its record to be stored.
    Create { record: StoredRecord },
    /// An update waits to learn whether its id is known.
    UpdateProbe { input: StoredRecord },
    /// An update waits for the record stored under its id.
    UpdateFetch { input: StoredRecord },
    /// An update waits for its record to be stored.
    UpdateWrite { input: StoredRecord },
    /// A list waits for the entries of the table.
    List,
}

/// What a `Pending` is, mathematically.
pub enum PendingView {
    Create { record: RecordView },
    UpdateProbe { input: RecordView },
    UpdateFetch { input: RecordView },
    UpdateWrite { input: RecordView },
    List,
}

impl View for Pending {
    type V = PendingView;

    open spec fn view(&self) -> PendingView {
        match self {
            Pending::Create { record } => PendingView::Create { record: record@ },
            Pending::UpdateProbe { input } => PendingView::UpdateProbe { input: input@ },
            Pending::UpdateFetch { input } => PendingView::UpdateFetch { input: input@ },
            Pending::UpdateWrite { input } => PendingView::UpdateWrite { input: input@ },
            Pending::List => PendingView::List,
        }
    }
}

impl PendingView {
    /// A record that is still to be written fits in one allocation.
    pub open spec fn resumable(self) -> bool {
        match self {
            PendingView::UpdateProbe { input } => encodable(input),
            PendingView::UpdateFetch { input } => encodable(input),
            _ => true,
        }
    }
}

/// What a finished operation hands back.
#[derive(Debug, PartialEq, Eq)]
pub enum Response {
    /// From create and update: the record as it is now stored, secret
    /// included.
    Record(StoredRecord),
    /// From list: every id with its observation.
    Listing(Listing),
}

/// What a `Response` is, mathematically.
pub enum ResponseView {
    Record(RecordView),
    Listing(Map<Seq<char>, Location>),
}

impl View for Response {
    type V = ResponseView;

    open spec fn view(&self) -> ResponseView {
        match self {
            Response::Record(record) => ResponseView::Record(record@),
            Response::Listing(listing) => ResponseView::Listing(listing@),
        }
    }
}

/// The view of an operation's result.
pub open spec fn result_view(result: Result<Response, ServiceError>) -> Result<
    ResponseView,
    ServiceError,
> {
    match result {
        Ok(response) => Ok(response@),
        Err(error) => Err(error),
    }
}

/// Where an operation stands.
#[derive(Debug, PartialEq, Eq)]
pub enum Step {
    /// Perform `request` on the table, then call `resume` with `pending` and
    /// the reply.
    Ask { request: StoreRequest, pending: Pending },
    /// The operation is over.
    Done { result: Result<Response, ServiceError> },
}

/// What a `Step` is, mathematically.
pub enum StepView {
    Ask { request: RequestView, pending: PendingView },
    Done { result: Result<ResponseView, ServiceError> },
}

impl View for Step {
    type V = StepView;

    open spec fn view(&self) -> StepView {
        match self {
            Step::Ask { request, pending } => StepView::Ask {
                request: request@,
                pending: pending@,
            },
            Step::Done { result } => StepView::Done { result: result_view(*result) },
        }
    }
}

impl StepView {
    /// What is pending after this step can be resumed.
    pub open spec fn resumable(self) -> bool {
        self matches StepView::Ask { pending, .. } ==> pending.resumable()
    }
}

/// The step that fails with `error`.
pub open spec fn failed(error: ServiceError) -> StepView {
    StepView::Done { result: Err(error) }
}

/// The first step of creating `record`: store its image under its id.
pub open spec fn create_step(record: RecordView) -> StepView {
    StepView::Ask {
        request: RequestView::Put { key: record.id, value: record_image(record) },
        pending: PendingView::Create { record },
    }
}

/// The first step of an update: ask whether the id is known.
pub open spec fn update_step(input: RecordView) -> StepView {
    StepView::Ask {
        request: RequestView::Exists { key: input.id },
        pending: PendingView::UpdateProbe { input },
    }
}

/// The first step of a list: ask for every entry.
pub open spec fn list_step() -> StepView {
    StepView::Ask { request: RequestView::ScanAll, pending: PendingView::List }
}

/// Whether `input` may replace the record held in `stored`.
///
/// The stored bytes must hold a record, and the secret presented with
/// `input` must be that record's secret, character for character.
pub open spec fn authorization(stored: Seq<u8>, input: RecordView) -> Result<(), ServiceError> {
    if !decodable(stored) {
        Err(ServiceError::Decode)
    } else if decoded(stored).secret != input.secret {
        Err(ServiceError::Unauthorized)
    } else {
        Ok(())
    }
}

/// Every entry's value holds a record.
pub open spec fn all_decodable(entries: Seq<EntryView>) -> bool {
    forall|i: int| 0 <= i < entries.len() ==> decodable((#[trigger] entries[i]).value)
}

/// The id and observation of the record in each entry; the secret is left
/// behind.
pub open spec fn projection(entries: Seq<EntryView>) -> Seq<(Seq<char>, Location)> {
    Seq::new(
        entries.len(),
        |i: int| (decoded(entries[i].value).id, decoded(entries[i].value).location),
    )
}

/// The listing of a scan: the projection as a mapping, or a `Decode` failure
/// where some value holds no record.
pub open spec fn listing_of(entries: Seq<EntryView>) -> Result<
    Map<Seq<char>, Location>,
    ServiceError,
> {
    if all_decodable(entries) {
        Ok(mapping_of(projection(entries)))
    } else {
        Err(ServiceError::Decode)
    }
}

/// The step that follows `pending` once the table has replied.
///
/// A reply of `Failed`, or of a kind that does not answer the request, ends
/// the operation with a `Store` failure.
pub open spec fn resume_step(pending: PendingView, reply: ReplyView) -> StepView {
    match pending {
        PendingView::Create { record } => match reply {
            ReplyView::Stored => StepView::Done { result: Ok(ResponseView::Record(record)) },
            _ => failed(ServiceError::Store),
        },
        PendingView::UpdateProbe { input } => match reply {
            ReplyView::Exists(present) => if present {
                StepView::Ask {
                    request: RequestView::Get { key: input.id },
                    pending: PendingView::UpdateFetch { input },
                }
            } else {
                failed(ServiceError::NotFound)
            },
            _ => failed(ServiceError::Store),
        },
        PendingView::UpdateFetch { input } => match reply {
            ReplyView::Value(stored) => match authorization(stored, input) {
                Ok(_) => StepView::Ask {
                    request: RequestView::Put { key: input.id, value: record_image(input) },
                    pending: PendingView::UpdateWrite { input },
                },
                Err(error) => failed(error),
            },
            ReplyView::Missing => failed(ServiceError::NotFound),
            _ => failed(ServiceError::Store),
        },
        PendingView::UpdateWrite { input } => match reply {
            ReplyView::Stored => StepView::Done { result: Ok(ResponseView::Record(input)) },
            _ => failed(ServiceError::Store),
        },
        PendingView::List => match reply {
            ReplyView::Entries(entries) => match listing_of(entries) {
                Ok(mapping) => StepView::Done { result: Ok(ResponseView::Listing(mapping)) },
                Err(error) => failed(error),
            },
            _ => failed(ServiceError::Store),
        },
    }
}

/// The record that a create step is about to store.
pub open spec fn created(step: StepView) -> RecordView {
    match step {
        StepView::Ask { pending: PendingView::Create { record }, .. } => record,
        _ => arbitrary(),
    }
}

/// Starts the creation of a record for `location` under the given id and
/// secret.
pub fn create_with(location: Location, id: String, secret: String) -> (step: Step)
    requires
        encodable(record_of(id@, secret@, location.lat_bits, location.lon_bits, location.time)),
    ensures
        step@ == create_step(
            record_of(id@, secret@, location.lat_bits, location.lon_bits, location.time),
        ),
        step@.resumable(),
{
    let key = id.clone();
    let record = StoredRecord { id, secret, location };
    let value = encode(&record);
    Step::Ask { request: StoreRequest::Put { key, value }, pending: Pending::Create { record } }
}

/// Starts the creation of a record for `location`.
///
/// The id and the secret are two tokens drawn independently at random. The
/// record goes to the table under its id, and comes back in full, secret
/// included, when the table has stored it.
pub fn create(location: Location) -> (step: Step)
    ensures
        step@ == create_step(created(step@)),
        created(step@).location == location,
        is_token(created(step@).id),
        is_token(created(step@).secret),
        step@.resumable(),
{
    let id = uuid_v4_text();
    let secret = uuid_v4_text();
    proof {
        lemma_token_bytes(id@);
        lemma_token_bytes(secret@);
    }
    create_with(location, id, secret)
}

/// Starts the update that replaces the record stored under `input.id` by
/// `input`, provided that `input.secret` is the stored secret.
///
/// The update first asks whether the id is known and fails with `NotFound`
/// if it is not; then reads the stored record and fails with `Unauthorized`
/// if the secrets differ; only then writes. Nothing is written before the
/// secret has been checked. The two failures tell a caller who guesses an
/// id whether that id exists.
pub fn update(input: StoredRecord) -> (step: Step)
    requires
        encodable(input@),
    ensures
        step@ == update_step(input@),
        step@.resumable(),
{
    let key = input.id.clone();
    Step::Ask { request: StoreRequest::Exists { key }, pending: Pending::UpdateProbe { input } }
}

/// Starts the listing of every record.
pub fn list() -> (step: Step)
    ensures
        step@ == list_step(),
        step@.resumable(),
{
    Step::Ask { request: StoreRequest::ScanAll, pending: Pending::List }
}

/// Decides whether `input` may replace the record held in `stored`.
pub fn authorize(stored: &[u8], input: &StoredRecord) -> (verdict: Result<(), ServiceError>)
    ensures
        verdict == authorization(stored@, input@),
{
    match decode(stored) {
        Ok(current) => {
            if current.secret == input.secret {
                Ok(())
            } else {
                Err(ServiceError::Unauthorized)
            }
        },
        Err(error) => Err(error),
    }
}

/// Projects the entries of a scan to the mapping from id to observation.
///
/// Each value is decoded, and the record's id is mapped to its location;
/// the keys of the entries are not consulted, and no secret is carried
/// over. Where two records have the same id, the later entry counts. The
/// result is a `Decode` failure if any value holds no record.
pub fn project(entries: &Vec<Entry>) -> (result: Result<Listing, ServiceError>)
    ensures
        match result {
            Ok(listing) => listing_of(entry_views(entries@)) == Ok::<_, ServiceError>(listing@),
            Err(error) => listing_of(entry_views(entries@)) == Err::<Map<Seq<char>, Location>, _>(
                error,
            ),
        },
{
    let ghost views = entry_views(entries@);
    let mut listing = Listing::new();
    let mut i: usize = 0;
    while i < entries.len()
        invariant
            i <= entries.len(),
            views == entry_views(entries@),
            all_decodable(views.take(i as int)),
            listing@ == mapping_of(projection(views.take(i as int))),
        decreases entries.len() - i,
    {
        match decode(entries[i].value.as_slice()) {
            Ok(record) => {
                let StoredRecord { id, secret: _, location } = record;
                listing.enter(id, location);
                proof {
                    let before = views.take(i as int);
                    let after = views.take(i + 1);
                    assert(views[i as int] == entries[i as int]@);
                    assert(after[i as int] == views[i as int]);
                    assert(after.drop_last() =~= before);
                    assert(projection(after).drop_last() =~= projection(before));
                    assert forall|j: int| 0 <= j < after.len() implies decodable(
                        (#[trigger] after[j]).value,
                    ) by {
                        if j < i {
                            assert(after[j] == before[j]);
                        }
                    }
                }
            },
            Err(error) => {
                proof {
                    assert(views[i as int] == entries[i as int]@);
                    assert(!decodable(views[i as int].value));
                }
                return Err(error);
            },
        }
        i = i + 1;
    }
    proof {
        assert(views.take(i as int) =~= views);
    }
    Ok(listing)
}

/// Continues an operation with the table's reply to its last request.
///
/// The step that follows is the one that `resume_step` names: the next
/// request, or the result. A failure of the table is passed on as `Store`
/// and ends the operation; nothing is retried.
pub fn resume(pending: Pending, reply: StoreReply) -> (step: Step)
    requires
        pending@.resumable(),
    ensures
        step@ == resume_step(pending@, reply@),
        step@.resumable(),
{
    match pending {
        Pending::Create { record } => match reply {
            StoreReply::Stored => Step::Done { result: Ok(Response::Record(record)) },
            _ => Step::Done { result: Err(ServiceError::Store) },
        },
        Pending::UpdateProbe { input } => match reply {
            StoreReply::Exists(present) => {
                if present {
                    let key = input.id.clone();
                    Step::Ask {
                        request: StoreRequest::Get { key },
                        pending: Pending::UpdateFetch { input },
                    }
                } else {
                    Step::Done { result: Err(ServiceError::NotFound) }
                }
            },
            _ => Step::Done { result: Err(ServiceError::Store) },
        },
        Pending::UpdateFetch { input } => match reply {
            StoreReply::Value(stored) => match authorize(stored.as_slice(), &input) {
                Ok(_) => {
                    let key = input.id.clone();
                    let value = encode(&input);
                    Step::Ask {
                        request: StoreRequest::Put { key, value },
                        pending: Pending::UpdateWrite { input },
                    }
                },
                Err(error) => Step::Done { result: Err(error) },
            },
            StoreReply::Missing => Step::Done { result: Err(ServiceError::NotFound) },
            _ => Step::Done { result: Err(ServiceError::Store) },
        },
        Pending::UpdateWrite { input } => match reply {
            StoreReply::Stored => Step::Done { result: Ok(Response::Record(input)) },
            _ => Step::Done { result: Err(ServiceError::Store) },
        },
        Pending::List => match reply {
            StoreReply::Entries(entries) => match project(&entries) {
                Ok(listing) => Step::Done { result: Ok(Response::Listing(listing)) },
                Err(error) => Step::Done { result: Err(error) },
            },
            _ => Step::Done { result: Err(ServiceError::Store) },
        },
    }
}

} // verus!
