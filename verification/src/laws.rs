//! What holds of the operations when they run against a table that keeps
//! its word.
//!
//! The table is modelled as a `Map` from key bytes to value bytes. `run`
//! plays an operation against it: each request is answered as the model
//! says, and the reply is fed back to the operation. The laws below are
//! stated of `run`, and so of every execution in which the table does not
//! fail and no other operation writes in between.

use crate::codec::{decodable, decoded, encodable, law_round_trip, record_image};
use crate::error::ServiceError;
use crate::listing::{lemma_last_match, lemma_mapping_domain, mapping_of};
use crate::record::{Location, RecordView};
use crate::service::{
    all_decodable, create_step, failed, list_step, listing_of, projection, resume_step,
    update_step, ResponseView, StepView,
};
use crate::store::{is_scan_of, key_bytes, reply_of, table_after, EntryView};
use vstd::prelude::*;

verus! {

/// The table and the step that are reached from `step` by performing at
/// most `fuel` requests on `table`.
pub open spec fn run(
    table: Map<Seq<u8>, Seq<u8>>,
    scan: Seq<EntryView>,
    step: StepView,
    fuel: nat,
) -> (Map<Seq<u8>, Seq<u8>>, StepView)
    decreases fuel,
{
    match step {
        StepView::Ask { request, pending } => if fuel == 0 {
            (table, step)
        } else {
            run(
                table_after(table, request),
                scan,
                resume_step(pending, reply_of(table, request, scan)),
                (fuel - 1) as nat,
            )
        },
        StepView::Done { .. } => (table, step),
    }
}

/// Every value in the table holds a record, and the record's id is the key
/// it is stored under.
pub open spec fn consistent(table: Map<Seq<u8>, Seq<u8>>) -> bool {
    forall|key: Seq<u8>| #[trigger]
        table.contains_key(key) ==> decodable(table[key]) && key_bytes(decoded(table[key]).id)
            == key
}

/// The step that succeeds with `record`.
pub open spec fn done_with(record: RecordView) -> StepView {
    StepView::Done { result: Ok(ResponseView::Record(record)) }
}

/// The step that succeeds with `mapping`.
pub open spec fn listed(mapping: Map<Seq<char>, Location>) -> StepView {
    StepView::Done { result: Ok(ResponseView::Listing(mapping)) }
}

/// Every operation is over after at most three requests: one for create and
/// for list, up to three for update.
pub proof fn law_operations_end(
    table: Map<Seq<u8>, Seq<u8>>,
    scan: Seq<EntryView>,
    record: RecordView,
)
    ensures
        run(table, scan, create_step(record), 1).1 is Done,
        run(table, scan, update_step(record), 3).1 is Done,
        run(table, scan, list_step(), 1).1 is Done,
{
    reveal_with_fuel(run, 4);
}

/// Create stores the image of the record under its id with one request, and
/// returns the record whole: location as given, id and secret as drawn.
pub proof fn law_create(table: Map<Seq<u8>, Seq<u8>>, scan: Seq<EntryView>, record: RecordView)
    ensures
        run(table, scan, create_step(record), 1) == (
            table.insert(key_bytes(record.id), record_image(record)),
            done_with(record),
        ),
{
    reveal_with_fuel(run, 2);
}

/// An update for an id that the table does not hold fails with `NotFound`
/// and writes nothing, whatever secret it presents.
pub proof fn law_update_unknown_id(
    table: Map<Seq<u8>, Seq<u8>>,
    scan: Seq<EntryView>,
    input: RecordView,
)
    requires
        !table.contains_key(key_bytes(input.id)),
    ensures
        run(table, scan, update_step(input), 3) == (table, failed(ServiceError::NotFound)),
{
    reveal_with_fuel(run, 4);
}

/// An update that presents another secret than the stored one fails with
/// `Unauthorized` and leaves the table as it was.
pub proof fn law_update_wrong_secret(
    table: Map<Seq<u8>, Seq<u8>>,
    scan: Seq<EntryView>,
    input: RecordView,
)
    requires
        table.contains_key(key_bytes(input.id)),
        decodable(table[key_bytes(input.id)]),
        decoded(table[key_bytes(input.id)]).secret != input.secret,
    ensures
        run(table, scan, update_step(input), 3) == (table, failed(ServiceError::Unauthorized)),
{
    reveal_with_fuel(run, 4);
}

/// An update that presents the stored secret succeeds: it replaces the
/// stored record by the submitted one and returns the submitted record.
pub proof fn law_update_right_secret(
    table: Map<Seq<u8>, Seq<u8>>,
    scan: Seq<EntryView>,
    input: RecordView,
)
    requires
        table.contains_key(key_bytes(input.id)),
        decodable(table[key_bytes(input.id)]),
        decoded(table[key_bytes(input.id)]).secret == input.secret,
    ensures
        run(table, scan, update_step(input), 3) == (
            table.insert(key_bytes(input.id), record_image(input)),
            done_with(input),
        ),
{
    reveal_with_fuel(run, 4);
}

/// An update whose stored value holds no record fails with `Decode` and
/// leaves the table as it was.
pub proof fn law_update_undecodable(
    table: Map<Seq<u8>, Seq<u8>>,
    scan: Seq<EntryView>,
    input: RecordView,
)
    requires
        table.contains_key(key_bytes(input.id)),
        !decodable(table[key_bytes(input.id)]),
    ensures
        run(table, scan, update_step(input), 3) == (table, failed(ServiceError::Decode)),
{
    reveal_with_fuel(run, 4);
}

/// Storing a record under its id keeps the table consistent.
pub proof fn law_write_keeps_consistent(table: Map<Seq<u8>, Seq<u8>>, record: RecordView)
    requires
        consistent(table),
        encodable(record),
    ensures
        consistent(table.insert(key_bytes(record.id), record_image(record))),
{
    law_round_trip(record, Seq::empty());
    assert(record_image(record) + Seq::<u8>::empty() =~= record_image(record));
}

/// Create and update keep the table consistent, however they end.
pub proof fn law_operations_keep_consistent(
    table: Map<Seq<u8>, Seq<u8>>,
    scan: Seq<EntryView>,
    record: RecordView,
)
    requires
        consistent(table),
        encodable(record),
    ensures
        consistent(run(table, scan, create_step(record), 1).0),
        consistent(run(table, scan, update_step(record), 3).0),
        run(table, scan, list_step(), 1).0 == table,
{
    reveal_with_fuel(run, 4);
    law_write_keeps_consistent(table, record);
}

/// The listing of a consistent table maps the id of each stored record to
/// that record's location, and holds no other id.
pub proof fn law_list_reflects_table(table: Map<Seq<u8>, Seq<u8>>, scan: Seq<EntryView>)
    requires
        consistent(table),
        is_scan_of(scan, table),
    ensures
        run(table, scan, list_step(), 1) == (table, listed(mapping_of(projection(scan)))),
        forall|key: Seq<u8>| #[trigger]
            table.contains_key(key) ==> {
                let record = decoded(table[key]);
                &&& mapping_of(projection(scan)).contains_key(record.id)
                &&& mapping_of(projection(scan))[record.id] == record.location
            },
        forall|id: Seq<char>| #[trigger]
            mapping_of(projection(scan)).contains_key(id) ==> table.contains_key(key_bytes(id)),
{
    reveal_with_fuel(run, 2);
    let pairs = projection(scan);
    assert(all_decodable(scan)) by {
        assert forall|i: int| 0 <= i < scan.len() implies decodable((#[trigger] scan[i]).value) by {
            assert(table.contains_key(scan[i].key));
        }
    }
    assert forall|key: Seq<u8>| #[trigger] table.contains_key(key) implies ({
        let record = decoded(table[key]);
        &&& mapping_of(pairs).contains_key(record.id)
        &&& mapping_of(pairs)[record.id] == record.location
    }) by {
        let record = decoded(table[key]);
        let at = choose|i: int| 0 <= i < scan.len() && (#[trigger] scan[i]).key == key;
        assert(pairs[at] == (record.id, record.location));
        assert forall|j: int| at < j < pairs.len() implies (#[trigger] pairs[j]).0 != record.id by {
            assert(table.contains_key(scan[j].key));
            assert(scan[at].key != scan[j].key);
        }
        lemma_last_match(pairs, at, record.id);
    }
    assert forall|id: Seq<char>| #[trigger] mapping_of(pairs).contains_key(id) implies table.contains_key(
        key_bytes(id),
    ) by {
        lemma_mapping_domain(pairs, id);
        let at = choose|i: int| 0 <= i < pairs.len() && (#[trigger] pairs[i]).0 == id;
        assert(table.contains_key(scan[at].key));
    }
}

/// After an update with the right secret, a list shows the submitted
/// location under the submitted id.
pub proof fn law_update_then_list(
    table: Map<Seq<u8>, Seq<u8>>,
    input: RecordView,
    scan: Seq<EntryView>,
)
    requires
        consistent(table),
        encodable(input),
        table.contains_key(key_bytes(input.id)),
        decoded(table[key_bytes(input.id)]).secret == input.secret,
        is_scan_of(scan, run(table, scan, update_step(input), 3).0),
    ensures
        run(table, scan, update_step(input), 3).1 == done_with(input),
        run(run(table, scan, update_step(input), 3).0, scan, list_step(), 1).1 == listed(
            mapping_of(projection(scan)),
        ),
        mapping_of(projection(scan)).contains_key(input.id),
        mapping_of(projection(scan))[input.id] == input.location,
{
    law_update_right_secret(table, scan, input);
    law_write_keeps_consistent(table, input);
    let after = table.insert(key_bytes(input.id), record_image(input));
    law_list_reflects_table(after, scan);
    assert(after.contains_key(key_bytes(input.id)));
    law_round_trip(input, Seq::empty());
    assert(record_image(input) + Seq::<u8>::empty() =~= record_image(input));
}

/// After a create, a list shows the created location under the created id.
pub proof fn law_create_then_list(
    table: Map<Seq<u8>, Seq<u8>>,
    record: RecordView,
    scan: Seq<EntryView>,
)
    requires
        consistent(table),
        encodable(record),
        is_scan_of(scan, run(table, scan, create_step(record), 1).0),
    ensures
        run(run(table, scan, create_step(record), 1).0, scan, list_step(), 1).1 == listed(
            mapping_of(projection(scan)),
        ),
        mapping_of(projection(scan)).contains_key(record.id),
        mapping_of(projection(scan))[record.id] == record.location,
{
    law_create(table, scan, record);
    law_write_keeps_consistent(table, record);
    let after = table.insert(key_bytes(record.id), record_image(record));
    law_list_reflects_table(after, scan);
    assert(after.contains_key(key_bytes(record.id)));
    law_round_trip(record, Seq::empty());
    assert(record_image(record) + Seq::<u8>::empty() =~= record_image(record));
}

/// A listing does not depend on any secret: two scans whose records agree
/// in id and location, entry by entry, give the same listing.
pub proof fn law_list_hides_secrets(a: Seq<EntryView>, b: Seq<EntryView>)
    requires
        a.len() == b.len(),
        forall|i: int|
            0 <= i < a.len() ==> {
                &&& decodable((#[trigger] a[i]).value) == decodable(b[i].value)
                &&& decoded(a[i].value).id == decoded(b[i].value).id
                &&& decoded(a[i].value).location == decoded(b[i].value).location
            },
    ensures
        listing_of(a) == listing_of(b),
{
    assert(projection(a) =~= projection(b)) by {
        assert forall|i: int| 0 <= i < a.len() implies projection(a)[i] == projection(b)[i] by {
            assert(decoded(a[i].value).id == decoded(b[i].value).id);
        }
    }
    if all_decodable(a) {
        assert forall|i: int| 0 <= i < b.len() implies decodable((#[trigger] b[i]).value) by {
            assert(decodable(a[i].value));
        }
    } else {
        let at = choose|i: int| 0 <= i < a.len() && !decodable((#[trigger] a[i]).value);
        assert(!decodable(b[at].value));
    }
}

} // verus!
