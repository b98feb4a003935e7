use location_store::error::ServiceError;
use location_store::listing::Listing;
use location_store::record::{Location, StoredRecord};
use location_store::service::{create, list, resume, update, Response, Step};
use location_store::store::{Entry, StoreReply, StoreRequest};

fn open_table() -> sled::Tree {
    let db = sled::Config::new().temporary(true).open().unwrap();
    db.open_tree("locations").unwrap()
}

fn perform(tree: &sled::Tree, request: StoreRequest) -> StoreReply {
    match request {
        StoreRequest::Exists { key } => match tree.contains_key(key.as_bytes()) {
            Ok(present) => StoreReply::Exists(present),
            Err(_) => StoreReply::Failed,
        },
        StoreRequest::Get { key } => match tree.get(key.as_bytes()) {
            Ok(Some(value)) => StoreReply::Value(value.to_vec()),
            Ok(None) => StoreReply::Missing,
            Err(_) => StoreReply::Failed,
        },
        StoreRequest::Put { key, value } => match tree.insert(key.as_bytes(), value) {
            Ok(_) => StoreReply::Stored,
            Err(_) => StoreReply::Failed,
        },
        StoreRequest::ScanAll => {
            let mut entries = Vec::new();
            for item in tree.iter() {
                match item {
                    Ok((key, value)) => {
                        entries.push(Entry { key: key.to_vec(), value: value.to_vec() })
                    }
                    Err(_) => return StoreReply::Failed,
                }
            }
            StoreReply::Entries(entries)
        }
    }
}

fn drive(tree: &sled::Tree, first: Step) -> Result<Response, ServiceError> {
    let mut step = first;
    loop {
        match step {
            Step::Ask { request, pending } => {
                let reply = perform(tree, request);
                step = resume(pending, reply);
            }
            Step::Done { result } => return result,
        }
    }
}

fn created(tree: &sled::Tree, location: Location) -> StoredRecord {
    match drive(tree, create(location)) {
        Ok(Response::Record(record)) => record,
        other => panic!("create ended in {:?}", other),
    }
}

fn listed(tree: &sled::Tree) -> Listing {
    match drive(tree, list()) {
        Ok(Response::Listing(listing)) => listing,
        other => panic!("list ended in {:?}", other),
    }
}

fn at(lat: f64, lon: f64, time: u64) -> Location {
    Location::new(lat.to_bits(), lon.to_bits(), time)
}

#[test]
fn sled_create_list_update_list() {
    let tree = open_table();
    let record = created(&tree, at(10.0, 20.0, 100));
    assert_eq!(record.location, at(10.0, 20.0, 100));

    let listing = listed(&tree);
    assert_eq!(listing.items.len(), 1);
    assert_eq!(listing.get(&record.id), Some(at(10.0, 20.0, 100)));

    let input = StoredRecord::new(record.id.clone(), record.secret.clone(), at(11.0, 20.0, 200));
    assert_eq!(drive(&tree, update(input.clone())), Ok(Response::Record(input)));

    let listing = listed(&tree);
    assert_eq!(listing.items.len(), 1);
    assert_eq!(listing.get(&record.id), Some(at(11.0, 20.0, 200)));
}

#[test]
fn sled_update_is_refused_without_the_secret() {
    let tree = open_table();
    let record = created(&tree, at(1.0, 2.0, 3));
    let stored = tree.get(record.id.as_bytes()).unwrap();

    let input = StoredRecord::new(record.id.clone(), "guess".to_string(), at(4.0, 5.0, 6));
    assert_eq!(drive(&tree, update(input)), Err(ServiceError::Unauthorized));
    assert_eq!(tree.get(record.id.as_bytes()).unwrap(), stored);

    let input = StoredRecord::new("unknown".to_string(), record.secret.clone(), at(4.0, 5.0, 6));
    assert_eq!(drive(&tree, update(input)), Err(ServiceError::NotFound));
    assert_eq!(tree.len(), 1);
    assert_eq!(listed(&tree).get(&record.id), Some(at(1.0, 2.0, 3)));
}

#[test]
fn sled_lists_many_records() {
    let tree = open_table();
    let mut records: Vec<StoredRecord> = Vec::new();
    for i in 0..20u64 {
        records.push(created(&tree, at(i as f64, -(i as f64), i)));
    }
    let listing = listed(&tree);
    assert_eq!(listing.items.len(), 20);
    for record in &records {
        assert_eq!(listing.get(&record.id), Some(record.location));
    }
}
