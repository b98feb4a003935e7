use location_store::error::ServiceError;
use location_store::listing::Listing;
use location_store::record::Location;

#[test]
fn new_listing_is_empty() {
    let listing = Listing::new();
    assert!(listing.items.is_empty());
    assert_eq!(listing.get(&"a".to_string()), None);
}

#[test]
fn entered_id_is_found() {
    let mut listing = Listing::new();
    listing.enter("a".to_string(), Location::new(1, 2, 3));
    listing.enter("b".to_string(), Location::new(4, 5, 6));
    assert_eq!(listing.get(&"a".to_string()), Some(Location::new(1, 2, 3)));
    assert_eq!(listing.get(&"b".to_string()), Some(Location::new(4, 5, 6)));
    assert_eq!(listing.get(&"c".to_string()), None);
}

#[test]
fn later_entry_replaces_earlier_one() {
    let mut listing = Listing::new();
    listing.enter("a".to_string(), Location::new(1, 2, 3));
    listing.enter("b".to_string(), Location::new(4, 5, 6));
    listing.enter("a".to_string(), Location::new(7, 8, 9));
    assert_eq!(listing.get(&"a".to_string()), Some(Location::new(7, 8, 9)));
    assert_eq!(listing.get(&"b".to_string()), Some(Location::new(4, 5, 6)));
}

#[test]
fn ids_are_compared_exactly() {
    let mut listing = Listing::new();
    listing.enter("abc".to_string(), Location::new(1, 2, 3));
    assert_eq!(listing.get(&"ab".to_string()), None);
    assert_eq!(listing.get(&"abcd".to_string()), None);
    assert_eq!(listing.get(&"ABC".to_string()), None);
    assert_eq!(listing.get(&"".to_string()), None);
}

#[test]
fn status_of_each_failure() {
    assert_eq!(ServiceError::NotFound.http_status(), 404);
    assert_eq!(ServiceError::Unauthorized.http_status(), 401);
    assert_eq!(ServiceError::Store.http_status(), 500);
    assert_eq!(ServiceError::Decode.http_status(), 500);
}
