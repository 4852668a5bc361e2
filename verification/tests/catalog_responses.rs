use item_tracker::catalog::{collection_ids_from_response, snapshot_from_response};
use item_tracker::errors::CatalogError;

#[test]
fn reads_a_full_snapshot() {
    let body = r#"{"response":{"publishedfiledetails":[{"title":"Iron Tools","time_updated":1700000000,"preview_url":"https://example.com/p.png"}]}}"#;
    let info = snapshot_from_response(77, body).unwrap();
    assert_eq!(info.id, 77);
    assert_eq!(info.name, "Iron Tools");
    assert_eq!(info.last_updated, 1700000000);
    assert_eq!(info.preview_url.as_deref(), Some("https://example.com/p.png"));
}

#[test]
fn falls_back_to_creation_time() {
    let body = r#"{"response":{"publishedfiledetails":[{"title":"New Mod","time_created":1600000000}]}}"#;
    let info = snapshot_from_response(5, body).unwrap();
    assert_eq!(info.last_updated, 1600000000);
    assert_eq!(info.preview_url, None);
}

#[test]
fn rejects_bodies_that_are_not_json() {
    let r = snapshot_from_response(5, "not json at all");
    assert_eq!(r.unwrap_err(), CatalogError::MalformedResponse);
}

#[test]
fn rejects_unusable_timestamps() {
    let body = r#"{"response":{"publishedfiledetails":[{"title":"X","time_created":"soon"}]}}"#;
    let r = snapshot_from_response(5, body);
    assert_eq!(r.unwrap_err(), CatalogError::BadTimestamp);
    assert_eq!(
        CatalogError::BadTimestamp.message(),
        "Catalog response carries no usable timestamp"
    );
}

#[test]
fn reads_collection_member_ids() {
    let body = r#"{"response":{"collectiondetails":[{"children":[{"publishedfileid":"111"},{"publishedfileid":"222"},{"publishedfileid":"333"}]}]}}"#;
    assert_eq!(collection_ids_from_response(body), Ok(vec![111, 222, 333]));
}

#[test]
fn empty_collection_reads_as_no_ids() {
    let body = r#"{"response":{"collectiondetails":[{"children":[]}]}}"#;
    assert_eq!(collection_ids_from_response(body), Ok(vec![]));
}

#[test]
fn rejects_members_without_textual_ids() {
    // the member id is a number, not a string: no textual id to read
    let body = r#"{"response":{"collectiondetails":[{"children":[{"publishedfileid":111}]}]}}"#;
    let r = collection_ids_from_response(body);
    assert_eq!(r.unwrap_err(), CatalogError::MissingChildId);
    assert_eq!(CatalogError::MissingChildId.message(), "No member id");
}

#[test]
fn rejects_member_ids_that_are_not_decimals() {
    let body = r#"{"response":{"collectiondetails":[{"children":[{"publishedfileid":"12x"}]}]}}"#;
    let r = collection_ids_from_response(body);
    assert_eq!(r.unwrap_err(), CatalogError::BadChildId);
}

#[test]
fn rejects_collection_bodies_that_are_not_json() {
    let r = collection_ids_from_response("{broken");
    assert_eq!(r.unwrap_err(), CatalogError::MalformedResponse);
}
