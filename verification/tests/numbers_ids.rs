use item_tracker::batching::{item_url, part_heading};
use item_tracker::ids::parse_id_list;
use item_tracker::numbers::{classify_item_query, parse_u64, u64_to_dec, ItemQuery};
use item_tracker::text::str_eq;

#[test]
fn renders_decimals() {
    assert_eq!(u64_to_dec(0), "0");
    assert_eq!(u64_to_dec(7), "7");
    assert_eq!(u64_to_dec(1234567890), "1234567890");
    assert_eq!(u64_to_dec(u64::MAX), "18446744073709551615");
}

#[test]
fn parses_decimals() {
    assert_eq!(parse_u64("0"), Some(0));
    assert_eq!(parse_u64("123"), Some(123));
    assert_eq!(parse_u64("18446744073709551615"), Some(u64::MAX));
    assert_eq!(parse_u64("18446744073709551616"), None);
    assert_eq!(parse_u64(""), None);
    assert_eq!(parse_u64("12a"), None);
    assert_eq!(parse_u64("+1"), None);
    assert_eq!(parse_u64(" 1"), None);
}

#[test]
fn round_trips_decimals() {
    for n in [0u64, 9, 10, 99, 100, 4096, u64::MAX] {
        assert_eq!(parse_u64(&u64_to_dec(n)), Some(n));
    }
}

#[test]
fn classifies_item_queries() {
    match classify_item_query("123") {
        ItemQuery::ById(id) => assert_eq!(id, 123),
        ItemQuery::ByName(_) => panic!("numeric text must resolve by id"),
    }
    match classify_item_query("Iron Tools") {
        ItemQuery::ById(_) => panic!("a name must resolve by name"),
        ItemQuery::ByName(n) => assert_eq!(n, "Iron Tools"),
    }
    match classify_item_query("12 3") {
        ItemQuery::ById(_) => panic!("text with spaces must resolve by name"),
        ItemQuery::ByName(n) => assert_eq!(n, "12 3"),
    }
}

#[test]
fn splits_and_parses_id_lists() {
    assert_eq!(parse_id_list("1, 2,3"), Ok(vec![1, 2, 3]));
    assert_eq!(parse_id_list(" 42 "), Ok(vec![42]));
    assert_eq!(parse_id_list("10"), Ok(vec![10]));
    // one empty segment between the commas fails to parse
    assert_eq!(parse_id_list("1,,2"), Err(1));
    assert_eq!(parse_id_list("a,b"), Err(2));
    assert_eq!(parse_id_list(""), Err(1));
    assert_eq!(parse_id_list("5,x,7,y"), Err(2));
}

#[test]
fn builds_catalog_links() {
    assert_eq!(
        item_url(123),
        "https://steamcommunity.com/sharedfiles/filedetails/?id=123"
    );
}

#[test]
fn builds_part_headings() {
    assert_eq!(part_heading("Heading", 2, 3), "Heading\nPart 2/3");
    assert_eq!(part_heading("X", 1, 1), "X\nPart 1/1");
}

#[test]
fn compares_texts() {
    assert!(str_eq("abc", "abc"));
    assert!(!str_eq("abc", "abd"));
    assert!(!str_eq("abc", "ab"));
    assert!(str_eq("", ""));
}
