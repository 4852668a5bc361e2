use item_tracker::batching::{build_messages, chunk_entries, entries_to_embeds, item_to_embed};
use item_tracker::dates::{changes_since, since_from_text, validate_since};
use item_tracker::errors::DateError;
use item_tracker::item::{ItemInfo, ReportEntry, Subscription};
use item_tracker::listing::build_list_texts;

fn info(id: u64, name: &str, updated: u64) -> ItemInfo {
    ItemInfo { id, name: name.to_string(), last_updated: updated, preview_url: None }
}

fn sub(last: u64, item: ItemInfo) -> Subscription {
    Subscription { last_notified_at: last, item, note: None }
}

fn entry(id: u64, name: &str) -> ReportEntry {
    ReportEntry { item: info(id, name, 1), note: None }
}

#[test]
fn validates_parsed_timestamps() {
    assert_eq!(validate_since(None, 1000), Err(DateError::Unparsable));
    assert_eq!(validate_since(Some(-5), 1000), Err(DateError::TooOld));
    assert_eq!(validate_since(Some(2000), 1000), Err(DateError::InFuture));
    assert_eq!(validate_since(Some(500), 1000), Ok(500));
    assert_eq!(validate_since(Some(1000), 1000), Ok(1000));
}

#[test]
fn reads_dates_into_past_timestamps() {
    let now = 4_000_000_000u64;
    let r = since_from_text("2021-01-01 12:00:00", now);
    let ts = r.expect("a plain date must parse");
    assert!(ts <= now);
    // 2021 lies between these two well-known instants
    assert!(ts > 1_577_836_800); // start of 2020
    assert!(ts < 1_672_531_200); // start of 2023
    assert_eq!(since_from_text("certainly not a date", now), Err(DateError::Unparsable));
}

#[test]
fn filters_changes_after_the_mark() {
    let subs = vec![
        sub(10, info(1, "a", 0)),
        sub(20, info(2, "b", 0)),
        sub(15, info(3, "c", 0)),
    ];
    let r = changes_since(&subs, 15);
    assert_eq!(r.len(), 1);
    assert_eq!(r[0].item.id, 2);
    let all = changes_since(&subs, 5);
    assert_eq!(all.len(), 3);
}

#[test]
fn lists_an_empty_subscription_set() {
    let subs: Vec<Subscription> = vec![];
    let texts = build_list_texts(&subs);
    assert_eq!(texts, vec!["There are no tracked items.".to_string()]);
}

#[test]
fn lists_a_short_subscription_set_in_one_text() {
    let subs = vec![sub(0, info(1, "Alpha", 0)), sub(0, info(2, "Beta", 0))];
    let texts = build_list_texts(&subs);
    assert_eq!(texts.len(), 1);
    assert_eq!(
        texts[0],
        "Currently tracked items: \nAlpha: <https://steamcommunity.com/sharedfiles/filedetails/?id=1>, \nBeta: <https://steamcommunity.com/sharedfiles/filedetails/?id=2>"
    );
}

#[test]
fn lists_a_long_subscription_set_in_parts() {
    let mut subs = Vec::new();
    for k in 0..12u64 {
        subs.push(sub(0, info(k, &format!("m{}", k), 0)));
    }
    let texts = build_list_texts(&subs);
    assert_eq!(texts.len(), 2);
    assert!(texts[0].starts_with("Currently tracked items (part 1 of 2): "));
    assert!(texts[1].starts_with("Currently tracked items (part 2 of 2): "));
    assert!(texts[0].contains("\nm0: <"));
    assert!(texts[0].contains("\nm9: <"));
    assert!(!texts[0].contains("\nm10: <"));
    assert!(texts[1].contains("\nm10: <"));
    assert!(texts[1].contains("\nm11: <"));
}

#[test]
fn renders_embeds_with_notes_and_previews() {
    let e = ReportEntry {
        item: ItemInfo {
            id: 4,
            name: "Gamma".to_string(),
            last_updated: 9,
            preview_url: Some("https://example.com/g.png".to_string()),
        },
        note: Some("my note".to_string()),
    };
    let em = item_to_embed(&e);
    assert_eq!(em.title, "Gamma");
    assert_eq!(em.url, "https://steamcommunity.com/sharedfiles/filedetails/?id=4");
    assert_eq!(em.image.as_deref(), Some("https://example.com/g.png"));
    assert_eq!(em.footer.as_deref(), Some("Note: my note"));
    let bare = item_to_embed(&entry(5, "Delta"));
    assert_eq!(bare.image, None);
    assert_eq!(bare.footer, None);
}

#[test]
fn chunks_preserve_order_and_sizes() {
    let entries: Vec<ReportEntry> = (0..7u64).map(|k| entry(k, "x")).collect();
    let chunks = chunk_entries(&entries, 3);
    assert_eq!(chunks.len(), 3);
    assert_eq!(chunks[0].len(), 3);
    assert_eq!(chunks[1].len(), 3);
    assert_eq!(chunks[2].len(), 1);
    assert_eq!(chunks[0][0].item.id, 0);
    assert_eq!(chunks[2][0].item.id, 6);
}

#[test]
fn small_batches_go_as_one_message() {
    let entries: Vec<ReportEntry> = (0..5u64).map(|k| entry(k, "x")).collect();
    let msgs = build_messages("Heading", &entries);
    assert_eq!(msgs.len(), 1);
    assert_eq!(msgs[0].heading, "Heading");
    assert_eq!(msgs[0].embeds.len(), 5);
    let ems = entries_to_embeds(&entries);
    assert_eq!(ems.len(), 5);
}
