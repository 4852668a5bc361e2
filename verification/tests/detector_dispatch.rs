use item_tracker::detector::{classify_snapshot, first_pass, second_pass, FirstPassClass};
use item_tracker::dispatch::{advance_marks, contains_id, ids_to_advance, plan_cycle};
use item_tracker::errors::CycleError;
use item_tracker::item::{ItemInfo, Subscription};

fn info(id: u64, name: &str, updated: u64) -> ItemInfo {
    ItemInfo { id, name: name.to_string(), last_updated: updated, preview_url: None }
}

fn sub(last: u64, item: ItemInfo) -> Subscription {
    Subscription { last_notified_at: last, item, note: None }
}

#[test]
fn equal_timestamp_is_unchanged() {
    // strict inequality is required for "updated"
    assert_eq!(classify_snapshot(1000, 1000), FirstPassClass::Ambiguous);
    assert_eq!(classify_snapshot(1000, 999), FirstPassClass::Ambiguous);
    assert_eq!(classify_snapshot(1000, 1001), FirstPassClass::Updated);

    let subs = vec![sub(1000, info(5, "a", 1000))];
    let looked = vec![Some(info(5, "a", 1000))];
    let (updated, pending) = first_pass(&subs, &looked);
    assert!(updated.is_empty());
    assert_eq!(pending.len(), 1);
    // the forced re-fetch confirms: still not newer, so neither updated nor failed
    let forced = vec![Some(info(5, "a", 1000))];
    let (updated2, failed) = second_pass(&pending, &forced);
    assert!(updated2.is_empty());
    assert!(failed.is_empty());
}

#[test]
fn stale_cache_does_not_mask_a_change() {
    // the cached snapshot shows no change, the forced re-fetch does
    let subs = vec![sub(1000, info(5, "a", 900))];
    let looked = vec![Some(info(5, "a", 900))];
    let (updated, pending) = first_pass(&subs, &looked);
    assert!(updated.is_empty());
    assert_eq!(pending.len(), 1);
    let forced = vec![Some(info(5, "a fresh", 1500))];
    let (updated2, failed) = second_pass(&pending, &forced);
    assert_eq!(updated2.len(), 1);
    assert_eq!(updated2[0].item.last_updated, 1500);
    assert_eq!(updated2[0].item.name, "a fresh");
    assert!(failed.is_empty());
}

#[test]
fn two_consecutive_failures_mark_unreachable() {
    let subs = vec![sub(1000, info(5, "a", 900))];
    let looked = vec![None];
    let (updated, pending) = first_pass(&subs, &looked);
    assert!(updated.is_empty());
    assert_eq!(pending.len(), 1);
    let forced = vec![None];
    let (updated2, failed) = second_pass(&pending, &forced);
    assert!(updated2.is_empty());
    assert_eq!(failed.len(), 1);
    // reported with the last snapshot known
    assert_eq!(failed[0].item.name, "a");
}

#[test]
fn cycle_scenario_one_updated_one_unchanged() {
    // tenant 42, schedule 6h, item 100 at mark 1000, item 200 at mark 2000
    assert_eq!(item_tracker::scheduler::Scheduler::plan_start(Some(6)), Ok(6));
    let subs = vec![
        sub(1000, info(100, "first", 500)),
        sub(2000, info(200, "second", 1700)),
    ];
    // the catalog answers 1500 for item 100 (updated) and 1800 for item 200
    let looked = vec![Some(info(100, "first", 1500)), Some(info(200, "second", 1800))];
    let (updated, pending) = first_pass(&subs, &looked);
    assert_eq!(updated.len(), 1);
    assert_eq!(updated[0].item.id, 100);
    assert_eq!(pending.len(), 1);
    assert_eq!(pending[0].item.id, 200);
    let forced = vec![Some(info(200, "second", 1800))];
    let plan = plan_cycle(&subs, &looked, &forced, Some(7), &vec![7, 8]).unwrap();
    assert_eq!(plan.channel, 7);
    // updated=[100], failed=[]
    assert_eq!(plan.updated.len(), 1);
    assert_eq!(plan.updated[0].item.id, 100);
    assert!(plan.failure_messages.is_empty());
    assert_eq!(plan.update_messages.len(), 1);
    assert_eq!(plan.update_messages[0].heading, "The following items were updated:");
    assert_eq!(plan.update_messages[0].embeds.len(), 1);
    // after the single chunk is delivered, exactly item 100's mark advances to now
    assert_eq!(plan.update_chunks.len(), 1);
    let ids = ids_to_advance(&plan.update_chunks, 1);
    assert_eq!(ids, vec![100]);
    let now = 99_999;
    let after = advance_marks(&subs, &ids, now);
    assert_eq!(after[0].last_notified_at, now);
    assert_eq!(after[1].last_notified_at, 2000);
}

#[test]
fn cycle_fails_without_destination() {
    let subs: Vec<Subscription> = vec![];
    let looked: Vec<Option<ItemInfo>> = vec![];
    let forced: Vec<Option<ItemInfo>> = vec![];
    let r = plan_cycle(&subs, &looked, &forced, None, &vec![7]);
    assert_eq!(r.unwrap_err(), CycleError::NoDestinationConfigured);
    let r = plan_cycle(&subs, &looked, &forced, Some(9), &vec![7]);
    assert_eq!(r.unwrap_err(), CycleError::DestinationUnavailable);
    assert_eq!(CycleError::NoDestinationConfigured.message(), "No update channel set");
}

fn twelve_updated() -> (Vec<Subscription>, Vec<Option<ItemInfo>>, Vec<Option<ItemInfo>>) {
    let mut subs = Vec::new();
    let mut looked = Vec::new();
    for k in 0..12u64 {
        subs.push(sub(100, info(1000 + k, &format!("item{}", k), 50)));
        looked.push(Some(info(1000 + k, &format!("item{}", k), 200)));
    }
    (subs, looked, Vec::new())
}

#[test]
fn twelve_updates_give_three_labeled_chunks() {
    let (subs, looked, forced) = twelve_updated();
    let plan = plan_cycle(&subs, &looked, &forced, Some(7), &vec![7]).unwrap();
    assert_eq!(plan.updated.len(), 12);
    assert_eq!(plan.update_chunks.len(), 3);
    assert_eq!(plan.update_chunks[0].len(), 5);
    assert_eq!(plan.update_chunks[1].len(), 5);
    assert_eq!(plan.update_chunks[2].len(), 2);
    assert_eq!(plan.update_messages.len(), 3);
    assert_eq!(
        plan.update_messages[0].heading,
        "The following items were updated:\nPart 1/3"
    );
    assert_eq!(
        plan.update_messages[1].heading,
        "The following items were updated:\nPart 2/3"
    );
    assert_eq!(
        plan.update_messages[2].heading,
        "The following items were updated:\nPart 3/3"
    );
    // marks advance for all 12 only once all 3 chunks are delivered
    let ids = ids_to_advance(&plan.update_chunks, 3);
    assert_eq!(ids.len(), 12);
    let after = advance_marks(&subs, &ids, 777);
    for row in &after {
        assert_eq!(row.last_notified_at, 777);
    }
}

#[test]
fn failed_chunk_stops_advancement_at_delivered_prefix() {
    let (subs, looked, forced) = twelve_updated();
    let plan = plan_cycle(&subs, &looked, &forced, Some(7), &vec![7]).unwrap();
    // delivery failed on chunk 2 of 3: only chunk 1 was confirmed
    let ids = ids_to_advance(&plan.update_chunks, 1);
    assert_eq!(ids, vec![1000, 1001, 1002, 1003, 1004]);
    let after = advance_marks(&subs, &ids, 777);
    for (k, row) in after.iter().enumerate() {
        if k < 5 {
            assert_eq!(row.last_notified_at, 777);
        } else {
            assert_eq!(row.last_notified_at, 100);
        }
    }
}

#[test]
fn marks_never_move_backwards() {
    let subs = vec![sub(5000, info(1, "a", 10))];
    let ids = vec![1];
    // "now" earlier than the mark: the mark stays
    let after = advance_marks(&subs, &ids, 4000);
    assert_eq!(after[0].last_notified_at, 5000);
    assert!(contains_id(&ids, 1));
    assert!(!contains_id(&ids, 2));
}

#[test]
fn unreachable_items_get_their_own_report() {
    // one subscription whose item the catalog cannot answer for, twice
    let subs = vec![sub(1000, info(5, "lost", 900))];
    let looked = vec![None];
    let forced = vec![None];
    let plan = plan_cycle(&subs, &looked, &forced, Some(7), &vec![7]).unwrap();
    assert!(plan.updated.is_empty());
    assert!(plan.update_messages.is_empty());
    assert_eq!(plan.failure_messages.len(), 1);
    assert_eq!(
        plan.failure_messages[0].heading,
        "The following Items could not be updated:"
    );
    assert_eq!(plan.failure_messages[0].embeds.len(), 1);
    assert_eq!(plan.failure_messages[0].embeds[0].title, "lost");
}

#[test]
fn many_unreachable_items_are_chunked_too() {
    let mut subs = Vec::new();
    let mut looked = Vec::new();
    let mut forced = Vec::new();
    for k in 0..7u64 {
        subs.push(sub(1000, info(k, "gone", 900)));
        looked.push(None);
        forced.push(None);
    }
    let plan = plan_cycle(&subs, &looked, &forced, Some(7), &vec![7]).unwrap();
    assert_eq!(plan.failure_messages.len(), 2);
    assert_eq!(
        plan.failure_messages[0].heading,
        "The following Items could not be updated:\nPart 1/2"
    );
    assert_eq!(
        plan.failure_messages[1].heading,
        "The following Items could not be updated:\nPart 2/2"
    );
}
