use vstd::prelude::*;
use crate::batching::{
    build_messages, chunk_entries, chunked_messages_ok, single_message_ok, spec_chunks, Message,
    CHUNK_SIZE,
};
use crate::detector::{
    first_pass, join_updated, second_pass, spec_first_pending, spec_first_updated,
    spec_second_failed, spec_second_updated,
};
use crate::errors::CycleError;
use crate::item::{ItemInfo, ReportEntry, Subscription};

verus! {

/// The heading under which updated items are delivered.
pub open spec fn spec_updated_heading() -> Seq<char> {
    "The following items were updated:"@
}

/// The heading under which unreachable items are delivered.
pub open spec fn spec_failed_heading() -> Seq<char> {
    "The following Items could not be updated:"@
}

/// Whether the configured destination is among the tenant's channels.
pub fn channel_available(channels: &Vec<u64>, wanted: u64) -> (b: bool)
    ensures
        b == channels@.contains(wanted),
{
    let mut i: usize = 0;
    while i < channels.len()
        invariant
            i <= channels@.len(),
            forall|k: int| 0 <= k < i ==> channels@[k] != wanted,
        decreases channels@.len() - i,
    {
        if channels[i] == wanted {
            return true;
        }
        i = i + 1;
    }
    false
}

/// The item ids of a batch, in order.
pub open spec fn spec_entry_ids(entries: Seq<ReportEntry>) -> Seq<u64>
    decreases entries.len(),
{
    if entries.len() == 0 {
        Seq::empty()
    } else {
        spec_entry_ids(entries.drop_last()).push(entries.last().item.id)
    }
}

/// Ids distribute over concatenation of batches.
pub proof fn lemma_entry_ids_concat(a: Seq<ReportEntry>, b: Seq<ReportEntry>)
    ensures
        spec_entry_ids(a + b) == spec_entry_ids(a) + spec_entry_ids(b),
    decreases b.len(),
{
    if b.len() == 0 {
        assert(a + b =~= a);
        assert(spec_entry_ids(b) == Seq::<u64>::empty());
        assert(spec_entry_ids(a) + Seq::<u64>::empty() =~= spec_entry_ids(a));
    } else {
        lemma_entry_ids_concat(a, b.drop_last());
        assert((a + b).drop_last() =~= a + b.drop_last());
        assert((a + b).last() == b.last());
        assert(spec_entry_ids(a + b) == (spec_entry_ids(a) + spec_entry_ids(b.drop_last())).push(
            b.last().item.id,
        ));
        assert(spec_entry_ids(a) + spec_entry_ids(b.drop_last()).push(b.last().item.id)
            =~= (spec_entry_ids(a) + spec_entry_ids(b.drop_last())).push(b.last().item.id));
    }
}

/// The entries confirmed delivered: the concatenation of the first
/// `delivered` chunks.
pub open spec fn spec_delivered_entries(chunks: Seq<Seq<ReportEntry>>, delivered: int) -> Seq<
    ReportEntry,
> {
    chunks.subrange(0, delivered).flatten()
}

/// The item ids whose `last_notified_at` marks may be advanced after
/// `delivered` of the chunks were confirmed delivered: exactly the ids of
/// the entries in those chunks — never an id from an undelivered chunk.
pub fn ids_to_advance(chunks: &Vec<Vec<ReportEntry>>, delivered: usize) -> (ids: Vec<u64>)
    requires
        delivered <= chunks@.len(),
    ensures
        ids@ == spec_entry_ids(
            spec_delivered_entries(chunks@.map_values(|c: Vec<ReportEntry>| c@), delivered as int),
        ),
{
    let ghost cviews = chunks@.map_values(|c: Vec<ReportEntry>| c@);
    let mut ids: Vec<u64> = Vec::new();
    let mut d: usize = 0;
    proof {
        assert(cviews.subrange(0, 0) =~= Seq::<Seq<ReportEntry>>::empty());
        assert(cviews.subrange(0, 0).flatten() =~= Seq::<ReportEntry>::empty());
    }
    while d < delivered
        invariant
            d <= delivered <= chunks@.len(),
            cviews == chunks@.map_values(|c: Vec<ReportEntry>| c@),
            ids@ == spec_entry_ids(spec_delivered_entries(cviews, d as int)),
        decreases delivered - d,
    {
        let chunk = &chunks[d];
        let ghost flat_before = spec_delivered_entries(cviews, d as int);
        let mut j: usize = 0;
        while j < chunk.len()
            invariant
                j <= chunk@.len(),
                chunk@ == cviews[d as int],
                d < cviews.len(),
                flat_before == spec_delivered_entries(cviews, d as int),
                ids@ == spec_entry_ids(flat_before) + spec_entry_ids(chunk@.subrange(0, j as int)),
            decreases chunk@.len() - j,
        {
            let ghost pre = chunk@.subrange(0, j as int);
            ids.push(chunk[j].item.id);
            proof {
                let post = chunk@.subrange(0, j + 1 as int);
                assert(post.drop_last() =~= pre);
                assert(post.last() == chunk@[j as int]);
                assert(spec_entry_ids(post) == spec_entry_ids(pre).push(chunk@[j as int].item.id));
                assert(spec_entry_ids(flat_before) + spec_entry_ids(pre).push(
                    chunk@[j as int].item.id,
                ) =~= (spec_entry_ids(flat_before) + spec_entry_ids(pre)).push(
                    chunk@[j as int].item.id,
                ));
            }
            j = j + 1;
        }
        proof {
            assert(chunk@.subrange(0, chunk@.len() as int) =~= chunk@);
            lemma_entry_ids_concat(flat_before, chunk@);
            assert(cviews.subrange(0, d + 1 as int) =~= cviews.subrange(0, d as int).push(
                cviews[d as int],
            ));
            cviews.subrange(0, d as int).lemma_flatten_push(cviews[d as int]);
            assert(spec_delivered_entries(cviews, d + 1 as int) == flat_before + chunk@);
        }
        d = d + 1;
    }
    ids
}

/// Delivering every chunk advances exactly the whole batch: the delivered
/// prefix of all chunks is the original entries.
pub proof fn lemma_full_delivery_covers_batch(entries: Seq<ReportEntry>, size: int)
    requires
        size >= 1,
    ensures
        spec_delivered_entries(
            spec_chunks(entries, size),
            spec_chunks(entries, size).len() as int,
        ) == entries,
{
    let chunks = spec_chunks(entries, size);
    assert(chunks.subrange(0, chunks.len() as int) =~= chunks);
    crate::batching::lemma_chunks_flatten(entries, size);
}

/// A subscription row after a delivery cycle: the mark advances to `now`
/// only if the subscription's item was confirmed delivered and `now` is
/// later than the current mark; nothing else about the row changes, and the
/// mark never moves backwards.
pub open spec fn spec_advanced(sub: Subscription, delivered: bool, now: u64) -> Subscription {
    if delivered && now > sub.last_notified_at {
        Subscription { last_notified_at: now, item: sub.item, note: sub.note }
    } else {
        sub
    }
}

/// A `last_notified_at` mark only ever increases, and only as the direct
/// result of a successfully delivered notification that referenced the
/// subscription's item.
pub proof fn lemma_marks_monotone(sub: Subscription, delivered: bool, now: u64)
    ensures
        spec_advanced(sub, delivered, now).last_notified_at >= sub.last_notified_at,
        spec_advanced(sub, delivered, now).last_notified_at != sub.last_notified_at ==> delivered,
        spec_advanced(sub, delivered, now).item == sub.item,
        spec_advanced(sub, delivered, now).note == sub.note,
{
}

/// Whether `id` is among the delivered ids.
pub fn contains_id(ids: &Vec<u64>, id: u64) -> (b: bool)
    ensures
        b == ids@.contains(id),
{
    let mut i: usize = 0;
    while i < ids.len()
        invariant
            i <= ids@.len(),
            forall|k: int| 0 <= k < i ==> ids@[k] != id,
        decreases ids@.len() - i,
    {
        if ids[i] == id {
            return true;
        }
        i = i + 1;
    }
    false
}

/// Advances `last_notified_at` to `now` for exactly the subscriptions whose
/// item id is among `ids` (the confirmed-delivered ids); every other row is
/// unchanged, and no mark ever decreases.
pub fn advance_marks(subs: &Vec<Subscription>, ids: &Vec<u64>, now: u64) -> (r: Vec<Subscription>)
    ensures
        r@.len() == subs@.len(),
        forall|i: int|
            0 <= i < subs@.len() ==> r@[i] == spec_advanced(
                subs@[i],
                ids@.contains(subs@[i].item.id),
                now,
            ),
{
    let mut r: Vec<Subscription> = Vec::new();
    let mut i: usize = 0;
    while i < subs.len()
        invariant
            i <= subs@.len(),
            r@.len() == i,
            forall|k: int|
                0 <= k < i ==> r@[k] == spec_advanced(
                    subs@[k],
                    ids@.contains(subs@[k].item.id),
                    now,
                ),
        decreases subs@.len() - i,
    {
        let sub = &subs[i];
        let delivered = contains_id(ids, sub.item.id);
        if delivered && now > sub.last_notified_at {
            r.push(
                Subscription {
                    last_notified_at: now,
                    item: sub.item.duplicate(),
                    note: crate::item::clone_opt_string(&sub.note),
                },
            );
        } else {
            r.push(sub.duplicate());
        }
        i = i + 1;
    }
    r
}

/// The full updated partition of one cycle: the first pass's tentatively
/// updated entries followed by those the forced re-fetch reclassified.
pub open spec fn spec_cycle_updated(
    subs: Seq<Subscription>,
    looked: Seq<Option<ItemInfo>>,
    forced: Seq<Option<ItemInfo>>,
) -> Seq<ReportEntry> {
    spec_first_updated(subs, looked, subs.len() as int) + spec_second_updated(
        spec_first_pending(subs, looked, subs.len() as int),
        forced,
        spec_first_pending(subs, looked, subs.len() as int).len() as int,
    )
}

/// The unreachable partition of one cycle: the entries whose forced
/// re-fetch failed as well.
pub open spec fn spec_cycle_failed(
    subs: Seq<Subscription>,
    looked: Seq<Option<ItemInfo>>,
    forced: Seq<Option<ItemInfo>>,
) -> Seq<ReportEntry> {
    spec_second_failed(
        spec_first_pending(subs, looked, subs.len() as int),
        forced,
        spec_first_pending(subs, looked, subs.len() as int).len() as int,
    )
}

/// Everything one detection cycle hands the delivery boundary.
#[derive(Debug)]
pub struct CyclePlan {
    /// The resolved destination channel.
    pub channel: u64,
    /// The updated entries, in order.
    pub updated: Vec<ReportEntry>,
    /// The updated entries split into delivery chunks; `last_notified_at`
    /// marks advance chunk by chunk as deliveries are confirmed.
    pub update_chunks: Vec<Vec<ReportEntry>>,
    /// The messages that deliver the updated entries, in order.
    pub update_messages: Vec<Message>,
    /// The messages that report unreachable items, in order.
    pub failure_messages: Vec<Message>,
}

/// How a plan's message list relates to the entries it delivers: silence
/// for an empty batch, one message for a small batch, labeled chunks for a
/// large one.
pub open spec fn messages_ok(msgs: Seq<Message>, heading: Seq<char>, entries: Seq<ReportEntry>) -> bool {
    &&& entries.len() == 0 ==> msgs.len() == 0
    &&& 0 < entries.len() <= CHUNK_SIZE ==> single_message_ok(msgs, heading, entries)
    &&& entries.len() > CHUNK_SIZE ==> chunked_messages_ok(msgs, heading, entries)
}

/// How a plan's chunk list relates to the updated entries.
pub open spec fn chunks_ok(chunks: Seq<Vec<ReportEntry>>, entries: Seq<ReportEntry>) -> bool {
    &&& chunks.len() == spec_chunks(entries, CHUNK_SIZE as int).len()
    &&& forall|i: int|
        0 <= i < chunks.len() ==> (#[trigger] chunks[i])@ == spec_chunks(
            entries,
            CHUNK_SIZE as int,
        )[i]
}

/// Plans one tick's notification dispatch from the two detection passes and
/// the tenant's destination configuration. Fails — and nothing is delivered
/// — exactly when no destination is configured or the configured channel is
/// not among the tenant's channels. On success the plan carries the updated
/// partition, its delivery chunks and messages, and the unreachable report.
pub fn plan_cycle(
    subs: &Vec<Subscription>,
    looked: &Vec<Option<ItemInfo>>,
    forced: &Vec<Option<ItemInfo>>,
    destination: Option<u64>,
    channels: &Vec<u64>,
) -> (r: Result<CyclePlan, CycleError>)
    requires
        looked@.len() == subs@.len(),
        forced@.len() == spec_first_pending(subs@, looked@, subs@.len() as int).len(),
    ensures
        r is Err <==> (destination is None || !channels@.contains(destination->0)),
        destination is None ==> r == Result::<CyclePlan, CycleError>::Err(
            CycleError::NoDestinationConfigured,
        ),
        destination is Some && !channels@.contains(destination->0) ==> r == Result::<
            CyclePlan,
            CycleError,
        >::Err(CycleError::DestinationUnavailable),
        r is Ok ==> r->Ok_0.channel == destination->0,
        r is Ok ==> r->Ok_0.updated@ == spec_cycle_updated(subs@, looked@, forced@),
        r is Ok ==> chunks_ok(r->Ok_0.update_chunks@, spec_cycle_updated(subs@, looked@, forced@)),
        r is Ok ==> messages_ok(
            r->Ok_0.update_messages@,
            spec_updated_heading(),
            spec_cycle_updated(subs@, looked@, forced@),
        ),
        r is Ok ==> messages_ok(
            r->Ok_0.failure_messages@,
            spec_failed_heading(),
            spec_cycle_failed(subs@, looked@, forced@),
        ),
{
    let channel = match destination {
        Option::Some(c) => c,
        Option::None => {
            return Result::Err(CycleError::NoDestinationConfigured);
        },
    };
    if !channel_available(channels, channel) {
        return Result::Err(CycleError::DestinationUnavailable);
    }
    let (first_updated, pending) = first_pass(subs, looked);
    let (second_updated, failed) = second_pass(&pending, forced);
    let updated = join_updated(first_updated, &second_updated);
    let update_chunks = chunk_entries(&updated, CHUNK_SIZE);
    let update_messages = if updated.len() == 0 {
        Vec::new()
    } else {
        build_messages("The following items were updated:", &updated)
    };
    let failure_messages = if failed.len() == 0 {
        Vec::new()
    } else {
        build_messages("The following Items could not be updated:", &failed)
    };
    Result::Ok(
        CyclePlan { channel, updated, update_chunks, update_messages, failure_messages },
    )
}

} // verus!
