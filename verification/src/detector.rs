use vstd::prelude::*;
use crate::item::{ItemInfo, ReportEntry, Subscription};

verus! {

/// Whether an authoritative timestamp counts as an update against a
/// subscription's last-notified mark: strictly greater, never equal.
pub open spec fn spec_is_updated(last_notified_at: u64, updated_at: u64) -> bool {
    updated_at > last_notified_at
}

/// First-pass verdict on one subscription.
#[derive(Debug, PartialEq, Eq, Structural)]
pub enum FirstPassClass {
    /// The authoritative timestamp is strictly newer: tentatively updated.
    Updated,
    /// Not newer — but the consulted snapshot may be stale, so the item
    /// needs a forced, cache-bypassing re-fetch before it counts as
    /// unchanged.
    Ambiguous,
}

/// Classifies one subscription against an authoritative timestamp:
/// `Updated` exactly when the timestamp is strictly greater than the
/// subscription's last-notified mark.
pub fn classify_snapshot(last_notified_at: u64, updated_at: u64) -> (c: FirstPassClass)
    ensures
        c is Updated <==> spec_is_updated(last_notified_at, updated_at),
{
    if updated_at > last_notified_at {
        FirstPassClass::Updated
    } else {
        FirstPassClass::Ambiguous
    }
}

/// Where to obtain an item's snapshot: consult the cache; only on a cache
/// miss is the catalog source called.
pub enum LookupStep {
    /// The cache held a snapshot; use it.
    UseCached(ItemInfo),
    /// Cache miss: call the catalog source.
    FetchFromSource,
}

/// The cached-then-source lookup decision for one item.
pub fn plan_lookup(cached: Option<ItemInfo>) -> (r: LookupStep)
    ensures
        cached is Some ==> r == LookupStep::UseCached(cached->0),
        cached is None ==> r is FetchFromSource,
{
    match cached {
        Option::Some(info) => LookupStep::UseCached(info),
        Option::None => LookupStep::FetchFromSource,
    }
}

/// What to write back to the snapshot cache after a successful fetch from
/// the catalog source.
pub enum CacheWrite {
    /// The item was not cached yet: insert the fetched snapshot.
    Insert(ItemInfo),
    /// The item was cached: overwrite the entry with the fetched snapshot.
    Update(ItemInfo),
}

/// The write-through decision after a source fetch: a fetch made because of
/// a cache miss inserts, a forced (cache-bypassing) fetch overwrites.
pub fn write_through(forced: bool, fetched: ItemInfo) -> (r: CacheWrite)
    ensures
        forced ==> r == CacheWrite::Update(fetched),
        !forced ==> r == CacheWrite::Insert(fetched),
{
    if forced {
        CacheWrite::Update(fetched)
    } else {
        CacheWrite::Insert(fetched)
    }
}

/// The tentatively-updated entries among the first `n` subscriptions, given
/// each subscription's first-pass lookup outcome (`None` = lookup failed).
pub open spec fn spec_first_updated(
    subs: Seq<Subscription>,
    looked: Seq<Option<ItemInfo>>,
    n: int,
) -> Seq<ReportEntry>
    decreases n,
{
    if n <= 0 {
        Seq::empty()
    } else {
        let rest = spec_first_updated(subs, looked, n - 1);
        match looked[n - 1] {
            Option::Some(info) => if spec_is_updated(subs[n - 1].last_notified_at, info.last_updated) {
                rest.push(ReportEntry { item: info, note: subs[n - 1].note })
            } else {
                rest
            },
            Option::None => rest,
        }
    }
}

/// The ambiguous entries among the first `n` subscriptions: those whose
/// first-pass lookup did not show a strictly newer timestamp (including
/// failed lookups), each carrying the best snapshot known so far. Every one
/// of them gets a forced re-fetch.
pub open spec fn spec_first_pending(
    subs: Seq<Subscription>,
    looked: Seq<Option<ItemInfo>>,
    n: int,
) -> Seq<Subscription>
    decreases n,
{
    if n <= 0 {
        Seq::empty()
    } else {
        let rest = spec_first_pending(subs, looked, n - 1);
        match looked[n - 1] {
            Option::Some(info) => if spec_is_updated(subs[n - 1].last_notified_at, info.last_updated) {
                rest
            } else {
                rest.push(
                    Subscription {
                        last_notified_at: subs[n - 1].last_notified_at,
                        item: info,
                        note: subs[n - 1].note,
                    },
                )
            },
            Option::None => rest.push(subs[n - 1]),
        }
    }
}

/// First detection pass: cheap classification of every subscription by its
/// cached-or-source lookup outcome. Returns the tentatively updated entries
/// and the ambiguous ones that need a forced re-fetch.
pub fn first_pass(subs: &Vec<Subscription>, looked: &Vec<Option<ItemInfo>>) -> (r: (
    Vec<ReportEntry>,
    Vec<Subscription>,
))
    requires
        looked@.len() == subs@.len(),
    ensures
        r.0@ == spec_first_updated(subs@, looked@, subs@.len() as int),
        r.1@ == spec_first_pending(subs@, looked@, subs@.len() as int),
{
    let mut updated: Vec<ReportEntry> = Vec::new();
    let mut pending: Vec<Subscription> = Vec::new();
    let n = subs.len();
    let mut i: usize = 0;
    while i < n
        invariant
            i <= n,
            n == subs@.len(),
            looked@.len() == subs@.len(),
            updated@ == spec_first_updated(subs@, looked@, i as int),
            pending@ == spec_first_pending(subs@, looked@, i as int),
        decreases n - i,
    {
        let sub = &subs[i];
        match &looked[i] {
            Option::Some(info) => {
                if info.last_updated > sub.last_notified_at {
                    updated.push(ReportEntry { item: info.duplicate(), note: crate::item::clone_opt_string(&sub.note) });
                } else {
                    pending.push(
                        Subscription {
                            last_notified_at: sub.last_notified_at,
                            item: info.duplicate(),
                            note: crate::item::clone_opt_string(&sub.note),
                        },
                    );
                }
            },
            Option::None => {
                pending.push(sub.duplicate());
            },
        }
        i = i + 1;
    }
    (updated, pending)
}

/// The entries reclassified as updated by the forced re-fetch: among the
/// first `n` pending entries, those whose forced fetch succeeded and shows a
/// strictly newer timestamp; they are reported with the fresh snapshot.
pub open spec fn spec_second_updated(
    pending: Seq<Subscription>,
    forced: Seq<Option<ItemInfo>>,
    n: int,
) -> Seq<ReportEntry>
    decreases n,
{
    if n <= 0 {
        Seq::empty()
    } else {
        let rest = spec_second_updated(pending, forced, n - 1);
        match forced[n - 1] {
            Option::Some(info) => if spec_is_updated(pending[n - 1].last_notified_at, info.last_updated) {
                rest.push(ReportEntry { item: info, note: pending[n - 1].note })
            } else {
                rest
            },
            Option::None => rest,
        }
    }
}

/// The unreachable entries: among the first `n` pending entries, those whose
/// forced re-fetch failed as well; they are reported with the last snapshot
/// known.
pub open spec fn spec_second_failed(
    pending: Seq<Subscription>,
    forced: Seq<Option<ItemInfo>>,
    n: int,
) -> Seq<ReportEntry>
    decreases n,
{
    if n <= 0 {
        Seq::empty()
    } else {
        let rest = spec_second_failed(pending, forced, n - 1);
        match forced[n - 1] {
            Option::Some(_) => rest,
            Option::None => rest.push(
                ReportEntry { item: pending[n - 1].item, note: pending[n - 1].note },
            ),
        }
    }
}

/// Second detection pass: every ambiguous entry got one forced,
/// cache-bypassing fetch (`None` = that fetch failed too). A fresh snapshot
/// strictly newer than the mark reclassifies the entry as updated; a failed
/// forced fetch classifies it as unreachable; anything else is unchanged and
/// needs no action.
pub fn second_pass(pending: &Vec<Subscription>, forced: &Vec<Option<ItemInfo>>) -> (r: (
    Vec<ReportEntry>,
    Vec<ReportEntry>,
))
    requires
        forced@.len() == pending@.len(),
    ensures
        r.0@ == spec_second_updated(pending@, forced@, pending@.len() as int),
        r.1@ == spec_second_failed(pending@, forced@, pending@.len() as int),
{
    let mut updated: Vec<ReportEntry> = Vec::new();
    let mut failed: Vec<ReportEntry> = Vec::new();
    let n = pending.len();
    let mut i: usize = 0;
    while i < n
        invariant
            i <= n,
            n == pending@.len(),
            forced@.len() == pending@.len(),
            updated@ == spec_second_updated(pending@, forced@, i as int),
            failed@ == spec_second_failed(pending@, forced@, i as int),
        decreases n - i,
    {
        let entry = &pending[i];
        match &forced[i] {
            Option::Some(info) => {
                if info.last_updated > entry.last_notified_at {
                    updated.push(ReportEntry { item: info.duplicate(), note: crate::item::clone_opt_string(&entry.note) });
                }
            },
            Option::None => {
                failed.push(ReportEntry { item: entry.item.duplicate(), note: crate::item::clone_opt_string(&entry.note) });
            },
        }
        i = i + 1;
    }
    (updated, failed)
}

/// Joins the two passes: the tentatively updated entries of the first pass
/// followed by the entries the forced re-fetch reclassified.
pub fn join_updated(first: Vec<ReportEntry>, second: &Vec<ReportEntry>) -> (r: Vec<ReportEntry>)
    ensures
        r@ == first@ + second@,
{
    let mut r = first;
    let ghost base = r@;
    let mut i: usize = 0;
    while i < second.len()
        invariant
            i <= second@.len(),
            r@ == base + second@.subrange(0, i as int),
        decreases second@.len() - i,
    {
        r.push(second[i].duplicate());
        proof {
            assert(base + second@.subrange(0, i + 1 as int) =~= (base + second@.subrange(
                0,
                i as int,
            )).push(second@[i as int]));
        }
        i = i + 1;
    }
    proof {
        assert(second@.subrange(0, second@.len() as int) =~= second@);
    }
    r
}

/// The first pass partitions the subscriptions: every one of the first `n`
/// lands in exactly one of tentatively-updated or ambiguous.
pub proof fn lemma_first_pass_partitions(
    subs: Seq<Subscription>,
    looked: Seq<Option<ItemInfo>>,
    n: int,
)
    requires
        0 <= n <= subs.len(),
    ensures
        spec_first_updated(subs, looked, n).len() + spec_first_pending(subs, looked, n).len() == n,
    decreases n,
{
    if n > 0 {
        lemma_first_pass_partitions(subs, looked, n - 1);
    }
}

/// The second pass sends each ambiguous entry to at most one of updated or
/// unreachable; the rest are unchanged and need no action.
pub proof fn lemma_second_pass_partitions(
    pending: Seq<Subscription>,
    forced: Seq<Option<ItemInfo>>,
    n: int,
)
    requires
        0 <= n <= pending.len(),
    ensures
        spec_second_updated(pending, forced, n).len() + spec_second_failed(pending, forced, n).len()
            <= n,
    decreases n,
{
    if n > 0 {
        lemma_second_pass_partitions(pending, forced, n - 1);
    }
}

/// An item whose authoritative timestamp equals the last-notified mark is
/// unchanged: the first pass leaves it ambiguous, and a forced re-fetch
/// showing no newer timestamp puts it in neither the updated nor the
/// unreachable partition. "Updated" demands strict inequality.
pub proof fn lemma_equal_timestamp_is_unchanged(
    sub: Subscription,
    first: ItemInfo,
    second: ItemInfo,
)
    requires
        first.last_updated == sub.last_notified_at,
        second.last_updated <= sub.last_notified_at,
    ensures
        spec_first_updated(seq![sub], seq![Option::Some(first)], 1) == Seq::<ReportEntry>::empty(),
        spec_first_pending(seq![sub], seq![Option::Some(first)], 1) == seq![
            Subscription { last_notified_at: sub.last_notified_at, item: first, note: sub.note },
        ],
        spec_second_updated(
            spec_first_pending(seq![sub], seq![Option::Some(first)], 1),
            seq![Option::Some(second)],
            1,
        ) == Seq::<ReportEntry>::empty(),
        spec_second_failed(
            spec_first_pending(seq![sub], seq![Option::Some(first)], 1),
            seq![Option::Some(second)],
            1,
        ) == Seq::<ReportEntry>::empty(),
{
    let pend = Subscription { last_notified_at: sub.last_notified_at, item: first, note: sub.note };
    assert(spec_first_updated(seq![sub], seq![Option::Some(first)], 0) == Seq::<
        ReportEntry,
    >::empty());
    assert(spec_first_pending(seq![sub], seq![Option::Some(first)], 0) == Seq::<
        Subscription,
    >::empty());
    assert(spec_second_updated(seq![pend], seq![Option::Some(second)], 0) == Seq::<
        ReportEntry,
    >::empty());
    assert(spec_second_failed(seq![pend], seq![Option::Some(second)], 0) == Seq::<
        ReportEntry,
    >::empty());
    assert(spec_first_pending(seq![sub], seq![Option::Some(first)], 1) =~= seq![pend]);
    assert(spec_second_updated(seq![pend], seq![Option::Some(second)], 1) =~= Seq::<
        ReportEntry,
    >::empty());
    assert(spec_first_pending(seq![sub], seq![Option::Some(first)], 1) == seq![pend]);
}

/// A stale cached snapshot does not mask a real change: if the first pass
/// saw no newer timestamp but the forced re-fetch does, the item is
/// reclassified as updated and reported with the fresh snapshot.
pub proof fn lemma_forced_refetch_reveals_change(
    sub: Subscription,
    cached: ItemInfo,
    fresh: ItemInfo,
)
    requires
        cached.last_updated <= sub.last_notified_at,
        fresh.last_updated > sub.last_notified_at,
    ensures
        spec_first_updated(seq![sub], seq![Option::Some(cached)], 1) == Seq::<ReportEntry>::empty(),
        spec_second_updated(
            spec_first_pending(seq![sub], seq![Option::Some(cached)], 1),
            seq![Option::Some(fresh)],
            1,
        ) == seq![ReportEntry { item: fresh, note: sub.note }],
        spec_second_failed(
            spec_first_pending(seq![sub], seq![Option::Some(cached)], 1),
            seq![Option::Some(fresh)],
            1,
        ) == Seq::<ReportEntry>::empty(),
{
    let pend = Subscription {
        last_notified_at: sub.last_notified_at,
        item: cached,
        note: sub.note,
    };
    assert(spec_first_updated(seq![sub], seq![Option::Some(cached)], 0) == Seq::<
        ReportEntry,
    >::empty());
    assert(spec_first_pending(seq![sub], seq![Option::Some(cached)], 0) == Seq::<
        Subscription,
    >::empty());
    assert(spec_second_updated(seq![pend], seq![Option::Some(fresh)], 0) == Seq::<
        ReportEntry,
    >::empty());
    assert(spec_second_failed(seq![pend], seq![Option::Some(fresh)], 0) == Seq::<
        ReportEntry,
    >::empty());
    assert(spec_first_pending(seq![sub], seq![Option::Some(cached)], 1) =~= seq![pend]);
    assert(spec_second_updated(seq![pend], seq![Option::Some(fresh)], 1) =~= seq![
        ReportEntry { item: fresh, note: sub.note },
    ]);
}

} // verus!
