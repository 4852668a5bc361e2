use vstd::prelude::*;

verus! {

/// Last known metadata for a tracked catalog item: tenant-independent cached
/// state, refreshed lazily from the catalog source.
#[derive(Debug)]
pub struct ItemInfo {
    /// The item's numeric id in the catalog.
    pub id: u64,
    /// The item's display name.
    pub name: String,
    /// The authoritative "updated at" timestamp last reported by the catalog
    /// source (seconds since the epoch).
    pub last_updated: u64,
    /// An optional preview image reference.
    pub preview_url: Option<String>,
}

/// Copies an optional string, field for field.
pub fn clone_opt_string(s: &Option<String>) -> (r: Option<String>)
    ensures
        r == *s,
{
    match s {
        Option::Some(v) => Option::Some(v.clone()),
        Option::None => Option::None,
    }
}

impl ItemInfo {
    /// An explicit copy whose contract ties every field to the original.
    pub fn duplicate(&self) -> (r: ItemInfo)
        ensures
            r == *self,
    {
        ItemInfo {
            id: self.id,
            name: self.name.clone(),
            last_updated: self.last_updated,
            preview_url: clone_opt_string(&self.preview_url),
        }
    }
}

/// One tenant's subscription to a tracked item, as loaded from the
/// subscription store: the cached item snapshot, the point in time up to
/// which changes have been reported, and an optional free-text annotation.
#[derive(Debug)]
pub struct Subscription {
    /// When this subscription was last successfully notified
    /// (seconds since the epoch).
    pub last_notified_at: u64,
    /// The cached snapshot of the tracked item.
    pub item: ItemInfo,
    /// The free-text annotation, if any.
    pub note: Option<String>,
}

impl Subscription {
    /// An explicit copy whose contract ties every field to the original.
    pub fn duplicate(&self) -> (r: Subscription)
        ensures
            r == *self,
    {
        Subscription {
            last_notified_at: self.last_notified_at,
            item: self.item.duplicate(),
            note: clone_opt_string(&self.note),
        }
    }
}

/// An item to be reported to a tenant, together with the subscription's
/// annotation: one entry of a notification batch.
#[derive(Debug)]
pub struct ReportEntry {
    /// The item snapshot to report.
    pub item: ItemInfo,
    /// The free-text annotation of the subscription, if any.
    pub note: Option<String>,
}

impl ReportEntry {
    /// An explicit copy whose contract ties every field to the original.
    pub fn duplicate(&self) -> (r: ReportEntry)
        ensures
            r == *self,
    {
        ReportEntry {
            item: self.item.duplicate(),
            note: clone_opt_string(&self.note),
        }
    }
}

} // verus!
