use vstd::prelude::*;
use vstd::string::*;
use crate::errors::PatternError;
use crate::text::str_eq;

verus! {

/// Whether the regex crate accepts `pattern` as a valid expression; a
/// function of the pattern alone.
pub uninterp spec fn regex_accepts(pattern: Seq<char>) -> bool;

/// Whether `pattern` matches somewhere inside `text`, as the regex crate
/// decides it; a function of the pattern and the text alone.
pub uninterp spec fn regex_matches(pattern: Seq<char>, text: Seq<char>) -> bool;

/// Relies on regex::Regex::new and Regex::is_match: compiles `pattern` and
/// tests whether it matches somewhere inside `text`. Nothing is returned
/// exactly when the pattern does not compile.
#[verifier::external_body]
fn regex_is_match(pattern: &str, text: &str) -> (r: Option<bool>)
    ensures
        r is Some <==> regex_accepts(pattern@),
        r is Some ==> r->0 == regex_matches(pattern@, text@),
{
    match regex::Regex::new(pattern) {
        Ok(re) => Some(re.is_match(text)),
        Err(_) => None,
    }
}

/// The case-insensitive containment pattern built from a search text.
pub fn ci_contains_pattern(partial: &str) -> (p: String)
    ensures
        p@ == ".*(?i)"@ + partial@ + ".*"@,
{
    let mut p = String::from_str(".*(?i)");
    p.append(partial);
    p.append(".*");
    p
}

/// The suggestions whose names the pattern matches, among the first `n`,
/// in order.
pub open spec fn spec_filtered(names: Seq<(String, u64)>, pattern: Seq<char>, n: int) -> Seq<
    (String, u64),
>
    decreases n,
{
    if n <= 0 {
        Seq::empty()
    } else {
        let rest = spec_filtered(names, pattern, n - 1);
        if regex_matches(pattern, names[n - 1].0@) {
            rest.push(names[n - 1])
        } else {
            rest
        }
    }
}

/// Keeps the suggestions whose names `pattern` matches, in order. Fails
/// exactly when the pattern is not a valid expression — a search text with
/// regex metacharacters must not bring the suggestion provider down.
pub fn filter_names(names: &Vec<(String, u64)>, pattern: &str) -> (r: Result<
    Vec<(String, u64)>,
    PatternError,
>)
    ensures
        r is Ok <==> regex_accepts(pattern@),
        r is Err ==> r == Result::<Vec<(String, u64)>, PatternError>::Err(
            PatternError::InvalidPattern,
        ),
        r is Ok ==> r->Ok_0@ == spec_filtered(names@, pattern@, names@.len() as int),
{
    let probe = regex_is_match(pattern, "");
    if probe.is_none() {
        return Result::Err(PatternError::InvalidPattern);
    }
    let mut kept: Vec<(String, u64)> = Vec::new();
    let mut i: usize = 0;
    while i < names.len()
        invariant
            i <= names@.len(),
            regex_accepts(pattern@),
            kept@ == spec_filtered(names@, pattern@, i as int),
        decreases names@.len() - i,
    {
        let entry = &names[i];
        match regex_is_match(pattern, entry.0.as_str()) {
            Option::Some(m) => {
                if m {
                    kept.push((entry.0.clone(), entry.1));
                }
            },
            Option::None => {
                return Result::Err(PatternError::InvalidPattern);
            },
        }
        i = i + 1;
    }
    Result::Ok(kept)
}

/// The autocomplete gate: queries shorter than three characters produce no
/// suggestions; longer ones are looked up under a cache key of their first
/// three characters.
pub fn autocomplete_plan(partial: &str) -> (r: Option<String>)
    ensures
        r is Some <==> partial@.len() >= 3,
        r is Some ==> r->0@ == partial@.subrange(0, 3),
{
    let n = partial.unicode_len();
    if n < 3 {
        Option::None
    } else {
        Option::Some(String::from_str(partial.substring_char(0, 3)))
    }
}

/// One cached suggestion set: the tenant it belongs to, the query prefix it
/// was computed for, the names, and when it was stored.
pub struct CacheEntry {
    /// The tenant the suggestions belong to.
    pub tenant: u64,
    /// The query prefix the suggestions were computed for.
    pub key: String,
    /// The suggested (name, item id) pairs.
    pub names: Vec<(String, u64)>,
    /// When the entry was stored (seconds since the epoch).
    pub stored_at: u64,
}

/// A lookaside cache of suggestion sets, newest entry first; lookups take
/// the newest entry for a (tenant, prefix) pair.
pub struct NameCache {
    entries: Vec<CacheEntry>,
}

/// The newest cached entry for the pair, scanning from the front.
pub open spec fn spec_cache_hit(entries: Seq<CacheEntry>, tenant: u64, key: Seq<char>) -> Option<
    CacheEntry,
>
    decreases entries.len(),
{
    if entries.len() == 0 {
        Option::None
    } else if entries[0].tenant == tenant && entries[0].key@ == key {
        Option::Some(entries[0])
    } else {
        spec_cache_hit(entries.skip(1), tenant, key)
    }
}

impl NameCache {
    /// The cache's contents, newest first.
    pub closed spec fn entries_seq(&self) -> Seq<CacheEntry> {
        self.entries@
    }

    /// An empty cache.
    pub fn new() -> (r: NameCache)
        ensures
            r.entries_seq() == Seq::<CacheEntry>::empty(),
    {
        let r = NameCache { entries: Vec::new() };
        proof {
            assert(r.entries_seq() =~= Seq::<CacheEntry>::empty());
        }
        r
    }

    /// The cached suggestions for `(tenant, key)`, if any: the newest entry
    /// stored for the pair. Age is not checked here; expired entries leave
    /// through `purge_expired`.
    pub fn lookup(&self, tenant: u64, key: &str) -> (r: Option<&Vec<(String, u64)>>)
        ensures
            r is Some <==> spec_cache_hit(self.entries_seq(), tenant, key@) is Some,
            r is Some ==> r->0@ == spec_cache_hit(self.entries_seq(), tenant, key@)->0.names@,
    {
        let ghost full = self.entries_seq();
        let mut i: usize = 0;
        proof {
            assert(full.skip(0) =~= full);
        }
        while i < self.entries.len()
            invariant
                i <= full.len(),
                full == self.entries_seq(),
                spec_cache_hit(full, tenant, key@) == spec_cache_hit(
                    full.skip(i as int),
                    tenant,
                    key@,
                ),
            decreases full.len() - i,
        {
            let entry = &self.entries[i];
            proof {
                assert(full.skip(i as int)[0] == full[i as int]);
                assert(full.skip(i as int).skip(1) =~= full.skip(i + 1 as int));
            }
            if entry.tenant == tenant && str_eq(entry.key.as_str(), key) {
                return Option::Some(&entry.names);
            }
            i = i + 1;
        }
        proof {
            assert(full.skip(full.len() as int) =~= Seq::<CacheEntry>::empty());
        }
        Option::None
    }

    /// Stores a suggestion set for `(tenant, key)`; it becomes the entry
    /// lookups see for that pair, and no other pair's entry changes.
    pub fn store(&mut self, tenant: u64, key: String, names: Vec<(String, u64)>, now: u64)
        ensures
            final(self).entries_seq() == old(self).entries_seq().insert(
                0,
                CacheEntry { tenant, key, names, stored_at: now },
            ),
            spec_cache_hit(final(self).entries_seq(), tenant, key@) == Option::Some(
                CacheEntry { tenant, key, names, stored_at: now },
            ),
            forall|t: u64, k: Seq<char>|
                !(t == tenant && k == key@) ==> spec_cache_hit(final(self).entries_seq(), t, k)
                    == spec_cache_hit(old(self).entries_seq(), t, k),
    {
        let ghost before = self.entries_seq();
        let entry = CacheEntry { tenant, key, names, stored_at: now };
        self.entries.insert(0, entry);
        proof {
            let after = self.entries_seq();
            assert(after[0] == entry);
            assert(after.skip(1) =~= before);
        }
    }

    /// Drops every entry stored at or before `cutoff`; entries stored later
    /// survive in order. Lookups afterwards only see surviving entries.
    pub fn purge_expired(&mut self, cutoff: u64)
        ensures
            forall|i: int|
                0 <= i < final(self).entries_seq().len() ==> (#[trigger] final(self).entries_seq()[i]).stored_at > cutoff,
            forall|i: int|
                0 <= i < final(self).entries_seq().len() ==> old(self).entries_seq().contains(
                    #[trigger] final(self).entries_seq()[i],
                ),
    {
        let ghost before = self.entries_seq();
        let mut kept: Vec<CacheEntry> = Vec::new();
        let ghost mut done: int = 0;
        while self.entries.len() > 0
            invariant
                0 <= done <= before.len(),
                self.entries@ == before.skip(done),
                forall|k: int| 0 <= k < kept@.len() ==> (#[trigger] kept@[k]).stored_at > cutoff,
                forall|k: int| 0 <= k < kept@.len() ==> before.contains(#[trigger] kept@[k]),
            decreases self.entries@.len(),
        {
            proof {
                assert(before.skip(done)[0] == before[done]);
            }
            let e = self.entries.remove(0);
            proof {
                assert(before.skip(done).remove(0) =~= before.skip(done + 1));
            }
            if e.stored_at > cutoff {
                proof {
                    assert(before.contains(before[done]));
                }
                kept.push(e);
            }
            proof {
                done = done + 1;
            }
        }
        self.entries = kept;
    }
}

} // verus!
