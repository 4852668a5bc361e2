use vstd::prelude::*;
use crate::errors::DateError;
use crate::item::{ReportEntry, Subscription};

verus! {

/// Relies on dateparser::parse: reads a calendar date/time text into a Unix
/// timestamp. Some accepted formats are interpreted relative to the current
/// local time, so nothing is assumed about the outcome.
#[verifier::external_body]
fn parse_date(text: &str) -> (r: Option<i64>)
{
    match dateparser::parse(text) {
        Ok(d) => Some(d.timestamp()),
        Err(_) => None,
    }
}

/// Validates a parsed timestamp as a starting point for a change report:
/// it must exist, lie at or after the epoch, and not lie in the future.
pub fn validate_since(parsed: Option<i64>, now: u64) -> (r: Result<u64, DateError>)
    ensures
        r is Ok <==> parsed is Some && 0 <= parsed->0 && parsed->0 as int <= now as int,
        r is Ok ==> r->Ok_0 as int == parsed->0 as int,
        parsed is None <==> r == Result::<u64, DateError>::Err(DateError::Unparsable),
        (parsed is Some && parsed->0 < 0) <==> r == Result::<u64, DateError>::Err(
            DateError::TooOld,
        ),
        (parsed is Some && parsed->0 >= 0 && parsed->0 as int > now as int) <==> r == Result::<
            u64,
            DateError,
        >::Err(DateError::InFuture),
{
    match parsed {
        Option::None => Result::Err(DateError::Unparsable),
        Option::Some(ts) => {
            if ts < 0 {
                Result::Err(DateError::TooOld)
            } else {
                let ts_u = ts as u64;
                if ts_u > now {
                    Result::Err(DateError::InFuture)
                } else {
                    Result::Ok(ts_u)
                }
            }
        },
    }
}

/// Reads a date text into a starting point for a change report: whatever
/// the date parser answered, the result is a timestamp no later than `now`,
/// or the error that says why there is none.
pub fn since_from_text(text: &str, now: u64) -> (r: Result<u64, DateError>)
    ensures
        r is Ok ==> r->Ok_0 <= now,
{
    let parsed = parse_date(text);
    validate_since(parsed, now)
}

/// The subscriptions notified after `since`, among the first `n`, as report
/// entries, in order.
pub open spec fn spec_changes(subs: Seq<Subscription>, since: u64, n: int) -> Seq<ReportEntry>
    decreases n,
{
    if n <= 0 {
        Seq::empty()
    } else {
        let rest = spec_changes(subs, since, n - 1);
        if subs[n - 1].last_notified_at > since {
            rest.push(ReportEntry { item: subs[n - 1].item, note: subs[n - 1].note })
        } else {
            rest
        }
    }
}

/// The items whose subscriptions were notified strictly after `since`,
/// with their annotations, in order.
pub fn changes_since(subs: &Vec<Subscription>, since: u64) -> (r: Vec<ReportEntry>)
    ensures
        r@ == spec_changes(subs@, since, subs@.len() as int),
{
    let mut r: Vec<ReportEntry> = Vec::new();
    let mut i: usize = 0;
    while i < subs.len()
        invariant
            i <= subs@.len(),
            r@ == spec_changes(subs@, since, i as int),
        decreases subs@.len() - i,
    {
        let sub = &subs[i];
        if sub.last_notified_at > since {
            r.push(
                ReportEntry {
                    item: sub.item.duplicate(),
                    note: crate::item::clone_opt_string(&sub.note),
                },
            );
        }
        i = i + 1;
    }
    r
}

} // verus!
