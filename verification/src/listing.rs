use vstd::prelude::*;
use vstd::string::*;
use crate::batching::spec_item_url;
use crate::item::Subscription;
use crate::numbers::{spec_dec, usize_to_dec};

verus! {

/// List messages carry at most this many subscriptions each.
pub const LIST_CHUNK: usize = 10;

/// The list line for one subscription: its name and its catalog link in
/// angle brackets, on a line of its own.
pub open spec fn spec_list_line(sub: Subscription) -> Seq<char> {
    "\n"@ + sub.item.name@ + ": <"@ + spec_item_url(sub.item.id as int) + ">"@
}

/// The list lines of subscriptions `from..to`, joined with ", ".
pub open spec fn spec_joined(subs: Seq<Subscription>, from: int, to: int) -> Seq<char>
    decreases to - from,
{
    if to <= from {
        Seq::empty()
    } else if to == from + 1 {
        spec_list_line(subs[from])
    } else {
        spec_joined(subs, from, to - 1) + ", "@ + spec_list_line(subs[to - 1])
    }
}

/// The end of the list part that starts at `from`.
pub open spec fn spec_part_end(len: int, from: int) -> int {
    if from + LIST_CHUNK <= len {
        from + LIST_CHUNK
    } else {
        len
    }
}

/// How many list parts cover subscriptions `from..len`.
pub open spec fn spec_part_count(len: int, from: int) -> int
    decreases len - from,
{
    if from >= len {
        0
    } else {
        1 + spec_part_count(len, spec_part_end(len, from))
    }
}

/// The texts of the list parts covering subscriptions `from..`, numbered
/// from `part1` (1-based) out of `total`.
pub open spec fn spec_list_parts(
    subs: Seq<Subscription>,
    from: int,
    part1: int,
    total: int,
) -> Seq<Seq<char>>
    decreases subs.len() - from,
{
    if from >= subs.len() {
        Seq::empty()
    } else {
        let to = spec_part_end(subs.len() as int, from);
        seq![
            "Currently tracked items (part "@ + spec_dec(part1) + " of "@ + spec_dec(total)
                + "): "@ + spec_joined(subs, from, to),
        ] + spec_list_parts(subs, to, part1 + 1, total)
    }
}

/// The single list text for a short list.
pub open spec fn spec_list_single(subs: Seq<Subscription>) -> Seq<char> {
    "Currently tracked items: "@ + spec_joined(subs, 0, subs.len() as int)
}

/// Builds the list line for one subscription.
fn list_line(sub: &Subscription) -> (s: String)
    ensures
        s@ == spec_list_line(*sub),
{
    let mut s = String::from_str("\n");
    s.append(sub.item.name.as_str());
    s.append(": <");
    let url = crate::batching::item_url(sub.item.id);
    s.append(url.as_str());
    s.append(">");
    s
}

/// Builds the list lines of subscriptions `from..to`, joined with ", ".
fn joined_lines(subs: &Vec<Subscription>, from: usize, to: usize) -> (s: String)
    requires
        from <= to <= subs@.len(),
    ensures
        s@ == spec_joined(subs@, from as int, to as int),
{
    let mut s = String::new();
    let mut j = from;
    while j < to
        invariant
            from <= j <= to <= subs@.len(),
            s@ == spec_joined(subs@, from as int, j as int),
        decreases to - j,
    {
        if j > from {
            s.append(", ");
        }
        let line = list_line(&subs[j]);
        s.append(line.as_str());
        j = j + 1;
    }
    s
}

/// Builds the texts that list a tenant's subscriptions: a fixed sentence
/// for an empty list, one text for up to `LIST_CHUNK` subscriptions, and
/// otherwise one text per part of `LIST_CHUNK`, each labeled with its
/// 1-based position and the number of parts.
pub fn build_list_texts(subs: &Vec<Subscription>) -> (texts: Vec<String>)
    ensures
        subs@.len() == 0 ==> texts@.len() == 1 && texts@[0]@ == "There are no tracked items."@,
        0 < subs@.len() <= LIST_CHUNK ==> texts@.len() == 1 && texts@[0]@ == spec_list_single(
            subs@,
        ),
        subs@.len() > LIST_CHUNK ==> texts@.len() == spec_list_parts(
            subs@,
            0,
            1,
            spec_part_count(subs@.len() as int, 0),
        ).len(),
        subs@.len() > LIST_CHUNK ==> forall|i: int|
            0 <= i < texts@.len() ==> (#[trigger] texts@[i])@ == spec_list_parts(
                subs@,
                0,
                1,
                spec_part_count(subs@.len() as int, 0),
            )[i],
{
    let mut texts: Vec<String> = Vec::new();
    let n = subs.len();
    if n == 0 {
        texts.push(String::from_str("There are no tracked items."));
        return texts;
    }
    if n <= LIST_CHUNK {
        let mut s = String::from_str("Currently tracked items: ");
        let joined = joined_lines(subs, 0, n);
        s.append(joined.as_str());
        texts.push(s);
        return texts;
    }
    // count the parts
    let mut total: usize = 0;
    let mut from: usize = 0;
    while from < n
        invariant
            from <= n,
            n == subs@.len(),
            total + spec_part_count(n as int, from as int) == spec_part_count(n as int, 0),
            total <= from,
        decreases n - from,
    {
        from = if LIST_CHUNK <= n - from {
            from + LIST_CHUNK
        } else {
            n
        };
        total = total + 1;
    }
    // build the parts
    let ghost all = spec_list_parts(subs@, 0, 1, total as int);
    let mut from: usize = 0;
    let mut part: usize = 0;
    while from < n
        invariant
            from <= n,
            n == subs@.len(),
            part == texts@.len(),
            part <= from,
            all == spec_list_parts(subs@, 0, 1, total as int),
            all.skip(part as int) == spec_list_parts(subs@, from as int, part + 1 as int, total as int),
            part <= all.len(),
            forall|i: int| 0 <= i < part ==> (#[trigger] texts@[i])@ == all[i],
        decreases n - from,
    {
        let to = if LIST_CHUNK <= n - from {
            from + LIST_CHUNK
        } else {
            n
        };
        let mut s = String::from_str("Currently tracked items (part ");
        let a = usize_to_dec(part + 1);
        s.append(a.as_str());
        s.append(" of ");
        let b = usize_to_dec(total);
        s.append(b.as_str());
        s.append("): ");
        let joined = joined_lines(subs, from, to);
        s.append(joined.as_str());
        proof {
            let tail = spec_list_parts(subs@, from as int, part + 1 as int, total as int);
            assert(to as int == spec_part_end(n as int, from as int));
            assert(tail == seq![
                "Currently tracked items (part "@ + spec_dec(part + 1 as int) + " of "@
                    + spec_dec(total as int) + "): "@ + spec_joined(
                    subs@,
                    from as int,
                    to as int,
                ),
            ] + spec_list_parts(subs@, to as int, part + 2 as int, total as int));
            assert(s@ == tail[0]);
            assert(all.skip(part as int)[0] == tail[0]);
            assert(all[part as int] == all.skip(part as int)[0]);
            assert(all.skip(part as int).skip(1) =~= all.skip(part + 1 as int));
            assert((seq![tail[0]] + spec_list_parts(
                subs@,
                to as int,
                part + 2 as int,
                total as int,
            )).skip(1) =~= spec_list_parts(subs@, to as int, part + 2 as int, total as int));
        }
        texts.push(s);
        from = to;
        part = part + 1;
    }
    proof {
        assert(spec_list_parts(subs@, n as int, part + 1 as int, total as int) == Seq::<
            Seq<char>,
        >::empty());
        assert(all.skip(part as int).len() == 0);
    }
    texts
}

} // verus!
