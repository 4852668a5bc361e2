use vstd::prelude::*;
use vstd::string::*;
use crate::item::ReportEntry;
use crate::numbers::{spec_dec, u64_to_dec};

verus! {

/// Batches larger than this are split into chunks of this many entries.
pub const CHUNK_SIZE: usize = 5;

/// The consecutive chunks of at most `size` entries each, in order
/// (meaningful for `size >= 1`).
pub open spec fn spec_chunks(entries: Seq<ReportEntry>, size: int) -> Seq<Seq<ReportEntry>>
    decreases entries.len(),
{
    if entries.len() <= 0 || size < 1 {
        Seq::empty()
    } else if entries.len() <= size {
        seq![entries]
    } else {
        seq![entries.subrange(0, size)] + spec_chunks(entries.skip(size), size)
    }
}

/// There are exactly "length divided by size, rounded up" chunks.
pub proof fn lemma_chunk_count(entries: Seq<ReportEntry>, size: int)
    requires
        size >= 1,
    ensures
        spec_chunks(entries, size).len() == (entries.len() + size - 1) / size,
    decreases entries.len(),
{
    if entries.len() <= 0 {
        assert((0 + size - 1) / size == 0) by {
            vstd::arithmetic::div_mod::lemma_basic_div(size - 1, size);
        }
    } else if entries.len() <= size {
        assert((entries.len() + size - 1) / size == 1) by {
            vstd::arithmetic::div_mod::lemma_basic_div(entries.len() + size - 1 - size, size);
            vstd::arithmetic::div_mod::lemma_div_plus_one(entries.len() - 1, size);
        }
    } else {
        lemma_chunk_count(entries.skip(size), size);
        assert(entries.skip(size).len() == entries.len() - size);
        vstd::arithmetic::div_mod::lemma_div_plus_one(entries.len() - size - 1 + size, size);
        assert((entries.len() - size + size - 1) / size + 1 == (entries.len() + size - 1) / size);
    }
}

/// Chunking loses and reorders nothing: the chunks concatenate back to the
/// original entries.
pub proof fn lemma_chunks_flatten(entries: Seq<ReportEntry>, size: int)
    requires
        size >= 1,
    ensures
        spec_chunks(entries, size).flatten() == entries,
    decreases entries.len(),
{
    if entries.len() <= 0 {
        assert(spec_chunks(entries, size).flatten() =~= entries);
    } else if entries.len() <= size {
        let cs = spec_chunks(entries, size);
        assert(cs == seq![entries]);
        assert(cs.flatten() =~= entries) by {
            cs.lemma_flatten_one_element();
        }
    } else {
        lemma_chunks_flatten(entries.skip(size), size);
        let head = seq![entries.subrange(0, size)];
        let tail = spec_chunks(entries.skip(size), size);
        vstd::seq_lib::lemma_flatten_concat(head, tail);
        assert(head.flatten() =~= entries.subrange(0, size)) by {
            head.lemma_flatten_one_element();
        }
        assert(entries.subrange(0, size) + entries.skip(size) =~= entries);
    }
}

/// Splits the entries into consecutive chunks of at most `size` each.
pub fn chunk_entries(entries: &Vec<ReportEntry>, size: usize) -> (chunks: Vec<Vec<ReportEntry>>)
    requires
        size >= 1,
    ensures
        chunks@.len() == spec_chunks(entries@, size as int).len(),
        forall|i: int|
            0 <= i < chunks@.len() ==> (#[trigger] chunks@[i])@ == spec_chunks(
                entries@,
                size as int,
            )[i],
{
    let ghost full = entries@;
    let ghost s = size as int;
    let mut chunks: Vec<Vec<ReportEntry>> = Vec::new();
    let mut start: usize = 0;
    let n = entries.len();
    proof {
        assert(full.skip(0) =~= full);
        assert(spec_chunks(full, s).skip(0) =~= spec_chunks(full, s));
    }
    while start < n
        invariant
            size >= 1,
            s == size as int,
            full == entries@,
            n == full.len(),
            start <= n,
            spec_chunks(full, s).skip(chunks@.len() as int) == spec_chunks(
                full.skip(start as int),
                s,
            ),
            chunks@.len() <= spec_chunks(full, s).len(),
            forall|i: int|
                0 <= i < chunks@.len() ==> (#[trigger] chunks@[i])@ == spec_chunks(full, s)[i],
        decreases n - start,
    {
        let end = if size <= n - start {
            start + size
        } else {
            n
        };
        let mut chunk: Vec<ReportEntry> = Vec::new();
        let mut j = start;
        while j < end
            invariant
                start <= j <= end <= n,
                n == entries@.len(),
                chunk@ == entries@.subrange(start as int, j as int),
            decreases end - j,
        {
            chunk.push(entries[j].duplicate());
            proof {
                assert(entries@.subrange(start as int, j + 1 as int) =~= entries@.subrange(
                    start as int,
                    j as int,
                ).push(entries@[j as int]));
            }
            j = j + 1;
        }
        proof {
            let rest = full.skip(start as int);
            let all = spec_chunks(full, s);
            assert(rest.len() == n - start);
            let k = chunks@.len() as int;
            assert(all.skip(k) == spec_chunks(rest, s));
            if rest.len() <= s {
                // final, possibly partial chunk
                assert(spec_chunks(rest, s) == seq![rest]);
                assert(chunk@ =~= rest);
                assert(all.skip(k).len() == 1);
                assert(all.len() == k + 1);
                assert(all[k] == all.skip(k)[0]);
                assert(all[k] == chunk@);
                assert(full.skip(end as int) =~= Seq::<ReportEntry>::empty());
                assert(spec_chunks(full.skip(end as int), s) =~= Seq::<Seq<ReportEntry>>::empty());
                assert(all.skip(k + 1) =~= Seq::<Seq<ReportEntry>>::empty());
            } else {
                // full chunk of `size` entries
                let tail = spec_chunks(rest.skip(s), s);
                assert(spec_chunks(rest, s) == seq![rest.subrange(0, s)] + tail);
                assert(chunk@ =~= rest.subrange(0, s)) by {
                    assert forall|t: int|
                        0 <= t < s implies rest.subrange(0, s)[t] == full[start as int + t] by {}
                }
                assert(all.skip(k).len() == 1 + tail.len());
                assert(all[k] == all.skip(k)[0]);
                assert(all.skip(k)[0] == (seq![rest.subrange(0, s)] + tail)[0]);
                assert((seq![rest.subrange(0, s)] + tail)[0] == rest.subrange(0, s));
                assert(all[k] == chunk@);
                assert(rest.skip(s) =~= full.skip(end as int));
                assert(all.skip(k + 1) =~= tail) by {
                    assert(all.skip(k).skip(1) =~= all.skip(k + 1));
                    assert((seq![rest.subrange(0, s)] + tail).skip(1) =~= tail);
                }
                assert(all.skip(k + 1) == spec_chunks(full.skip(end as int), s));
            }
            assert(all[k] == chunk@);
        }
        chunks.push(chunk);
        start = end;
    }
    proof {
        assert(full.skip(n as int) =~= Seq::empty());
        assert(spec_chunks(full, s).skip(chunks@.len() as int).len() == 0);
    }
    chunks
}

/// One rendered entry of a notification batch: title, link, optional
/// preview image, optional annotation footer.
#[derive(Debug)]
pub struct Embed {
    /// The item's display name.
    pub title: String,
    /// The item's catalog page link.
    pub url: String,
    /// The preview image reference, if the item has one.
    pub image: Option<String>,
    /// The annotation footer, if the subscription carries a note.
    pub footer: Option<String>,
}

/// One message of a notification batch: a heading and the rendered entries.
#[derive(Debug)]
pub struct Message {
    /// The heading line.
    pub heading: String,
    /// The rendered entries, in order.
    pub embeds: Vec<Embed>,
}

/// The catalog page link for item `id`.
pub open spec fn spec_item_url(id: int) -> Seq<char> {
    "https://steamcommunity.com/sharedfiles/filedetails/?id="@ + spec_dec(id)
}

/// Builds the catalog page link for item `id`.
pub fn item_url(id: u64) -> (s: String)
    ensures
        s@ == spec_item_url(id as int),
{
    let mut s = String::from_str("https://steamcommunity.com/sharedfiles/filedetails/?id=");
    let digits = u64_to_dec(id);
    s.append(digits.as_str());
    s
}

/// How a rendered embed relates to the entry it renders.
pub open spec fn embed_matches(em: Embed, e: ReportEntry) -> bool {
    &&& em.title@ == e.item.name@
    &&& em.url@ == spec_item_url(e.item.id as int)
    &&& em.image == e.item.preview_url
    &&& match e.note {
        Option::Some(n) => em.footer is Some && em.footer->0@ == "Note: "@ + n@,
        Option::None => em.footer is None,
    }
}

/// Renders one entry: title, catalog link, the preview image if there is
/// one, and a "Note: ..." footer if the subscription carries a note.
pub fn item_to_embed(e: &ReportEntry) -> (em: Embed)
    ensures
        embed_matches(em, *e),
{
    let footer = match &e.note {
        Option::Some(n) => {
            let mut f = String::from_str("Note: ");
            f.append(n.as_str());
            Option::Some(f)
        },
        Option::None => Option::None,
    };
    Embed {
        title: e.item.name.clone(),
        url: item_url(e.item.id),
        image: crate::item::clone_opt_string(&e.item.preview_url),
        footer,
    }
}

/// How a sequence of embeds relates to the entries it renders: same length,
/// each embed rendering the entry at its position.
pub open spec fn embeds_match(ems: Seq<Embed>, entries: Seq<ReportEntry>) -> bool {
    &&& ems.len() == entries.len()
    &&& forall|i: int| 0 <= i < entries.len() ==> embed_matches(#[trigger] ems[i], entries[i])
}

/// Renders every entry, in order.
pub fn entries_to_embeds(entries: &Vec<ReportEntry>) -> (ems: Vec<Embed>)
    ensures
        embeds_match(ems@, entries@),
{
    let mut ems: Vec<Embed> = Vec::new();
    let mut i: usize = 0;
    while i < entries.len()
        invariant
            i <= entries@.len(),
            ems@.len() == i,
            forall|k: int| 0 <= k < i ==> embed_matches(#[trigger] ems@[k], entries@[k]),
        decreases entries@.len() - i,
    {
        ems.push(item_to_embed(&entries[i]));
        i = i + 1;
    }
    ems
}

/// The heading of chunk `idx1` of `total` (1-based): the base heading plus a
/// "Part idx1/total" line.
pub open spec fn spec_part_heading(base: Seq<char>, idx1: int, total: int) -> Seq<char> {
    base + "\nPart "@ + spec_dec(idx1) + "/"@ + spec_dec(total)
}

/// Builds the heading of chunk `idx1` of `total` (1-based).
pub fn part_heading(base: &str, idx1: u64, total: u64) -> (s: String)
    ensures
        s@ == spec_part_heading(base@, idx1 as int, total as int),
{
    let mut s = String::from_str(base);
    s.append("\nPart ");
    let a = u64_to_dec(idx1);
    s.append(a.as_str());
    s.append("/");
    let b = u64_to_dec(total);
    s.append(b.as_str());
    s
}

/// How a batch of messages relates to the entries it delivers, for a batch
/// small enough to go as one message: a single message with the plain
/// heading and all entries.
pub open spec fn single_message_ok(msgs: Seq<Message>, heading: Seq<char>, entries: Seq<ReportEntry>) -> bool {
    &&& msgs.len() == 1
    &&& msgs[0].heading@ == heading
    &&& embeds_match(msgs[0].embeds@, entries)
}

/// How a batch of messages relates to the entries it delivers, for a batch
/// split into chunks: one message per chunk, each labeled "Part i/n" with
/// its 1-based position, each rendering exactly its chunk's entries.
pub open spec fn chunked_messages_ok(msgs: Seq<Message>, heading: Seq<char>, entries: Seq<ReportEntry>) -> bool {
    &&& msgs.len() == spec_chunks(entries, CHUNK_SIZE as int).len()
    &&& forall|i: int|
        0 <= i < msgs.len() ==> (#[trigger] msgs[i]).heading@ == spec_part_heading(
            heading,
            i + 1,
            msgs.len() as int,
        )
    &&& forall|i: int|
        0 <= i < msgs.len() ==> embeds_match(
            (#[trigger] msgs[i]).embeds@,
            spec_chunks(entries, CHUNK_SIZE as int)[i],
        )
}

/// Builds the messages that deliver `entries` under `heading`: one message
/// if there are at most `CHUNK_SIZE` entries, otherwise one message per
/// chunk of `CHUNK_SIZE`, labeled with its 1-based position.
pub fn build_messages(heading: &str, entries: &Vec<ReportEntry>) -> (msgs: Vec<Message>)
    ensures
        entries@.len() <= CHUNK_SIZE ==> single_message_ok(msgs@, heading@, entries@),
        entries@.len() > CHUNK_SIZE ==> chunked_messages_ok(msgs@, heading@, entries@),
{
    let mut msgs: Vec<Message> = Vec::new();
    if entries.len() <= CHUNK_SIZE {
        let ems = entries_to_embeds(entries);
        msgs.push(Message { heading: String::from_str(heading), embeds: ems });
        return msgs;
    }
    let chunks = chunk_entries(entries, CHUNK_SIZE);
    let total = chunks.len();
    let mut i: usize = 0;
    while i < total
        invariant
            total == spec_chunks(entries@, CHUNK_SIZE as int).len(),
            chunks@.len() == total,
            i <= total,
            msgs@.len() == i,
            forall|k: int|
                0 <= k < i ==> (#[trigger] msgs@[k]).heading@ == spec_part_heading(
                    heading@,
                    k + 1,
                    total as int,
                ),
            forall|k: int|
                0 <= k < i ==> embeds_match(
                    (#[trigger] msgs@[k]).embeds@,
                    spec_chunks(entries@, CHUNK_SIZE as int)[k],
                ),
            forall|k: int|
                0 <= k < total ==> (#[trigger] chunks@[k])@ == spec_chunks(
                    entries@,
                    CHUNK_SIZE as int,
                )[k],
        decreases total - i,
    {
        let ems = entries_to_embeds(&chunks[i]);
        let h = part_heading(heading, (i as u64) + 1, total as u64);
        msgs.push(Message { heading: h, embeds: ems });
        i = i + 1;
    }
    proof {
        lemma_chunk_count(entries@, CHUNK_SIZE as int);
    }
    msgs
}

} // verus!
