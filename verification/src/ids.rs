use vstd::prelude::*;
use vstd::string::*;
use crate::numbers::{all_dec_digits, dec_val, fits_u64, parse_u64};

verus! {

/// Whether `c` is ASCII whitespace as trimmed around id segments.
pub open spec fn spec_is_space(c: char) -> bool {
    c == ' ' || c == '\t' || c == '\n' || c == '\r'
}

/// The comma-separated segments of `s`, in order; a text without commas is
/// one segment, and an empty text is one empty segment.
pub open spec fn spec_segments(s: Seq<char>) -> Seq<Seq<char>>
    decreases s.len(),
{
    if s.len() == 0 {
        seq![Seq::empty()]
    } else if s.last() == ',' {
        spec_segments(s.drop_last()).push(Seq::empty())
    } else {
        let rest = spec_segments(s.drop_last());
        rest.update(rest.len() - 1, rest.last().push(s.last()))
    }
}

/// A split always yields at least one segment.
pub proof fn lemma_segments_nonempty(s: Seq<char>)
    ensures
        spec_segments(s).len() >= 1,
    decreases s.len(),
{
    if s.len() > 0 {
        lemma_segments_nonempty(s.drop_last());
    }
}

/// `s` without leading whitespace.
pub open spec fn spec_trim_front(s: Seq<char>) -> Seq<char>
    decreases s.len(),
{
    if s.len() > 0 && spec_is_space(s[0]) {
        spec_trim_front(s.skip(1))
    } else {
        s
    }
}

/// `s` without trailing whitespace.
pub open spec fn spec_trim_back(s: Seq<char>) -> Seq<char>
    decreases s.len(),
{
    if s.len() > 0 && spec_is_space(s.last()) {
        spec_trim_back(s.drop_last())
    } else {
        s
    }
}

/// `s` without leading and trailing whitespace.
pub open spec fn spec_trim(s: Seq<char>) -> Seq<char> {
    spec_trim_back(spec_trim_front(s))
}

/// Whether a segment, after trimming, reads as an unsigned decimal id.
pub open spec fn spec_segment_ok(seg: Seq<char>) -> bool {
    &&& spec_trim(seg).len() > 0
    &&& all_dec_digits(spec_trim(seg))
    &&& fits_u64(spec_trim(seg))
}

/// Whether every comma-separated segment of `s` reads as an id.
pub open spec fn spec_all_segments_ok(s: Seq<char>) -> bool {
    forall|i: int|
        0 <= i < spec_segments(s).len() ==> spec_segment_ok(#[trigger] spec_segments(s)[i])
}

/// The id each segment of `s` reads as (meaningful when all segments are
/// well-formed).
pub open spec fn spec_segment_id(s: Seq<char>, i: int) -> int {
    dec_val(spec_trim(spec_segments(s)[i]))
}

/// Splits `s` at commas into its raw segments.
fn split_commas(s: &str) -> (segs: Vec<String>)
    ensures
        segs@.len() == spec_segments(s@).len(),
        forall|i: int|
            0 <= i < segs@.len() ==> (#[trigger] segs@[i])@ == spec_segments(s@)[i],
{
    let mut done: Vec<String> = Vec::new();
    let mut seg_start: usize = 0;
    let len = s.unicode_len();
    let mut i: usize = 0;
    while i < len
        invariant
            seg_start <= i <= len,
            len == s@.len(),
            spec_segments(s@.subrange(0, i as int)).len() == done@.len() + 1,
            forall|k: int|
                0 <= k < done@.len() ==> (#[trigger] done@[k])@ == spec_segments(
                    s@.subrange(0, i as int),
                )[k],
            spec_segments(s@.subrange(0, i as int)).last() == s@.subrange(
                seg_start as int,
                i as int,
            ),
        decreases len - i,
    {
        let ghost pre = s@.subrange(0, i as int);
        let ghost post = s@.subrange(0, i + 1 as int);
        proof {
            assert(post.drop_last() =~= pre);
            assert(post.last() == s@[i as int]);
            lemma_segments_nonempty(pre);
        }
        let c = s.get_char(i);
        if c == ',' {
            done.push(String::from_str(s.substring_char(seg_start, i)));
            seg_start = i + 1;
            proof {
                assert(spec_segments(post) == spec_segments(pre).push(Seq::<char>::empty()));
                assert(s@.subrange(seg_start as int, i + 1 as int) =~= Seq::<char>::empty());
            }
        } else {
            proof {
                assert(s@.subrange(seg_start as int, i + 1 as int) =~= s@.subrange(
                    seg_start as int,
                    i as int,
                ).push(s@[i as int]));
            }
        }
        i = i + 1;
    }
    proof {
        assert(s@.subrange(0, len as int) =~= s@);
        lemma_segments_nonempty(s@);
    }
    done.push(String::from_str(s.substring_char(seg_start, len)));
    done
}

/// Trims ASCII whitespace from both ends.
fn trim_spaces(s: &str) -> (r: String)
    ensures
        r@ == spec_trim(s@),
{
    let len = s.unicode_len();
    let mut start: usize = 0;
    proof {
        assert(s@.skip(0) =~= s@);
    }
    while start < len && is_space_char(s.get_char(start))
        invariant
            start <= len,
            len == s@.len(),
            spec_trim_front(s@) == spec_trim_front(s@.skip(start as int)),
        decreases len - start,
    {
        proof {
            let rest = s@.skip(start as int);
            assert(rest[0] == s@[start as int]);
            assert(rest.skip(1) =~= s@.skip(start + 1 as int));
        }
        start = start + 1;
    }
    proof {
        let rest = s@.skip(start as int);
        if start < len {
            assert(rest[0] == s@[start as int]);
            assert(!spec_is_space(rest[0]));
        }
        assert(spec_trim_front(s@) == rest);
    }
    let mut end: usize = len;
    while end > start && is_space_char(s.get_char(end - 1))
        invariant
            start <= end <= len,
            len == s@.len(),
            spec_trim_front(s@) == s@.skip(start as int),
            spec_trim_back(s@.skip(start as int)) == spec_trim_back(
                s@.subrange(start as int, end as int),
            ),
            start < len ==> !spec_is_space(s@[start as int]),
        decreases end,
    {
        proof {
            let cur = s@.subrange(start as int, end as int);
            assert(cur.last() == s@[end - 1]);
            assert(cur.drop_last() =~= s@.subrange(start as int, end - 1));
        }
        end = end - 1;
    }
    proof {
        let cur = s@.subrange(start as int, end as int);
        if end > start {
            assert(cur.last() == s@[end - 1]);
            assert(!spec_is_space(cur.last()));
        }
        assert(spec_trim_back(cur) == cur);
        assert(s@.skip(start as int) =~= s@.subrange(start as int, len as int));
    }
    String::from_str(s.substring_char(start, end))
}

/// Whether `c` is ASCII whitespace.
fn is_space_char(c: char) -> (r: bool)
    ensures
        r == spec_is_space(c),
{
    c == ' ' || c == '\t' || c == '\n' || c == '\r'
}

/// How many segments of `s` do not read as ids.
pub open spec fn spec_bad_segments(s: Seq<char>, n: int) -> int
    decreases n,
{
    if n <= 0 {
        0
    } else {
        spec_bad_segments(s, n - 1) + if spec_segment_ok(spec_segments(s)[n - 1]) {
            0int
        } else {
            1int
        }
    }
}

/// Reads a comma-separated list of item ids, each trimmed of surrounding
/// whitespace. Succeeds exactly when every segment reads as an unsigned
/// decimal id, yielding the ids in order; otherwise reports how many
/// segments do not.
pub fn parse_id_list(s: &str) -> (r: Result<Vec<u64>, usize>)
    ensures
        r is Ok <==> spec_all_segments_ok(s@),
        r is Ok ==> r->Ok_0@.len() == spec_segments(s@).len(),
        r is Ok ==> forall|i: int|
            0 <= i < spec_segments(s@).len() ==> r->Ok_0@[i] as int == spec_segment_id(s@, i),
        r is Err ==> r->Err_0 as int == spec_bad_segments(
            s@,
            spec_segments(s@).len() as int,
        ) && r->Err_0 > 0,
{
    let segs = split_commas(s);
    let mut ids: Vec<u64> = Vec::new();
    let mut bad: usize = 0;
    let mut i: usize = 0;
    while i < segs.len()
        invariant
            i <= segs@.len(),
            segs@.len() == spec_segments(s@).len(),
            forall|k: int|
                0 <= k < segs@.len() ==> (#[trigger] segs@[k])@ == spec_segments(s@)[k],
            bad as int == spec_bad_segments(s@, i as int),
            bad == 0 ==> ids@.len() == i,
            bad == 0 ==> forall|k: int| 0 <= k < i ==> ids@[k] as int == spec_segment_id(s@, k),
            bad == 0 ==> forall|k: int|
                0 <= k < i ==> spec_segment_ok(#[trigger] spec_segments(s@)[k]),
            bad as int <= i,
        decreases segs@.len() - i,
    {
        let trimmed = trim_spaces(segs[i].as_str());
        match parse_u64(trimmed.as_str()) {
            Option::Some(v) => {
                ids.push(v);
            },
            Option::None => {
                bad = bad + 1;
            },
        }
        i = i + 1;
    }
    if bad == 0 {
        Result::Ok(ids)
    } else {
        proof {
            if spec_all_segments_ok(s@) {
                lemma_no_bad_segments(s@, spec_segments(s@).len() as int);
            }
        }
        Result::Err(bad)
    }
}

/// When every segment is well-formed, none is counted bad.
proof fn lemma_no_bad_segments(s: Seq<char>, n: int)
    requires
        spec_all_segments_ok(s),
        n <= spec_segments(s).len(),
    ensures
        spec_bad_segments(s, n) == 0,
    decreases n,
{
    if n > 0 {
        lemma_no_bad_segments(s, n - 1);
    }
}

} // verus!
