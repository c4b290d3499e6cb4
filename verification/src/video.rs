//! Video value objects and the pure list transformations of the pipeline:
//! time-window filtering, watched-state deduplication, and the stable
//! newest-first sort.

use vstd::prelude::*;

use crate::channel::ChannelId;
use crate::watched::WatchedSet;

verus! {

/// A video identifier is rejected exactly when it is empty.
#[derive(Debug, PartialEq, Eq)]
pub struct VideoIdError;

/// Opaque non-empty token uniquely identifying a video.
#[derive(Debug)]
pub struct VideoId(String);

impl View for VideoId {
    type V = Seq<char>;

    closed spec fn view(&self) -> Seq<char> {
        self.0@
    }
}

impl VideoId {
    /// Validating factory: accepts every non-empty token verbatim.
    pub fn parse(id: &str) -> (r: Result<VideoId, VideoIdError>)
        ensures
            id@.len() == 0 ==> r == Err::<VideoId, VideoIdError>(VideoIdError),
            id@.len() > 0 ==> (r matches Ok(v) && v@ == id@),
    {
        if id.is_empty() {
            return Err(VideoIdError);
        }
        Ok(VideoId(id.to_owned()))
    }

    /// The underlying token.
    pub fn as_str(&self) -> (r: &str)
        ensures
            r@ == self@,
    {
        self.0.as_str()
    }
}

impl Clone for VideoId {
    fn clone(&self) -> (r: Self)
        ensures
            r == *self,
    {
        VideoId(self.0.clone())
    }
}

impl PartialEq for VideoId {
    fn eq(&self, other: &VideoId) -> (r: bool) {
        self.0 == other.0
    }
}

impl vstd::std_specs::cmp::PartialEqSpecImpl for VideoId {
    open spec fn obeys_eq_spec() -> bool {
        true
    }

    open spec fn eq_spec(&self, other: &VideoId) -> bool {
        self@ == other@
    }
}

impl Eq for VideoId {}

/// A fetch window must be a positive number of days.
#[derive(Debug, PartialEq, Eq)]
pub struct FetchWindowDaysError;

/// Recency window in days; always positive.
#[derive(Debug, Clone, Copy, PartialEq, Eq, Structural)]
pub struct FetchWindowDays(i64);

impl View for FetchWindowDays {
    type V = int;

    closed spec fn view(&self) -> int {
        self.0 as int
    }
}

impl FetchWindowDays {
    #[verifier::type_invariant]
    spec fn positive(&self) -> bool {
        self.0 >= 1
    }

    /// Validating factory: rejects every non-positive count of days.
    pub fn parse(days: i64) -> (r: Result<FetchWindowDays, FetchWindowDaysError>)
        ensures
            days <= 0 ==> r == Err::<FetchWindowDays, FetchWindowDaysError>(FetchWindowDaysError),
            days > 0 ==> (r matches Ok(w) && w@ == days as int),
    {
        if days <= 0 {
            return Err(FetchWindowDaysError);
        }
        Ok(FetchWindowDays(days))
    }

    /// The number of days; always at least one.
    pub fn as_i64(self) -> (r: i64)
        ensures
            r as int == self@,
            r >= 1,
    {
        proof {
            use_type_invariant(&self);
        }
        self.0
    }
}

/// A selection number must be at least 1.
#[derive(Debug, PartialEq, Eq)]
pub struct VideoNumberError;

/// A 1-based ordinal the user types to pick a video from the candidate list.
#[derive(Debug, Clone, Copy, PartialEq, Eq, Structural)]
pub struct VideoNumber(usize);

impl View for VideoNumber {
    type V = int;

    closed spec fn view(&self) -> int {
        self.0 as int
    }
}

impl VideoNumber {
    #[verifier::type_invariant]
    spec fn at_least_one(&self) -> bool {
        self.0 >= 1
    }

    /// Validating factory: zero is rejected.
    pub fn parse(n: usize) -> (r: Result<VideoNumber, VideoNumberError>)
        ensures
            n == 0 ==> r == Err::<VideoNumber, VideoNumberError>(VideoNumberError),
            n > 0 ==> (r matches Ok(v) && v@ == n as int),
    {
        if n == 0 {
            return Err(VideoNumberError);
        }
        Ok(VideoNumber(n))
    }

    /// The 0-based offset into the candidate list.
    pub fn to_index(self) -> (r: usize)
        ensures
            r as int == self@ - 1,
    {
        proof {
            use_type_invariant(&self);
        }
        self.0 - 1
    }
}

/// One video entry as produced by a feed source. The publication instant is
/// kept as whole seconds since the Unix epoch, UTC.
#[derive(Debug)]
pub struct Video {
    pub id: VideoId,
    pub title: String,
    pub url: String,
    pub published: i64,
    pub channel_name: String,
    pub channel_id: ChannelId,
}

impl Clone for Video {
    fn clone(&self) -> (r: Self)
        ensures
            r == *self,
    {
        Video {
            id: self.id.clone(),
            title: self.title.clone(),
            url: self.url.clone(),
            published: self.published,
            channel_name: self.channel_name.clone(),
            channel_id: self.channel_id.clone(),
        }
    }
}

/// Whether a video is recent enough for the window: the cutoff is inclusive.
pub open spec fn in_window(v: Video, cutoff: int) -> bool {
    v.published >= cutoff
}

/// Exactly the videos published at or after the cutoff, in order.
pub open spec fn window_filtered(s: Seq<Video>, cutoff: int) -> Seq<Video> {
    s.filter(|v: Video| in_window(v, cutoff))
}

/// Exactly the videos whose identifier is not in the watched set, in order.
pub open spec fn unwatched_filtered(s: Seq<Video>, watched: Set<Seq<char>>) -> Seq<Video> {
    s.filter(|v: Video| !watched.contains(v.id@))
}

proof fn lemma_window_filtered_one(s: Seq<Video>, x: Video, cutoff: int)
    ensures
        window_filtered(s + seq![x], cutoff) == window_filtered(s, cutoff) + (if in_window(
            x,
            cutoff,
        ) {
            seq![x]
        } else {
            Seq::<Video>::empty()
        }),
{
    reveal_with_fuel(Seq::filter, 2);
    let sx = s + seq![x];
    assert(sx.drop_last() =~= s);
    assert(sx.last() == x);
    if in_window(x, cutoff) {
        assert(window_filtered(sx, cutoff) =~= window_filtered(s, cutoff) + seq![x]);
    } else {
        assert(window_filtered(sx, cutoff) =~= window_filtered(s, cutoff) + Seq::<Video>::empty());
    }
}

proof fn lemma_unwatched_filtered_one(s: Seq<Video>, x: Video, watched: Set<Seq<char>>)
    ensures
        unwatched_filtered(s + seq![x], watched) == unwatched_filtered(s, watched) + (if !watched
            .contains(x.id@) {
            seq![x]
        } else {
            Seq::<Video>::empty()
        }),
{
    reveal_with_fuel(Seq::filter, 2);
    let sx = s + seq![x];
    assert(sx.drop_last() =~= s);
    assert(sx.last() == x);
    if !watched.contains(x.id@) {
        assert(unwatched_filtered(sx, watched) =~= unwatched_filtered(s, watched) + seq![x]);
    } else {
        assert(unwatched_filtered(sx, watched) =~= unwatched_filtered(s, watched)
            + Seq::<Video>::empty());
    }
}

/// Every element of a filtered sequence comes from the sequence it was
/// filtered out of.
pub(crate) broadcast proof fn lemma_filter_elems<A>(s: Seq<A>, pred: spec_fn(A) -> bool)
    ensures
        #![trigger s.filter(pred)]
        forall|k: int| 0 <= k < s.filter(pred).len() ==> s.contains(s.filter(pred)[k]),
    decreases s.len(),
{
    reveal_with_fuel(Seq::filter, 1);
    if s.len() > 0 {
        let d = s.drop_last();
        lemma_filter_elems(d, pred);
        assert forall|k: int| 0 <= k < s.filter(pred).len() implies s.contains(
            s.filter(pred)[k],
        ) by {
            if k < d.filter(pred).len() {
                assert(d.contains(d.filter(pred)[k]));
                let j = choose|j: int| 0 <= j < d.len() && d[j] == d.filter(pred)[k];
                assert(s[j] == s.filter(pred)[k]);
            } else {
                assert(s[s.len() - 1] == s.filter(pred)[k]);
            }
        }
    }
}

/// The window filter keeps exactly the videos published at or after the
/// cutoff: membership in its output is membership in the input together
/// with recency.
pub proof fn lemma_window_filter_membership(s: Seq<Video>, cutoff: int, v: Video)
    ensures
        window_filtered(s, cutoff).contains(v) <==> (s.contains(v) && v.published >= cutoff),
{
    broadcast use vstd::seq_lib::group_filter_ensures;
    broadcast use lemma_filter_elems;

    if window_filtered(s, cutoff).contains(v) {
        let k = choose|k: int|
            0 <= k < window_filtered(s, cutoff).len() && window_filtered(s, cutoff)[k] == v;
        assert(s.contains(window_filtered(s, cutoff)[k]));
    }
    if s.contains(v) && v.published >= cutoff {
        let i = choose|i: int| 0 <= i < s.len() && s[i] == v;
        assert(window_filtered(s, cutoff).contains(s[i]));
    }
}

/// The dedup filter keeps exactly the videos whose identifier is absent
/// from the watched set: membership in its output is membership in the
/// input together with being unwatched.
pub proof fn lemma_dedup_filter_membership(s: Seq<Video>, watched: Set<Seq<char>>, v: Video)
    ensures
        unwatched_filtered(s, watched).contains(v) <==> (s.contains(v) && !watched.contains(
            v.id@,
        )),
{
    broadcast use vstd::seq_lib::group_filter_ensures;
    broadcast use lemma_filter_elems;

    if unwatched_filtered(s, watched).contains(v) {
        let k = choose|k: int|
            0 <= k < unwatched_filtered(s, watched).len() && unwatched_filtered(s, watched)[k]
                == v;
        assert(s.contains(unwatched_filtered(s, watched)[k]));
    }
    if s.contains(v) && !watched.contains(v.id@) {
        let i = choose|i: int| 0 <= i < s.len() && s[i] == v;
        assert(unwatched_filtered(s, watched).contains(s[i]));
    }
}

/// Keep exactly the videos published at or after the cutoff (boundary
/// inclusive), preserving their order.
pub fn filter_by_window(videos: &Vec<Video>, cutoff: i64) -> (r: Vec<Video>)
    ensures
        r@ == window_filtered(videos@, cutoff as int),
{
    let mut out: Vec<Video> = Vec::new();
    let mut i: usize = 0;
    while i < videos.len()
        invariant
            i <= videos.len(),
            out@ == window_filtered(videos@.take(i as int), cutoff as int),
        decreases videos.len() - i,
    {
        proof {
            assert(videos@.take(i + 1) =~= videos@.take(i as int) + seq![videos@[i as int]]);
            lemma_window_filtered_one(videos@.take(i as int), videos@[i as int], cutoff as int);
        }
        if videos[i].published >= cutoff {
            out.push(videos[i].clone());
        }
        i += 1;
    }
    proof {
        assert(videos@.take(videos@.len() as int) =~= videos@);
    }
    out
}

/// Keep exactly the videos whose identifier is absent from the watched
/// snapshot, preserving their order.
pub fn filter_unwatched(videos: &Vec<Video>, watched: &WatchedSet) -> (r: Vec<Video>)
    ensures
        r@ == unwatched_filtered(videos@, watched@),
{
    let mut out: Vec<Video> = Vec::new();
    let mut i: usize = 0;
    while i < videos.len()
        invariant
            i <= videos.len(),
            out@ == unwatched_filtered(videos@.take(i as int), watched@),
        decreases videos.len() - i,
    {
        proof {
            assert(videos@.take(i + 1) =~= videos@.take(i as int) + seq![videos@[i as int]]);
            lemma_unwatched_filtered_one(videos@.take(i as int), videos@[i as int], watched@);
        }
        if !watched.contains(&videos[i].id) {
            out.push(videos[i].clone());
        }
        i += 1;
    }
    proof {
        assert(videos@.take(videos@.len() as int) =~= videos@);
    }
    out
}

/// Newest first: every video is published no earlier than each video after
/// it.
pub open spec fn sorted_newest_first(s: Seq<Video>) -> bool {
    forall|i: int, j: int| 0 <= i <= j < s.len() ==> s[i].published >= s[j].published
}

/// Index of the first video carrying the greatest publish timestamp.
pub open spec fn first_newest_index(s: Seq<Video>) -> int
    decreases s.len(),
{
    if s.len() <= 1 {
        0
    } else {
        let j = 1 + first_newest_index(s.drop_first());
        if s[0].published >= s[j].published {
            0
        } else {
            j
        }
    }
}

proof fn lemma_first_newest_index_props(s: Seq<Video>)
    requires
        s.len() > 0,
    ensures
        0 <= first_newest_index(s) < s.len(),
        forall|j: int|
            0 <= j < s.len() ==> s[first_newest_index(s)].published >= #[trigger] s[j].published,
        forall|j: int|
            0 <= j < first_newest_index(s) ==> #[trigger] s[j].published < s[first_newest_index(
                s,
            )].published,
    decreases s.len(),
{
    if s.len() > 1 {
        let t = s.drop_first();
        lemma_first_newest_index_props(t);
        let jt = first_newest_index(t);
        let i = first_newest_index(s);
        assert forall|k: int| 0 <= k < t.len() implies t[k] == s[k + 1] by {}
        assert forall|j: int| 0 <= j < s.len() implies s[i].published >= #[trigger] s[j].published by {
            if j >= 1 {
                assert(t[jt].published >= t[j - 1].published);
            }
        }
        assert forall|j: int| 0 <= j < i implies #[trigger] s[j].published < s[i].published by {
            if j >= 1 {
                assert(t[j - 1].published < t[jt].published);
            }
        }
    }
}

/// The first index with the greatest timestamp is the only index that is
/// maximal and strictly above everything before it.
proof fn lemma_first_newest_index_unique(s: Seq<Video>, i: int)
    requires
        0 <= i < s.len(),
        forall|j: int| 0 <= j < s.len() ==> s[i].published >= s[j].published,
        forall|j: int| 0 <= j < i ==> s[j].published < s[i].published,
    ensures
        i == first_newest_index(s),
{
    lemma_first_newest_index_props(s);
    let f = first_newest_index(s);
    if i < f {
        assert(s[i].published < s[f].published);
    } else if f < i {
        assert(s[f].published < s[i].published);
    }
}

/// The stable newest-first ordering of a sequence: repeatedly move the first
/// video with the greatest publish timestamp to the front of what remains.
pub open spec fn sort_newest(s: Seq<Video>) -> Seq<Video>
    decreases s.len(),
    via sort_newest_decreases
{
    if s.len() == 0 {
        s
    } else {
        seq![s[first_newest_index(s)]] + sort_newest(s.remove(first_newest_index(s)))
    }
}

#[via_fn]
proof fn sort_newest_decreases(s: Seq<Video>) {
    if s.len() != 0 {
        lemma_first_newest_index_props(s);
    }
}

/// Sort the list newest first, in place. The result is exactly the stable
/// descending ordering of the input: see `lemma_sort_newest_sorted` and
/// `lemma_sort_newest_stable`.
pub fn sort_newest_first(videos: &mut Vec<Video>)
    ensures
        final(videos)@ == sort_newest(old(videos)@),
{
    let ghost orig = old(videos)@;
    let mut out: Vec<Video> = Vec::new();
    while videos.len() > 0
        invariant
            sort_newest(orig) == out@ + sort_newest(videos@),
        decreases videos.len(),
    {
        let mut best: usize = 0;
        let mut k: usize = 1;
        while k < videos.len()
            invariant
                videos@.len() > 0,
                best < k,
                1 <= k <= videos@.len(),
                forall|j: int|
                    0 <= j < k ==> videos@[best as int].published >= videos@[j].published,
                forall|j: int|
                    0 <= j < best ==> videos@[j].published < videos@[best as int].published,
            decreases videos.len() - k,
        {
            if videos[k].published > videos[best].published {
                best = k;
            }
            k += 1;
        }
        proof {
            lemma_first_newest_index_unique(videos@, best as int);
        }
        let ghost vs = videos@;
        let ghost out_before = out@;
        let v = videos.remove(best);
        out.push(v);
        proof {
            assert(sort_newest(vs) == seq![v] + sort_newest(videos@));
            assert(out@ =~= out_before + seq![v]);
            assert((out_before + seq![v]) + sort_newest(videos@) =~= out_before + (seq![v]
                + sort_newest(videos@)));
        }
    }
    proof {
        assert(out@ + sort_newest(videos@) =~= out@);
    }
    *videos = out;
}

proof fn lemma_sort_newest_elems(s: Seq<Video>)
    ensures
        sort_newest(s).len() == s.len(),
        forall|k: int| 0 <= k < s.len() ==> s.contains(#[trigger] sort_newest(s)[k]),
    decreases s.len(),
{
    if s.len() > 0 {
        lemma_first_newest_index_props(s);
        let i = first_newest_index(s);
        let rest = s.remove(i);
        lemma_sort_newest_elems(rest);
        assert forall|k: int| 0 <= k < s.len() implies s.contains(#[trigger] sort_newest(s)[k]) by {
            if k == 0 {
                assert(sort_newest(s)[0] == s[i]);
            } else {
                let x = sort_newest(s)[k];
                assert(x == sort_newest(rest)[k - 1]);
                assert(rest.contains(x));
                let j = choose|j: int| 0 <= j < rest.len() && rest[j] == x;
                if j < i {
                    assert(s[j] == x);
                } else {
                    assert(s[j + 1] == x);
                }
            }
        }
    }
}

/// The stable newest-first ordering is sorted: publish timestamps never
/// increase across it.
pub proof fn lemma_sort_newest_sorted(s: Seq<Video>)
    ensures
        sorted_newest_first(sort_newest(s)),
    decreases s.len(),
{
    if s.len() > 0 {
        lemma_first_newest_index_props(s);
        let i = first_newest_index(s);
        let rest = s.remove(i);
        lemma_sort_newest_sorted(rest);
        lemma_sort_newest_elems(rest);
        let out = sort_newest(s);
        assert forall|a: int, b: int|
            0 <= a <= b < out.len() implies out[a].published >= out[b].published by {
            if a == 0 && b > 0 {
                let x = sort_newest(rest)[b - 1];
                assert(rest.contains(x));
                let j = choose|j: int| 0 <= j < rest.len() && rest[j] == x;
                if j < i {
                    assert(s[i].published >= s[j].published);
                } else {
                    assert(s[i].published >= s[j + 1].published);
                }
            } else if a > 0 {
                assert(sort_newest(rest)[a - 1].published >= sort_newest(rest)[b - 1].published);
            }
        }
    }
}

/// The stable newest-first ordering is a permutation of the input: it keeps
/// exactly the input's videos, multiplicity included.
pub proof fn lemma_sort_newest_permutes(s: Seq<Video>)
    ensures
        sort_newest(s).to_multiset() == s.to_multiset(),
    decreases s.len(),
{
    broadcast use vstd::seq_lib::group_to_multiset_ensures;

    if s.len() > 0 {
        lemma_first_newest_index_props(s);
        let i = first_newest_index(s);
        let rest = s.remove(i);
        lemma_sort_newest_permutes(rest);
        assert(sort_newest(s) =~= sort_newest(rest).insert(0, s[i]));
        assert(sort_newest(s).to_multiset() == rest.to_multiset().insert(s[i]));
        assert(s.contains(s[i]));
        assert(s.to_multiset().count(s[i]) > 0);
        assert(rest.to_multiset() == s.to_multiset().remove(s[i]));
        assert(s.to_multiset().remove(s[i]).insert(s[i]) =~= s.to_multiset());
    }
}

/// Sorting neither adds nor removes videos: membership is unchanged.
pub proof fn lemma_sort_newest_contains(s: Seq<Video>, v: Video)
    ensures
        sort_newest(s).contains(v) <==> s.contains(v),
{
    broadcast use vstd::seq_lib::group_to_multiset_ensures;

    lemma_sort_newest_permutes(s);
    assert(sort_newest(s).contains(v) <==> sort_newest(s).to_multiset().count(v) > 0);
    assert(s.contains(v) <==> s.to_multiset().count(v) > 0);
}

/// The videos carrying one particular publish timestamp, in order.
pub open spec fn published_at(s: Seq<Video>, t: int) -> Seq<Video> {
    s.filter(|v: Video| v.published == t)
}

proof fn lemma_published_at_none(s: Seq<Video>, t: int)
    requires
        forall|j: int| 0 <= j < s.len() ==> #[trigger] s[j].published != t,
    ensures
        published_at(s, t) == Seq::<Video>::empty(),
    decreases s.len(),
{
    reveal_with_fuel(Seq::filter, 1);
    if s.len() > 0 {
        lemma_published_at_none(s.drop_last(), t);
        assert(published_at(s, t) =~= Seq::<Video>::empty());
    } else {
        assert(published_at(s, t) =~= Seq::<Video>::empty());
    }
}

/// Stability of the ordering: for every timestamp, the sorted sequence lists
/// the videos carrying it in exactly the input's relative order.
pub proof fn lemma_sort_newest_stable(s: Seq<Video>, t: int)
    ensures
        published_at(sort_newest(s), t) == published_at(s, t),
    decreases s.len(),
{
    broadcast use Seq::filter_distributes_over_add;

    reveal_with_fuel(Seq::filter, 2);
    if s.len() > 0 {
        lemma_first_newest_index_props(s);
        let i = first_newest_index(s);
        let rest = s.remove(i);
        lemma_sort_newest_stable(rest, t);
        let pre = s.subrange(0, i);
        let suf = s.subrange(i + 1, s.len() as int);
        let one = seq![s[i]];
        assert(rest =~= pre + suf);
        assert(s =~= (pre + one) + suf);
        assert(published_at(s, t) == (published_at(pre, t) + published_at(one, t))
            + published_at(suf, t));
        assert(sort_newest(s) == one + sort_newest(rest));
        assert(published_at(sort_newest(s), t) == published_at(one, t) + (published_at(pre, t)
            + published_at(suf, t)));
        if t == s[i].published {
            assert forall|j: int| 0 <= j < pre.len() implies #[trigger] pre[j].published != t by {
                assert(pre[j] == s[j]);
                assert(s[j].published < s[i].published);
            }
            lemma_published_at_none(pre, t);
            assert(published_at(one, t) =~= one);
            assert(published_at(sort_newest(s), t) =~= published_at(s, t));
        } else {
            assert forall|j: int| 0 <= j < one.len() implies #[trigger] one[j].published != t by {}
            lemma_published_at_none(one, t);
            assert(published_at(sort_newest(s), t) =~= published_at(s, t));
        }
    }
}

} // verus!
