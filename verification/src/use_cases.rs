//! The aggregation pipeline and the marking/playback use cases.
//!
//! The pipeline merges per-channel window-filtered retrievals, sorts newest
//! first (stable), drops watched videos, then drops short-form videos. A
//! failing channel contributes nothing and never fails the run; only a
//! store failure aborts it.

use vstd::prelude::*;

use crate::channel::Channel;
use crate::clock::now_unix;
use crate::ports::{
    FeedFetcher, FetchError, PlayError, ShortsChecker, StoreError, VideoPlayer, VideoStore,
};
use crate::video::{
    filter_by_window, filter_unwatched, lemma_filter_elems, lemma_sort_newest_sorted, sort_newest,
    sort_newest_first, sorted_newest_first, unwatched_filtered, window_filtered, FetchWindowDays,
    Video,
};
use crate::watched::WatchedSet;

verus! {

/// Errors that abort a whole run.
#[derive(Debug)]
pub enum AppError {
    Store(StoreError),
    Play(PlayError),
}

/// The inclusive recency cutoff of a window ending `now`, clamped to the
/// least representable instant.
pub open spec fn spec_cutoff(now: int, days: int) -> int {
    if now - days * 86400 < i64::MIN as int {
        i64::MIN as int
    } else {
        now - days * 86400
    }
}

/// Compute the cutoff `now − window`, in seconds.
pub fn cutoff_timestamp(now: i64, window: FetchWindowDays) -> (r: i64)
    ensures
        r as int == spec_cutoff(now as int, window@),
{
    let days = window.as_i64();
    let c: i128 = now as i128 - days as i128 * 86400;
    if c < i64::MIN as i128 {
        i64::MIN
    } else {
        c as i64
    }
}

/// What one per-channel outcome contributes after its own window filter: a
/// failed channel contributes nothing.
pub open spec fn channel_contribution(r: Result<Vec<Video>, FetchError>, cutoff: int) -> Seq<
    Video,
> {
    match r {
        Ok(vs) => window_filtered(vs@, cutoff),
        Err(_) => Seq::<Video>::empty(),
    }
}

/// All per-channel contributions, merged in channel order.
pub open spec fn merged(fetched: Seq<Result<Vec<Video>, FetchError>>, cutoff: int) -> Seq<Video>
    decreases fetched.len(),
{
    if fetched.len() == 0 {
        Seq::<Video>::empty()
    } else {
        channel_contribution(fetched[0], cutoff) + merged(fetched.drop_first(), cutoff)
    }
}

/// The candidate list an aggregation run presents before short-form
/// classification: merge, stable newest-first sort, then watched-set dedup.
pub open spec fn aggregated(
    fetched: Seq<Result<Vec<Video>, FetchError>>,
    cutoff: int,
    watched: Set<Seq<char>>,
) -> Seq<Video> {
    unwatched_filtered(sort_newest(merged(fetched, cutoff)), watched)
}

/// Merge the per-channel outcomes, window-filtering each, sort the merge
/// newest first, and drop every watched video.
pub fn aggregate_candidates(
    fetched: Vec<Result<Vec<Video>, FetchError>>,
    cutoff: i64,
    watched: &WatchedSet,
) -> (r: Vec<Video>)
    ensures
        r@ == aggregated(fetched@, cutoff as int, watched@),
{
    let mut all: Vec<Video> = Vec::new();
    let mut i: usize = 0;
    proof {
        assert(fetched@.skip(0) =~= fetched@);
        assert(all@ + merged(fetched@, cutoff as int) =~= merged(fetched@, cutoff as int));
    }
    while i < fetched.len()
        invariant
            i <= fetched@.len(),
            merged(fetched@, cutoff as int) == all@ + merged(
                fetched@.skip(i as int),
                cutoff as int,
            ),
        decreases fetched@.len() - i,
    {
        proof {
            assert(fetched@.skip(i as int).drop_first() =~= fetched@.skip(i as int + 1));
            assert(fetched@.skip(i as int)[0] == fetched@[i as int]);
        }
        let ghost all_before = all@;
        let ghost contribution = channel_contribution(fetched@[i as int], cutoff as int);
        match &fetched[i] {
            Ok(vs) => {
                let mut part = filter_by_window(vs, cutoff);
                all.append(&mut part);
            },
            Err(_) => {},
        }
        proof {
            assert(all@ =~= all_before + contribution);
            assert((all_before + contribution) + merged(fetched@.skip(i as int + 1), cutoff as int)
                =~= all_before + (contribution + merged(fetched@.skip(i as int + 1), cutoff as int)));
        }
        i += 1;
    }
    proof {
        assert(fetched@.skip(fetched@.len() as int) =~= Seq::<Result<Vec<Video>, FetchError>>::empty());
        assert(all@ + merged(fetched@.skip(fetched@.len() as int), cutoff as int) =~= all@);
    }
    sort_newest_first(&mut all);
    filter_unwatched(&all, watched)
}

/// The videos whose classification flag is `false`, in order: flag `k`
/// answers for video `k`.
pub open spec fn shorts_filtered(s: Seq<Video>, flags: Seq<bool>) -> Seq<Video>
    decreases s.len(),
{
    if s.len() == 0 || flags.len() == 0 {
        Seq::<Video>::empty()
    } else {
        (if flags[0] {
            Seq::<Video>::empty()
        } else {
            seq![s[0]]
        }) + shorts_filtered(s.drop_first(), flags.drop_first())
    }
}

/// Drop every video classified as short-form, preserving the relative order
/// of the survivors.
pub fn drop_shorts(videos: Vec<Video>, is_short: &Vec<bool>) -> (r: Vec<Video>)
    requires
        videos@.len() == is_short@.len(),
    ensures
        r@ == shorts_filtered(videos@, is_short@),
{
    let mut out: Vec<Video> = Vec::new();
    let mut i: usize = 0;
    proof {
        assert(videos@.skip(0) =~= videos@);
        assert(is_short@.skip(0) =~= is_short@);
        assert(out@ + shorts_filtered(videos@, is_short@) =~= shorts_filtered(videos@, is_short@));
    }
    while i < videos.len()
        invariant
            i <= videos@.len(),
            videos@.len() == is_short@.len(),
            shorts_filtered(videos@, is_short@) == out@ + shorts_filtered(
                videos@.skip(i as int),
                is_short@.skip(i as int),
            ),
        decreases videos@.len() - i,
    {
        proof {
            assert(videos@.skip(i as int).drop_first() =~= videos@.skip(i as int + 1));
            assert(is_short@.skip(i as int).drop_first() =~= is_short@.skip(i as int + 1));
            assert(videos@.skip(i as int)[0] == videos@[i as int]);
            assert(is_short@.skip(i as int)[0] == is_short@[i as int]);
        }
        let ghost out_before = out@;
        let ghost head: Seq<Video> = if is_short@[i as int] {
            Seq::<Video>::empty()
        } else {
            seq![videos@[i as int]]
        };
        if !is_short[i] {
            out.push(videos[i].clone());
        }
        proof {
            assert(out@ =~= out_before + head);
            assert((out_before + head) + shorts_filtered(
                videos@.skip(i as int + 1),
                is_short@.skip(i as int + 1),
            ) =~= out_before + (head + shorts_filtered(
                videos@.skip(i as int + 1),
                is_short@.skip(i as int + 1),
            )));
        }
        i += 1;
    }
    proof {
        assert(videos@.skip(videos@.len() as int) =~= Seq::<Video>::empty());
        assert(out@ + shorts_filtered(
            videos@.skip(videos@.len() as int),
            is_short@.skip(videos@.len() as int),
        ) =~= out@);
    }
    out
}

proof fn lemma_unwatched_filtered_sorted(s: Seq<Video>, watched: Set<Seq<char>>)
    requires
        sorted_newest_first(s),
    ensures
        sorted_newest_first(unwatched_filtered(s, watched)),
    decreases s.len(),
{
    broadcast use lemma_filter_elems;

    reveal_with_fuel(Seq::filter, 1);
    if s.len() > 0 {
        let d = s.drop_last();
        lemma_unwatched_filtered_sorted(d, watched);
        let f = unwatched_filtered(s, watched);
        let fd = unwatched_filtered(d, watched);
        assert forall|a: int, b: int|
            0 <= a <= b < f.len() implies f[a].published >= f[b].published by {
            if b < fd.len() {
                assert(fd[a].published >= fd[b].published);
            } else if a < b {
                assert(f[b] == s[s.len() - 1]);
                assert(d.contains(fd[a]));
                let j = choose|j: int| 0 <= j < d.len() && d[j] == fd[a];
                assert(s[j].published >= s[s.len() - 1].published);
            }
        }
    }
}

proof fn lemma_shorts_filtered_elems(s: Seq<Video>, flags: Seq<bool>)
    ensures
        forall|k: int|
            0 <= k < shorts_filtered(s, flags).len() ==> s.contains(
                #[trigger] shorts_filtered(s, flags)[k],
            ),
    decreases s.len(),
{
    if s.len() > 0 && flags.len() > 0 {
        lemma_shorts_filtered_elems(s.drop_first(), flags.drop_first());
        assert forall|k: int| 0 <= k < shorts_filtered(s, flags).len() implies s.contains(
            #[trigger] shorts_filtered(s, flags)[k],
        ) by {
            let head: Seq<Video> = if flags[0] {
                Seq::<Video>::empty()
            } else {
                seq![s[0]]
            };
            if k < head.len() {
                assert(shorts_filtered(s, flags)[k] == s[0]);
            } else {
                let x = shorts_filtered(s.drop_first(), flags.drop_first())[k - head.len()];
                assert(shorts_filtered(s, flags)[k] == x);
                assert(s.drop_first().contains(x));
                let j = choose|j: int|
                    0 <= j < s.drop_first().len() && s.drop_first()[j] == x;
                assert(s[j + 1] == x);
            }
        }
    }
}

proof fn lemma_shorts_filtered_sorted(s: Seq<Video>, flags: Seq<bool>)
    requires
        sorted_newest_first(s),
    ensures
        sorted_newest_first(shorts_filtered(s, flags)),
    decreases s.len(),
{
    if s.len() > 0 && flags.len() > 0 {
        let ds = s.drop_first();
        let df = flags.drop_first();
        lemma_shorts_filtered_sorted(ds, df);
        lemma_shorts_filtered_elems(ds, df);
        let f = shorts_filtered(s, flags);
        let head: Seq<Video> = if flags[0] {
            Seq::<Video>::empty()
        } else {
            seq![s[0]]
        };
        assert forall|a: int, b: int|
            0 <= a <= b < f.len() implies f[a].published >= f[b].published by {
            if a >= head.len() {
                assert(shorts_filtered(ds, df)[a - head.len()].published >= shorts_filtered(
                    ds,
                    df,
                )[b - head.len()].published);
            } else if b >= head.len() {
                let x = shorts_filtered(ds, df)[b - head.len()];
                assert(f[b] == x);
                assert(ds.contains(x));
                let j = choose|j: int| 0 <= j < ds.len() && ds[j] == x;
                assert(s[0].published >= s[j + 1].published);
            }
        }
    }
}

/// Run the aggregation pipeline over every subscribed channel. Whatever the
/// collaborators answer, the returned list is sorted newest first, and the
/// only failure that aborts the run is a store failure.
pub fn fetch_videos<F: FeedFetcher, S: VideoStore, C: ShortsChecker>(
    channels: &Vec<Channel>,
    fetcher: &F,
    store: &S,
    shorts_checker: &C,
    fetch_window_days: FetchWindowDays,
) -> (r: Result<Vec<Video>, AppError>)
    ensures
        r matches Ok(videos) ==> sorted_newest_first(videos@),
        r matches Ok(videos) ==> (forall|k: int|
            0 <= k < videos@.len() ==> !store.watched().contains(
                (#[trigger] videos@[k]).id@,
            )),
        r is Err ==> (r matches Err(AppError::Store(_))),
{
    let now = now_unix();
    let cutoff = cutoff_timestamp(now, fetch_window_days);

    let mut fetched: Vec<Result<Vec<Video>, FetchError>> = Vec::new();
    let mut i: usize = 0;
    while i < channels.len()
        invariant
            i <= channels@.len(),
        decreases channels@.len() - i,
    {
        fetched.push(fetcher.fetch(&channels[i]));
        i += 1;
    }

    let watched = match store.load_watched() {
        Ok(w) => w,
        Err(e) => {
            return Err(AppError::Store(e));
        },
    };

    let ghost outcomes = fetched@;
    let candidates = aggregate_candidates(fetched, cutoff, &watched);
    proof {
        lemma_sort_newest_sorted(merged(outcomes, cutoff as int));
        lemma_unwatched_filtered_sorted(sort_newest(merged(outcomes, cutoff as int)), watched@);
    }

    let mut is_short: Vec<bool> = Vec::new();
    let mut j: usize = 0;
    while j < candidates.len()
        invariant
            j <= candidates@.len(),
            is_short@.len() == j as int,
        decreases candidates@.len() - j,
    {
        is_short.push(shorts_checker.is_short(&candidates[j].id));
        j += 1;
    }

    proof {
        lemma_shorts_filtered_sorted(candidates@, is_short@);
        lemma_shorts_filtered_elems(candidates@, is_short@);
    }
    let ghost cand = candidates@;
    let result = drop_shorts(candidates, &is_short);
    proof {
        broadcast use vstd::seq_lib::group_filter_ensures;

        let sorted_merge = sort_newest(merged(outcomes, cutoff as int));
        assert forall|k: int| 0 <= k < result@.len() implies !store.watched().contains(
            (#[trigger] result@[k]).id@,
        ) by {
            assert(cand.contains(shorts_filtered(cand, is_short@)[k]));
            let j = choose|j: int| 0 <= j < cand.len() && cand[j] == result@[k];
            assert(!watched@.contains(unwatched_filtered(sorted_merge, watched@)[j].id@));
        }
    }
    Ok(result)
}

/// Play a video and only then mark it watched. A playback failure leaves
/// the watched state untouched; a store failure leaves whatever state the
/// store's own contract guarantees for a failed marking.
pub fn mark_and_play<S: VideoStore, P: VideoPlayer>(
    video: &Video,
    store: &mut S,
    player: &P,
) -> (r: Result<(), AppError>)
    ensures
        r is Ok ==> final(store).watched() == old(store).watched().insert(video.id@),
        (r matches Err(AppError::Play(_))) ==> final(store).watched() == old(store).watched(),
        (r matches Err(AppError::Store(_))) ==> final(store).watched() == old(store).watched(),
{
    match player.play(video.url.as_str()) {
        Ok(_) => {},
        Err(e) => {
            return Err(AppError::Play(e));
        },
    }
    match store.mark_watched(&video.id) {
        Ok(_) => Ok(()),
        Err(e) => Err(AppError::Store(e)),
    }
}

/// Mark a video watched without playing it; idempotent through the set
/// semantics of the watched state.
pub fn mark_as_watched<S: VideoStore>(video: &Video, store: &mut S) -> (r: Result<(), AppError>)
    ensures
        r is Ok ==> final(store).watched() == old(store).watched().insert(video.id@),
        r is Err ==> final(store).watched() == old(store).watched() && (r matches Err(
            AppError::Store(_),
        )),
{
    match store.mark_watched(&video.id) {
        Ok(_) => Ok(()),
        Err(e) => Err(AppError::Store(e)),
    }
}

proof fn lemma_merged_membership(
    fetched: Seq<Result<Vec<Video>, FetchError>>,
    cutoff: int,
    v: Video,
)
    ensures
        merged(fetched, cutoff).contains(v) <==> (exists|i: int|
            0 <= i < fetched.len() && (#[trigger] fetched[i] matches Ok(vs)
                && window_filtered(vs@, cutoff).contains(v))),
    decreases fetched.len(),
{
    if fetched.len() > 0 {
        let rest = fetched.drop_first();
        lemma_merged_membership(rest, cutoff, v);
        let head = channel_contribution(fetched[0], cutoff);
        let tail = merged(rest, cutoff);
        assert((head + tail).contains(v) <==> (head.contains(v) || tail.contains(v))) by {
            if (head + tail).contains(v) {
                let k = choose|k: int| 0 <= k < (head + tail).len() && (head + tail)[k] == v;
                if k < head.len() {
                    assert(head[k] == v);
                } else {
                    assert(tail[k - head.len()] == v);
                }
            }
            if head.contains(v) {
                let k = choose|k: int| 0 <= k < head.len() && head[k] == v;
                assert((head + tail)[k] == v);
            }
            if tail.contains(v) {
                let k = choose|k: int| 0 <= k < tail.len() && tail[k] == v;
                assert((head + tail)[head.len() + k] == v);
            }
        }
        if merged(fetched, cutoff).contains(v) {
            if head.contains(v) {
                assert(fetched[0] matches Ok(vs) && window_filtered(vs@, cutoff).contains(v));
            } else {
                let i = choose|i: int|
                    0 <= i < rest.len() && (#[trigger] rest[i] matches Ok(vs) && window_filtered(
                        vs@,
                        cutoff,
                    ).contains(v));
                assert(fetched[i + 1] matches Ok(vs) && window_filtered(vs@, cutoff).contains(v));
            }
        }
        if exists|i: int|
            0 <= i < fetched.len() && (#[trigger] fetched[i] matches Ok(vs) && window_filtered(
                vs@,
                cutoff,
            ).contains(v)) {
            let i = choose|i: int|
                0 <= i < fetched.len() && (#[trigger] fetched[i] matches Ok(vs) && window_filtered(
                    vs@,
                    cutoff,
                ).contains(v));
            if i == 0 {
                assert(head.contains(v));
            } else {
                assert(rest[i - 1] matches Ok(vs) && window_filtered(vs@, cutoff).contains(v));
            }
        }
    }
}

/// The candidate-list invariant: a video stands in the aggregated candidate
/// list exactly when some channel's successful retrieval carried it, its
/// publish instant lies at or after the cutoff, and its identifier is not
/// in the watched snapshot.
pub proof fn lemma_aggregated_membership(
    fetched: Seq<Result<Vec<Video>, FetchError>>,
    cutoff: int,
    watched: Set<Seq<char>>,
    v: Video,
)
    ensures
        aggregated(fetched, cutoff, watched).contains(v) <==> ({
            &&& exists|i: int|
                0 <= i < fetched.len() && (#[trigger] fetched[i] matches Ok(vs) && vs@.contains(v))
            &&& v.published >= cutoff
            &&& !watched.contains(v.id@)
        }),
{
    let m = merged(fetched, cutoff);
    crate::video::lemma_dedup_filter_membership(sort_newest(m), watched, v);
    crate::video::lemma_sort_newest_contains(m, v);
    lemma_merged_membership(fetched, cutoff, v);
    assert forall|i: int| 0 <= i < fetched.len() implies ((#[trigger] fetched[i] matches Ok(vs)
        && window_filtered(vs@, cutoff).contains(v)) <==> (fetched[i] matches Ok(vs)
        && vs@.contains(v) && v.published >= cutoff)) by {
        if fetched[i] is Ok {
            let vs = fetched[i]->Ok_0;
            crate::video::lemma_window_filter_membership(vs@, cutoff, v);
        }
    }
}

proof fn lemma_merged_skip_failed(
    fetched: Seq<Result<Vec<Video>, FetchError>>,
    i: int,
    cutoff: int,
)
    requires
        0 <= i < fetched.len(),
        fetched[i] is Err,
    ensures
        merged(fetched.remove(i), cutoff) == merged(fetched, cutoff),
    decreases fetched.len(),
{
    if i == 0 {
        assert(channel_contribution(fetched[0], cutoff) =~= Seq::<Video>::empty());
        assert(Seq::<Video>::empty() + merged(fetched.drop_first(), cutoff) =~= merged(
            fetched.drop_first(),
            cutoff,
        ));
        assert(fetched.remove(0) =~= fetched.drop_first());
    } else {
        lemma_merged_skip_failed(fetched.drop_first(), i - 1, cutoff);
        assert(fetched.remove(i).drop_first() =~= fetched.drop_first().remove(i - 1));
        assert(fetched.remove(i)[0] == fetched[0]);
        assert(fetched.remove(i).len() > 0);
    }
}

/// A channel whose retrieval failed is isolated: removing its outcome from
/// the merge leaves the aggregated candidate list unchanged. In particular,
/// with one failing and one succeeding channel, the pipeline's candidates
/// equal the filtered, sorted, deduplicated result of the succeeding
/// channel alone.
pub proof fn lemma_failed_channel_isolated(
    fetched: Seq<Result<Vec<Video>, FetchError>>,
    i: int,
    cutoff: int,
    watched: Set<Seq<char>>,
)
    requires
        0 <= i < fetched.len(),
        fetched[i] is Err,
    ensures
        aggregated(fetched, cutoff, watched) == aggregated(fetched.remove(i), cutoff, watched),
{
    lemma_merged_skip_failed(fetched, i, cutoff);
}

} // verus!
