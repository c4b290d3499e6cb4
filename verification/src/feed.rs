//! Assembly of videos from entries of the lightweight feed protocol. The
//! wire format itself is decoded at the system's edge; entries arrive here
//! as plain text fields, are validated, and become `Video` values.

use vstd::prelude::*;

use crate::channel::Channel;
use crate::clock::{instant_of, parse_instant};
use crate::ports::FetchError;
use crate::video::{Video, VideoId};

verus! {

/// One entry of the lightweight feed, as plain text fields.
#[derive(Debug)]
pub struct FeedEntry {
    pub video_id: String,
    pub title: String,
    pub published: String,
    pub link: String,
}

/// An entry can be assembled exactly when its identifier is non-empty and
/// its publication text parses as an instant.
pub open spec fn entry_valid(e: FeedEntry) -> bool {
    e.video_id@.len() > 0 && instant_of(e.published@) is Some
}

/// The message reported for an entry that cannot be assembled.
pub open spec fn entry_error_message(e: FeedEntry) -> Seq<char> {
    if e.video_id@.len() == 0 {
        "invalid video ID: video ID cannot be empty"@
    } else {
        "invalid date in feed entry"@
    }
}

/// Whether `v` is the video an entry denotes for a channel.
pub open spec fn video_of_entry(v: Video, e: FeedEntry, name: Seq<char>, id: Seq<char>) -> bool {
    &&& v.id@ == e.video_id@
    &&& v.title@ == e.title@
    &&& v.url@ == e.link@
    &&& Some(v.published as int) == instant_of(e.published@)
    &&& v.channel_name@ == name
    &&& v.channel_id@ == id
}

/// Assemble one feed entry for a channel, or say why it cannot be.
pub fn build_feed_video(entry: FeedEntry, channel: &Channel) -> (r: Result<Video, FetchError>)
    ensures
        entry_valid(entry) ==> (r matches Ok(v) && video_of_entry(
            v,
            entry,
            channel.name@,
            channel.id@,
        )),
        !entry_valid(entry) ==> (r matches Err(FetchError::Parse(m)) && m@ == entry_error_message(
            entry,
        )),
{
    let id = match VideoId::parse(entry.video_id.as_str()) {
        Ok(id) => id,
        Err(_) => {
            return Err(
                FetchError::Parse("invalid video ID: video ID cannot be empty".to_owned()),
            );
        },
    };
    let published = match parse_instant(entry.published.as_str()) {
        Some(t) => t,
        None => {
            return Err(FetchError::Parse("invalid date in feed entry".to_owned()));
        },
    };
    Ok(
        Video {
            id,
            title: entry.title,
            url: entry.link,
            published,
            channel_name: channel.name.clone(),
            channel_id: channel.id.clone(),
        },
    )
}

/// Assemble every entry of one feed retrieval, in order. The first entry
/// that cannot be assembled fails the whole retrieval with its message.
pub fn parse_feed_entries(entries: Vec<FeedEntry>, channel: &Channel) -> (r: Result<
    Vec<Video>,
    FetchError,
>)
    ensures
        (r is Ok) <==> (forall|k: int|
            0 <= k < entries@.len() ==> entry_valid(#[trigger] entries@[k])),
        r matches Ok(videos) ==> videos@.len() == entries@.len() && (forall|k: int|
            0 <= k < entries@.len() ==> video_of_entry(
                #[trigger] videos@[k],
                entries@[k],
                channel.name@,
                channel.id@,
            )),
        r matches Err(e) ==> (exists|k: int|
            {
                &&& 0 <= k < entries@.len()
                &&& !entry_valid(#[trigger] entries@[k])
                &&& forall|j: int| 0 <= j < k ==> entry_valid(#[trigger] entries@[j])
                &&& e matches FetchError::Parse(m) && m@ == entry_error_message(entries@[k])
            }),
{
    let ghost all = entries@;
    let mut rest = entries;
    let mut out: Vec<Video> = Vec::new();
    proof {
        assert(all.skip(0) =~= all);
    }
    while rest.len() > 0
        invariant
            all == entries@,
            out@.len() + rest@.len() == all.len(),
            rest@ == all.skip(out@.len() as int),
            forall|j: int| 0 <= j < out@.len() ==> entry_valid(#[trigger] all[j]),
            forall|j: int|
                0 <= j < out@.len() ==> video_of_entry(
                    #[trigger] out@[j],
                    all[j],
                    channel.name@,
                    channel.id@,
                ),
        decreases rest@.len(),
    {
        let ghost k = out@.len() as int;
        proof {
            assert(rest@[0] == all[k]);
        }
        let entry = rest.remove(0);
        let video = match build_feed_video(entry, channel) {
            Ok(v) => v,
            Err(e) => {
                proof {
                    assert(!entry_valid(all[k]));
                    assert(e matches FetchError::Parse(m) && m@ == entry_error_message(all[k]));
                    assert(0 <= k < entries@.len() && !entry_valid(entries@[k]) && (forall|j: int|
                        0 <= j < k ==> entry_valid(#[trigger] entries@[j])));
                }
                return Err(e);
            },
        };
        out.push(video);
        proof {
            assert(rest@ =~= all.skip(out@.len() as int));
        }
    }
    Ok(out)
}

} // verus!
