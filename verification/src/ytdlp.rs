//! Assembly of videos from the scraping tool's output: one JSON document
//! per non-blank line. The documents are read through serde_json; the
//! fields are validated and assembled here.

use vstd::prelude::*;

use crate::channel::Channel;
use crate::clock::{
    instant_in_range, now_unix, parse_upload_date, representable_instant, upload_date_instant_of,
};
use crate::ports::FetchError;
use crate::video::{Video, VideoId};

verus! {

#[verifier::external_type_specification]
#[verifier::external_body]
pub struct ExValue(serde_json::Value);

/// Relies on serde_json's `from_str` for `Value`: parses one JSON document,
/// or reports the parser's message.
#[verifier::external_body]
fn json_parse(s: &str) -> Result<serde_json::Value, String> {
    serde_json::from_str::<serde_json::Value>(s).map_err(|e| e.to_string())
}

/// Relies on serde_json's `Value::get`: the value under a key of a JSON
/// object, if there is one.
#[verifier::external_body]
fn json_get<'a>(v: &'a serde_json::Value, key: &str) -> Option<&'a serde_json::Value> {
    v.get(key)
}

/// Relies on serde_json's `Value::as_str`: the text of a JSON string value.
#[verifier::external_body]
fn json_as_string(v: &serde_json::Value) -> Option<String> {
    v.as_str().map(|s| s.to_string())
}

/// Relies on serde_json's `Value::as_i64`: a JSON integer as an `i64`, when
/// it is one and fits.
#[verifier::external_body]
fn json_as_i64(v: &serde_json::Value) -> Option<i64> {
    v.as_i64()
}

/// The plain fields one entry of the tool's output carries. Only the
/// identifier is required.
#[derive(Debug)]
pub struct YtDlpEntry {
    pub id: String,
    pub title: Option<String>,
    pub url: Option<String>,
    pub timestamp: Option<i64>,
    pub upload_date: Option<String>,
}

/// An entry can be assembled exactly when its identifier is non-empty, an
/// explicit timestamp (if any) is representable, and an upload date (when
/// it must be used) parses.
pub open spec fn ytdlp_entry_valid(e: YtDlpEntry) -> bool {
    &&& e.id@.len() > 0
    &&& (e.timestamp is Some ==> representable_instant(e.timestamp->0))
    &&& ((e.timestamp is None && e.upload_date is Some) ==> upload_date_instant_of(
        (e.upload_date->0)@,
    ) is Some)
}

/// The publication instant an entry denotes: an explicit timestamp wins,
/// else the upload date at midnight, else the fallback instant.
pub open spec fn ytdlp_published(e: YtDlpEntry, fallback: int) -> int {
    match e.timestamp {
        Some(ts) => ts as int,
        None => match e.upload_date {
            Some(d) => upload_date_instant_of(d@)->0,
            None => fallback,
        },
    }
}

/// Assemble one entry for a channel, or say why it cannot be: the explicit
/// timestamp wins over the upload date; a missing URL is derived from the
/// identifier; a missing title is empty.
pub fn build_ytdlp_video(entry: YtDlpEntry, fallback_now: i64, channel: &Channel) -> (r: Result<
    Video,
    FetchError,
>)
    ensures
        entry.id@.len() == 0 ==> (r matches Err(FetchError::Parse(m)) && m@
            == "invalid video ID: video ID cannot be empty"@),
        (entry.id@.len() > 0 && entry.timestamp is Some && !representable_instant(
            entry.timestamp->0,
        )) ==> (r matches Err(FetchError::Parse(m)) && m@ == "invalid timestamp"@),
        (entry.id@.len() > 0 && entry.timestamp is None && entry.upload_date is Some
            && upload_date_instant_of((entry.upload_date->0)@) is None) ==> (r matches Err(
            FetchError::Parse(m),
        ) && m@ == "invalid upload_date"@),
        ytdlp_entry_valid(entry) ==> (r matches Ok(v) && {
            &&& v.id@ == entry.id@
            &&& v.title@ == (match entry.title {
                Some(t) => t@,
                None => Seq::<char>::empty(),
            })
            &&& v.url@ == (match entry.url {
                Some(u) => u@,
                None => "https://www.youtube.com/watch?v="@ + entry.id@,
            })
            &&& v.published as int == ytdlp_published(entry, fallback_now as int)
            &&& v.channel_name@ == channel.name@
            &&& v.channel_id@ == channel.id@
        }),
{
    let id = match VideoId::parse(entry.id.as_str()) {
        Ok(id) => id,
        Err(_) => {
            return Err(
                FetchError::Parse("invalid video ID: video ID cannot be empty".to_owned()),
            );
        },
    };
    let published: i64 = match entry.timestamp {
        Some(ts) => {
            if instant_in_range(ts) {
                ts
            } else {
                return Err(FetchError::Parse("invalid timestamp".to_owned()));
            }
        },
        None => {
            match &entry.upload_date {
                Some(d) => {
                    match parse_upload_date(d.as_str()) {
                        Some(t) => t,
                        None => {
                            return Err(FetchError::Parse("invalid upload_date".to_owned()));
                        },
                    }
                },
                None => fallback_now,
            }
        },
    };
    let title = match entry.title {
        Some(t) => t,
        None => String::new(),
    };
    let url = match entry.url {
        Some(u) => u,
        None => String::from_str("https://www.youtube.com/watch?v=").concat(entry.id.as_str()),
    };
    Ok(
        Video {
            id,
            title,
            url,
            published,
            channel_name: channel.name.clone(),
            channel_id: channel.id.clone(),
        },
    )
}

/// Read the plain fields out of one parsed document; absent when the
/// required identifier is missing or not a string.
fn read_entry_fields(v: &serde_json::Value) -> Option<YtDlpEntry> {
    let id = match json_get(v, "id") {
        Some(x) => match json_as_string(x) {
            Some(s) => s,
            None => {
                return None;
            },
        },
        None => {
            return None;
        },
    };
    let title = match json_get(v, "title") {
        Some(x) => json_as_string(x),
        None => None,
    };
    let url = match json_get(v, "url") {
        Some(x) => json_as_string(x),
        None => None,
    };
    let timestamp = match json_get(v, "timestamp") {
        Some(x) => json_as_i64(x),
        None => None,
    };
    let upload_date = match json_get(v, "upload_date") {
        Some(x) => json_as_string(x),
        None => None,
    };
    Some(YtDlpEntry { id, title, url, timestamp, upload_date })
}

/// The lines a text splits into, reading left to right: `cur` is the line
/// being read, and a newline character ends it.
pub open spec fn lines_from(s: Seq<char>, cur: Seq<char>) -> Seq<Seq<char>>
    decreases s.len(),
{
    if s.len() == 0 {
        seq![cur]
    } else if s[0] == '\n' {
        seq![cur] + lines_from(s.drop_first(), Seq::<char>::empty())
    } else {
        lines_from(s.drop_first(), cur.push(s[0]))
    }
}

/// The lines of a text, split on newline characters.
pub open spec fn lines_of(s: Seq<char>) -> Seq<Seq<char>> {
    lines_from(s, Seq::<char>::empty())
}

/// A line of nothing but spaces, tabs and carriage returns.
pub open spec fn blank_line(l: Seq<char>) -> bool {
    forall|i: int| 0 <= i < l.len() ==> (l[i] == ' ' || l[i] == '\t' || l[i] == '\r')
}

/// The non-blank lines, in order.
pub open spec fn nonblank(lines: Seq<Seq<char>>) -> Seq<Seq<char>> {
    lines.filter(|l: Seq<char>| !blank_line(l))
}

/// The texts of a list of owned lines.
pub open spec fn views_of(lines: Seq<String>) -> Seq<Seq<char>> {
    lines.map_values(|l: String| l@)
}

proof fn lemma_nonblank_one(l: Seq<char>)
    ensures
        nonblank(seq![l]) == (if blank_line(l) {
            Seq::<Seq<char>>::empty()
        } else {
            seq![l]
        }),
{
    reveal_with_fuel(Seq::filter, 2);
    assert(seq![l].drop_last() =~= Seq::<Seq<char>>::empty());
    if blank_line(l) {
        assert(nonblank(seq![l]) =~= Seq::<Seq<char>>::empty());
    } else {
        assert(nonblank(seq![l]) =~= seq![l]);
    }
}

proof fn lemma_blank_push(l: Seq<char>, c: char)
    ensures
        blank_line(l.push(c)) == (blank_line(l) && (c == ' ' || c == '\t' || c == '\r')),
{
    if blank_line(l) && (c == ' ' || c == '\t' || c == '\r') {
        assert forall|i: int| 0 <= i < l.push(c).len() implies (l.push(c)[i] == ' ' || l.push(c)[i]
            == '\t' || l.push(c)[i] == '\r') by {
            if i < l.len() {
                assert(l.push(c)[i] == l[i]);
            } else {
                assert(l.push(c)[i] == c);
            }
        }
    }
    if blank_line(l.push(c)) {
        assert forall|i: int| 0 <= i < l.len() implies (l[i] == ' ' || l[i] == '\t' || l[i]
            == '\r') by {
            assert(l.push(c)[i] == l[i]);
        }
        assert(l.push(c)[l.len() as int] == c);
    }
}

proof fn lemma_views_push(lines: Seq<String>, x: String)
    ensures
        views_of(lines.push(x)) == views_of(lines).push(x@),
{
    assert(views_of(lines.push(x)) =~= views_of(lines).push(x@));
}

/// Split a text into its non-blank lines.
fn nonblank_lines(s: &str) -> (r: Vec<String>)
    ensures
        views_of(r@) == nonblank(lines_of(s@)),
{
    broadcast use Seq::filter_distributes_over_add;

    let n = s.unicode_len();
    let mut r: Vec<String> = Vec::new();
    let mut start: usize = 0;
    let mut blank: bool = true;
    let mut idx: usize = 0;
    proof {
        assert(s@.skip(0) =~= s@);
        assert(s@.subrange(0, 0) =~= Seq::<char>::empty());
        assert(views_of(r@) =~= Seq::<Seq<char>>::empty());
        assert(Seq::<Seq<char>>::empty() + nonblank(lines_of(s@)) =~= nonblank(lines_of(s@)));
    }
    while idx < n
        invariant
            n == s@.len(),
            start <= idx <= n,
            blank == blank_line(s@.subrange(start as int, idx as int)),
            nonblank(lines_of(s@)) == views_of(r@) + nonblank(
                lines_from(s@.skip(idx as int), s@.subrange(start as int, idx as int)),
            ),
        decreases n - idx,
    {
        broadcast use Seq::filter_distributes_over_add;

        let ghost cur = s@.subrange(start as int, idx as int);
        proof {
            assert(s@.skip(idx as int)[0] == s@[idx as int]);
            assert(s@.skip(idx as int).drop_first() =~= s@.skip(idx as int + 1));
        }
        let c = s.get_char(idx);
        if c == '\n' {
            let ghost vs_before = views_of(r@);
            proof {
                lemma_nonblank_one(cur);
            }
            if !blank {
                let line = s.substring_char(start, idx);
                let owned = line.to_owned();
                proof {
                    lemma_views_push(r@, owned);
                }
                r.push(owned);
            }
            proof {
                assert(views_of(r@) =~= vs_before + nonblank(seq![cur]));
                assert((vs_before + nonblank(seq![cur])) + nonblank(
                    lines_from(s@.skip(idx as int + 1), Seq::<char>::empty()),
                ) =~= vs_before + (nonblank(seq![cur]) + nonblank(
                    lines_from(s@.skip(idx as int + 1), Seq::<char>::empty()),
                )));
            }
            start = idx + 1;
            blank = true;
            proof {
                assert(s@.subrange(idx as int + 1, idx as int + 1) =~= Seq::<char>::empty());
            }
        } else {
            proof {
                assert(s@.subrange(start as int, idx as int + 1) =~= cur.push(s@[idx as int]));
                lemma_blank_push(cur, s@[idx as int]);
            }
            if c != ' ' && c != '\t' && c != '\r' {
                blank = false;
            }
        }
        idx += 1;
    }
    let ghost cur = s@.subrange(start as int, n as int);
    let ghost vs_before = views_of(r@);
    proof {
        assert(s@.skip(n as int) =~= Seq::<char>::empty());
        lemma_nonblank_one(cur);
    }
    if !blank {
        let line = s.substring_char(start, n);
        let owned = line.to_owned();
        proof {
            lemma_views_push(r@, owned);
        }
        r.push(owned);
    }
    proof {
        assert(views_of(r@) =~= vs_before + nonblank(seq![cur]));
    }
    r
}

/// Parse the scraping tool's output for one channel: one JSON document per
/// non-blank line, each assembled into one video; blank lines are skipped.
/// The first line that cannot be parsed or assembled fails the retrieval.
pub fn parse_ytdlp_output(jsonl: &str, channel: &Channel) -> (r: Result<Vec<Video>, FetchError>)
    ensures
        r matches Ok(videos) ==> {
            &&& videos@.len() == nonblank(lines_of(jsonl@)).len()
            &&& forall|k: int|
                0 <= k < videos@.len() ==> {
                    &&& (#[trigger] videos@[k]).id@.len() > 0
                    &&& videos@[k].channel_name@ == channel.name@
                    &&& videos@[k].channel_id@ == channel.id@
                }
        },
        r is Err ==> (r matches Err(FetchError::Parse(_))),
{
    let now = now_unix();
    let lines = nonblank_lines(jsonl);
    let mut out: Vec<Video> = Vec::new();
    let mut i: usize = 0;
    while i < lines.len()
        invariant
            i <= lines@.len(),
            views_of(lines@) == nonblank(lines_of(jsonl@)),
            out@.len() == i as int,
            forall|k: int|
                0 <= k < i ==> {
                    &&& (#[trigger] out@[k]).id@.len() > 0
                    &&& out@[k].channel_name@ == channel.name@
                    &&& out@[k].channel_id@ == channel.id@
                },
        decreases lines@.len() - i,
    {
        let value = match json_parse(lines[i].as_str()) {
            Ok(v) => v,
            Err(m) => {
                return Err(FetchError::Parse(m));
            },
        };
        let entry = match read_entry_fields(&value) {
            Some(e) => e,
            None => {
                return Err(FetchError::Parse("missing video id in entry".to_owned()));
            },
        };
        let video = match build_ytdlp_video(entry, now, channel) {
            Ok(v) => v,
            Err(e) => {
                return Err(e);
            },
        };
        out.push(video);
        i += 1;
    }
    Ok(out)
}

} // verus!
