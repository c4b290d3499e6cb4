use std::cell::RefCell;

use blepo::channel::{Channel, ChannelId};
use blepo::ports::{FeedFetcher, FetchError, PlayError, ShortsChecker, VideoPlayer, VideoStore};
use blepo::ports::StoreError;
use blepo::use_cases::{cutoff_timestamp, fetch_videos, mark_and_play, mark_as_watched, AppError};
use blepo::video::{
    filter_by_window, filter_unwatched, sort_newest_first, FetchWindowDays, Video, VideoId,
};
use blepo::watched::{MemoryStore, WatchedSet};

struct MockFetcher {
    videos: Vec<Video>,
}

impl FeedFetcher for MockFetcher {
    fn fetch(&self, _channel: &Channel) -> Result<Vec<Video>, FetchError> {
        Ok(self.videos.clone())
    }
}

struct FailingFetcher;

impl FeedFetcher for FailingFetcher {
    fn fetch(&self, _channel: &Channel) -> Result<Vec<Video>, FetchError> {
        Err(FetchError::Network("connection refused".to_string()))
    }
}

struct MockPlayer {
    played: RefCell<Vec<String>>,
}

impl MockPlayer {
    fn new() -> Self {
        Self {
            played: RefCell::new(Vec::new()),
        }
    }
}

impl VideoPlayer for MockPlayer {
    fn play(&self, url: &str) -> Result<(), PlayError> {
        self.played.borrow_mut().push(url.to_string());
        Ok(())
    }
}

struct FailingPlayer;

impl VideoPlayer for FailingPlayer {
    fn play(&self, _url: &str) -> Result<(), PlayError> {
        Err(PlayError::PlayerFailed("mpv crashed".to_string()))
    }
}

struct MockShortsChecker {
    short_ids: Vec<String>,
}

impl MockShortsChecker {
    fn none() -> Self {
        Self {
            short_ids: Vec::new(),
        }
    }

    fn with_shorts(ids: &[&str]) -> Self {
        Self {
            short_ids: ids.iter().map(|id| id.to_string()).collect(),
        }
    }
}

impl ShortsChecker for MockShortsChecker {
    fn is_short(&self, video_id: &VideoId) -> bool {
        self.short_ids.iter().any(|id| id == video_id.as_str())
    }
}

fn now_unix() -> i64 {
    chrono::Utc::now().timestamp()
}

fn make_video(id: &str, title: &str, days_ago: i64) -> Video {
    Video {
        id: VideoId::parse(id).unwrap(),
        title: title.to_string(),
        url: format!("https://youtube.com/watch?v={id}"),
        published: now_unix() - days_ago * 86400,
        channel_name: "Test Channel".to_string(),
        channel_id: ChannelId::parse("UC123").unwrap(),
    }
}

fn test_channel() -> Channel {
    Channel {
        name: "Test Channel".to_string(),
        id: ChannelId::parse("UC123").unwrap(),
    }
}

fn seven_days() -> FetchWindowDays {
    FetchWindowDays::parse(7).unwrap()
}

#[test]
fn fetch_videos_returns_recent_unwatched() {
    let videos = vec![make_video("v1", "Recent", 1), make_video("v2", "Old", 30)];
    let fetcher = MockFetcher { videos };
    let store = MemoryStore::new();
    let shorts = MockShortsChecker::none();

    let result =
        fetch_videos(&vec![test_channel()], &fetcher, &store, &shorts, seven_days()).unwrap();

    assert_eq!(result.len(), 1);
    assert_eq!(result[0].id.as_str(), "v1");
}

#[test]
fn fetch_videos_continues_on_channel_failure() {
    let fetcher = FailingFetcher;
    let store = MemoryStore::new();
    let shorts = MockShortsChecker::none();

    let result = fetch_videos(&vec![test_channel()], &fetcher, &store, &shorts, seven_days());

    assert!(result.is_ok());
    assert!(result.unwrap().is_empty());
}

#[test]
fn fetch_videos_excludes_watched() {
    let videos = vec![make_video("v1", "First", 1), make_video("v2", "Second", 2)];
    let fetcher = MockFetcher { videos };
    let mut store = MemoryStore::new();
    store
        .mark_watched(&VideoId::parse("v1").unwrap())
        .unwrap();
    let shorts = MockShortsChecker::none();

    let unwatched =
        fetch_videos(&vec![test_channel()], &fetcher, &store, &shorts, seven_days()).unwrap();

    assert_eq!(unwatched.len(), 1);
    assert_eq!(unwatched[0].id.as_str(), "v2");
}

#[test]
fn fetch_videos_returns_newest_first() {
    let videos = vec![make_video("v1", "Older", 3), make_video("v2", "Newer", 1)];
    let fetcher = MockFetcher { videos };
    let store = MemoryStore::new();
    let shorts = MockShortsChecker::none();

    let result =
        fetch_videos(&vec![test_channel()], &fetcher, &store, &shorts, seven_days()).unwrap();

    assert_eq!(result[0].id.as_str(), "v2");
    assert_eq!(result[1].id.as_str(), "v1");
}

#[test]
fn fetch_videos_excludes_shorts() {
    let videos = vec![
        make_video("v1", "Regular", 1),
        make_video("short1", "A Short", 1),
        make_video("v2", "Also Regular", 2),
    ];
    let fetcher = MockFetcher { videos };
    let store = MemoryStore::new();
    let shorts = MockShortsChecker::with_shorts(&["short1"]);

    let result =
        fetch_videos(&vec![test_channel()], &fetcher, &store, &shorts, seven_days()).unwrap();

    assert_eq!(result.len(), 2);
    assert_eq!(result[0].id.as_str(), "v1");
    assert_eq!(result[1].id.as_str(), "v2");
}

#[test]
fn mark_and_play_marks_as_watched() {
    let video = make_video("v1", "First", 1);
    let mut store = MemoryStore::new();
    let player = MockPlayer::new();

    mark_and_play(&video, &mut store, &player).unwrap();

    assert!(store
        .load_watched()
        .unwrap()
        .contains(&VideoId::parse("v1").unwrap()));
    assert_eq!(player.played.borrow()[0], "https://youtube.com/watch?v=v1");
}

#[test]
fn mark_as_watched_marks_without_playing() {
    let video = make_video("v1", "First", 1);
    let mut store = MemoryStore::new();
    let player = MockPlayer::new();

    mark_as_watched(&video, &mut store).unwrap();

    assert!(store
        .load_watched()
        .unwrap()
        .contains(&VideoId::parse("v1").unwrap()));
    assert!(player.played.borrow().is_empty());
}

#[test]
fn mark_and_play_returns_error_on_player_failure() {
    let video = make_video("v1", "First", 1);
    let mut store = MemoryStore::new();
    let player = FailingPlayer;

    let result = mark_and_play(&video, &mut store, &player);

    assert!(result.is_err());
}

#[test]
fn mark_and_play_failure_leaves_watched_state_untouched() {
    let video = make_video("v1", "First", 1);
    let mut store = MemoryStore::new();
    let player = FailingPlayer;

    let _ = mark_and_play(&video, &mut store, &player);

    assert!(!store
        .load_watched()
        .unwrap()
        .contains(&VideoId::parse("v1").unwrap()));
}

#[test]
fn mark_watched_is_idempotent() {
    let mut store = MemoryStore::new();

    store.mark_watched(&VideoId::parse("v1").unwrap()).unwrap();
    store.mark_watched(&VideoId::parse("v1").unwrap()).unwrap();

    let watched = store.load_watched().unwrap();
    assert!(watched.contains(&VideoId::parse("v1").unwrap()));
    assert!(!watched.contains(&VideoId::parse("v2").unwrap()));
}

#[test]
fn filters_out_watched_videos() {
    let videos = vec![make_video("v1", "First", 1), make_video("v2", "Second", 2)];
    let mut watched = WatchedSet::new();
    watched.insert(VideoId::parse("v1").unwrap());

    let unwatched = filter_unwatched(&videos, &watched);

    assert_eq!(unwatched.len(), 1);
    assert_eq!(unwatched[0].id.as_str(), "v2");
}

#[test]
fn returns_all_when_none_watched() {
    let videos = vec![make_video("v1", "First", 1), make_video("v2", "Second", 2)];
    let watched = WatchedSet::new();

    let unwatched = filter_unwatched(&videos, &watched);

    assert_eq!(unwatched.len(), 2);
}

#[test]
fn filters_videos_outside_window() {
    let videos = vec![
        make_video("v1", "Recent", 1),
        make_video("v2", "Old", 10),
        make_video("v3", "Edge", 6),
    ];
    let cutoff = now_unix() - 7 * 86400;

    let within_window = filter_by_window(&videos, cutoff);

    assert_eq!(within_window.len(), 2);
    assert!(within_window.iter().any(|v| v.id.as_str() == "v1"));
    assert!(within_window.iter().any(|v| v.id.as_str() == "v3"));
}

#[test]
fn sorts_videos_newest_first() {
    let mut videos = vec![
        make_video("v1", "Oldest", 5),
        make_video("v2", "Newest", 1),
        make_video("v3", "Middle", 3),
    ];

    sort_newest_first(&mut videos);

    assert_eq!(videos[0].id.as_str(), "v2");
    assert_eq!(videos[1].id.as_str(), "v3");
    assert_eq!(videos[2].id.as_str(), "v1");
}

#[test]
fn sort_is_stable_for_equal_timestamps() {
    let mut videos = vec![
        make_video("v1", "First", 2),
        make_video("v2", "Second", 2),
        make_video("v3", "Newer", 1),
        make_video("v4", "Third", 2),
    ];
    videos[1].published = videos[0].published;
    videos[3].published = videos[0].published;

    sort_newest_first(&mut videos);

    assert_eq!(videos[0].id.as_str(), "v3");
    assert_eq!(videos[1].id.as_str(), "v1");
    assert_eq!(videos[2].id.as_str(), "v2");
    assert_eq!(videos[3].id.as_str(), "v4");
}

struct PerChannelFetcher;

impl FeedFetcher for PerChannelFetcher {
    fn fetch(&self, channel: &Channel) -> Result<Vec<Video>, FetchError> {
        match channel.id.as_str() {
            "UCaaa" => Ok(vec![make_video("a1", "A newest", 1), make_video("a2", "A older", 5)]),
            "UCbbb" => Ok(vec![make_video("b1", "B middle", 3)]),
            _ => Err(FetchError::Network("unknown channel".to_string())),
        }
    }
}

#[test]
fn fetch_videos_merges_channels_sorted() {
    let channels = vec![
        Channel {
            name: "A".to_string(),
            id: ChannelId::parse("UCaaa").unwrap(),
        },
        Channel {
            name: "B".to_string(),
            id: ChannelId::parse("UCbbb").unwrap(),
        },
        Channel {
            name: "C".to_string(),
            id: ChannelId::parse("UCccc").unwrap(),
        },
    ];
    let store = MemoryStore::new();
    let shorts = MockShortsChecker::none();

    let result =
        fetch_videos(&channels, &PerChannelFetcher, &store, &shorts, seven_days()).unwrap();

    assert_eq!(result.len(), 3);
    assert_eq!(result[0].id.as_str(), "a1");
    assert_eq!(result[1].id.as_str(), "b1");
    assert_eq!(result[2].id.as_str(), "a2");
}

struct FailingStore;

impl VideoStore for FailingStore {
    fn load_watched(&self) -> Result<WatchedSet, StoreError> {
        Err(StoreError::Read("store is unavailable".to_string()))
    }

    fn mark_watched(&mut self, _video_id: &VideoId) -> Result<(), StoreError> {
        Err(StoreError::Write("store is unavailable".to_string()))
    }
}

#[test]
fn fetch_videos_propagates_store_error() {
    let fetcher = MockFetcher { videos: vec![make_video("v1", "Recent", 1)] };
    let store = FailingStore;
    let shorts = MockShortsChecker::none();

    let result = fetch_videos(&vec![test_channel()], &fetcher, &store, &shorts, seven_days());

    assert!(matches!(result, Err(AppError::Store(StoreError::Read(_)))));
}

#[test]
fn cutoff_is_now_minus_window_in_seconds() {
    let window = FetchWindowDays::parse(2).unwrap();

    assert_eq!(cutoff_timestamp(1_000_000, window), 1_000_000 - 2 * 86400);
}

#[test]
fn filter_by_window_with_exact_boundary() {
    let boundary = "2024-01-15T00:00:00Z"
        .parse::<chrono::DateTime<chrono::Utc>>()
        .unwrap()
        .timestamp();
    let at = |published: i64, id: &str, title: &str| Video {
        id: VideoId::parse(id).unwrap(),
        title: title.to_string(),
        url: format!("https://youtube.com/watch?v={id}"),
        published,
        channel_name: "Test".to_string(),
        channel_id: ChannelId::parse("UC1").unwrap(),
    };
    let videos = vec![
        at(boundary - 1, "v1", "Before"),
        at(boundary, "v2", "Exactly at"),
        at(boundary + 1, "v3", "After"),
    ];

    let result = filter_by_window(&videos, boundary);

    assert_eq!(result.len(), 2);
    assert!(result.iter().any(|v| v.id.as_str() == "v2"));
    assert!(result.iter().any(|v| v.id.as_str() == "v3"));
}
