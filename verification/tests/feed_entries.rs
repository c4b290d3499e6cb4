use blepo::channel::{Channel, ChannelId};
use blepo::feed::{parse_feed_entries, FeedEntry};
use blepo::ports::FetchError;

fn test_channel() -> Channel {
    Channel {
        name: "Test Channel".to_string(),
        id: ChannelId::parse("UC_x5XG1OV2P6uZZ5FSM9Ttw").unwrap(),
    }
}

fn entry(video_id: &str, title: &str, published: &str, link: &str) -> FeedEntry {
    FeedEntry {
        video_id: video_id.to_string(),
        title: title.to_string(),
        published: published.to_string(),
        link: link.to_string(),
    }
}

#[test]
fn assembles_feed_entries() {
    let entries = vec![
        entry(
            "dQw4w9WgXcQ",
            "Test Video 1",
            "2024-01-15T10:00:00+00:00",
            "https://www.youtube.com/watch?v=dQw4w9WgXcQ",
        ),
        entry(
            "abc123def45",
            "Test Video 2",
            "2024-01-14T08:30:00+00:00",
            "https://www.youtube.com/watch?v=abc123def45",
        ),
    ];

    let videos = parse_feed_entries(entries, &test_channel()).unwrap();

    assert_eq!(videos.len(), 2);
    assert_eq!(videos[0].id.as_str(), "dQw4w9WgXcQ");
    assert_eq!(videos[0].title, "Test Video 1");
    assert_eq!(videos[0].url, "https://www.youtube.com/watch?v=dQw4w9WgXcQ");
    assert_eq!(videos[0].channel_name, "Test Channel");
}

#[test]
fn parses_published_dates() {
    let entries = vec![entry(
        "dQw4w9WgXcQ",
        "Test Video 1",
        "2024-01-15T10:00:00+00:00",
        "https://www.youtube.com/watch?v=dQw4w9WgXcQ",
    )];

    let videos = parse_feed_entries(entries, &test_channel()).unwrap();

    let expected = "2024-01-15T10:00:00+00:00"
        .parse::<chrono::DateTime<chrono::Utc>>()
        .unwrap()
        .timestamp();
    assert_eq!(videos[0].published, expected);
}

#[test]
fn handles_empty_entry_list() {
    let videos = parse_feed_entries(vec![], &test_channel()).unwrap();

    assert!(videos.is_empty());
}

#[test]
fn returns_error_for_invalid_date() {
    let entries = vec![entry(
        "vid1",
        "Bad Date Video",
        "not-a-date",
        "https://www.youtube.com/watch?v=vid1",
    )];

    let result = parse_feed_entries(entries, &test_channel());

    assert!(matches!(result, Err(FetchError::Parse(msg)) if msg.contains("invalid date")));
}

#[test]
fn returns_error_for_empty_video_id() {
    let entries = vec![entry(
        "",
        "No Id",
        "2024-01-15T10:00:00+00:00",
        "https://www.youtube.com/watch?v=none",
    )];

    let result = parse_feed_entries(entries, &test_channel());

    assert!(matches!(result, Err(FetchError::Parse(msg)) if msg.contains("invalid video ID")));
}
