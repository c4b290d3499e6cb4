use blepo::channel::{ChannelId, ChannelIdError};
use blepo::video::{
    FetchWindowDays, FetchWindowDaysError, VideoId, VideoIdError, VideoNumber, VideoNumberError,
};

#[test]
fn parses_valid_channel_id() {
    let id = ChannelId::parse("UC_x5XG1OV2P6uZZ5FSM9Ttw").unwrap();
    assert_eq!(id.as_str(), "UC_x5XG1OV2P6uZZ5FSM9Ttw");
}

#[test]
fn rejects_empty_channel_id() {
    assert_eq!(ChannelId::parse(""), Err(ChannelIdError::Empty));
}

#[test]
fn rejects_channel_id_without_uc_prefix() {
    assert_eq!(
        ChannelId::parse("notavalidid"),
        Err(ChannelIdError::InvalidPrefix)
    );
}

#[test]
fn channel_id_equality() {
    let a = ChannelId::parse("UC123").unwrap();
    let b = ChannelId::parse("UC123").unwrap();
    let c = ChannelId::parse("UC456").unwrap();
    assert_eq!(a, b);
    assert_ne!(a, c);
}

#[test]
fn parses_valid_video_id() {
    let id = VideoId::parse("dQw4w9WgXcQ").unwrap();
    assert_eq!(id.as_str(), "dQw4w9WgXcQ");
}

#[test]
fn rejects_empty_video_id() {
    assert_eq!(VideoId::parse(""), Err(VideoIdError));
}

#[test]
fn parses_valid_fetch_window_days() {
    let days = FetchWindowDays::parse(7).unwrap();
    assert_eq!(days.as_i64(), 7);
}

#[test]
fn video_rejects_zero_fetch_window_days() {
    assert_eq!(FetchWindowDays::parse(0), Err(FetchWindowDaysError));
}

#[test]
fn video_rejects_negative_fetch_window_days() {
    assert_eq!(FetchWindowDays::parse(-1), Err(FetchWindowDaysError));
}

#[test]
fn parses_valid_video_number() {
    let num = VideoNumber::parse(3).unwrap();
    assert_eq!(num.to_index(), 2);
}

#[test]
fn rejects_zero_video_number() {
    assert_eq!(VideoNumber::parse(0), Err(VideoNumberError));
}

#[test]
fn video_number_to_index_converts_to_zero_based() {
    assert_eq!(VideoNumber::parse(1).unwrap().to_index(), 0);
    assert_eq!(VideoNumber::parse(5).unwrap().to_index(), 4);
}
