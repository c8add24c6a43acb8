use tawny::count::{compact_count_of, count_is_greater};
use tawny::dates::{publish_precision_at, published_epoch_at};
use tawny::video::{Video, VideoChapter};

const NOW: i64 = 1_700_000_000;

fn video(published_at: &str, view_count: &str, duration_seconds: u64, is_live: bool) -> Video {
    Video {
        id: "v".into(),
        title: String::new(),
        channel_id: "c".into(),
        channel_name: "C".into(),
        thumbnail_url: String::new(),
        published_at: published_at.into(),
        duration_seconds,
        view_count: view_count.into(),
        progress_seconds: 0,
        watched: false,
        is_live,
        is_short: false,
        audio_only: false,
        channel_avatar_url: None,
    }
}

#[test]
fn lengths_read_like_a_clock_and_streams_say_live() {
    assert_eq!(video("", "", 3725, false).duration_label(), "1:02:05");
    assert_eq!(video("", "", 59, false).duration_label(), "0:59");
    assert_eq!(video("", "", 600, true).duration_label(), "LIVE");
    assert_eq!(VideoChapter { title: "Intro".into(), start_seconds: 61 }.timestamp_label(), "1:01");
}

#[test]
fn the_stats_line_drops_an_unknown_half() {
    assert_eq!(video("2024-02-01T15:30:00Z", "42K views", 0, false).stats_label(), "42K views · Feb 1, 2024");
    assert_eq!(video("From YouTube", "42K views", 0, false).stats_label(), "42K views");
    assert_eq!(video("2 hours ago", " ", 0, false).stats_label(), "2 hours ago");
    assert_eq!(video("From YouTube", "", 0, false).published_label(), "");
}

#[test]
fn dates_of_every_kind_land_on_one_timeline() {
    assert_eq!(published_epoch_at("2024-02-01T15:30:00Z", NOW), 1_706_801_400);
    assert_eq!(published_epoch_at("Feb 1, 2024", NOW), 1_706_745_600);
    assert_eq!(published_epoch_at("2 hours ago", NOW), NOW - 7_200);
    assert_eq!(publish_precision_at("2024-02-01T15:30:00Z", NOW), 3);
    assert_eq!(publish_precision_at("Feb 1, 2024", NOW), 2);
    assert_eq!(publish_precision_at("2 hours ago", NOW), 1);
    assert_eq!(publish_precision_at("From YouTube", NOW), 0);
}

#[test]
fn compact_counts_compare_by_value() {
    let big = compact_count_of("21.1M subscribers").unwrap();
    let small = compact_count_of("528").unwrap();
    assert!(count_is_greater(&big, &small));
    assert!(!count_is_greater(&small, &big));
    assert!(!count_is_greater(&big, &big));
    let thousands = compact_count_of("1,234").unwrap();
    let k = compact_count_of("1.2K").unwrap();
    assert!(count_is_greater(&thousands, &k));
    assert!(compact_count_of("subscribers").is_none());
}

#[test]
fn a_date_cut_mid_character_is_reported_before_it_is_read() {
    assert!(video("2024-01-15T10:00:00Z", "", 0, false).date_reads_cleanly());
    assert!(video("  2 days ago ", "", 0, false).date_reads_cleanly());
    assert!(video("short", "", 0, false).date_reads_cleanly());
    assert!(!video("2024-01-0é later", "", 0, false).date_reads_cleanly());
}
