use tawny::channel::{Channel, SubscriptionContent};
use tawny::feed::{local_feed, FeedChoice};
use tawny::library::SubscriptionGroup;
use tawny::playlist::{DurationFilter, FeedFilter};
use tawny::settings::AppSettings;
use tawny::video::Video;

const NOW: i64 = 1_750_000_000;

fn video(id: &str, channel_id: &str, day: u32, duration_seconds: u64) -> Video {
    Video {
        id: id.into(),
        title: id.into(),
        channel_id: channel_id.into(),
        channel_name: channel_id.into(),
        thumbnail_url: String::new(),
        published_at: format!("2024-03-{day:02}T00:00:00Z"),
        duration_seconds,
        view_count: String::new(),
        progress_seconds: 0,
        watched: false,
        is_live: false,
        is_short: false,
        audio_only: false,
        channel_avatar_url: None,
    }
}

fn channel(id: &str, content: SubscriptionContent) -> Channel {
    Channel {
        id: id.into(),
        name: id.into(),
        handle: String::new(),
        avatar_url: None,
        subscriber_count: String::new(),
        subscribed: true,
        description: String::new(),
        banner_url: None,
        subscription_content: content,
    }
}

fn choice(group: &str, kind: FeedFilter, duration: Option<DurationFilter>, hide_watched: bool) -> FeedChoice {
    FeedChoice { group: group.into(), kind, duration, hide_watched }
}

fn ids(videos: &[Video]) -> Vec<&str> {
    videos.iter().map(|video| video.id.as_str()).collect()
}

#[test]
fn the_feed_is_followed_uploads_newest_first() {
    let mut short = video("short", "b", 5, 30);
    short.is_short = true;
    let videos = vec![
        video("old", "a", 1, 600),
        video("new", "a", 9, 600),
        video("stranger", "z", 8, 600),
        short,
    ];
    let channels = vec![channel("a", SubscriptionContent::All), channel("b", SubscriptionContent::Videos)];
    let thresholds = AppSettings::default().thresholds();
    let page = local_feed(&videos, &channels, &Vec::new(), &choice("all", FeedFilter::All, None, false), &thresholds, 24, NOW);
    assert_eq!(ids(&page.videos), ["new", "old"]);
    assert_eq!(page.remaining, 0);
    assert_eq!(page.without_duration, 0);
}

#[test]
fn groups_and_pages_narrow_the_feed() {
    let videos = vec![video("a1", "a", 1, 600), video("b1", "b", 2, 600), video("a2", "a", 3, 600)];
    let channels = vec![channel("a", SubscriptionContent::All), channel("b", SubscriptionContent::All)];
    let groups = vec![SubscriptionGroup { id: "g".into(), name: "G".into(), channel_ids: vec!["a".into()] }];
    let thresholds = AppSettings::default().thresholds();
    let grouped = local_feed(&videos, &channels, &groups, &choice("g", FeedFilter::All, None, false), &thresholds, 24, NOW);
    assert_eq!(ids(&grouped.videos), ["a2", "a1"]);
    let ungrouped = local_feed(&videos, &channels, &groups, &choice("ungrouped", FeedFilter::All, None, false), &thresholds, 24, NOW);
    assert_eq!(ids(&ungrouped.videos), ["b1"]);
    let first = local_feed(&videos, &channels, &groups, &choice("all", FeedFilter::All, None, false), &thresholds, 2, NOW);
    assert_eq!(ids(&first.videos), ["a2", "b1"]);
    assert_eq!(first.remaining, 1);
}

#[test]
fn a_length_filter_reports_what_it_cannot_judge() {
    let mut live = video("live", "a", 4, 0);
    live.is_live = true;
    let videos = vec![video("long", "a", 1, 4_000), video("unknown", "a", 2, 0), video("short", "a", 3, 60), live];
    let channels = vec![channel("a", SubscriptionContent::All)];
    let thresholds = AppSettings::default().thresholds();
    let page = local_feed(&videos, &channels, &Vec::new(), &choice("all", FeedFilter::All, Some(DurationFilter::Long), false), &thresholds, 24, NOW);
    assert_eq!(ids(&page.videos), ["long"]);
    assert_eq!(page.without_duration, 1);
    assert_eq!(page.unknown_durations, vec!["unknown".to_string()]);
    let streams = local_feed(&videos, &channels, &Vec::new(), &choice("all", FeedFilter::Live, None, false), &thresholds, 24, NOW);
    assert_eq!(ids(&streams.videos), ["live"]);
    let long_form = local_feed(&videos, &channels, &Vec::new(), &choice("all", FeedFilter::Videos, None, false), &thresholds, 24, NOW);
    assert_eq!(ids(&long_form.videos), ["short", "unknown", "long"]);
}

#[test]
fn watched_videos_can_be_hidden() {
    let mut seen = video("seen", "a", 2, 600);
    seen.watched = true;
    let videos = vec![video("fresh", "a", 1, 600), seen];
    let channels = vec![channel("a", SubscriptionContent::All)];
    let thresholds = AppSettings::default().thresholds();
    let page = local_feed(&videos, &channels, &Vec::new(), &choice("all", FeedFilter::All, None, true), &thresholds, 24, NOW);
    assert_eq!(ids(&page.videos), ["fresh"]);
}
