use tawny::explore::merge_next_page;
use tawny::library::SearchResults;
use tawny::channel::{Channel, SubscriptionContent};
use tawny::explore::{local_matches, paged, LibrarySnapshot, SUGGESTION_COUNT};
use tawny::library::HistoryEntry;
use tawny::playlist::ExploreFilter;
use tawny::video::Video;

const NOW: i64 = 1_750_000_000;

fn video(id: &str, title: &str, channel_id: &str, published_at: &str) -> Video {
    Video {
        id: id.into(),
        title: title.into(),
        channel_id: channel_id.into(),
        channel_name: format!("Channel {channel_id}"),
        thumbnail_url: String::new(),
        published_at: published_at.into(),
        duration_seconds: 60,
        view_count: String::new(),
        progress_seconds: 0,
        watched: false,
        is_live: false,
        is_short: false,
        audio_only: false,
        channel_avatar_url: None,
    }
}

fn channel(id: &str, name: &str, subscribed: bool) -> Channel {
    Channel {
        id: id.into(),
        name: name.into(),
        handle: format!("@{id}"),
        avatar_url: None,
        subscriber_count: String::new(),
        subscribed,
        description: String::new(),
        banner_url: None,
        subscription_content: SubscriptionContent::All,
    }
}

fn ids(videos: &[Video]) -> Vec<&str> {
    videos.iter().map(|video| video.id.as_str()).collect()
}

#[test]
fn a_query_matches_titles_channels_and_handles_ignoring_case() {
    let library = LibrarySnapshot {
        videos: vec![
            video("1", "Rust in Practice", "a", "2024-01-01T00:00:00Z"),
            video("2", "Gardening", "b", "2024-01-01T00:00:00Z"),
        ],
        channels: vec![channel("rusty", "Byte Sized", true), channel("b", "Green Thumb", true)],
        history: Vec::new(),
    };
    let (videos, channels) = local_matches(&library, "rust", NOW);
    assert_eq!(ids(&videos), ["1"]);
    assert_eq!(channels.len(), 1);
    assert_eq!(channels[0].id, "rusty");
}

#[test]
fn with_no_query_unwatched_uploads_of_followed_channels_stand_in_newest_first() {
    let mut watched = video("w", "Watched", "a", "2024-05-01T00:00:00Z");
    watched.watched = true;
    let library = LibrarySnapshot {
        videos: vec![
            video("old", "Old", "a", "2024-01-01T00:00:00Z"),
            video("new", "New", "a", "2024-03-01T00:00:00Z"),
            video("unfollowed", "Elsewhere", "z", "2024-04-01T00:00:00Z"),
            watched,
        ],
        channels: vec![channel("a", "A", true), channel("z", "Z", false)],
        history: Vec::new(),
    };
    let (videos, channels) = local_matches(&library, "", NOW);
    assert_eq!(ids(&videos), ["new", "old"]);
    assert!(channels.is_empty());
}

#[test]
fn every_third_suggestion_comes_from_a_channel_the_viewer_returns_to() {
    let mut videos = Vec::new();
    for day in 1..=9 {
        videos.push(video(&format!("a{day}"), "A", "a", &format!("2024-02-{day:02}T00:00:00Z")));
    }
    videos.push(video("f1", "F", "f", "2024-01-01T00:00:00Z"));
    let library = LibrarySnapshot {
        videos,
        channels: vec![channel("a", "A", true), channel("f", "F", true)],
        history: vec![HistoryEntry { video_id: "f1".into(), played_at: "yesterday".into() }],
    };
    let (ranked, _) = local_matches(&library, "", NOW);
    assert_eq!(ranked.len(), 10);
    assert_eq!(ranked[0].id, "a9");
    assert_eq!(ranked[1].id, "a8");
    assert_eq!(ranked[2].id, "f1");
    assert!(ranked.len() <= SUGGESTION_COUNT);
}

#[test]
fn the_total_is_counted_before_paging() {
    let videos = vec![
        video("1", "One", "a", "2024-01-01T00:00:00Z"),
        video("2", "Two", "a", "2024-01-01T00:00:00Z"),
        video("3", "Three", "a", "2024-01-01T00:00:00Z"),
    ];
    let channels = vec![channel("a", "A", true)];
    let (page, chans, total, remaining) = paged(videos.clone(), channels.clone(), ExploreFilter::All, 2);
    assert_eq!(ids(&page), ["1", "2"]);
    assert_eq!(chans.len(), 1);
    assert_eq!(total, 4);
    assert_eq!(remaining, 1);
    let (page, chans, total, remaining) = paged(videos, channels, ExploreFilter::Channels, 2);
    assert!(page.is_empty());
    assert_eq!(chans.len(), 1);
    assert_eq!(total, 1);
    assert_eq!(remaining, 0);
}

fn results(videos: Vec<Video>, channels: Vec<Channel>, next_page: Option<&str>) -> SearchResults {
    SearchResults {
        query: "q".into(),
        videos,
        channels,
        suggestion: None,
        remote_available: true,
        next_page: next_page.map(|t| t.to_string()),
    }
}

#[test]
fn the_next_page_adds_only_what_is_not_shown_yet() {
    let mut current = results(
        vec![video("a", "A", "c1", ""), video("b", "B", "c1", "")],
        vec![channel("c1", "One", false)],
        Some("t1"),
    );
    let page = results(
        vec![video("b", "B again", "c1", ""), video("c", "C", "c2", ""), video("c", "C twice", "c2", "")],
        vec![channel("c1", "One", false), channel("c2", "Two", true)],
        None,
    );
    merge_next_page(&mut current, page);
    assert_eq!(ids(&current.videos), ["a", "b", "c"]);
    assert_eq!(current.videos[1].title, "B");
    assert_eq!(current.videos[2].title, "C");
    let channel_ids: Vec<&str> = current.channels.iter().map(|c| c.id.as_str()).collect();
    assert_eq!(channel_ids, ["c1", "c2"]);
    assert_eq!(current.next_page, None);
    assert_eq!(current.query, "q");
}

#[test]
fn suggestions_fill_to_the_count_or_take_every_distinct_candidate() {
    let mut videos = Vec::new();
    for day in 1..=28 {
        videos.push(video(&format!("a{day}"), "A", "a", &format!("2024-02-{day:02}T00:00:00Z")));
    }
    let library = LibrarySnapshot {
        videos,
        channels: vec![channel("a", "A", true)],
        history: Vec::new(),
    };
    let (ranked, _) = local_matches(&library, "", NOW);
    assert_eq!(ranked.len(), SUGGESTION_COUNT);

    let library = LibrarySnapshot {
        videos: vec![
            video("x", "X", "a", "2024-01-01T00:00:00Z"),
            video("x", "X again", "a", "2024-01-02T00:00:00Z"),
            video("y", "Y", "a", "2024-01-03T00:00:00Z"),
        ],
        channels: vec![channel("a", "A", true)],
        history: Vec::new(),
    };
    let (ranked, _) = local_matches(&library, "", NOW);
    assert_eq!(ids(&ranked), ["y", "x"]);
}
