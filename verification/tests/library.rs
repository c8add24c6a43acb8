use tawny::library::{demo_viewer, DemoLibrary, FeedPage, VideoList, Viewer, FEED_PAGE_SIZE, HISTORY_LIMIT};
use tawny::video::Video;

fn video(id: &str, duration_seconds: u64, progress_seconds: u64) -> Video {
    Video {
        id: id.into(),
        title: format!("Title {id}"),
        channel_id: "channel".into(),
        channel_name: "Channel".into(),
        thumbnail_url: String::new(),
        published_at: "2024-01-01T00:00:00Z".into(),
        duration_seconds,
        view_count: String::new(),
        progress_seconds,
        watched: false,
        is_live: false,
        is_short: false,
        audio_only: false,
        channel_avatar_url: None,
    }
}

#[test]
fn the_demo_library_holds_four_channels_six_videos_and_three_playlists() {
    let demo = DemoLibrary::demo();
    assert_eq!(demo.channels.len(), 4);
    assert_eq!(demo.videos.len(), 6);
    assert_eq!(demo.playlists.len(), 3);
    assert_eq!(demo.subscription_groups.len(), 2);
    assert_eq!(demo.queue, vec!["M7lc1UVf-VE".to_string(), "ysz5S6PUM-U".to_string()]);
    assert_eq!(demo.playlists[0].id, "watch-later");
    assert_eq!(demo.playlists[0].video_ids, vec!["M7lc1UVf-VE".to_string(), "ysz5S6PUM-U".to_string()]);
    assert_eq!(demo.videos[0].channel_id, "UC-tawny-slow");
    assert!(demo.videos[3].is_live);
}

#[test]
fn every_reference_in_the_demo_library_resolves() {
    let demo = DemoLibrary::demo();
    let has_video = |id: &String| demo.videos.iter().any(|video| &video.id == id);
    let has_channel = |id: &String| demo.channels.iter().any(|channel| &channel.id == id);
    for playlist in &demo.playlists {
        assert!(playlist.video_ids.iter().all(has_video));
    }
    for group in &demo.subscription_groups {
        assert!(group.channel_ids.iter().all(has_channel));
    }
    assert!(demo.queue.iter().all(has_video));
    assert!(demo.videos.iter().all(|video| has_channel(&video.channel_id)));
}

#[test]
fn a_new_viewer_follows_the_demo_channels_with_no_history() {
    let viewer = demo_viewer();
    assert_eq!(viewer.subscriptions.len(), 4);
    assert!(viewer.history.is_empty());
    assert_eq!(viewer.follows("UC-tawny-field").map(|channel| channel.name.as_str()), Some("Field Notes"));
    assert!(viewer.follows("UC-unknown").is_none());
    assert_eq!(viewer.playlist("deep-dives").map(|playlist| playlist.name.as_str()), Some("Deep dives"));
    assert!(viewer.playlist("nope").is_none());
}

#[test]
fn an_empty_viewer_follows_nothing() {
    let viewer = Viewer::default();
    assert!(viewer.follows("UC-tawny-field").is_none());
    assert!(viewer.playlist("watch-later").is_none());
}

#[test]
fn limits_are_as_documented() {
    assert_eq!(HISTORY_LIMIT, 250);
    assert_eq!(FEED_PAGE_SIZE, 24);
}

#[test]
fn a_merge_takes_catalog_facts_and_keeps_progress() {
    let mut list = vec![video("a", 0, 30), video("b", 0, 0)];
    let mut fresh_a = video("a", 600, 0);
    fresh_a.is_short = true;
    list.merge_metadata(&[fresh_a]);
    assert_eq!(list[0].duration_seconds, 600);
    assert!(list[0].is_short);
    assert_eq!(list[0].progress_seconds, 30);
    assert_eq!(list[1].duration_seconds, 0);
}

#[test]
fn merging_twice_is_merging_once() {
    let fresh = vec![video("a", 600, 0), video("a", 900, 0)];
    let mut once = vec![video("a", 0, 30)];
    once.merge_metadata(&fresh);
    let mut twice = once.clone();
    twice.merge_metadata(&fresh);
    assert_eq!(once[0].duration_seconds, 600);
    assert_eq!(twice[0].duration_seconds, once[0].duration_seconds);
}

#[test]
fn an_update_reaches_every_copy_of_a_video_on_a_page() {
    let mut page = FeedPage::default();
    page.videos = vec![video("a", 10, 0), video("b", 10, 0), video("a", 10, 0)];
    page.has_more = true;
    page.update_video("a", |mut v: Video| {
        v.watched = true;
        v
    });
    assert!(page.videos[0].watched);
    assert!(!page.videos[1].watched);
    assert!(page.videos[2].watched);
    assert!(page.has_more);
}

use tawny::library::{history_with_play, HistoryEntry};

fn entry(id: &str, at: &str) -> HistoryEntry {
    HistoryEntry { video_id: id.into(), played_at: at.into() }
}

#[test]
fn a_play_moves_its_video_to_the_top_of_history() {
    let history = vec![entry("a", "3"), entry("b", "2"), entry("c", "1")];
    let after = history_with_play(&history, "b", "4");
    let ids: Vec<&str> = after.iter().map(|e| e.video_id.as_str()).collect();
    assert_eq!(ids, ["b", "a", "c"]);
    assert_eq!(after[0].played_at, "4");
}

#[test]
fn history_keeps_at_most_its_limit() {
    let history: Vec<HistoryEntry> = (0..HISTORY_LIMIT).map(|k| entry(&k.to_string(), "t")).collect();
    let after = history_with_play(&history, "new", "now");
    assert_eq!(after.len(), HISTORY_LIMIT);
    assert_eq!(after[0].video_id, "new");
    assert_eq!(after[1].video_id, "0");
    assert_eq!(after[HISTORY_LIMIT - 1].video_id, (HISTORY_LIMIT - 2).to_string());
}
