use tawny::library::Playlist;
use tawny::playlist::{DurationFilter, PlaylistKind, PlaylistSort, PlaylistView};
use tawny::screens::{count_without_duration, playlist_videos, watched_count};
use tawny::screens::{gate_screen, GateScreen};
use tawny::library::AudioTrackOption;
use tawny::playlist::FeedFilter;
use tawny::screens::{
    answers_query, audio_track_label, channel_count, duration_candidates, is_auxiliary_route,
    local_details, media_tab, media_tab_named, number_setting_value, player_key, resume_position,
    run_plan, search_needle, section_label, step_labels, timestamp_label, video_count,
    youtube_share_url, Route, DURATION_LOOKAHEAD,
};
use tawny::library::ChannelMediaTab;
use tawny::video::Video;

fn video(id: &str, duration_seconds: u64, is_live: bool) -> Video {
    Video {
        id: id.into(),
        title: String::new(),
        channel_id: "c".into(),
        channel_name: "C".into(),
        thumbnail_url: String::new(),
        published_at: String::new(),
        duration_seconds,
        view_count: String::new(),
        progress_seconds: 40,
        watched: false,
        is_live,
        is_short: false,
        audio_only: false,
        channel_avatar_url: None,
    }
}

#[test]
fn routes_belong_to_their_nav_sections() {
    assert_eq!(section_label(&Route::Subscriptions), "Subscriptions");
    assert_eq!(section_label(&Route::PlaylistDetail { id: "x".into() }), "Playlists");
    assert_eq!(section_label(&Route::Explore), "Search");
    assert_eq!(section_label(&Route::VideoDetail { id: "v".into() }), "Feed");
    assert!(is_auxiliary_route(&Route::QueuePage));
    assert!(is_auxiliary_route(&Route::SettingsPage));
    assert!(!is_auxiliary_route(&Route::Feed));
}

#[test]
fn counts_read_in_the_singular_only_for_one() {
    assert_eq!(video_count(1), "1 video");
    assert_eq!(video_count(0), "0 videos");
    assert_eq!(video_count(12), "12 videos");
    assert_eq!(channel_count(1), "1 channel");
    assert_eq!(channel_count(3), "3 channels");
}

#[test]
fn a_share_link_starts_at_the_moment_only_when_asked() {
    assert_eq!(youtube_share_url("abc", false, 90), "https://www.youtube.com/watch?v=abc");
    assert_eq!(youtube_share_url("abc", true, 90), "https://www.youtube.com/watch?v=abc&t=90s");
    assert_eq!(youtube_share_url("abc", true, 0), "https://www.youtube.com/watch?v=abc");
    assert_eq!(timestamp_label(3725), "1:02:05");
    assert_eq!(timestamp_label(65), "1:05");
}

#[test]
fn feed_filters_pick_channel_tabs() {
    assert_eq!(media_tab(FeedFilter::All), None);
    assert_eq!(media_tab(FeedFilter::Shorts), Some(ChannelMediaTab::Shorts));
    assert_eq!(media_tab_named("live"), ChannelMediaTab::Live);
    assert_eq!(media_tab_named("anything"), ChannelMediaTab::Videos);
}

#[test]
fn the_audio_chip_names_the_language_heard() {
    let tracks = vec![
        AudioTrackOption { language: "en".into(), label: "English".into() },
        AudioTrackOption { language: "de".into(), label: "Deutsch".into() },
    ];
    assert_eq!(audio_track_label(&tracks, &Some("de".into())), "Deutsch");
    assert_eq!(audio_track_label(&tracks, &Some("fr".into())), "Audio");
    assert_eq!(audio_track_label(&tracks, &None), "Audio");
}

#[test]
fn local_details_carry_only_the_video_and_its_neighbours() {
    let details = local_details(video("v", 10, false), vec![video("r", 5, false)]);
    assert_eq!(details.video.id, "v");
    assert_eq!(details.related_videos.len(), 1);
    assert!(details.comments.comments.is_empty());
    assert!(!details.remote_available);
}

#[test]
fn only_lengthless_videos_in_the_window_are_asked_about() {
    let videos = vec![video("a", 0, false), video("b", 30, false), video("c", 0, true), video("d", 0, false)];
    assert_eq!(duration_candidates(&videos, 3), vec!["a".to_string()]);
    assert_eq!(duration_candidates(&videos, 10), vec!["a".to_string(), "d".to_string()]);
    let many: Vec<Video> = (0..100).map(|k| video(&k.to_string(), 0, false)).collect();
    assert_eq!(duration_candidates(&many, 100).len(), DURATION_LOOKAHEAD);
}

#[test]
fn a_run_plays_the_first_and_queues_the_rest() {
    let ids = vec!["a".to_string(), "b".to_string(), "c".to_string()];
    let plan = run_plan(&ids, "Shuffled").unwrap();
    assert_eq!(plan.first, "a");
    assert_eq!(plan.rest, vec!["b".to_string(), "c".to_string()]);
    assert_eq!(plan.toast, "Shuffled 3 videos");
    assert_eq!(run_plan(&vec!["a".to_string()], "Playing").unwrap().toast, "Playing 1 video");
    assert!(run_plan(&Vec::new(), "Shuffled").is_none());
}

#[test]
fn queries_are_trimmed_and_lowercased() {
    assert_eq!(search_needle("  Rust UI "), "rust ui");
    assert!(answers_query(" Rust ", "rust"));
    assert!(!answers_query("rust", "rusty"));
}

#[test]
fn a_number_field_takes_only_a_whole_number() {
    assert_eq!(number_setting_value("120"), Some(120));
    assert_eq!(number_setting_value("+7"), Some(7));
    assert_eq!(number_setting_value("-1"), None);
    assert_eq!(number_setting_value("1.5"), None);
    assert_eq!(number_setting_value(""), None);
    assert_eq!(number_setting_value("18446744073709551616"), None);
}

#[test]
fn the_player_resumes_where_the_video_was_left() {
    let mut v = video("v", 100, false);
    assert_eq!(resume_position(&v), 40);
    v.watched = true;
    assert_eq!(resume_position(&v), 0);
    assert_eq!(player_key("v", 2, true), "v-2-audio");
    assert_eq!(player_key("v", 0, false), "v-0-av");
}

#[test]
fn step_buttons_name_the_run() {
    assert_eq!(step_labels(Some("Deep dives")), ("Next in Deep dives".to_string(), "Previous in Deep dives".to_string()));
    assert_eq!(step_labels(None), ("Next in queue".to_string(), "Previous in queue".to_string()));
}

#[test]
fn the_gate_shows_setup_until_a_backend_is_chosen() {
    assert!(matches!(gate_screen(false, Some("x".into())), GateScreen::BackendSetup(None)));
    assert!(matches!(gate_screen(true, Some("down".into())), GateScreen::BackendSetup(Some(m)) if m == "down"));
    assert!(matches!(gate_screen(true, None), GateScreen::App));
}

fn saved(ids: &[&str]) -> Playlist {
    Playlist {
        id: "p".into(),
        name: "Saved".into(),
        video_ids: ids.iter().map(|id| id.to_string()).collect(),
    }
}

#[test]
fn a_playlist_resolves_in_its_own_order_skipping_missing_ids() {
    let mut newer = video("a", 300, false);
    newer.title = "newer".into();
    let library = vec![video("a", 0, false), video("b", 60, false), newer];
    let found = playlist_videos(&saved(&["b", "gone", "a"]), &library);
    let ids: Vec<&str> = found.iter().map(|v| v.id.as_str()).collect();
    assert_eq!(ids, ["b", "a"]);
    assert_eq!(found[1].title, "newer");
    assert_eq!(found[1].duration_seconds, 300);
    assert!(playlist_videos(&saved(&[]), &library).is_empty());
}

#[test]
fn a_playlist_counts_what_was_watched() {
    let mut seen = video("a", 60, false);
    seen.watched = true;
    let videos = vec![seen.clone(), video("b", 60, false), seen];
    assert_eq!(watched_count(&videos), 2);
    assert_eq!(watched_count(&Vec::new()), 0);
}

#[test]
fn lengthless_videos_are_counted_only_under_a_length_filter() {
    let mut short = video("s", 0, false);
    short.is_short = true;
    let videos = vec![video("a", 0, false), video("b", 0, true), video("c", 90, false), short];
    let mut view = PlaylistView {
        kind: PlaylistKind::All,
        only_unwatched: false,
        duration: None,
        sort: PlaylistSort::Added,
        descending: false,
    };
    assert_eq!(count_without_duration(&view, &videos), 0);
    view.duration = Some(DurationFilter::Short);
    assert_eq!(count_without_duration(&view, &videos), 2);
    view.kind = PlaylistKind::Videos;
    assert_eq!(count_without_duration(&view, &videos), 1);
}
