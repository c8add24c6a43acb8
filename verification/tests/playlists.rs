use tawny::dates::{text_date, CalendarDate};
use tawny::playlist::{
    playlist_queue_entry, queued_playlist_id, PlaylistKind, PlaylistSort, PlaylistView,
};
use tawny::settings::AppSettings;
use tawny::video::Video;

fn video(id: &str, title: &str, published_at: &str, duration_seconds: u64) -> Video {
    Video {
        id: id.into(),
        title: title.into(),
        channel_id: "channel".into(),
        channel_name: "Channel".into(),
        thumbnail_url: String::new(),
        published_at: published_at.into(),
        duration_seconds,
        view_count: String::new(),
        progress_seconds: 0,
        watched: false,
        is_live: false,
        is_short: false,
        audio_only: false,
        channel_avatar_url: None,
    }
}

fn ids(videos: &[Video]) -> Vec<&str> {
    videos.iter().map(|video| video.id.as_str()).collect()
}

fn sample() -> Vec<Video> {
    vec![
        video("b", "Beta", "2024-03-01T00:00:00Z", 600),
        video("a", "alpha", "2024-01-01T00:00:00Z", 90),
        video("c", "Gamma", "2024-02-01T00:00:00Z", 3600),
    ]
}

#[test]
fn added_keeps_the_playlists_own_order() {
    let mut videos = sample();
    PlaylistSort::Added.apply(&mut videos, false);
    assert_eq!(ids(&videos), ["b", "a", "c"]);
}

#[test]
fn added_reversed_walks_the_playlist_backwards() {
    let mut videos = sample();
    PlaylistSort::Added.apply(&mut videos, true);
    assert_eq!(ids(&videos), ["c", "a", "b"]);
}

#[test]
fn published_sorts_newest_first_when_descending() {
    let mut videos = sample();
    PlaylistSort::Published.apply(&mut videos, true);
    assert_eq!(ids(&videos), ["b", "c", "a"]);
    let mut videos = sample();
    PlaylistSort::Published.apply(&mut videos, false);
    assert_eq!(ids(&videos), ["a", "c", "b"]);
}

#[test]
fn a_written_out_date_keeps_its_place_in_newest() {
    let mut videos = sample();
    videos[2].published_at = "Feb 1, 2024".into();
    PlaylistSort::Published.apply(&mut videos, true);
    assert_eq!(ids(&videos), ["b", "c", "a"]);
    let view = PlaylistView { sort: PlaylistSort::Published, descending: true, ..PlaylistView::default() };
    assert_eq!(view.next_after(&videos, "c").as_deref(), Some("a"));
}

#[test]
fn text_dates_read_through_youtube_prefixes() {
    let expected = Some(CalendarDate { year: 2013, month: 8, day: 2 });
    assert_eq!(text_date("Aug 2, 2013"), expected);
    assert_eq!(text_date("Premiered Aug 2, 2013"), expected);
    assert_eq!(text_date("Streamed live on August 2, 2013"), expected);
    assert_eq!(text_date("2 months ago"), None);
    assert_eq!(text_date("From YouTube"), None);
}

#[test]
fn merging_details_keeps_the_finer_publish_date() {
    let feed = video("a", "A", "2024-02-01T15:30:00Z", 0);
    let mut detail = video("a", "A", "2024-02-01 0:00:00.0 +00:00:00", 0);
    detail.keep_finer_publish_date(&feed);
    assert_eq!(detail.published_at, "2024-02-01T15:30:00Z");

    let mut related = video("a", "A", "3 years ago", 0);
    related.keep_finer_publish_date(&video("a", "A", "Feb 1, 2024", 0));
    assert_eq!(related.published_at, "Feb 1, 2024");

    let mut fresh = video("a", "A", "2024-02-01T15:30:00Z", 0);
    fresh.keep_finer_publish_date(&video("a", "A", "3 years ago", 0));
    assert_eq!(fresh.published_at, "2024-02-01T15:30:00Z");
}

#[test]
fn duration_sorts_longest_first_when_descending() {
    let mut videos = sample();
    PlaylistSort::Duration.apply(&mut videos, true);
    assert_eq!(ids(&videos), ["c", "b", "a"]);
}

#[test]
fn title_ignores_case() {
    let mut videos = sample();
    PlaylistSort::Title.apply(&mut videos, false);
    assert_eq!(ids(&videos), ["a", "b", "c"]);
}

#[test]
fn every_sort_labels_both_directions_distinctly() {
    for sort in PlaylistSort::all() {
        assert_ne!(sort.label(true), sort.label(false), "{sort:?}");
    }
}

fn run_order(view: &PlaylistView, videos: Vec<Video>) -> Vec<Video> {
    let mut videos = videos;
    view.arrange(&mut videos, &AppSettings::default().thresholds());
    videos
}

#[test]
fn a_run_walks_the_arrangement_on_screen() {
    let view = PlaylistView { sort: PlaylistSort::Title, ..PlaylistView::default() };
    let order = run_order(&view, sample());
    assert_eq!(ids(&order), ["a", "b", "c"]);
    assert_eq!(view.next_after(&order, "a").as_deref(), Some("b"));
    assert_eq!(view.previous_before(&order, "b").as_deref(), Some("a"));
    assert_eq!(view.next_after(&order, "c"), None, "the last entry ends it");
    assert_eq!(view.previous_before(&order, "a"), None, "nothing before the first");
}

#[test]
fn finishing_a_video_does_not_send_an_unwatched_run_back_to_the_top() {
    let view = PlaylistView { only_unwatched: true, ..PlaylistView::default() };
    let mut videos = sample();
    videos[0].watched = true;
    let order = run_order(&view, videos);
    assert_eq!(ids(&order), ["b", "a", "c"], "playlist order, watched kept");
    assert_eq!(view.next_after(&order, "b").as_deref(), Some("a"), "advances past the video that just finished");
}

#[test]
fn a_run_skips_over_what_the_filters_hide() {
    let view = PlaylistView { only_unwatched: true, ..PlaylistView::default() };
    let mut videos = sample();
    videos[1].watched = true;
    let order = run_order(&view, videos);
    assert_eq!(view.next_after(&order, "b").as_deref(), Some("c"));
    assert_eq!(view.previous_before(&order, "c").as_deref(), Some("b"));
}

#[test]
fn a_run_starts_at_the_top_for_a_video_it_does_not_hold() {
    let view = PlaylistView::default();
    let order = run_order(&view, sample());
    assert_eq!(view.next_after(&order, "unrelated").as_deref(), Some("b"));
    assert_eq!(view.previous_before(&order, "unrelated"), None);
}

#[test]
fn a_kind_filter_narrows_what_the_run_can_reach() {
    let mut videos = sample();
    videos[1].is_short = true;
    let shorts = PlaylistView { kind: PlaylistKind::Shorts, ..PlaylistView::default() };
    assert_eq!(ids(&run_order(&shorts, videos.clone())), ["a"]);
    let long_form = PlaylistView { kind: PlaylistKind::Videos, ..PlaylistView::default() };
    assert_eq!(ids(&run_order(&long_form, videos)), ["b", "c"]);
}

#[test]
fn a_default_view_hides_nothing() {
    assert!(!PlaylistView::default().is_filtered());
}

#[test]
fn a_queue_marker_is_told_apart_from_a_video_id() {
    let entry = playlist_queue_entry("watch-later");
    assert_eq!(queued_playlist_id(&entry), Some("watch-later"));
    assert_eq!(queued_playlist_id("dQw4w9WgXcQ"), None, "a video id is never mistaken for a run");
}

#[test]
fn stepping_forward_then_back_returns_to_the_same_video() {
    let view = PlaylistView::default();
    let order = run_order(&view, sample());
    let next = view.next_after(&order, "b").unwrap();
    assert_eq!(view.previous_before(&order, &next).as_deref(), Some("b"));
}

#[test]
fn descending_is_ascending_turned_around_ties_included() {
    let tied = vec![
        video("x", "Same", "2024-03-01T00:00:00Z", 600),
        video("y", "same", "2024-01-01T00:00:00Z", 600),
        video("z", "Other", "2024-02-01T00:00:00Z", 90),
    ];
    let now = 1_750_000_000;
    for sort in [PlaylistSort::Added, PlaylistSort::Published, PlaylistSort::Duration, PlaylistSort::Title] {
        let mut up = tied.clone();
        sort.apply_at(&mut up, false, now);
        let mut down = tied.clone();
        sort.apply_at(&mut down, true, now);
        let mut turned = ids(&up);
        turned.reverse();
        assert_eq!(ids(&down), turned);
    }
    let mut up = tied.clone();
    PlaylistSort::Duration.apply_at(&mut up, false, now);
    assert_eq!(ids(&up), ["z", "x", "y"]);
    let mut down = tied.clone();
    PlaylistSort::Duration.apply_at(&mut down, true, now);
    assert_eq!(ids(&down), ["y", "x", "z"]);
}
