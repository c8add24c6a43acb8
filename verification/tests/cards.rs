use tawny::channel::{Channel, SubscriptionContent};
use tawny::library::Playlist;
use tawny::screens::{channel_meta, playlist_preview, playlist_subtitle, run_card};
use tawny::subscriptions::{channels_for_editor, group_faces, GROUP_FACES};
use tawny::video::Video;

fn video(id: &str, watched: bool, thumb: &str) -> Video {
    Video {
        id: id.into(),
        title: String::new(),
        channel_id: "c".into(),
        channel_name: "C".into(),
        thumbnail_url: thumb.into(),
        published_at: String::new(),
        duration_seconds: 10,
        view_count: String::new(),
        progress_seconds: 0,
        watched,
        is_live: false,
        is_short: false,
        audio_only: false,
        channel_avatar_url: None,
    }
}

fn channel(id: &str, name: &str) -> Channel {
    Channel {
        id: id.into(),
        name: name.into(),
        handle: format!("@{}", name.to_lowercase()),
        avatar_url: None,
        subscriber_count: String::new(),
        subscribed: true,
        description: String::new(),
        banner_url: None,
        subscription_content: SubscriptionContent::All,
    }
}

#[test]
fn a_playlist_cover_counts_unwatched_and_shows_three_thumbnails() {
    let videos = vec![
        video("a", false, "ta"),
        video("b", true, "tb"),
        video("c", false, "tc"),
        video("d", false, "td"),
    ];
    let playlist = Playlist {
        id: "p".into(),
        name: "Mine".into(),
        video_ids: vec!["missing".into(), "d".into(), "b".into(), "a".into(), "c".into()],
    };
    let preview = playlist_preview(&playlist, &videos);
    assert_eq!(preview.count, 5);
    assert_eq!(preview.unwatched, 3);
    assert_eq!(preview.thumbnails, vec!["td".to_string(), "tb".to_string(), "ta".to_string()]);
    assert_eq!(preview.name, "Mine");
}

#[test]
fn a_playlist_card_mentions_unwatched_only_when_some_are() {
    assert_eq!(playlist_subtitle(5, 3), "5 videos · 3 unwatched");
    assert_eq!(playlist_subtitle(5, 5), "5 videos");
    assert_eq!(playlist_subtitle(1, 0), "1 video");
}

#[test]
fn a_channel_line_drops_what_is_blank() {
    assert_eq!(channel_meta(" @bytes ", "482K"), "@bytes · 482K subscribers");
    assert_eq!(channel_meta("@bytes", "  "), "@bytes");
    assert_eq!(channel_meta("", "1.2M"), "1.2M subscribers");
    assert_eq!(channel_meta(" ", ""), "");
}

#[test]
fn a_run_card_says_where_the_run_is() {
    let card = run_card(5, 3, Some(2), Some("Second"), Some("Third"), &vec!["Unwatched".into(), "Short".into()]);
    assert_eq!(card.filter_text, "Unwatched, Short");
    assert_eq!(card.now_text, "Now playing 2 of 5: Second");
    assert_eq!(card.next_text.as_deref(), Some("3 left · Up next: Third"));
    let fresh = run_card(4, 4, None, None, Some("First"), &Vec::new());
    assert_eq!(fresh.filter_text, "no filters");
    assert_eq!(fresh.now_text, "Not started · 4 of 4 to play");
    assert_eq!(fresh.next_text.as_deref(), Some("Starts with: First"));
    let last = run_card(4, 0, Some(4), Some("Last"), None, &Vec::new());
    assert_eq!(last.next_text.as_deref(), Some("Last video in this order"));
    assert_eq!(run_card(4, 1, Some(3), Some("x"), Some("y"), &Vec::new()).next_text.as_deref(), Some("1 left · Up next: y"));
}

#[test]
fn the_group_editor_lists_what_the_query_names() {
    let subscribed = vec![channel("1", "Byte Sized"), channel("2", "Field Notes")];
    assert_eq!(channels_for_editor(&subscribed, "").len(), 2);
    let found = channels_for_editor(&subscribed, "field");
    assert_eq!(found.len(), 1);
    assert_eq!(found[0].id, "2");
    assert!(channels_for_editor(&subscribed, "zzz").is_empty());
}

#[test]
fn a_group_row_shows_at_most_five_followed_faces_in_group_order() {
    let subscribed: Vec<Channel> = (0..8).map(|k| channel(&k.to_string(), &format!("C{k}"))).collect();
    let ids: Vec<String> = vec!["7", "x", "1", "2", "3", "4", "5", "6"].into_iter().map(String::from).collect();
    let faces = group_faces(&ids, &subscribed);
    assert_eq!(faces.len(), GROUP_FACES);
    assert_eq!(faces.iter().map(|c| c.id.as_str()).collect::<Vec<_>>(), ["7", "1", "2", "3", "4"]);
    assert!(group_faces(&vec!["nobody".to_string()], &subscribed).is_empty());
}
