use tawny::playback::{PlaybackFailure, PlaybackFailureOrigin};
use tawny::player_state::{failure_to_show, PlayerAction, PlayerEvent, PlayerState};

#[test]
fn an_erroring_stream_is_resolved_afresh_twice_then_the_failure_is_shown() {
    let mut player = PlayerState::new();
    assert_eq!(player.step(PlayerEvent::Observed("v".into())), PlayerAction::Nothing);
    assert!(!player.wants_fresh_session("v"));
    assert_eq!(player.step(PlayerEvent::StreamError("v".into())), PlayerAction::Resolve);
    assert!(player.wants_fresh_session("v"));
    assert!(!player.wants_fresh_session("w"));
    assert_eq!(player.step(PlayerEvent::StreamError("v".into())), PlayerAction::Resolve);
    assert_eq!(player.step(PlayerEvent::StreamError("v".into())), PlayerAction::ReadTransportFailure);
    assert!(player.failed);
    assert!(!player.use_embed);
    player.step(PlayerEvent::TransportDetail("403 from googlevideo".into()));
    assert_eq!(player.failure_detail, "403 from googlevideo");
    assert_eq!(player.step(PlayerEvent::Retry("v".into())), PlayerAction::Resolve);
    assert!(!player.failed);
    assert_eq!(player.attempt, 0);
}

#[test]
fn a_new_video_starts_clean_and_the_same_one_changes_nothing() {
    let mut player = PlayerState::new();
    player.step(PlayerEvent::Observed("v".into()));
    player.step(PlayerEvent::StreamError("v".into()));
    player.step(PlayerEvent::UseEmbed);
    assert!(player.use_embed);
    player.step(PlayerEvent::Observed("v".into()));
    assert!(player.use_embed);
    assert_eq!(player.attempt, 1);
    player.step(PlayerEvent::Observed("w".into()));
    assert!(!player.use_embed);
    assert_eq!(player.attempt, 0);
    assert_eq!(player.stale_session_for, None);
}

#[test]
fn the_next_video_is_warmed_once_and_only_after_this_one_resolves() {
    let mut player = PlayerState::new();
    assert_eq!(player.warm_next(None, Some("v"), Some("n")), None);
    assert_eq!(player.warm_next(Some("old"), Some("v"), Some("n")), None);
    assert_eq!(player.warm_next(Some("v"), Some("v"), Some("n")), Some("n".to_string()));
    assert_eq!(player.warm_next(Some("v"), Some("v"), Some("n")), None);
    assert_eq!(player.warm_next(Some("v"), Some("v"), None), None);
}

#[test]
fn the_panel_tells_whose_failure_it_is() {
    let refused = PlaybackFailure::new(PlaybackFailureOrigin::Youtube, "Private video.".into());
    assert_eq!(failure_to_show(Some(refused), true, String::new()).origin, PlaybackFailureOrigin::Youtube);
    let empty = failure_to_show(None, true, "ignored".into());
    assert_eq!(empty.origin, PlaybackFailureOrigin::Bug);
    assert_eq!(empty.detail, None);
    let broken = failure_to_show(None, false, "403".into());
    assert_eq!(broken.origin, PlaybackFailureOrigin::Unknown);
    assert_eq!(broken.detail.as_deref(), Some("403"));
}
