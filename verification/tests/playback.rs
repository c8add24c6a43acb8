use tawny::playback::{
    choose_source, embed_url, player_stage, PlaybackFailure, PlaybackFailureOrigin,
    PlaybackProtocol, PlaybackRequestHeader, PlaybackSession, PlaybackSource, SourceChoice,
    TransportFailure,
};

fn source(protocol: PlaybackProtocol, mime_type: Option<&str>, headers: usize) -> PlaybackSource {
    PlaybackSource {
        protocol,
        url: "https://example.invalid/stream".into(),
        mime_type: mime_type.map(|m| m.to_string()),
        po_token: None,
        expires_at: None,
        quality_label: None,
        request_headers: (0..headers)
            .map(|_| PlaybackRequestHeader { name: "X".into(), value: "y".into() })
            .collect(),
        tracks: Vec::new(),
    }
}

#[test]
fn the_first_playable_alternative_stands_in_for_an_unplayable_primary() {
    let session = PlaybackSession {
        primary: source(PlaybackProtocol::Sabr, None, 0),
        alternatives: vec![
            source(PlaybackProtocol::Hls, None, 1),
            source(PlaybackProtocol::Dash, None, 0),
            source(PlaybackProtocol::Hls, None, 0),
        ],
        fallback_url: String::new(),
    };
    assert_eq!(choose_source(&session), SourceChoice::Alternative(1));
}

#[test]
fn a_playable_primary_is_kept_and_nothing_playable_keeps_the_primary() {
    let playable = PlaybackSession {
        primary: source(PlaybackProtocol::Sabr, Some("application/dash+xml"), 0),
        alternatives: vec![source(PlaybackProtocol::Hls, None, 0)],
        fallback_url: String::new(),
    };
    assert_eq!(choose_source(&playable), SourceChoice::Primary);
    let none = PlaybackSession {
        primary: source(PlaybackProtocol::EmbedFallback, None, 0),
        alternatives: vec![source(PlaybackProtocol::Progressive, None, 2)],
        fallback_url: String::new(),
    };
    assert_eq!(choose_source(&none), SourceChoice::Primary);
}

#[test]
fn the_embed_is_the_privacy_enhanced_one() {
    assert_eq!(
        embed_url("abc"),
        "https://www.youtube-nocookie.com/embed/abc?enablejsapi=1&autoplay=1&playsinline=1"
    );
}

#[test]
fn the_stage_tells_resolving_playing_and_empty_sessions_apart() {
    let resolving = player_stage(false, false, false, false);
    assert!(resolving.resolving && !resolving.direct_stream && !resolving.nothing_extracted);
    let playing = player_stage(true, true, false, false);
    assert!(!playing.resolving && playing.direct_stream && !playing.nothing_extracted);
    let empty = player_stage(true, false, false, false);
    assert!(empty.nothing_extracted && !empty.direct_stream);
    let embedded = player_stage(true, true, true, false);
    assert!(!embedded.direct_stream);
}

#[test]
fn an_unreachable_server_is_a_setup_problem_with_its_error_as_detail() {
    let failure = PlaybackFailure::from_transport(TransportFailure::Request, "connection refused".into());
    assert_eq!(failure.origin, PlaybackFailureOrigin::Setup);
    assert_eq!(failure.summary, "The Tawny server could not be reached.");
    assert_eq!(failure.detail.as_deref(), Some("connection refused"));
    assert_eq!(
        failure.message(),
        "Server setup problem: The Tawny server could not be reached. (connection refused)"
    );
    assert_eq!(failure.origin.status_code(), 502);
}

#[test]
fn a_blank_detail_is_dropped() {
    let failure = PlaybackFailure::new(PlaybackFailureOrigin::Bug, "Broken.".into())
        .remedy("Report it.".into())
        .detail("   ".into());
    assert_eq!(failure.detail, None);
    assert_eq!(failure.remedy.as_deref(), Some("Report it."));
    assert_eq!(failure.origin.status_code(), 500);
}
