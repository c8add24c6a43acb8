//! What the persistent player remembers about the video it is playing, and
//! how it answers what happens to it: a new video, a stream that errors, the
//! viewer retrying or asking for the embed. The screen performs the action
//! each step asks for and hands back what happened next.
use vstd::prelude::*;
use crate::playback::{PlaybackFailure, PlaybackFailureOrigin};
use crate::text::trim;

verus! {

/// How many times an erroring stream is resolved afresh before the player
/// gives up and says so.
pub const STREAM_RETRIES: u8 = 2;

/// The player's own state for the video on screen.
pub struct PlayerState {
    /// The video these fields are about.
    pub observed_video_id: String,
    /// How many times the stream was resolved afresh after an error.
    pub attempt: u8,
    /// The video whose session stopped working, so the next resolve for it
    /// asks for a new one rather than getting the same broken answer back.
    pub stale_session_for: Option<String>,
    /// Whether the viewer switched to YouTube's embed.
    pub use_embed: bool,
    /// Whether the stream failed for good.
    pub failed: bool,
    /// The transport's own account of why.
    pub failure_detail: String,
    /// The video whose session was last resolved ahead of time.
    pub warmed_next: Option<String>,
}

/// What happened to the player.
pub enum PlayerEvent {
    /// The video on screen is this one.
    Observed(String),
    /// The media element reported an error playing this video.
    StreamError(String),
    /// The transport's account of a failure arrived.
    TransportDetail(String),
    /// The viewer pressed "Try again" on this video.
    Retry(String),
    /// The viewer asked for YouTube's embed.
    UseEmbed,
}

/// What the screen does next.
#[derive(Clone, Copy, Debug, PartialEq, Eq, Structural)]
pub enum PlayerAction {
    Nothing,
    /// Resolve the session again.
    Resolve,
    /// Read the transport's account of the failure.
    ReadTransportFailure,
}

/// The player's state by the text of its fields.
pub struct PlayerView {
    pub observed_video_id: Seq<char>,
    pub attempt: nat,
    pub stale_session_for: Option<Seq<char>>,
    pub use_embed: bool,
    pub failed: bool,
    pub failure_detail: Seq<char>,
    pub warmed_next: Option<Seq<char>>,
}

pub open spec fn text_of(o: Option<String>) -> Option<Seq<char>> {
    match o {
        Some(s) => Some(s@),
        None => None,
    }
}

impl View for PlayerState {
    type V = PlayerView;

    open spec fn view(&self) -> PlayerView {
        PlayerView {
            observed_video_id: self.observed_video_id@,
            attempt: self.attempt as nat,
            stale_session_for: text_of(self.stale_session_for),
            use_embed: self.use_embed,
            failed: self.failed,
            failure_detail: self.failure_detail@,
            warmed_next: text_of(self.warmed_next),
        }
    }
}

/// An event by its texts.
pub enum PlayerEventView {
    Observed(Seq<char>),
    StreamError(Seq<char>),
    TransportDetail(Seq<char>),
    Retry(Seq<char>),
    UseEmbed,
}

impl View for PlayerEvent {
    type V = PlayerEventView;

    open spec fn view(&self) -> PlayerEventView {
        match self {
            PlayerEvent::Observed(id) => PlayerEventView::Observed(id@),
            PlayerEvent::StreamError(id) => PlayerEventView::StreamError(id@),
            PlayerEvent::TransportDetail(t) => PlayerEventView::TransportDetail(t@),
            PlayerEvent::Retry(id) => PlayerEventView::Retry(id@),
            PlayerEvent::UseEmbed => PlayerEventView::UseEmbed,
        }
    }
}

/// A player with nothing on screen.
pub open spec fn start_view() -> PlayerView {
    PlayerView {
        observed_video_id: Seq::empty(),
        attempt: 0,
        stale_session_for: None,
        use_embed: false,
        failed: false,
        failure_detail: Seq::empty(),
        warmed_next: None,
    }
}

/// How the player answers `event` in state `s`: its next state and what
/// the screen does.
///
/// A new video starts clean: no retries spent, no stale session, no embed,
/// no failure. An erroring stream is resolved afresh, its session marked
/// stale, up to `STREAM_RETRIES` times, since playback URLs expire and a
/// fresh resolve is the fix; after that the player says so instead of
/// quietly handing the video to YouTube's own player. "Try again" clears
/// the failure and restores the retry budget. Only the viewer turns the
/// embed on.
pub open spec fn player_step(s: PlayerView, event: PlayerEventView) -> (PlayerView, PlayerAction) {
    match event {
        PlayerEventView::Observed(id) => if id == s.observed_video_id {
            (s, PlayerAction::Nothing)
        } else {
            (
                PlayerView {
                    observed_video_id: id,
                    attempt: 0,
                    stale_session_for: None,
                    use_embed: false,
                    failed: false,
                    failure_detail: Seq::empty(),
                    ..s
                },
                PlayerAction::Nothing,
            )
        },
        PlayerEventView::StreamError(id) => if s.attempt < STREAM_RETRIES {
            (
                PlayerView { stale_session_for: Some(id), attempt: s.attempt + 1, ..s },
                PlayerAction::Resolve,
            )
        } else {
            (PlayerView { failed: true, ..s }, PlayerAction::ReadTransportFailure)
        },
        PlayerEventView::TransportDetail(text) => (PlayerView { failure_detail: text, ..s }, PlayerAction::Nothing),
        PlayerEventView::Retry(id) => (
            PlayerView { failed: false, stale_session_for: Some(id), attempt: 0, ..s },
            PlayerAction::Resolve,
        ),
        PlayerEventView::UseEmbed => (PlayerView { use_embed: true, ..s }, PlayerAction::Nothing),
    }
}

impl PlayerState {
    /// A player with nothing on screen.
    pub fn new() -> (r: PlayerState)
        ensures
            r@ == start_view(),
    {
        PlayerState {
            observed_video_id: String::new(),
            attempt: 0,
            stale_session_for: None,
            use_embed: false,
            failed: false,
            failure_detail: String::new(),
            warmed_next: None,
        }
    }

    /// Answer `event`: move to the next state and say what the screen
    /// does.
    pub fn step(&mut self, event: PlayerEvent) -> (r: PlayerAction)
        ensures
            final(self)@ == player_step(old(self)@, event@).0,
            r == player_step(old(self)@, event@).1,
    {
        match event {
            PlayerEvent::Observed(id) => {
                if id != self.observed_video_id {
                    self.observed_video_id = id;
                    self.attempt = 0;
                    self.stale_session_for = None;
                    self.use_embed = false;
                    self.failed = false;
                    self.failure_detail = String::new();
                }
                PlayerAction::Nothing
            },
            PlayerEvent::StreamError(id) => {
                if self.attempt < STREAM_RETRIES {
                    self.stale_session_for = Some(id);
                    self.attempt = self.attempt + 1;
                    PlayerAction::Resolve
                } else {
                    self.failed = true;
                    PlayerAction::ReadTransportFailure
                }
            },
            PlayerEvent::TransportDetail(text) => {
                self.failure_detail = text;
                PlayerAction::Nothing
            },
            PlayerEvent::Retry(id) => {
                self.failed = false;
                self.stale_session_for = Some(id);
                self.attempt = 0;
                PlayerAction::Resolve
            },
            PlayerEvent::UseEmbed => {
                self.use_embed = true;
                PlayerAction::Nothing
            },
        }
    }

    /// Whether the next resolve for `video_id` must ask for a new session
    /// rather than the one the server handed out before.
    pub fn wants_fresh_session(&self, video_id: &str) -> (r: bool)
        ensures
            r == (self@.stale_session_for == Some(video_id@)),
    {
        match &self.stale_session_for {
            Some(stale) => {
                let id = video_id.to_string();
                *stale == id
            },
            None => false,
        }
    }

    /// Which video to resolve ahead of time, if any: the one up next in the
    /// run, once this video's own session is in, and only once per video,
    /// so the two never race for the extractor.
    pub fn warm_next(&mut self, resolved: Option<&str>, active: Option<&str>, next: Option<&str>) -> (r: Option<
        String,
    >)
        ensures
            ({
                let due = match (resolved, active, next) {
                    (Some(res), Some(act), Some(nx)) => res@ == act@ && old(self)@.warmed_next != Some(
                        nx@,
                    ),
                    _ => false,
                };
                &&& due ==> text_of(r) == Some(next->0@) && final(self)@ == PlayerView {
                    warmed_next: Some(next->0@),
                    ..old(self)@
                }
                &&& !due ==> r is None && final(self)@ == old(self)@
            }),
    {
        let (res, act, nx) = match (resolved, active, next) {
            (Some(res), Some(act), Some(nx)) => (res, act, nx),
            _ => return None,
        };
        let res_s = res.to_string();
        let act_s = act.to_string();
        if res_s != act_s {
            return None;
        }
        let nx_s = nx.to_string();
        let already = match &self.warmed_next {
            Some(w) => *w == nx_s,
            None => false,
        };
        if already {
            return None;
        }
        self.warmed_next = Some(nx_s.clone());
        Some(nx_s)
    }
}

/// The embed is only ever the viewer's choice: no step but their asking
/// for it turns it on.
pub proof fn law_only_the_viewer_turns_the_embed_on(s: PlayerView, event: PlayerEventView)
    ensures
        player_step(s, event).0.use_embed ==> s.use_embed || event is UseEmbed,
{
}

/// The retry budget holds: a state within it stays within it.
pub proof fn law_retries_stay_within_the_budget(s: PlayerView, event: PlayerEventView)
    requires
        s.attempt <= STREAM_RETRIES,
    ensures
        player_step(s, event).0.attempt <= STREAM_RETRIES,
{
}

/// A new video starts clean, whatever happened to the last one.
pub proof fn law_a_new_video_starts_clean(s: PlayerView, id: Seq<char>)
    requires
        id != s.observed_video_id,
    ensures
        ({
            let n = player_step(s, PlayerEventView::Observed(id)).0;
            &&& n.observed_video_id == id
            &&& n.attempt == 0
            &&& n.stale_session_for is None
            &&& !n.use_embed
            &&& !n.failed
            &&& n.failure_detail.len() == 0
        }),
{
}

/// On a new video, the first two stream errors each resolve the session
/// afresh, and the third gives up and says so.
pub proof fn law_two_fresh_resolves_then_the_failure_is_shown(s: PlayerView, id: Seq<char>)
    requires
        id != s.observed_video_id,
    ensures
        ({
            let s0 = player_step(s, PlayerEventView::Observed(id)).0;
            let (s1, a1) = player_step(s0, PlayerEventView::StreamError(id));
            let (s2, a2) = player_step(s1, PlayerEventView::StreamError(id));
            let (s3, a3) = player_step(s2, PlayerEventView::StreamError(id));
            &&& a1 == PlayerAction::Resolve && !s1.failed && s1.stale_session_for == Some(id)
            &&& a2 == PlayerAction::Resolve && !s2.failed
            &&& a3 == PlayerAction::ReadTransportFailure && s3.failed
            &&& !s3.use_embed
        }),
{
}

/// "Try again" clears the failure and restores the whole retry budget,
/// asking for a fresh session.
pub proof fn law_trying_again_restores_the_budget(s: PlayerView, id: Seq<char>)
    ensures
        ({
            let (n, a) = player_step(s, PlayerEventView::Retry(id));
            &&& !n.failed && n.attempt == 0 && n.stale_session_for == Some(id)
            &&& a == PlayerAction::Resolve
        }),
{
}

/// What the failure panel says: the server's own refusal when it gave
/// one; else, when the session held nothing the player can use, a bug on
/// the server's side; else the browser failed on the streams it was handed,
/// with the transport's account as the detail.
pub fn failure_to_show(resolve_error: Option<PlaybackFailure>, nothing_extracted: bool, detail: String) -> (r: PlaybackFailure)
    ensures
        match resolve_error {
            Some(e) => r == e,
            None => if nothing_extracted {
                &&& r.origin == PlaybackFailureOrigin::Bug
                &&& r.summary@ == "The server returned streams this player cannot use."@
                &&& r.remedy matches Some(m) && m@ == "Report it with the video link; the server log has the stream list."@
                &&& r.detail is None
            } else {
                &&& r.origin == PlaybackFailureOrigin::Unknown
                &&& r.summary@ == "Streams were found, but the player could not play them."@
                &&& r.remedy matches Some(m) && m@ == "Try again. A 403 in the detail means YouTube cut the stream off; anything else that repeats is likely a Tawny bug worth reporting."@
                &&& r.detail == if trim(detail@).len() > 0 {
                    Some(detail)
                } else {
                    None
                }
            },
        },
{
    match resolve_error {
        Some(e) => e,
        None => {
            if nothing_extracted {
                PlaybackFailure::new(
                    PlaybackFailureOrigin::Bug,
                    "The server returned streams this player cannot use.".to_string(),
                ).remedy("Report it with the video link; the server log has the stream list.".to_string())
            } else {
                PlaybackFailure::new(
                    PlaybackFailureOrigin::Unknown,
                    "Streams were found, but the player could not play them.".to_string(),
                ).remedy(
                    "Try again. A 403 in the detail means YouTube cut the stream off; anything else that repeats is likely a Tawny bug worth reporting.".to_string(),
                ).detail(detail)
            }
        },
    }
}

} // verus!
