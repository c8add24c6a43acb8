//! Playback sources, and what a failure to play says and whose it is.
use vstd::prelude::*;
use crate::text::{chars_of, contains_run, push_str, string_of, trim, trimmed_chars};

verus! {

#[derive(Clone, Copy, Debug, PartialEq, Eq, Structural)]
pub enum PlaybackProtocol {
    Sabr,
    Hls,
    Dash,
    Progressive,
    EmbedFallback,
}

/// An inclusive byte range within an adaptive media resource.
#[derive(Clone, Copy, Debug, PartialEq, Eq, Structural)]
pub struct PlaybackByteRange {
    pub start: u64,
    pub end: u64,
}

#[derive(Clone, Copy, Debug, PartialEq, Eq, Structural)]
pub enum PlaybackTrackKind {
    Video,
    Audio,
}

pub struct PlaybackRequestHeader {
    pub name: String,
    pub value: String,
}

/// A single audio or video representation used by an adaptive transport.
pub struct PlaybackTrack {
    pub kind: PlaybackTrackKind,
    pub url: String,
    pub mime_type: String,
    pub bitrate: Option<u64>,
    pub content_length: Option<u64>,
    pub duration_ms: Option<u64>,
    pub width: Option<u32>,
    pub height: Option<u32>,
    pub fps: Option<u32>,
    pub quality_label: Option<String>,
    pub language: Option<String>,
    pub label: Option<String>,
    pub is_default: bool,
    pub init_range: Option<PlaybackByteRange>,
    pub index_range: Option<PlaybackByteRange>,
    pub request_headers: Vec<PlaybackRequestHeader>,
}

pub struct PlaybackSource {
    pub protocol: PlaybackProtocol,
    pub url: String,
    pub mime_type: Option<String>,
    pub po_token: Option<String>,
    pub expires_at: Option<String>,
    pub quality_label: Option<String>,
    pub request_headers: Vec<PlaybackRequestHeader>,
    /// Adaptive representations. An empty list keeps the single-URL
    /// progressive or manifest contract.
    pub tracks: Vec<PlaybackTrack>,
}

pub struct PlaybackSession {
    pub primary: PlaybackSource,
    pub alternatives: Vec<PlaybackSource>,
    pub fallback_url: String,
}

/// Whether the player's own transport can play a source: not one that
/// needs request headers, not the embed, and a SABR source only when it
/// carries tracks or a DASH or HLS manifest.
pub open spec fn transportable(source: PlaybackSource) -> bool {
    if source.request_headers@.len() > 0 {
        false
    } else {
        match source.protocol {
            PlaybackProtocol::Hls | PlaybackProtocol::Dash | PlaybackProtocol::Progressive => true,
            PlaybackProtocol::Sabr => source.tracks@.len() > 0 || match source.mime_type {
                Some(mime) => contains_run(mime@, "dash+xml"@) || contains_run(mime@, "mpegurl"@),
                None => false,
            },
            PlaybackProtocol::EmbedFallback => false,
        }
    }
}

/// Whether the player's own transport can play a source.
pub fn source_is_transportable(source: &PlaybackSource) -> (r: bool)
    ensures
        r == transportable(*source),
{
    if source.request_headers.len() > 0 {
        return false;
    }
    match source.protocol {
        PlaybackProtocol::Hls | PlaybackProtocol::Dash | PlaybackProtocol::Progressive => true,
        PlaybackProtocol::Sabr => {
            if source.tracks.len() > 0 {
                return true;
            }
            match &source.mime_type {
                Some(mime) => {
                    let m = chars_of(mime.as_str());
                    crate::dates::mentions(&m, "dash+xml") || crate::dates::mentions(&m, "mpegurl")
                },
                None => false,
            }
        },
        PlaybackProtocol::EmbedFallback => false,
    }
}

/// Whose side a playback failure is on, which decides what can be done
/// about it: nothing (YouTube's own rules), a fix to the deployment, or a
/// fix to Tawny's code.
#[derive(Clone, Copy, Debug, PartialEq, Eq, Structural)]
pub enum PlaybackFailureOrigin {
    /// YouTube refused the video.
    Youtube,
    /// Something Tawny runs on is down, misconfigured or out of date.
    Setup,
    /// Tawny's own code got it wrong.
    Bug,
    /// An error Tawny does not recognise.
    Unknown,
}

pub open spec fn origin_label(origin: PlaybackFailureOrigin) -> Seq<char> {
    match origin {
        PlaybackFailureOrigin::Youtube => "Blocked by YouTube"@,
        PlaybackFailureOrigin::Setup => "Server setup problem"@,
        PlaybackFailureOrigin::Bug => "Tawny bug"@,
        PlaybackFailureOrigin::Unknown => "Unrecognised error"@,
    }
}

impl PlaybackFailureOrigin {
    pub fn label(self) -> (r: &'static str)
        ensures
            r@ == origin_label(self),
    {
        match self {
            PlaybackFailureOrigin::Youtube => "Blocked by YouTube",
            PlaybackFailureOrigin::Setup => "Server setup problem",
            PlaybackFailureOrigin::Bug => "Tawny bug",
            PlaybackFailureOrigin::Unknown => "Unrecognised error",
        }
    }

    /// The HTTP status a failure is answered with: an upstream refusal or a
    /// dependency that is down is a gateway failure, anything else an
    /// internal error.
    pub fn status_code(self) -> (r: u16)
        ensures
            r == (match self {
                PlaybackFailureOrigin::Youtube | PlaybackFailureOrigin::Setup => 502u16,
                PlaybackFailureOrigin::Bug | PlaybackFailureOrigin::Unknown => 500u16,
            }),
    {
        match self {
            PlaybackFailureOrigin::Youtube | PlaybackFailureOrigin::Setup => 502,
            PlaybackFailureOrigin::Bug | PlaybackFailureOrigin::Unknown => 500,
        }
    }
}

/// Why a video cannot be played: whose problem it is and what, if
/// anything, fixes it.
pub struct PlaybackFailure {
    pub origin: PlaybackFailureOrigin,
    /// What went wrong, as one sentence.
    pub summary: String,
    /// What the viewer or whoever runs the server can do.
    pub remedy: Option<String>,
    /// The underlying error verbatim, for bug reports and the server log.
    pub detail: Option<String>,
}

/// The one-line text of a failure: "label: summary", and the detail in
/// brackets when there is one.
pub open spec fn failure_text(failure: PlaybackFailure) -> Seq<char> {
    let head = origin_label(failure.origin) + ": "@ + failure.summary@;
    match failure.detail {
        Some(d) => head + " ("@ + d@ + ")"@,
        None => head,
    }
}

impl PlaybackFailure {
    pub fn new(origin: PlaybackFailureOrigin, summary: String) -> (r: PlaybackFailure)
        ensures
            r.origin == origin,
            r.summary == summary,
            r.remedy is None,
            r.detail is None,
    {
        PlaybackFailure { origin, summary, remedy: None, detail: None }
    }

    pub fn remedy(self, remedy: String) -> (r: PlaybackFailure)
        ensures
            r == (PlaybackFailure { remedy: Some(remedy), ..self }),
    {
        PlaybackFailure { remedy: Some(remedy), ..self }
    }

    /// The underlying error, kept only when it says something.
    pub fn detail(self, detail: String) -> (r: PlaybackFailure)
        ensures
            r == (PlaybackFailure {
                detail: if trim(detail@).len() > 0 {
                    Some(detail)
                } else {
                    None
                },
                ..self
            }),
    {
        let keep = trimmed_chars(detail.as_str()).len() > 0;
        PlaybackFailure {
            detail: if keep {
                Some(detail)
            } else {
                None
            },
            ..self
        }
    }

    /// The failure as one line of text.
    pub fn message(&self) -> (r: String)
        ensures
            r@ == failure_text(*self),
    {
        let mut out = chars_of(self.origin.label());
        push_str(&mut out, ": ");
        push_str(&mut out, self.summary.as_str());
        match &self.detail {
            Some(d) => {
                push_str(&mut out, " (");
                push_str(&mut out, d.as_str());
                push_str(&mut out, ")");
            },
            None => {},
        }
        string_of(out.as_slice())
    }
}

/// How a request for a playback session failed before the resolver saw
/// it, as the server-function client reports it.
#[derive(Clone, Copy, Debug, PartialEq, Eq, Structural)]
pub enum TransportFailure {
    /// The request could not be sent or its answer could not be read.
    Request,
    /// The answer's stream broke off.
    Stream,
    /// The server answered with an error of its own.
    Server,
    /// Anything else: the two sides disagreed about the request's shape.
    Other,
}

/// Whose a transport failure is: an unreachable server is a setup problem,
/// a server error is unrecognised, and any other disagreement is a bug.
pub open spec fn transport_origin(kind: TransportFailure) -> PlaybackFailureOrigin {
    match kind {
        TransportFailure::Request | TransportFailure::Stream => PlaybackFailureOrigin::Setup,
        TransportFailure::Server => PlaybackFailureOrigin::Unknown,
        TransportFailure::Other => PlaybackFailureOrigin::Bug,
    }
}

pub open spec fn transport_summary(kind: TransportFailure) -> Seq<char> {
    match kind {
        TransportFailure::Request | TransportFailure::Stream => "The Tawny server could not be reached."@,
        TransportFailure::Server => "The server could not start playback."@,
        TransportFailure::Other => "The app and the server disagreed about the playback request."@,
    }
}

pub open spec fn transport_remedy(kind: TransportFailure) -> Seq<char> {
    match kind {
        TransportFailure::Request | TransportFailure::Stream => "Check your connection and that the server is running, then try again."@,
        TransportFailure::Server => "Check the server log for the cause."@,
        TransportFailure::Other => "Reload the app, since it may be older than the server. If it persists, report it with the detail below."@,
    }
}

impl PlaybackFailure {
    /// A failure the resolver never saw - the request not arriving, or not
    /// decoding - classified, with the error's own text as the detail.
    pub fn from_transport(kind: TransportFailure, error_text: String) -> (r: PlaybackFailure)
        ensures
            r.origin == transport_origin(kind),
            r.summary@ == transport_summary(kind),
            r.remedy matches Some(remedy) && remedy@ == transport_remedy(kind),
            r.detail == (if trim(error_text@).len() > 0 {
                Some(error_text)
            } else {
                None
            }),
    {
        let failure = match kind {
            TransportFailure::Request | TransportFailure::Stream => PlaybackFailure::new(
                PlaybackFailureOrigin::Setup,
                "The Tawny server could not be reached.".to_string(),
            ).remedy(
                "Check your connection and that the server is running, then try again.".to_string(),
            ),
            TransportFailure::Server => PlaybackFailure::new(
                PlaybackFailureOrigin::Unknown,
                "The server could not start playback.".to_string(),
            ).remedy("Check the server log for the cause.".to_string()),
            TransportFailure::Other => PlaybackFailure::new(
                PlaybackFailureOrigin::Bug,
                "The app and the server disagreed about the playback request.".to_string(),
            ).remedy(
                "Reload the app, since it may be older than the server. If it persists, report it with the detail below.".to_string(),
            ),
        };
        failure.detail(error_text)
    }
}


/// Which of a session's sources the player attaches.
#[derive(Clone, Copy, Debug, PartialEq, Eq, Structural)]
pub enum SourceChoice {
    Primary,
    Alternative(usize),
}

/// Where the first source its own transport can play stands among
/// `sources`, from `from` on.
pub open spec fn first_transportable(sources: Seq<PlaybackSource>, from: int) -> Option<int>
    decreases sources.len() - from,
{
    if from < 0 || from >= sources.len() {
        None
    } else if transportable(sources[from]) {
        Some(from)
    } else {
        first_transportable(sources, from + 1)
    }
}

/// The source the player attaches: the primary one where its transport
/// can play it, else the first alternative it can, else the primary one
/// still, which then fails visibly rather than silently swapping.
pub open spec fn source_choice_of(session: PlaybackSession) -> SourceChoice {
    if transportable(session.primary) {
        SourceChoice::Primary
    } else {
        match first_transportable(session.alternatives@, 0) {
            Some(k) => SourceChoice::Alternative(k as usize),
            None => SourceChoice::Primary,
        }
    }
}

/// The source the player attaches.
pub fn choose_source(session: &PlaybackSession) -> (r: SourceChoice)
    ensures
        r == source_choice_of(*session),
        r matches SourceChoice::Alternative(k) ==> k < session.alternatives@.len(),
{
    if source_is_transportable(&session.primary) {
        return SourceChoice::Primary;
    }
    let mut k: usize = 0;
    while k < session.alternatives.len()
        invariant
            k <= session.alternatives@.len(),
            !transportable(session.primary),
            first_transportable(session.alternatives@, 0) == first_transportable(session.alternatives@, k as int),
        decreases session.alternatives.len() - k,
    {
        if source_is_transportable(&session.alternatives[k]) {
            return SourceChoice::Alternative(k);
        }
        k = k + 1;
    }
    SourceChoice::Primary
}

/// Where the first transportable source stands, if any does.
proof fn lemma_first_transportable(sources: Seq<PlaybackSource>, from: int)
    requires
        0 <= from,
    ensures
        match first_transportable(sources, from) {
            Some(k) => from <= k < sources.len() && transportable(sources[k]),
            None => forall|j: int| from <= j < sources.len() ==> !transportable(#[trigger] sources[j]),
        },
    decreases sources.len() - from,
{
    if from < sources.len() && !transportable(sources[from]) {
        lemma_first_transportable(sources, from + 1);
    }
}

/// The chosen source can be played by the player's own transport exactly
/// when one of the session's sources can.
pub proof fn law_choice_is_playable_when_any_source_is(session: PlaybackSession)
    requires
        session.alternatives@.len() <= usize::MAX,
    ensures
        match source_choice_of(session) {
            SourceChoice::Primary => transportable(session.primary) || forall|j: int|
                0 <= j < session.alternatives@.len() ==> !transportable(#[trigger] session.alternatives@[j]),
            SourceChoice::Alternative(k) => k < session.alternatives@.len() && transportable(
                session.alternatives@[k as int],
            ),
        },
{
    lemma_first_transportable(session.alternatives@, 0);
}

/// The privacy-enhanced embed of a video, the manual escape hatch when
/// no session gave a fallback.
pub open spec fn embed_url_of(video_id: Seq<char>) -> Seq<char> {
    "https://www.youtube-nocookie.com/embed/"@ + video_id + "?enablejsapi=1&autoplay=1&playsinline=1"@
}

/// The privacy-enhanced embed of a video.
pub fn embed_url(video_id: &str) -> (r: String)
    ensures
        r@ == embed_url_of(video_id@),
{
    let mut out: Vec<char> = Vec::new();
    push_str(&mut out, "https://www.youtube-nocookie.com/embed/");
    push_str(&mut out, video_id);
    push_str(&mut out, "?enablejsapi=1&autoplay=1&playsinline=1");
    string_of(out.as_slice())
}

/// What the player shows for the video on screen.
pub struct PlayerStage {
    /// No session for this video is in yet.
    pub resolving: bool,
    /// The player's own transport plays it.
    pub direct_stream: bool,
    /// A session came back and nothing in it can be played: the server
    /// extracted nothing usable, unlike a stream the browser then failed.
    pub nothing_extracted: bool,
}

/// What the player shows: `resolved` whether a session for this very video
/// is in, `playable` whether its chosen source can be played, `use_embed`
/// whether the viewer switched to the embed, `failed` whether the stream
/// already failed.
pub fn player_stage(resolved: bool, playable: bool, use_embed: bool, failed: bool) -> (r: PlayerStage)
    ensures
        r.resolving == !resolved,
        r.direct_stream == (!use_embed && !failed && resolved && playable),
        r.nothing_extracted == (resolved && !playable),
{
    PlayerStage {
        resolving: !resolved,
        direct_stream: !use_embed && !failed && resolved && playable,
        nothing_extracted: resolved && !playable,
    }
}

/// The privacy-enhanced embed is never substituted automatically: no
/// embed source is ever played as a direct stream, so the player reaches
/// the embed only when the viewer asks for it.
pub proof fn law_the_embed_is_never_automatic(session: PlaybackSession)
    requires
        session.alternatives@.len() <= usize::MAX,
    ensures
        match source_choice_of(session) {
            SourceChoice::Primary => transportable(session.primary)
                ==> session.primary.protocol != PlaybackProtocol::EmbedFallback,
            SourceChoice::Alternative(k) => session.alternatives@[k as int].protocol
                != PlaybackProtocol::EmbedFallback,
        },
{
    law_choice_is_playable_when_any_source_is(session);
}

} // verus!
