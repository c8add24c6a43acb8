//! What the screens decide and say: where a route belongs, how counts and
//! links read, which videos still need a length, and how a run of videos
//! is handed to the queue.
use vstd::prelude::*;
use crate::dates::{same_chars, spells};
use crate::explore::{last_position, last_position_of};
use crate::library::{
    texts, AudioTrackOption, ChannelMediaTab, CommentsPage, Playlist, PlaylistPreview, VideoDetails,
};
use crate::playlist::{kind_matches, FeedFilter, PlaylistKind, PlaylistView};
use crate::text::{
    ascii_lower, ascii_lowercase, chars_of, decimal, decimal_of, parse_in_range, parse_integer,
    push_all, push_str, string_of, to_lowercase, trim, trimmed_chars, unicode_lowercase,
};
use crate::video::{clock_label, clock_label_of, Video};

verus! {

/// Where the app can be.
#[derive(Debug)]
pub enum Route {
    Feed,
    Subscriptions,
    Playlists,
    Explore,
    QueuePage,
    HistoryPage,
    VideoDetail { id: String },
    PlaylistDetail { id: String },
    SettingsPage,
    ChannelDetail { id: String },
}

/// The nav destination a route belongs to.
pub open spec fn section_of(route: Route) -> Seq<char> {
    match route {
        Route::Subscriptions => "Subscriptions"@,
        Route::Playlists | Route::PlaylistDetail { .. } => "Playlists"@,
        Route::Explore => "Search"@,
        _ => "Feed"@,
    }
}

/// The gold label: the nav destination the current route belongs to.
pub fn section_label(route: &Route) -> (r: &'static str)
    ensures
        r@ == section_of(*route),
{
    match route {
        Route::Subscriptions => "Subscriptions",
        Route::Playlists | Route::PlaylistDetail { .. } => "Playlists",
        Route::Explore => "Search",
        _ => "Feed",
    }
}

/// Queue, History, and Settings: reached from the header rather than a
/// tab, and presented as a sheet over whatever launched them.
pub fn is_auxiliary_route(route: &Route) -> (r: bool)
    ensures
        r == (route is SettingsPage || route is QueuePage || route is HistoryPage),
{
    match route {
        Route::SettingsPage | Route::QueuePage | Route::HistoryPage => true,
        _ => false,
    }
}

/// The channel tab a feed filter picks; `None` is every tab together.
pub fn media_tab(filter: FeedFilter) -> (r: Option<ChannelMediaTab>)
    ensures
        r == match filter {
            FeedFilter::All => None,
            FeedFilter::Videos => Some(ChannelMediaTab::Videos),
            FeedFilter::Shorts => Some(ChannelMediaTab::Shorts),
            FeedFilter::Live => Some(ChannelMediaTab::Live),
        },
{
    match filter {
        FeedFilter::All => None,
        FeedFilter::Videos => Some(ChannelMediaTab::Videos),
        FeedFilter::Shorts => Some(ChannelMediaTab::Shorts),
        FeedFilter::Live => Some(ChannelMediaTab::Live),
    }
}

/// "1 thing", "3 things": a count with its noun, plural but for one.
pub open spec fn counted(count: nat, one: Seq<char>, many: Seq<char>) -> Seq<char> {
    if count == 1 {
        "1 "@ + one
    } else {
        decimal(count) + " "@ + many
    }
}

/// A count with its noun.
fn counted_of(count: usize, one: &str, many: &str) -> (r: String)
    ensures
        r@ == counted(count as nat, one@, many@),
{
    let mut out: Vec<char> = Vec::new();
    if count == 1 {
        push_str(&mut out, "1 ");
        push_str(&mut out, one);
    } else {
        let d = decimal_of(count as u64);
        push_all(&mut out, &d);
        push_str(&mut out, " ");
        push_str(&mut out, many);
    }
    string_of(out.as_slice())
}

/// "1 video", "3 videos".
pub fn video_count(count: usize) -> (r: String)
    ensures
        r@ == counted(count as nat, "video"@, "videos"@),
{
    counted_of(count, "video", "videos")
}

/// "1 channel", "3 channels".
pub fn channel_count(count: usize) -> (r: String)
    ensures
        r@ == counted(count as nat, "channel"@, "channels"@),
{
    counted_of(count, "channel", "channels")
}

/// The YouTube link that shares `video_id`, starting at
/// `timestamp_seconds` when asked to and past the start.
pub open spec fn share_url(video_id: Seq<char>, with_timestamp: bool, timestamp_seconds: nat) -> Seq<char> {
    let base = "https://www.youtube.com/watch?v="@ + video_id;
    if with_timestamp && timestamp_seconds > 0 {
        base + "&t="@ + decimal(timestamp_seconds) + "s"@
    } else {
        base
    }
}

/// The YouTube link that shares a video.
pub fn youtube_share_url(video_id: &str, with_timestamp: bool, timestamp_seconds: u64) -> (r: String)
    ensures
        r@ == share_url(video_id@, with_timestamp, timestamp_seconds as nat),
{
    let mut out: Vec<char> = Vec::new();
    push_str(&mut out, "https://www.youtube.com/watch?v=");
    push_str(&mut out, video_id);
    if with_timestamp && timestamp_seconds > 0 {
        push_str(&mut out, "&t=");
        let d = decimal_of(timestamp_seconds);
        push_all(&mut out, &d);
        push_str(&mut out, "s");
    }
    string_of(out.as_slice())
}

/// Where a shared link starts, as a clock reads it.
pub fn timestamp_label(seconds: u64) -> (r: String)
    ensures
        r@ == clock_label(seconds as nat),
{
    clock_label_of(seconds)
}

/// What the audio chip says: the language you are hearing (the label of
/// the first track in it), or "Audio" when none is chosen or known.
pub open spec fn audio_label_of(tracks: Seq<AudioTrackOption>, selected: Option<Seq<char>>) -> Seq<char> {
    match selected {
        Some(language) => match track_position(tracks, language, 0) {
            Some(k) => tracks[k].label@,
            None => "Audio"@,
        },
        None => "Audio"@,
    }
}

/// Where the first track in `language` stands, from `from` on.
pub open spec fn track_position(tracks: Seq<AudioTrackOption>, language: Seq<char>, from: int) -> Option<int>
    decreases tracks.len() - from,
{
    if from < 0 || from >= tracks.len() {
        None
    } else if tracks[from].language@ == language {
        Some(from)
    } else {
        track_position(tracks, language, from + 1)
    }
}

/// What the audio chip says. A count would be the wrong fact here: the
/// question a dubbed video raises is which language this is.
pub fn audio_track_label(tracks: &Vec<AudioTrackOption>, selected: &Option<String>) -> (r: String)
    ensures
        r@ == audio_label_of(tracks@, match *selected {
            Some(s) => Some(s@),
            None => None,
        }),
{
    match selected {
        Some(language) => {
            let mut k: usize = 0;
            while k < tracks.len()
                invariant
                    k <= tracks.len(),
                    *selected == Some(*language),
                    track_position(tracks@, language@, 0) == track_position(tracks@, language@, k as int),
                decreases tracks.len() - k,
            {
                if tracks[k].language == *language {
                    assert(track_position(tracks@, language@, k as int) == Some(k as int));
                    return tracks[k].label.clone();
                }
                k = k + 1;
            }
            "Audio".to_string()
        },
        None => "Audio".to_string(),
    }
}

/// The watch page's details for a video known only from the local library:
/// nothing but the video and what to show beside it, with no comments.
pub fn local_details(video: Video, related_videos: Vec<Video>) -> (r: VideoDetails)
    ensures
        r.video == video,
        r.channel is None,
        r.description@.len() == 0,
        r.like_count == 0,
        r.dislike_count == 0,
        r.captions@.len() == 0,
        r.chapters@.len() == 0,
        r.preview_frames is None,
        r.related_videos@ == related_videos@,
        r.comments.comments@.len() == 0,
        r.comments.next_page is None,
        !r.comments.disabled,
        !r.comments.remote_available,
        !r.remote_available,
{
    VideoDetails {
        video,
        channel: None,
        description: String::new(),
        like_count: 0,
        dislike_count: 0,
        captions: Vec::new(),
        chapters: Vec::new(),
        preview_frames: None,
        related_videos,
        comments: CommentsPage::default(),
        remote_available: false,
    }
}

/// How far past the visible page to look when a duration filter is on.
/// Some resolved videos will not belong to the selected bucket, so filling
/// only the visible count would leave the page short. The server caps one
/// request at the same size.
pub const DURATION_LOOKAHEAD: usize = 48;

/// Whether a video still has no length: not live, and recorded as zero
/// long.
pub open spec fn lacks_duration(v: Video) -> bool {
    !v.is_live && v.duration_seconds == 0
}

/// The ids of the videos among `videos` that still have no length, in
/// order.
pub open spec fn ids_lacking_duration(videos: Seq<Video>) -> Seq<Seq<char>>
    decreases videos.len(),
{
    if videos.len() == 0 {
        Seq::empty()
    } else {
        let rest = ids_lacking_duration(videos.drop_last());
        if lacks_duration(videos.last()) {
            rest.push(videos.last().id@)
        } else {
            rest
        }
    }
}

/// The first `n` of `s`, or all of it where it is shorter.
pub open spec fn at_most<T>(s: Seq<T>, n: nat) -> Seq<T> {
    if n < s.len() {
        s.take(n as int)
    } else {
        s
    }
}

/// Ids of the leading `window` videos that still have no runtime, at most
/// `DURATION_LOOKAHEAD` of them. Call this before a duration filter runs:
/// after it, the rows with no length are already gone, and they could never
/// acquire the metadata that would let them enter the filter.
pub fn duration_candidates(videos: &Vec<Video>, window: usize) -> (r: Vec<String>)
    ensures
        r@.map_values(|s: String| s@) == at_most(
            ids_lacking_duration(at_most(videos@, window as nat)),
            DURATION_LOOKAHEAD as nat,
        ),
{
    let ghost leading = at_most(videos@, window as nat);
    let mut out: Vec<String> = Vec::new();
    let mut i: usize = 0;
    while i < videos.len() && i < window && out.len() < DURATION_LOOKAHEAD
        invariant
            i <= videos.len(),
            leading == at_most(videos@, window as nat),
            i <= window,
            out@.len() <= DURATION_LOOKAHEAD,
            out@.map_values(|s: String| s@) == ids_lacking_duration(videos@.take(i as int)),
        decreases videos.len() - i,
    {
        let v = &videos[i];
        assert(videos@.take(i + 1).drop_last() =~= videos@.take(i as int));
        if !v.is_live && v.duration_seconds == 0 {
            let ghost before = out@;
            out.push(v.id.clone());
            assert(out@.map_values(|s: String| s@) =~= before.map_values(|s: String| s@).push(v.id@));
        }
        i = i + 1;
    }
    proof {
        if i as int == leading.len() {
            assert(videos@.take(i as int) =~= leading);
        } else {
            lemma_ids_lacking_duration_prefix(videos@, i as int, leading.len() as int);
            assert(leading =~= videos@.take(leading.len() as int));
        }
    }
    out
}

/// The ids lacking a length among a longer prefix begin with those among a
/// shorter one, and only grow.
proof fn lemma_ids_lacking_duration_prefix(videos: Seq<Video>, i: int, j: int)
    requires
        0 <= i <= j <= videos.len(),
    ensures
        ids_lacking_duration(videos.take(i)).len() <= ids_lacking_duration(videos.take(j)).len(),
        ids_lacking_duration(videos.take(j)).take(ids_lacking_duration(videos.take(i)).len() as int)
            == ids_lacking_duration(videos.take(i)),
    decreases j - i,
{
    if i < j {
        lemma_ids_lacking_duration_prefix(videos, i, j - 1);
        assert(videos.take(j).drop_last() =~= videos.take(j - 1));
        let a = ids_lacking_duration(videos.take(i));
        let b = ids_lacking_duration(videos.take(j - 1));
        let c = ids_lacking_duration(videos.take(j));
        assert(c.take(a.len() as int) =~= b.take(a.len() as int));
    } else {
        let a = ids_lacking_duration(videos.take(i));
        assert(a.take(a.len() as int) =~= a);
    }
}


/// What a run of specific videos does: the first one plays, the rest wait
/// in the queue, and a toast says how many.
pub struct RunPlan {
    pub first: String,
    pub rest: Vec<String>,
    pub toast: String,
}

/// The toast for a run: "Shuffled 1 video", "Shuffled 3 videos".
pub open spec fn run_toast(verb: Seq<char>, count: nat) -> Seq<char> {
    verb + " "@ + decimal(count) + if count == 1 {
        " video"@
    } else {
        " videos"@
    }
}

/// How to start a run of `ids`: `None` for an empty one. The playing video
/// is left out of the queue: the queue is the list of what comes next.
pub fn run_plan(ids: &Vec<String>, verb: &str) -> (r: Option<RunPlan>)
    ensures
        ids@.len() == 0 <==> r is None,
        r matches Some(plan) ==> {
            &&& plan.first@ == ids@[0]@
            &&& texts(plan.rest@) == texts(ids@.skip(1))
            &&& plan.toast@ == run_toast(verb@, ids@.len())
        },
{
    if ids.len() == 0 {
        return None;
    }
    let first = ids[0].clone();
    let mut rest: Vec<String> = Vec::new();
    let mut i: usize = 1;
    while i < ids.len()
        invariant
            1 <= i <= ids.len(),
            texts(rest@) == texts(ids@.subrange(1, i as int)),
        decreases ids.len() - i,
    {
        let ghost before = rest@;
        rest.push(ids[i].clone());
        assert(texts(rest@) =~= texts(before).push(ids@[i as int]@));
        assert(texts(ids@.subrange(1, i + 1)) =~= texts(ids@.subrange(1, i as int)).push(ids@[i as int]@));
        i = i + 1;
    }
    assert(ids@.subrange(1, ids@.len() as int) =~= ids@.skip(1));
    let mut toast: Vec<char> = Vec::new();
    push_str(&mut toast, verb);
    push_str(&mut toast, " ");
    let d = decimal_of(ids.len() as u64);
    push_all(&mut toast, &d);
    if ids.len() == 1 {
        push_str(&mut toast, " video");
    } else {
        push_str(&mut toast, " videos");
    }
    Some(RunPlan { first, rest, toast: string_of(toast.as_slice()) })
}

/// What a query is matched by: trimmed and lowercased.
pub fn search_needle(query: &str) -> (r: String)
    ensures
        r@ == unicode_lowercase(trim(query@)),
{
    let t = trimmed_chars(query);
    let s = string_of(t.as_slice());
    to_lowercase(s.as_str())
}

/// Whether the server's results answer the query on screen: the same text,
/// trimmed, up to ASCII case.
pub fn answers_query(answered: &str, query: &str) -> (r: bool)
    ensures
        r == (ascii_lower(trim(answered@)) == ascii_lower(trim(query@))),
{
    let a = trimmed_chars(answered);
    let b = trimmed_chars(query);
    let la = ascii_lowercase(&a);
    let lb = ascii_lowercase(&b);
    same_chars(&la, &lb)
}


/// The shelf a request names: "shorts", "live", and anything else the
/// long-form uploads.
pub open spec fn media_tab_of(tab: Seq<char>) -> ChannelMediaTab {
    if tab == "shorts"@ {
        ChannelMediaTab::Shorts
    } else if tab == "live"@ {
        ChannelMediaTab::Live
    } else {
        ChannelMediaTab::Videos
    }
}

/// The shelf a request names.
pub fn media_tab_named(tab: &str) -> (r: ChannelMediaTab)
    ensures
        r == media_tab_of(tab@),
{
    let cs = chars_of(tab);
    if spells(&cs, "shorts") {
        ChannelMediaTab::Shorts
    } else if spells(&cs, "live") {
        ChannelMediaTab::Live
    } else {
        ChannelMediaTab::Videos
    }
}


/// What a number field writes back: the text as an unsigned 64-bit
/// integer, or nothing where it is not one.
pub fn number_setting_value(text: &str) -> (r: Option<u64>)
    ensures
        match parse_in_range(text@, false, 0, u64::MAX as int) {
            Some(v) => r == Some(v as u64),
            None => r is None,
        },
{
    let cs = chars_of(text);
    match parse_integer(&cs, false) {
        Some(v) => {
            if v >= 0 && v <= u64::MAX as i128 {
                Some(v as u64)
            } else {
                None
            }
        },
        None => None,
    }
}


/// Where playback of a video resumes: where it was left, unless it already
/// ran to the end, when starting over is what replaying it means.
pub fn resume_position(video: &Video) -> (r: u64)
    ensures
        r == if video.watched {
            0
        } else {
            video.progress_seconds
        },
{
    if video.watched {
        0
    } else {
        video.progress_seconds
    }
}

/// What the media element is keyed on: the video, the attempt, and whether
/// it plays without its video stream, so a retry or the audio-only switch
/// remounts it and attaches afresh.
pub open spec fn player_key_of(video_id: Seq<char>, attempt: nat, audio_only: bool) -> Seq<char> {
    video_id + "-"@ + decimal(attempt) + "-"@ + if audio_only {
        "audio"@
    } else {
        "av"@
    }
}

/// What the media element is keyed on.
pub fn player_key(video_id: &str, attempt: u8, audio_only: bool) -> (r: String)
    ensures
        r@ == player_key_of(video_id@, attempt as nat, audio_only),
{
    let mut out: Vec<char> = Vec::new();
    push_str(&mut out, video_id);
    push_str(&mut out, "-");
    let d = decimal_of(attempt as u64);
    push_all(&mut out, &d);
    push_str(&mut out, "-");
    if audio_only {
        push_str(&mut out, "audio");
    } else {
        push_str(&mut out, "av");
    }
    string_of(out.as_slice())
}

/// The labels of the step buttons: naming the playlist being run is the
/// only thing that tells a viewer these arrows walk the list they pressed
/// play on rather than a queue they built.
pub open spec fn step_labels_of(run_name: Option<Seq<char>>) -> (Seq<char>, Seq<char>) {
    let name = match run_name {
        Some(n) => n,
        None => "queue"@,
    };
    ("Next in "@ + name, "Previous in "@ + name)
}

/// The labels of the step buttons, next then previous.
pub fn step_labels(run_name: Option<&str>) -> (r: (String, String))
    ensures
        (r.0@, r.1@) == step_labels_of(match run_name {
            Some(n) => Some(n@),
            None => None,
        }),
{
    let name = match run_name {
        Some(n) => n,
        None => "queue",
    };
    let mut next: Vec<char> = Vec::new();
    push_str(&mut next, "Next in ");
    push_str(&mut next, name);
    let mut previous: Vec<char> = Vec::new();
    push_str(&mut previous, "Previous in ");
    push_str(&mut previous, name);
    (string_of(next.as_slice()), string_of(previous.as_slice()))
}


/// What the first `upto` entries of a playlist show on its cover: how many
/// of the videos found for them are unwatched, and the thumbnails of the
/// first three found. An id with no video is passed over; where the
/// library holds an id twice, the last one counts.
pub open spec fn cover_of(videos: Seq<Video>, ids: Seq<String>, upto: int) -> (nat, Seq<Seq<char>>)
    decreases upto,
{
    if upto <= 0 || upto > ids.len() {
        (0, Seq::empty())
    } else {
        let (unwatched, thumbnails) = cover_of(videos, ids, upto - 1);
        match last_position(videos, ids[upto - 1]@, videos.len() as int) {
            Some(p) => (
                unwatched + if videos[p].watched {
                    0nat
                } else {
                    1nat
                },
                if thumbnails.len() < 3 {
                    thumbnails.push(videos[p].thumbnail_url@)
                } else {
                    thumbnails
                },
            ),
            None => (unwatched, thumbnails),
        }
    }
}

/// One playlist on the playlists page: its cover and its counts, without
/// the videos themselves.
pub fn playlist_preview(playlist: &Playlist, videos: &Vec<Video>) -> (r: PlaylistPreview)
    ensures
        r.id == playlist.id,
        r.name == playlist.name,
        r.count == playlist.video_ids@.len(),
        (r.unwatched as nat, r.thumbnails@.map_values(|t: String| t@)) == cover_of(
            videos@,
            playlist.video_ids@,
            playlist.video_ids@.len() as int,
        ),
{
    let ids = &playlist.video_ids;
    let n = videos.len();
    let mut unwatched: usize = 0;
    let mut thumbnails: Vec<String> = Vec::new();
    let mut i: usize = 0;
    while i < ids.len()
        invariant
            i <= ids.len(),
            n == videos@.len(),
            unwatched <= i,
            (unwatched as nat, thumbnails@.map_values(|t: String| t@)) == cover_of(videos@, ids@, i as int),
        decreases ids.len() - i,
    {
        let found = last_position_of(videos, &ids[i]);
        match found {
            Some(p) => {
                proof {
                    crate::explore::lemma_last_position_within(videos@, ids@[i as int]@, videos@.len() as int);
                    let lp = last_position(videos@, ids@[i as int]@, videos@.len() as int);
                    assert(lp is Some);
                    assert(0 <= lp->0 < n);
                    assert(lp == Some(p as int));
                }
                if !videos[p].watched {
                    unwatched = unwatched + 1;
                }
                if thumbnails.len() < 3 {
                    let ghost before = thumbnails@;
                    thumbnails.push(videos[p].thumbnail_url.clone());
                    assert(thumbnails@.map_values(|t: String| t@) =~= before.map_values(|t: String| t@).push(
                        videos@[p as int].thumbnail_url@,
                    ));
                }
            },
            None => {},
        }
        i = i + 1;
    }
    PlaylistPreview {
        id: playlist.id.clone(),
        name: playlist.name.clone(),
        count: ids.len(),
        unwatched,
        thumbnails,
    }
}

/// The videos the first `upto` entries of a playlist stand for, in the
/// playlist's order: for each id the last video in the library with it;
/// an id with no video is passed over.
pub open spec fn resolved_videos(videos: Seq<Video>, ids: Seq<String>, upto: int) -> Seq<Video>
    decreases upto,
{
    if upto <= 0 || upto > ids.len() {
        Seq::empty()
    } else {
        let before = resolved_videos(videos, ids, upto - 1);
        match last_position(videos, ids[upto - 1]@, videos.len() as int) {
            Some(p) => before.push(videos[p]),
            None => before,
        }
    }
}

/// The videos a playlist holds, looked up in the library.
pub fn playlist_videos(playlist: &Playlist, videos: &Vec<Video>) -> (r: Vec<Video>)
    ensures
        r@ == resolved_videos(videos@, playlist.video_ids@, playlist.video_ids@.len() as int),
{
    let ids = &playlist.video_ids;
    let n = videos.len();
    let mut out: Vec<Video> = Vec::new();
    let mut i: usize = 0;
    while i < ids.len()
        invariant
            i <= ids.len(),
            n == videos@.len(),
            out@ == resolved_videos(videos@, ids@, i as int),
        decreases ids.len() - i,
    {
        let found = last_position_of(videos, &ids[i]);
        match found {
            Some(p) => {
                proof {
                    crate::explore::lemma_last_position_within(videos@, ids@[i as int]@, videos@.len() as int);
                }
                out.push(videos[p].clone());
            },
            None => {},
        }
        i = i + 1;
    }
    out
}

/// How many of `videos` satisfy `keep`.
pub open spec fn count_where(videos: Seq<Video>, keep: spec_fn(Video) -> bool) -> nat
    decreases videos.len(),
{
    if videos.len() == 0 {
        0
    } else {
        count_where(videos.drop_last(), keep) + if keep(videos.last()) {
            1nat
        } else {
            0nat
        }
    }
}

/// How many of a playlist's videos have been watched.
pub fn watched_count(videos: &Vec<Video>) -> (r: usize)
    ensures
        r == count_where(videos@, |v: Video| v.watched),
{
    let mut count: usize = 0;
    let mut i: usize = 0;
    while i < videos.len()
        invariant
            i <= videos.len(),
            count <= i,
            count == count_where(videos@.take(i as int), |v: Video| v.watched),
        decreases videos.len() - i,
    {
        assert(videos@.take(i + 1).drop_last() =~= videos@.take(i as int));
        if videos[i].watched {
            count = count + 1;
        }
        i = i + 1;
    }
    assert(videos@.take(videos.len() as int) =~= videos@);
    count
}

/// Whether a playlist's length chip drops `v` for want of a length: it is
/// of the kind on show, not live, and recorded as zero long.
pub open spec fn missing_length_under(kind: PlaylistKind, v: Video) -> bool {
    kind_matches(kind, v) && lacks_duration(v)
}

/// How many of a playlist's videos a length filter hides only because
/// their length is not known yet, counted before the filter runs and past
/// the kind filter; nothing when no length filter is set.
pub fn count_without_duration(view: &PlaylistView, videos: &Vec<Video>) -> (r: usize)
    ensures
        r == (if view.duration is Some {
            count_where(videos@, |v: Video| missing_length_under(view.kind, v))
        } else {
            0
        }),
{
    if view.duration.is_none() {
        return 0;
    }
    let mut count: usize = 0;
    let mut i: usize = 0;
    while i < videos.len()
        invariant
            i <= videos.len(),
            count <= i,
            count == count_where(
                videos@.take(i as int),
                |v: Video| missing_length_under(view.kind, v),
            ),
        decreases videos.len() - i,
    {
        assert(videos@.take(i + 1).drop_last() =~= videos@.take(i as int));
        if view.kind.matches(&videos[i]) && !videos[i].is_live && videos[i].duration_seconds == 0 {
            count = count + 1;
        }
        i = i + 1;
    }
    assert(videos@.take(videos.len() as int) =~= videos@);
    count
}

/// What a playlist's card says under its name: the count, and how many
/// are left unwatched when some but not all are.
pub open spec fn playlist_subtitle_of(count: nat, unwatched: nat) -> Seq<char> {
    if unwatched > 0 && unwatched < count {
        counted(count, "video"@, "videos"@) + " · "@ + decimal(unwatched) + " unwatched"@
    } else {
        counted(count, "video"@, "videos"@)
    }
}

/// What a playlist's card says under its name.
pub fn playlist_subtitle(count: usize, unwatched: usize) -> (r: String)
    ensures
        r@ == playlist_subtitle_of(count as nat, unwatched as nat),
{
    let base = video_count(count);
    if unwatched > 0 && unwatched < count {
        let mut out: Vec<char> = Vec::new();
        push_str(&mut out, base.as_str());
        push_str(&mut out, " · ");
        let d = decimal_of(unwatched as u64);
        push_all(&mut out, &d);
        push_str(&mut out, " unwatched");
        string_of(out.as_slice())
    } else {
        base
    }
}


/// The line under a channel's name: its handle and subscriber count,
/// either dropped when blank, both trimmed.
pub open spec fn channel_meta_of(handle: Seq<char>, subscribers: Seq<char>) -> Seq<char> {
    let h = trim(handle);
    let s = trim(subscribers);
    if h.len() > 0 && s.len() > 0 {
        h + " · "@ + s + " subscribers"@
    } else if h.len() > 0 {
        h
    } else if s.len() > 0 {
        s + " subscribers"@
    } else {
        Seq::empty()
    }
}

/// The line under a channel's name.
pub fn channel_meta(handle: &str, subscriber_count: &str) -> (r: String)
    ensures
        r@ == channel_meta_of(handle@, subscriber_count@),
{
    let h = trimmed_chars(handle);
    let s = trimmed_chars(subscriber_count);
    let mut out: Vec<char> = Vec::new();
    if h.len() > 0 && s.len() > 0 {
        push_all(&mut out, &h);
        push_str(&mut out, " · ");
        push_all(&mut out, &s);
        push_str(&mut out, " subscribers");
    } else if h.len() > 0 {
        push_all(&mut out, &h);
    } else if s.len() > 0 {
        push_all(&mut out, &s);
        push_str(&mut out, " subscribers");
    }
    string_of(out.as_slice())
}

/// `items` joined by `sep`.
pub open spec fn joined(items: Seq<Seq<char>>, sep: Seq<char>) -> Seq<char>
    decreases items.len(),
{
    if items.len() == 0 {
        Seq::empty()
    } else if items.len() == 1 {
        items[0]
    } else {
        joined(items.drop_last(), sep) + sep + items.last()
    }
}

/// What the queue page says of a playlist being run: the filters its
/// order follows, where the run is, and what comes next.
pub struct RunCard {
    pub filter_text: String,
    pub now_text: String,
    pub next_text: Option<String>,
}

/// The texts of a run's card, as specified item by item.
pub open spec fn run_card_of(
    total: nat,
    remaining: nat,
    position: Option<nat>,
    current_title: Option<Seq<char>>,
    next_title: Option<Seq<char>>,
    filters: Seq<Seq<char>>,
) -> (Seq<char>, Seq<char>, Option<Seq<char>>) {
    let filter_text = if filters.len() == 0 {
        "no filters"@
    } else {
        joined(filters, ", "@)
    };
    let left_text = if remaining == 1 {
        "1 left"@
    } else {
        decimal(remaining) + " left"@
    };
    let now_text = match (position, current_title) {
        (Some(p), Some(t)) => "Now playing "@ + decimal(p) + " of "@ + decimal(total) + ": "@ + t,
        _ => "Not started · "@ + decimal(remaining) + " of "@ + decimal(total) + " to play"@,
    };
    let next_text = match (next_title, position is Some) {
        (Some(t), true) => Some(left_text + " · Up next: "@ + t),
        (Some(t), false) => Some("Starts with: "@ + t),
        (None, true) => Some("Last video in this order"@),
        (None, false) => None,
    };
    (filter_text, now_text, next_text)
}

/// The texts of a run's card. A playlist in the queue is a rule rather
/// than a list: each time a video ends it looks at the playlist as its
/// page is arranged then, so the card says where the run is and which
/// arrangement it follows. The count leads, so an ellipsis on a long title
/// never swallows it.
pub fn run_card(
    total: usize,
    remaining: usize,
    position: Option<usize>,
    current_title: Option<&str>,
    next_title: Option<&str>,
    filters: &Vec<String>,
) -> (r: RunCard)
    ensures
        (r.filter_text@, r.now_text@, match r.next_text {
            Some(t) => Some(t@),
            None => None,
        }) == run_card_of(
            total as nat,
            remaining as nat,
            match position {
                Some(p) => Some(p as nat),
                None => None,
            },
            match current_title {
                Some(t) => Some(t@),
                None => None,
            },
            match next_title {
                Some(t) => Some(t@),
                None => None,
            },
            filters@.map_values(|f: String| f@),
        ),
{
    let ghost items = filters@.map_values(|f: String| f@);
    let mut filter_text: Vec<char> = Vec::new();
    if filters.len() == 0 {
        push_str(&mut filter_text, "no filters");
    } else {
        let mut i: usize = 0;
        while i < filters.len()
            invariant
                i <= filters.len(),
                items == filters@.map_values(|f: String| f@),
                i == 0 ==> filter_text@.len() == 0,
                i > 0 ==> filter_text@ == joined(items.take(i as int), ", "@),
            decreases filters.len() - i,
        {
            if i > 0 {
                push_str(&mut filter_text, ", ");
            }
            push_str(&mut filter_text, filters[i].as_str());
            proof {
                assert(items.take(i + 1).drop_last() =~= items.take(i as int));
                assert(items.take(i + 1).last() == filters@[i as int]@);
                if i == 0 {
                    assert(filter_text@ =~= items.take(1)[0]);
                }
            }
            i = i + 1;
        }
        assert(items.take(filters.len() as int) =~= items);
    }
    let mut left: Vec<char> = Vec::new();
    if remaining == 1 {
        push_str(&mut left, "1 left");
    } else {
        let d = decimal_of(remaining as u64);
        push_all(&mut left, &d);
        push_str(&mut left, " left");
    }
    let mut now: Vec<char> = Vec::new();
    match (position, current_title) {
        (Some(p), Some(t)) => {
            push_str(&mut now, "Now playing ");
            let dp = decimal_of(p as u64);
            push_all(&mut now, &dp);
            push_str(&mut now, " of ");
            let dt = decimal_of(total as u64);
            push_all(&mut now, &dt);
            push_str(&mut now, ": ");
            push_str(&mut now, t);
        },
        _ => {
            push_str(&mut now, "Not started · ");
            let dr = decimal_of(remaining as u64);
            push_all(&mut now, &dr);
            push_str(&mut now, " of ");
            let dt = decimal_of(total as u64);
            push_all(&mut now, &dt);
            push_str(&mut now, " to play");
        },
    }
    let next_text = match (next_title, position.is_some()) {
        (Some(t), true) => {
            let mut out = left;
            push_str(&mut out, " · Up next: ");
            push_str(&mut out, t);
            Some(string_of(out.as_slice()))
        },
        (Some(t), false) => {
            let mut out: Vec<char> = Vec::new();
            push_str(&mut out, "Starts with: ");
            push_str(&mut out, t);
            Some(string_of(out.as_slice()))
        },
        (None, true) => Some("Last video in this order".to_string()),
        (None, false) => None,
    };
    RunCard {
        filter_text: string_of(filter_text.as_slice()),
        now_text: string_of(now.as_slice()),
        next_text,
    }
}


/// What the account gate puts on screen.
#[derive(Debug)]
pub enum GateScreen {
    /// The app itself.
    App,
    /// The "connect to a server" screen, with the problem that sent the
    /// viewer there when there is one.
    BackendSetup(Option<String>),
}

/// What the account gate shows: the setup screen until a backend is
/// chosen, the setup screen with the session's complaint when the session
/// failed, and otherwise the app, also while a guest is being minted, since
/// everything on screen then comes from the local cache.
pub fn gate_screen(backend_chosen: bool, session_failure: Option<String>) -> (r: GateScreen)
    ensures
        !backend_chosen ==> (r matches GateScreen::BackendSetup(p) && p is None),
        backend_chosen ==> match session_failure {
            Some(message) => (r matches GateScreen::BackendSetup(p) && p == Some(message)),
            None => r is App,
        },
{
    if !backend_chosen {
        return GateScreen::BackendSetup(None);
    }
    match session_failure {
        Some(message) => GateScreen::BackendSetup(Some(message)),
        None => GateScreen::App,
    }
}

} // verus!
