//! One account's library (its subscriptions, playlists, groups, queue and
//! history) and the shapes of the pages built from it.
use vstd::prelude::*;
use crate::channel::{Channel, SubscriptionContent};
use crate::playlist::{position_in, position_of, DurationFilter, FeedFilter};
use crate::settings::DurationThresholds;
use crate::video::Video;

verus! {

/// A named, ordered list of video ids.
#[derive(Debug)]
pub struct Playlist {
    pub id: String,
    pub name: String,
    pub video_ids: Vec<String>,
}

/// A named set of followed channels, for narrowing the feed.
#[derive(Debug)]
pub struct SubscriptionGroup {
    pub id: String,
    pub name: String,
    pub channel_ids: Vec<String>,
}

/// What a search found.
pub struct SearchResults {
    pub query: String,
    pub videos: Vec<Video>,
    pub channels: Vec<Channel>,
    pub suggestion: Option<String>,
    pub remote_available: bool,
    pub next_page: Option<String>,
}

/// Which of a channel's shelves a page lists.
#[derive(Clone, Copy, Debug, PartialEq, Eq, Structural)]
pub enum ChannelMediaTab {
    Videos,
    Shorts,
    Live,
}

impl ChannelMediaTab {
    /// The default shelf: long-form uploads.
    pub fn default() -> (r: ChannelMediaTab)
        ensures
            r == ChannelMediaTab::Videos,
    {
        ChannelMediaTab::Videos
    }
}

/// One page of one of a channel's shelves.
pub struct ChannelMediaPage {
    pub channel_id: String,
    pub tab: ChannelMediaTab,
    pub videos: Vec<Video>,
    pub next_page: Option<String>,
    pub source: String,
}

/// A channel with the first page of each of its shelves.
pub struct ChannelDetails {
    pub channel: Channel,
    pub videos: ChannelMediaPage,
    pub shorts: ChannelMediaPage,
    pub live: ChannelMediaPage,
    pub remote_available: bool,
}

/// How a refresh of the subscription feed went.
#[derive(Debug)]
pub struct FeedRefreshResult {
    pub imported: usize,
    pub refreshed_channels: usize,
    pub failed_channels: usize,
    pub sources: Vec<String>,
}

/// The storyboard a scrubber previews frames from.
#[derive(Debug)]
pub struct VideoPreviewFrames {
    pub page_urls: Vec<String>,
    pub frame_width: u32,
    pub frame_height: u32,
    pub total_count: u32,
    pub duration_per_frame_ms: u32,
    pub frames_per_page_x: u32,
    pub frames_per_page_y: u32,
}

/// One subtitle track.
#[derive(Debug)]
pub struct CaptionTrack {
    pub label: String,
    pub language_code: String,
    pub mime_type: String,
    pub url: String,
    pub auto_generated: bool,
}

/// One selectable audio language for the video being watched. The player
/// is the authority on which of the manifest's audio adaptations it can
/// decode and switch between, and it carries the display names.
#[derive(Debug)]
pub struct AudioTrackOption {
    pub language: String,
    pub label: String,
}

/// One comment under a video.
#[derive(Debug)]
pub struct VideoComment {
    pub id: String,
    pub author: String,
    pub author_avatar_url: Option<String>,
    pub author_channel_id: Option<String>,
    pub text: String,
    pub published_at: String,
    pub like_count: u64,
    pub reply_count: u64,
    pub pinned: bool,
    pub hearted: bool,
    pub creator: bool,
}

/// One page of a video's comments.
#[derive(Debug)]
pub struct CommentsPage {
    pub comments: Vec<VideoComment>,
    pub next_page: Option<String>,
    pub disabled: bool,
    pub remote_available: bool,
}

impl CommentsPage {
    /// No comments, nothing more to load, nothing disabled.
    pub fn default() -> (r: CommentsPage)
        ensures
            r.comments@.len() == 0,
            r.next_page is None,
            !r.disabled,
            !r.remote_available,
    {
        CommentsPage { comments: Vec::new(), next_page: None, disabled: false, remote_available: false }
    }
}

/// Everything the watch page shows about one video.
pub struct VideoDetails {
    pub video: Video,
    pub channel: Option<Channel>,
    pub description: String,
    pub like_count: u64,
    pub dislike_count: u64,
    pub captions: Vec<CaptionTrack>,
    pub chapters: Vec<crate::video::VideoChapter>,
    pub preview_frames: Option<VideoPreviewFrames>,
    pub related_videos: Vec<Video>,
    pub comments: CommentsPage,
    pub remote_available: bool,
}

/// One play, most recent first in a history.
#[derive(Debug)]
pub struct HistoryEntry {
    pub video_id: String,
    pub played_at: String,
}

/// How far an account got into one video.
#[derive(Debug)]
pub struct VideoProgress {
    pub video_id: String,
    pub watched: bool,
    pub progress_seconds: u64,
    pub audio_only: bool,
}

/// One subscription as a device last saw it, sent back as the answer to
/// set.
pub struct SubscriptionChange {
    pub channel: Channel,
    pub subscribed: bool,
    pub content: SubscriptionContent,
}

/// How many history entries an account keeps.
pub const HISTORY_LIMIT: usize = 250;

/// How many videos one feed page holds.
pub const FEED_PAGE_SIZE: usize = 24;

/// Which subscriptions a feed draws from.
#[derive(Debug)]
pub enum FeedGroup {
    All,
    /// Channels in no group.
    Ungrouped,
    Group(String),
}

impl FeedGroup {
    /// The default: every subscription.
    pub fn default() -> (r: FeedGroup)
        ensures
            r is All,
    {
        FeedGroup::All
    }
}

/// Everything that decides which videos the subscription feed shows. Part
/// of the cache key, so each combination is its own cached answer.
pub struct FeedQuery {
    pub group: FeedGroup,
    pub kind: FeedFilter,
    pub duration: Option<DurationFilter>,
    pub hide_watched: bool,
    pub thresholds: DurationThresholds,
}

/// One page of the subscription feed, newest first.
pub struct FeedPage {
    pub videos: Vec<Video>,
    pub has_more: bool,
    /// With a length filter on: how many videos on this page's stretch of
    /// the feed have no length yet, so the filter cannot speak for them.
    pub without_duration: usize,
    /// Those videos' ids, for the screen to ask their lengths for.
    pub unknown_durations: Vec<String>,
}

impl FeedPage {
    /// An empty last page.
    pub fn default() -> (r: FeedPage)
        ensures
            r.videos@.len() == 0,
            !r.has_more,
            r.without_duration == 0,
            r.unknown_durations@.len() == 0,
    {
        FeedPage { videos: Vec::new(), has_more: false, without_duration: 0, unknown_durations: Vec::new() }
    }
}

/// One playlist on the playlists page: its cover and its counts, without
/// the videos themselves.
#[derive(Debug)]
pub struct PlaylistPreview {
    pub id: String,
    pub name: String,
    pub count: usize,
    pub unwatched: usize,
    /// The first few videos' thumbnails, in playlist order.
    pub thumbnails: Vec<String>,
}

/// A playlist with its videos, in the playlist's own order.
pub struct PlaylistContents {
    pub playlist: Playlist,
    pub videos: Vec<Video>,
}


/// One account's own state. Kilobytes: ids and names, never the videos
/// they point at.
pub struct Viewer {
    /// The channels this account follows, each with the uploads it wants.
    pub subscriptions: Vec<Channel>,
    pub playlists: Vec<Playlist>,
    pub subscription_groups: Vec<SubscriptionGroup>,
    /// Video ids, and `playlist:` markers for a queued run.
    pub queue: Vec<String>,
    /// Most recent first, at most `HISTORY_LIMIT`.
    pub history: Vec<HistoryEntry>,
}

/// Where the first channel with id `id` stands in `channels`, from `from`
/// on.
pub open spec fn channel_position(channels: Seq<Channel>, id: Seq<char>, from: int) -> Option<int>
    decreases channels.len() - from,
{
    if from < 0 || from >= channels.len() {
        None
    } else if channels[from].id@ == id {
        Some(from)
    } else {
        channel_position(channels, id, from + 1)
    }
}

/// Where the first playlist with id `id` stands in `playlists`, from
/// `from` on.
pub open spec fn playlist_position(playlists: Seq<Playlist>, id: Seq<char>, from: int) -> Option<int>
    decreases playlists.len() - from,
{
    if from < 0 || from >= playlists.len() {
        None
    } else if playlists[from].id@ == id {
        Some(from)
    } else {
        playlist_position(playlists, id, from + 1)
    }
}

impl Viewer {
    /// An account with nothing in it.
    pub fn default() -> (r: Viewer)
        ensures
            r.subscriptions@.len() == 0,
            r.playlists@.len() == 0,
            r.subscription_groups@.len() == 0,
            r.queue@.len() == 0,
            r.history@.len() == 0,
    {
        Viewer {
            subscriptions: Vec::new(),
            playlists: Vec::new(),
            subscription_groups: Vec::new(),
            queue: Vec::new(),
            history: Vec::new(),
        }
    }

    /// The followed channel with id `channel_id`: the first such, as the
    /// list never holds one twice.
    pub fn follows(&self, channel_id: &str) -> (r: Option<&Channel>)
        ensures
            match channel_position(self.subscriptions@, channel_id@, 0) {
                Some(i) => r == Some(&self.subscriptions@[i]),
                None => r is None,
            },
    {
        let target = channel_id.to_string();
        let mut i: usize = 0;
        while i < self.subscriptions.len()
            invariant
                i <= self.subscriptions@.len(),
                target@ == channel_id@,
                channel_position(self.subscriptions@, channel_id@, 0)
                    == channel_position(self.subscriptions@, channel_id@, i as int),
            decreases self.subscriptions.len() - i,
        {
            if self.subscriptions[i].id == target {
                return Some(&self.subscriptions[i]);
            }
            i = i + 1;
        }
        None
    }

    /// The playlist with id `playlist_id`: the first such.
    pub fn playlist(&self, playlist_id: &str) -> (r: Option<&Playlist>)
        ensures
            match playlist_position(self.playlists@, playlist_id@, 0) {
                Some(i) => r == Some(&self.playlists@[i]),
                None => r is None,
            },
    {
        let target = playlist_id.to_string();
        let mut i: usize = 0;
        while i < self.playlists.len()
            invariant
                i <= self.playlists@.len(),
                target@ == playlist_id@,
                playlist_position(self.playlists@, playlist_id@, 0)
                    == playlist_position(self.playlists@, playlist_id@, i as int),
            decreases self.playlists.len() - i,
        {
            if self.playlists[i].id == target {
                return Some(&self.playlists[i]);
            }
            i = i + 1;
        }
        None
    }
}


/// `v` with the catalog facts of `fresh`: its length, and whether it is
/// live or a Short. The viewer's own fields (progress, watched, audio
/// only) stay.
pub open spec fn with_catalog_facts(v: Video, fresh: Video) -> Video {
    Video {
        duration_seconds: fresh.duration_seconds,
        is_live: fresh.is_live,
        is_short: fresh.is_short,
        ..v
    }
}

/// `v` after a merge with `fresh`: the catalog facts of the first fresh
/// video with its id, or `v` itself where none has it.
pub open spec fn merged_with(v: Video, fresh: Seq<Video>) -> Video {
    match position_of(fresh, v.id@, 0) {
        Some(k) => with_catalog_facts(v, fresh[k]),
        None => v,
    }
}

/// Every video of `list` merged with `fresh`, in place.
pub open spec fn merged_videos(list: Seq<Video>, fresh: Seq<Video>) -> Seq<Video> {
    list.map_values(|v: Video| merged_with(v, fresh))
}

/// `after` is `before` with each video whose id is `id` replaced by what
/// `update` makes of it, and every other video as it was.
pub open spec fn updated_videos<F: Fn(Video) -> Video>(
    before: Seq<Video>,
    after: Seq<Video>,
    id: Seq<char>,
    update: F,
) -> bool {
    &&& after.len() == before.len()
    &&& forall|k: int|
        0 <= k < before.len() ==> if before[k].id@ == id {
            update.ensures((before[k],), #[trigger] after[k])
        } else {
            after[k] == before[k]
        }
}

/// Take the catalog facts of `fresh` into every video of `videos` that it
/// holds.
pub fn merge_metadata_into(videos: &mut Vec<Video>, fresh: &[Video])
    ensures
        final(videos)@ == merged_videos(old(videos)@, fresh@),
{
    let ghost before = videos@;
    let mut i: usize = 0;
    while i < videos.len()
        invariant
            videos@.len() == before.len(),
            i <= videos@.len(),
            forall|k: int| 0 <= k < i ==> videos@[k] == merged_with(before[k], fresh@),
            forall|k: int| i <= k < videos@.len() ==> videos@[k] == before[k],
        decreases videos.len() - i,
    {
        match position_in(fresh, videos[i].id.as_str()) {
            Some(k) => {
                let mut v = videos[i].clone();
                v.duration_seconds = fresh[k].duration_seconds;
                v.is_live = fresh[k].is_live;
                v.is_short = fresh[k].is_short;
                videos.set(i, v);
            },
            None => {},
        }
        i = i + 1;
    }
    assert(videos@ =~= merged_videos(before, fresh@));
}

/// Hand every video of `videos` whose id is `video_id` to `update`, and
/// keep what it gives back.
pub fn update_videos_in<F: Fn(Video) -> Video>(videos: &mut Vec<Video>, video_id: &str, update: F)
    requires
        forall|v: Video| update.requires((v,)),
    ensures
        updated_videos(old(videos)@, final(videos)@, video_id@, update),
{
    let ghost before = videos@;
    let target = video_id.to_string();
    let mut i: usize = 0;
    while i < videos.len()
        invariant
            videos@.len() == before.len(),
            i <= videos@.len(),
            target@ == video_id@,
            forall|v: Video| update.requires((v,)),
            forall|k: int|
                0 <= k < i ==> if before[k].id@ == video_id@ {
                    update.ensures((before[k],), #[trigger] videos@[k])
                } else {
                    videos@[k] == before[k]
                },
            forall|k: int| i <= k < videos@.len() ==> videos@[k] == before[k],
        decreases videos.len() - i,
    {
        if videos[i].id == target {
            let v = videos[i].clone();
            let changed = update(v);
            videos.set(i, changed);
        }
        i = i + 1;
    }
}

/// Anything that holds videos, so a change to one video (its progress, its
/// length) can be applied to every cached list showing it at once.
pub trait VideoList {
    /// The videos held, in order.
    spec fn listed(&self) -> Seq<Video>;

    /// Whether `self` and `other` agree on everything but their videos.
    spec fn agrees_apart_from_videos(&self, other: &Self) -> bool;

    /// Hand each video with id `video_id` to `update`, and keep what it
    /// gives back.
    fn update_video<F: Fn(Video) -> Video>(&mut self, video_id: &str, update: F)
        requires
            forall|v: Video| update.requires((v,)),
        ensures
            updated_videos(old(self).listed(), final(self).listed(), video_id@, update),
            final(self).agrees_apart_from_videos(old(self)),
    ;

    /// Take the catalog facts of `fresh` (length, live and Shorts state)
    /// without touching this viewer's progress.
    fn merge_metadata(&mut self, fresh: &[Video])
        ensures
            final(self).listed() == merged_videos(old(self).listed(), fresh@),
            final(self).agrees_apart_from_videos(old(self)),
    ;
}

impl VideoList for Vec<Video> {
    open spec fn listed(&self) -> Seq<Video> {
        self@
    }

    open spec fn agrees_apart_from_videos(&self, other: &Self) -> bool {
        true
    }

    fn update_video<F: Fn(Video) -> Video>(&mut self, video_id: &str, update: F) {
        update_videos_in(self, video_id, update);
    }

    fn merge_metadata(&mut self, fresh: &[Video]) {
        merge_metadata_into(self, fresh);
    }
}

impl VideoList for FeedPage {
    open spec fn listed(&self) -> Seq<Video> {
        self.videos@
    }

    open spec fn agrees_apart_from_videos(&self, other: &Self) -> bool {
        &&& self.has_more == other.has_more
        &&& self.without_duration == other.without_duration
        &&& self.unknown_durations@ == other.unknown_durations@
    }

    fn update_video<F: Fn(Video) -> Video>(&mut self, video_id: &str, update: F) {
        update_videos_in(&mut self.videos, video_id, update);
    }

    fn merge_metadata(&mut self, fresh: &[Video]) {
        merge_metadata_into(&mut self.videos, fresh);
    }
}

impl VideoList for PlaylistContents {
    open spec fn listed(&self) -> Seq<Video> {
        self.videos@
    }

    open spec fn agrees_apart_from_videos(&self, other: &Self) -> bool {
        &&& self.playlist.id@ == other.playlist.id@
        &&& self.playlist.name@ == other.playlist.name@
        &&& self.playlist.video_ids@ == other.playlist.video_ids@
    }

    fn update_video<F: Fn(Video) -> Video>(&mut self, video_id: &str, update: F) {
        update_videos_in(&mut self.videos, video_id, update);
    }

    fn merge_metadata(&mut self, fresh: &[Video]) {
        merge_metadata_into(&mut self.videos, fresh);
    }
}

/// A merge takes only the catalog facts: every video keeps its id, title,
/// channel, date, counts and this viewer's progress, watched mark and
/// audio-only choice, and stays where it was.
pub proof fn law_merge_keeps_progress(list: Seq<Video>, fresh: Seq<Video>)
    ensures
        merged_videos(list, fresh).len() == list.len(),
        forall|i: int|
            0 <= i < list.len() ==> {
                let m = #[trigger] merged_videos(list, fresh)[i];
                &&& m.id == list[i].id
                &&& m.title == list[i].title
                &&& m.channel_id == list[i].channel_id
                &&& m.channel_name == list[i].channel_name
                &&& m.thumbnail_url == list[i].thumbnail_url
                &&& m.published_at == list[i].published_at
                &&& m.view_count == list[i].view_count
                &&& m.progress_seconds == list[i].progress_seconds
                &&& m.watched == list[i].watched
                &&& m.audio_only == list[i].audio_only
                &&& m.channel_avatar_url == list[i].channel_avatar_url
            },
{
}

/// A video that `fresh` holds takes its length, live and Shorts state from
/// the first fresh video with its id; one it does not hold is unchanged.
pub proof fn law_merge_takes_catalog_facts(list: Seq<Video>, fresh: Seq<Video>, i: int)
    requires
        0 <= i < list.len(),
    ensures
        match position_of(fresh, list[i].id@, 0) {
            Some(k) => {
                &&& merged_videos(list, fresh)[i].duration_seconds == fresh[k].duration_seconds
                &&& merged_videos(list, fresh)[i].is_live == fresh[k].is_live
                &&& merged_videos(list, fresh)[i].is_short == fresh[k].is_short
            },
            None => merged_videos(list, fresh)[i] == list[i],
        },
{
}

/// Merging the same fresh videos twice changes nothing the first merge did
/// not.
pub proof fn law_merge_is_idempotent(list: Seq<Video>, fresh: Seq<Video>)
    ensures
        merged_videos(merged_videos(list, fresh), fresh) == merged_videos(list, fresh),
{
    let once = merged_videos(list, fresh);
    assert(merged_videos(once, fresh) =~= once);
}


/// `c` is the demo channel with these texts: followed for everything,
/// with no avatar or banner yet.
pub open spec fn is_demo_channel(
    c: Channel,
    id: Seq<char>,
    name: Seq<char>,
    handle: Seq<char>,
    subscriber_count: Seq<char>,
    description: Seq<char>,
) -> bool {
    &&& c.id@ == id
    &&& c.name@ == name
    &&& c.handle@ == handle
    &&& c.avatar_url is None
    &&& c.subscriber_count@ == subscriber_count
    &&& c.subscribed
    &&& c.description@ == description
    &&& c.banner_url is None
    &&& c.subscription_content == SubscriptionContent::All
}

/// `v` is the demo video with these facts, published by `channel`:
/// neither a Short nor audio only, with no avatar filled in.
pub open spec fn is_demo_video(
    v: Video,
    id: Seq<char>,
    title: Seq<char>,
    channel: Channel,
    thumbnail_url: Seq<char>,
    published_at: Seq<char>,
    duration_seconds: u64,
    view_count: Seq<char>,
    progress_seconds: u64,
    watched: bool,
    is_live: bool,
) -> bool {
    &&& v.id@ == id
    &&& v.title@ == title
    &&& v.channel_id@ == channel.id@
    &&& v.channel_name@ == channel.name@
    &&& v.thumbnail_url@ == thumbnail_url
    &&& v.published_at@ == published_at
    &&& v.duration_seconds == duration_seconds
    &&& v.view_count@ == view_count
    &&& v.progress_seconds == progress_seconds
    &&& v.watched == watched
    &&& v.is_live == is_live
    &&& !v.is_short
    &&& !v.audio_only
    &&& v.channel_avatar_url is None
}

/// The texts of a list of strings.
pub open spec fn texts(s: Seq<String>) -> Seq<Seq<char>> {
    s.map_values(|t: String| t@)
}

/// The four channels a new account follows.
pub open spec fn is_demo_channels(cs: Seq<Channel>) -> bool {
    &&& cs.len() == 4
    &&& is_demo_channel(cs[0], "UC-tawny-byte"@, "Byte Sized"@, "@bytesized"@, "482K"@, "Practical Rust and software architecture."@)
    &&& is_demo_channel(cs[1], "UC-tawny-signal"@, "Signal Path"@, "@signalpath"@, "1.2M"@, "Signals, space, and ambitious experiments."@)
    &&& is_demo_channel(cs[2], "UC-tawny-field"@, "Field Notes"@, "@fieldnotes"@, "206K"@, "Thoughtful stories from outdoors."@)
    &&& is_demo_channel(cs[3], "UC-tawny-slow"@, "Slow Living Lab"@, "@slowlivinglab"@, "734K"@, "Make technology feel quieter."@)
}

/// The six videos the demo catalog holds, each by its channel in `cs`.
pub open spec fn is_demo_videos(vs: Seq<Video>, cs: Seq<Channel>) -> bool {
    &&& vs.len() == 6
    &&& is_demo_video(
        vs[0],
        "aqz-KE-bpKQ"@,
        "I rebuilt my tiny studio around one quiet idea"@,
        cs[3],
        "https://picsum.photos/seed/tawny-studio/1280/720"@,
        "18 minutes ago"@,
        1128,
        "42K views"@,
        0,
        false,
        false,
    )
    &&& is_demo_video(
        vs[1],
        "M7lc1UVf-VE"@,
        "Rust UI architecture that still feels simple"@,
        cs[0],
        "https://picsum.photos/seed/tawny-rust/1280/720"@,
        "2 hours ago"@,
        1642,
        "91K views"@,
        420,
        false,
        false,
    )
    &&& is_demo_video(
        vs[2],
        "ysz5S6PUM-U"@,
        "The surprising physics of a perfect trail"@,
        cs[2],
        "https://picsum.photos/seed/tawny-trail/1280/720"@,
        "Yesterday"@,
        812,
        "318K views"@,
        0,
        false,
        false,
    )
    &&& is_demo_video(
        vs[3],
        "jNQXAC9IVRw"@,
        "Live: decoding the signal from deep space"@,
        cs[1],
        "https://picsum.photos/seed/tawny-space/1280/720"@,
        "Streaming now"@,
        0,
        "8.4K watching"@,
        0,
        false,
        true,
    )
    &&& is_demo_video(
        vs[4],
        "dQw4w9WgXcQ"@,
        "Five shortcuts I wish I knew before switching editors"@,
        cs[0],
        "https://picsum.photos/seed/tawny-editor/1280/720"@,
        "3 days ago"@,
        625,
        "126K views"@,
        625,
        true,
        false,
    )
    &&& is_demo_video(
        vs[5],
        "ScMzIvxBSi4"@,
        "A week in the high desert, without notifications"@,
        cs[2],
        "https://picsum.photos/seed/tawny-desert/1280/720"@,
        "5 days ago"@,
        2210,
        "604K views"@,
        0,
        false,
        false,
    )
}

/// The three playlists a new account starts with, over the videos `vs`.
pub open spec fn is_demo_playlists(ps: Seq<Playlist>, vs: Seq<Video>) -> bool {
    &&& ps.len() == 3
    &&& ps[0].id@ == "watch-later"@
    &&& ps[0].name@ == "Watch later"@
    &&& texts(ps[0].video_ids@) == seq![vs[1].id@, vs[2].id@]
    &&& ps[1].id@ == "deep-dives"@
    &&& ps[1].name@ == "Deep dives"@
    &&& texts(ps[1].video_ids@) == seq![vs[3].id@, vs[5].id@]
    &&& ps[2].id@ == "weekend-queue"@
    &&& ps[2].name@ == "Weekend queue"@
    &&& texts(ps[2].video_ids@) == seq![vs[0].id@]
}

/// The two subscription groups a new account starts with, over the
/// channels `cs`.
pub open spec fn is_demo_groups(gs: Seq<SubscriptionGroup>, cs: Seq<Channel>) -> bool {
    &&& gs.len() == 2
    &&& gs[0].id@ == "makers"@
    &&& gs[0].name@ == "Makers"@
    &&& texts(gs[0].channel_ids@) == seq![cs[0].id@, cs[1].id@]
    &&& gs[1].id@ == "outside"@
    &&& gs[1].name@ == "Outside"@
    &&& texts(gs[1].channel_ids@) == seq![cs[2].id@, cs[3].id@]
}

/// The queue a new account starts with.
pub open spec fn is_demo_queue(q: Seq<String>) -> bool {
    texts(q) == seq!["M7lc1UVf-VE"@, "ysz5S6PUM-U"@]
}

/// What a new account starts with: a few real channels and videos, so the
/// feed is not empty on first launch, and the playlists the default swipes
/// save to. The server seeds the catalog with it on first start.
pub struct DemoLibrary {
    pub channels: Vec<Channel>,
    pub videos: Vec<Video>,
    pub playlists: Vec<Playlist>,
    pub subscription_groups: Vec<SubscriptionGroup>,
    pub queue: Vec<String>,
}

/// The demo channels, playlists and groups a new account starts with.
pub fn demo_viewer() -> (r: Viewer)
    ensures
        is_demo_channels(r.subscriptions@),
        exists|vs: Seq<Video>|
            is_demo_videos(vs, r.subscriptions@) && #[trigger] is_demo_playlists(r.playlists@, vs),
        is_demo_groups(r.subscription_groups@, r.subscriptions@),
        is_demo_queue(r.queue@),
        r.history@.len() == 0,
{
    let demo = DemoLibrary::demo();
    let ghost vs = demo.videos@;
    let r = Viewer {
        subscriptions: demo.channels,
        playlists: demo.playlists,
        subscription_groups: demo.subscription_groups,
        queue: demo.queue,
        history: Vec::new(),
    };
    assert(is_demo_videos(vs, r.subscriptions@) && is_demo_playlists(r.playlists@, vs));
    r
}

impl DemoLibrary {
    /// The demo catalog and library.
    pub fn demo() -> (r: Self)
        ensures
            is_demo_channels(r.channels@),
            is_demo_videos(r.videos@, r.channels@),
            is_demo_playlists(r.playlists@, r.videos@),
            is_demo_groups(r.subscription_groups@, r.channels@),
            is_demo_queue(r.queue@),
    {
        let channels = vec![
            Channel {
                id: "UC-tawny-byte".to_string(),
                name: "Byte Sized".to_string(),
                handle: "@bytesized".to_string(),
                avatar_url: None,
                subscriber_count: "482K".to_string(),
                subscribed: true,
                description: "Practical Rust and software architecture.".to_string(),
                banner_url: None,
                subscription_content: SubscriptionContent::All,
            },
            Channel {
                id: "UC-tawny-signal".to_string(),
                name: "Signal Path".to_string(),
                handle: "@signalpath".to_string(),
                avatar_url: None,
                subscriber_count: "1.2M".to_string(),
                subscribed: true,
                description: "Signals, space, and ambitious experiments.".to_string(),
                banner_url: None,
                subscription_content: SubscriptionContent::All,
            },
            Channel {
                id: "UC-tawny-field".to_string(),
                name: "Field Notes".to_string(),
                handle: "@fieldnotes".to_string(),
                avatar_url: None,
                subscriber_count: "206K".to_string(),
                subscribed: true,
                description: "Thoughtful stories from outdoors.".to_string(),
                banner_url: None,
                subscription_content: SubscriptionContent::All,
            },
            Channel {
                id: "UC-tawny-slow".to_string(),
                name: "Slow Living Lab".to_string(),
                handle: "@slowlivinglab".to_string(),
                avatar_url: None,
                subscriber_count: "734K".to_string(),
                subscribed: true,
                description: "Make technology feel quieter.".to_string(),
                banner_url: None,
                subscription_content: SubscriptionContent::All,
            },
        ];

        let videos = vec![
            Video {
                id: "aqz-KE-bpKQ".to_string(),
                title: "I rebuilt my tiny studio around one quiet idea".to_string(),
                channel_id: channels[3].id.clone(),
                channel_name: channels[3].name.clone(),
                thumbnail_url: "https://picsum.photos/seed/tawny-studio/1280/720".to_string(),
                published_at: "18 minutes ago".to_string(),
                duration_seconds: 1128,
                view_count: "42K views".to_string(),
                progress_seconds: 0,
                watched: false,
                is_live: false,
                is_short: false,
                audio_only: false,
                channel_avatar_url: None,
            },
            Video {
                id: "M7lc1UVf-VE".to_string(),
                title: "Rust UI architecture that still feels simple".to_string(),
                channel_id: channels[0].id.clone(),
                channel_name: channels[0].name.clone(),
                thumbnail_url: "https://picsum.photos/seed/tawny-rust/1280/720".to_string(),
                published_at: "2 hours ago".to_string(),
                duration_seconds: 1642,
                view_count: "91K views".to_string(),
                progress_seconds: 420,
                watched: false,
                is_live: false,
                is_short: false,
                audio_only: false,
                channel_avatar_url: None,
            },
            Video {
                id: "ysz5S6PUM-U".to_string(),
                title: "The surprising physics of a perfect trail".to_string(),
                channel_id: channels[2].id.clone(),
                channel_name: channels[2].name.clone(),
                thumbnail_url: "https://picsum.photos/seed/tawny-trail/1280/720".to_string(),
                published_at: "Yesterday".to_string(),
                duration_seconds: 812,
                view_count: "318K views".to_string(),
                progress_seconds: 0,
                watched: false,
                is_live: false,
                is_short: false,
                audio_only: false,
                channel_avatar_url: None,
            },
            Video {
                id: "jNQXAC9IVRw".to_string(),
                title: "Live: decoding the signal from deep space".to_string(),
                channel_id: channels[1].id.clone(),
                channel_name: channels[1].name.clone(),
                thumbnail_url: "https://picsum.photos/seed/tawny-space/1280/720".to_string(),
                published_at: "Streaming now".to_string(),
                duration_seconds: 0,
                view_count: "8.4K watching".to_string(),
                progress_seconds: 0,
                watched: false,
                is_live: true,
                is_short: false,
                audio_only: false,
                channel_avatar_url: None,
            },
            Video {
                id: "dQw4w9WgXcQ".to_string(),
                title: "Five shortcuts I wish I knew before switching editors".to_string(),
                channel_id: channels[0].id.clone(),
                channel_name: channels[0].name.clone(),
                thumbnail_url: "https://picsum.photos/seed/tawny-editor/1280/720".to_string(),
                published_at: "3 days ago".to_string(),
                duration_seconds: 625,
                view_count: "126K views".to_string(),
                progress_seconds: 625,
                watched: true,
                is_live: false,
                is_short: false,
                audio_only: false,
                channel_avatar_url: None,
            },
            Video {
                id: "ScMzIvxBSi4".to_string(),
                title: "A week in the high desert, without notifications".to_string(),
                channel_id: channels[2].id.clone(),
                channel_name: channels[2].name.clone(),
                thumbnail_url: "https://picsum.photos/seed/tawny-desert/1280/720".to_string(),
                published_at: "5 days ago".to_string(),
                duration_seconds: 2210,
                view_count: "604K views".to_string(),
                progress_seconds: 0,
                watched: false,
                is_live: false,
                is_short: false,
                audio_only: false,
                channel_avatar_url: None,
            },
        ];

        let playlists = vec![
            Playlist {
                id: "watch-later".to_string(),
                name: "Watch later".to_string(),
                video_ids: vec![videos[1].id.clone(), videos[2].id.clone()],
            },
            Playlist {
                id: "deep-dives".to_string(),
                name: "Deep dives".to_string(),
                video_ids: vec![videos[3].id.clone(), videos[5].id.clone()],
            },
            Playlist {
                id: "weekend-queue".to_string(),
                name: "Weekend queue".to_string(),
                video_ids: vec![videos[0].id.clone()],
            },
        ];

        let subscription_groups = vec![
            SubscriptionGroup {
                id: "makers".to_string(),
                name: "Makers".to_string(),
                channel_ids: vec![channels[0].id.clone(), channels[1].id.clone()],
            },
            SubscriptionGroup {
                id: "outside".to_string(),
                name: "Outside".to_string(),
                channel_ids: vec![channels[2].id.clone(), channels[3].id.clone()],
            },
        ];

        let queue = vec!["M7lc1UVf-VE".to_string(), "ysz5S6PUM-U".to_string()];
        proof {
            assert(texts(playlists@[0].video_ids@) =~= seq![videos@[1].id@, videos@[2].id@]);
            assert(texts(playlists@[1].video_ids@) =~= seq![videos@[3].id@, videos@[5].id@]);
            assert(texts(playlists@[2].video_ids@) =~= seq![videos@[0].id@]);
            assert(texts(subscription_groups@[0].channel_ids@) =~= seq![channels@[0].id@, channels@[1].id@]);
            assert(texts(subscription_groups@[1].channel_ids@) =~= seq![channels@[2].id@, channels@[3].id@]);
            assert(texts(queue@) =~= seq!["M7lc1UVf-VE"@, "ysz5S6PUM-U"@]);
        }
        DemoLibrary { channels, videos, playlists, subscription_groups, queue }
    }
}

/// Whether `id` names one of `videos`.
pub open spec fn names_video(videos: Seq<Video>, id: Seq<char>) -> bool {
    exists|k: int| 0 <= k < videos.len() && #[trigger] videos[k].id@ == id
}

/// Whether `id` names one of `channels`.
pub open spec fn names_channel(channels: Seq<Channel>, id: Seq<char>) -> bool {
    exists|k: int| 0 <= k < channels.len() && #[trigger] channels[k].id@ == id
}

/// The demo library holds no dangling reference: every playlist entry and
/// queue entry is one of its videos, every group member and every video's
/// channel one of its channels.
pub proof fn law_demo_references_resolve(d: DemoLibrary)
    requires
        is_demo_channels(d.channels@),
        is_demo_videos(d.videos@, d.channels@),
        is_demo_playlists(d.playlists@, d.videos@),
        is_demo_groups(d.subscription_groups@, d.channels@),
        is_demo_queue(d.queue@),
    ensures
        forall|p: int, j: int|
            0 <= p < d.playlists@.len() && 0 <= j < d.playlists@[p].video_ids@.len() ==> names_video(
                d.videos@,
                #[trigger] d.playlists@[p].video_ids@[j]@,
            ),
        forall|g: int, j: int|
            0 <= g < d.subscription_groups@.len() && 0 <= j < d.subscription_groups@[g].channel_ids@.len()
                ==> names_channel(d.channels@, #[trigger] d.subscription_groups@[g].channel_ids@[j]@),
        forall|j: int| 0 <= j < d.queue@.len() ==> names_video(d.videos@, #[trigger] d.queue@[j]@),
        forall|k: int| 0 <= k < d.videos@.len() ==> names_channel(d.channels@, #[trigger] d.videos@[k].channel_id@),
{
    let vs = d.videos@;
    let cs = d.channels@;
    assert forall|p: int, j: int|
        0 <= p < d.playlists@.len() && 0 <= j < d.playlists@[p].video_ids@.len() implies names_video(
            vs,
            #[trigger] d.playlists@[p].video_ids@[j]@,
        ) by {
        let t = texts(d.playlists@[p].video_ids@);
        assert(t.len() == d.playlists@[p].video_ids@.len());
        assert(t[j] == d.playlists@[p].video_ids@[j]@);
        if p == 0 {
            assert(t == seq![vs[1].id@, vs[2].id@]);
            if j == 0 { assert(vs[1].id@ == t[j]); } else { assert(vs[2].id@ == t[j]); }
        } else if p == 1 {
            assert(t == seq![vs[3].id@, vs[5].id@]);
            if j == 0 { assert(vs[3].id@ == t[j]); } else { assert(vs[5].id@ == t[j]); }
        } else {
            assert(t == seq![vs[0].id@]);
            assert(vs[0].id@ == t[j]);
        }
    }
    assert forall|g: int, j: int|
        0 <= g < d.subscription_groups@.len() && 0 <= j < d.subscription_groups@[g].channel_ids@.len()
            implies names_channel(cs, #[trigger] d.subscription_groups@[g].channel_ids@[j]@) by {
        let t = texts(d.subscription_groups@[g].channel_ids@);
        assert(t.len() == d.subscription_groups@[g].channel_ids@.len());
        assert(t[j] == d.subscription_groups@[g].channel_ids@[j]@);
        if g == 0 {
            assert(t == seq![cs[0].id@, cs[1].id@]);
            if j == 0 { assert(cs[0].id@ == t[j]); } else { assert(cs[1].id@ == t[j]); }
        } else {
            assert(t == seq![cs[2].id@, cs[3].id@]);
            if j == 0 { assert(cs[2].id@ == t[j]); } else { assert(cs[3].id@ == t[j]); }
        }
    }
    assert forall|j: int| 0 <= j < d.queue@.len() implies names_video(vs, #[trigger] d.queue@[j]@) by {
        let t = texts(d.queue@);
        assert(t.len() == d.queue@.len());
        assert(t[j] == d.queue@[j]@);
        assert(t == seq!["M7lc1UVf-VE"@, "ysz5S6PUM-U"@]);
        if j == 0 { assert(vs[1].id@ == t[j]); } else { assert(vs[2].id@ == t[j]); }
    }
    assert forall|k: int| 0 <= k < vs.len() implies names_channel(cs, #[trigger] vs[k].channel_id@) by {
        if k == 0 { assert(cs[3].id@ == vs[k].channel_id@); }
        else if k == 1 { assert(cs[0].id@ == vs[k].channel_id@); }
        else if k == 2 { assert(cs[2].id@ == vs[k].channel_id@); }
        else if k == 3 { assert(cs[1].id@ == vs[k].channel_id@); }
        else if k == 4 { assert(cs[0].id@ == vs[k].channel_id@); }
        else { assert(cs[2].id@ == vs[k].channel_id@); }
    }
}

/// A history by the texts of its entries: (video id, when played).
pub open spec fn history_view(history: Seq<HistoryEntry>) -> Seq<(Seq<char>, Seq<char>)> {
    history.map_values(|e: HistoryEntry| (e.video_id@, e.played_at@))
}

/// The entries of `history` that are not plays of `video_id`, in order.
pub open spec fn without_video(history: Seq<(Seq<char>, Seq<char>)>, video_id: Seq<char>) -> Seq<
    (Seq<char>, Seq<char>),
>
    decreases history.len(),
{
    if history.len() == 0 {
        Seq::empty()
    } else {
        let rest = without_video(history.drop_last(), video_id);
        if history.last().0 == video_id {
            rest
        } else {
            rest.push(history.last())
        }
    }
}

/// The history after `video_id` is played at `played_at`: the play at the
/// front, the video's earlier entry gone, so history holds distinct videos
/// most recent first, and at most `HISTORY_LIMIT` of them.
pub open spec fn history_after_play(
    history: Seq<(Seq<char>, Seq<char>)>,
    video_id: Seq<char>,
    played_at: Seq<char>,
) -> Seq<(Seq<char>, Seq<char>)> {
    let all = seq![(video_id, played_at)] + without_video(history, video_id);
    if all.len() > HISTORY_LIMIT {
        all.take(HISTORY_LIMIT as int)
    } else {
        all
    }
}

/// The history after `video_id` is played at `played_at`.
pub fn history_with_play(history: &Vec<HistoryEntry>, video_id: &str, played_at: &str) -> (r: Vec<
    HistoryEntry,
>)
    ensures
        history_view(r@) == history_after_play(history_view(history@), video_id@, played_at@),
{
    let target = video_id.to_string();
    let mut out: Vec<HistoryEntry> = Vec::new();
    out.push(HistoryEntry { video_id: video_id.to_string(), played_at: played_at.to_string() });
    let ghost h = history_view(history@);
    let mut i: usize = 0;
    while i < history.len() && out.len() < HISTORY_LIMIT
        invariant
            i <= history.len(),
            h == history_view(history@),
            target@ == video_id@,
            1 <= out@.len() <= HISTORY_LIMIT,
            history_view(out@) == seq![(video_id@, played_at@)] + without_video(h.take(i as int), video_id@),
        decreases history.len() - i,
    {
        let ghost before = out@;
        assert(h.take(i + 1).drop_last() =~= h.take(i as int));
        assert(h.take(i + 1).last() == (history@[i as int].video_id@, history@[i as int].played_at@));
        if history[i].video_id != target {
            out.push(HistoryEntry {
                video_id: history[i].video_id.clone(),
                played_at: history[i].played_at.clone(),
            });
            assert(history_view(out@) =~= history_view(before).push(
                (history@[i as int].video_id@, history@[i as int].played_at@),
            ));
        }
        i = i + 1;
    }
    proof {
        let full = seq![(video_id@, played_at@)] + without_video(h, video_id@);
        lemma_without_video_prefix(h, video_id@, i as int, h.len() as int);
        assert(h.take(h.len() as int) =~= h);
        if i as int == h.len() {
            assert(h.take(i as int) =~= h);
            assert(history_view(out@) == full);
        } else {
            let a = without_video(h.take(i as int), video_id@);
            let part = seq![(video_id@, played_at@)] + a;
            assert(without_video(h, video_id@).take(a.len() as int) == a);
            assert(out@.len() == HISTORY_LIMIT);
            assert(full.take(HISTORY_LIMIT as int) =~= part);
        }
    }
    out
}

/// The entries kept from a longer prefix begin with those kept from a
/// shorter one.
proof fn lemma_without_video_prefix(h: Seq<(Seq<char>, Seq<char>)>, id: Seq<char>, i: int, j: int)
    requires
        0 <= i <= j <= h.len(),
    ensures
        without_video(h.take(i), id).len() <= without_video(h.take(j), id).len(),
        without_video(h.take(j), id).take(without_video(h.take(i), id).len() as int) == without_video(
            h.take(i),
            id,
        ),
    decreases j - i,
{
    let a = without_video(h.take(i), id);
    if i < j {
        lemma_without_video_prefix(h, id, i, j - 1);
        assert(h.take(j).drop_last() =~= h.take(j - 1));
        let b = without_video(h.take(j - 1), id);
        let c = without_video(h.take(j), id);
        assert(c.take(a.len() as int) =~= b.take(a.len() as int));
    } else {
        assert(h.take(j) =~= h.take(i));
        assert(a.take(a.len() as int) =~= a);
    }
}

/// Whether no two entries of a history are plays of the same video.
pub open spec fn distinct_plays(history: Seq<(Seq<char>, Seq<char>)>) -> bool {
    forall|a: int, b: int| 0 <= a < b < history.len() ==> #[trigger] history[a].0 != #[trigger] history[b].0
}

proof fn lemma_without_video(history: Seq<(Seq<char>, Seq<char>)>, id: Seq<char>)
    requires
        distinct_plays(history),
    ensures
        distinct_plays(without_video(history, id)),
        forall|k: int| 0 <= k < without_video(history, id).len() ==> (#[trigger] without_video(history, id)[k]).0 != id,
        forall|k: int|
            0 <= k < without_video(history, id).len() ==> exists|j: int|
                0 <= j < history.len() && history[j] == #[trigger] without_video(history, id)[k],
    decreases history.len(),
{
    if history.len() > 0 {
        let front = history.drop_last();
        assert(distinct_plays(front)) by {
            assert forall|a: int, b: int| 0 <= a < b < front.len() implies #[trigger] front[a].0 != #[trigger] front[b].0 by {
                assert(front[a] == history[a]);
                assert(front[b] == history[b]);
            }
        }
        lemma_without_video(front, id);
        let rest = without_video(front, id);
        if history.last().0 != id {
            let all = rest.push(history.last());
            assert forall|k: int| 0 <= k < rest.len() implies #[trigger] rest[k].0 != history.last().0 by {
                let j = choose|j: int| 0 <= j < front.len() && front[j] == rest[k];
                assert(history[j] == front[j]);
                assert(history[history.len() - 1] == history.last());
            }
            assert forall|a: int, b: int| 0 <= a < b < all.len() implies #[trigger] all[a].0 != #[trigger] all[b].0 by {
                if b == rest.len() {
                    assert(all[a] == rest[a]);
                } else {
                    assert(all[a] == rest[a]);
                    assert(all[b] == rest[b]);
                }
            }
            assert forall|k: int| 0 <= k < all.len() implies exists|j: int|
                0 <= j < history.len() && history[j] == #[trigger] all[k] by {
                if k < rest.len() {
                    let j = choose|j: int| 0 <= j < front.len() && front[j] == rest[k];
                    assert(history[j] == front[j]);
                    assert(all[k] == rest[k]);
                } else {
                    assert(history[history.len() - 1] == all[k]);
                }
            }
        } else {
            assert forall|k: int| 0 <= k < rest.len() implies exists|j: int|
                0 <= j < history.len() && history[j] == #[trigger] rest[k] by {
                let j = choose|j: int| 0 <= j < front.len() && front[j] == rest[k];
                assert(history[j] == front[j]);
            }
        }
    }
}

/// History holds distinct videos, most recent first, and at most
/// `HISTORY_LIMIT` of them: a play puts its video at the front and keeps
/// no earlier entry of it.
pub proof fn law_history_stays_distinct_recent_first_and_bounded(
    history: Seq<(Seq<char>, Seq<char>)>,
    video_id: Seq<char>,
    played_at: Seq<char>,
)
    requires
        distinct_plays(history),
    ensures
        history_after_play(history, video_id, played_at).len() <= HISTORY_LIMIT,
        history_after_play(history, video_id, played_at)[0] == (video_id, played_at),
        distinct_plays(history_after_play(history, video_id, played_at)),
{
    lemma_without_video(history, video_id);
    let rest = without_video(history, video_id);
    let all = seq![(video_id, played_at)] + rest;
    assert(distinct_plays(all)) by {
        assert forall|a: int, b: int| 0 <= a < b < all.len() implies #[trigger] all[a].0 != #[trigger] all[b].0 by {
            assert(all[b] == rest[b - 1]);
            if a > 0 {
                assert(all[a] == rest[a - 1]);
            }
        }
    }
    let r = history_after_play(history, video_id, played_at);
    assert(distinct_plays(r)) by {
        assert forall|a: int, b: int| 0 <= a < b < r.len() implies #[trigger] r[a].0 != #[trigger] r[b].0 by {
            assert(r[a] == all[a]);
            assert(r[b] == all[b]);
        }
    }
}

} // verus!
