//! Filters and orders: what the feed and a playlist page show, and how a
//! playlist run walks what is shown.
use vstd::prelude::*;
use crate::dates::{clock_now, published_epoch_of};
use crate::settings::DurationThresholds;
use crate::sorting::{
    KeyView, SortKey, is_stable_sort, lemma_stable_sort_unique, reverse_in_place,
    stable_sort_by_keys,
};
use crate::text::{chars_of, string_of, to_lowercase, unicode_lowercase};
use crate::video::Video;

verus! {

#[derive(Clone, Copy, Debug, PartialEq, Eq, Structural)]
pub enum FeedFilter {
    All,
    Videos,
    Shorts,
    Live,
}

/// Whether the feed's kind filter keeps a video. The feed splits Live out,
/// because a stream is a different thing to sit down to: `Videos` keeps
/// long-form uploads that are not live.
pub open spec fn feed_kind_accepts(filter: FeedFilter, video: Video) -> bool {
    match filter {
        FeedFilter::All => true,
        FeedFilter::Videos => !video.is_short && !video.is_live,
        FeedFilter::Shorts => video.is_short,
        FeedFilter::Live => video.is_live,
    }
}

impl FeedFilter {
    /// Whether the feed's kind filter keeps `video`.
    pub fn accepts(self, video: &Video) -> (r: bool)
        ensures
            r == feed_kind_accepts(self, *video),
    {
        match self {
            FeedFilter::All => true,
            FeedFilter::Videos => !video.is_short && !video.is_live,
            FeedFilter::Shorts => video.is_short,
            FeedFilter::Live => video.is_live,
        }
    }

    pub fn label(self) -> (r: &'static str)
        ensures
            r@ == (match self {
                FeedFilter::All => "All"@,
                FeedFilter::Videos => "Videos"@,
                FeedFilter::Shorts => "Shorts"@,
                FeedFilter::Live => "Live"@,
            }),
    {
        match self {
            FeedFilter::All => "All",
            FeedFilter::Videos => "Videos",
            FeedFilter::Shorts => "Shorts",
            FeedFilter::Live => "Live",
        }
    }

    /// The feed starts on everything.
    pub fn default() -> (r: FeedFilter)
        ensures
            r == FeedFilter::All,
    {
        FeedFilter::All
    }
}

/// What a search looks for.
#[derive(Clone, Copy, Debug, PartialEq, Eq, Structural)]
pub enum ExploreFilter {
    All,
    Videos,
    Channels,
}

impl ExploreFilter {
    pub fn label(self) -> (r: &'static str)
        ensures
            r@ == (match self {
                ExploreFilter::All => "All"@,
                ExploreFilter::Videos => "Videos"@,
                ExploreFilter::Channels => "Channels"@,
            }),
    {
        match self {
            ExploreFilter::All => "All",
            ExploreFilter::Videos => "Videos",
            ExploreFilter::Channels => "Channels",
        }
    }

    /// The server's name for the filter.
    pub fn query(self) -> (r: &'static str)
        ensures
            r@ == (match self {
                ExploreFilter::All => "all"@,
                ExploreFilter::Videos => "videos"@,
                ExploreFilter::Channels => "channels"@,
            }),
    {
        match self {
            ExploreFilter::All => "all",
            ExploreFilter::Videos => "videos",
            ExploreFilter::Channels => "channels",
        }
    }
}

#[derive(Clone, Copy, Debug, PartialEq, Eq, Structural)]
pub enum DurationFilter {
    Short,
    Medium,
    Long,
}

pub open spec fn duration_label_text(filter: DurationFilter) -> Seq<char> {
    match filter {
        DurationFilter::Short => "Short"@,
        DurationFilter::Medium => "Medium"@,
        DurationFilter::Long => "Long"@,
    }
}

/// Whether a video falls in a length bucket. A live stream or a video of
/// unknown length is in none; a Short is measured against the Shorts
/// edges, anything else against the video edges.
pub open spec fn duration_matches(
    filter: DurationFilter,
    video: Video,
    thresholds: DurationThresholds,
) -> bool {
    if video.is_live || video.duration_seconds == 0 {
        false
    } else {
        let short_max = if video.is_short {
            thresholds.shorts_short_max_seconds
        } else {
            thresholds.video_short_max_seconds
        };
        let medium_max = if video.is_short {
            thresholds.shorts_medium_max_seconds
        } else {
            thresholds.video_medium_max_seconds
        };
        match filter {
            DurationFilter::Short => video.duration_seconds <= short_max,
            DurationFilter::Medium => short_max < video.duration_seconds <= medium_max,
            DurationFilter::Long => video.duration_seconds > medium_max,
        }
    }
}

impl DurationFilter {
    pub fn label(self) -> (r: &'static str)
        ensures
            r@ == duration_label_text(self),
    {
        match self {
            DurationFilter::Short => "Short",
            DurationFilter::Medium => "Medium",
            DurationFilter::Long => "Long",
        }
    }

    pub fn matches(self, video: &Video, thresholds: &DurationThresholds) -> (r: bool)
        ensures
            r == duration_matches(self, *video, *thresholds),
    {
        if video.is_live || video.duration_seconds == 0 {
            return false;
        }
        let (short_max, medium_max) = if video.is_short {
            (thresholds.shorts_short_max_seconds, thresholds.shorts_medium_max_seconds)
        } else {
            (thresholds.video_short_max_seconds, thresholds.video_medium_max_seconds)
        };
        match self {
            DurationFilter::Short => video.duration_seconds <= short_max,
            DurationFilter::Medium => video.duration_seconds > short_max && video.duration_seconds
                <= medium_max,
            DurationFilter::Long => video.duration_seconds > medium_max,
        }
    }
}

/// How a playlist's videos are ordered on its page. `Added` is the
/// playlist's own order and the default: a hand-built watchlist already
/// carries the order its owner chose.
#[derive(Clone, Copy, Debug, PartialEq, Eq, Structural)]
pub enum PlaylistSort {
    Added,
    Published,
    Duration,
    Title,
}

pub open spec fn sort_label(sort: PlaylistSort, descending: bool) -> Seq<char> {
    match (sort, descending) {
        (PlaylistSort::Added, false) => "First added"@,
        (PlaylistSort::Added, true) => "Last added"@,
        (PlaylistSort::Published, true) => "Newest"@,
        (PlaylistSort::Published, false) => "Oldest"@,
        (PlaylistSort::Duration, true) => "Longest"@,
        (PlaylistSort::Duration, false) => "Shortest"@,
        (PlaylistSort::Title, false) => "A-Z"@,
        (PlaylistSort::Title, true) => "Z-A"@,
    }
}

/// Every sort reads differently in its two directions: the label is the
/// only place the direction is shown.
pub proof fn law_sort_labels_tell_directions_apart(sort: PlaylistSort)
    ensures
        sort_label(sort, true) != sort_label(sort, false),
{
    reveal_strlit("First added");
    reveal_strlit("Last added");
    reveal_strlit("Newest");
    reveal_strlit("Oldest");
    reveal_strlit("Longest");
    reveal_strlit("Shortest");
    reveal_strlit("A-Z");
    reveal_strlit("Z-A");
    match sort {
        PlaylistSort::Added => assert(sort_label(sort, true)[0] != sort_label(sort, false)[0]),
        PlaylistSort::Published => assert(sort_label(sort, true)[0] != sort_label(sort, false)[0]),
        PlaylistSort::Duration => assert(sort_label(sort, true)[1] != sort_label(sort, false)[1]),
        PlaylistSort::Title => assert(sort_label(sort, true)[0] != sort_label(sort, false)[0]),
    }
}

/// What a video is ordered by under `sort`, its relative publish date
/// read at `now`.
pub open spec fn sort_key(sort: PlaylistSort, video: Video, now: int) -> KeyView {
    match sort {
        PlaylistSort::Added => KeyView::Number(0),
        PlaylistSort::Published => KeyView::Number(published_epoch_of(video.published_at@, now)),
        PlaylistSort::Duration => KeyView::Number(video.duration_seconds as int),
        PlaylistSort::Title => KeyView::Text(unicode_lowercase(video.title@)),
    }
}

/// The keys of `videos` under `sort`, relative dates read at `now`.
pub open spec fn sort_keys(sort: PlaylistSort, videos: Seq<Video>, now: int) -> Seq<KeyView> {
    videos.map_values(|v: Video| sort_key(sort, v, now))
}

/// Whether every video's publish date can be read without a panic.
pub open spec fn all_date_cleanly(videos: Seq<Video>) -> bool {
    forall|i: int| 0 <= i < videos.len() ==> (#[trigger] videos[i]).dates_cleanly()
}

/// Whether `result` is `videos` as `sort` orders them with relative dates
/// read at `now`: the playlist's own order for `Added`, otherwise a stable
/// sort by the key, then turned around when `descending`.
pub open spec fn sorted_as(
    sort: PlaylistSort,
    videos: Seq<Video>,
    descending: bool,
    now: int,
    result: Seq<Video>,
) -> bool {
    if sort == PlaylistSort::Added {
        result == (if descending {
            videos.reverse()
        } else {
            videos
        })
    } else {
        exists|sorted: Seq<Video>|
            is_stable_sort(videos, sort_keys(sort, videos, now), sorted)
                && result == (if descending {
                sorted.reverse()
            } else {
                sorted
            })
    }
}

impl PlaylistSort {
    /// Every sort, in the order the chips show them.
    pub fn all() -> (r: Vec<PlaylistSort>)
        ensures
            r@ == seq![PlaylistSort::Added, PlaylistSort::Published, PlaylistSort::Duration, PlaylistSort::Title],
    {
        vec![PlaylistSort::Added, PlaylistSort::Published, PlaylistSort::Duration, PlaylistSort::Title]
    }

    /// The label names the resulting order rather than the field it sorts
    /// on: the chip is the only place the direction is visible.
    pub fn label(self, descending: bool) -> (r: &'static str)
        ensures
            r@ == sort_label(self, descending),
    {
        match (self, descending) {
            (PlaylistSort::Added, false) => "First added",
            (PlaylistSort::Added, true) => "Last added",
            (PlaylistSort::Published, true) => "Newest",
            (PlaylistSort::Published, false) => "Oldest",
            (PlaylistSort::Duration, true) => "Longest",
            (PlaylistSort::Duration, false) => "Shortest",
            (PlaylistSort::Title, false) => "A-Z",
            (PlaylistSort::Title, true) => "Z-A",
        }
    }

    /// Which direction a sort lands on when first picked: newest and
    /// longest are what someone reaches for.
    pub fn default_descending(self) -> (r: bool)
        ensures
            r == (self == PlaylistSort::Published || self == PlaylistSort::Duration),
    {
        match self {
            PlaylistSort::Published | PlaylistSort::Duration => true,
            _ => false,
        }
    }

    /// The key `video` is ordered by, relative dates read at `now`.
    pub fn key_of(self, video: &Video, now: i64) -> (r: SortKey)
        requires
            video.dates_cleanly(),
            now >= i64::MIN + 86_400,
        ensures
            r.view() == sort_key(self, *video, now as int),
    {
        match self {
            PlaylistSort::Added => SortKey::Number(0),
            PlaylistSort::Published => SortKey::Number(video.published_epoch_at(now) as i128),
            PlaylistSort::Duration => SortKey::Number(video.duration_seconds as i128),
            PlaylistSort::Title => {
                let lower = to_lowercase(video.title.as_str());
                SortKey::Text(chars_of(lower.as_str()))
            },
        }
    }

    /// Order `videos` in place, relative publish dates read at `now`.
    ///
    /// Reversing after a stable sort rather than comparing backwards also
    /// inverts ties. For `Added` that is the whole point; elsewhere a tie
    /// means equal keys, so either order of the two is as correct.
    pub fn apply_at(self, videos: &mut Vec<Video>, descending: bool, now: i64)
        requires
            self == PlaylistSort::Published ==> all_date_cleanly(old(videos)@),
            now >= i64::MIN + 86_400,
        ensures
            sorted_as(self, old(videos)@, descending, now as int, final(videos)@),
    {
        let ghost initial = videos@;
        if self != PlaylistSort::Added {
            let mut keys: Vec<SortKey> = Vec::new();
            let mut i: usize = 0;
            while i < videos.len()
                invariant
                    videos@ == initial,
                    i <= videos.len(),
                    self == PlaylistSort::Published ==> all_date_cleanly(initial),
                    now >= i64::MIN + 86_400,
                    keys@.len() == i,
                    forall|k: int|
                        0 <= k < i ==> (#[trigger] keys@[k]).view() == sort_key(
                            self,
                            initial[k],
                            now as int,
                        ),
                decreases videos.len() - i,
            {
                let key = if self == PlaylistSort::Published {
                    assert(initial[i as int].dates_cleanly());
                    self.key_of(&videos[i], now)
                } else {
                    self.key_of_undated(&videos[i])
                };
                keys.push(key);
                i = i + 1;
            }
            assert(keys@.map_values(|k: SortKey| k.view()) =~= sort_keys(
                self,
                initial,
                now as int,
            ));
            stable_sort_by_keys(videos, keys);
        }
        let ghost sorted = videos@;
        proof {
            if self != PlaylistSort::Added {
                assert(is_stable_sort(initial, sort_keys(self, initial, now as int), sorted));
            }
        }
        if descending {
            reverse_in_place(videos);
        }
        assert(self != PlaylistSort::Added ==> is_stable_sort(
            initial,
            sort_keys(self, initial, now as int),
            sorted,
        ) && videos@ == (if descending {
            sorted.reverse()
        } else {
            sorted
        }));
        assert(self == PlaylistSort::Added ==> sorted == initial);
        assert(sorted_as(self, initial, descending, now as int, videos@));
    }

    /// The key of a video under a sort that does not read dates.
    fn key_of_undated(self, video: &Video) -> (r: SortKey)
        requires
            self != PlaylistSort::Published,
        ensures
            forall|now: int| r.view() == #[trigger] sort_key(self, *video, now),
    {
        match self {
            PlaylistSort::Duration => SortKey::Number(video.duration_seconds as i128),
            PlaylistSort::Title => {
                let lower = to_lowercase(video.title.as_str());
                SortKey::Text(chars_of(lower.as_str()))
            },
            _ => SortKey::Number(0),
        }
    }

    /// Order `videos` in place, relative publish dates read against the
    /// system clock.
    pub fn apply(self, videos: &mut Vec<Video>, descending: bool)
        requires
            self == PlaylistSort::Published ==> all_date_cleanly(old(videos)@),
        ensures
            exists|now: int|
                i64::MIN + 86_400 <= now <= i64::MAX && sorted_as(
                    self,
                    old(videos)@,
                    descending,
                    now,
                    final(videos)@,
                ),
    {
        let now = clock_now();
        self.apply_at(videos, descending, now);
    }
}

/// Only `Published` reads the clock: every other sort gives the same keys
/// whenever it is run.
pub proof fn lemma_undated_keys_ignore_clock(sort: PlaylistSort, videos: Seq<Video>, a: int, b: int)
    requires
        sort != PlaylistSort::Published,
    ensures
        sort_keys(sort, videos, a) == sort_keys(sort, videos, b),
{
    assert(sort_keys(sort, videos, a) =~= sort_keys(sort, videos, b));
}

/// Ordering a playlist one way and then the other gives the same list
/// turned around, ties included, as long as no video's key changed in
/// between (a relative publish date can move as the clock does).
pub proof fn law_descending_reverses_ascending(
    sort: PlaylistSort,
    videos: Seq<Video>,
    now_ascending: int,
    now_descending: int,
    ascending: Seq<Video>,
    descending: Seq<Video>,
)
    requires
        sort_keys(sort, videos, now_ascending) == sort_keys(sort, videos, now_descending),
        sorted_as(sort, videos, false, now_ascending, ascending),
        sorted_as(sort, videos, true, now_descending, descending),
    ensures
        descending == ascending.reverse(),
{
    if sort != PlaylistSort::Added {
        let keys = sort_keys(sort, videos, now_ascending);
        let up = choose|sorted: Seq<Video>|
            is_stable_sort(videos, sort_keys(sort, videos, now_ascending), sorted)
                && ascending == sorted;
        let down = choose|sorted: Seq<Video>|
            is_stable_sort(videos, sort_keys(sort, videos, now_descending), sorted)
                && descending == sorted.reverse();
        lemma_stable_sort_unique(videos, keys, up, down);
    }
    assert(descending =~= ascending.reverse());
}

/// The length buckets: a live stream or a video of unknown length is in
/// none; a Short of length `d` is Short up to the Shorts' short edge, Long
/// past the Shorts' medium edge and Medium in between; any other video is
/// bucketed the same way by the video edges.
pub proof fn law_length_buckets(video: Video, thresholds: DurationThresholds)
    ensures
        video.is_live || video.duration_seconds == 0 ==> {
            &&& !duration_matches(DurationFilter::Short, video, thresholds)
            &&& !duration_matches(DurationFilter::Medium, video, thresholds)
            &&& !duration_matches(DurationFilter::Long, video, thresholds)
        },
        !video.is_live && video.duration_seconds > 0 && video.is_short ==> {
            let d = video.duration_seconds;
            &&& duration_matches(DurationFilter::Short, video, thresholds)
                <==> d <= thresholds.shorts_short_max_seconds
            &&& duration_matches(DurationFilter::Medium, video, thresholds)
                <==> thresholds.shorts_short_max_seconds < d <= thresholds.shorts_medium_max_seconds
            &&& duration_matches(DurationFilter::Long, video, thresholds)
                <==> d > thresholds.shorts_medium_max_seconds
        },
        !video.is_live && video.duration_seconds > 0 && !video.is_short ==> {
            let d = video.duration_seconds;
            &&& duration_matches(DurationFilter::Short, video, thresholds)
                <==> d <= thresholds.video_short_max_seconds
            &&& duration_matches(DurationFilter::Medium, video, thresholds)
                <==> thresholds.video_short_max_seconds < d <= thresholds.video_medium_max_seconds
            &&& duration_matches(DurationFilter::Long, video, thresholds)
                <==> d > thresholds.video_medium_max_seconds
        },
{
}

/// Which kinds of upload a playlist page shows. Deliberately not
/// `FeedFilter`, which also carries `Live`: a persisted filter the segmented
/// control cannot display is a filter nobody can turn off.
#[derive(Clone, Copy, Debug, PartialEq, Eq, Structural)]
pub enum PlaylistKind {
    All,
    Videos,
    Shorts,
}

/// A live upload counts as a video here: a playlist entry is something its
/// owner filed by hand, and hiding it under a chip it never named would
/// lose it.
pub open spec fn kind_matches(kind: PlaylistKind, video: Video) -> bool {
    match kind {
        PlaylistKind::All => true,
        PlaylistKind::Videos => !video.is_short,
        PlaylistKind::Shorts => video.is_short,
    }
}

impl PlaylistKind {
    pub fn label(self) -> (r: &'static str)
        ensures
            r@ == (match self {
                PlaylistKind::All => "All"@,
                PlaylistKind::Videos => "Videos"@,
                PlaylistKind::Shorts => "Shorts"@,
            }),
    {
        match self {
            PlaylistKind::All => "All",
            PlaylistKind::Videos => "Videos",
            PlaylistKind::Shorts => "Shorts",
        }
    }

    pub fn matches(self, video: &Video) -> (r: bool)
        ensures
            r == kind_matches(self, *video),
    {
        match self {
            PlaylistKind::All => true,
            PlaylistKind::Videos => !video.is_short,
            PlaylistKind::Shorts => video.is_short,
        }
    }
}

/// How one playlist is arranged: what it shows and in what order.
#[derive(Clone, Copy, Debug, PartialEq, Eq, Structural)]
pub struct PlaylistView {
    pub kind: PlaylistKind,
    pub only_unwatched: bool,
    pub duration: Option<DurationFilter>,
    pub sort: PlaylistSort,
    pub descending: bool,
}

impl Default for PlaylistView {
    fn default() -> (r: Self)
        ensures
            r == (PlaylistView {
                kind: PlaylistKind::All,
                only_unwatched: false,
                duration: None,
                sort: PlaylistSort::Added,
                descending: false,
            }),
    {
        PlaylistView {
            kind: PlaylistKind::All,
            only_unwatched: false,
            duration: None,
            sort: PlaylistSort::Added,
            descending: false,
        }
    }
}

/// Whether the kind and length filters keep a video: everything but the
/// watched filter.
pub open spec fn passes_filters(view: PlaylistView, video: Video, thresholds: DurationThresholds) -> bool {
    &&& kind_matches(view.kind, video)
    &&& match view.duration {
        Some(d) => duration_matches(d, video, thresholds),
        None => true,
    }
}

/// The videos the kind and length filters keep, in order.
pub open spec fn filtered(
    view: PlaylistView,
    videos: Seq<Video>,
    thresholds: DurationThresholds,
) -> Seq<Video>
    decreases videos.len(),
{
    if videos.len() == 0 {
        Seq::empty()
    } else {
        let rest = filtered(view, videos.drop_last(), thresholds);
        if passes_filters(view, videos.last(), thresholds) {
            rest.push(videos.last())
        } else {
            rest
        }
    }
}

/// Whether the watched filter keeps a video on screen.
pub open spec fn shown(view: PlaylistView, video: Video) -> bool {
    !view.only_unwatched || !video.watched
}

/// The first position from `from` on that holds the video `id`.
pub open spec fn position_of(order: Seq<Video>, id: Seq<char>, from: int) -> Option<int>
    decreases order.len() - from,
{
    if from < 0 || from >= order.len() {
        None
    } else if order[from].id@ == id {
        Some(from)
    } else {
        position_of(order, id, from + 1)
    }
}

/// The first position from `from` on whose video the watched filter
/// shows.
pub open spec fn first_shown(view: PlaylistView, order: Seq<Video>, from: int) -> Option<int>
    decreases order.len() - from,
{
    if from < 0 || from >= order.len() {
        None
    } else if shown(view, order[from]) {
        Some(from)
    } else {
        first_shown(view, order, from + 1)
    }
}

/// The last position before `to` whose video the watched filter shows.
pub open spec fn last_shown_before(view: PlaylistView, order: Seq<Video>, to: int) -> Option<int>
    decreases to,
{
    if to <= 0 || to > order.len() {
        None
    } else if shown(view, order[to - 1]) {
        Some(to - 1)
    } else {
        last_shown_before(view, order, to - 1)
    }
}

/// What a run plays after `id` in `order`: the first shown video after it,
/// or from the top when `order` does not hold it.
pub open spec fn next_after_of(view: PlaylistView, order: Seq<Video>, id: Seq<char>) -> Option<
    Seq<char>,
> {
    let start = match position_of(order, id, 0) {
        Some(i) => i + 1,
        None => 0,
    };
    match first_shown(view, order, start) {
        Some(k) => Some(order[k].id@),
        None => None,
    }
}

/// What a run plays before `id` in `order`: the last shown video ahead of
/// it, and nothing for a video `order` does not hold.
pub open spec fn previous_before_of(view: PlaylistView, order: Seq<Video>, id: Seq<char>) -> Option<
    Seq<char>,
> {
    match position_of(order, id, 0) {
        Some(i) => match last_shown_before(view, order, i) {
            Some(k) => Some(order[k].id@),
            None => None,
        },
        None => None,
    }
}

/// An optional text by its characters.
pub open spec fn text_option(o: Option<String>) -> Option<Seq<char>> {
    match o {
        Some(s) => Some(s@),
        None => None,
    }
}

/// The filters in force, in words.
pub open spec fn filter_labels_of(view: PlaylistView) -> Seq<Seq<char>> {
    let kind: Seq<Seq<char>> = match view.kind {
        PlaylistKind::All => seq![],
        PlaylistKind::Videos => seq!["Videos only"@],
        PlaylistKind::Shorts => seq!["Shorts only"@],
    };
    let length: Seq<Seq<char>> = match view.duration {
        Some(d) => seq![duration_label_text(d) + " length"@],
        None => seq![],
    };
    let watched: Seq<Seq<char>> = if view.only_unwatched {
        seq!["Unwatched only"@]
    } else {
        seq![]
    };
    kind + length + watched
}

impl PlaylistView {
    /// Whether the watched filter keeps this video on screen.
    pub fn shows(&self, video: &Video) -> (r: bool)
        ensures
            r == shown(*self, *video),
    {
        !self.only_unwatched || !video.watched
    }

    /// The videos the kind and length filters keep, in order.
    pub fn filter_videos(&self, videos: &Vec<Video>, thresholds: &DurationThresholds) -> (r: Vec<
        Video,
    >)
        ensures
            r@ == filtered(*self, videos@, *thresholds),
    {
        let mut out: Vec<Video> = Vec::new();
        let mut i: usize = 0;
        while i < videos.len()
            invariant
                i <= videos.len(),
                out@ == filtered(*self, videos@.take(i as int), *thresholds),
            decreases videos.len() - i,
        {
            let v = &videos[i];
            let keep = self.kind.matches(v) && match self.duration {
                Some(d) => d.matches(v, thresholds),
                None => true,
            };
            assert(videos@.take(i + 1).drop_last() =~= videos@.take(i as int));
            if keep {
                out.push(v.clone());
            }
            i = i + 1;
        }
        assert(videos@.take(videos.len() as int) =~= videos@);
        out
    }

    /// Kind and length filters plus the sort - everything except the
    /// watched filter, relative dates read at `now`.
    ///
    /// The watched filter is left out on purpose. A run finds its place by
    /// locating the video that just finished, and finishing a video is what
    /// marks it watched: dropping it here would lose the position and send
    /// the run back to the top. Apply `shows` on top of this order instead.
    pub fn arrange_at(&self, videos: &mut Vec<Video>, thresholds: &DurationThresholds, now: i64)
        requires
            self.sort == PlaylistSort::Published ==> all_date_cleanly(old(videos)@),
            now >= i64::MIN + 86_400,
        ensures
            sorted_as(
                self.sort,
                filtered(*self, old(videos)@, *thresholds),
                self.descending,
                now as int,
                final(videos)@,
            ),
    {
        let kept = self.filter_videos(videos, thresholds);
        proof {
            lemma_filtered_within(*self, videos@, *thresholds);
        }
        *videos = kept;
        self.sort.apply_at(videos, self.descending, now);
    }

    /// Kind and length filters plus the sort, relative dates read against
    /// the system clock.
    pub fn arrange(&self, videos: &mut Vec<Video>, thresholds: &DurationThresholds)
        requires
            self.sort == PlaylistSort::Published ==> all_date_cleanly(old(videos)@),
        ensures
            exists|now: int|
                i64::MIN + 86_400 <= now <= i64::MAX && sorted_as(
                    self.sort,
                    filtered(*self, old(videos)@, *thresholds),
                    self.descending,
                    now,
                    final(videos)@,
                ),
    {
        let now = clock_now();
        self.arrange_at(videos, thresholds, now);
    }

    /// What a run plays after `current_video_id`, given an arranged order.
    /// A current video that is not in `order` means the run has not started
    /// yet, so it begins at the top.
    pub fn next_after(&self, order: &[Video], current_video_id: &str) -> (r: Option<String>)
        ensures
            text_option(r) == next_after_of(*self, order@, current_video_id@),
    {
        let start = match position_in(order, current_video_id) {
            Some(i) => {
                assert(i < order.len());
                i + 1
            },
            None => 0,
        };
        let mut k = start;
        while k < order.len()
            invariant
                start <= k <= order@.len(),
                start as int == (match position_of(order@, current_video_id@, 0) {
                    Some(i) => i + 1,
                    None => 0,
                }),
                first_shown(*self, order@, start as int) == first_shown(*self, order@, k as int),
            decreases order.len() - k,
        {
            if self.shows(&order[k]) {
                return Some(order[k].id.clone());
            }
            k = k + 1;
        }
        None
    }

    /// What a run plays before `current_video_id`: nothing once nothing
    /// shown is ahead of it, and nothing for a video the playlist does not
    /// hold.
    pub fn previous_before(&self, order: &[Video], current_video_id: &str) -> (r: Option<String>)
        ensures
            text_option(r) == previous_before_of(*self, order@, current_video_id@),
    {
        let index = match position_in(order, current_video_id) {
            Some(i) => i,
            None => return None,
        };
        let mut k = index;
        while k > 0
            invariant
                k <= index < order@.len(),
                position_of(order@, current_video_id@, 0) == Some(index as int),
                last_shown_before(*self, order@, index as int) == last_shown_before(
                    *self,
                    order@,
                    k as int,
                ),
            decreases k,
        {
            if self.shows(&order[k - 1]) {
                return Some(order[k - 1].id.clone());
            }
            k = k - 1;
        }
        None
    }

    /// Whether anything is being hidden: "nothing matches" and "nothing
    /// saved" are different problems for an empty page to explain.
    pub fn is_filtered(&self) -> (r: bool)
        ensures
            r == (self.only_unwatched || self.duration is Some || self.kind != PlaylistKind::All),
    {
        self.only_unwatched || self.duration.is_some() || self.kind != PlaylistKind::All
    }

    /// The filters in force, in words. Empty when nothing is hidden.
    pub fn filter_labels(&self) -> (r: Vec<String>)
        ensures
            r@.map_values(|s: String| s@) == filter_labels_of(*self),
    {
        let mut labels: Vec<String> = Vec::new();
        match self.kind {
            PlaylistKind::All => {},
            PlaylistKind::Videos => labels.push("Videos only".to_string()),
            PlaylistKind::Shorts => labels.push("Shorts only".to_string()),
        }
        match self.duration {
            Some(d) => {
                let mut text = chars_of(d.label());
                crate::text::push_str(&mut text, " length");
                labels.push(string_of(text.as_slice()));
            },
            None => {},
        }
        if self.only_unwatched {
            labels.push("Unwatched only".to_string());
        }
        assert(labels@.map_values(|s: String| s@) =~= filter_labels_of(*self));
        labels
    }
}

pub proof fn lemma_filtered_within(view: PlaylistView, videos: Seq<Video>, thresholds: DurationThresholds)
    ensures
        forall|i: int|
            0 <= i < filtered(view, videos, thresholds).len() ==> exists|j: int|
                0 <= j < videos.len() && #[trigger] filtered(view, videos, thresholds)[i]
                    == videos[j],
    decreases videos.len(),
{
    if videos.len() > 0 {
        lemma_filtered_within(view, videos.drop_last(), thresholds);
        let rest = filtered(view, videos.drop_last(), thresholds);
        assert forall|i: int| 0 <= i < filtered(view, videos, thresholds).len() implies exists|j: int|
            0 <= j < videos.len() && #[trigger] filtered(view, videos, thresholds)[i]
                == videos[j] by {
            if i < rest.len() {
                let j = choose|j: int| 0 <= j < videos.drop_last().len() && rest[i] == videos.drop_last()[j];
                assert(videos[j] == videos.drop_last()[j]);
            } else {
                assert(filtered(view, videos, thresholds)[i] == videos[videos.len() - 1]);
            }
        }
    }
}

/// Where the video `id` first stands in `order`.
pub fn position_in(order: &[Video], id: &str) -> (r: Option<usize>)
    ensures
        r matches Some(i) ==> position_of(order@, id@, 0) == Some(i as int) && i < order@.len(),
        r is None ==> position_of(order@, id@, 0) is None,
{
    let mut i: usize = 0;
    let target = id.to_string();
    while i < order.len()
        invariant
            i <= order@.len(),
            target@ == id@,
            position_of(order@, id@, 0) == position_of(order@, id@, i as int),
        decreases order.len() - i,
    {
        if order[i].id == target {
            return Some(i);
        }
        i = i + 1;
    }
    None
}

/// The queue entry that stands for "the rest of a playlist" begins with
/// this marker. A YouTube video id is eleven characters of
/// `[A-Za-z0-9_-]`, so the `:` can never collide with one.
pub open spec fn playlist_queue_prefix() -> Seq<char> {
    "playlist:"@
}

/// The playlist a queue entry stands for, or `None` for a plain video id.
pub open spec fn queued_playlist_of(entry: Seq<char>) -> Option<Seq<char>> {
    if crate::text::starts_with(entry, playlist_queue_prefix()) {
        Some(entry.skip(playlist_queue_prefix().len() as int))
    } else {
        None
    }
}

/// The queue entry that stands for the rest of playlist `playlist_id`.
pub fn playlist_queue_entry(playlist_id: &str) -> (r: String)
    ensures
        r@ == playlist_queue_prefix() + playlist_id@,
{
    let mut out = chars_of("playlist:");
    crate::text::push_str(&mut out, playlist_id);
    string_of(out.as_slice())
}

/// The playlist a queue entry stands for, or `None` when it is a plain
/// video id.
pub fn queued_playlist_id(entry: &str) -> (r: Option<&str>)
    ensures
        text_slice_option(r) == queued_playlist_of(entry@),
{
    let cs = chars_of(entry);
    let prefix = chars_of("playlist:");
    if crate::text::has_prefix(&cs, &prefix) {
        Some(entry.substring_char(prefix.len(), cs.len()))
    } else {
        None
    }
}

/// An optional string slice by its characters.
pub open spec fn text_slice_option(o: Option<&str>) -> Option<Seq<char>> {
    match o {
        Some(s) => Some(s@),
        None => None,
    }
}

/// A queue entry made for a playlist reads back as that playlist.
pub proof fn law_queue_entry_round_trip(playlist_id: Seq<char>)
    ensures
        queued_playlist_of(playlist_queue_prefix() + playlist_id) == Some(playlist_id),
{
    let entry = playlist_queue_prefix() + playlist_id;
    assert(entry.take(playlist_queue_prefix().len() as int) =~= playlist_queue_prefix());
    assert(entry.skip(playlist_queue_prefix().len() as int) =~= playlist_id);
}

/// An entry without a `:` - every YouTube video id - is never read as a
/// playlist run.
pub proof fn law_video_id_is_not_a_run(entry: Seq<char>)
    requires
        forall|i: int| 0 <= i < entry.len() ==> entry[i] != ':',
    ensures
        queued_playlist_of(entry) is None,
{
    reveal_strlit("playlist:");
    if crate::text::starts_with(entry, playlist_queue_prefix()) {
        assert(entry.take(9)[8] == ':');
        assert(entry[8] == ':');
    }
}

/// Whether no two videos of `order` share an id.
pub open spec fn distinct_ids(order: Seq<Video>) -> bool {
    forall|a: int, b: int| 0 <= a < b < order.len() ==> order[a].id@ != order[b].id@
}

pub proof fn lemma_position_of_distinct(order: Seq<Video>, i: int, from: int)
    requires
        distinct_ids(order),
        0 <= from <= i < order.len(),
    ensures
        position_of(order, order[i].id@, from) == Some(i),
    decreases i - from,
{
    if from < i {
        assert(order[from].id@ != order[i].id@);
        lemma_position_of_distinct(order, i, from + 1);
    }
}

pub proof fn lemma_first_shown(view: PlaylistView, order: Seq<Video>, from: int)
    requires
        0 <= from,
    ensures
        first_shown(view, order, from) matches Some(k) ==> from <= k < order.len() && shown(
            view,
            order[k],
        ) && forall|t: int| from <= t < k ==> !shown(view, #[trigger] order[t]),
    decreases order.len() - from,
{
    if from < order.len() && !shown(view, order[from]) {
        lemma_first_shown(view, order, from + 1);
    }
}

pub proof fn lemma_last_shown_before(view: PlaylistView, order: Seq<Video>, i: int, to: int)
    requires
        0 <= i < to <= order.len(),
        shown(view, order[i]),
        forall|t: int| i < t < to ==> !shown(view, #[trigger] order[t]),
    ensures
        last_shown_before(view, order, to) == Some(i),
    decreases to,
{
    if to - 1 > i {
        lemma_last_shown_before(view, order, i, to - 1);
    }
}

/// A run steps back to where it came from: in an order whose ids are
/// distinct, going back from what follows a shown video returns to that
/// video.
pub proof fn law_previous_undoes_next(view: PlaylistView, order: Seq<Video>, i: int)
    requires
        distinct_ids(order),
        0 <= i < order.len(),
        shown(view, order[i]),
    ensures
        next_after_of(view, order, order[i].id@) matches Some(next) ==> previous_before_of(
            view,
            order,
            next,
        ) == Some(order[i].id@),
{
    lemma_position_of_distinct(order, i, 0);
    lemma_first_shown(view, order, i + 1);
    if let Some(k) = first_shown(view, order, i + 1) {
        lemma_position_of_distinct(order, k, 0);
        lemma_last_shown_before(view, order, i, k);
    }
}

} // verus!
