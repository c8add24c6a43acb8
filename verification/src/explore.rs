//! The search page's answers from the local library: what matches a query,
//! what stands in for one when there is none, and how much of it is on
//! screen.
use vstd::prelude::*;
use crate::channel::Channel;
use crate::library::{HistoryEntry, SearchResults};
use crate::dates::published_epoch_of;
use crate::playlist::{all_date_cleanly, ExploreFilter};
use crate::sorting::{is_permutation, is_stable_sort, rearranged, stable_sort_by_keys, stably_sorted, KeyView, SortKey};
use crate::text::{chars_of, contains, contains_run, to_lowercase, unicode_lowercase};
use crate::video::Video;

verus! {

/// How many recent videos stand in for a query on an empty search page.
pub const SUGGESTION_COUNT: usize = 24;

/// How many matches a query lays out before the reader asks for more. A
/// one-letter query matches most of a real library, and the page has to
/// grow with what the reader can see, not with the size of the cache.
pub const RESULT_PAGE_SIZE: usize = 24;

/// What the search page reads from the local library.
pub struct LibrarySnapshot {
    pub videos: Vec<Video>,
    pub channels: Vec<Channel>,
    /// Most recent first.
    pub history: Vec<HistoryEntry>,
}

/// Whether `text`, lowercased, holds `needle`.
pub open spec fn mentions_lowered(text: Seq<char>, needle: Seq<char>) -> bool {
    contains_run(unicode_lowercase(text), needle)
}

/// Whether a video matches a lowercased query, by its title or channel.
pub open spec fn video_matches(v: Video, needle: Seq<char>) -> bool {
    mentions_lowered(v.title@, needle) || mentions_lowered(v.channel_name@, needle)
}

/// Whether a channel matches a lowercased query, by its name or handle.
pub open spec fn channel_matches(c: Channel, needle: Seq<char>) -> bool {
    mentions_lowered(c.name@, needle) || mentions_lowered(c.handle@, needle)
}

/// The videos that match `needle`, in library order.
pub open spec fn matching_videos(videos: Seq<Video>, needle: Seq<char>) -> Seq<Video>
    decreases videos.len(),
{
    if videos.len() == 0 {
        Seq::empty()
    } else {
        let rest = matching_videos(videos.drop_last(), needle);
        if video_matches(videos.last(), needle) {
            rest.push(videos.last())
        } else {
            rest
        }
    }
}

/// The channels that match `needle`, in library order.
pub open spec fn matching_channels(channels: Seq<Channel>, needle: Seq<char>) -> Seq<Channel>
    decreases channels.len(),
{
    if channels.len() == 0 {
        Seq::empty()
    } else {
        let rest = matching_channels(channels.drop_last(), needle);
        if channel_matches(channels.last(), needle) {
            rest.push(channels.last())
        } else {
            rest
        }
    }
}

/// Whether `text` lowercased holds `needle`.
fn mentions(text: &String, needle: &Vec<char>) -> (r: bool)
    ensures
        r == mentions_lowered(text@, needle@),
{
    let lower = to_lowercase(text.as_str());
    let cs = chars_of(lower.as_str());
    contains(&cs, needle)
}

/// The videos of `videos` that match the lowercased query `needle`.
pub fn videos_matching(videos: &Vec<Video>, needle: &str) -> (r: Vec<Video>)
    ensures
        r@ == matching_videos(videos@, needle@),
{
    let n = chars_of(needle);
    let mut out: Vec<Video> = Vec::new();
    let mut i: usize = 0;
    while i < videos.len()
        invariant
            i <= videos.len(),
            n@ == needle@,
            out@ == matching_videos(videos@.take(i as int), needle@),
        decreases videos.len() - i,
    {
        let v = &videos[i];
        let keep = mentions(&v.title, &n) || mentions(&v.channel_name, &n);
        assert(videos@.take(i + 1).drop_last() =~= videos@.take(i as int));
        if keep {
            out.push(v.clone());
        }
        i = i + 1;
    }
    assert(videos@.take(videos.len() as int) =~= videos@);
    out
}

/// The channels of `channels` that match the lowercased query `needle`.
pub fn channels_matching(channels: &Vec<Channel>, needle: &str) -> (r: Vec<Channel>)
    ensures
        r@ == matching_channels(channels@, needle@),
{
    let n = chars_of(needle);
    let mut out: Vec<Channel> = Vec::new();
    let mut i: usize = 0;
    while i < channels.len()
        invariant
            i <= channels.len(),
            n@ == needle@,
            out@ == matching_channels(channels@.take(i as int), needle@),
        decreases channels.len() - i,
    {
        let c = &channels[i];
        let keep = mentions(&c.name, &n) || mentions(&c.handle, &n);
        assert(channels@.take(i + 1).drop_last() =~= channels@.take(i as int));
        if keep {
            out.push(c.clone());
        }
        i = i + 1;
    }
    assert(channels@.take(channels.len() as int) =~= channels@);
    out
}

/// The first `page` of `s`, or all of it where it is shorter.
pub open spec fn first_page<T>(s: Seq<T>, page: nat) -> Seq<T> {
    if page < s.len() {
        s.take(page as int)
    } else {
        s
    }
}

/// How many of `len` items are left off a page of `page`.
pub open spec fn left_off(len: nat, page: nat) -> nat {
    if len > page {
        (len - page) as nat
    } else {
        0
    }
}

/// The first `page` of each list under `filter`, with the total the filter
/// left and how many of those are still off the page. The total is counted
/// before paging, so the line above the results reports what the query
/// found rather than how much of it is on screen.
pub fn paged(
    videos: Vec<Video>,
    channels: Vec<Channel>,
    filter: ExploreFilter,
    page: usize,
) -> (r: (Vec<Video>, Vec<Channel>, usize, usize))
    requires
        videos@.len() + channels@.len() <= usize::MAX,
    ensures
        ({
            let vs = if filter == ExploreFilter::Channels {
                Seq::<Video>::empty()
            } else {
                videos@
            };
            let cs = if filter == ExploreFilter::Videos {
                Seq::<Channel>::empty()
            } else {
                channels@
            };
            &&& r.0@ == first_page(vs, page as nat)
            &&& r.1@ == first_page(cs, page as nat)
            &&& r.2 == vs.len() + cs.len()
            &&& r.3 == left_off(vs.len(), page as nat) + left_off(cs.len(), page as nat)
        }),
{
    let mut videos = videos;
    let mut channels = channels;
    match filter {
        ExploreFilter::Videos => channels.clear(),
        ExploreFilter::Channels => videos.clear(),
        ExploreFilter::All => {},
    }
    let result_count = videos.len() + channels.len();
    let remaining = videos.len().saturating_sub(page) + channels.len().saturating_sub(page);
    if page < videos.len() {
        videos.truncate(page);
    }
    if page < channels.len() {
        channels.truncate(page);
    }
    (videos, channels, result_count, remaining)
}


/// Whether the channel `id` is one `channels` marks as followed.
pub open spec fn is_followed(channels: Seq<Channel>, id: Seq<char>) -> bool {
    exists|k: int| 0 <= k < channels.len() && channels[k].subscribed && #[trigger] channels[k].id@ == id
}

/// Whether a video may stand in for a query: unwatched, from a followed
/// channel.
pub open spec fn suggestable(channels: Seq<Channel>, v: Video) -> bool {
    is_followed(channels, v.channel_id@) && !v.watched
}

/// The videos that may stand in for a query, in library order.
pub open spec fn suggestable_videos(videos: Seq<Video>, channels: Seq<Channel>) -> Seq<Video>
    decreases videos.len(),
{
    if videos.len() == 0 {
        Seq::empty()
    } else {
        let rest = suggestable_videos(videos.drop_last(), channels);
        if suggestable(channels, videos.last()) {
            rest.push(videos.last())
        } else {
            rest
        }
    }
}

/// Newest first: each video keyed by its publish time turned around.
pub open spec fn recency_key(v: Video, now: int) -> KeyView {
    KeyView::Number(-published_epoch_of(v.published_at@, now))
}

pub open spec fn recency_keys(videos: Seq<Video>, now: int) -> Seq<KeyView> {
    videos.map_values(|v: Video| recency_key(v, now))
}

/// Where the last video with id `id` stands among the first `upto` of
/// `videos`: a lookup table built from the library in order keeps the
/// last of each id.
pub open spec fn last_position(videos: Seq<Video>, id: Seq<char>, upto: int) -> Option<int>
    decreases upto,
{
    if upto <= 0 || upto > videos.len() {
        None
    } else if videos[upto - 1].id@ == id {
        Some(upto - 1)
    } else {
        last_position(videos, id, upto - 1)
    }
}

/// Whether the history entry `e` played a video of channel `channel`.
pub open spec fn played_from(videos: Seq<Video>, e: HistoryEntry, channel: Seq<char>) -> bool {
    match last_position(videos, e.video_id@, videos.len() as int) {
        Some(p) => videos[p].channel_id@ == channel,
        None => false,
    }
}

/// How many of the first `upto` history entries played a video of
/// `channel`: the viewer's affinity for it. History records distinct
/// videos, so this counts videos rather than replays.
pub open spec fn affinity_upto(
    videos: Seq<Video>,
    history: Seq<HistoryEntry>,
    channel: Seq<char>,
    upto: int,
) -> nat
    decreases upto,
{
    if upto <= 0 || upto > history.len() {
        0
    } else {
        affinity_upto(videos, history, channel, upto - 1) + if played_from(
            videos,
            history[upto - 1],
            channel,
        ) {
            1nat
        } else {
            0nat
        }
    }
}

pub open spec fn affinity(videos: Seq<Video>, history: Seq<HistoryEntry>, channel: Seq<char>) -> nat {
    affinity_upto(videos, history, channel, history.len() as int)
}

/// Most familiar first: each video keyed by its channel's affinity turned
/// around.
pub open spec fn familiarity_keys(
    ranked: Seq<Video>,
    videos: Seq<Video>,
    history: Seq<HistoryEntry>,
) -> Seq<KeyView> {
    ranked.map_values(|v: Video| KeyView::Number(-(affinity(videos, history, v.channel_id@) as int)))
}

/// Which video fills suggestion slot `index`: every third slot the next
/// most familiar, the others the next most recent.
pub open spec fn suggestion_slot(recent: Seq<Video>, familiar: Seq<Video>, index: int) -> Option<Video> {
    if index % 3 == 2 {
        if index / 3 < familiar.len() {
            Some(familiar[index / 3])
        } else {
            None
        }
    } else {
        if index - index / 3 < recent.len() {
            Some(recent[index - index / 3])
        } else {
            None
        }
    }
}

/// Whether `ranked` already holds a video with id `id`.
pub open spec fn holds_id(ranked: Seq<Video>, id: Seq<char>) -> bool {
    exists|k: int| 0 <= k < ranked.len() && #[trigger] ranked[k].id@ == id
}

/// `ranked` with `v` added, unless a video with its id is already there.
pub open spec fn with_new(ranked: Seq<Video>, v: Video) -> Seq<Video> {
    if holds_id(ranked, v.id@) {
        ranked
    } else {
        ranked.push(v)
    }
}

/// The first `upto` suggestion slots, each filled unless its video is
/// already there.
pub open spec fn interleaved(recent: Seq<Video>, familiar: Seq<Video>, upto: int) -> Seq<Video>
    decreases upto,
{
    if upto <= 0 {
        Seq::empty()
    } else {
        let before = interleaved(recent, familiar, upto - 1);
        match suggestion_slot(recent, familiar, upto - 1) {
            Some(v) => with_new(before, v),
            None => before,
        }
    }
}

/// `ranked` topped up from `pool`, from `from` on, with videos not yet
/// there until it holds `SUGGESTION_COUNT`.
pub open spec fn topped_up(pool: Seq<Video>, ranked: Seq<Video>, from: int) -> Seq<Video>
    decreases pool.len() - from,
{
    if from < 0 || from >= pool.len() || ranked.len() >= SUGGESTION_COUNT {
        ranked
    } else {
        topped_up(pool, with_new(ranked, pool[from]), from + 1)
    }
}

/// The suggestions made of the newest videos `sorted` and the same videos
/// most familiar first, `familiar`: recent ones kept fresh, with missed
/// uploads from channels the viewer returns to mixed in.
pub open spec fn ranked_suggestions(sorted: Seq<Video>, familiar: Seq<Video>) -> Seq<Video> {
    let recent = if sorted.len() > SUGGESTION_COUNT {
        sorted.take(SUGGESTION_COUNT as int)
    } else {
        sorted
    };
    topped_up(recent + familiar, interleaved(recent, familiar, SUGGESTION_COUNT as int), 0)
}

/// Whether `result` is what stands in for a query on an empty search page,
/// relative dates read at `now`.
pub open spec fn suggestions_of(library: LibrarySnapshot, now: int, result: Seq<Video>) -> bool {
    let candidates = suggestable_videos(library.videos@, library.channels@);
    exists|sorted: Seq<Video>, familiar: Seq<Video>|
        #[trigger] is_stable_sort(candidates, recency_keys(candidates, now), sorted)
            && #[trigger] is_stable_sort(
            sorted,
            familiarity_keys(sorted, library.videos@, library.history@),
            familiar,
        ) && result == ranked_suggestions(sorted, familiar)
}


/// Whether the channel `id` is one `channels` marks as followed.
fn channel_is_followed(channels: &Vec<Channel>, id: &String) -> (r: bool)
    ensures
        r == is_followed(channels@, id@),
{
    let mut k: usize = 0;
    while k < channels.len()
        invariant
            k <= channels.len(),
            forall|j: int| 0 <= j < k ==> !(channels@[j].subscribed && #[trigger] channels@[j].id@ == id@),
        decreases channels.len() - k,
    {
        if channels[k].subscribed && channels[k].id == *id {
            return true;
        }
        k = k + 1;
    }
    false
}

/// The videos of `videos` that may stand in for a query.
fn suggestable_from(videos: &Vec<Video>, channels: &Vec<Channel>) -> (r: Vec<Video>)
    ensures
        r@ == suggestable_videos(videos@, channels@),
{
    let mut out: Vec<Video> = Vec::new();
    let mut i: usize = 0;
    while i < videos.len()
        invariant
            i <= videos.len(),
            out@ == suggestable_videos(videos@.take(i as int), channels@),
        decreases videos.len() - i,
    {
        let v = &videos[i];
        let keep = !v.watched && channel_is_followed(channels, &v.channel_id);
        assert(videos@.take(i + 1).drop_last() =~= videos@.take(i as int));
        if keep {
            out.push(v.clone());
        }
        i = i + 1;
    }
    assert(videos@.take(videos.len() as int) =~= videos@);
    out
}

/// Where the last video with id `id` stands in `videos`.
pub fn last_position_of(videos: &Vec<Video>, id: &String) -> (r: Option<usize>)
    ensures
        match last_position(videos@, id@, videos@.len() as int) {
            Some(p) => r == Some(p as usize),
            None => r is None,
        },
{
    let mut upto: usize = videos.len();
    while upto > 0
        invariant
            upto <= videos.len(),
            last_position(videos@, id@, videos@.len() as int) == last_position(videos@, id@, upto as int),
        decreases upto,
    {
        if videos[upto - 1].id == *id {
            return Some(upto - 1);
        }
        upto = upto - 1;
    }
    None
}

/// Where the video of each history entry stands in `videos`.
fn history_positions(videos: &Vec<Video>, history: &Vec<HistoryEntry>) -> (r: Vec<Option<usize>>)
    ensures
        r@.len() == history@.len(),
        forall|k: int|
            0 <= k < history@.len() ==> match last_position(
                videos@,
                history@[k].video_id@,
                videos@.len() as int,
            ) {
                Some(p) => #[trigger] r@[k] == Some(p as usize),
                None => r@[k] is None,
            },
{
    let mut out: Vec<Option<usize>> = Vec::new();
    let mut k: usize = 0;
    while k < history.len()
        invariant
            k <= history.len(),
            out@.len() == k,
            forall|j: int|
                0 <= j < k ==> match last_position(videos@, history@[j].video_id@, videos@.len() as int) {
                    Some(p) => #[trigger] out@[j] == Some(p as usize),
                    None => out@[j] is None,
                },
        decreases history.len() - k,
    {
        let p = last_position_of(videos, &history[k].video_id);
        out.push(p);
        k = k + 1;
    }
    out
}

/// The viewer's affinity for `channel`, from the positions of the history
/// entries' videos.
fn affinity_from(
    videos: &Vec<Video>,
    history: &Vec<HistoryEntry>,
    positions: &Vec<Option<usize>>,
    channel: &String,
) -> (r: usize)
    requires
        positions@.len() == history@.len(),
        forall|k: int|
            0 <= k < history@.len() ==> match last_position(
                videos@,
                history@[k].video_id@,
                videos@.len() as int,
            ) {
                Some(p) => #[trigger] positions@[k] == Some(p as usize),
                None => positions@[k] is None,
            },
    ensures
        r == affinity(videos@, history@, channel@),
{
    let n = videos.len();
    let mut count: usize = 0;
    let mut k: usize = 0;
    while k < positions.len()
        invariant
            n == videos@.len(),
            k <= positions.len() == history@.len(),
            count <= k,
            count == affinity_upto(videos@, history@, channel@, k as int),
            forall|j: int|
                0 <= j < history@.len() ==> match last_position(
                    videos@,
                    history@[j].video_id@,
                    videos@.len() as int,
                ) {
                    Some(p) => #[trigger] positions@[j] == Some(p as usize),
                    None => positions@[j] is None,
                },
        decreases positions.len() - k,
    {
        let ghost lp = last_position(videos@, history@[k as int].video_id@, videos@.len() as int);
        proof {
            lemma_last_position_within(videos@, history@[k as int].video_id@, videos@.len() as int);
            assert(match lp {
                Some(q) => positions@[k as int] == Some(q as usize),
                None => positions@[k as int] is None,
            });
        }
        let hit = match positions[k] {
            Some(p) => {
                assert(lp == Some(p as int));
                videos[p].channel_id == *channel
            },
            None => false,
        };
        assert(hit == played_from(videos@, history@[k as int], channel@));
        if hit {
            count = count + 1;
        }
        k = k + 1;
    }
    count
}

/// A last position is a position of the list.
pub proof fn lemma_last_position_within(videos: Seq<Video>, id: Seq<char>, upto: int)
    ensures
        match last_position(videos, id, upto) {
            Some(p) => 0 <= p < upto && p < videos.len(),
            None => true,
        },
    decreases upto,
{
    if upto > 0 && upto <= videos.len() && videos[upto - 1].id@ != id {
        lemma_last_position_within(videos, id, upto - 1);
    }
}

/// Whether `ranked` already holds a video with id `id`.
fn holds_id_of(ranked: &Vec<Video>, id: &String) -> (r: bool)
    ensures
        r == holds_id(ranked@, id@),
{
    let mut k: usize = 0;
    while k < ranked.len()
        invariant
            k <= ranked.len(),
            forall|j: int| 0 <= j < k ==> #[trigger] ranked@[j].id@ != id@,
        decreases ranked.len() - k,
    {
        if ranked[k].id == *id {
            return true;
        }
        k = k + 1;
    }
    false
}

/// Add `v` to `ranked` unless a video with its id is already there.
fn push_new(ranked: &mut Vec<Video>, v: &Video)
    ensures
        final(ranked)@ == with_new(old(ranked)@, *v),
{
    if !holds_id_of(ranked, &v.id) {
        ranked.push(v.clone());
    }
}


/// `shown` with the videos of `page` added in order, each unless a video
/// with its id is already there.
pub open spec fn merged_videos(shown: Seq<Video>, page: Seq<Video>) -> Seq<Video>
    decreases page.len(),
{
    if page.len() == 0 {
        shown
    } else {
        with_new(merged_videos(shown, page.drop_last()), page.last())
    }
}

/// Whether `channels` already holds a channel with id `id`.
pub open spec fn holds_channel(channels: Seq<Channel>, id: Seq<char>) -> bool {
    exists|k: int| 0 <= k < channels.len() && #[trigger] channels[k].id@ == id
}

/// `shown` with the channels of `page` added in order, each unless a
/// channel with its id is already there.
pub open spec fn merged_channels(shown: Seq<Channel>, page: Seq<Channel>) -> Seq<Channel>
    decreases page.len(),
{
    if page.len() == 0 {
        shown
    } else {
        let before = merged_channels(shown, page.drop_last());
        if holds_channel(before, page.last().id@) {
            before
        } else {
            before.push(page.last())
        }
    }
}

/// Add `c` to `channels` unless a channel with its id is already there.
fn push_new_channel(channels: &mut Vec<Channel>, c: &Channel)
    ensures
        final(channels)@ == (if holds_channel(old(channels)@, c.id@) {
            old(channels)@
        } else {
            old(channels)@.push(*c)
        }),
{
    let mut k: usize = 0;
    while k < channels.len()
        invariant
            k <= channels.len(),
            forall|j: int| 0 <= j < k ==> #[trigger] channels@[j].id@ != c.id@,
        decreases channels.len() - k,
    {
        if channels[k].id == c.id {
            return;
        }
        k = k + 1;
    }
    channels.push(c.clone());
}

/// Takes the next page of a search into the results on screen: its videos
/// and channels are added after those shown, less any whose id is already
/// there, and its continuation replaces the old one.
pub fn merge_next_page(current: &mut SearchResults, page: SearchResults)
    ensures
        *final(current) == (SearchResults {
            videos: final(current).videos,
            channels: final(current).channels,
            next_page: page.next_page,
            ..*old(current)
        }),
        final(current).videos@ == merged_videos(old(current).videos@, page.videos@),
        final(current).channels@ == merged_channels(old(current).channels@, page.channels@),
{
    let ghost shown_videos = current.videos@;
    let ghost shown_channels = current.channels@;
    let mut i: usize = 0;
    while i < page.videos.len()
        invariant
            i <= page.videos.len(),
            current.videos@ == merged_videos(shown_videos, page.videos@.take(i as int)),
            current.channels@ == shown_channels,
            current.query == old(current).query,
            current.suggestion == old(current).suggestion,
            current.remote_available == old(current).remote_available,
            current.next_page == old(current).next_page,
        decreases page.videos.len() - i,
    {
        assert(page.videos@.take(i + 1).drop_last() =~= page.videos@.take(i as int));
        push_new(&mut current.videos, &page.videos[i]);
        i = i + 1;
    }
    assert(page.videos@.take(page.videos.len() as int) =~= page.videos@);
    let mut j: usize = 0;
    while j < page.channels.len()
        invariant
            j <= page.channels.len(),
            current.videos@ == merged_videos(shown_videos, page.videos@),
            current.channels@ == merged_channels(shown_channels, page.channels@.take(j as int)),
            current.query == old(current).query,
            current.suggestion == old(current).suggestion,
            current.remote_available == old(current).remote_available,
            current.next_page == old(current).next_page,
        decreases page.channels.len() - j,
    {
        assert(page.channels@.take(j + 1).drop_last() =~= page.channels@.take(j as int));
        push_new_channel(&mut current.channels, &page.channels[j]);
        j = j + 1;
    }
    assert(page.channels@.take(page.channels.len() as int) =~= page.channels@);
    current.next_page = page.next_page;
}

/// Loading more search results never shows a video twice: where the page
/// on screen holds each id once, so does the page after the merge, and
/// every video of the new page is there by its id.
pub proof fn law_merge_shows_each_video_once(shown: Seq<Video>, page: Seq<Video>)
    requires
        distinct_video_ids(shown),
    ensures
        distinct_video_ids(merged_videos(shown, page)),
        merged_videos(shown, page).len() >= shown.len(),
        forall|k: int| 0 <= k < shown.len() ==> merged_videos(shown, page)[k] == #[trigger] shown[k],
        forall|k: int| 0 <= k < page.len() ==> holds_id(merged_videos(shown, page), #[trigger] page[k].id@),
    decreases page.len(),
{
    if page.len() > 0 {
        let rest = page.drop_last();
        law_merge_shows_each_video_once(shown, rest);
        let before = merged_videos(shown, rest);
        let v = page.last();
        assert forall|k: int| 0 <= k < shown.len() implies merged_videos(shown, page)[k] == #[trigger] shown[k] by {
            assert(before[k] == shown[k]);
        }
        assert forall|k: int| 0 <= k < page.len() implies holds_id(merged_videos(shown, page), #[trigger] page[k].id@) by {
            if k < page.len() - 1 {
                assert(page[k] == rest[k]);
                assert(holds_id(before, rest[k].id@));
                let w = choose|w: int| 0 <= w < before.len() && #[trigger] before[w].id@ == rest[k].id@;
                assert(merged_videos(shown, page)[w] == before[w]);
            } else if !holds_id(before, v.id@) {
                assert(merged_videos(shown, page)[before.len() as int] == v);
            }
        }
    }
}

/// Once `ranked` is full, topping up adds nothing.
proof fn lemma_topped_up_full(pool: Seq<Video>, ranked: Seq<Video>, from: int)
    requires
        ranked.len() >= SUGGESTION_COUNT,
    ensures
        topped_up(pool, ranked, from) == ranked,
{
}

/// What the cache has for the lowercased query `needle`: matching videos
/// and channels, or with no query, suggestions to stand in for one,
/// relative publish dates read at `now`.
pub fn local_matches(library: &LibrarySnapshot, needle: &str, now: i64) -> (r: (Vec<Video>, Vec<Channel>))
    requires
        now >= i64::MIN + 86_400,
        needle@.len() == 0 ==> all_date_cleanly(suggestable_videos(library.videos@, library.channels@)),
    ensures
        needle@.len() > 0 ==> r.0@ == matching_videos(library.videos@, needle@) && r.1@
            == matching_channels(library.channels@, needle@),
        needle@.len() == 0 ==> r.1@.len() == 0 && suggestions_of(*library, now as int, r.0@),
{
    let n = chars_of(needle);
    if n.len() > 0 {
        let videos = videos_matching(&library.videos, needle);
        let channels = channels_matching(&library.channels, needle);
        return (videos, channels);
    }
    let candidates = suggestable_from(&library.videos, &library.channels);
    let ghost cands = candidates@;
    let mut keys: Vec<SortKey> = Vec::new();
    let mut i: usize = 0;
    while i < candidates.len()
        invariant
            candidates@ == cands,
            all_date_cleanly(cands),
            now >= i64::MIN + 86_400,
            i <= candidates.len(),
            keys@.len() == i,
            forall|k: int| 0 <= k < i ==> (#[trigger] keys@[k]).view() == recency_key(cands[k], now as int),
        decreases candidates.len() - i,
    {
        assert(cands[i as int].dates_cleanly());
        let epoch = candidates[i].published_epoch_at(now);
        keys.push(SortKey::Number(-(epoch as i128)));
        i = i + 1;
    }
    assert(keys@.map_values(|k: SortKey| k.view()) =~= recency_keys(cands, now as int));
    let mut sorted = candidates;
    stable_sort_by_keys(&mut sorted, keys);
    let ghost sorted_v = sorted@;

    // The most recent ones, kept fresh at the front.
    let mut recent: Vec<Video> = Vec::new();
    let mut i: usize = 0;
    while i < sorted.len() && i < SUGGESTION_COUNT
        invariant
            i <= sorted.len(),
            i <= SUGGESTION_COUNT,
            recent@ == sorted@.take(i as int),
        decreases sorted.len() - i,
    {
        recent.push(sorted[i].clone());
        i = i + 1;
    }
    assert(recent@ == (if sorted_v.len() > SUGGESTION_COUNT {
        sorted_v.take(SUGGESTION_COUNT as int)
    } else {
        sorted_v
    })) by {
        if sorted_v.len() <= SUGGESTION_COUNT {
            assert(sorted_v.take(sorted_v.len() as int) =~= sorted_v);
        }
    }

    // The same videos with the channels the viewer returns to first.
    let positions = history_positions(&library.videos, &library.history);
    let mut fkeys: Vec<SortKey> = Vec::new();
    let mut i: usize = 0;
    while i < sorted.len()
        invariant
            sorted@ == sorted_v,
            i <= sorted.len(),
            fkeys@.len() == i,
            positions@.len() == library.history@.len(),
            forall|k: int|
                0 <= k < library.history@.len() ==> match last_position(
                    library.videos@,
                    library.history@[k].video_id@,
                    library.videos@.len() as int,
                ) {
                    Some(p) => #[trigger] positions@[k] == Some(p as usize),
                    None => positions@[k] is None,
                },
            forall|k: int|
                0 <= k < i ==> (#[trigger] fkeys@[k]).view() == KeyView::Number(
                    -(affinity(library.videos@, library.history@, sorted_v[k].channel_id@) as int),
                ),
        decreases sorted.len() - i,
    {
        let a = affinity_from(&library.videos, &library.history, &positions, &sorted[i].channel_id);
        fkeys.push(SortKey::Number(-(a as i128)));
        i = i + 1;
    }
    assert(fkeys@.map_values(|k: SortKey| k.view()) =~= familiarity_keys(
        sorted_v,
        library.videos@,
        library.history@,
    ));
    let mut familiar = sorted;
    stable_sort_by_keys(&mut familiar, fkeys);

    // Every third slot from the familiar list, the rest from the recent one.
    let mut ranked: Vec<Video> = Vec::new();
    let mut index: usize = 0;
    while index < SUGGESTION_COUNT
        invariant
            index <= SUGGESTION_COUNT,
            ranked@ == interleaved(recent@, familiar@, index as int),
        decreases SUGGESTION_COUNT - index,
    {
        if index % 3 == 2 {
            if index / 3 < familiar.len() {
                push_new(&mut ranked, &familiar[index / 3]);
            }
        } else {
            if index - index / 3 < recent.len() {
                push_new(&mut ranked, &recent[index - index / 3]);
            }
        }
        index = index + 1;
    }

    // Then topped up from both lists in turn.
    let ghost pool = recent@ + familiar@;
    let ghost first = ranked@;
    let mut i: usize = 0;
    while i < recent.len() && ranked.len() < SUGGESTION_COUNT
        invariant
            pool == recent@ + familiar@,
            i <= recent.len(),
            topped_up(pool, first, 0) == topped_up(pool, ranked@, i as int),
        decreases recent.len() - i,
    {
        assert(pool[i as int] == recent@[i as int]);
        push_new(&mut ranked, &recent[i]);
        i = i + 1;
    }
    proof {
        if ranked@.len() >= SUGGESTION_COUNT {
            lemma_topped_up_full(pool, ranked@, recent@.len() as int);
            lemma_topped_up_full(pool, ranked@, i as int);
        }
    }
    let mut j: usize = 0;
    while j < familiar.len() && ranked.len() < SUGGESTION_COUNT
        invariant
            pool == recent@ + familiar@,
            j <= familiar.len(),
            topped_up(pool, first, 0) == topped_up(pool, ranked@, recent@.len() + j),
        decreases familiar.len() - j,
    {
        assert(pool[recent@.len() + j] == familiar@[j as int]);
        push_new(&mut ranked, &familiar[j]);
        j = j + 1;
    }
    proof {
        if ranked@.len() >= SUGGESTION_COUNT {
            lemma_topped_up_full(pool, ranked@, recent@.len() + j);
        }
        assert(is_stable_sort(cands, recency_keys(cands, now as int), sorted_v));
        assert(is_stable_sort(
            sorted_v,
            familiarity_keys(sorted_v, library.videos@, library.history@),
            familiar@,
        ));
        assert(ranked@ == ranked_suggestions(sorted_v, familiar@));
    }
    (ranked, Vec::new())
}


/// Whether no two videos of `s` share an id.
pub open spec fn distinct_video_ids(s: Seq<Video>) -> bool {
    forall|a: int, b: int| 0 <= a < b < s.len() ==> #[trigger] s[a].id@ != #[trigger] s[b].id@
}

/// Whether every video of `s` may stand in for a query.
pub open spec fn all_suggestable(channels: Seq<Channel>, s: Seq<Video>) -> bool {
    forall|i: int| 0 <= i < s.len() ==> suggestable(channels, #[trigger] s[i])
}

proof fn lemma_suggestable_videos(videos: Seq<Video>, channels: Seq<Channel>)
    ensures
        all_suggestable(channels, suggestable_videos(videos, channels)),
    decreases videos.len(),
{
    if videos.len() > 0 {
        lemma_suggestable_videos(videos.drop_last(), channels);
    }
}

proof fn lemma_rearranged_suggestable(channels: Seq<Channel>, items: Seq<Video>, result: Seq<Video>, keys: Seq<KeyView>)
    requires
        all_suggestable(channels, items),
        is_stable_sort(items, keys, result),
    ensures
        all_suggestable(channels, result),
{
    let p = choose|p: Seq<int>|
        is_permutation(p, items.len() as int) && stably_sorted(keys, p) && result == rearranged(items, p);
    assert forall|i: int| 0 <= i < result.len() implies suggestable(channels, #[trigger] result[i]) by {
        assert(result[i] == items[p[i]]);
    }
}

proof fn lemma_with_new(channels: Seq<Channel>, ranked: Seq<Video>, v: Video)
    requires
        distinct_video_ids(ranked),
        all_suggestable(channels, ranked),
        suggestable(channels, v),
    ensures
        distinct_video_ids(with_new(ranked, v)),
        all_suggestable(channels, with_new(ranked, v)),
        with_new(ranked, v).len() <= ranked.len() + 1,
{
    if !holds_id(ranked, v.id@) {
        let r = ranked.push(v);
        assert forall|a: int, b: int| 0 <= a < b < r.len() implies #[trigger] r[a].id@ != #[trigger] r[b].id@ by {
            if b == ranked.len() {
                assert(r[a] == ranked[a]);
            }
        }
    }
}

proof fn lemma_interleaved(channels: Seq<Channel>, recent: Seq<Video>, familiar: Seq<Video>, upto: int)
    requires
        all_suggestable(channels, recent),
        all_suggestable(channels, familiar),
        upto >= 0,
    ensures
        distinct_video_ids(interleaved(recent, familiar, upto)),
        all_suggestable(channels, interleaved(recent, familiar, upto)),
        interleaved(recent, familiar, upto).len() <= upto,
    decreases upto,
{
    if upto > 0 {
        lemma_interleaved(channels, recent, familiar, upto - 1);
        let before = interleaved(recent, familiar, upto - 1);
        match suggestion_slot(recent, familiar, upto - 1) {
            Some(v) => {
                lemma_with_new(channels, before, v);
            },
            None => {},
        }
    }
}

proof fn lemma_topped_up(channels: Seq<Channel>, pool: Seq<Video>, ranked: Seq<Video>, from: int)
    requires
        all_suggestable(channels, pool),
        all_suggestable(channels, ranked),
        distinct_video_ids(ranked),
        ranked.len() <= SUGGESTION_COUNT,
    ensures
        distinct_video_ids(topped_up(pool, ranked, from)),
        all_suggestable(channels, topped_up(pool, ranked, from)),
        topped_up(pool, ranked, from).len() <= SUGGESTION_COUNT,
    decreases pool.len() - from,
{
    if !(from < 0 || from >= pool.len() || ranked.len() >= SUGGESTION_COUNT) {
        lemma_with_new(channels, ranked, pool[from]);
        lemma_topped_up(channels, pool, with_new(ranked, pool[from]), from + 1);
    }
}

/// What stands in for a query is a short list: at most `SUGGESTION_COUNT`
/// videos, none twice, each unwatched and from a followed channel.
pub proof fn law_suggestions_are_few_fresh_and_distinct(
    library: LibrarySnapshot,
    now: int,
    result: Seq<Video>,
)
    requires
        suggestions_of(library, now, result),
    ensures
        result.len() <= SUGGESTION_COUNT,
        distinct_video_ids(result),
        all_suggestable(library.channels@, result),
{
    let channels = library.channels@;
    let candidates = suggestable_videos(library.videos@, channels);
    let (sorted, familiar) = choose|sorted: Seq<Video>, familiar: Seq<Video>|
        #[trigger] is_stable_sort(candidates, recency_keys(candidates, now), sorted)
            && #[trigger] is_stable_sort(
            sorted,
            familiarity_keys(sorted, library.videos@, library.history@),
            familiar,
        ) && result == ranked_suggestions(sorted, familiar);
    lemma_suggestable_videos(library.videos@, channels);
    lemma_rearranged_suggestable(channels, candidates, sorted, recency_keys(candidates, now));
    lemma_rearranged_suggestable(
        channels,
        sorted,
        familiar,
        familiarity_keys(sorted, library.videos@, library.history@),
    );
    let recent = if sorted.len() > SUGGESTION_COUNT {
        sorted.take(SUGGESTION_COUNT as int)
    } else {
        sorted
    };
    assert(all_suggestable(channels, recent)) by {
        assert forall|i: int| 0 <= i < recent.len() implies suggestable(channels, #[trigger] recent[i]) by {
            assert(recent[i] == sorted[i]);
        }
    }
    let pool = recent + familiar;
    assert(all_suggestable(channels, pool)) by {
        assert forall|i: int| 0 <= i < pool.len() implies suggestable(channels, #[trigger] pool[i]) by {
            if i < recent.len() {
                assert(pool[i] == recent[i]);
            } else {
                assert(pool[i] == familiar[i - recent.len()]);
            }
        }
    }
    lemma_interleaved(channels, recent, familiar, SUGGESTION_COUNT as int);
    lemma_topped_up(channels, pool, interleaved(recent, familiar, SUGGESTION_COUNT as int), 0);
}

/// The ids of the videos of `s`, as a set.
pub open spec fn video_ids(s: Seq<Video>) -> Set<Seq<char>> {
    s.map_values(|v: Video| v.id@).to_set()
}

/// The ids of `s` are finite in number, and are exactly those `s` holds.
pub proof fn lemma_video_ids(s: Seq<Video>)
    ensures
        video_ids(s).finite(),
        forall|id: Seq<char>| #[trigger] video_ids(s).contains(id) <==> holds_id(s, id),
{
    let m = s.map_values(|v: Video| v.id@);
    assert forall|id: Seq<char>| #[trigger] video_ids(s).contains(id) <==> holds_id(s, id) by {
        if holds_id(s, id) {
            let k = choose|k: int| 0 <= k < s.len() && #[trigger] s[k].id@ == id;
            assert(m[k] == id);
            assert(m.contains(id));
        }
        if m.contains(id) {
            let k = choose|k: int| 0 <= k < m.len() && m[k] == id;
            assert(s[k].id@ == id);
        }
    }
    vstd::seq_lib::seq_to_set_is_finite(m);
}

/// A list that holds each id once has as many ids as videos.
proof fn lemma_distinct_ids_count(s: Seq<Video>)
    requires
        distinct_video_ids(s),
    ensures
        video_ids(s).len() == s.len(),
{
    let m = s.map_values(|v: Video| v.id@);
    assert(m.no_duplicates()) by {
        assert forall|a: int, b: int| 0 <= a < m.len() && 0 <= b < m.len() && a != b implies m[a] != m[b] by {
            if a < b {
                assert(s[a].id@ != s[b].id@);
            } else {
                assert(s[b].id@ != s[a].id@);
            }
        }
    }
    m.unique_seq_to_set();
}

/// Adding a video unless its id is there keeps ids distinct, and holds
/// exactly the ids held before and the new one.
proof fn lemma_with_new_ids(ranked: Seq<Video>, v: Video)
    requires
        distinct_video_ids(ranked),
    ensures
        distinct_video_ids(with_new(ranked, v)),
        with_new(ranked, v).len() <= ranked.len() + 1,
        forall|k: int| 0 <= k < ranked.len() ==> #[trigger] with_new(ranked, v)[k] == ranked[k],
        forall|id: Seq<char>|
            #[trigger] holds_id(with_new(ranked, v), id) <==> (holds_id(ranked, id) || id == v.id@),
        forall|k: int|
            0 <= k < with_new(ranked, v).len() ==> (k < ranked.len() || #[trigger] with_new(ranked, v)[k] == v),
{
    let r = with_new(ranked, v);
    if !holds_id(ranked, v.id@) {
        assert forall|a: int, b: int| 0 <= a < b < r.len() implies #[trigger] r[a].id@ != #[trigger] r[b].id@ by {
            if b == ranked.len() {
                assert(r[a] == ranked[a]);
            }
        }
        assert forall|id: Seq<char>| #[trigger] holds_id(r, id) <==> (holds_id(ranked, id) || id == v.id@) by {
            if holds_id(ranked, id) {
                let k = choose|k: int| 0 <= k < ranked.len() && #[trigger] ranked[k].id@ == id;
                assert(r[k] == ranked[k]);
            }
            if id == v.id@ {
                assert(r[ranked.len() as int] == v);
            }
            if holds_id(r, id) {
                let k = choose|k: int| 0 <= k < r.len() && #[trigger] r[k].id@ == id;
                if k < ranked.len() {
                    assert(r[k] == ranked[k]);
                }
            }
        }
    }
}

/// Topping up from `pool` at `from` on, where every video before `from`
/// is already in, ends with `SUGGESTION_COUNT` videos or with every id of
/// the pool, whichever is fewer.
proof fn lemma_topped_up_count(pool: Seq<Video>, ranked: Seq<Video>, from: int)
    requires
        distinct_video_ids(ranked),
        ranked.len() <= SUGGESTION_COUNT,
        0 <= from <= pool.len(),
        forall|k: int| 0 <= k < ranked.len() ==> holds_id(pool, #[trigger] ranked[k].id@),
        forall|i: int| 0 <= i < from ==> holds_id(ranked, #[trigger] pool[i].id@),
    ensures
        topped_up(pool, ranked, from).len() == (if video_ids(pool).len() < SUGGESTION_COUNT {
            video_ids(pool).len()
        } else {
            SUGGESTION_COUNT as nat
        }),
    decreases pool.len() - from,
{
    lemma_video_ids(pool);
    lemma_video_ids(ranked);
    lemma_distinct_ids_count(ranked);
    assert(video_ids(ranked).subset_of(video_ids(pool))) by {
        assert forall|id: Seq<char>| video_ids(ranked).contains(id) implies video_ids(pool).contains(id) by {
            let k = choose|k: int| 0 <= k < ranked.len() && #[trigger] ranked[k].id@ == id;
            assert(holds_id(pool, ranked[k].id@));
        }
    }
    vstd::set_lib::lemma_len_subset(video_ids(ranked), video_ids(pool));
    if ranked.len() >= SUGGESTION_COUNT {
    } else if from == pool.len() {
        assert(video_ids(pool).subset_of(video_ids(ranked))) by {
            assert forall|id: Seq<char>| video_ids(pool).contains(id) implies video_ids(ranked).contains(id) by {
                let i = choose|i: int| 0 <= i < pool.len() && #[trigger] pool[i].id@ == id;
                assert(holds_id(ranked, pool[i].id@));
            }
        }
        vstd::set_lib::lemma_len_subset(video_ids(pool), video_ids(ranked));
    } else {
        let v = pool[from];
        let next = with_new(ranked, v);
        lemma_with_new_ids(ranked, v);
        assert forall|k: int| 0 <= k < next.len() implies holds_id(pool, #[trigger] next[k].id@) by {
            if k < ranked.len() {
                assert(next[k] == ranked[k]);
                assert(holds_id(pool, ranked[k].id@));
            } else {
                assert(next[k] == v);
                assert(pool[from].id@ == v.id@);
            }
        }
        assert forall|i: int| 0 <= i < from + 1 implies holds_id(next, #[trigger] pool[i].id@) by {
            if i < from {
                assert(holds_id(ranked, pool[i].id@));
            }
        }
        lemma_topped_up_count(pool, next, from + 1);
    }
}

/// Every video the interleaving takes comes from `recent` or `familiar`.
proof fn lemma_interleaved_from_pool(recent: Seq<Video>, familiar: Seq<Video>, upto: int)
    requires
        upto >= 0,
    ensures
        distinct_video_ids(interleaved(recent, familiar, upto)),
        interleaved(recent, familiar, upto).len() <= upto,
        forall|k: int|
            0 <= k < interleaved(recent, familiar, upto).len() ==> holds_id(
                recent + familiar,
                #[trigger] interleaved(recent, familiar, upto)[k].id@,
            ),
    decreases upto,
{
    let pool = recent + familiar;
    if upto > 0 {
        lemma_interleaved_from_pool(recent, familiar, upto - 1);
        let before = interleaved(recent, familiar, upto - 1);
        match suggestion_slot(recent, familiar, upto - 1) {
            Some(v) => {
                lemma_with_new_ids(before, v);
                let index = upto - 1;
                let at = if index % 3 == 2 {
                    recent.len() + index / 3
                } else {
                    index - index / 3
                };
                assert(pool[at] == v);
                let after = with_new(before, v);
                assert forall|k: int| 0 <= k < after.len() implies holds_id(pool, #[trigger] after[k].id@) by {
                    if k < before.len() {
                        assert(after[k] == before[k]);
                        assert(holds_id(pool, before[k].id@));
                    } else {
                        assert(after[k] == v);
                        assert(pool[at].id@ == v.id@);
                    }
                }
            },
            None => {},
        }
    }
}

/// A stable sort holds exactly the ids its input held.
proof fn lemma_sorted_ids(items: Seq<Video>, keys: Seq<KeyView>, result: Seq<Video>)
    requires
        is_stable_sort(items, keys, result),
    ensures
        forall|id: Seq<char>| #[trigger] holds_id(result, id) <==> holds_id(items, id),
{
    let n = items.len() as int;
    let p = choose|p: Seq<int>|
        is_permutation(p, n) && stably_sorted(keys, p) && result == rearranged(items, p);
    assert forall|id: Seq<char>| #[trigger] holds_id(result, id) <==> holds_id(items, id) by {
        if holds_id(result, id) {
            let k = choose|k: int| 0 <= k < result.len() && #[trigger] result[k].id@ == id;
            assert(result[k] == items[p[k]]);
            assert(0 <= p[k] < n);
            assert(items[p[k]].id@ == id);
        }
        if holds_id(items, id) {
            let j = choose|j: int| 0 <= j < items.len() && #[trigger] items[j].id@ == id;
            crate::sorting::lemma_permutation_onto(p, n, j);
            let k = choose|k: int| 0 <= k < n && p[k] == j;
            assert(result[k] == items[j]);
        }
    }
}

/// What stands in for a query is as long as it can be: `SUGGESTION_COUNT`
/// videos, or, where fewer distinct videos qualify, every one of them.
pub proof fn law_suggestions_fill_up_to_the_count(
    library: LibrarySnapshot,
    now: int,
    result: Seq<Video>,
)
    requires
        suggestions_of(library, now, result),
    ensures
        result.len() == ({
            let qualifying = video_ids(suggestable_videos(library.videos@, library.channels@)).len();
            if qualifying < SUGGESTION_COUNT {
                qualifying
            } else {
                SUGGESTION_COUNT as nat
            }
        }),
{
    let candidates = suggestable_videos(library.videos@, library.channels@);
    let (sorted, familiar) = choose|sorted: Seq<Video>, familiar: Seq<Video>|
        #[trigger] is_stable_sort(candidates, recency_keys(candidates, now), sorted)
            && #[trigger] is_stable_sort(
            sorted,
            familiarity_keys(sorted, library.videos@, library.history@),
            familiar,
        ) && result == ranked_suggestions(sorted, familiar);
    let recent = if sorted.len() > SUGGESTION_COUNT {
        sorted.take(SUGGESTION_COUNT as int)
    } else {
        sorted
    };
    let pool = recent + familiar;
    lemma_sorted_ids(candidates, recency_keys(candidates, now), sorted);
    lemma_sorted_ids(sorted, familiarity_keys(sorted, library.videos@, library.history@), familiar);
    lemma_video_ids(pool);
    lemma_video_ids(candidates);
    assert(video_ids(pool) =~= video_ids(candidates)) by {
        assert forall|id: Seq<char>| #[trigger] holds_id(pool, id) <==> holds_id(candidates, id) by {
            if holds_id(pool, id) {
                let k = choose|k: int| 0 <= k < pool.len() && #[trigger] pool[k].id@ == id;
                if k < recent.len() {
                    assert(pool[k] == recent[k]);
                    assert(recent[k] == sorted[k]);
                    assert(holds_id(sorted, id));
                } else {
                    assert(pool[k] == familiar[k - recent.len()]);
                    assert(holds_id(familiar, id));
                }
            }
            if holds_id(candidates, id) {
                assert(holds_id(familiar, id));
                let k = choose|k: int| 0 <= k < familiar.len() && #[trigger] familiar[k].id@ == id;
                assert(pool[recent.len() + k] == familiar[k]);
            }
        }
    }
    let start = interleaved(recent, familiar, SUGGESTION_COUNT as int);
    lemma_interleaved_from_pool(recent, familiar, SUGGESTION_COUNT as int);
    lemma_topped_up_count(pool, start, 0);
}

/// A search answers with exactly the library's videos whose lowercased
/// title or lowercased channel name contains the query: each such video is
/// among the answers, and each answer is a video of the library that
/// mentions the query in one of the two.
pub proof fn law_search_finds_titles_and_channel_names(videos: Seq<Video>, needle: Seq<char>)
    ensures
        forall|i: int|
            0 <= i < videos.len() && (contains_run(unicode_lowercase(videos[i].title@), needle)
                || contains_run(unicode_lowercase(videos[i].channel_name@), needle))
                ==> matching_videos(videos, needle).contains(#[trigger] videos[i]),
        forall|k: int|
            0 <= k < matching_videos(videos, needle).len() ==> {
                let v = #[trigger] matching_videos(videos, needle)[k];
                &&& contains_run(unicode_lowercase(v.title@), needle)
                    || contains_run(unicode_lowercase(v.channel_name@), needle)
                &&& videos.contains(v)
            },
    decreases videos.len(),
{
    if videos.len() > 0 {
        let rest = videos.drop_last();
        law_search_finds_titles_and_channel_names(rest, needle);
        let out = matching_videos(videos, needle);
        let before = matching_videos(rest, needle);
        let last = videos.last();
        assert forall|i: int|
            0 <= i < videos.len() && (contains_run(unicode_lowercase(videos[i].title@), needle)
                || contains_run(unicode_lowercase(videos[i].channel_name@), needle))
                implies out.contains(#[trigger] videos[i]) by {
            if i < rest.len() {
                assert(videos[i] == rest[i]);
                assert(before.contains(rest[i]));
                let k = choose|k: int| 0 <= k < before.len() && before[k] == rest[i];
                assert(out[k] == before[k]);
            } else {
                assert(out[out.len() - 1] == last);
            }
        }
        assert forall|k: int| 0 <= k < out.len() implies {
            let v = #[trigger] out[k];
            &&& contains_run(unicode_lowercase(v.title@), needle)
                || contains_run(unicode_lowercase(v.channel_name@), needle)
            &&& videos.contains(v)
        } by {
            if k < before.len() {
                assert(out[k] == before[k]);
                assert(rest.contains(before[k]));
                let i = choose|i: int| 0 <= i < rest.len() && rest[i] == before[k];
                assert(videos[i] == rest[i]);
            } else {
                assert(out[k] == last);
                assert(videos[videos.len() - 1] == last);
            }
        }
    }
}

/// A search answers with exactly the library's channels whose lowercased
/// name or lowercased handle contains the query.
pub proof fn law_search_finds_channel_names_and_handles(channels: Seq<Channel>, needle: Seq<char>)
    ensures
        forall|i: int|
            0 <= i < channels.len() && (contains_run(unicode_lowercase(channels[i].name@), needle)
                || contains_run(unicode_lowercase(channels[i].handle@), needle))
                ==> matching_channels(channels, needle).contains(#[trigger] channels[i]),
        forall|k: int|
            0 <= k < matching_channels(channels, needle).len() ==> {
                let c = #[trigger] matching_channels(channels, needle)[k];
                &&& contains_run(unicode_lowercase(c.name@), needle)
                    || contains_run(unicode_lowercase(c.handle@), needle)
                &&& channels.contains(c)
            },
    decreases channels.len(),
{
    if channels.len() > 0 {
        let rest = channels.drop_last();
        law_search_finds_channel_names_and_handles(rest, needle);
        let out = matching_channels(channels, needle);
        let before = matching_channels(rest, needle);
        let last = channels.last();
        assert forall|i: int|
            0 <= i < channels.len() && (contains_run(unicode_lowercase(channels[i].name@), needle)
                || contains_run(unicode_lowercase(channels[i].handle@), needle))
                implies out.contains(#[trigger] channels[i]) by {
            if i < rest.len() {
                assert(channels[i] == rest[i]);
                assert(before.contains(rest[i]));
                let k = choose|k: int| 0 <= k < before.len() && before[k] == rest[i];
                assert(out[k] == before[k]);
            } else {
                assert(out[out.len() - 1] == last);
            }
        }
        assert forall|k: int| 0 <= k < out.len() implies {
            let c = #[trigger] out[k];
            &&& contains_run(unicode_lowercase(c.name@), needle)
                || contains_run(unicode_lowercase(c.handle@), needle)
            &&& channels.contains(c)
        } by {
            if k < before.len() {
                assert(out[k] == before[k]);
                assert(rest.contains(before[k]));
                let i = choose|i: int| 0 <= i < rest.len() && rest[i] == before[k];
                assert(channels[i] == rest[i]);
            } else {
                assert(out[k] == last);
                assert(channels[channels.len() - 1] == last);
            }
        }
    }
}

} // verus!
