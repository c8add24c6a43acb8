//! The subscription feed as the device builds it from its cached library:
//! which uploads it shows under the chosen group, kind, length and watched
//! filters, newest first, one page at a time, and which of them still need
//! a length.
use vstd::prelude::*;
use crate::channel::{content_accepts, Channel, SubscriptionContent};
use crate::dates::spells;
use crate::explore::{first_page, left_off, recency_key, recency_keys};
use crate::library::SubscriptionGroup;
use crate::playlist::{all_date_cleanly, duration_matches, feed_kind_accepts, DurationFilter, FeedFilter};
use crate::screens::{at_most, duration_candidates, ids_lacking_duration, DURATION_LOOKAHEAD};
use crate::settings::DurationThresholds;
use crate::sorting::{
    is_permutation, is_stable_sort, rearranged, stable_sort_by_keys, stably_sorted, SortKey,
};
use crate::text::chars_of;
use crate::video::Video;

verus! {

/// What a followed channel wants in the feed, looked up by id among the
/// first `upto` channels: a lookup table built from the followed channels
/// in order keeps the last of each id.
pub open spec fn followed_content(channels: Seq<Channel>, id: Seq<char>, upto: int) -> Option<SubscriptionContent>
    decreases upto,
{
    if upto <= 0 || upto > channels.len() {
        None
    } else if channels[upto - 1].subscribed && channels[upto - 1].id@ == id {
        Some(channels[upto - 1].subscription_content)
    } else {
        followed_content(channels, id, upto - 1)
    }
}

/// Whether some group holds the channel `id`.
pub open spec fn grouped(groups: Seq<SubscriptionGroup>, id: Seq<char>) -> bool {
    exists|g: int, k: int|
        0 <= g < groups.len() && 0 <= k < groups[g].channel_ids@.len()
            && #[trigger] groups[g].channel_ids@[k]@ == id
}

/// Where the first group with id `id` stands, from `from` on.
pub open spec fn group_position(groups: Seq<SubscriptionGroup>, id: Seq<char>, from: int) -> Option<int>
    decreases groups.len() - from,
{
    if from < 0 || from >= groups.len() {
        None
    } else if groups[from].id@ == id {
        Some(from)
    } else {
        group_position(groups, id, from + 1)
    }
}

/// Whether the group chip `active` lets the channel `id` through: "all"
/// every channel, "ungrouped" those in no group, and a group's id its
/// members (a group that no longer exists, everything).
pub open spec fn group_admits(groups: Seq<SubscriptionGroup>, active: Seq<char>, id: Seq<char>) -> bool {
    if active == "all"@ {
        true
    } else if active == "ungrouped"@ {
        !grouped(groups, id)
    } else {
        match group_position(groups, active, 0) {
            Some(g) => exists|k: int|
                0 <= k < groups[g].channel_ids@.len() && #[trigger] groups[g].channel_ids@[k]@ == id,
            None => true,
        }
    }
}

/// The choices that decide what the feed shows.
pub struct FeedChoice {
    /// "all", "ungrouped", or a group's id.
    pub group: String,
    pub kind: FeedFilter,
    pub duration: Option<DurationFilter>,
    pub hide_watched: bool,
}

/// Whether the feed shows `v` before the length filter: from a followed
/// channel that wants its kind, let through by the group chip and the kind
/// filter, and not hidden as watched.
pub open spec fn feed_keeps(
    v: Video,
    channels: Seq<Channel>,
    groups: Seq<SubscriptionGroup>,
    choice: FeedChoice,
) -> bool {
    &&& match followed_content(channels, v.channel_id@, channels.len() as int) {
        Some(content) => content_accepts(content, v.is_short),
        None => false,
    }
    &&& group_admits(groups, choice.group@, v.channel_id@)
    &&& feed_kind_accepts(choice.kind, v)
    &&& !(choice.hide_watched && v.watched)
}

/// The library's videos the feed keeps, in library order.
pub open spec fn feed_videos(
    videos: Seq<Video>,
    channels: Seq<Channel>,
    groups: Seq<SubscriptionGroup>,
    choice: FeedChoice,
) -> Seq<Video>
    decreases videos.len(),
{
    if videos.len() == 0 {
        Seq::empty()
    } else {
        let rest = feed_videos(videos.drop_last(), channels, groups, choice);
        if feed_keeps(videos.last(), channels, groups, choice) {
            rest.push(videos.last())
        } else {
            rest
        }
    }
}

/// The videos of `videos` the length filter keeps, in order.
pub open spec fn of_length(videos: Seq<Video>, filter: DurationFilter, thresholds: DurationThresholds) -> Seq<Video>
    decreases videos.len(),
{
    if videos.len() == 0 {
        Seq::empty()
    } else {
        let rest = of_length(videos.drop_last(), filter, thresholds);
        if duration_matches(filter, videos.last(), thresholds) {
            rest.push(videos.last())
        } else {
            rest
        }
    }
}

/// One page of the feed as the device shows it.
pub struct LocalFeedPage {
    /// The page's videos, newest first.
    pub videos: Vec<Video>,
    /// How many more the filters let through past this page.
    pub remaining: usize,
    /// With a length filter on: how many of the feed's videos have no
    /// length yet, so the filter cannot speak for them.
    pub without_duration: usize,
    /// The ids to ask lengths for.
    pub unknown_durations: Vec<String>,
}

/// How far ahead to look for videos without a length: the page, or with a
/// length filter on at least `DURATION_LOOKAHEAD`.
pub open spec fn duration_window(page: nat, filtering: bool) -> nat {
    if filtering && page < DURATION_LOOKAHEAD {
        DURATION_LOOKAHEAD as nat
    } else {
        page
    }
}

/// Whether `r` is the first `page` of the feed, relative dates read at
/// `now`.
pub open spec fn is_feed_page(
    videos: Seq<Video>,
    channels: Seq<Channel>,
    groups: Seq<SubscriptionGroup>,
    choice: FeedChoice,
    thresholds: DurationThresholds,
    page: nat,
    now: int,
    r: LocalFeedPage,
) -> bool {
    let kept = feed_videos(videos, channels, groups, choice);
    exists|sorted: Seq<Video>|
        #[trigger] is_stable_sort(kept, recency_keys(kept, now), sorted) && {
            let shown = match choice.duration {
                Some(d) => of_length(sorted, d, thresholds),
                None => sorted,
            };
            &&& r.unknown_durations@.map_values(|s: String| s@) == at_most(
                ids_lacking_duration(at_most(sorted, duration_window(page, choice.duration is Some))),
                DURATION_LOOKAHEAD as nat,
            )
            &&& r.without_duration == if choice.duration is Some {
                ids_lacking_duration(sorted).len()
            } else {
                0
            }
            &&& r.videos@ == first_page(shown, page)
            &&& r.remaining == left_off(shown.len(), page)
        }
}


/// What the followed channel `id` wants in the feed.
fn followed_content_of(channels: &Vec<Channel>, id: &String) -> (r: Option<SubscriptionContent>)
    ensures
        r == followed_content(channels@, id@, channels@.len() as int),
{
    let mut upto: usize = channels.len();
    while upto > 0
        invariant
            upto <= channels@.len(),
            followed_content(channels@, id@, channels@.len() as int) == followed_content(
                channels@,
                id@,
                upto as int,
            ),
        decreases upto,
    {
        let c = &channels[upto - 1];
        if c.subscribed && c.id == *id {
            return Some(c.subscription_content);
        }
        upto = upto - 1;
    }
    None
}

/// Whether some group holds the channel `id`.
fn is_grouped(groups: &Vec<SubscriptionGroup>, id: &String) -> (r: bool)
    ensures
        r == grouped(groups@, id@),
{
    let mut g: usize = 0;
    while g < groups.len()
        invariant
            g <= groups.len(),
            forall|a: int, k: int|
                0 <= a < g && 0 <= k < groups@[a].channel_ids@.len() ==> #[trigger] groups@[a].channel_ids@[k]@
                    != id@,
        decreases groups.len() - g,
    {
        if holds_id(&groups[g].channel_ids, id) {
            return true;
        }
        g = g + 1;
    }
    false
}

/// Whether `ids` holds `id`.
fn holds_id(ids: &Vec<String>, id: &String) -> (r: bool)
    ensures
        r == exists|k: int| 0 <= k < ids@.len() && #[trigger] ids@[k]@ == id@,
{
    let mut k: usize = 0;
    while k < ids.len()
        invariant
            k <= ids.len(),
            forall|j: int| 0 <= j < k ==> #[trigger] ids@[j]@ != id@,
        decreases ids.len() - k,
    {
        if ids[k] == *id {
            return true;
        }
        k = k + 1;
    }
    false
}

/// Where the first group with id `id` stands.
fn group_index(groups: &Vec<SubscriptionGroup>, id: &String) -> (r: Option<usize>)
    ensures
        match group_position(groups@, id@, 0) {
            Some(g) => r == Some(g as usize) && 0 <= g < groups@.len(),
            None => r is None,
        },
{
    let mut g: usize = 0;
    while g < groups.len()
        invariant
            g <= groups.len(),
            group_position(groups@, id@, 0) == group_position(groups@, id@, g as int),
        decreases groups.len() - g,
    {
        if groups[g].id == *id {
            return Some(g);
        }
        g = g + 1;
    }
    None
}

/// Whether the group chip `active` lets the channel `id` through.
fn admits(groups: &Vec<SubscriptionGroup>, active: &String, id: &String) -> (r: bool)
    ensures
        r == group_admits(groups@, active@, id@),
{
    let cs = chars_of(active.as_str());
    if spells(&cs, "all") {
        return true;
    }
    if spells(&cs, "ungrouped") {
        return !is_grouped(groups, id);
    }
    let n = groups.len();
    match group_index(groups, active) {
        Some(g) => {
            assert(g < n);
            holds_id(&groups[g].channel_ids, id)
        },
        None => true,
    }
}

/// The library's videos the feed keeps, in library order.
pub fn feed_videos_of(
    videos: &Vec<Video>,
    channels: &Vec<Channel>,
    groups: &Vec<SubscriptionGroup>,
    choice: &FeedChoice,
) -> (r: Vec<Video>)
    ensures
        r@ == feed_videos(videos@, channels@, groups@, *choice),
{
    let mut out: Vec<Video> = Vec::new();
    let mut i: usize = 0;
    while i < videos.len()
        invariant
            i <= videos.len(),
            out@ == feed_videos(videos@.take(i as int), channels@, groups@, *choice),
        decreases videos.len() - i,
    {
        let v = &videos[i];
        let wanted = match followed_content_of(channels, &v.channel_id) {
            Some(content) => content.accepts(v.is_short),
            None => false,
        };
        let keep = wanted && admits(groups, &choice.group, &v.channel_id) && choice.kind.accepts(v)
            && !(choice.hide_watched && v.watched);
        assert(videos@.take(i + 1).drop_last() =~= videos@.take(i as int));
        if keep {
            out.push(v.clone());
        }
        i = i + 1;
    }
    assert(videos@.take(videos.len() as int) =~= videos@);
    out
}

/// The videos of `videos` the length filter keeps, in order.
fn of_length_of(videos: &Vec<Video>, filter: DurationFilter, thresholds: &DurationThresholds) -> (r: Vec<Video>)
    ensures
        r@ == of_length(videos@, filter, *thresholds),
{
    let mut out: Vec<Video> = Vec::new();
    let mut i: usize = 0;
    while i < videos.len()
        invariant
            i <= videos.len(),
            out@ == of_length(videos@.take(i as int), filter, *thresholds),
        decreases videos.len() - i,
    {
        assert(videos@.take(i + 1).drop_last() =~= videos@.take(i as int));
        if filter.matches(&videos[i], thresholds) {
            out.push(videos[i].clone());
        }
        i = i + 1;
    }
    assert(videos@.take(videos.len() as int) =~= videos@);
    out
}

/// How many of `videos` still have no length.
fn count_lacking_duration(videos: &Vec<Video>) -> (r: usize)
    ensures
        r == ids_lacking_duration(videos@).len(),
{
    let mut count: usize = 0;
    let mut i: usize = 0;
    while i < videos.len()
        invariant
            i <= videos.len(),
            count <= i,
            count == ids_lacking_duration(videos@.take(i as int)).len(),
        decreases videos.len() - i,
    {
        assert(videos@.take(i + 1).drop_last() =~= videos@.take(i as int));
        if !videos[i].is_live && videos[i].duration_seconds == 0 {
            count = count + 1;
        }
        i = i + 1;
    }
    assert(videos@.take(videos.len() as int) =~= videos@);
    count
}

/// The first `page` of the feed from the cached library, relative publish
/// dates read at `now`.
pub fn local_feed(
    videos: &Vec<Video>,
    channels: &Vec<Channel>,
    groups: &Vec<SubscriptionGroup>,
    choice: &FeedChoice,
    thresholds: &DurationThresholds,
    page: usize,
    now: i64,
) -> (r: LocalFeedPage)
    requires
        now >= i64::MIN + 86_400,
        all_date_cleanly(feed_videos(videos@, channels@, groups@, *choice)),
    ensures
        is_feed_page(videos@, channels@, groups@, *choice, *thresholds, page as nat, now as int, r),
{
    let kept = feed_videos_of(videos, channels, groups, choice);
    let ghost kept_v = kept@;
    let mut keys: Vec<SortKey> = Vec::new();
    let mut i: usize = 0;
    while i < kept.len()
        invariant
            kept@ == kept_v,
            all_date_cleanly(kept_v),
            now >= i64::MIN + 86_400,
            i <= kept.len(),
            keys@.len() == i,
            forall|k: int| 0 <= k < i ==> (#[trigger] keys@[k]).view() == recency_key(kept_v[k], now as int),
        decreases kept.len() - i,
    {
        assert(kept_v[i as int].dates_cleanly());
        let epoch = kept[i].published_epoch_at(now);
        keys.push(SortKey::Number(-(epoch as i128)));
        i = i + 1;
    }
    assert(keys@.map_values(|k: SortKey| k.view()) =~= recency_keys(kept_v, now as int));
    let mut sorted = kept;
    stable_sort_by_keys(&mut sorted, keys);
    let window = if choice.duration.is_some() && page < DURATION_LOOKAHEAD {
        DURATION_LOOKAHEAD
    } else {
        page
    };
    let unknown_durations = duration_candidates(&sorted, window);
    let (shown, without_duration) = match choice.duration {
        Some(d) => {
            let lacking = count_lacking_duration(&sorted);
            (of_length_of(&sorted, d, thresholds), lacking)
        },
        None => (sorted, 0),
    };
    let remaining = shown.len().saturating_sub(page);
    let mut shown = shown;
    if page < shown.len() {
        shown.truncate(page);
    }
    let r = LocalFeedPage { videos: shown, remaining, without_duration, unknown_durations };
    r
}


proof fn lemma_feed_videos_keep(
    videos: Seq<Video>,
    channels: Seq<Channel>,
    groups: Seq<SubscriptionGroup>,
    choice: FeedChoice,
)
    ensures
        forall|i: int|
            0 <= i < feed_videos(videos, channels, groups, choice).len() ==> feed_keeps(
                #[trigger] feed_videos(videos, channels, groups, choice)[i],
                channels,
                groups,
                choice,
            ),
    decreases videos.len(),
{
    if videos.len() > 0 {
        lemma_feed_videos_keep(videos.drop_last(), channels, groups, choice);
        let rest = feed_videos(videos.drop_last(), channels, groups, choice);
        if feed_keeps(videos.last(), channels, groups, choice) {
            let all = rest.push(videos.last());
            assert forall|i: int| 0 <= i < all.len() implies feed_keeps(#[trigger] all[i], channels, groups, choice) by {
                if i < rest.len() {
                    assert(all[i] == rest[i]);
                }
            }
        }
    }
}

proof fn lemma_of_length_keeps(videos: Seq<Video>, filter: DurationFilter, thresholds: DurationThresholds)
    ensures
        forall|i: int|
            0 <= i < of_length(videos, filter, thresholds).len() ==> {
                let v = #[trigger] of_length(videos, filter, thresholds)[i];
                duration_matches(filter, v, thresholds) && exists|j: int| 0 <= j < videos.len() && videos[j] == v
            },
    decreases videos.len(),
{
    if videos.len() > 0 {
        lemma_of_length_keeps(videos.drop_last(), filter, thresholds);
        let rest = of_length(videos.drop_last(), filter, thresholds);
        assert forall|i: int| 0 <= i < rest.len() implies exists|j: int|
            0 <= j < videos.len() && videos[j] == #[trigger] rest[i] by {
            let j = choose|j: int| 0 <= j < videos.drop_last().len() && videos.drop_last()[j] == rest[i];
            assert(videos[j] == rest[i]);
        }
        assert(videos[videos.len() - 1] == videos.last());
    }
}

/// The feed shows only what its choices let through: every video on a
/// page is from a followed channel that wants its kind, let through by the
/// group chip and the kind filter, not hidden as watched, and of the
/// chosen length when one is chosen.
pub proof fn law_the_feed_shows_only_what_the_choices_allow(
    videos: Seq<Video>,
    channels: Seq<Channel>,
    groups: Seq<SubscriptionGroup>,
    choice: FeedChoice,
    thresholds: DurationThresholds,
    page: nat,
    now: int,
    r: LocalFeedPage,
)
    requires
        is_feed_page(videos, channels, groups, choice, thresholds, page, now, r),
    ensures
        forall|i: int|
            0 <= i < r.videos@.len() ==> feed_keeps(#[trigger] r.videos@[i], channels, groups, choice) && match choice.duration {
                Some(d) => duration_matches(d, r.videos@[i], thresholds),
                None => true,
            },
{
    let kept = feed_videos(videos, channels, groups, choice);
    let sorted = choose|sorted: Seq<Video>|
        #[trigger] is_stable_sort(kept, recency_keys(kept, now), sorted) && {
            let shown = match choice.duration {
                Some(d) => of_length(sorted, d, thresholds),
                None => sorted,
            };
            &&& r.unknown_durations@.map_values(|s: String| s@) == at_most(
                ids_lacking_duration(at_most(sorted, duration_window(page, choice.duration is Some))),
                DURATION_LOOKAHEAD as nat,
            )
            &&& r.without_duration == if choice.duration is Some {
                ids_lacking_duration(sorted).len()
            } else {
                0
            }
            &&& r.videos@ == first_page(shown, page)
            &&& r.remaining == left_off(shown.len(), page)
        };
    lemma_feed_videos_keep(videos, channels, groups, choice);
    let p = choose|p: Seq<int>|
        is_permutation(p, kept.len() as int) && stably_sorted(recency_keys(kept, now), p) && sorted
            == rearranged(kept, p);
    assert forall|j: int| 0 <= j < sorted.len() implies feed_keeps(#[trigger] sorted[j], channels, groups, choice) by {
        assert(sorted[j] == kept[p[j]]);
    }
    let shown = match choice.duration {
        Some(d) => of_length(sorted, d, thresholds),
        None => sorted,
    };
    match choice.duration {
        Some(d) => {
            lemma_of_length_keeps(sorted, d, thresholds);
        },
        None => {},
    }
    assert forall|i: int| 0 <= i < r.videos@.len() implies feed_keeps(#[trigger] r.videos@[i], channels, groups, choice)
        && match choice.duration {
        Some(d) => duration_matches(d, r.videos@[i], thresholds),
        None => true,
    } by {
        assert(r.videos@[i] == shown[i]);
        match choice.duration {
            Some(d) => {
                let v = of_length(sorted, d, thresholds)[i];
                let j = choose|j: int| 0 <= j < sorted.len() && sorted[j] == v;
                assert(feed_keeps(sorted[j], channels, groups, choice));
            },
            None => {},
        }
    }
}

/// A channel found for `id` among the first `upto` is one that is followed
/// and carries that id.
proof fn lemma_followed_content_found(channels: Seq<Channel>, id: Seq<char>, upto: int)
    requires
        followed_content(channels, id, upto) is Some,
    ensures
        exists|j: int|
            0 <= j < channels.len() && (#[trigger] channels[j]).subscribed && channels[j].id@ == id,
    decreases upto,
{
    if !(channels[upto - 1].subscribed && channels[upto - 1].id@ == id) {
        lemma_followed_content_found(channels, id, upto - 1);
    } else {
        assert(channels[upto - 1].subscribed);
    }
}

/// Every video the feed keeps is a video of the library that it keeps.
proof fn lemma_feed_videos_kept(
    videos: Seq<Video>,
    channels: Seq<Channel>,
    groups: Seq<SubscriptionGroup>,
    choice: FeedChoice,
)
    ensures
        forall|k: int|
            0 <= k < feed_videos(videos, channels, groups, choice).len() ==> {
                let v = #[trigger] feed_videos(videos, channels, groups, choice)[k];
                &&& feed_keeps(v, channels, groups, choice)
                &&& exists|i: int| 0 <= i < videos.len() && videos[i] == v
            },
    decreases videos.len(),
{
    if videos.len() > 0 {
        let rest = videos.drop_last();
        lemma_feed_videos_kept(rest, channels, groups, choice);
        let out = feed_videos(videos, channels, groups, choice);
        assert forall|k: int| 0 <= k < out.len() implies {
            let v = #[trigger] out[k];
            &&& feed_keeps(v, channels, groups, choice)
            &&& exists|i: int| 0 <= i < videos.len() && videos[i] == v
        } by {
            let before = feed_videos(rest, channels, groups, choice);
            if k < before.len() {
                assert(out[k] == before[k]);
                let i = choose|i: int| 0 <= i < rest.len() && rest[i] == before[k];
                assert(videos[i] == rest[i]);
            } else {
                assert(out[k] == videos[videos.len() - 1]);
            }
        }
    }
}

/// What the length filter keeps was in its input.
proof fn lemma_of_length_from(videos: Seq<Video>, filter: DurationFilter, thresholds: DurationThresholds)
    ensures
        forall|k: int|
            0 <= k < of_length(videos, filter, thresholds).len() ==> exists|i: int|
                0 <= i < videos.len() && videos[i] == #[trigger] of_length(videos, filter, thresholds)[k],
    decreases videos.len(),
{
    if videos.len() > 0 {
        let rest = videos.drop_last();
        lemma_of_length_from(rest, filter, thresholds);
        let out = of_length(videos, filter, thresholds);
        let before = of_length(rest, filter, thresholds);
        assert forall|k: int| 0 <= k < out.len() implies exists|i: int|
            0 <= i < videos.len() && videos[i] == #[trigger] out[k] by {
            if k < before.len() {
                assert(out[k] == before[k]);
                let i = choose|i: int| 0 <= i < rest.len() && rest[i] == before[k];
                assert(videos[i] == rest[i]);
            } else {
                assert(out[k] == videos[videos.len() - 1]);
            }
        }
    }
}

/// The feed shows only uploads of channels the viewer follows: every video
/// on a page is a video of the library, and some channel of the library
/// with that video's channel id is subscribed. A channel that is still
/// cached but no longer followed contributes nothing.
pub proof fn law_feed_shows_only_subscribed_channels(
    videos: Seq<Video>,
    channels: Seq<Channel>,
    groups: Seq<SubscriptionGroup>,
    choice: FeedChoice,
    thresholds: DurationThresholds,
    page: nat,
    now: int,
    r: LocalFeedPage,
)
    requires
        is_feed_page(videos, channels, groups, choice, thresholds, page, now, r),
    ensures
        forall|k: int|
            0 <= k < r.videos@.len() ==> exists|j: int|
                0 <= j < channels.len() && (#[trigger] channels[j]).subscribed && channels[j].id@
                    == (#[trigger] r.videos@[k]).channel_id@,
        forall|k: int|
            0 <= k < r.videos@.len() ==> exists|i: int| 0 <= i < videos.len() && videos[i] == #[trigger] r.videos@[k],
{
    let kept = feed_videos(videos, channels, groups, choice);
    let sorted = choose|sorted: Seq<Video>|
        #[trigger] is_stable_sort(kept, recency_keys(kept, now), sorted) && {
            let shown = match choice.duration {
                Some(d) => of_length(sorted, d, thresholds),
                None => sorted,
            };
            &&& r.unknown_durations@.map_values(|s: String| s@) == at_most(
                ids_lacking_duration(at_most(sorted, duration_window(page, choice.duration is Some))),
                DURATION_LOOKAHEAD as nat,
            )
            &&& r.without_duration == if choice.duration is Some {
                ids_lacking_duration(sorted).len()
            } else {
                0
            }
            &&& r.videos@ == first_page(shown, page)
            &&& r.remaining == left_off(shown.len(), page)
        };
    let shown = match choice.duration {
        Some(d) => of_length(sorted, d, thresholds),
        None => sorted,
    };
    let p = choose|p: Seq<int>|
        is_permutation(p, kept.len() as int) && stably_sorted(recency_keys(kept, now), p) && sorted
            == rearranged(kept, p);
    lemma_feed_videos_kept(videos, channels, groups, choice);
    match choice.duration {
        Some(d) => lemma_of_length_from(sorted, d, thresholds),
        None => {},
    }
    assert forall|k: int| 0 <= k < r.videos@.len() implies {
        &&& exists|j: int|
            0 <= j < channels.len() && (#[trigger] channels[j]).subscribed && channels[j].id@
                == (#[trigger] r.videos@[k]).channel_id@
        &&& exists|i: int| 0 <= i < videos.len() && videos[i] == r.videos@[k]
    } by {
        let v = r.videos@[k];
        assert(v == shown[k]);
        let si: int = match choice.duration {
            Some(d) => choose|i: int| 0 <= i < sorted.len() && sorted[i] == shown[k],
            None => k,
        };
        assert(0 <= si < sorted.len() && sorted[si] == v);
        assert(sorted[si] == kept[p[si]]);
        let ki = p[si];
        assert(feed_keeps(kept[ki], channels, groups, choice));
        lemma_followed_content_found(channels, v.channel_id@, channels.len() as int);
    }
}

} // verus!
