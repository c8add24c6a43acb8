//! Channels, and how metadata from different YouTube surfaces is merged.
use vstd::prelude::*;
use crate::count::{compact_count, compact_count_of, count_greater, count_is_greater};
use crate::dates::spells;
use crate::text::{chars_of, trim, trimmed_chars};
use crate::video::copy_text_option;

verus! {

/// Which of a channel's uploads a subscription wants in the feed. A
/// channel's Shorts and its long-form uploads are often two different
/// shows; this narrows a subscription without unsubscribing.
#[derive(Clone, Copy, Debug, PartialEq, Eq, Structural)]
pub enum SubscriptionContent {
    /// Everything the channel publishes, including livestreams.
    All,
    /// Long-form uploads only.
    Videos,
    /// Shorts only.
    Shorts,
}

pub open spec fn storage_name(content: SubscriptionContent) -> Seq<char> {
    match content {
        SubscriptionContent::All => "all"@,
        SubscriptionContent::Videos => "videos"@,
        SubscriptionContent::Shorts => "shorts"@,
    }
}

/// How a stored value reads: an unknown one degrades to everything rather
/// than failing the row.
pub open spec fn content_from_storage(value: Seq<char>) -> SubscriptionContent {
    if value == "videos"@ {
        SubscriptionContent::Videos
    } else if value == "shorts"@ {
        SubscriptionContent::Shorts
    } else {
        SubscriptionContent::All
    }
}

/// Whether a subscription that wants `content` wants an upload in its
/// feed: everything for `All`, long-form uploads for `Videos` (Shorts are
/// dropped), Shorts for `Shorts`.
pub open spec fn content_accepts(content: SubscriptionContent, is_short: bool) -> bool {
    match content {
        SubscriptionContent::All => true,
        SubscriptionContent::Videos => !is_short,
        SubscriptionContent::Shorts => is_short,
    }
}

impl SubscriptionContent {
    /// Whether this subscription wants an upload in the feed.
    pub fn accepts(self, is_short: bool) -> (r: bool)
        ensures
            r == content_accepts(self, is_short),
    {
        match self {
            SubscriptionContent::All => true,
            SubscriptionContent::Videos => !is_short,
            SubscriptionContent::Shorts => is_short,
        }
    }

    /// The default: everything.
    pub fn default() -> (r: SubscriptionContent)
        ensures
            r == SubscriptionContent::All,
    {
        SubscriptionContent::All
    }

    /// SurrealDB stores this as a plain string so the column stays readable
    /// and an unknown value degrades to "everything".
    pub fn from_storage(value: &str) -> (r: SubscriptionContent)
        ensures
            r == content_from_storage(value@),
    {
        let cs = chars_of(value);
        if spells(&cs, "videos") {
            SubscriptionContent::Videos
        } else if spells(&cs, "shorts") {
            SubscriptionContent::Shorts
        } else {
            SubscriptionContent::All
        }
    }

    pub fn as_storage(self) -> (r: &'static str)
        ensures
            r@ == storage_name(self),
    {
        match self {
            SubscriptionContent::All => "all",
            SubscriptionContent::Videos => "videos",
            SubscriptionContent::Shorts => "shorts",
        }
    }

    pub fn label(self) -> (r: &'static str)
        ensures
            r@ == (match self {
                SubscriptionContent::All => "Videos & Shorts"@,
                SubscriptionContent::Videos => "Videos only"@,
                SubscriptionContent::Shorts => "Shorts only"@,
            }),
    {
        match self {
            SubscriptionContent::All => "Videos & Shorts",
            SubscriptionContent::Videos => "Videos only",
            SubscriptionContent::Shorts => "Shorts only",
        }
    }
}

/// Storing a choice and reading it back gives the same choice.
pub proof fn law_storage_round_trip(content: SubscriptionContent)
    ensures
        content_from_storage(storage_name(content)) == content,
{
    reveal_strlit("all");
    reveal_strlit("videos");
    reveal_strlit("shorts");
    assert("all"@.len() != "videos"@.len());
    assert("all"@.len() != "shorts"@.len());
    assert("shorts"@[0] != "videos"@[0]);
}

pub struct Channel {
    pub id: String,
    pub name: String,
    pub handle: String,
    pub avatar_url: Option<String>,
    pub subscriber_count: String,
    pub subscribed: bool,
    pub description: String,
    pub banner_url: Option<String>,
    pub subscription_content: SubscriptionContent,
}

/// A channel by the text of its fields.
pub struct ChannelView {
    pub id: Seq<char>,
    pub name: Seq<char>,
    pub handle: Seq<char>,
    pub avatar_url: Option<Seq<char>>,
    pub subscriber_count: Seq<char>,
    pub subscribed: bool,
    pub description: Seq<char>,
    pub banner_url: Option<Seq<char>>,
    pub subscription_content: SubscriptionContent,
}

pub open spec fn text_of(o: Option<String>) -> Option<Seq<char>> {
    match o {
        Some(s) => Some(s@),
        None => None,
    }
}

impl View for Channel {
    type V = ChannelView;

    open spec fn view(&self) -> ChannelView {
        ChannelView {
            id: self.id@,
            name: self.name@,
            handle: self.handle@,
            avatar_url: text_of(self.avatar_url),
            subscriber_count: self.subscriber_count@,
            subscribed: self.subscribed,
            description: self.description@,
            banner_url: text_of(self.banner_url),
            subscription_content: self.subscription_content,
        }
    }
}

impl Clone for Channel {
    fn clone(&self) -> (r: Self)
        ensures
            r == *self,
    {
        Channel {
            id: self.id.clone(),
            name: self.name.clone(),
            handle: self.handle.clone(),
            avatar_url: copy_text_option(&self.avatar_url),
            subscriber_count: self.subscriber_count.clone(),
            subscribed: self.subscribed,
            description: self.description.clone(),
            banner_url: copy_text_option(&self.banner_url),
            subscription_content: self.subscription_content,
        }
    }
}

/// Whether a discovered subscriber count replaces the cached one: it says
/// something, and either nothing is cached or both read as counts and the
/// discovered one is larger.
pub open spec fn count_replaces(cached: Seq<char>, discovered: Seq<char>) -> bool {
    &&& trim(discovered).len() > 0
    &&& (trim(cached).len() == 0 || match (compact_count(discovered), compact_count(cached)) {
        (Some(new), Some(old)) => count_greater(new, old),
        _ => false,
    })
}

/// `cached` with the metadata `discovered` adds: a field is taken only
/// when the discovered one says something, so a sparse search result
/// cannot erase a richer record; the count only when it is larger; and the
/// subscription state, which is local, never.
pub open spec fn merged_channel(cached: Channel, discovered: Channel) -> Channel {
    Channel {
        name: if trim(discovered.name@).len() > 0 {
            discovered.name
        } else {
            cached.name
        },
        handle: if trim(discovered.handle@).len() > 0 {
            discovered.handle
        } else {
            cached.handle
        },
        avatar_url: if discovered.avatar_url is Some {
            discovered.avatar_url
        } else {
            cached.avatar_url
        },
        banner_url: if discovered.banner_url is Some {
            discovered.banner_url
        } else {
            cached.banner_url
        },
        description: if trim(discovered.description@).len() > 0 {
            discovered.description
        } else {
            cached.description
        },
        subscriber_count: if count_replaces(cached.subscriber_count@, discovered.subscriber_count@) {
            discovered.subscriber_count
        } else {
            cached.subscriber_count
        },
        ..cached
    }
}

/// Whether two optional texts differ.
pub fn text_options_differ(a: &Option<String>, b: &Option<String>) -> (r: bool)
    ensures
        r == (text_of(*a) != text_of(*b)),
{
    match (a, b) {
        (Some(x), Some(y)) => *x != *y,
        (None, None) => false,
        _ => true,
    }
}

/// Whether a text is blank once trimmed.
fn is_blank(s: &String) -> (r: bool)
    ensures
        r == (trim(s@).len() == 0),
{
    trimmed_chars(s.as_str()).len() == 0
}

impl Channel {
    /// Merge metadata discovered by another YouTube surface without letting
    /// a sparse result erase the richer channel record already cached.
    /// Subscription state is local state and is never replaced. Answers
    /// whether anything changed.
    pub fn merge_metadata_from(&mut self, discovered: &Channel) -> (r: bool)
        ensures
            *final(self) == merged_channel(*old(self), *discovered),
            r == (final(self)@ != old(self)@),
    {
        let before = self.clone();
        if !is_blank(&discovered.name) {
            self.name = discovered.name.clone();
        }
        if !is_blank(&discovered.handle) {
            self.handle = discovered.handle.clone();
        }
        if discovered.avatar_url.is_some() {
            self.avatar_url = copy_text_option(&discovered.avatar_url);
        }
        if discovered.banner_url.is_some() {
            self.banner_url = copy_text_option(&discovered.banner_url);
        }
        if !is_blank(&discovered.description) {
            self.description = discovered.description.clone();
        }
        let replaces = if is_blank(&discovered.subscriber_count) {
            false
        } else if is_blank(&self.subscriber_count) {
            true
        } else {
            match (
                compact_count_of(discovered.subscriber_count.as_str()),
                compact_count_of(self.subscriber_count.as_str()),
            ) {
                (Some(new), Some(old)) => count_is_greater(&new, &old),
                _ => false,
            }
        };
        if replaces {
            self.subscriber_count = discovered.subscriber_count.clone();
        }
        let changed = self.name != before.name || self.handle != before.handle
            || text_options_differ(&self.avatar_url, &before.avatar_url)
            || self.subscriber_count != before.subscriber_count || self.description
            != before.description || text_options_differ(&self.banner_url, &before.banner_url);
        assert(!changed ==> self@ == before@);
        changed
    }
}

/// A merge never erases what the cache knows: an avatar or banner stays
/// known, a name, handle or description that says something still does,
/// and the channel's id and the viewer's subscription are untouched.
pub proof fn law_merge_never_erases_known_metadata(cached: Channel, discovered: Channel)
    ensures
        ({
            let m = merged_channel(cached, discovered);
            &&& cached.avatar_url is Some ==> m.avatar_url is Some
            &&& cached.banner_url is Some ==> m.banner_url is Some
            &&& trim(cached.name@).len() > 0 ==> trim(m.name@).len() > 0
            &&& trim(cached.handle@).len() > 0 ==> trim(m.handle@).len() > 0
            &&& trim(cached.description@).len() > 0 ==> trim(m.description@).len() > 0
            &&& trim(cached.subscriber_count@).len() > 0 ==> trim(m.subscriber_count@).len() > 0
            &&& m.id == cached.id
            &&& m.subscribed == cached.subscribed
            &&& m.subscription_content == cached.subscription_content
        }),
{
}

/// Merging the same discovery twice changes nothing the first merge did
/// not: a count never beats itself.
pub proof fn law_merging_twice_is_merging_once(cached: Channel, discovered: Channel)
    ensures
        merged_channel(merged_channel(cached, discovered), discovered) == merged_channel(
            cached,
            discovered,
        ),
{
    let once = merged_channel(cached, discovered);
    if count_replaces(cached.subscriber_count@, discovered.subscriber_count@) {
        assert(once.subscriber_count == discovered.subscriber_count);
        match (compact_count(discovered.subscriber_count@), compact_count(discovered.subscriber_count@)) {
            (Some(a), Some(b)) => {
                assert(!count_greater(a, b));
            },
            _ => {},
        }
        assert(!count_replaces(once.subscriber_count@, discovered.subscriber_count@));
    }
}

} // verus!
