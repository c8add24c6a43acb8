//! Which cached reads a change affects. After a mutation, the client
//! refetches only the reads whose answers it could have changed: each
//! change names what was written, and `affected_reads` maps it to the
//! reads built from it.
use vstd::prelude::*;

verus! {

/// What a mutation wrote.
#[derive(Clone, Copy, Debug, PartialEq, Eq, Structural)]
pub enum DataChange {
    /// Follows, or which uploads a follow wants: the viewer, the feed, and
    /// the follow button on a channel or video.
    Subscriptions,
    /// Subscription groups: the viewer and the feed's group filter.
    Groups,
    /// A playlist created, renamed, deleted or its videos changed.
    Playlists,
    /// The queue. Its videos are a read keyed by the queue's ids, so a
    /// changed queue is a new key and needs nothing more.
    Queue,
    History,
}

/// A cached read of the server.
#[derive(Clone, Copy, Debug, PartialEq, Eq, Structural)]
pub enum CachedRead {
    Viewer,
    FeedPage,
    ChannelDetails,
    VideoDetails,
    Playlist,
    PlaylistPreviews,
}

/// The reads whose answers `change` could have changed, in the order they
/// are dropped.
pub open spec fn reads_affected_by(change: DataChange) -> Seq<CachedRead> {
    match change {
        DataChange::Subscriptions => seq![
            CachedRead::Viewer,
            CachedRead::FeedPage,
            CachedRead::ChannelDetails,
            CachedRead::VideoDetails,
        ],
        DataChange::Groups => seq![CachedRead::Viewer, CachedRead::FeedPage],
        DataChange::Playlists => seq![
            CachedRead::Viewer,
            CachedRead::Playlist,
            CachedRead::PlaylistPreviews,
        ],
        DataChange::Queue => seq![CachedRead::Viewer],
        DataChange::History => seq![CachedRead::Viewer],
    }
}

/// The reads to drop after `change`.
pub fn affected_reads(change: DataChange) -> (r: Vec<CachedRead>)
    ensures
        r@ == reads_affected_by(change),
{
    match change {
        DataChange::Subscriptions => vec![
            CachedRead::Viewer,
            CachedRead::FeedPage,
            CachedRead::ChannelDetails,
            CachedRead::VideoDetails,
        ],
        DataChange::Groups => vec![CachedRead::Viewer, CachedRead::FeedPage],
        DataChange::Playlists => vec![
            CachedRead::Viewer,
            CachedRead::Playlist,
            CachedRead::PlaylistPreviews,
        ],
        DataChange::Queue => vec![CachedRead::Viewer],
        DataChange::History => vec![CachedRead::Viewer],
    }
}

/// Every change is a change to the viewer's own state, so every change
/// drops the viewer read, and drops no read twice.
pub proof fn law_every_change_refreshes_the_viewer(change: DataChange)
    ensures
        reads_affected_by(change).contains(CachedRead::Viewer),
        reads_affected_by(change).no_duplicates(),
{
    assert(reads_affected_by(change)[0] == CachedRead::Viewer);
}

} // verus!
