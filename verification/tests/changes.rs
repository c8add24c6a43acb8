use tawny::data_change::{affected_reads, CachedRead, DataChange};

#[test]
fn each_change_drops_the_reads_built_from_it() {
    assert_eq!(
        affected_reads(DataChange::Subscriptions),
        vec![CachedRead::Viewer, CachedRead::FeedPage, CachedRead::ChannelDetails, CachedRead::VideoDetails]
    );
    assert_eq!(affected_reads(DataChange::Groups), vec![CachedRead::Viewer, CachedRead::FeedPage]);
    assert_eq!(
        affected_reads(DataChange::Playlists),
        vec![CachedRead::Viewer, CachedRead::Playlist, CachedRead::PlaylistPreviews]
    );
    assert_eq!(affected_reads(DataChange::Queue), vec![CachedRead::Viewer]);
    assert_eq!(affected_reads(DataChange::History), vec![CachedRead::Viewer]);
}

#[test]
fn every_change_refreshes_the_viewer() {
    for change in [DataChange::Subscriptions, DataChange::Groups, DataChange::Playlists, DataChange::Queue, DataChange::History] {
        assert!(affected_reads(change).contains(&CachedRead::Viewer));
    }
}
