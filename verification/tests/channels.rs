use tawny::channel::{Channel, SubscriptionContent};

fn channel(count: &str) -> Channel {
    Channel {
        id: "UC-test".into(),
        name: "Veritasium".into(),
        handle: "@veritasium".into(),
        avatar_url: Some("rich-avatar".into()),
        subscriber_count: count.into(),
        subscribed: true,
        description: "Rich description".into(),
        banner_url: Some("rich-banner".into()),
        subscription_content: SubscriptionContent::All,
    }
}

#[test]
fn sparse_channel_metadata_does_not_erase_richer_cache() {
    let mut cached = channel("21.1M");
    let mut sparse = channel("528");
    sparse.avatar_url = None;
    sparse.banner_url = None;
    sparse.description.clear();
    sparse.subscribed = false;

    cached.merge_metadata_from(&sparse);

    assert_eq!(cached.subscriber_count, "21.1M");
    assert_eq!(cached.avatar_url.as_deref(), Some("rich-avatar"));
    assert_eq!(cached.banner_url.as_deref(), Some("rich-banner"));
    assert_eq!(cached.description, "Rich description");
    assert!(cached.subscribed);
}

#[test]
fn richer_channel_count_wins_even_with_a_label() {
    let mut cached = channel("528 subscribers");
    let discovered = channel("21.1M subscribers");
    cached.merge_metadata_from(&discovered);
    assert_eq!(cached.subscriber_count, "21.1M subscribers");
}

#[test]
fn merging_richer_metadata_reports_a_change_and_a_second_merge_does_not() {
    let mut cached = channel("528");
    let discovered = channel("21.1M");
    assert!(cached.merge_metadata_from(&discovered));
    assert!(!cached.merge_metadata_from(&discovered));
    assert_eq!(cached.subscriber_count, "21.1M");
}

#[test]
fn subscription_content_survives_storage() {
    for content in [SubscriptionContent::All, SubscriptionContent::Videos, SubscriptionContent::Shorts] {
        assert_eq!(SubscriptionContent::from_storage(content.as_storage()), content);
    }
    assert_eq!(SubscriptionContent::from_storage("something else"), SubscriptionContent::All);
}
