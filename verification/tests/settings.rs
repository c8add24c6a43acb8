use tawny::settings::AppSettings;

#[test]
fn audio_preference_starts_with_english() {
    assert_eq!(AppSettings::default().preferred_audio_language, "en");
}

#[test]
fn a_speed_set_for_shorts_is_read_back_for_shorts_only() {
    let mut settings = AppSettings::default();
    let regular = settings.speed_for(false);
    settings.set_speed_for(true, 1.5f64.to_bits());
    assert_eq!(f64::from_bits(settings.speed_for(true)), 1.5);
    assert_eq!(settings.speed_for(false), regular);
}

#[test]
fn autoplay_is_kept_per_kind() {
    let mut settings = AppSettings::default();
    settings.set_autoplay_for(true, false);
    assert!(!settings.autoplay_for(true));
    settings.set_autoplay_for(false, true);
    assert!(settings.autoplay_for(false));
}

#[test]
fn raising_the_video_short_edge_lifts_medium_a_minute_above_it() {
    let mut settings = AppSettings::default();
    settings.set_video_short_max_minutes(40);
    assert_eq!(settings.video_short_max_seconds, 2400);
    assert_eq!(settings.video_medium_max_seconds, 2460);
    settings.set_video_short_max_minutes(5);
    assert_eq!(settings.video_short_max_seconds, 300);
    assert_eq!(settings.video_medium_max_seconds, 2460);
}

#[test]
fn the_video_medium_edge_stays_a_minute_above_short() {
    let mut settings = AppSettings::default();
    settings.set_video_medium_max_minutes(5);
    assert_eq!(settings.video_medium_max_seconds, 660);
    settings.set_video_medium_max_minutes(50);
    assert_eq!(settings.video_medium_max_seconds, 3000);
    assert_eq!(settings.video_short_max_seconds, 600);
}

#[test]
fn the_shorts_edges_keep_a_second_apart() {
    let mut settings = AppSettings::default();
    settings.set_shorts_short_max_seconds(90);
    assert_eq!(settings.shorts_short_max_seconds, 90);
    assert_eq!(settings.shorts_medium_max_seconds, 91);
    settings.set_shorts_medium_max_seconds(10);
    assert_eq!(settings.shorts_medium_max_seconds, 91);
    settings.set_shorts_medium_max_seconds(120);
    assert_eq!(settings.shorts_medium_max_seconds, 120);
    assert_eq!(settings.video_medium_max_seconds, 2100);
}
