use tawny::sponsor::{
    timeline_segments, SponsorAction, SponsorBlockSettings, SponsorCategory, SponsorSegment,
};
use tawny::sponsor_query::{categories_from_query, categories_query};

#[test]
fn api_names_round_trip() {
    for category in SponsorCategory::all() {
        assert_eq!(SponsorCategory::from_api_name(category.api_name()), Some(category), "{category:?}");
    }
    assert_eq!(SponsorCategory::from_api_name("not_a_category"), None);
}

#[test]
fn the_wire_names_are_sponsorblocks_own() {
    assert_eq!(SponsorCategory::MusicOfftopic.api_name(), "music_offtopic");
    assert_eq!(SponsorCategory::from_api_name("poi_highlight"), Some(SponsorCategory::Highlight));
    assert_eq!(SponsorCategory::from_api_name("selfpromo"), Some(SponsorCategory::SelfPromo));
}

#[test]
fn disabling_sponsorblock_turns_every_category_off() {
    let mut settings = SponsorBlockSettings::default();
    assert_eq!(settings.action_for(SponsorCategory::Sponsor), SponsorAction::Skip);
    settings.enabled = false;
    for category in SponsorCategory::all() {
        assert_eq!(settings.action_for(category), SponsorAction::Off);
    }
    assert!(settings.requested_categories().is_empty());
}

#[test]
fn only_the_categories_in_use_are_requested() {
    let mut settings = SponsorBlockSettings::default();
    settings.set_action(SponsorCategory::Sponsor, SponsorAction::Off);
    let requested = settings.requested_categories();
    assert!(!requested.contains(&SponsorCategory::Sponsor));
    assert!(requested.contains(&SponsorCategory::Intro));
}

#[test]
fn a_category_missing_from_stored_settings_falls_back_to_its_default() {
    let settings = SponsorBlockSettings { enabled: true, notify_on_skip: true, categories: Vec::new() };
    assert_eq!(settings.action_for(SponsorCategory::Sponsor), SponsorAction::Skip);
    assert_eq!(settings.action_for(SponsorCategory::Filler), SponsorAction::Off);
}

#[test]
fn a_highlight_is_a_point_and_nothing_else_is() {
    for category in SponsorCategory::all() {
        assert_eq!(category.is_point(), category == SponsorCategory::Highlight, "{category:?}");
    }
}

#[test]
fn a_set_action_is_read_back() {
    let mut settings = SponsorBlockSettings::default();
    settings.set_action(SponsorCategory::Filler, SponsorAction::Show);
    assert_eq!(settings.action_for(SponsorCategory::Filler), SponsorAction::Show);
    assert_eq!(settings.action_for(SponsorCategory::Sponsor), SponsorAction::Skip);
}

fn segment(category: SponsorCategory, start: f64, end: f64) -> SponsorSegment {
    SponsorSegment {
        uuid: format!("{category:?}"),
        category,
        start_seconds_bits: start.to_bits(),
        end_seconds_bits: end.to_bits(),
        locked: false,
        votes: 0,
    }
}

#[test]
fn an_ignored_category_never_reaches_the_player() {
    let mut settings = SponsorBlockSettings::default();
    settings.set_action(SponsorCategory::Sponsor, SponsorAction::Off);
    let resolved = timeline_segments(
        &vec![segment(SponsorCategory::Sponsor, 0.0, 10.0), segment(SponsorCategory::Intro, 10.0, 20.0)],
        &settings,
    );
    assert_eq!(resolved.len(), 1);
    assert_eq!(resolved[0].action, "show");
}

#[test]
fn the_action_the_player_gets_is_the_viewers_choice() {
    let mut settings = SponsorBlockSettings::default();
    settings.set_action(SponsorCategory::Intro, SponsorAction::Skip);
    let resolved = timeline_segments(&vec![segment(SponsorCategory::Intro, 0.0, 5.0)], &settings);
    assert_eq!(resolved[0].action, "skip");
    assert_eq!(resolved[0].color, SponsorCategory::Intro.color());
}

#[test]
fn turning_sponsorblock_off_empties_the_timeline() {
    let settings = SponsorBlockSettings { enabled: false, ..SponsorBlockSettings::default() };
    assert!(timeline_segments(&vec![segment(SponsorCategory::Sponsor, 0.0, 10.0)], &settings).is_empty());
}

#[test]
fn a_resolved_segment_keeps_its_times() {
    let settings = SponsorBlockSettings::default();
    let resolved = timeline_segments(&vec![segment(SponsorCategory::Sponsor, 1.5, 7.25)], &settings);
    assert_eq!(f64::from_bits(resolved[0].start_seconds_bits), 1.5);
    assert_eq!(f64::from_bits(resolved[0].end_seconds_bits), 7.25);
    assert_eq!(resolved[0].uuid, "Sponsor");
}

#[test]
fn the_category_request_round_trips() {
    let settings = SponsorBlockSettings::default();
    let requested = settings.requested_categories();
    let query = categories_query(&requested);
    assert_eq!(categories_from_query(&query), requested);
    assert_eq!(categories_query(&vec![SponsorCategory::Sponsor, SponsorCategory::Highlight]), "sponsor,poi_highlight");
}

#[test]
fn unknown_and_empty_names_in_a_request_are_passed_over() {
    assert_eq!(
        categories_from_query(",sponsor,,nonsense,intro,"),
        vec![SponsorCategory::Sponsor, SponsorCategory::Intro]
    );
    assert!(categories_from_query("").is_empty());
}
