use tawny::config::{backend_url, default_backend_url, has_chosen_backend, normalize_backend_url, set_backend_url};

#[test]
fn a_trailing_slash_is_removed_before_it_becomes_a_double_slash() {
    assert_eq!(normalize_backend_url("https://tawny.example/"), Some("https://tawny.example".into()));
    assert_eq!(
        normalize_backend_url("  http://192.168.1.10:8080///  "),
        Some("http://192.168.1.10:8080".into())
    );
}

#[test]
fn a_url_without_a_scheme_is_refused_rather_than_resolved_against_the_page() {
    assert_eq!(normalize_backend_url("tawny.example"), None);
    assert_eq!(normalize_backend_url("192.168.1.10:8080"), None);
    assert_eq!(normalize_backend_url("//tawny.example"), None);
    assert_eq!(normalize_backend_url("ftp://tawny.example"), None);
}

#[test]
fn empty_input_is_not_a_backend() {
    assert_eq!(normalize_backend_url(""), None);
    assert_eq!(normalize_backend_url("   "), None);
    assert_eq!(normalize_backend_url("/"), None);
    assert_eq!(normalize_backend_url("https://"), None);
}

#[test]
fn both_supported_schemes_survive() {
    assert_eq!(normalize_backend_url("http://localhost:8080"), Some("http://localhost:8080".into()));
    assert_eq!(normalize_backend_url("https://tawny.example"), Some("https://tawny.example".into()));
}

#[test]
fn a_second_scheme_separator_right_after_the_first_is_refused() {
    assert_eq!(normalize_backend_url("http://://x"), None);
}

#[test]
fn a_stored_backend_wins_over_the_defaults() {
    assert_eq!(backend_url(Some("https://mine.example/"), Some("https://built.example"), false), "https://mine.example");
    assert_eq!(backend_url(Some("not a url"), Some("https://built.example"), false), "https://built.example");
    assert_eq!(backend_url(None, None, false), "http://localhost:8080");
    assert_eq!(backend_url(None, None, true), "http://127.0.0.1:8080");
    assert_eq!(default_backend_url(Some("https://built.example"), true), "https://built.example");
}

#[test]
fn only_a_usable_stored_value_counts_as_a_choice() {
    assert!(has_chosen_backend(Some("https://mine.example")));
    assert!(!has_chosen_backend(Some("mine.example")));
    assert!(!has_chosen_backend(None));
}

#[test]
fn setting_a_backend_records_its_normal_form() {
    assert_eq!(set_backend_url(" https://mine.example// "), Some("https://mine.example".into()));
    assert_eq!(set_backend_url("mine.example"), None);
}

#[test]
fn a_normal_form_normalises_to_itself() {
    let once = normalize_backend_url("  https://tawny.example/ ").unwrap();
    assert_eq!(normalize_backend_url(&once), Some(once.clone()));
}
