use tawny::settings::Appearance;
use tawny::theme::palette;

#[test]
fn amber_is_the_accent_by_night_and_rust_by_day() {
    let dark = palette(Appearance::Dark);
    assert_eq!(dark.accent, "#f5a524");
    assert_eq!(dark.on_accent, "#1a1206");
    assert_eq!(dark.color_scheme, "dark");
    let light = palette(Appearance::Light);
    assert_eq!(light.accent, "#a9530b");
    assert_eq!(light.bg, "#d8c5a8");
    assert_eq!(light.color_scheme, "light");
}
