//! The colours the app is drawn in, for each appearance.
use vstd::prelude::*;
use crate::settings::Appearance;

verus! {

/// The colours of one appearance, as CSS values.
pub struct Palette {
    pub accent: &'static str,
    pub on_accent: &'static str,
    pub text: &'static str,
    pub text_secondary: &'static str,
    pub text_tertiary: &'static str,
    pub bg: &'static str,
    pub bg_secondary: &'static str,
    pub card: &'static str,
    pub surface: &'static str,
    pub control: &'static str,
    pub border: &'static str,
    pub shadow: &'static str,
    pub success: &'static str,
    pub warning: &'static str,
    pub on_warning: &'static str,
    pub danger: &'static str,
    pub color_scheme: &'static str,
}

/// Whether `p` holds these colours, in field order.
pub open spec fn palette_is(p: Palette, colours: Seq<Seq<char>>) -> bool {
    &&& colours.len() == 17
    &&& p.accent@ == colours[0]
    &&& p.on_accent@ == colours[1]
    &&& p.text@ == colours[2]
    &&& p.text_secondary@ == colours[3]
    &&& p.text_tertiary@ == colours[4]
    &&& p.bg@ == colours[5]
    &&& p.bg_secondary@ == colours[6]
    &&& p.card@ == colours[7]
    &&& p.surface@ == colours[8]
    &&& p.control@ == colours[9]
    &&& p.border@ == colours[10]
    &&& p.shadow@ == colours[11]
    &&& p.success@ == colours[12]
    &&& p.warning@ == colours[13]
    &&& p.on_warning@ == colours[14]
    &&& p.danger@ == colours[15]
    &&& p.color_scheme@ == colours[16]
}

/// Tawny at night: amber on near-black. Amber is light, so what sits on it
/// is dark.
pub open spec fn dark_colours() -> Seq<Seq<char>> {
    seq!["#f5a524"@, "#1a1206"@, "#f8fafc"@, "#a8b3bf"@, "#9aa6b2"@, "#0b0f14"@, "#10161e"@, "#141b24"@, "#18212c"@, "rgba(255, 255, 255, 0.09)"@, "rgba(255, 255, 255, 0.09)"@, "rgba(0, 0, 0, 0.42)"@, "#5bc987"@, "#f5a524"@, "#1a1206"@, "#ff6b6b"@, "dark"@]
}

/// Tawny in daylight: warm parchment and weathered-sage layers, not a white
/// system theme with an orange accent, every elevation visibly distinct.
pub open spec fn light_colours() -> Seq<Seq<char>> {
    seq!["#a9530b"@, "#ffffff"@, "#342a21"@, "#725f4d"@, "#725f4d"@, "#d8c5a8"@, "#cbb595"@, "#eadcc5"@, "#e3d2b8"@, "#d4bea0"@, "#bea27f"@, "rgba(70, 45, 25, 0.24)"@, "#178451"@, "#a9530b"@, "#ffffff"@, "#c93b45"@, "light"@]
}

/// The palette an appearance draws with.
pub fn palette(appearance: Appearance) -> (r: Palette)
    ensures
        palette_is(r, match appearance {
            Appearance::Dark => dark_colours(),
            Appearance::Light => light_colours(),
        }),
{
    match appearance {
        Appearance::Dark => Palette {
            accent: "#f5a524",
            on_accent: "#1a1206",
            text: "#f8fafc",
            text_secondary: "#a8b3bf",
            text_tertiary: "#9aa6b2",
            bg: "#0b0f14",
            bg_secondary: "#10161e",
            card: "#141b24",
            surface: "#18212c",
            control: "rgba(255, 255, 255, 0.09)",
            border: "rgba(255, 255, 255, 0.09)",
            shadow: "rgba(0, 0, 0, 0.42)",
            success: "#5bc987",
            warning: "#f5a524",
            on_warning: "#1a1206",
            danger: "#ff6b6b",
            color_scheme: "dark",
        },
        Appearance::Light => Palette {
            accent: "#a9530b",
            on_accent: "#ffffff",
            text: "#342a21",
            text_secondary: "#725f4d",
            text_tertiary: "#725f4d",
            bg: "#d8c5a8",
            bg_secondary: "#cbb595",
            card: "#eadcc5",
            surface: "#e3d2b8",
            control: "#d4bea0",
            border: "#bea27f",
            shadow: "rgba(70, 45, 25, 0.24)",
            success: "#178451",
            warning: "#a9530b",
            on_warning: "#ffffff",
            danger: "#c93b45",
            color_scheme: "light",
        },
    }
}

} // verus!
