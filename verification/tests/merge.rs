//! Tests of the configuration merge engine.

use seyuna::colormap::color_map_from_pairs;
use seyuna::config::default_config;
use seyuna::config::Config;
use seyuna::decimal::Num;
use seyuna::ui::Color;
use seyuna::ui::Mode;
use seyuna::ui::Palette;
use seyuna::ui::Theme;
use seyuna::ui::UI;

fn pairs(entries: &[(&str, u64)]) -> Vec<(String, Num)> {
    entries.iter().map(|(k, v)| (k.to_string(), Num::whole(*v))).collect()
}

fn sample_palette(l: u64) -> Palette {
    Palette {
        chroma: Num::frac(5, 1),
        lightness: Num::whole(l),
        background: Color {
            hue: Num::whole(10),
            chroma: Num::frac(1, 1),
            lightness: Num::frac(95, 2),
        },
        text: Color {
            hue: Num::whole(20),
            chroma: Num::frac(2, 1),
            lightness: Num::frac(5, 2),
        },
    }
}

fn sample_ui(name: &str, slogan: &str, colors: &[(&str, u64)], mode: Mode, dir: Option<&str>) -> UI {
    UI {
        name: name.to_string(),
        slogan: slogan.to_string(),
        theme: Theme {
            colors: color_map_from_pairs(pairs(colors)),
            light: sample_palette(1),
            dark: sample_palette(0),
        },
        mode,
        breakpoints: None,
        output_dir: dir.map(|d| d.to_string()),
    }
}

#[test]
fn merge_identity_on_default() {
    let merged = default_config().merge(default_config());
    let expected = default_config();
    assert_eq!(merged.license, expected.license);
    let m = merged.ui.unwrap();
    let e = expected.ui.unwrap();
    assert_eq!(m.name, e.name);
    assert_eq!(m.slogan, e.slogan);
    assert_eq!(m.mode, e.mode);
    assert_eq!(m.output_dir, e.output_dir);
    assert!(m.breakpoints.is_none() && e.breakpoints.is_none());
    assert_eq!(m.theme.color_pairs(), e.theme.color_pairs());
    assert_eq!(m.theme.light, e.theme.light);
    assert_eq!(m.theme.dark, e.theme.dark);
}

#[test]
fn merge_partial_fields_fall_back() {
    let base = Config {
        license: Some("base-license".to_string()),
        ui: Some(sample_ui("Base", "Base slogan", &[("a", 0)], Mode::Light, Some("out"))),
    };
    let override_ = Config {
        license: None,
        ui: Some(sample_ui("", "New slogan", &[], Mode::Dark, None)),
    };
    let merged = base.merge(override_);
    assert_eq!(merged.license, Some("base-license".to_string()));
    let u = merged.ui.unwrap();
    assert_eq!(u.name, "Base");
    assert_eq!(u.slogan, "New slogan");
    assert!(matches!(u.mode, Mode::Dark));
    assert_eq!(u.output_dir, Some("out".to_string()));
    assert_eq!(u.theme.color_pairs(), pairs(&[("a", 0)]));
}

#[test]
fn merge_present_fields_win() {
    let base = Config {
        license: None,
        ui: Some(sample_ui("Base", "Base slogan", &[("a", 0)], Mode::Light, Some("out"))),
    };
    let override_ = Config {
        license: Some("new-license".to_string()),
        ui: Some(sample_ui("New", "", &[], Mode::System, Some("elsewhere"))),
    };
    let merged = base.merge(override_);
    assert_eq!(merged.license, Some("new-license".to_string()));
    let u = merged.ui.unwrap();
    assert_eq!(u.name, "New");
    assert_eq!(u.slogan, "Base slogan");
    assert!(matches!(u.mode, Mode::System));
    assert_eq!(u.output_dir, Some("elsewhere".to_string()));
}

#[test]
fn merge_missing_ui_keeps_base() {
    let base = Config {
        license: None,
        ui: Some(sample_ui("Base", "S", &[("a", 1)], Mode::Light, Some("out"))),
    };
    let override_ = Config { license: None, ui: None };
    let merged = base.merge(override_);
    let u = merged.ui.unwrap();
    assert_eq!(u.name, "Base");
    assert_eq!(u.theme.color_pairs(), pairs(&[("a", 1)]));
}

#[test]
fn ordered_mapping_merge() {
    let base = Theme {
        colors: color_map_from_pairs(pairs(&[("a", 0), ("b", 15)])),
        light: sample_palette(1),
        dark: sample_palette(0),
    };
    let override_ = Theme {
        colors: color_map_from_pairs(pairs(&[("b", 99), ("c", 200)])),
        light: sample_palette(1),
        dark: sample_palette(0),
    };
    let merged = base.merge(override_);
    let expected = pairs(&[("a", 0), ("b", 99), ("c", 200)]);
    assert_eq!(merged.color_pairs(), expected);
}

#[test]
fn from_pairs_repeated_key_keeps_position_takes_last_value() {
    let theme = Theme {
        colors: color_map_from_pairs(pairs(&[("a", 1), ("b", 2), ("a", 3)])),
        light: sample_palette(1),
        dark: sample_palette(0),
    };
    assert_eq!(theme.color_pairs(), pairs(&[("a", 3), ("b", 2)]));
}

#[test]
fn merge_palettes_take_override() {
    let base = sample_ui("A", "B", &[], Mode::Light, None);
    let mut override_ = sample_ui("A", "B", &[], Mode::Light, None);
    override_.theme.light = sample_palette(7);
    override_.theme.dark = sample_palette(8);
    let merged = base.merge(override_);
    assert_eq!(merged.theme.light, sample_palette(7));
    assert_eq!(merged.theme.dark, sample_palette(8));
}
