//! Tests of the CSS variable generator and the decimal renderer.

use seyuna::colormap::color_map_from_pairs;
use seyuna::config::default_config;
use seyuna::config::Config;
use seyuna::cssgen::css_variables;
use seyuna::cssgen::dark_mode_variables;
use seyuna::cssgen::light_mode_variables;
use seyuna::decimal::num_to_string;
use seyuna::decimal::Num;
use seyuna::error::CssError;
use seyuna::ui::Color;
use seyuna::ui::Mode;
use seyuna::ui::Palette;
use seyuna::ui::Theme;
use seyuna::ui::UI;

#[test]
fn decimal_rendering() {
    assert_eq!(num_to_string(&Num::whole(0)), "0");
    assert_eq!(num_to_string(&Num::whole(345)), "345");
    assert_eq!(num_to_string(&Num::frac(7, 1)), "0.7");
    assert_eq!(num_to_string(&Num::frac(0, 1)), "0.0");
    assert_eq!(num_to_string(&Num::frac(10, 1)), "1.0");
    assert_eq!(num_to_string(&Num::frac(1234, 2)), "12.34");
    assert_eq!(num_to_string(&Num::frac(5, 3)), "0.005");
    assert_eq!(num_to_string(&Num { neg: true, mantissa: 5, scale: 1 }), "-0.5");
}

#[test]
fn light_and_dark_blocks_on_default() {
    let config = default_config();
    let light = light_mode_variables(&config).unwrap();
    assert_eq!(
        light,
        "--background: oklch(1.0 0.0 0);--text: oklch(0.0 0.0 0);--chroma: 0.7;--lightness: 0.9;"
    );
    let dark = dark_mode_variables(&config).unwrap();
    assert_eq!(
        dark,
        "--background: oklch(0.0 0.0 0);--text: oklch(1.0 0.0 0);--chroma: 0.7;--lightness: 0.9;"
    );
}

#[test]
fn variables_missing_ui_fails() {
    let config = Config { license: None, ui: None };
    assert_eq!(css_variables(&config), Err(CssError::MissingUiSection));
    assert_eq!(light_mode_variables(&config), Err(CssError::MissingUiSection));
    assert_eq!(dark_mode_variables(&config), Err(CssError::MissingUiSection));
}

#[test]
fn variables_deterministic_and_exact() {
    let palette = |bg_l: u64, tx_l: u64| Palette {
        chroma: Num::frac(7, 1),
        lightness: Num::frac(9, 1),
        background: Color {
            hue: Num::whole(0),
            chroma: Num::frac(0, 1),
            lightness: Num::frac(bg_l, 1),
        },
        text: Color {
            hue: Num::whole(0),
            chroma: Num::frac(0, 1),
            lightness: Num::frac(tx_l, 1),
        },
    };
    let make = || Config {
        license: None,
        ui: Some(UI {
            name: "T".to_string(),
            slogan: "S".to_string(),
            theme: Theme {
                colors: color_map_from_pairs(vec![("accent".to_string(), Num::whole(200))]),
                light: palette(10, 0),
                dark: palette(0, 10),
            },
            mode: Mode::System,
            breakpoints: None,
            output_dir: None,
        }),
    };
    let first = css_variables(&make()).unwrap();
    let second = css_variables(&make()).unwrap();
    assert_eq!(first, second);
    let mode_block = |bg: &str, tx: &str| {
        format!(
            "--background: oklch({} 0.0 0);--text: oklch({} 0.0 0);--chroma: 0.7;--lightness: 0.9;",
            bg, tx
        )
    };
    let light = mode_block("1.0", "0.0");
    let dark = mode_block("0.0", "1.0");
    let expected = format!(
        ":root {{--accent: 200;}}[data-mode=\"light\"] {{{light}}}[data-mode=\"dark\"] {{{dark}}}\
        @media (prefers-color-scheme: light) {{[data-mode=\"system\"] {{{light}}}}}\
        @media (prefers-color-scheme: dark) {{[data-mode=\"system\"] {{{dark}}}}}\
        html {{color: var(--text);background-color: var(--background);\
        font-size: clamp(1rem, 1vw, 4rem);}}"
    );
    assert_eq!(first, expected);
}

#[test]
fn root_block_holds_all_default_colors() {
    let config = default_config();
    let css = css_variables(&config).unwrap();
    let root_end = css.find('}').unwrap();
    let root = &css[..root_end];
    assert!(root.starts_with(":root {"));
    assert_eq!(root.matches("--").count(), 24);
    assert!(root.starts_with(":root {--alpha: 0;--beta: 15;--gamma: 30;"));
    assert!(root.ends_with("--psi: 330;--omega: 345;"));
}
