//! Tests of the stylesheet assembler and the full pipeline.

use seyuna::assemble::assemble;
use seyuna::assemble::compile_css;
use seyuna::config::default_config;
use seyuna::error::CssError;

#[test]
fn assemble_minifies_valid_css() {
    let css = assemble(&vec!["html {color: red;}".to_string()], 80).unwrap();
    assert!(css.contains("html"));
    assert!(css.contains("red"));
    assert!(css.len() < "html {color: red;}".len());
}

#[test]
fn assemble_concatenates_in_order() {
    let a = "html {color: red;}".to_string();
    let b = "body {margin: 0;}".to_string();
    let css = assemble(&vec![a, b], 80).unwrap();
    let html_pos = css.find("html").unwrap();
    let body_pos = css.find("body").unwrap();
    assert!(html_pos < body_pos);
}

#[test]
fn assemble_all_or_nothing_on_parse_failure() {
    let bad = "this is not css at all %%%".to_string();
    let r = assemble(&vec![bad.clone()], 80);
    match r {
        Err(CssError::ParseError { length, snippet }) => {
            assert_eq!(length, bad.chars().count());
            assert_eq!(snippet, bad);
        },
        other => panic!("expected a parse error, got {:?}", other),
    }
}

#[test]
fn assemble_truncates_long_snippet() {
    let bad = format!("@@@ {}", "x".repeat(400));
    let r = assemble(&vec![bad.clone()], 80);
    match r {
        Err(CssError::ParseError { length, snippet }) => {
            assert_eq!(length, bad.chars().count());
            assert_eq!(snippet.chars().count(), 200);
            assert!(bad.starts_with(&snippet));
        },
        other => panic!("expected a parse error, got {:?}", other),
    }
}

#[test]
fn compile_default_configuration() {
    let compiled = compile_css(&default_config()).unwrap();
    assert_eq!(compiled.path, "styles/seyuna-global.css");
    let css = compiled.css;
    assert!(css.contains(":root"), "css was: {}", css);
    assert!(css.contains("--alpha:"));
    assert!(css.contains("--omega:"));
    assert!(css.contains("data-mode"));
    assert!(css.contains("prefers-color-scheme"));
    let root_start = css.find(":root").unwrap();
    let root_end = root_start + css[root_start..].find('}').unwrap();
    let root = &css[root_start..root_end];
    assert_eq!(root.matches("--").count(), 24);
}

#[test]
fn compile_with_breakpoints_appends_scaling_queries() {
    let mut config = default_config();
    if let Some(ui) = config.ui.as_mut() {
        ui.breakpoints = Some(seyuna::ui::Breakpoints {
            viewport: seyuna::ui::Viewport {
                sm: Some(seyuna::decimal::Num::whole(640)),
                md: Some(seyuna::decimal::Num::whole(768)),
                lg: Some(seyuna::decimal::Num::whole(1024)),
                xl: Some(seyuna::decimal::Num::whole(1280)),
                xl2: Some(seyuna::decimal::Num::whole(1536)),
                xl3: Some(seyuna::decimal::Num::whole(1792)),
                xl4: Some(seyuna::decimal::Num::whole(1920)),
            },
            container: Vec::new(),
        });
    }
    let compiled = compile_css(&config).unwrap();
    assert!(compiled.css.contains("1920px"));
    assert!(compiled.css.contains("3820px"));
    assert!(compiled.css.contains("font-size"));
}

#[test]
fn compile_missing_breakpoint_fails_whole_pipeline() {
    let mut config = default_config();
    if let Some(ui) = config.ui.as_mut() {
        ui.breakpoints = Some(seyuna::ui::Breakpoints {
            viewport: seyuna::ui::Viewport {
                sm: None,
                md: None,
                lg: None,
                xl: None,
                xl2: None,
                xl3: None,
                xl4: Some(seyuna::decimal::Num::whole(1920)),
            },
            container: Vec::new(),
        });
    }
    let r = compile_css(&config);
    assert!(matches!(
        r,
        Err(CssError::MissingBreakpoint(seyuna::ui::Breakpoint::Xl2))
    ));
}

#[test]
fn compiled_output_round_trips_through_the_parser() {
    let compiled = compile_css(&default_config()).unwrap();
    let again = assemble(&vec![compiled.css.clone()], 80).unwrap();
    assert!(!again.is_empty());
}

#[test]
fn compile_missing_ui_fails() {
    let config = seyuna::config::Config { license: None, ui: None };
    let r = compile_css(&config);
    assert!(matches!(r, Err(CssError::MissingUiSection)));
}
