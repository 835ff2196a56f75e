//! Tests of output path construction and of the watch-loop debounce.

use seyuna::error::CssError;
use seyuna::paths::create_path_from_file_name;
use seyuna::watch::Debouncer;

#[test]
fn path_joins_directory_and_name() {
    let p = create_path_from_file_name("seyuna-global.css", "styles").unwrap();
    assert_eq!(p, "styles/seyuna-global.css");
}

#[test]
fn path_keeps_single_separator() {
    let p = create_path_from_file_name("a.css", "out/").unwrap();
    assert_eq!(p, "out/a.css");
}

#[test]
fn path_absolute_name_stands_alone() {
    let p = create_path_from_file_name("/tmp/a.css", "styles").unwrap();
    assert_eq!(p, "/tmp/a.css");
}

#[test]
fn path_rejects_blank_name() {
    assert_eq!(create_path_from_file_name("  ", "styles"), Err(CssError::EmptyFileName));
    assert_eq!(create_path_from_file_name("", "styles"), Err(CssError::EmptyFileName));
}

#[test]
fn path_rejects_blank_directory() {
    assert_eq!(create_path_from_file_name("a.css", " \t"), Err(CssError::EmptyOutputDir));
}

#[test]
fn path_rejects_unicode_blanks() {
    assert_eq!(create_path_from_file_name("a.css", "\u{a0}"), Err(CssError::EmptyOutputDir));
    assert_eq!(
        create_path_from_file_name("\u{2003}\u{2003}", "styles"),
        Err(CssError::EmptyFileName)
    );
    let p = create_path_from_file_name("a\u{a0}b.css", "styles").unwrap();
    assert_eq!(p, "styles/a\u{a0}b.css");
}

#[test]
fn debounce_drops_close_events() {
    let mut d = Debouncer::new(1000);
    assert!(d.on_event(true, 1200));
    assert!(!d.on_event(true, 1250));
    assert_eq!(d.last_accepted_ms, 1200);
}

#[test]
fn debounce_accepts_spaced_events() {
    let mut d = Debouncer::new(1000);
    assert!(d.on_event(true, 1200));
    assert!(d.on_event(true, 1400));
    assert_eq!(d.last_accepted_ms, 1400);
}

#[test]
fn debounce_ignores_other_event_kinds() {
    let mut d = Debouncer::new(0);
    assert!(!d.on_event(false, 10_000));
    assert_eq!(d.last_accepted_ms, 0);
}

#[test]
fn debounce_window_boundary() {
    let mut d = Debouncer::new(1000);
    assert!(!d.on_event(true, 1099));
    assert!(d.on_event(true, 1100));
}
