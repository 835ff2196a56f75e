//! Tests of the responsive scale generator.

use seyuna::decimal::Num;
use seyuna::error::CssError;
use seyuna::cssgen::generate_upscale;
use seyuna::ui::Breakpoint;
use seyuna::ui::Viewport;

fn viewport(xl2: Option<Num>, xl4: Option<Num>) -> Viewport {
    Viewport {
        sm: Some(Num::whole(640)),
        md: Some(Num::whole(768)),
        lg: Some(Num::whole(1024)),
        xl: Some(Num::whole(1280)),
        xl2,
        xl3: Some(Num::whole(1792)),
        xl4,
    }
}

#[test]
fn upscale_emits_twenty_increasing_queries() {
    let v = viewport(Some(Num::whole(1536)), Some(Num::whole(1920)));
    let css = generate_upscale(Breakpoint::Xl2, Breakpoint::Xl4, &v).unwrap();
    assert_eq!(css.matches("@media").count(), 20);
    let mut width = 1920;
    let mut last_size = 1.0_f64;
    let mut rest = css.as_str();
    while let Some(pos) = rest.find("@media (min-width: ") {
        let tail = &rest[pos + "@media (min-width: ".len()..];
        let px_end = tail.find("px").unwrap();
        assert_eq!(&tail[..px_end], width.to_string());
        let fs_start = tail.find("font-size: ").unwrap() + "font-size: ".len();
        let fs_end = tail.find("rem").unwrap();
        let text = &tail[fs_start..fs_end];
        let frac = text.split('.').nth(1).unwrap();
        assert_eq!(frac.len(), 4);
        let size: f64 = text.parse().unwrap();
        assert!(size > last_size);
        last_size = size;
        width += 100;
        rest = &tail[fs_end..];
    }
    assert_eq!(width, 3920);
}

#[test]
fn upscale_exact_values() {
    let v = viewport(Some(Num::whole(1536)), Some(Num::whole(1920)));
    let css = generate_upscale(Breakpoint::Xl2, Breakpoint::Xl4, &v).unwrap();
    assert!(css.starts_with("@media (min-width: 1920px) {html {font-size: 1.0651rem;}}"));
    assert!(css.contains("@media (min-width: 2020px) {html {font-size: 1.1302rem;}}"));
    assert!(css.ends_with("@media (min-width: 3820px) {html {font-size: 2.3021rem;}}"));
}

#[test]
fn upscale_missing_breakpoint_fails_without_output() {
    let v = viewport(None, Some(Num::whole(1920)));
    let r = generate_upscale(Breakpoint::Xl2, Breakpoint::Xl4, &v);
    assert_eq!(r, Err(CssError::MissingBreakpoint(Breakpoint::Xl2)));

    let v = viewport(Some(Num::whole(1536)), None);
    let r = generate_upscale(Breakpoint::Xl2, Breakpoint::Xl4, &v);
    assert_eq!(r, Err(CssError::MissingBreakpoint(Breakpoint::Xl4)));
}

#[test]
fn upscale_rejects_fractional_width() {
    let v = viewport(Some(Num::frac(15365, 1)), Some(Num::whole(1920)));
    let r = generate_upscale(Breakpoint::Xl2, Breakpoint::Xl4, &v);
    assert_eq!(r, Err(CssError::InvalidNumber(Breakpoint::Xl2)));
}

#[test]
fn upscale_rejects_degenerate_range() {
    let v = viewport(Some(Num::whole(0)), Some(Num::whole(1920)));
    let r = generate_upscale(Breakpoint::Xl2, Breakpoint::Xl4, &v);
    assert_eq!(r, Err(CssError::InvalidBreakpoint(Breakpoint::Xl2)));

    let v = viewport(Some(Num::whole(1920)), Some(Num::whole(1920)));
    let r = generate_upscale(Breakpoint::Xl2, Breakpoint::Xl4, &v);
    assert_eq!(r, Err(CssError::InvalidBreakpoint(Breakpoint::Xl4)));

    let v = viewport(
        Some(Num { neg: true, mantissa: 1536, scale: 0 }),
        Some(Num::whole(1920)),
    );
    let r = generate_upscale(Breakpoint::Xl2, Breakpoint::Xl4, &v);
    assert_eq!(r, Err(CssError::InvalidBreakpoint(Breakpoint::Xl2)));
}

#[test]
fn upscale_end_below_start_gives_the_same_slope() {
    // The end width cancels out of the exact slope, so any positive end
    // different from the start yields the same curve.
    let above = viewport(Some(Num::whole(1536)), Some(Num::whole(1920)));
    let below = viewport(Some(Num::whole(1536)), Some(Num::whole(1200)));
    let a = generate_upscale(Breakpoint::Xl2, Breakpoint::Xl4, &above).unwrap();
    let b = generate_upscale(Breakpoint::Xl2, Breakpoint::Xl4, &below).unwrap();
    assert_eq!(a, b);
}
