//! Deterministic CSS generation: theme custom properties, light/dark/system
//! variable blocks, and the responsive font-scaling media queries.
//!
//! Every generator's output is pinned, character for character, by a spec
//! function of the configuration alone, so identical input always yields
//! byte-identical text.

use crate::config::Config;
use crate::decimal::num_wf;
use crate::decimal::num_to_string;
use crate::decimal::padded_dec;
use crate::decimal::pow10;
use crate::decimal::pow10_u64;
use crate::decimal::spec_dec;
use crate::decimal::spec_num;
use crate::decimal::spec_padded;
use crate::decimal::u64_dec;
use crate::decimal::Num;
use crate::error::CssError;
use crate::ui::palette_wf;
use crate::ui::spec_viewport_get;
use crate::ui::Breakpoint;
use crate::ui::Palette;
use crate::ui::Viewport;
use crate::ui::UIV;
use vstd::arithmetic::div_mod::lemma_div_is_ordered;
use vstd::arithmetic::div_mod::lemma_div_plus_one;
use vstd::prelude::*;
use vstd::string::*;

verus! {

/// One custom-property declaration per color entry, in mapping order:
/// `--<name>: <hue>;`.
pub open spec fn spec_color_decls(s: Seq<(Seq<char>, Num)>) -> Seq<char>
    decreases s.len(),
{
    if s.len() == 0 {
        Seq::<char>::empty()
    } else {
        spec_color_decls(s.drop_last()) + "--"@ + s.last().0 + ": "@ + spec_num(s.last().1) + ";"@
    }
}

/// The variable block of one palette: background and text as OKLCH triples,
/// then the palette's own chroma and lightness.
pub open spec fn spec_mode_vars(p: Palette) -> Seq<char> {
    "--background: oklch("@ + spec_num(p.background.lightness) + " "@ + spec_num(p.background.chroma)
        + " "@ + spec_num(p.background.hue) + ");"@ + "--text: oklch("@ + spec_num(p.text.lightness)
        + " "@ + spec_num(p.text.chroma) + " "@ + spec_num(p.text.hue) + ");"@ + "--chroma: "@
        + spec_num(p.chroma) + ";"@ + "--lightness: "@ + spec_num(p.lightness) + ";"@
}

/// The whole unminified variable sheet: the `:root` colors, the light and
/// dark blocks, their system-preference mirrors, and the base `html` rule.
pub open spec fn spec_css_variables(u: UIV) -> Seq<char> {
    ":root {"@ + spec_color_decls(u.theme.colors) + "}"@ + "[data-mode=\"light\"] {"@
        + spec_mode_vars(u.theme.light) + "}"@ + "[data-mode=\"dark\"] {"@ + spec_mode_vars(
        u.theme.dark,
    ) + "}"@ + "@media (prefers-color-scheme: light) {"@ + "[data-mode=\"system\"] {"@
        + spec_mode_vars(u.theme.light) + "}"@ + "}"@ + "@media (prefers-color-scheme: dark) {"@
        + "[data-mode=\"system\"] {"@ + spec_mode_vars(u.theme.dark) + "}"@ + "}"@ + "html {"@
        + "color: var(--text);"@ + "background-color: var(--background);"@
        + "font-size: clamp(1rem, 1vw, 4rem);"@ + "}"@
}

/// Renders one palette's variable block.
fn mode_vars(p: &Palette) -> (r: String)
    requires
        palette_wf(*p),
    ensures
        r@ == spec_mode_vars(*p),
{
    let mut s = String::new();
    s.append("--background: oklch(");
    let t = num_to_string(&p.background.lightness);
    s.append(t.as_str());
    s.append(" ");
    let t = num_to_string(&p.background.chroma);
    s.append(t.as_str());
    s.append(" ");
    let t = num_to_string(&p.background.hue);
    s.append(t.as_str());
    s.append(");");
    s.append("--text: oklch(");
    let t = num_to_string(&p.text.lightness);
    s.append(t.as_str());
    s.append(" ");
    let t = num_to_string(&p.text.chroma);
    s.append(t.as_str());
    s.append(" ");
    let t = num_to_string(&p.text.hue);
    s.append(t.as_str());
    s.append(");");
    s.append("--chroma: ");
    let t = num_to_string(&p.chroma);
    s.append(t.as_str());
    s.append(";");
    s.append("--lightness: ");
    let t = num_to_string(&p.lightness);
    s.append(t.as_str());
    s.append(";");
    proof {
        assert(s@ =~= spec_mode_vars(*p));
    }
    s
}

/// Renders the light palette's variable block, or fails when the
/// configuration has no UI section.
pub fn light_mode_variables(config: &Config) -> (r: Result<String, CssError>)
    requires
        crate::config::config_wf(config@),
    ensures
        match config@.ui {
            Some(u) => r is Ok && r->Ok_0@ == spec_mode_vars(u.theme.light),
            None => r == Err::<String, CssError>(CssError::MissingUiSection),
        },
{
    match &config.ui {
        None => Err(CssError::MissingUiSection),
        Some(ui) => Ok(mode_vars(&ui.theme.light)),
    }
}

/// Renders the dark palette's variable block, or fails when the
/// configuration has no UI section.
pub fn dark_mode_variables(config: &Config) -> (r: Result<String, CssError>)
    requires
        crate::config::config_wf(config@),
    ensures
        match config@.ui {
            Some(u) => r is Ok && r->Ok_0@ == spec_mode_vars(u.theme.dark),
            None => r == Err::<String, CssError>(CssError::MissingUiSection),
        },
{
    match &config.ui {
        None => Err(CssError::MissingUiSection),
        Some(ui) => Ok(mode_vars(&ui.theme.dark)),
    }
}

/// Renders the whole variable sheet in a fixed block order, or fails when
/// the configuration has no UI section. Identical input yields identical
/// text: the result is pinned by `spec_css_variables`.
pub fn css_variables(config: &Config) -> (r: Result<String, CssError>)
    requires
        crate::config::config_wf(config@),
    ensures
        match config@.ui {
            Some(u) => r is Ok && r->Ok_0@ == spec_css_variables(u),
            None => r == Err::<String, CssError>(CssError::MissingUiSection),
        },
{
    let ui = match &config.ui {
        None => {
            return Err(CssError::MissingUiSection);
        },
        Some(ui) => ui,
    };
    let ghost entries = ui.theme@.colors;
    let mut s = String::new();
    s.append(":root {");
    let pairs = crate::colormap::color_map_pairs(&ui.theme.colors);
    let n = pairs.len();
    let mut i: usize = 0;
    while i < n
        invariant
            n == pairs.len(),
            0 <= i <= n,
            crate::colormap::spec_pairs_view(pairs@) == entries,
            forall|j: int| 0 <= j < entries.len() ==> num_wf(#[trigger] entries[j].1),
            s@ == ":root {"@ + spec_color_decls(entries.take(i as int)),
        decreases n - i,
    {
        proof {
            assert(entries[i as int] == (pairs@[i as int].0@, pairs@[i as int].1));
            assert(num_wf(entries[i as int].1));
            assert(num_wf(pairs@[i as int].1));
        }
        s.append("--");
        s.append(pairs[i].0.as_str());
        s.append(": ");
        let t = num_to_string(&pairs[i].1);
        s.append(t.as_str());
        s.append(";");
        proof {
            let cur = entries.take(i + 1);
            assert(cur.drop_last() =~= entries.take(i as int));
            assert(cur.last() == entries[i as int]);
            assert(s@ =~= ":root {"@ + spec_color_decls(cur));
        }
        i = i + 1;
    }
    proof {
        assert(entries.take(n as int) =~= entries);
    }
    s.append("}");
    s.append("[data-mode=\"light\"] {");
    let t = mode_vars(&ui.theme.light);
    s.append(t.as_str());
    s.append("}");
    s.append("[data-mode=\"dark\"] {");
    let t = mode_vars(&ui.theme.dark);
    s.append(t.as_str());
    s.append("}");
    s.append("@media (prefers-color-scheme: light) {");
    s.append("[data-mode=\"system\"] {");
    let t = mode_vars(&ui.theme.light);
    s.append(t.as_str());
    s.append("}");
    s.append("}");
    s.append("@media (prefers-color-scheme: dark) {");
    s.append("[data-mode=\"system\"] {");
    let t = mode_vars(&ui.theme.dark);
    s.append(t.as_str());
    s.append("}");
    s.append("}");
    s.append("html {");
    s.append("color: var(--text);");
    s.append("background-color: var(--background);");
    s.append("font-size: clamp(1rem, 1vw, 4rem);");
    s.append("}");
    proof {
        assert(s@ =~= spec_css_variables(config@.ui->0));
    }
    Ok(s)
}

/// The whole pixel count a breakpoint value denotes, when it denotes one:
/// the value must have no fractional part and lie within machine range.
pub open spec fn spec_px_of(n: Num) -> Option<nat> {
    if n.scale <= 17 && (n.mantissa as nat) % pow10(n.scale as nat) == 0 && (n.mantissa as nat)
        / pow10(n.scale as nat) <= 100_000_000 {
        Some((n.mantissa as nat) / pow10(n.scale as nat))
    } else {
        None
    }
}

/// The scaled font size at step `k` for start width `s`, in ten-thousandths
/// of a rem, rounded half up.
///
/// The scaling curve adds `incrementPerStep` per step to a base of one rem,
/// where `incrementPerStep` is the scaling factor `endPx/startPx - 1`
/// divided by the increment factor `(endPx - startPx)/100`; in exact
/// arithmetic that quotient is `100/startPx` whenever the two widths
/// differ, so the base at step `k` is `(startPx + 100 k)/startPx`.
pub open spec fn spec_upscale_val(s: nat, k: nat) -> nat {
    (20000 * (s + 100 * k) + s) / (2 * s)
}

/// One media query of the scaling curve: step `k` covers the viewport from
/// `1820 + 100 k` pixels up and sets the font size rounded to four
/// decimals.
pub open spec fn spec_upscale_rule(s: nat, k: nat) -> Seq<char> {
    "@media (min-width: "@ + spec_dec(1820 + 100 * k) + "px) {html {font-size: "@ + spec_dec(
        spec_upscale_val(s, k) / 10000,
    ) + seq!['.'] + spec_padded(spec_upscale_val(s, k), 4) + "rem;}}"@
}

/// The first `n` media queries of the scaling curve, in order.
pub open spec fn spec_upscale_rules(s: nat, n: nat) -> Seq<char>
    decreases n,
{
    if n == 0 {
        Seq::<char>::empty()
    } else {
        spec_upscale_rules(s, (n - 1) as nat) + spec_upscale_rule(s, n)
    }
}

/// The full scaling curve: twenty media queries, for viewport widths 1920
/// through 3840 in steps of one hundred pixels. The breakpoints set only
/// the slope; the emitted range is fixed.
pub open spec fn spec_upscale(s: nat) -> Seq<char> {
    spec_upscale_rules(s, 20)
}

/// What `generate_upscale` returns for each input: the first absent
/// breakpoint, the first value that is no whole pixel count, a
/// non-positive width or a pair of equal widths, or the finished curve.
pub open spec fn spec_upscale_result(start: Breakpoint, end: Breakpoint, v: Viewport) -> Result<
    Seq<char>,
    CssError,
> {
    match spec_viewport_get(v, start) {
        None => Err(CssError::MissingBreakpoint(start)),
        Some(sn) => match spec_viewport_get(v, end) {
            None => Err(CssError::MissingBreakpoint(end)),
            Some(en) => match spec_px_of(sn) {
                None => Err(CssError::InvalidNumber(start)),
                Some(sp) => match spec_px_of(en) {
                    None => Err(CssError::InvalidNumber(end)),
                    Some(ep) => if sn.neg || sp == 0 {
                        Err(CssError::InvalidBreakpoint(start))
                    } else if en.neg || ep == 0 || ep == sp {
                        Err(CssError::InvalidBreakpoint(end))
                    } else {
                        Ok(spec_upscale(sp))
                    },
                },
            },
        },
    }
}

/// Reads a breakpoint value as a whole pixel count.
fn px_of(n: &Num) -> (r: Option<u64>)
    ensures
        match r {
            Some(p) => spec_px_of(*n) == Some(p as nat),
            None => spec_px_of(*n) is None,
        },
{
    if n.scale > 17 {
        return None;
    }
    let p = pow10_u64(n.scale);
    proof {
        crate::decimal::lemma_pow10_pos(n.scale as nat);
    }
    if n.mantissa % p != 0 {
        return None;
    }
    let px = n.mantissa / p;
    if px > 100_000_000 {
        return None;
    }
    Some(px)
}

/// Generates the responsive font-scaling media queries for a linear curve
/// between two named breakpoints.
///
/// Fails with `MissingBreakpoint` when either name is absent from the
/// viewport map, with `InvalidNumber` when a value is no whole pixel count
/// in machine range, and with `InvalidBreakpoint` when either width is
/// non-positive or the two widths are equal (the slope would divide by
/// zero). Any other end width is accepted: in exact arithmetic it cancels
/// out of the slope, which is `100/startPx` wherever the widths differ. On
/// success the output is exactly twenty media queries, one per
/// hundred-pixel step from width 1920 on; no partial output is ever
/// returned.
pub fn generate_upscale(start: Breakpoint, end: Breakpoint, viewport: &Viewport) -> (r: Result<
    String,
    CssError,
>)
    ensures
        match (r, spec_upscale_result(start, end, *viewport)) {
            (Ok(s), Ok(t)) => s@ == t,
            (Err(e1), Err(e2)) => e1 == e2,
            _ => false,
        },
{
    let sn = match viewport.get(start) {
        None => {
            return Err(CssError::MissingBreakpoint(start));
        },
        Some(v) => v,
    };
    let en = match viewport.get(end) {
        None => {
            return Err(CssError::MissingBreakpoint(end));
        },
        Some(v) => v,
    };
    let sp = match px_of(&sn) {
        None => {
            return Err(CssError::InvalidNumber(start));
        },
        Some(p) => p,
    };
    let ep = match px_of(&en) {
        None => {
            return Err(CssError::InvalidNumber(end));
        },
        Some(p) => p,
    };
    if sn.neg || sp == 0 {
        return Err(CssError::InvalidBreakpoint(start));
    }
    if en.neg || ep == 0 || ep == sp {
        return Err(CssError::InvalidBreakpoint(end));
    }
    let mut s = String::new();
    let mut k: u64 = 1;
    while k <= 20
        invariant
            1 <= k <= 21,
            1 <= sp <= 100_000_000,
            s@ == spec_upscale_rules(sp as nat, (k - 1) as nat),
        decreases 21 - k,
    {
        s.append("@media (min-width: ");
        let w = u64_dec(1820 + 100 * k);
        s.append(w.as_str());
        s.append("px) {html {font-size: ");
        let val = (20000 * (sp + 100 * k) + sp) / (2 * sp);
        proof {
            assert(val == spec_upscale_val(sp as nat, k as nat));
        }
        let ip = u64_dec(val / 10000);
        s.append(ip.as_str());
        s.append(".");
        let fp = padded_dec(val, 4);
        s.append(fp.as_str());
        s.append("rem;}}");
        proof {
            reveal_strlit(".");
            assert("."@ =~= seq!['.']);
            assert(s@ =~= spec_upscale_rules(sp as nat, k as nat));
        }
        k = k + 1;
    }
    Ok(s)
}

/// Between consecutive steps the rounded font size strictly increases, for
/// any start width up to one million pixels.
pub proof fn lemma_upscale_step_increasing(s: nat, k: nat)
    requires
        1 <= s <= 1_000_000,
        k >= 1,
    ensures
        spec_upscale_val(s, k) < spec_upscale_val(s, k + 1),
{
    let d = 2 * s as int;
    let a = 20000 * (s + 100 * k) + s;
    let b = 20000 * (s + 100 * (k + 1)) + s;
    assert(b == a + 2_000_000);
    lemma_div_is_ordered(a as int + d, b as int, d);
    lemma_div_plus_one(a as int, d);
}

/// The font sizes of the emitted curve are strictly increasing across all
/// twenty steps, for any start width up to one million pixels.
pub proof fn lemma_upscale_monotone(s: nat)
    requires
        1 <= s <= 1_000_000,
    ensures
        forall|k: nat|
            1 <= k < 20 ==> #[trigger] spec_upscale_val(s, k) < spec_upscale_val(s, (k + 1) as nat),
{
    assert forall|k: nat| 1 <= k < 20 implies #[trigger] spec_upscale_val(s, k) < spec_upscale_val(
        s,
        (k + 1) as nat,
    ) by {
        lemma_upscale_step_increasing(s, k);
    }
}

} // verus!
