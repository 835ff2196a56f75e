//! The UI section of a configuration: theme, palettes, breakpoints, and
//! their field-level merge.
//!
//! Merging combines a complete base (the defaults) with a possibly partial
//! override, field by field: optional fields fall back to the base, strings
//! treat the empty string as absent, the mode always takes the override, and
//! the ordered color mapping merges key by key.

use crate::colormap::color_entries;
use crate::colormap::color_map_insert;
use crate::colormap::color_map_pairs;
use crate::colormap::distinct_keys;
use crate::colormap::spec_merge_entries;
use crate::colormap::spec_pairs_view;
use crate::decimal::num_wf;
use crate::decimal::Num;
use vstd::prelude::*;

verus! {

/// Which color scheme the application requests.
#[derive(Clone, Copy, Debug, PartialEq, Eq, Structural)]
pub enum Mode {
    System,
    Light,
    Dark,
}

/// An OKLCH color triple.
#[derive(Clone, Copy, Debug, PartialEq, Eq, Structural)]
pub struct Color {
    pub hue: Num,
    pub chroma: Num,
    pub lightness: Num,
}

/// One color scheme's tonal parameters: base chroma and lightness, plus the
/// background and text colors.
#[derive(Clone, Copy, Debug, PartialEq, Eq, Structural)]
pub struct Palette {
    pub chroma: Num,
    pub lightness: Num,
    pub background: Color,
    pub text: Color,
}

/// A named viewport width threshold.
#[derive(Clone, Copy, Debug, PartialEq, Eq, Structural)]
pub enum Breakpoint {
    Sm,
    Md,
    Lg,
    Xl,
    Xl2,
    Xl3,
    Xl4,
}

/// Pixel widths for the named viewport breakpoints; each may be absent.
#[derive(Clone, Copy, Debug, PartialEq, Eq)]
pub struct Viewport {
    pub sm: Option<Num>,
    pub md: Option<Num>,
    pub lg: Option<Num>,
    pub xl: Option<Num>,
    pub xl2: Option<Num>,
    pub xl3: Option<Num>,
    pub xl4: Option<Num>,
}

/// Viewport breakpoints plus the ordered container-query widths.
#[derive(Debug)]
pub struct Breakpoints {
    pub viewport: Viewport,
    pub container: Vec<Num>,
}

/// A theme: the ordered color mapping and the light and dark palettes.
#[derive(Debug)]
pub struct Theme {
    pub colors: indexmap::IndexMap<String, Num>,
    pub light: Palette,
    pub dark: Palette,
}

/// The UI section of a configuration.
#[derive(Debug)]
pub struct UI {
    pub name: String,
    pub slogan: String,
    pub theme: Theme,
    pub mode: Mode,
    pub breakpoints: Option<Breakpoints>,
    pub output_dir: Option<String>,
}

/// The mathematical value of a `Breakpoints`.
#[verifier::ext_equal]
pub struct BreakpointsV {
    pub viewport: Viewport,
    pub container: Seq<Num>,
}

/// The mathematical value of a `Theme`.
#[verifier::ext_equal]
pub struct ThemeV {
    pub colors: Seq<(Seq<char>, Num)>,
    pub light: Palette,
    pub dark: Palette,
}

/// The mathematical value of a `UI`.
#[verifier::ext_equal]
pub struct UIV {
    pub name: Seq<char>,
    pub slogan: Seq<char>,
    pub theme: ThemeV,
    pub mode: Mode,
    pub breakpoints: Option<BreakpointsV>,
    pub output_dir: Option<Seq<char>>,
}

impl View for Breakpoints {
    type V = BreakpointsV;

    open spec fn view(&self) -> BreakpointsV {
        BreakpointsV { viewport: self.viewport, container: self.container@ }
    }
}

impl View for Theme {
    type V = ThemeV;

    open spec fn view(&self) -> ThemeV {
        ThemeV { colors: color_entries(self.colors), light: self.light, dark: self.dark }
    }
}

impl View for UI {
    type V = UIV;

    open spec fn view(&self) -> UIV {
        UIV {
            name: self.name@,
            slogan: self.slogan@,
            theme: self.theme@,
            mode: self.mode,
            breakpoints: match self.breakpoints {
                Some(b) => Some(b@),
                None => None,
            },
            output_dir: match self.output_dir {
                Some(s) => Some(s@),
                None => None,
            },
        }
    }
}

/// The pixel width configured for breakpoint `b`, if any.
pub open spec fn spec_viewport_get(v: Viewport, b: Breakpoint) -> Option<Num> {
    match b {
        Breakpoint::Sm => v.sm,
        Breakpoint::Md => v.md,
        Breakpoint::Lg => v.lg,
        Breakpoint::Xl => v.xl,
        Breakpoint::Xl2 => v.xl2,
        Breakpoint::Xl3 => v.xl3,
        Breakpoint::Xl4 => v.xl4,
    }
}

impl Viewport {
    /// The pixel width configured for breakpoint `b`, if any.
    pub fn get(&self, b: Breakpoint) -> (r: Option<Num>)
        ensures
            r == spec_viewport_get(*self, b),
    {
        match b {
            Breakpoint::Sm => self.sm,
            Breakpoint::Md => self.md,
            Breakpoint::Lg => self.lg,
            Breakpoint::Xl => self.xl,
            Breakpoint::Xl2 => self.xl2,
            Breakpoint::Xl3 => self.xl3,
            Breakpoint::Xl4 => self.xl4,
        }
    }
}

/// All numbers of a color render within machine range.
pub open spec fn color_wf(c: Color) -> bool {
    num_wf(c.hue) && num_wf(c.chroma) && num_wf(c.lightness)
}

/// All numbers of a palette render within machine range.
pub open spec fn palette_wf(p: Palette) -> bool {
    num_wf(p.chroma) && num_wf(p.lightness) && color_wf(p.background) && color_wf(p.text)
}

/// A structurally valid theme: the color mapping has distinct keys and every
/// number renders within machine range.
pub open spec fn theme_wf(t: ThemeV) -> bool {
    &&& distinct_keys(t.colors)
    &&& forall|i: int| 0 <= i < t.colors.len() ==> num_wf(#[trigger] t.colors[i].1)
    &&& palette_wf(t.light)
    &&& palette_wf(t.dark)
}

/// A structurally valid UI section.
pub open spec fn ui_wf(u: UIV) -> bool {
    theme_wf(u.theme)
}

/// Merge of a leaf color: the override's channels win unconditionally.
pub open spec fn spec_merge_color(b: Color, o: Color) -> Color {
    Color { hue: o.hue, chroma: o.chroma, lightness: o.lightness }
}

/// Merge of a palette: every leaf takes the override's value.
pub open spec fn spec_merge_palette(b: Palette, o: Palette) -> Palette {
    Palette {
        chroma: o.chroma,
        lightness: o.lightness,
        background: spec_merge_color(b.background, o.background),
        text: spec_merge_color(b.text, o.text),
    }
}

/// Merge of a theme: colors merge key by key, palettes leaf by leaf.
pub open spec fn spec_merge_theme(b: ThemeV, o: ThemeV) -> ThemeV {
    ThemeV {
        colors: spec_merge_entries(b.colors, o.colors),
        light: spec_merge_palette(b.light, o.light),
        dark: spec_merge_palette(b.dark, o.dark),
    }
}

/// Merge of a UI section: empty strings count as absent, the mode always
/// takes the override, optional fields fall back to the base.
pub open spec fn spec_merge_ui(b: UIV, o: UIV) -> UIV {
    UIV {
        name: if o.name.len() == 0 {
            b.name
        } else {
            o.name
        },
        slogan: if o.slogan.len() == 0 {
            b.slogan
        } else {
            o.slogan
        },
        theme: spec_merge_theme(b.theme, o.theme),
        mode: o.mode,
        breakpoints: if o.breakpoints is Some {
            o.breakpoints
        } else {
            b.breakpoints
        },
        output_dir: if o.output_dir is Some {
            o.output_dir
        } else {
            b.output_dir
        },
    }
}

impl Color {
    /// Merges `other` over `self`: every channel takes `other`'s value.
    pub fn merge(self, other: Self) -> (r: Self)
        ensures
            r == spec_merge_color(self, other),
    {
        Self { hue: other.hue, chroma: other.chroma, lightness: other.lightness }
    }
}

impl Palette {
    /// Merges `other` over `self`: every leaf takes `other`'s value.
    pub fn merge(self, other: Self) -> (r: Self)
        ensures
            r == spec_merge_palette(self, other),
    {
        Self {
            chroma: other.chroma,
            lightness: other.lightness,
            background: self.background.merge(other.background),
            text: self.text.merge(other.text),
        }
    }
}

impl Theme {
    /// The entries of the color mapping, in order.
    pub fn color_pairs(&self) -> (r: Vec<(String, Num)>)
        ensures
            spec_pairs_view(r@) == self@.colors,
    {
        color_map_pairs(&self.colors)
    }

    /// Merges `other` over `self`: every key of `self.colors` keeps its
    /// position, taking `other`'s value when `other` defines the same key;
    /// keys new in `other` are appended in `other`'s order.
    pub fn merge(self, other: Self) -> (r: Self)
        ensures
            r@ == spec_merge_theme(self@, other@),
    {
        let ghost base = color_entries(self.colors);
        let mut merged_colors = self.colors;
        let pairs = color_map_pairs(&other.colors);
        let n = pairs.len();
        let mut i: usize = 0;
        while i < n
            invariant
                n == pairs.len(),
                0 <= i <= n,
                color_entries(merged_colors) == spec_merge_entries(
                    base,
                    spec_pairs_view(pairs@).take(i as int),
                ),
            decreases n - i,
        {
            let ghost pre = spec_pairs_view(pairs@).take(i as int);
            let (k, v) = (pairs[i].0.clone(), pairs[i].1);
            color_map_insert(&mut merged_colors, k, v);
            proof {
                let cur = spec_pairs_view(pairs@).take(i + 1);
                assert(cur.drop_last() =~= pre);
                assert(cur.last() == (pairs@[i as int].0@, pairs@[i as int].1));
            }
            i = i + 1;
        }
        proof {
            assert(spec_pairs_view(pairs@).take(n as int) =~= spec_pairs_view(pairs@));
        }
        Self { colors: merged_colors, light: self.light.merge(other.light), dark: self.dark.merge(
            other.dark,
        ) }
    }
}

impl UI {
    /// Merges `other` over `self` field by field.
    pub fn merge(self, other: Self) -> (r: Self)
        ensures
            r@ == spec_merge_ui(self@, other@),
    {
        Self {
            name: if other.name.as_str().is_empty() {
                self.name
            } else {
                other.name
            },
            slogan: if other.slogan.as_str().is_empty() {
                self.slogan
            } else {
                other.slogan
            },
            theme: self.theme.merge(other.theme),
            mode: other.mode,
            breakpoints: match other.breakpoints {
                Some(b) => Some(b),
                None => self.breakpoints,
            },
            output_dir: match other.output_dir {
                Some(s) => Some(s),
                None => self.output_dir,
            },
        }
    }
}

/// Merging preserves structural validity of the result when both sides are
/// structurally valid.
pub proof fn lemma_merge_ui_wf(b: UIV, o: UIV)
    requires
        ui_wf(b),
        ui_wf(o),
    ensures
        ui_wf(spec_merge_ui(b, o)),
{
    crate::colormap::lemma_merge_entries_distinct(b.theme.colors, o.theme.colors);
    lemma_merge_entries_nums_wf(b.theme.colors, o.theme.colors);
}

/// Every value in a merge of sequences whose values render within machine
/// range renders within machine range.
proof fn lemma_merge_entries_nums_wf(b: Seq<(Seq<char>, Num)>, o: Seq<(Seq<char>, Num)>)
    requires
        forall|i: int| 0 <= i < b.len() ==> num_wf(#[trigger] b[i].1),
        forall|i: int| 0 <= i < o.len() ==> num_wf(#[trigger] o[i].1),
    ensures
        forall|i: int|
            0 <= i < spec_merge_entries(b, o).len() ==> num_wf(
                #[trigger] spec_merge_entries(b, o)[i].1,
            ),
    decreases o.len(),
{
    if o.len() > 0 {
        assert(forall|i: int| 0 <= i < o.drop_last().len() ==> num_wf(#[trigger] o.drop_last()[i].1));
        lemma_merge_entries_nums_wf(b, o.drop_last());
        let m = spec_merge_entries(b, o.drop_last());
        crate::colormap::lemma_key_index_bounds(m, o.last().0);
        assert(num_wf(o.last().1));
    }
}

} // verus!
