//! The root configuration, its merge, and the built-in defaults.
//!
//! A user configuration is always merged over the complete default
//! configuration, so the result of a merge with a complete base is itself
//! complete. The merge laws at the end of this file state that merging is
//! the identity on a valid configuration merged over itself, and how each
//! field falls back when the override leaves it out.

use crate::colormap::color_map_from_pairs;
use crate::colormap::distinct_keys;
use crate::colormap::lemma_merge_entries_empty;
use crate::colormap::lemma_merge_entries_self;
use crate::colormap::spec_merge_entries;
use crate::colormap::spec_pairs_view;
use crate::decimal::Num;
use crate::ui::spec_merge_theme;
use crate::ui::spec_merge_ui;
use crate::ui::ui_wf;
use crate::ui::Color;
use crate::ui::Mode;
use crate::ui::Palette;
use crate::ui::Theme;
use crate::ui::ThemeV;
use crate::ui::UIV;
use crate::ui::UI;
use vstd::prelude::*;
use vstd::string::*;

verus! {

/// The root configuration: an optional license key and an optional UI
/// section.
#[derive(Debug)]
pub struct Config {
    pub license: Option<String>,
    pub ui: Option<UI>,
}

/// The mathematical value of a `Config`.
#[verifier::ext_equal]
pub struct ConfigV {
    pub license: Option<Seq<char>>,
    pub ui: Option<UIV>,
}

impl View for Config {
    type V = ConfigV;

    open spec fn view(&self) -> ConfigV {
        ConfigV {
            license: match self.license {
                Some(s) => Some(s@),
                None => None,
            },
            ui: match self.ui {
                Some(u) => Some(u@),
                None => None,
            },
        }
    }
}

/// A structurally valid configuration.
pub open spec fn config_wf(c: ConfigV) -> bool {
    match c.ui {
        Some(u) => ui_wf(u),
        None => true,
    }
}

/// Merge of the root configuration: the override's license wins when
/// present; UI sections merge recursively when both are present, and the
/// present one wins otherwise.
pub open spec fn spec_merge_config(b: ConfigV, o: ConfigV) -> ConfigV {
    ConfigV {
        license: if o.license is Some {
            o.license
        } else {
            b.license
        },
        ui: match (b.ui, o.ui) {
            (Some(bu), Some(ou)) => Some(spec_merge_ui(bu, ou)),
            (None, Some(ou)) => Some(ou),
            (Some(bu), None) => Some(bu),
            (None, None) => None,
        },
    }
}

impl Config {
    /// Merges `other` over `self` field by field; `self` is meant to be the
    /// complete default configuration, so the result is always complete.
    pub fn merge(self, other: Self) -> (r: Self)
        ensures
            r@ == spec_merge_config(self@, other@),
    {
        Self {
            license: match other.license {
                Some(s) => Some(s),
                None => self.license,
            },
            ui: match (self.ui, other.ui) {
                (Some(base), Some(override_)) => Some(base.merge(override_)),
                (None, Some(override_)) => Some(override_),
                (Some(base), None) => Some(base),
                (None, None) => None,
            },
        }
    }
}

/// The default color wheel: twenty-four named hues, fifteen degrees apart.
pub open spec fn spec_default_color_pairs() -> Seq<(Seq<char>, Num)> {
    seq![
        ("alpha"@, Num { neg: false, mantissa: 0, scale: 0 }),
        ("beta"@, Num { neg: false, mantissa: 15, scale: 0 }),
        ("gamma"@, Num { neg: false, mantissa: 30, scale: 0 }),
        ("delta"@, Num { neg: false, mantissa: 45, scale: 0 }),
        ("epsilon"@, Num { neg: false, mantissa: 60, scale: 0 }),
        ("zeta"@, Num { neg: false, mantissa: 75, scale: 0 }),
        ("eta"@, Num { neg: false, mantissa: 90, scale: 0 }),
        ("theta"@, Num { neg: false, mantissa: 105, scale: 0 }),
        ("iota"@, Num { neg: false, mantissa: 120, scale: 0 }),
        ("kappa"@, Num { neg: false, mantissa: 135, scale: 0 }),
        ("lambda"@, Num { neg: false, mantissa: 150, scale: 0 }),
        ("mu"@, Num { neg: false, mantissa: 165, scale: 0 }),
        ("nu"@, Num { neg: false, mantissa: 180, scale: 0 }),
        ("xi"@, Num { neg: false, mantissa: 195, scale: 0 }),
        ("omicron"@, Num { neg: false, mantissa: 210, scale: 0 }),
        ("pi"@, Num { neg: false, mantissa: 225, scale: 0 }),
        ("rho"@, Num { neg: false, mantissa: 240, scale: 0 }),
        ("sigma"@, Num { neg: false, mantissa: 255, scale: 0 }),
        ("tau"@, Num { neg: false, mantissa: 270, scale: 0 }),
        ("upsilon"@, Num { neg: false, mantissa: 285, scale: 0 }),
        ("phi"@, Num { neg: false, mantissa: 300, scale: 0 }),
        ("chi"@, Num { neg: false, mantissa: 315, scale: 0 }),
        ("psi"@, Num { neg: false, mantissa: 330, scale: 0 }),
        ("omega"@, Num { neg: false, mantissa: 345, scale: 0 }),
    ]
}

/// The default light palette: white background, black text.
pub open spec fn spec_default_light() -> Palette {
    Palette {
        chroma: Num { neg: false, mantissa: 7, scale: 1 },
        lightness: Num { neg: false, mantissa: 9, scale: 1 },
        background: Color {
            hue: Num { neg: false, mantissa: 0, scale: 0 },
            chroma: Num { neg: false, mantissa: 0, scale: 1 },
            lightness: Num { neg: false, mantissa: 10, scale: 1 },
        },
        text: Color {
            hue: Num { neg: false, mantissa: 0, scale: 0 },
            chroma: Num { neg: false, mantissa: 0, scale: 1 },
            lightness: Num { neg: false, mantissa: 0, scale: 1 },
        },
    }
}

/// The default dark palette: black background, white text.
pub open spec fn spec_default_dark() -> Palette {
    Palette {
        chroma: Num { neg: false, mantissa: 7, scale: 1 },
        lightness: Num { neg: false, mantissa: 9, scale: 1 },
        background: Color {
            hue: Num { neg: false, mantissa: 0, scale: 0 },
            chroma: Num { neg: false, mantissa: 0, scale: 1 },
            lightness: Num { neg: false, mantissa: 0, scale: 1 },
        },
        text: Color {
            hue: Num { neg: false, mantissa: 0, scale: 0 },
            chroma: Num { neg: false, mantissa: 0, scale: 1 },
            lightness: Num { neg: false, mantissa: 10, scale: 1 },
        },
    }
}

/// The complete default configuration that user input is merged over.
pub open spec fn spec_default_config() -> ConfigV {
    ConfigV {
        license: None,
        ui: Some(
            UIV {
                name: "Seyuna"@,
                slogan: "Another cool Seyuna app."@,
                theme: ThemeV {
                    colors: spec_merge_entries(
                        Seq::<(Seq<char>, Num)>::empty(),
                        spec_default_color_pairs(),
                    ),
                    light: spec_default_light(),
                    dark: spec_default_dark(),
                },
                mode: Mode::System,
                breakpoints: None,
                output_dir: Some("styles"@),
            },
        ),
    }
}

fn default_color_pairs() -> (r: Vec<(String, Num)>)
    ensures
        spec_pairs_view(r@) == spec_default_color_pairs(),
{
    let v: Vec<(String, Num)> = vec![
        (String::from_str("alpha"), Num::whole(0)),
        (String::from_str("beta"), Num::whole(15)),
        (String::from_str("gamma"), Num::whole(30)),
        (String::from_str("delta"), Num::whole(45)),
        (String::from_str("epsilon"), Num::whole(60)),
        (String::from_str("zeta"), Num::whole(75)),
        (String::from_str("eta"), Num::whole(90)),
        (String::from_str("theta"), Num::whole(105)),
        (String::from_str("iota"), Num::whole(120)),
        (String::from_str("kappa"), Num::whole(135)),
        (String::from_str("lambda"), Num::whole(150)),
        (String::from_str("mu"), Num::whole(165)),
        (String::from_str("nu"), Num::whole(180)),
        (String::from_str("xi"), Num::whole(195)),
        (String::from_str("omicron"), Num::whole(210)),
        (String::from_str("pi"), Num::whole(225)),
        (String::from_str("rho"), Num::whole(240)),
        (String::from_str("sigma"), Num::whole(255)),
        (String::from_str("tau"), Num::whole(270)),
        (String::from_str("upsilon"), Num::whole(285)),
        (String::from_str("phi"), Num::whole(300)),
        (String::from_str("chi"), Num::whole(315)),
        (String::from_str("psi"), Num::whole(330)),
        (String::from_str("omega"), Num::whole(345)),
    ];
    proof {
        assert(spec_pairs_view(v@) =~= spec_default_color_pairs());
    }
    v
}

/// Builds the complete default configuration.
pub fn default_config() -> (r: Config)
    ensures
        r@ == spec_default_config(),
        config_wf(r@),
        distinct_keys(r@.ui->0.theme.colors),
{
    let colors = color_map_from_pairs(default_color_pairs());
    let light = Palette {
        chroma: Num::frac(7, 1),
        lightness: Num::frac(9, 1),
        background: Color { hue: Num::whole(0), chroma: Num::frac(0, 1), lightness: Num::frac(10, 1) },
        text: Color { hue: Num::whole(0), chroma: Num::frac(0, 1), lightness: Num::frac(0, 1) },
    };
    let dark = Palette {
        chroma: Num::frac(7, 1),
        lightness: Num::frac(9, 1),
        background: Color { hue: Num::whole(0), chroma: Num::frac(0, 1), lightness: Num::frac(0, 1) },
        text: Color { hue: Num::whole(0), chroma: Num::frac(0, 1), lightness: Num::frac(10, 1) },
    };
    let ui = UI {
        name: String::from_str("Seyuna"),
        slogan: String::from_str("Another cool Seyuna app."),
        theme: Theme { colors, light, dark },
        mode: Mode::System,
        breakpoints: None,
        output_dir: Some(String::from_str("styles")),
    };
    let r = Config { license: None, ui: Some(ui) };
    proof {
        assert(r@ =~= spec_default_config());
        assert forall|i: int|
            0 <= i < r@.ui->0.theme.colors.len() implies crate::decimal::num_wf(
            #[trigger] r@.ui->0.theme.colors[i].1,
        ) by {
            lemma_merged_default_nums(r@.ui->0.theme.colors, i);
        }
    }
    r
}

proof fn lemma_merged_default_nums(s: Seq<(Seq<char>, Num)>, i: int)
    requires
        s == spec_merge_entries(Seq::<(Seq<char>, Num)>::empty(), spec_default_color_pairs()),
        0 <= i < s.len(),
    ensures
        crate::decimal::num_wf(s[i].1),
{
    lemma_merge_scale_zero(Seq::<(Seq<char>, Num)>::empty(), spec_default_color_pairs(), i);
}

/// Every value in a merge of sequences of whole numbers is a whole number.
proof fn lemma_merge_scale_zero(b: Seq<(Seq<char>, Num)>, o: Seq<(Seq<char>, Num)>, i: int)
    requires
        forall|j: int| 0 <= j < b.len() ==> (#[trigger] b[j].1).scale == 0,
        forall|j: int| 0 <= j < o.len() ==> (#[trigger] o[j].1).scale == 0,
        0 <= i < spec_merge_entries(b, o).len(),
    ensures
        spec_merge_entries(b, o)[i].1.scale == 0,
    decreases o.len(),
{
    if o.len() > 0 {
        assert(forall|j: int|
            0 <= j < o.drop_last().len() ==> (#[trigger] o.drop_last()[j].1).scale == 0);
        let m = spec_merge_entries(b, o.drop_last());
        crate::colormap::lemma_key_index_bounds(m, o.last().0);
        let k = crate::colormap::key_index(m, o.last().0);
        if k >= 0 {
            if i != k {
                lemma_merge_scale_zero(b, o.drop_last(), i);
            }
        } else {
            if i < m.len() {
                lemma_merge_scale_zero(b, o.drop_last(), i);
            }
        }
    }
}

/// Merge identity: a valid configuration merged over itself is unchanged.
pub proof fn lemma_merge_config_self(c: ConfigV)
    requires
        config_wf(c),
    ensures
        spec_merge_config(c, c) == c,
{
    match c.ui {
        Some(u) => {
            lemma_merge_entries_self(u.theme.colors);
            assert(spec_merge_theme(u.theme, u.theme) =~= u.theme);
            assert(spec_merge_ui(u, u) =~= u);
            assert(spec_merge_config(c, c) =~= c);
        },
        None => {
            assert(spec_merge_config(c, c) =~= c);
        },
    }
}

/// Completeness is preserved: merging two structurally valid
/// configurations yields a structurally valid configuration, so a partial
/// override merged over the complete defaults is itself complete.
pub proof fn lemma_merge_config_wf(b: ConfigV, o: ConfigV)
    requires
        config_wf(b),
        config_wf(o),
    ensures
        config_wf(spec_merge_config(b, o)),
{
    if b.ui is Some && o.ui is Some {
        crate::ui::lemma_merge_ui_wf(b.ui->0, o.ui->0);
    }
}

/// Merge partiality at the root: a field absent in the override falls back
/// to the base, and a present field wins.
pub proof fn lemma_merge_config_fields(b: ConfigV, o: ConfigV)
    ensures
        o.license is None ==> spec_merge_config(b, o).license == b.license,
        o.license is Some ==> spec_merge_config(b, o).license == o.license,
        b.ui is Some && o.ui is None ==> spec_merge_config(b, o).ui == b.ui,
        b.ui is None ==> spec_merge_config(b, o).ui == o.ui,
        b.ui is Some && o.ui is Some ==> spec_merge_config(b, o).ui == Some(
            spec_merge_ui(b.ui->0, o.ui->0),
        ),
{
}

/// Merge partiality inside the UI section: empty strings and absent options
/// fall back to the base; the mode and the palettes always take the
/// override; an empty override color mapping leaves the base's untouched.
pub proof fn lemma_merge_ui_fields(b: UIV, o: UIV)
    ensures
        o.name.len() == 0 ==> spec_merge_ui(b, o).name == b.name,
        o.name.len() != 0 ==> spec_merge_ui(b, o).name == o.name,
        o.slogan.len() == 0 ==> spec_merge_ui(b, o).slogan == b.slogan,
        o.slogan.len() != 0 ==> spec_merge_ui(b, o).slogan == o.slogan,
        spec_merge_ui(b, o).mode == o.mode,
        o.output_dir is None ==> spec_merge_ui(b, o).output_dir == b.output_dir,
        o.output_dir is Some ==> spec_merge_ui(b, o).output_dir == o.output_dir,
        o.breakpoints is None ==> spec_merge_ui(b, o).breakpoints == b.breakpoints,
        o.breakpoints is Some ==> spec_merge_ui(b, o).breakpoints == o.breakpoints,
        spec_merge_ui(b, o).theme.light == o.theme.light,
        spec_merge_ui(b, o).theme.dark == o.theme.dark,
        o.theme.colors.len() == 0 ==> spec_merge_ui(b, o).theme.colors == b.theme.colors,
{
    if o.theme.colors.len() == 0 {
        assert(o.theme.colors =~= Seq::<(Seq<char>, Num)>::empty());
        lemma_merge_entries_empty(b.theme.colors);
    }
}

} // verus!
