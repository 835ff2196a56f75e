//! Stylesheet assembly: fragment concatenation, the black-box CSS
//! transform (parse, minify, print), output path construction, and the
//! full configuration-to-stylesheet pipeline.
//!
//! The transform is all-or-nothing: on any failure no CSS text is
//! returned, so a caller that writes the result to disk writes either the
//! complete minified sheet or nothing.

use crate::config::config_wf;
use crate::config::Config;
use crate::cssgen::css_variables;
use crate::cssgen::generate_upscale;
use crate::cssgen::spec_css_variables;
use crate::cssgen::spec_upscale_result;
use crate::error::CssError;
use crate::ui::Breakpoint;
use crate::ui::UIV;
use lightningcss::printer::PrinterOptions;
use lightningcss::stylesheet::MinifyOptions;
use lightningcss::stylesheet::ParserOptions;
use lightningcss::stylesheet::StyleSheet;
use lightningcss::targets::Browsers;
use lightningcss::targets::Targets;
use vstd::prelude::*;
use vstd::string::*;

verus! {

/// The step of the CSS transform that failed.
#[derive(Clone, Copy, Debug, PartialEq, Eq, Structural)]
pub enum TransformStage {
    Parse,
    Minify,
    Print,
}

/// What the CSS transform returns for a given source text and Chrome
/// target version: the minified, browser-targeted text, or the stage that
/// rejected the input. The transform is deterministic in its arguments.
pub uninterp spec fn css_transform(src: Seq<char>, chrome_major: u32) -> Result<
    Seq<char>,
    TransformStage,
>;

/// Relies on lightningcss's `StyleSheet::parse`, `StyleSheet::minify` and
/// `StyleSheet::to_css`: together they are a pure transform of the source
/// text and the browser target. The parsed stylesheet borrows the source
/// text and cannot cross this boundary, so the three calls stand in one
/// wrapper.
#[verifier::external_body]
fn css_transform_call(src: &str, chrome_major: u32) -> (r: Result<String, TransformStage>)
    ensures
        match (r, css_transform(src@, chrome_major)) {
            (Ok(s), Ok(m)) => s@ == m,
            (Err(a), Err(b)) => a == b,
            _ => false,
        },
{
    let mut sheet = StyleSheet::parse(src, ParserOptions::default()).map_err(
        |_| TransformStage::Parse,
    )?;
    sheet.minify(MinifyOptions::default()).map_err(|_| TransformStage::Minify)?;
    let mut browsers = Browsers::default();
    browsers.chrome = Some(chrome_major);
    let mut targets = Targets::default();
    targets.browsers = Some(browsers);
    let mut opts = PrinterOptions::default();
    opts.minify = true;
    opts.targets = targets;
    sheet.to_css(opts).map(|o| o.code).map_err(|_| TransformStage::Print)
}

/// The concatenation of an ordered list of text fragments.
pub open spec fn spec_concat_texts(s: Seq<Seq<char>>) -> Seq<char>
    decreases s.len(),
{
    if s.len() == 0 {
        Seq::<char>::empty()
    } else {
        spec_concat_texts(s.drop_last()) + s.last()
    }
}

/// The diagnostic prefix carried by a parse failure: at most two hundred
/// characters of the offending text.
pub open spec fn spec_snippet(src: Seq<char>) -> Seq<char> {
    if src.len() <= 200 {
        src
    } else {
        src.take(200)
    }
}

/// Concatenates the fragments in the given order and runs the CSS
/// transform on the result, targeting the given Chrome major version.
///
/// All-or-nothing: on success the complete minified text is returned, and
/// on any failure only an error. A parse failure carries the assembled
/// text's length and a bounded prefix of it.
pub fn assemble(fragments: &Vec<String>, chrome_major: u32) -> (r: Result<String, CssError>)
    ensures
        ({
            let src = spec_concat_texts(fragments@.map_values(|f: String| f@));
            match css_transform(src, chrome_major) {
                Ok(m) => r is Ok && r->Ok_0@ == m,
                Err(TransformStage::Parse) => r matches Err(CssError::ParseError { length, snippet })
                    && length == src.len() && snippet@ == spec_snippet(src),
                Err(TransformStage::Minify) => r == Err::<String, CssError>(CssError::MinifyError),
                Err(TransformStage::Print) => r == Err::<String, CssError>(CssError::PrintError),
            }
        }),
{
    let ghost texts = fragments@.map_values(|f: String| f@);
    let mut source = String::new();
    let n = fragments.len();
    let mut i: usize = 0;
    while i < n
        invariant
            n == fragments.len(),
            0 <= i <= n,
            texts == fragments@.map_values(|f: String| f@),
            source@ == spec_concat_texts(texts.take(i as int)),
        decreases n - i,
    {
        source.append(fragments[i].as_str());
        proof {
            let cur = texts.take(i + 1);
            assert(cur.drop_last() =~= texts.take(i as int));
            assert(cur.last() == texts[i as int]);
        }
        i = i + 1;
    }
    proof {
        assert(texts.take(n as int) =~= texts);
    }
    match css_transform_call(source.as_str(), chrome_major) {
        Ok(css) => Ok(css),
        Err(TransformStage::Parse) => {
            let length = source.as_str().unicode_len();
            let cut = if length <= 200 {
                length
            } else {
                200
            };
            let snippet = source.as_str().substring_char(0, cut);
            Err(CssError::ParseError { length, snippet: String::from_str(snippet) })
        },
        Err(TransformStage::Minify) => Err(CssError::MinifyError),
        Err(TransformStage::Print) => Err(CssError::PrintError),
    }
}

/// The built-in reset sheet prepended to every generated stylesheet.
pub open spec fn spec_reset_css() -> Seq<char> {
    "*, *::before, *::after {box-sizing: border-box;margin: 0;padding: 0;}"@
}

/// The built-in reset sheet.
pub fn reset_css() -> (r: &'static str)
    ensures
        r@ == spec_reset_css(),
{
    "*, *::before, *::after {box-sizing: border-box;margin: 0;padding: 0;}"
}

/// The source text the pipeline assembles for a UI section: the reset
/// sheet, the variable sheet, and, when breakpoints are configured, the
/// scaling curve between the 2XL and 4XL breakpoints.
pub open spec fn spec_compile_source(u: UIV) -> Result<Seq<char>, CssError> {
    match u.breakpoints {
        None => Ok(spec_reset_css() + spec_css_variables(u)),
        Some(b) => match spec_upscale_result(Breakpoint::Xl2, Breakpoint::Xl4, b.viewport) {
            Ok(up) => Ok(spec_reset_css() + spec_css_variables(u) + up),
            Err(e) => Err(e),
        },
    }
}

/// A finished compilation: where the stylesheet belongs and its minified
/// text.
#[derive(Debug)]
pub struct CompiledCss {
    pub path: String,
    pub css: String,
}

/// Compiles a configuration into its minified stylesheet and output path.
///
/// The UI section must be present, and must name an output directory (the
/// merge with the defaults always supplies one). The stylesheet is the
/// reset sheet plus the variable sheet, plus the scaling curve when
/// breakpoints are configured, minified for a Chrome 80 baseline. The
/// output path joins the output directory with `seyuna-global.css`.
/// All-or-nothing: on any failure no text and no path are returned.
#[verifier::rlimit(100)]
pub fn compile_css(config: &Config) -> (r: Result<CompiledCss, CssError>)
    requires
        config_wf(config@),
        config@.ui is Some ==> config@.ui->0.output_dir is Some,
    ensures
        match config@.ui {
            None => r == Err::<CompiledCss, CssError>(CssError::MissingUiSection),
            Some(u) => match spec_compile_source(u) {
                Err(e) => r == Err::<CompiledCss, CssError>(e),
                Ok(src) => {
                    if crate::paths::spec_is_blank(u.output_dir->0) {
                        r == Err::<CompiledCss, CssError>(CssError::EmptyOutputDir)
                    } else {
                        match css_transform(src, 80) {
                            Ok(m) => r is Ok && r->Ok_0.css@ == m && r->Ok_0.path@
                                == crate::paths::spec_join(u.output_dir->0, "seyuna-global.css"@),
                            Err(TransformStage::Parse) => r matches Err(
                                CssError::ParseError { length, snippet },
                            ) && length == src.len() && snippet@ == spec_snippet(src),
                            Err(TransformStage::Minify) => r == Err::<CompiledCss, CssError>(
                                CssError::MinifyError,
                            ),
                            Err(TransformStage::Print) => r == Err::<CompiledCss, CssError>(
                                CssError::PrintError,
                            ),
                        }
                    }
                },
            },
        },
{
    let ui = match &config.ui {
        None => {
            return Err(CssError::MissingUiSection);
        },
        Some(u) => u,
    };
    let vars = match css_variables(config) {
        Ok(v) => v,
        Err(e) => {
            return Err(e);
        },
    };
    let mut fragments: Vec<String> = Vec::new();
    fragments.push(String::from_str(reset_css()));
    fragments.push(vars);
    match &ui.breakpoints {
        None => {},
        Some(b) => {
            match generate_upscale(Breakpoint::Xl2, Breakpoint::Xl4, &b.viewport) {
                Ok(up) => fragments.push(up),
                Err(e) => {
                    return Err(e);
                },
            }
        },
    }
    let dir = match &ui.output_dir {
        Some(d) => d,
        None => {
            proof {
                assert(false);
            }
            return Err(CssError::EmptyOutputDir);
        },
    };
    let path = match stylesheet_path(dir.as_str()) {
        Ok(p) => p,
        Err(e) => {
            return Err(e);
        },
    };
    proof {
        let texts = fragments@.map_values(|f: String| f@);
        if fragments@.len() == 3 {
            assert(texts =~= seq![texts[0], texts[1], texts[2]]);
            lemma_concat_three(texts[0], texts[1], texts[2]);
        } else {
            assert(texts =~= seq![texts[0], texts[1]]);
            lemma_concat_two(texts[0], texts[1]);
        }
        assert(spec_concat_texts(texts) == spec_compile_source(config@.ui->0)->Ok_0);
    }
    let css = match assemble(&fragments, 80) {
        Ok(c) => c,
        Err(e) => {
            return Err(e);
        },
    };
    Ok(CompiledCss { path, css })
}

/// Builds the output path for the stylesheet's fixed file name inside the
/// configured directory.
fn stylesheet_path(dir: &str) -> (r: Result<String, CssError>)
    ensures
        crate::paths::spec_is_blank(dir@) ==> r == Err::<String, CssError>(
            CssError::EmptyOutputDir,
        ),
        !crate::paths::spec_is_blank(dir@) ==> r is Ok && r->Ok_0@ == crate::paths::spec_join(
            dir@,
            "seyuna-global.css"@,
        ),
{
    proof {
        lemma_stylesheet_name_not_blank();
    }
    crate::paths::create_path_from_file_name("seyuna-global.css", dir)
}

proof fn lemma_concat_two(a: Seq<char>, b: Seq<char>)
    ensures
        spec_concat_texts(seq![a, b]) == a + b,
{
    reveal_with_fuel(spec_concat_texts, 3);
    let s = seq![a, b];
    assert(s.drop_last() =~= seq![a]);
    assert(seq![a].drop_last() =~= Seq::<Seq<char>>::empty());
    assert(spec_concat_texts(Seq::<Seq<char>>::empty()) == Seq::<char>::empty());
    assert(seq![a].last() == a);
    assert(spec_concat_texts(seq![a]) == spec_concat_texts(seq![a].drop_last()) + a);
    assert(Seq::<char>::empty() + a =~= a);
    assert(spec_concat_texts(seq![a]) =~= a);
    assert(spec_concat_texts(s) =~= a + b);
}

proof fn lemma_concat_three(a: Seq<char>, b: Seq<char>, c: Seq<char>)
    ensures
        spec_concat_texts(seq![a, b, c]) == a + b + c,
{
    let s = seq![a, b, c];
    assert(s.drop_last() =~= seq![a, b]);
    lemma_concat_two(a, b);
    assert(spec_concat_texts(s) =~= a + b + c);
}

/// The fixed stylesheet file name is not blank.
proof fn lemma_stylesheet_name_not_blank()
    ensures
        !crate::paths::spec_is_blank("seyuna-global.css"@),
{
    reveal_strlit("seyuna-global.css");
    assert("seyuna-global.css"@[0] == 's');
}

} // verus!
