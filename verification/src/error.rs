//! The errors of the generation pipeline.

use crate::ui::Breakpoint;
use vstd::prelude::*;

verus! {

/// Everything that can go wrong between a configuration and the finished
/// stylesheet.
#[derive(Debug, PartialEq, Eq)]
pub enum CssError {
    /// The configuration has no UI section.
    MissingUiSection,
    /// A breakpoint named by the scale generator is absent from the
    /// viewport map.
    MissingBreakpoint(Breakpoint),
    /// A breakpoint value is not a whole pixel count in machine range.
    InvalidNumber(Breakpoint),
    /// A breakpoint value is non-positive, or the two ends of the scaling
    /// range are equal (the slope would divide by zero).
    InvalidBreakpoint(Breakpoint),
    /// The assembled text was rejected by the CSS parser; carries the
    /// text's length and a bounded prefix for diagnostics.
    ParseError { length: usize, snippet: String },
    /// The parsed stylesheet could not be minified.
    MinifyError,
    /// The minified stylesheet could not be printed.
    PrintError,
    /// A file name consisting only of blanks.
    EmptyFileName,
    /// An output directory consisting only of blanks.
    EmptyOutputDir,
}

} // verus!
