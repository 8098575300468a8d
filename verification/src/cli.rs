//! The decisions of the command-line tool: which operation to run and where
//! extracted styles go.

use vstd::prelude::*;
use crate::config::JSMeldOptions;

verus! {

/// What the command-line tool does with its input.
#[derive(Debug, Clone, Copy, PartialEq, Eq, Structural)]
pub enum RunMode {
    /// Bundle the entry point and everything it imports.
    Bundle,
    /// Compile the input file alone.
    Compile,
}

/// Chooses the operation from the `--bundle` and `--compile` flags: bundling
/// when it is asked for, or when compiling is not.
pub fn run_mode(bundle: bool, compile: bool) -> (r: RunMode)
    ensures
        r == (if bundle || !compile { RunMode::Bundle } else { RunMode::Compile }),
{
    if bundle || !compile {
        RunMode::Bundle
    } else {
        RunMode::Compile
    }
}

/// Where a bundle's extracted styles go: nowhere unless `--extract-styles` or
/// `--style-output` is given; to the `--style-output` path when it is given,
/// else to `default_path` (the output path with a `css` extension).
pub fn style_output_path(extract_styles: bool, style_output: Option<String>, default_path: String) -> (r: Option<String>)
    ensures
        !extract_styles && style_output is None ==> r is None,
        style_output matches Some(p) ==> r == Some(p),
        extract_styles && style_output is None ==> r == Some(default_path),
{
    if extract_styles || style_output.is_some() {
        match style_output {
            Some(p) => Some(p),
            None => Some(default_path),
        }
    } else {
        None
    }
}

/// The options the command-line tool runs with: the defaults, with the given
/// target, minification and style output.
pub fn cli_options<H>(target: String, minify: bool, style_output: Option<String>) -> (r: JSMeldOptions<H>)
    ensures
        r.target == target,
        r.minify == minify,
        r.style_output == style_output,
        r.source_map,
        r.typescript,
        r.module@ == "esm"@,
        r.strict,
        !r.code_split,
        r.externals@.len() == 0,
        r.style_hooks@ == Map::<Seq<char>, Seq<H>>::empty(),
{
    let mut options = JSMeldOptions::default();
    options.target = target;
    options.minify = minify;
    options.style_output = style_output;
    options
}

} // verus!
