//! JavaScript/TypeScript compilation with SWC.

use vstd::prelude::*;
use std::sync::Arc;
use swc::Compiler as SwcCompiler;
use swc::config::{Config, Options, SourceMapsConfig};
use swc_common::{FileName, Globals, GLOBALS};
use crate::config::JSMeldOptions;
use crate::errors::{diagnostics_message, JSMeldError, JSMeldResult};
use crate::util::{es_target_of, parse_es_version, unknown_version_message, EsTarget};

verus! {

/// SWC's compiler, held behind an `Arc` and used only through the calls below.
#[verifier::external_type_specification]
#[verifier::external_body]
pub struct ExSwcCompiler(SwcCompiler);

/// SWC's per-thread global state, held behind an `Arc`.
#[verifier::external_type_specification]
#[verifier::external_body]
pub struct ExSwcGlobals(Globals);

/// SWC's name for an ECMAScript version.
#[verifier::external_type_specification]
#[verifier::external_body]
pub struct ExEsVersion(swc_ecma_ast::EsVersion);

/// Calls `swc::Compiler::new` with a fresh, empty `swc_common::SourceMap`.
#[verifier::external_body]
fn new_swc_compiler() -> Arc<SwcCompiler> {
    let cm = Arc::new(swc_common::SourceMap::new(swc_common::FilePathMapping::empty()));
    Arc::new(SwcCompiler::new(cm))
}

/// Calls `swc_common::Globals::new`.
#[verifier::external_body]
fn new_swc_globals() -> Arc<Globals> {
    Arc::new(Globals::new())
}

/// The `swc_ecma_ast::EsVersion` variant of the same name as `t`.
pub uninterp spec fn es_version_for(t: EsTarget) -> swc_ecma_ast::EsVersion;

/// Names each target by the `swc_ecma_ast::EsVersion` variant of the same name.
#[verifier::external_body]
fn to_es_version(t: EsTarget) -> (r: swc_ecma_ast::EsVersion)
    ensures
        r == es_version_for(t),
{
    match t {
        EsTarget::Es3 => swc_ecma_ast::EsVersion::Es3,
        EsTarget::Es5 => swc_ecma_ast::EsVersion::Es5,
        EsTarget::Es2015 => swc_ecma_ast::EsVersion::Es2015,
        EsTarget::Es2016 => swc_ecma_ast::EsVersion::Es2016,
        EsTarget::Es2017 => swc_ecma_ast::EsVersion::Es2017,
        EsTarget::Es2018 => swc_ecma_ast::EsVersion::Es2018,
        EsTarget::Es2019 => swc_ecma_ast::EsVersion::Es2019,
        EsTarget::Es2020 => swc_ecma_ast::EsVersion::Es2020,
        EsTarget::Es2021 => swc_ecma_ast::EsVersion::Es2021,
        EsTarget::Es2022 => swc_ecma_ast::EsVersion::Es2022,
        EsTarget::Es2023 => swc_ecma_ast::EsVersion::Es2023,
        EsTarget::Es2024 => swc_ecma_ast::EsVersion::Es2024,
        EsTarget::EsNext => swc_ecma_ast::EsVersion::EsNext,
    }
}

/// What SWC gives for compiling `source`, registered as the file `filename`,
/// with minification and source maps as given and `target` as `jsc.target`,
/// everything else SWC's default: the generated code, or the messages of the
/// diagnostics it reported.
pub uninterp spec fn swc_output(
    source: Seq<char>,
    filename: Seq<char>,
    minify: bool,
    source_map: bool,
    target: EsTarget,
) -> Result<Seq<char>, Seq<Seq<char>>>;

/// The view of SWC's outcome: the code's text, or the messages' texts.
pub open spec fn outcome_view(outcome: Result<String, Vec<String>>) -> Result<Seq<char>, Seq<Seq<char>>> {
    match outcome {
        Ok(code) => Ok(code@),
        Err(messages) => Err(messages@.map_values(|m: String| m@)),
    }
}

/// Calls `swc::Compiler::process_js_file` inside `swc::try_with_handler`, with
/// `globals` set, on `request.source` registered in the compiler's source map
/// as the file `request.filename`, with `swc::config::Options` that hold the
/// file name, minification, source maps on or off and `target`, and SWC's
/// defaults otherwise (among them `swcrc: false`, so no `.swcrc` is read).
/// Gives the generated code, or the messages of SWC's diagnostics. That
/// outcome is named `swc_output` of the request: the claim is that SWC
/// computes it from these values alone, whichever compiler and globals run it.
#[verifier::external_body]
fn swc_process_js(
    swc: &SwcCompiler,
    globals: &Globals,
    request: &CompileRequest,
    target: swc_ecma_ast::EsVersion,
) -> (r: Result<String, Vec<String>>)
    requires
        target == es_version_for(request.target),
    ensures
        outcome_view(r) == swc_output(request.source@, request.filename@, request.minify, request.source_map, request.target),
{
    GLOBALS.set(globals, || {
        let mut config = Config { minify: request.minify.into(), ..Default::default() };
        config.source_maps = Some(SourceMapsConfig::Bool(request.source_map));
        config.jsc.target = Some(target);
        let opts = Options { config, filename: request.filename.clone(), ..Default::default() };
        let fm = swc.cm.new_source_file(FileName::Real(request.filename.as_str().into()).into(), request.source.clone());
        swc::try_with_handler(swc.cm.clone(), Default::default(), |h| swc.process_js_file(fm, h, &opts))
            .map(|output| output.code)
            .map_err(|err| err.diagnostics().iter().map(|d| d.message()).collect())
    })
}

/// One compilation as it is handed to SWC.
pub struct CompileRequest {
    pub source: String,
    pub filename: String,
    pub minify: bool,
    pub source_map: bool,
    pub target: EsTarget,
}

/// The result that SWC's outcome gives: the generated code, or a compilation
/// error that lists SWC's diagnostic messages.
pub fn compile_result(outcome: Result<String, Vec<String>>) -> (r: JSMeldResult<String>)
    ensures
        compiled_result(outcome_view(outcome), r),
        outcome matches Ok(code) ==> r == Ok::<String, JSMeldError>(code),
{
    match outcome {
        Ok(code) => Ok(code),
        Err(messages) => Err(JSMeldError::from_diagnostics(&messages)),
    }
}

/// The result that SWC's outcome, as text, gives: the generated code, or a
/// compilation error that lists the diagnostic messages.
pub open spec fn compiled_result(outcome: Result<Seq<char>, Seq<Seq<char>>>, r: JSMeldResult<String>) -> bool {
    match outcome {
        Ok(code) => r matches Ok(s) && s@ == code,
        Err(messages) => r matches Err(JSMeldError::CompilationError(m)) && m@ == diagnostics_message(messages),
    }
}

/// JavaScript/TypeScript compiler.
pub struct Compiler {
    target: String,
    minify: bool,
    source_map: bool,
    swc: Arc<SwcCompiler>,
    globals: Arc<Globals>,
}

/// What compiling `source`, named `filename`, returns for a compiler with
/// `target`, `minify` and `source_map`: the configuration error for an
/// unknown target, and otherwise what SWC gives for exactly these values.
pub open spec fn compile_outcome(
    target: Seq<char>,
    minify: bool,
    source_map: bool,
    source: Seq<char>,
    filename: Seq<char>,
    r: JSMeldResult<String>,
) -> bool {
    match es_target_of(target) {
        None => r matches Err(JSMeldError::ConfigError(m)) && m@ == unknown_version_message(target),
        Some(t) => compiled_result(swc_output(source, filename, minify, source_map, t), r),
    }
}

impl Compiler {
    /// The target version name the compiler was created with.
    pub closed spec fn target(&self) -> Seq<char> {
        self.target@
    }

    /// Whether the compiler minifies its output.
    pub closed spec fn minify(&self) -> bool {
        self.minify
    }

    /// Whether the compiler generates source maps.
    pub closed spec fn source_map(&self) -> bool {
        self.source_map
    }

    /// Create a new compiler instance with the given options.
    pub fn new<H>(options: JSMeldOptions<H>) -> (r: Compiler)
        ensures
            r.target() == options.target@,
            r.minify() == options.minify,
            r.source_map() == options.source_map,
    {
        Compiler::with_settings(options.target, options.minify, options.source_map)
    }

    /// A compiler for `target`, with minification and source maps as given.
    pub(crate) fn with_settings(target: String, minify: bool, source_map: bool) -> (r: Compiler)
        ensures
            r.target() == target@,
            r.minify() == minify,
            r.source_map() == source_map,
    {
        Compiler { target, minify, source_map, swc: new_swc_compiler(), globals: new_swc_globals() }
    }

    /// The handle of the SWC compiler that this compiler runs.
    pub closed spec fn swc_handle(&self) -> Arc<SwcCompiler> {
        self.swc
    }

    /// The handle of the SWC global state that this compiler compiles under.
    pub closed spec fn globals_handle(&self) -> Arc<Globals> {
        self.globals
    }

    /// SWC's compiler, whose source map the bundler shares: the very handle
    /// this compiler compiles with.
    pub fn swc(&self) -> (r: &Arc<SwcCompiler>)
        ensures
            *r == self.swc_handle(),
    {
        &self.swc
    }

    /// SWC's global state, which the bundler shares: the very handle this
    /// compiler compiles under.
    pub fn globals(&self) -> (r: &Arc<Globals>)
        ensures
            *r == self.globals_handle(),
    {
        &self.globals
    }

    /// What the compiler hands to SWC for `source`, named `filename`: the
    /// compiler's settings with its target parsed. An unknown target is a
    /// configuration error.
    pub fn request(&self, source: &str, filename: &str) -> (r: JSMeldResult<CompileRequest>)
        ensures
            match es_target_of(self.target()) {
                None => r matches Err(JSMeldError::ConfigError(m)) && m@ == unknown_version_message(self.target()),
                Some(t) => r matches Ok(q) && q.source@ == source@ && q.filename@ == filename@
                    && q.minify == self.minify() && q.source_map == self.source_map() && q.target == t,
            },
    {
        match parse_es_version(self.target.clone()) {
            Ok(target) => Ok(CompileRequest {
                source: String::from_str(source),
                filename: String::from_str(filename),
                minify: self.minify,
                source_map: self.source_map,
                target,
            }),
            Err(e) => Err(e),
        }
    }

    /// Compile JavaScript/TypeScript code from a string. `filename` names the
    /// source in diagnostics. The target is checked first: an unknown target
    /// is a configuration error and nothing is compiled.
    pub fn compile(&self, source: &str, filename: &str) -> (r: JSMeldResult<String>)
        ensures
            compile_outcome(self.target(), self.minify(), self.source_map(), source@, filename@, r),
    {
        let request = match self.request(source, filename) {
            Ok(q) => q,
            Err(e) => return Err(e),
        };
        let target = to_es_version(request.target);
        let outcome = swc_process_js(&self.swc, &self.globals, &request, target);
        compile_result(outcome)
    }

    /// Transform code with the given transforms. No transform is applied yet
    /// besides compilation: this compiles `source` as `compile` does.
    pub fn transform(&self, source: &str, filename: &str, transforms: Vec<String>) -> (r: JSMeldResult<String>)
        ensures
            compile_outcome(self.target(), self.minify(), self.source_map(), source@, filename@, r),
    {
        self.compile(source, filename)
    }
}

impl Default for Compiler {
    fn default() -> (r: Compiler)
        ensures
            r.target() == "es6"@,
            !r.minify(),
            r.source_map(),
    {
        Compiler::new(JSMeldOptions::<()>::default())
    }
}

} // verus!
