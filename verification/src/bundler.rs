//! Bundling: the loader that turns source files into modules, the bundler
//! that holds the options, and the steps of one bundling run.

use vstd::prelude::*;
use vstd::utf8::{decode_utf8, valid_utf8};
use crate::compiler::{compile_outcome, Compiler};
use crate::config::{is_default_options, normalize_extension, normalized_extension, JSMeldOptions, StyleHooks};
use crate::errors::{message_of_text, JSMeldError, JSMeldResult};
use crate::style::{
    apply_style_hooks_with_extension, build_style_module_source, extension_from_path, hook_map_callable,
    hooks_outcome, is_extension_of, is_style_extension, is_style_extension_name, json_string_literal, opt_view,
    has_extension, has_no_extension, style_module_text,
};
use crate::text::{ascii_lowercase, concat_str, join, join_strings};
use crate::util::{es_target_of, parse_es_version, unknown_version_message, EsTarget};

verus! {

/// A module as the loader hands it to the bundler: its JavaScript source and,
/// for a style file whose styles are extracted, the style text to extract.
pub struct LoadedModule {
    pub source: String,
    pub extracted_style: Option<String>,
}

/// What loading a style file with lower-case extension `extension` may give:
/// the hooks for that extension run over the file's text; their output
/// becomes a style module that injects the style at run time, unless styles
/// are extracted, in which case the module only exports the style and the
/// output is handed back for extraction. A hook's error is the load's error.
pub open spec fn style_load_outcome<H: Fn(&str, &str) -> Result<String, String>>(
    hooks: Map<Seq<char>, Seq<H>>,
    extension: Seq<char>,
    path: &str,
    source: Seq<char>,
    extract: bool,
    r: Result<LoadedModule, String>,
) -> bool {
    match r {
        Ok(m) => exists|t: String|
            #![trigger hooks_outcome(hooks, Some(extension), path, source, Ok::<String, String>(t))]
            hooks_outcome(hooks, Some(extension), path, source, Ok::<String, String>(t))
                && m.source@ == style_module_text(json_string_literal(t@), !extract)
                && if extract {
                    m.extracted_style matches Some(x) && x@ == t@
                } else {
                    m.extracted_style is None
                },
        Err(e) => hooks_outcome(hooks, Some(extension), path, source, Err::<String, String>(e)),
    }
}

/// What loading the script at `path` with text `source` may give: the
/// compiler's output for that text under that path as the module, or the
/// text of the compiler's error.
pub open spec fn script_load_outcome(c: Compiler, path: &str, source: Seq<char>, r: Result<LoadedModule, String>) -> bool {
    match r {
        Ok(m) => m.extracted_style is None && compile_outcome(
            c.target(),
            c.minify(),
            c.source_map(),
            source,
            path@,
            Ok::<String, JSMeldError>(m.source),
        ),
        Err(msg) => exists|e: JSMeldError|
            #![trigger compile_outcome(c.target(), c.minify(), c.source_map(), source, path@, Err::<String, JSMeldError>(e))]
            compile_outcome(c.target(), c.minify(), c.source_map(), source, path@, Err::<String, JSMeldError>(e))
                && message_of_text(e) == Some(msg@),
    }
}

/// Loads source files for the bundler: style files become style modules,
/// everything else is compiled.
pub struct Loader<'a, H> {
    pub compiler: &'a Compiler,
    pub style_hooks: &'a StyleHooks<H>,
    /// Whether style files are extracted into a separate style sheet rather
    /// than injected at run time.
    pub extract_styles: bool,
}

impl<'a, H: Fn(&str, &str) -> Result<String, String>> Loader<'a, H> {
    /// What loading the file at `path` with text `source` may give, for a file
    /// whose lower-case extension is `extension`.
    pub open spec fn load_outcome(
        &self,
        extension: Option<Seq<char>>,
        path: &str,
        source: Seq<char>,
        r: Result<LoadedModule, String>,
    ) -> bool {
        match extension {
            Some(e) => if is_style_extension_name(ascii_lowercase(e)) {
                style_load_outcome(self.style_hooks@, e, path, source, self.extract_styles, r)
            } else {
                script_load_outcome(*self.compiler, path, source, r)
            },
            None => script_load_outcome(*self.compiler, path, source, r),
        }
    }

    /// Loads the file at `path`, whose text is `source` and whose lower-case
    /// extension is `extension`.
    pub fn load_with_extension(&self, extension: Option<&str>, path: &str, source: &str) -> (r: Result<
        LoadedModule,
        String,
    >)
        requires
            hook_map_callable(self.style_hooks@),
        ensures
            self.load_outcome(opt_view(extension), path, source@, r),
    {
        let is_style = match extension {
            Some(e) => is_style_extension(e),
            None => false,
        };
        if is_style {
            let transformed = match apply_style_hooks_with_extension(self.style_hooks, extension, path, source) {
                Ok(t) => t,
                Err(e) => return Err(e),
            };
            let module = match build_style_module_source(transformed.as_str(), !self.extract_styles) {
                Ok(m) => m,
                Err(e) => return Err(e.message()),
            };
            let extracted_style = if self.extract_styles {
                Some(transformed)
            } else {
                None
            };
            Ok(LoadedModule { source: module, extracted_style })
        } else {
            match self.compiler.compile(source, path) {
                Ok(code) => Ok(LoadedModule { source: code, extracted_style: None }),
                Err(e) => Err(e.message()),
            }
        }
    }

    /// Loads the file at `path`, whose text is `source`: a style file (by
    /// its extension) goes through the style hooks and becomes a style
    /// module; any other file is compiled.
    pub fn load_module(&self, path: &str, source: &str) -> (r: Result<LoadedModule, String>)
        requires
            hook_map_callable(self.style_hooks@),
        ensures
            self.load_outcome(None, path, source@, r) || exists|raw: Seq<char>|
                is_extension_of(path@, raw) && self.load_outcome(Some(ascii_lowercase(raw)), path, source@, r),
            forall|e: Seq<char>| #[trigger] has_extension(path@, e) ==> self.load_outcome(
                Some(ascii_lowercase(e)),
                path,
                source@,
                r,
            ),
            has_no_extension(path@) ==> self.load_outcome(None, path, source@, r),
    {
        let extension = extension_from_path(path);
        match &extension {
            Some(e) => self.load_with_extension(Some(e.as_str()), path, source),
            None => self.load_with_extension(None, path, source),
        }
    }
}

/// The `{:#?}` text of the error that `String::from_utf8` gives for
/// `bytes`: the bytes and where their UTF-8 breaks off.
pub uninterp spec fn utf8_error_text(bytes: Seq<u8>) -> Seq<char>;

/// Calls `String::from_utf8`. Its documentation: the bytes become a
/// `String` exactly when they are valid UTF-8; otherwise the error says why
/// they are not. The error, given here in its `{:#?}` form, holds the bytes
/// and where they break off, and so is named as a function of the bytes.
#[verifier::external_body]
fn utf8_string(bytes: Vec<u8>) -> (r: Result<String, String>)
    ensures
        r is Ok <==> valid_utf8(bytes@),
        r matches Ok(s) ==> s@ == decode_utf8(bytes@),
        r matches Err(d) ==> d@ == utf8_error_text(bytes@),
{
    String::from_utf8(bytes).map_err(|e| format!("{:#?}", e))
}

/// The views of a sequence of strings.
pub open spec fn string_views(v: Seq<String>) -> Seq<Seq<char>> {
    v.map_values(|s: String| s@)
}

/// A step that the bundling run asks its host to perform.
pub enum BundleAction {
    /// Resolve the entry path to its canonical form.
    ResolveEntry { entry: String },
    /// Bundle the module graph rooted at `entry_path`, keeping `externals`
    /// out of it, loading each module with the run's loader; report the
    /// extracted styles in the order the modules were loaded.
    LinkModules { entry_path: String, externals: Vec<String> },
    /// Generate code for the bundled module.
    EmitCode { minify: bool, target: EsTarget },
    /// Write the style sheet `css` to `path`, creating the directory that
    /// holds it when there is one.
    WriteStyles { path: String, css: String },
}

/// What the host reports after performing a step.
pub enum BundleEvent {
    EntryResolved(Result<String, std::io::Error>),
    ModulesLinked(Result<Vec<String>, String>),
    CodeEmitted(Result<Vec<u8>, String>),
    StylesWritten(Result<(), std::io::Error>),
}

/// What the run does next: ask for a step, or end with its result.
pub enum BundleStep {
    Perform(BundleAction),
    Finished(JSMeldResult<String>),
}

/// The stage a bundling run is in: the step it waits for.
#[derive(Debug, Clone, Copy, PartialEq, Eq, Structural)]
pub enum BundleStage {
    ResolvingEntry,
    LinkingModules,
    EmittingCode,
    WritingStyles,
    Done,
}

/// How many steps at most remain from a stage.
pub open spec fn stage_rank(stage: BundleStage) -> nat {
    match stage {
        BundleStage::ResolvingEntry => 4,
        BundleStage::LinkingModules => 3,
        BundleStage::EmittingCode => 2,
        BundleStage::WritingStyles => 1,
        BundleStage::Done => 0,
    }
}

/// The stage whose step `event` reports on.
pub open spec fn stage_of_event(event: BundleEvent) -> BundleStage {
    match event {
        BundleEvent::EntryResolved(_) => BundleStage::ResolvingEntry,
        BundleEvent::ModulesLinked(_) => BundleStage::LinkingModules,
        BundleEvent::CodeEmitted(_) => BundleStage::EmittingCode,
        BundleEvent::StylesWritten(_) => BundleStage::WritingStyles,
    }
}

/// The text of the error that a failed module bundling becomes.
pub open spec fn bundling_failed_message(detail: Seq<char>) -> Seq<char> {
    "Bundling failed: "@ + detail
}

/// The text of the error that failed code generation becomes.
pub open spec fn codegen_failed_message(detail: Seq<char>) -> Seq<char> {
    "Code generation failed: "@ + detail
}

/// The text of the error for generated code that is not UTF-8.
pub open spec fn invalid_utf8_message(detail: Seq<char>) -> Seq<char> {
    "Invalid UTF-8 in output: "@ + detail
}

/// The result that generated `code` gives: the code as text when it is valid
/// UTF-8, a bundling error otherwise.
pub open spec fn output_result(code: Seq<u8>, r: JSMeldResult<String>) -> bool {
    if valid_utf8(code) {
        r matches Ok(s) && s@ == decode_utf8(code)
    } else {
        r matches Err(JSMeldError::BundlingError(m)) && m@ == invalid_utf8_message(utf8_error_text(code))
    }
}

/// Turns generated code into the run's result.
fn finish_output(code: Vec<u8>) -> (r: JSMeldResult<String>)
    ensures
        output_result(code@, r),
{
    match utf8_string(code) {
        Ok(s) => Ok(s),
        Err(detail) => {
            let m = concat_str("Invalid UTF-8 in output: ", detail.as_str());
            assert(m@ == invalid_utf8_message(detail@));
            Err(JSMeldError::BundlingError(m))
        },
    }
}

/// What `BundleRun::resume` does: from the run `pre`, the report `event`
/// leads to the run `post` and the step `step`.
pub open spec fn resume_step(pre: BundleRun, event: BundleEvent, post: BundleRun, step: BundleStep) -> bool {
    &&& post.target() == pre.target()
    &&& post.minify() == pre.minify()
    &&& post.style_output() == pre.style_output()
    &&& post.externals() == pre.externals()
    &&& step is Perform ==> stage_rank(post.stage()) < stage_rank(pre.stage())
        && post.stage() != BundleStage::Done
    &&& step is Finished ==> post.stage() == BundleStage::Done
    &&& step matches BundleStep::Finished(Ok(_)) ==> es_target_of(pre.target()) is Some
    &&& step matches BundleStep::Finished(Err(JSMeldError::ConfigError(m))) ==> es_target_of(pre.target()) is None
        && m@ == unknown_version_message(pre.target())
    &&& match event {
        BundleEvent::EntryResolved(Ok(p)) => post.stage() == BundleStage::LinkingModules
            && post.styles() == pre.styles() && post.code() == pre.code()
            && (step matches BundleStep::Perform(BundleAction::LinkModules { entry_path, externals })
            && entry_path == p && string_views(externals@) == pre.externals()),
        BundleEvent::EntryResolved(Err(e)) => post.stage() == BundleStage::Done
            && step == BundleStep::Finished(Err(JSMeldError::IOError(e))),
        BundleEvent::ModulesLinked(Err(d)) => post.stage() == BundleStage::Done
            && (step matches BundleStep::Finished(Err(JSMeldError::BundlingError(m)))
            && m@ == bundling_failed_message(d@)),
        BundleEvent::ModulesLinked(Ok(styles)) => match es_target_of(pre.target()) {
            None => post.stage() == BundleStage::Done
                && (step matches BundleStep::Finished(Err(JSMeldError::ConfigError(m)))
                && m@ == unknown_version_message(pre.target())),
            Some(t) => post.stage() == BundleStage::EmittingCode
                && post.styles() == string_views(styles@) && post.code() == pre.code()
                && step == BundleStep::Perform(BundleAction::EmitCode { minify: pre.minify(), target: t }),
        },
        BundleEvent::CodeEmitted(Err(d)) => post.stage() == BundleStage::Done
            && (step matches BundleStep::Finished(Err(JSMeldError::BundlingError(m)))
            && m@ == codegen_failed_message(d@)),
        BundleEvent::CodeEmitted(Ok(code)) => match pre.style_output() {
            Some(p) => post.stage() == BundleStage::WritingStyles
                && post.code() == code@ && post.styles() == pre.styles()
                && (step matches BundleStep::Perform(BundleAction::WriteStyles { path, css })
                && path@ == p && css@ == join(pre.styles(), "\n"@)),
            None => post.stage() == BundleStage::Done
                && (step matches BundleStep::Finished(r) && output_result(code@, r)),
        },
        BundleEvent::StylesWritten(Err(e)) => post.stage() == BundleStage::Done
            && step == BundleStep::Finished(Err(JSMeldError::IOError(e))),
        BundleEvent::StylesWritten(Ok(())) => post.stage() == BundleStage::Done
            && (step matches BundleStep::Finished(r) && output_result(pre.code(), r)),
    }
}

/// `run` and its first step `action` are how a run for `entry` with
/// `options` begins: waiting to resolve the entry, with the options' target,
/// minification, style output and externals, and no styles or code yet.
pub open spec fn run_started<H>(entry: Seq<char>, options: JSMeldOptions<H>, run: BundleRun, action: BundleAction) -> bool {
    &&& run.stage() == BundleStage::ResolvingEntry
    &&& run.target() == options.target@
    &&& run.minify() == options.minify
    &&& run.style_output() == (match options.style_output {
        Some(p) => Some(p@),
        None => None::<Seq<char>>,
    })
    &&& run.externals() == string_views(options.externals@)
    &&& run.styles() == Seq::<Seq<char>>::empty()
    &&& run.code() == Seq::<u8>::empty()
    &&& action matches BundleAction::ResolveEntry { entry: e } && e@ == entry
}

/// The text of the error for a host that reports on a step it was not asked
/// to perform.
pub open spec fn unexpected_event_message() -> Seq<char> {
    "Bundling failed: the host reported on a step that was not asked for"@
}

/// Each report in `events` answers the step that the run before it waits
/// for, and takes that run to the next one in `runs` as `BundleRun::resume`
/// does, with the answer in `steps`.
pub open spec fn steps_follow(runs: Seq<BundleRun>, events: Seq<BundleEvent>, steps: Seq<BundleStep>) -> bool {
    forall|i: int|
        #![trigger steps[i]]
        0 <= i < steps.len() ==> runs[i].stage() == stage_of_event(events[i]) && resume_step(
            runs[i],
            events[i],
            runs[i + 1],
            steps[i],
        )
}

/// Each step asked of the host after the first is the one that the answer
/// before it gave.
pub open spec fn actions_follow(actions: Seq<BundleAction>, steps: Seq<BundleStep>) -> bool {
    forall|i: int| #![trigger steps[i]] 0 <= i && i + 1 < actions.len() ==> steps[i] == BundleStep::Perform(actions[i + 1])
}

/// A report that answers the step the last run waits for, with the answer
/// `BundleRun::resume` gives, extends a record of steps that follow.
proof fn lemma_steps_follow_push(
    runs: Seq<BundleRun>,
    events: Seq<BundleEvent>,
    steps: Seq<BundleStep>,
    next: BundleRun,
    event: BundleEvent,
    step: BundleStep,
)
    requires
        steps_follow(runs, events, steps),
        runs.len() == steps.len() + 1,
        events.len() == steps.len(),
        runs.last().stage() == stage_of_event(event),
        resume_step(runs.last(), event, next, step),
    ensures
        steps_follow(runs.push(next), events.push(event), steps.push(step)),
{
    let runs2 = runs.push(next);
    let events2 = events.push(event);
    let steps2 = steps.push(step);
    assert forall|i: int| 0 <= i < steps2.len() implies runs2[i].stage() == stage_of_event(events2[i])
        && resume_step(runs2[i], events2[i], runs2[i + 1], #[trigger] steps2[i]) by {
        if i < steps.len() {
            assert(steps2[i] == steps[i]);
            assert(runs2[i] == runs[i]);
            assert(runs2[i + 1] == runs[i + 1]);
            assert(events2[i] == events[i]);
        } else {
            assert(runs2[i] == runs.last());
        }
    }
}

/// `a` and `b` are the same run state: the same stage, settings, styles and
/// code.
pub open spec fn same_run(a: BundleRun, b: BundleRun) -> bool {
    &&& a.stage() == b.stage()
    &&& a.target() == b.target()
    &&& a.minify() == b.minify()
    &&& a.style_output() == b.style_output()
    &&& a.externals() == b.externals()
    &&& a.styles() == b.styles()
    &&& a.code() == b.code()
}

/// `a` and `b` ask for the same step, their texts compared by content.
pub open spec fn same_action(a: BundleAction, b: BundleAction) -> bool {
    match (a, b) {
        (BundleAction::ResolveEntry { entry: x }, BundleAction::ResolveEntry { entry: y }) => x@ == y@,
        (
            BundleAction::LinkModules { entry_path: p, externals: e },
            BundleAction::LinkModules { entry_path: q, externals: f },
        ) => p@ == q@ && string_views(e@) == string_views(f@),
        (BundleAction::EmitCode { minify: m, target: t }, BundleAction::EmitCode { minify: n, target: u }) => m
            == n && t == u,
        (BundleAction::WriteStyles { path: p, css: c }, BundleAction::WriteStyles { path: q, css: d }) => p@ == q@
            && c@ == d@,
        _ => false,
    }
}

/// `a` and `b` are the same error, their texts compared by content.
pub open spec fn same_error(a: JSMeldError, b: JSMeldError) -> bool {
    match (a, b) {
        (JSMeldError::CompilationError(x), JSMeldError::CompilationError(y)) => x@ == y@,
        (JSMeldError::BundlingError(x), JSMeldError::BundlingError(y)) => x@ == y@,
        (JSMeldError::ConfigError(x), JSMeldError::ConfigError(y)) => x@ == y@,
        (JSMeldError::IOError(x), JSMeldError::IOError(y)) => x == y,
        _ => false,
    }
}

/// `a` and `b` are the same result, their texts compared by content.
pub open spec fn same_result(a: JSMeldResult<String>, b: JSMeldResult<String>) -> bool {
    match (a, b) {
        (Ok(x), Ok(y)) => x@ == y@,
        (Err(x), Err(y)) => same_error(x, y),
        _ => false,
    }
}

/// `a` and `b` are the same answer of a run.
pub open spec fn same_step(a: BundleStep, b: BundleStep) -> bool {
    match (a, b) {
        (BundleStep::Perform(x), BundleStep::Perform(y)) => same_action(x, y),
        (BundleStep::Finished(x), BundleStep::Finished(y)) => same_result(x, y),
        _ => false,
    }
}

/// The same run state and the same report give the same answer, and, when
/// the run goes on, the same next state.
proof fn lemma_resume_determined(
    pre1: BundleRun,
    pre2: BundleRun,
    event: BundleEvent,
    post1: BundleRun,
    post2: BundleRun,
    step1: BundleStep,
    step2: BundleStep,
)
    requires
        same_run(pre1, pre2),
        resume_step(pre1, event, post1, step1),
        resume_step(pre2, event, post2, step2),
    ensures
        same_step(step1, step2),
        step1 is Perform ==> same_run(post1, post2),
{
}

/// Runs that start alike and take the same reports stay alike, and answer
/// alike, for as long as they go on.
proof fn lemma_runs_agree(
    runs1: Seq<BundleRun>,
    steps1: Seq<BundleStep>,
    runs2: Seq<BundleRun>,
    steps2: Seq<BundleStep>,
    events: Seq<BundleEvent>,
    j: int,
)
    requires
        steps_follow(runs1, events, steps1),
        steps_follow(runs2, events, steps2),
        runs1.len() == steps1.len() + 1,
        runs2.len() == steps2.len() + 1,
        same_run(runs1[0], runs2[0]),
        0 <= j <= steps1.len(),
        j <= steps2.len(),
        forall|i: int| 0 <= i < j ==> #[trigger] steps1[i] is Perform,
    ensures
        same_run(runs1[j], runs2[j]),
        forall|i: int| 0 <= i < j ==> same_step(#[trigger] steps1[i], steps2[i]),
    decreases j,
{
    if j > 0 {
        lemma_runs_agree(runs1, steps1, runs2, steps2, events, j - 1);
        lemma_resume_determined(
            runs1[j - 1],
            runs2[j - 1],
            events[j - 1],
            runs1[j],
            runs2[j],
            steps1[j - 1],
            steps2[j - 1],
        );
    }
}

/// A bundling run's result depends only on its entry, its options and what
/// its host reports: two runs for the same entry with the same options whose
/// hosts report the same, report for report, ask for the same steps and end
/// with the same result. Since `bundle_result` ties each step of the trace to
/// a call of the host, `bundle(entry, options, host)` and
/// `Bundler::new(options).bundle(entry, host)` hand a host that answers each
/// step alike the same steps (the same entry to resolve, the same style sheet
/// to write at the style output) and end with the same result.
pub proof fn lemma_same_reports_same_bundle<H>(
    entry: Seq<char>,
    options: JSMeldOptions<H>,
    events: Seq<BundleEvent>,
    runs1: Seq<BundleRun>,
    actions1: Seq<BundleAction>,
    steps1: Seq<BundleStep>,
    r1: JSMeldResult<String>,
    runs2: Seq<BundleRun>,
    actions2: Seq<BundleAction>,
    steps2: Seq<BundleStep>,
    r2: JSMeldResult<String>,
)
    requires
        bundle_trace(entry, options, runs1, actions1, events, steps1, r1),
        bundle_trace(entry, options, runs2, actions2, events, steps2, r2),
    ensures
        actions1.len() == actions2.len(),
        forall|i: int| 0 <= i < actions1.len() ==> same_action(#[trigger] actions1[i], actions2[i]),
        same_result(r1, r2),
{
    let n = events.len() as int;
    let j = n - 1;
    assert forall|i: int| 0 <= i < j implies #[trigger] steps1[i] is Perform by {
        assert(steps1[i] == BundleStep::Perform(actions1[i + 1]));
    }
    lemma_runs_agree(runs1, steps1, runs2, steps2, events, j);
    assert forall|i: int| 0 <= i < actions1.len() implies same_action(#[trigger] actions1[i], actions2[i]) by {
        if i > 0 {
            assert(steps1[i - 1] == BundleStep::Perform(actions1[i]));
            assert(steps2[i - 1] == BundleStep::Perform(actions2[i]));
            assert(same_step(steps1[i - 1], steps2[i - 1]));
        }
    }
    if steps1.len() == n && steps2.len() == n {
        lemma_resume_determined(runs1[j], runs2[j], events[j], runs1[j + 1], runs2[j + 1], steps1[j], steps2[j]);
    }
}

/// Along a run, every state keeps the minification and externals of the
/// first.
proof fn lemma_runs_keep_settings(runs: Seq<BundleRun>, events: Seq<BundleEvent>, steps: Seq<BundleStep>, i: int)
    requires
        steps_follow(runs, events, steps),
        runs.len() == steps.len() + 1,
        0 <= i < runs.len(),
    ensures
        runs[i].minify() == runs[0].minify(),
        runs[i].externals() == runs[0].externals(),
        runs[i].target() == runs[0].target(),
        runs[i].style_output() == runs[0].style_output(),
    decreases i,
{
    if i > 0 {
        lemma_runs_keep_settings(runs, events, steps, i - 1);
        let j = i - 1;
        assert(resume_step(runs[j], events[j], runs[j + 1], steps[j]));
    }
}

/// In every bundling run, each step asked of the host comes from the run's
/// options as they are, whatever else the options say: code is generated
/// minified exactly when the options ask for minification (style output or
/// not) for the target that the options name, the module graph is linked
/// from the resolved entry with every one of the options' externals, in
/// order, kept out of the bundle, and styles are written only to the options'
/// style output.
pub proof fn lemma_steps_follow_options<H>(
    entry: Seq<char>,
    options: JSMeldOptions<H>,
    runs: Seq<BundleRun>,
    actions: Seq<BundleAction>,
    events: Seq<BundleEvent>,
    steps: Seq<BundleStep>,
    r: JSMeldResult<String>,
)
    requires
        bundle_trace(entry, options, runs, actions, events, steps, r),
    ensures
        forall|i: int|
            0 <= i < actions.len() ==> (#[trigger] actions[i] matches BundleAction::EmitCode { minify, .. }
                ==> minify == options.minify),
        forall|i: int|
            0 <= i < actions.len() ==> (#[trigger] actions[i] matches BundleAction::LinkModules { externals, .. }
                ==> string_views(externals@) == string_views(options.externals@)),
        forall|i: int|
            0 <= i < actions.len() ==> (#[trigger] actions[i] matches BundleAction::EmitCode { target, .. }
                ==> es_target_of(options.target@) == Some(target)),
        forall|i: int|
            0 <= i < actions.len() ==> (#[trigger] actions[i] matches BundleAction::WriteStyles { path, .. }
                ==> options.style_output matches Some(p) && p@ == path@),
        forall|i: int|
            0 < i < actions.len() ==> (#[trigger] actions[i] matches BundleAction::LinkModules { entry_path, .. }
                ==> events[i - 1] matches BundleEvent::EntryResolved(Ok(p)) && p == entry_path),
{
    assert forall|i: int| 0 <= i < actions.len() implies (#[trigger] actions[i] matches BundleAction::EmitCode {
        minify,
        ..
    } ==> minify == options.minify) && (actions[i] matches BundleAction::LinkModules { externals, .. }
        ==> string_views(externals@) == string_views(options.externals@)) && (actions[i] matches BundleAction::EmitCode {
        target,
        ..
    } ==> es_target_of(options.target@) == Some(target)) && (actions[i] matches BundleAction::WriteStyles { path, .. }
        ==> options.style_output matches Some(p) && p@ == path@) && (i > 0 ==> (actions[i] matches BundleAction::LinkModules {
        entry_path,
        ..
    } ==> events[i - 1] matches BundleEvent::EntryResolved(Ok(p)) && p == entry_path)) by {
        if i > 0 {
            assert(steps[i - 1] == BundleStep::Perform(actions[i]));
            lemma_runs_keep_settings(runs, events, steps, i - 1);
        }
    }
}

/// In every bundling run, the style sheet written is the styles that the
/// host reported when it linked the modules, joined with line breaks, and
/// code comes out of the run only as the text of code that the host
/// generated.
pub proof fn lemma_outputs_come_from_reports<H>(
    entry: Seq<char>,
    options: JSMeldOptions<H>,
    runs: Seq<BundleRun>,
    actions: Seq<BundleAction>,
    events: Seq<BundleEvent>,
    steps: Seq<BundleStep>,
    r: JSMeldResult<String>,
)
    requires
        bundle_trace(entry, options, runs, actions, events, steps, r),
    ensures
        forall|i: int|
            0 <= i < actions.len() ==> (#[trigger] actions[i] matches BundleAction::WriteStyles { css, .. } ==> (2
                <= i && (events[i - 2] matches BundleEvent::ModulesLinked(Ok(styles)) && css@ == join(
                string_views(styles@),
                "\n"@,
            )))),
        r matches Ok(code) ==> exists|i: int|
            0 <= i < events.len() && (#[trigger] events[i] matches BundleEvent::CodeEmitted(Ok(c)) && valid_utf8(
                c@,
            ) && code@ == decode_utf8(c@)),
{
    assert forall|i: int| 0 <= i < actions.len() implies (#[trigger] actions[i] matches BundleAction::WriteStyles {
        css,
        ..
    } ==> (2 <= i && (events[i - 2] matches BundleEvent::ModulesLinked(Ok(styles)) && css@ == join(
        string_views(styles@),
        "\n"@,
    )))) by {
        if actions[i] is WriteStyles {
            assert(i > 0);
            let j = i - 1;
            assert(steps[j] == BundleStep::Perform(actions[i]));
            assert(resume_step(runs[j], events[j], runs[j + 1], steps[j]));
            assert(runs[j].stage() == BundleStage::EmittingCode);
            if j == 0 {
                assert(false);
            }
            let h = j - 1;
            assert(steps[h] == BundleStep::Perform(actions[j]));
            assert(resume_step(runs[h], events[h], runs[h + 1], steps[h]));
        }
    }
    if r is Ok {
        let k = steps.len() as int;
        assert(steps[k - 1] == BundleStep::Finished(r));
        let j = k - 1;
        assert(resume_step(runs[j], events[j], runs[j + 1], steps[j]));
        if events[j] is StylesWritten {
            assert(j > 0);
            let h = j - 1;
            assert(steps[h] == BundleStep::Perform(actions[j]));
            assert(resume_step(runs[h], events[h], runs[h + 1], steps[h]));
        }
    }
}

/// The runs `runs`, the steps asked of the host `actions`, its reports
/// `events` and the run's answers `steps` record a bundling run for `entry`
/// with `options` that ended with `r`. The run starts as `BundleRun::start`
/// does; each report answers the step asked before it and takes the run on
/// as `BundleRun::resume` does, the next step asked being the one the run
/// gave; the run ends with the last answer's result, or with the error for a
/// report on a step that was not asked for.
pub open spec fn bundle_trace<H>(
    entry: Seq<char>,
    options: JSMeldOptions<H>,
    runs: Seq<BundleRun>,
    actions: Seq<BundleAction>,
    events: Seq<BundleEvent>,
    steps: Seq<BundleStep>,
    r: JSMeldResult<String>,
) -> bool {
    let k = steps.len() as int;
    &&& runs.len() == k + 1
    &&& 1 <= actions.len()
    &&& actions.len() == events.len()
    &&& run_started(entry, options, runs[0], actions[0])
    &&& steps_follow(runs, events, steps)
    &&& actions_follow(actions, steps)
    &&& {
        ||| events.len() == k && steps[k - 1] == BundleStep::Finished(r)
        ||| events.len() == k + 1 && runs[k].stage() != stage_of_event(events[k]) && (r matches Err(
            JSMeldError::BundlingError(m),
        ) && m@ == unexpected_event_message())
    }
}

/// One bundling run: resolves the entry, bundles the module graph, checks the
/// target, generates code, writes the extracted styles when a style output is
/// set, and gives the code as text.
pub struct BundleRun {
    stage: BundleStage,
    minify: bool,
    target: String,
    style_output: Option<String>,
    externals: Vec<String>,
    styles: Vec<String>,
    code: Vec<u8>,
}

impl BundleRun {
    /// Code is generated and styles are written only for a known target.
    #[verifier::type_invariant]
    closed spec fn target_known_when_emitting(self) -> bool {
        (self.stage == BundleStage::EmittingCode || self.stage == BundleStage::WritingStyles)
            ==> es_target_of(self.target@) is Some
    }

    /// The step the run waits for.
    pub closed spec fn stage(&self) -> BundleStage {
        self.stage
    }

    /// The target version name of the run.
    pub closed spec fn target(&self) -> Seq<char> {
        self.target@
    }

    /// Whether the generated code is minified.
    pub closed spec fn minify(&self) -> bool {
        self.minify
    }

    /// Where the extracted styles are written, if anywhere.
    pub closed spec fn style_output(&self) -> Option<Seq<char>> {
        match self.style_output {
            Some(p) => Some(p@),
            None => None,
        }
    }

    /// The modules that are kept out of the bundle.
    pub closed spec fn externals(&self) -> Seq<Seq<char>> {
        string_views(self.externals@)
    }

    /// The styles extracted while the modules were bundled.
    pub closed spec fn styles(&self) -> Seq<Seq<char>> {
        string_views(self.styles@)
    }

    /// The generated code, once there is some.
    pub closed spec fn code(&self) -> Seq<u8> {
        self.code@
    }

    /// Starts a run for `entry` with `options`; its first step resolves the
    /// entry.
    pub fn start<H>(entry: String, options: &JSMeldOptions<H>) -> (r: (BundleRun, BundleAction))
        ensures
            run_started(entry@, *options, r.0, r.1),
            r.1 == (BundleAction::ResolveEntry { entry }),
    {
        let style_output = match &options.style_output {
            Some(p) => Some(p.clone()),
            None => None,
        };
        let externals = options.externals.clone();
        proof {
            assert forall|i: int| 0 <= i < externals@.len() implies externals@[i] == options.externals@[i] by {
                assert(cloned::<String>(options.externals@[i], externals@[i]));
            }
            assert(string_views(externals@) =~= string_views(options.externals@));
        }
        let styles: Vec<String> = Vec::new();
        let code: Vec<u8> = Vec::new();
        assert(string_views(styles@) =~= Seq::<Seq<char>>::empty());
        let run = BundleRun {
            stage: BundleStage::ResolvingEntry,
            minify: options.minify,
            target: options.target.clone(),
            style_output,
            externals,
            styles,
            code,
        };
        (run, BundleAction::ResolveEntry { entry })
    }

    /// Whether the run waits for the step that `event` reports on.
    pub fn awaits(&self, event: &BundleEvent) -> (r: bool)
        ensures
            r == (self.stage() == stage_of_event(*event)),
    {
        match event {
            BundleEvent::EntryResolved(_) => self.stage == BundleStage::ResolvingEntry,
            BundleEvent::ModulesLinked(_) => self.stage == BundleStage::LinkingModules,
            BundleEvent::CodeEmitted(_) => self.stage == BundleStage::EmittingCode,
            BundleEvent::StylesWritten(_) => self.stage == BundleStage::WritingStyles,
        }
    }

    /// Ends the run once the code is generated and any styles are written.
    fn finish(&mut self) -> (step: BundleStep)
        ensures
            final(self).stage() == BundleStage::Done,
            final(self).target() == old(self).target(),
            final(self).minify() == old(self).minify(),
            final(self).style_output() == old(self).style_output(),
            final(self).externals() == old(self).externals(),
            step matches BundleStep::Finished(r) && output_result(old(self).code(), r),
    {
        self.stage = BundleStage::Done;
        let mut code: Vec<u8> = Vec::new();
        std::mem::swap(&mut code, &mut self.code);
        BundleStep::Finished(finish_output(code))
    }

    /// Takes the host's report on the step the run waits for, and gives the
    /// next step or the run's result.
    pub fn resume(&mut self, event: BundleEvent) -> (step: BundleStep)
        requires
            old(self).stage() == stage_of_event(event),
        ensures
            resume_step(*old(self), event, *final(self), step),
    {
        proof { use_type_invariant(&*self); }
        match event {
            BundleEvent::EntryResolved(Ok(entry_path)) => {
                self.stage = BundleStage::LinkingModules;
                let externals = self.externals.clone();
                proof {
                    assert forall|i: int| 0 <= i < externals@.len() implies externals@[i] == self.externals@[i] by {
                        assert(cloned::<String>(self.externals@[i], externals@[i]));
                    }
                    assert(string_views(externals@) =~= string_views(self.externals@));
                }
                BundleStep::Perform(BundleAction::LinkModules { entry_path, externals })
            },
            BundleEvent::EntryResolved(Err(e)) => {
                self.stage = BundleStage::Done;
                BundleStep::Finished(Err(JSMeldError::IOError(e)))
            },
            BundleEvent::ModulesLinked(Err(detail)) => {
                self.stage = BundleStage::Done;
                BundleStep::Finished(Err(JSMeldError::BundlingError(concat_str("Bundling failed: ", detail.as_str()))))
            },
            BundleEvent::ModulesLinked(Ok(styles)) => {
                match parse_es_version(self.target.clone()) {
                    Err(e) => {
                        self.stage = BundleStage::Done;
                        BundleStep::Finished(Err(e))
                    },
                    Ok(target) => {
                        self.stage = BundleStage::EmittingCode;
                        self.styles = styles;
                        BundleStep::Perform(BundleAction::EmitCode { minify: self.minify, target })
                    },
                }
            },
            BundleEvent::CodeEmitted(Err(detail)) => {
                self.stage = BundleStage::Done;
                BundleStep::Finished(
                    Err(JSMeldError::BundlingError(concat_str("Code generation failed: ", detail.as_str()))),
                )
            },
            BundleEvent::CodeEmitted(Ok(code)) => {
                self.code = code;
                match &self.style_output {
                    Some(path) => {
                        let path = path.clone();
                        let css = join_strings(&self.styles, "\n");
                        self.stage = BundleStage::WritingStyles;
                        BundleStep::Perform(BundleAction::WriteStyles { path, css })
                    },
                    None => self.finish(),
                }
            },
            BundleEvent::StylesWritten(Err(e)) => {
                self.stage = BundleStage::Done;
                BundleStep::Finished(Err(JSMeldError::IOError(e)))
            },
            BundleEvent::StylesWritten(Ok(())) => self.finish(),
        }
    }
}

/// `host` accepts every step with every loader. A host performs the steps of
/// a bundling run (resolving paths, bundling the module graph with SWC,
/// generating code, writing files): called with a step and the run's loader,
/// which loads the modules of a `LinkModules` step, it reports how the step
/// went.
pub open spec fn host_callable<H, F: for<'a, 'b> Fn(BundleAction, &'a Loader<'b, H>) -> BundleEvent>(host: F) -> bool {
    forall|a: BundleAction, l: &Loader<H>| #[trigger] call_requires(host, (a, l))
}

/// `compiler` has the target, minification and source-map settings of
/// `options`.
pub open spec fn compiler_for<H>(options: JSMeldOptions<H>, compiler: Compiler) -> bool {
    &&& compiler.target() == options.target@
    &&& compiler.minify() == options.minify
    &&& compiler.source_map() == options.source_map
}

/// `loader` is the loader of a bundling run with `compiler` and `options`: it
/// compiles scripts with `compiler`, runs the options' hooks, and extracts
/// styles exactly when a style output is set.
pub open spec fn loader_of<H>(compiler: Compiler, options: JSMeldOptions<H>, loader: Loader<H>) -> bool {
    &&& *loader.compiler == compiler
    &&& *loader.style_hooks == options.style_hooks
    &&& loader.extract_styles == options.style_output is Some
}

/// Each report in `events` is what `host` answered when it was called with the
/// step in `actions` at the same place and with `loader`.
pub open spec fn host_answered<H, F: for<'a, 'b> Fn(BundleAction, &'a Loader<'b, H>) -> BundleEvent>(
    host: F,
    loader: Loader<H>,
    actions: Seq<BundleAction>,
    events: Seq<BundleEvent>,
) -> bool {
    forall|i: int| 0 <= i < events.len() ==> call_ensures(host, (actions[i], &loader), #[trigger] events[i])
}

/// The options `a` and `b` agree on every field but `externals` and
/// `style_hooks`.
pub open spec fn same_plain_options<H>(a: JSMeldOptions<H>, b: JSMeldOptions<H>) -> bool {
    &&& a.target == b.target
    &&& a.minify == b.minify
    &&& a.source_map == b.source_map
    &&& a.typescript == b.typescript
    &&& a.module == b.module
    &&& a.strict == b.strict
    &&& a.code_split == b.code_split
    &&& a.style_output == b.style_output
}

/// What a bundling run with target `target` may give, whatever the host
/// reports: code only for a known target, and the configuration error for an
/// unknown one exactly when that error is the result.
pub open spec fn bundle_outcome(target: Seq<char>, r: JSMeldResult<String>) -> bool {
    &&& r matches Ok(_) ==> es_target_of(target) is Some
    &&& r matches Err(JSMeldError::ConfigError(m)) ==> es_target_of(target) is None
        && m@ == unknown_version_message(target)
}

/// What bundling `entry` with `options`, `compiler` and `host` may give: the
/// result of a run recorded step by step (`bundle_trace`) in which every step
/// was handed to `host` together with the run's loader, and every report is
/// what `host` answered; and so a result that `bundle_outcome` allows for the
/// options' target.
pub open spec fn bundle_result<H, F: for<'a, 'b> Fn(BundleAction, &'a Loader<'b, H>) -> BundleEvent>(
    entry: Seq<char>,
    options: JSMeldOptions<H>,
    compiler: Compiler,
    host: F,
    r: JSMeldResult<String>,
) -> bool {
    &&& bundle_outcome(options.target@, r)
    &&& exists|
        loader: Loader<H>,
        runs: Seq<BundleRun>,
        actions: Seq<BundleAction>,
        events: Seq<BundleEvent>,
        steps: Seq<BundleStep>,
    |
        #![trigger loader_of(compiler, options, loader), bundle_trace(entry, options, runs, actions, events, steps, r), host_answered(host, loader, actions, events)]
        loader_of(compiler, options, loader) && bundle_trace(entry, options, runs, actions, events, steps, r)
            && host_answered(host, loader, actions, events)
}

/// Module bundler for JavaScript/TypeScript.
pub struct Bundler<H> {
    options: JSMeldOptions<H>,
    compiler: Compiler,
}

impl<H> Bundler<H> {
    /// The bundler's options.
    pub closed spec fn opts(&self) -> JSMeldOptions<H> {
        self.options
    }

    /// The compiler that preprocesses scripts.
    pub closed spec fn spec_compiler(&self) -> Compiler {
        self.compiler
    }

    /// Create a new bundler instance with the given options; its compiler
    /// takes the target, minification and source-map settings from them.
    pub fn new(options: JSMeldOptions<H>) -> (r: Self)
        ensures
            r.opts() == options,
            r.spec_compiler().target() == options.target@,
            r.spec_compiler().minify() == options.minify,
            r.spec_compiler().source_map() == options.source_map,
    {
        let compiler = Compiler::with_settings(options.target.clone(), options.minify, options.source_map);
        Bundler { options, compiler }
    }

    /// Get a reference to the compiler used for preprocessing.
    pub fn compiler(&self) -> (r: &Compiler)
        ensures
            *r == self.spec_compiler(),
    {
        &self.compiler
    }

    /// Add an external dependency (won't be bundled).
    pub fn add_external(&mut self, module_name: String)
        ensures
            same_plain_options(final(self).opts(), old(self).opts()),
            final(self).opts().style_hooks == old(self).opts().style_hooks,
            final(self).opts().externals@ == old(self).opts().externals@.push(module_name),
            final(self).spec_compiler() == old(self).spec_compiler(),
    {
        self.options.externals.push(module_name);
    }

    /// Add a style hook for a file extension. The extension is normalized:
    /// leading dots are dropped and ASCII letters lower-cased.
    pub fn add_style_hook(&mut self, extension: &str, hook: H)
        ensures
            same_plain_options(final(self).opts(), old(self).opts()),
            final(self).opts().externals == old(self).opts().externals,
            ({
                let k = normalized_extension(extension@);
                let old_hooks = old(self).opts().style_hooks@;
                final(self).opts().style_hooks@ == old_hooks.insert(
                    k,
                    if old_hooks.contains_key(k) { old_hooks[k].push(hook) } else { seq![hook] },
                )
            }),
            final(self).spec_compiler() == old(self).spec_compiler(),
    {
        let key = normalize_extension(extension);
        self.options.style_hooks.add(key, hook);
    }

    /// Get the current bundler options.
    pub fn options(&self) -> (r: &JSMeldOptions<H>)
        ensures
            *r == self.opts(),
    {
        &self.options
    }

    /// Get the current bundler options (mutable).
    pub fn options_mut(&mut self) -> (r: &mut JSMeldOptions<H>)
        ensures
            *r == old(self).opts(),
            final(self).opts() == *final(r),
            final(self).spec_compiler() == old(self).spec_compiler(),
    {
        &mut self.options
    }

    /// The loader for a bundling run: it uses the bundler's compiler and
    /// style hooks, and extracts styles exactly when a style output is set.
    pub fn loader(&self) -> (r: Loader<'_, H>)
        ensures
            *r.compiler == self.spec_compiler(),
            *r.style_hooks == self.opts().style_hooks,
            r.extract_styles == self.opts().style_output is Some,
    {
        Loader {
            compiler: &self.compiler,
            style_hooks: &self.options.style_hooks,
            extract_styles: self.options.style_output.is_some(),
        }
    }

    /// Bundle the module graph whose entry file is `entry_point`, with `host`
    /// performing each step that the run asks for, and return the bundled
    /// code.
    pub fn bundle<F: for<'a, 'b> Fn(BundleAction, &'a Loader<'b, H>) -> BundleEvent>(
        &self,
        entry_point: String,
        host: &F,
    ) -> (r: JSMeldResult<String>)
        requires
            host_callable(*host),
        ensures
            bundle_result(entry_point@, self.opts(), self.spec_compiler(), *host, r),
    {
        let ghost entry = entry_point@;
        let (mut run, first) = BundleRun::start(entry_point, &self.options);
        let loader = self.loader();
        let mut action = first;
        let ghost mut runs: Seq<BundleRun> = seq![run];
        let ghost mut actions: Seq<BundleAction> = seq![action];
        let ghost mut events: Seq<BundleEvent> = Seq::empty();
        let ghost mut steps: Seq<BundleStep> = Seq::empty();
        loop
            invariant
                entry == entry_point@,
                run.target() == self.opts().target@,
                run.stage() != BundleStage::Done,
                runs.len() == steps.len() + 1,
                actions.len() == steps.len() + 1,
                events.len() == steps.len(),
                runs.last() == run,
                actions.last() == action,
                run_started(entry, self.opts(), runs[0], actions[0]),
                steps_follow(runs, events, steps),
                actions_follow(actions, steps),
                host_callable(*host),
                loader_of(self.spec_compiler(), self.opts(), loader),
                host_answered(*host, loader, actions.take(events.len() as int), events),
            decreases stage_rank(run.stage()),
        {
            let ghost asked = action;
            let event = host(action, &loader);
            let ghost reported = event;
            proof {
                assert(actions.take(events.len() as int + 1) =~= actions.take(events.len() as int).push(asked));
                assert(host_answered(*host, loader, actions.take(events.len() as int + 1), events.push(reported)));
            }
            if !run.awaits(&event) {
                let r = Err(JSMeldError::BundlingError(String::from_str(
                    "Bundling failed: the host reported on a step that was not asked for",
                )));
                proof {
                    reveal_strlit("Bundling failed: the host reported on a step that was not asked for");
                    events = events.push(reported);
                    assert(actions.take(events.len() as int) =~= actions);
                    assert(bundle_trace(entry, self.opts(), runs, actions, events, steps, r));
                    assert(host_answered(*host, loader, actions, events));
                }
                return r;
            }
            let step = run.resume(event);
            proof {
                lemma_steps_follow_push(runs, events, steps, run, reported, step);
                runs = runs.push(run);
                events = events.push(reported);
                steps = steps.push(step);
                assert(steps[steps.len() - 1] == step);
            }
            match step {
                BundleStep::Perform(next) => {
                    action = next;
                    proof {
                        actions = actions.push(action);
                    }
                },
                BundleStep::Finished(r) => {
                    proof {
                        assert(actions.take(events.len() as int) =~= actions);
                        assert(bundle_trace(entry, self.opts(), runs, actions, events, steps, r));
                        assert(host_answered(*host, loader, actions, events));
                    }
                    return r;
                },
            }
        }
    }
}

impl<H> Default for Bundler<H> {
    fn default() -> (r: Self)
        ensures
            is_default_options(r.opts()),
    {
        Bundler::new(JSMeldOptions::default())
    }
}

/// Bundle a JavaScript/TypeScript entry point and return the output as a
/// string. `host` performs the steps that touch the file system and SWC's
/// bundler. This is `Bundler::new(options).bundle(entry, host)`, and its
/// contract is that of `Bundler::bundle` for a bundler with these options.
pub fn bundle<H, F: for<'a, 'b> Fn(BundleAction, &'a Loader<'b, H>) -> BundleEvent>(
    entry: String,
    options: JSMeldOptions<H>,
    host: &F,
) -> (r: JSMeldResult<String>)
    requires
        host_callable(*host),
    ensures
        exists|c: Compiler| compiler_for(options, c) && #[trigger] bundle_result(entry@, options, c, *host, r),
{
    let bundler = Bundler::new(options);
    bundler.bundle(entry, host)
}

} // verus!
