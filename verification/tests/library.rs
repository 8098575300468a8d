use jsmeld::bundler::{BundleAction, BundleEvent, BundleRun, BundleStage, BundleStep, LoadedModule, Loader};
use jsmeld::cli::{cli_options, run_mode, style_output_path, RunMode};
use jsmeld::config::{normalize_extension, option_key, OptionKey, OptionValue, StyleHooks};
use jsmeld::style::{
    apply_style_hooks_for_extension, apply_style_hooks_with_extension, build_style_module_source, extension_from_path, is_style_extension,
    is_style_file, run_style_hooks,
};
use jsmeld::util::{parse_es_version, EsTarget};
use jsmeld::{bundle, Bundler, Compiler, JSMeldError, JSMeldOptions};
use std::cell::RefCell;

type Hook = fn(&str, &str) -> Result<String, String>;

fn upper_hook(_path: &str, source: &str) -> Result<String, String> {
    Ok(source.to_uppercase())
}

fn tag_hook(path: &str, source: &str) -> Result<String, String> {
    Ok(format!("{}|{}", source, path))
}

fn failing_hook(_path: &str, _source: &str) -> Result<String, String> {
    Err("hook failed".to_string())
}

fn io_error() -> std::io::Error {
    std::io::Error::new(std::io::ErrorKind::NotFound, "missing")
}

#[test]
fn default_options_match_documentation() {
    let o: JSMeldOptions<Hook> = JSMeldOptions::default();
    assert_eq!(o.target, "es6");
    assert!(!o.minify);
    assert!(o.source_map);
    assert!(o.typescript);
    assert_eq!(o.module, "esm");
    assert!(o.strict);
    assert!(!o.code_split);
    assert!(o.externals.is_empty());
    assert!(o.style_hooks.get("css").is_none());
    assert!(o.style_output.is_none());
}

#[test]
fn es_versions_parse_case_insensitively() {
    assert_eq!(parse_es_version("es3".to_string()).unwrap(), EsTarget::Es3);
    assert_eq!(parse_es_version("ES5".to_string()).unwrap(), EsTarget::Es5);
    assert_eq!(parse_es_version("es6".to_string()).unwrap(), EsTarget::Es2015);
    assert_eq!(parse_es_version("Es2015".to_string()).unwrap(), EsTarget::Es2015);
    assert_eq!(parse_es_version("es2020".to_string()).unwrap(), EsTarget::Es2020);
    assert_eq!(parse_es_version("ES2024".to_string()).unwrap(), EsTarget::Es2024);
    assert_eq!(parse_es_version("ESNext".to_string()).unwrap(), EsTarget::EsNext);
}

#[test]
fn unknown_es_version_is_a_config_error() {
    match parse_es_version("es2030".to_string()) {
        Err(JSMeldError::ConfigError(m)) => assert_eq!(m, "Unknown ES version: es2030"),
        other => panic!("unexpected {:?}", other),
    }
}

#[test]
fn error_messages_name_their_kind() {
    assert_eq!(JSMeldError::CompilationError("x".into()).message(), "Compilation error: x");
    assert_eq!(JSMeldError::BundlingError("y".into()).message(), "Bundling error: y");
    assert_eq!(JSMeldError::ConfigError("z".into()).message(), "Invalid configuration: z");
    assert!(JSMeldError::IOError(io_error()).message().starts_with("IO error: "));
}

#[test]
fn diagnostics_are_joined() {
    let e = JSMeldError::from_diagnostics(&vec!["a".to_string(), "b".to_string()]);
    match e {
        JSMeldError::CompilationError(m) => assert_eq!(m, "SWC error: a; b"),
        other => panic!("unexpected {:?}", other),
    }
    match JSMeldError::from_diagnostics(&vec![]) {
        JSMeldError::CompilationError(m) => assert_eq!(m, "SWC error: "),
        other => panic!("unexpected {:?}", other),
    }
}

#[test]
fn option_names_select_options() {
    assert_eq!(option_key("target").unwrap(), OptionKey::Target);
    assert_eq!(option_key("style_hooks").unwrap(), OptionKey::StyleHooks);
    assert_eq!(option_key("style_output").unwrap(), OptionKey::StyleOutput);
    match option_key("color") {
        Err(JSMeldError::ConfigError(m)) => assert_eq!(m, "Unknown option: 'color'"),
        other => panic!("unexpected {:?}", other),
    }
}

#[test]
fn set_option_changes_one_field() {
    let mut o: JSMeldOptions<Hook> = JSMeldOptions::default();
    o.set_option(OptionValue::Target("es2020".to_string()));
    o.set_option(OptionValue::Minify(true));
    o.set_option(OptionValue::Externals(vec!["react".to_string()]));
    o.set_option(OptionValue::StyleOutput(Some("out.css".to_string())));
    assert_eq!(o.target, "es2020");
    assert!(o.minify);
    assert_eq!(o.externals, vec!["react".to_string()]);
    assert_eq!(o.style_output.as_deref(), Some("out.css"));
    assert_eq!(o.module, "esm");
    assert!(o.source_map);
}

#[test]
fn extensions_are_normalized() {
    assert_eq!(normalize_extension(".CSS"), "css");
    assert_eq!(normalize_extension("..Less"), "less");
    assert_eq!(normalize_extension("scss"), "scss");
    assert_eq!(normalize_extension(""), "");
}

#[test]
fn style_hooks_append_and_replace() {
    let mut hooks: StyleHooks<Hook> = StyleHooks::new();
    hooks.add("css".to_string(), upper_hook as Hook);
    hooks.add("css".to_string(), tag_hook as Hook);
    hooks.add("less".to_string(), failing_hook as Hook);
    assert_eq!(hooks.get("css").unwrap().len(), 2);
    assert_eq!(hooks.get("less").unwrap().len(), 1);
    hooks.insert("css".to_string(), vec![]);
    assert_eq!(hooks.get("css").unwrap().len(), 0);
    assert!(hooks.get("CSS").is_none());
    hooks.add_normalized(".SASS", upper_hook as Hook);
    assert_eq!(hooks.get("sass").unwrap().len(), 1);
    hooks.insert_normalized(".Sass", vec![tag_hook as Hook, tag_hook as Hook]);
    assert_eq!(hooks.get("sass").unwrap().len(), 2);
}

#[test]
fn hooks_run_in_order_and_stop_at_errors() {
    let hooks: Vec<Hook> = vec![upper_hook, tag_hook];
    assert_eq!(run_style_hooks(&hooks, "a.css", "x").unwrap(), "X|a.css");
    let hooks: Vec<Hook> = vec![tag_hook, upper_hook];
    assert_eq!(run_style_hooks(&hooks, "a.css", "x").unwrap(), "X|A.CSS");
    let hooks: Vec<Hook> = vec![upper_hook, failing_hook, tag_hook];
    assert_eq!(run_style_hooks(&hooks, "a.css", "x").unwrap_err(), "hook failed");
    let hooks: Vec<Hook> = vec![];
    assert_eq!(run_style_hooks(&hooks, "a.css", "x").unwrap(), "x");
}

#[test]
fn hooks_run_only_for_their_extension() {
    let mut hooks: StyleHooks<Hook> = StyleHooks::new();
    hooks.add("css".to_string(), upper_hook as Hook);
    assert_eq!(apply_style_hooks_with_extension(&hooks, Some("css"), "a.css", "x").unwrap(), "X");
    assert_eq!(apply_style_hooks_with_extension(&hooks, Some("less"), "a.less", "x").unwrap(), "x");
    assert_eq!(apply_style_hooks_with_extension(&hooks, None, "a", "x").unwrap(), "x");
}

#[test]
fn style_files_are_recognised_by_extension() {
    assert!(is_style_file("styles/main.css"));
    assert!(is_style_file("styles/THEME.LESS"));
    assert!(is_style_file("a.sass"));
    assert!(is_style_file("a.scss"));
    assert!(is_style_file("a.styl"));
    assert!(!is_style_file("src/index.js"));
    assert!(!is_style_file("README"));
    assert!(!is_style_file("styles.css/index.ts"));
    assert!(is_style_extension("CsS"));
    assert!(!is_style_extension("js"));
    assert_eq!(extension_from_path("dir/Main.CSS").as_deref(), Some("css"));
    assert_eq!(extension_from_path("dir/archive.tar.GZ").as_deref(), Some("gz"));
    assert_eq!(extension_from_path("dir/.hidden"), None);
    assert_eq!(extension_from_path("noext"), None);
}

#[test]
fn style_modules_hold_the_json_literal() {
    let m = build_style_module_source("a\"b\\c\td\u{1}", false).unwrap();
    assert_eq!(m, "const __jsmeldStyle = \"a\\\"b\\\\c\\td\\u0001\";\nexport default __jsmeldStyle;\n");
    let m = build_style_module_source("", true).unwrap();
    assert_eq!(
        m,
        "const __jsmeldStyle = \"\";\nif (typeof document !== \"undefined\") {\n  const __jsmeldStyleTag = document.createElement(\"style\");\n  __jsmeldStyleTag.textContent = __jsmeldStyle;\n  document.head.appendChild(__jsmeldStyleTag);\n}\nexport default __jsmeldStyle;\n"
    );
    let m = build_style_module_source("é\u{1f}\r\u{8}\u{c}", false).unwrap();
    assert!(m.contains("\"é\\u001f\\r\\b\\f\""));
}

#[test]
fn loader_turns_style_files_into_modules() {
    let compiler = Compiler::new(JSMeldOptions::<Hook>::default());
    let mut hooks: StyleHooks<Hook> = StyleHooks::new();
    hooks.add("css".to_string(), upper_hook as Hook);
    let injecting = Loader { compiler: &compiler, style_hooks: &hooks, extract_styles: false };
    let LoadedModule { source, extracted_style } = injecting.load_module("a/b.css", "x").unwrap();
    assert_eq!(source, build_style_module_source("X", true).unwrap());
    assert!(extracted_style.is_none());

    let extracting = Loader { compiler: &compiler, style_hooks: &hooks, extract_styles: true };
    let loaded = extracting.load_module("a/b.css", "x").unwrap();
    assert_eq!(loaded.source, build_style_module_source("X", false).unwrap());
    assert_eq!(loaded.extracted_style.as_deref(), Some("X"));

    let loaded = extracting.load_module("a/b.less", "y").unwrap();
    assert_eq!(loaded.extracted_style.as_deref(), Some("y"));
}

#[test]
fn loader_reports_hook_errors() {
    let compiler = Compiler::new(JSMeldOptions::<Hook>::default());
    let mut hooks: StyleHooks<Hook> = StyleHooks::new();
    hooks.add("css".to_string(), failing_hook as Hook);
    let loader = Loader { compiler: &compiler, style_hooks: &hooks, extract_styles: false };
    assert_eq!(loader.load_module("b.css", "x").err().unwrap(), "hook failed");
}

#[test]
fn loader_compiles_scripts() {
    let compiler = Compiler::new(JSMeldOptions::<Hook>::default());
    let hooks: StyleHooks<Hook> = StyleHooks::new();
    let loader = Loader { compiler: &compiler, style_hooks: &hooks, extract_styles: true };
    let loaded = loader.load_module("main.ts", "const x: number = 1;").unwrap();
    assert!(loaded.extracted_style.is_none());
    assert!(!loaded.source.contains("number"));
}

#[test]
fn compiler_rejects_unknown_target() {
    let mut options: JSMeldOptions<Hook> = JSMeldOptions::default();
    options.target = "es1999".to_string();
    let compiler = Compiler::new(options);
    match compiler.compile("const x = 1;", "a.js") {
        Err(JSMeldError::ConfigError(m)) => assert_eq!(m, "Unknown ES version: es1999"),
        other => panic!("unexpected {:?}", other),
    }
    let hooks: StyleHooks<Hook> = StyleHooks::new();
    let loader = Loader { compiler: &compiler, style_hooks: &hooks, extract_styles: false };
    assert_eq!(
        loader.load_module("a.js", "const x = 1;").err().unwrap(),
        "Invalid configuration: Unknown ES version: es1999"
    );
}

#[test]
fn compiler_reports_syntax_errors() {
    let compiler = Compiler::new(JSMeldOptions::<Hook>::default());
    match compiler.compile("const = ;", "bad.js") {
        Err(JSMeldError::CompilationError(m)) => assert!(m.starts_with("SWC error: ")),
        other => panic!("unexpected {:?}", other),
    }
    let transformed = compiler.transform("let y = 2;", "t.js", vec!["noop".to_string()]);
    assert!(transformed.is_ok());
}

#[test]
fn bundler_options_are_managed() {
    let mut bundler: Bundler<Hook> = Bundler::new(JSMeldOptions::default());
    bundler.add_external("react".to_string());
    bundler.add_external("lodash".to_string());
    assert_eq!(bundler.options().externals, vec!["react".to_string(), "lodash".to_string()]);
    bundler.add_style_hook(".CSS", upper_hook as Hook);
    bundler.add_style_hook("css", tag_hook as Hook);
    assert_eq!(bundler.options().style_hooks.get("css").unwrap().len(), 2);
    bundler.options_mut().minify = true;
    assert!(bundler.options().minify);
    assert!(!bundler.loader().extract_styles);
    bundler.options_mut().style_output = Some("out.css".to_string());
    assert!(bundler.loader().extract_styles);
    let default: Bundler<Hook> = Bundler::default();
    assert_eq!(default.options().target, "es6");
    let _ = bundler.compiler();
}

fn started(options: &JSMeldOptions<Hook>) -> BundleRun {
    let (run, action) = BundleRun::start("src/index.js".to_string(), options);
    match action {
        BundleAction::ResolveEntry { entry } => assert_eq!(entry, "src/index.js"),
        _ => panic!("expected entry resolution"),
    }
    run
}

#[test]
fn bundle_run_without_style_output() {
    let mut options: JSMeldOptions<Hook> = JSMeldOptions::default();
    options.externals = vec!["react".to_string()];
    options.minify = true;
    let mut run = started(&options);
    match run.resume(BundleEvent::EntryResolved(Ok("/abs/src/index.js".to_string()))) {
        BundleStep::Perform(BundleAction::LinkModules { entry_path, externals }) => {
            assert_eq!(entry_path, "/abs/src/index.js");
            assert_eq!(externals, vec!["react".to_string()]);
        },
        _ => panic!("expected linking"),
    }
    match run.resume(BundleEvent::ModulesLinked(Ok(vec![]))) {
        BundleStep::Perform(BundleAction::EmitCode { minify, target }) => {
            assert!(minify);
            assert_eq!(target, EsTarget::Es2015);
        },
        _ => panic!("expected emit"),
    }
    match run.resume(BundleEvent::CodeEmitted(Ok(b"var a = 1;\n".to_vec()))) {
        BundleStep::Finished(Ok(code)) => assert_eq!(code, "var a = 1;\n"),
        _ => panic!("expected the code"),
    }
}

#[test]
fn bundle_run_writes_joined_styles() {
    let mut options: JSMeldOptions<Hook> = JSMeldOptions::default();
    options.style_output = Some("dist/app.css".to_string());
    let mut run = started(&options);
    assert!(!run.awaits(&BundleEvent::CodeEmitted(Ok(vec![]))));
    let _ = run.resume(BundleEvent::EntryResolved(Ok("/e.js".to_string())));
    let _ = run.resume(BundleEvent::ModulesLinked(Ok(vec!["a{}".to_string(), "b{}".to_string()])));
    match run.resume(BundleEvent::CodeEmitted(Ok(b"x".to_vec()))) {
        BundleStep::Perform(BundleAction::WriteStyles { path, css }) => {
            assert_eq!(path, "dist/app.css");
            assert_eq!(css, "a{}\nb{}");
        },
        _ => panic!("expected style writing"),
    }
    assert!(run.awaits(&BundleEvent::StylesWritten(Ok(()))));
    match run.resume(BundleEvent::StylesWritten(Ok(()))) {
        BundleStep::Finished(Ok(code)) => assert_eq!(code, "x"),
        _ => panic!("expected the code"),
    }
}

#[test]
fn bundle_run_errors() {
    let options: JSMeldOptions<Hook> = JSMeldOptions::default();
    let mut run = started(&options);
    match run.resume(BundleEvent::EntryResolved(Err(io_error()))) {
        BundleStep::Finished(Err(JSMeldError::IOError(_))) => {},
        _ => panic!("expected an IO error"),
    }

    let mut run = started(&options);
    let _ = run.resume(BundleEvent::EntryResolved(Ok("/e.js".to_string())));
    match run.resume(BundleEvent::ModulesLinked(Err("cycle".to_string()))) {
        BundleStep::Finished(Err(JSMeldError::BundlingError(m))) => assert_eq!(m, "Bundling failed: cycle"),
        _ => panic!("expected a bundling error"),
    }

    let mut run = started(&options);
    let _ = run.resume(BundleEvent::EntryResolved(Ok("/e.js".to_string())));
    let _ = run.resume(BundleEvent::ModulesLinked(Ok(vec![])));
    match run.resume(BundleEvent::CodeEmitted(Err("bad".to_string()))) {
        BundleStep::Finished(Err(JSMeldError::BundlingError(m))) => assert_eq!(m, "Code generation failed: bad"),
        _ => panic!("expected a code generation error"),
    }

    let mut run = started(&options);
    let _ = run.resume(BundleEvent::EntryResolved(Ok("/e.js".to_string())));
    let _ = run.resume(BundleEvent::ModulesLinked(Ok(vec![])));
    match run.resume(BundleEvent::CodeEmitted(Ok(vec![0xff, 0xfe]))) {
        BundleStep::Finished(Err(JSMeldError::BundlingError(m))) => {
            assert!(m.starts_with("Invalid UTF-8 in output: "))
        },
        _ => panic!("expected a UTF-8 error"),
    }

    let mut bad_target: JSMeldOptions<Hook> = JSMeldOptions::default();
    bad_target.target = "es4".to_string();
    let mut run = started(&bad_target);
    let _ = run.resume(BundleEvent::EntryResolved(Ok("/e.js".to_string())));
    match run.resume(BundleEvent::ModulesLinked(Ok(vec![]))) {
        BundleStep::Finished(Err(JSMeldError::ConfigError(m))) => assert_eq!(m, "Unknown ES version: es4"),
        _ => panic!("expected a configuration error"),
    }
    assert!(!run.awaits(&BundleEvent::CodeEmitted(Ok(vec![]))));
    let _ = BundleStage::Done;
}

/// A host that answers every step from fixed results and records the steps.
struct FakeHost {
    steps: Vec<String>,
    styles: Vec<String>,
}

impl FakeHost {
    fn new() -> RefCell<FakeHost> {
        RefCell::new(FakeHost { steps: vec![], styles: vec![] })
    }

    fn perform(&mut self, action: BundleAction, loader: &Loader<Hook>) -> BundleEvent {
        match action {
            BundleAction::ResolveEntry { entry } => {
                self.steps.push(format!("resolve {}", entry));
                BundleEvent::EntryResolved(Ok(format!("/root/{}", entry)))
            },
            BundleAction::LinkModules { entry_path, externals } => {
                self.steps.push(format!("link {} {:?}", entry_path, externals));
                let loaded = loader.load_module("/root/a.css", "red").unwrap();
                if let Some(s) = loaded.extracted_style {
                    self.styles.push(s);
                }
                BundleEvent::ModulesLinked(Ok(self.styles.clone()))
            },
            BundleAction::EmitCode { minify, target } => {
                self.steps.push(format!("emit {} {:?}", minify, target));
                BundleEvent::CodeEmitted(Ok(b"bundled".to_vec()))
            },
            BundleAction::WriteStyles { path, css } => {
                self.steps.push(format!("write {} {}", path, css));
                BundleEvent::StylesWritten(Ok(()))
            },
        }
    }
}

/// The host function that hands each step to `host`.
fn host_fn(host: &RefCell<FakeHost>) -> impl Fn(BundleAction, &Loader<Hook>) -> BundleEvent + '_ {
    move |action, loader| host.borrow_mut().perform(action, loader)
}

#[test]
fn bundle_drives_the_host() {
    let mut options: JSMeldOptions<Hook> = JSMeldOptions::default();
    options.style_output = Some("out/app.css".to_string());
    options.target = "es2020".to_string();
    options.style_hooks.add("css".to_string(), upper_hook as Hook);
    let host = FakeHost::new();
    let code = bundle("index.js".to_string(), options, &host_fn(&host)).unwrap();
    assert_eq!(code, "bundled");
    assert_eq!(
        host.borrow().steps,
        vec![
            "resolve index.js".to_string(),
            "link /root/index.js []".to_string(),
            "emit false Es2020".to_string(),
            "write out/app.css RED".to_string(),
        ]
    );
}

#[test]
fn bundle_stops_at_unknown_target() {
    let mut options: JSMeldOptions<Hook> = JSMeldOptions::default();
    options.target = "es99".to_string();
    let host = FakeHost::new();
    match bundle("index.js".to_string(), options, &host_fn(&host)) {
        Err(JSMeldError::ConfigError(m)) => assert_eq!(m, "Unknown ES version: es99"),
        other => panic!("unexpected {:?}", other),
    }
    assert_eq!(host.borrow().steps.len(), 2);
}

/// A host that reports on the wrong step.
struct ConfusedHost;

impl ConfusedHost {
    fn perform(&self, _action: BundleAction, _loader: &Loader<Hook>) -> BundleEvent {
        BundleEvent::StylesWritten(Ok(()))
    }
}

#[test]
fn bundle_rejects_a_confused_host() {
    let options: JSMeldOptions<Hook> = JSMeldOptions::default();
    match bundle("index.js".to_string(), options, &|a, l| ConfusedHost.perform(a, l)) {
        Err(JSMeldError::BundlingError(m)) => assert!(m.starts_with("Bundling failed: ")),
        other => panic!("unexpected {:?}", other),
    }
}

#[test]
fn cli_decisions() {
    assert_eq!(run_mode(false, false), RunMode::Bundle);
    assert_eq!(run_mode(true, false), RunMode::Bundle);
    assert_eq!(run_mode(false, true), RunMode::Compile);
    assert_eq!(style_output_path(false, None, "o.css".to_string()), None);
    assert_eq!(style_output_path(true, None, "o.css".to_string()), Some("o.css".to_string()));
    assert_eq!(style_output_path(false, Some("s.css".to_string()), "o.css".to_string()), Some("s.css".to_string()));
    assert_eq!(style_output_path(true, Some("s.css".to_string()), "o.css".to_string()), Some("s.css".to_string()));
    let o: JSMeldOptions<Hook> = cli_options("es2020".to_string(), true, None);
    assert_eq!(o.target, "es2020");
    assert!(o.minify);
    assert!(o.source_map);
}


#[test]
fn only_the_file_name_gives_the_extension() {
    let mut hooks: StyleHooks<Hook> = StyleHooks::new();
    hooks.add("css".to_string(), upper_hook as Hook);
    assert_eq!(apply_style_hooks_for_extension(&hooks, "styles/main.css", "x").unwrap(), "X");
    assert_eq!(apply_style_hooks_for_extension(&hooks, "x.css/y.js", "x").unwrap(), "x");
    assert_eq!(apply_style_hooks_for_extension(&hooks, "x.css/README", "x").unwrap(), "x");
    assert_eq!(extension_from_path("x.css/README"), None);
    assert!(!is_style_file("x.css/y.js"));

    let compiler = Compiler::new(JSMeldOptions::<Hook>::default());
    let loader = Loader { compiler: &compiler, style_hooks: &hooks, extract_styles: false };
    let loaded = loader.load_module("x.css/y.js", "const a = 1;").unwrap();
    assert!(!loaded.source.contains("__jsmeldStyle"));
    assert!(loaded.extracted_style.is_none());
}

#[test]
fn style_file_without_hooks_becomes_an_injecting_module() {
    let compiler = Compiler::new(JSMeldOptions::<Hook>::default());
    let hooks: StyleHooks<Hook> = StyleHooks::new();
    let loader = Loader { compiler: &compiler, style_hooks: &hooks, extract_styles: false };
    let loaded = loader.load_module("/s/main.css", "a{}").unwrap();
    assert_eq!(
        loaded.source,
        "const __jsmeldStyle = \"a{}\";\nif (typeof document !== \"undefined\") {\n  const __jsmeldStyleTag = document.createElement(\"style\");\n  __jsmeldStyleTag.textContent = __jsmeldStyle;\n  document.head.appendChild(__jsmeldStyleTag);\n}\nexport default __jsmeldStyle;\n"
    );
    assert!(loaded.extracted_style.is_none());
}

#[test]
fn compiler_lowers_to_its_target() {
    let mut options: JSMeldOptions<Hook> = JSMeldOptions::default();
    options.target = "es5".to_string();
    let compiler = Compiler::new(options);
    let code = compiler.compile("const x = 1;", "a.js").unwrap();
    assert!(code.contains("var x"));
    assert!(!code.contains("const"));

    let mut options: JSMeldOptions<Hook> = JSMeldOptions::default();
    options.target = "es2020".to_string();
    let compiler = Compiler::new(options);
    let code = compiler.compile("const x = 1;", "a.js").unwrap();
    assert!(code.contains("const x"));
}

#[test]
fn version_names_ignore_ascii_case() {
    let names = ["es3", "es5", "es6", "es2015", "es2016", "es2017", "es2018", "es2019", "es2020", "es2021", "es2022", "es2023", "es2024", "esnext", "es7", "bogus"];
    for name in names {
        let lower = parse_es_version(name.to_string()).ok();
        let upper = parse_es_version(name.to_ascii_uppercase()).ok();
        assert_eq!(lower, upper, "{}", name);
    }
}

#[test]
fn options_describe_themselves() {
    let mut o: JSMeldOptions<Hook> = JSMeldOptions::default();
    assert_eq!(
        o.debug_text(),
        "JSMeldOptions { target: \"es6\", minify: false, source_map: true, typescript: true, module: \"esm\", strict: true, code_split: false, externals: [], style_hooks: \"<0 extension(s)>\", style_output: None }"
    );
    o.externals = vec!["react".to_string(), "a\"b".to_string()];
    o.style_hooks.add("css".to_string(), upper_hook as Hook);
    o.style_hooks.add("less".to_string(), upper_hook as Hook);
    o.style_output = Some("out.css".to_string());
    assert_eq!(
        o.debug_text(),
        "JSMeldOptions { target: \"es6\", minify: false, source_map: true, typescript: true, module: \"esm\", strict: true, code_split: false, externals: [\"react\", \"a\\\"b\"], style_hooks: \"<2 extension(s)>\", style_output: Some(\"out.css\") }"
    );
}

#[test]
fn options_clone_field_by_field() {
    let mut o: JSMeldOptions<Hook> = JSMeldOptions::default();
    o.target = "es2020".to_string();
    o.minify = true;
    o.externals = vec!["react".to_string()];
    o.style_hooks.add("css".to_string(), upper_hook as Hook);
    o.style_hooks.add("css".to_string(), tag_hook as Hook);
    o.style_output = Some("a.css".to_string());
    let c = o.clone();
    assert_eq!(c.target, "es2020");
    assert!(c.minify);
    assert_eq!(c.externals, vec!["react".to_string()]);
    assert_eq!(c.style_output.as_deref(), Some("a.css"));
    assert_eq!(c.style_hooks.len(), 1);
    let hooks = c.style_hooks.get("css").unwrap();
    assert_eq!(run_style_hooks(hooks, "p.css", "x").unwrap(), "X|p.css");
    assert_eq!(c.debug_text(), o.debug_text());
}

fn styled_options() -> JSMeldOptions<Hook> {
    let mut options: JSMeldOptions<Hook> = JSMeldOptions::default();
    options.style_output = Some("out/app.css".to_string());
    options.externals = vec!["react".to_string()];
    options.style_hooks.add("css".to_string(), upper_hook as Hook);
    options
}

#[test]
fn bundle_and_bundler_agree() {
    let first = FakeHost::new();
    let a = bundle("main.js".to_string(), styled_options(), &host_fn(&first)).unwrap();
    let second = FakeHost::new();
    let b = Bundler::new(styled_options()).bundle("main.js".to_string(), &host_fn(&second)).unwrap();
    assert_eq!(a, b);
    assert_eq!(first.borrow().steps, second.borrow().steps);
    assert_eq!(first.borrow().steps[1], "link /root/main.js [\"react\"]");
    assert_eq!(first.borrow().steps[3], "write out/app.css RED");
}

#[test]
fn dot_files_have_no_extension() {
    assert!(!is_style_file(".css"));
    assert!(!is_style_file("x/.css"));
    assert!(is_style_file("styles/Theme.LESS"));
    assert!(is_style_file("a.SCSS"));
    assert!(!is_style_file("app.css.js"));
    assert!(!is_style_file("css"));
    assert_eq!(extension_from_path("x/.hidden"), None);
    let mut hooks: StyleHooks<Hook> = StyleHooks::new();
    hooks.add("hidden".to_string(), upper_hook as Hook);
    hooks.add("css".to_string(), upper_hook as Hook);
    assert_eq!(apply_style_hooks_for_extension(&hooks, "x/.hidden", "s").unwrap(), "s");
    assert_eq!(apply_style_hooks_for_extension(&hooks, "C:main.css", "s").unwrap(), "S");
    assert_eq!(apply_style_hooks_for_extension(&hooks, "dir\\main.css", "s").unwrap(), "S");

    let compiler = Compiler::new(JSMeldOptions::<Hook>::default());
    let loader = Loader { compiler: &compiler, style_hooks: &hooks, extract_styles: true };
    let loaded = loader.load_module("x/.css", "const a = 1;").unwrap();
    assert!(loaded.extracted_style.is_none());
    assert!(!loaded.source.contains("__jsmeldStyle"));
    let loaded = loader.load_module("dir\\a.css", "b{}").unwrap();
    assert_eq!(loaded.extracted_style.as_deref(), Some("B{}"));
}

#[test]
fn style_literals_read_back_as_json() {
    for source in ["", "a{color:red}", "q\"b\\s\n\t\u{1}\u{1f}é😀"] {
        let m = build_style_module_source(source, false).unwrap();
        let literal = m
            .strip_prefix("const __jsmeldStyle = ")
            .unwrap()
            .strip_suffix(";\nexport default __jsmeldStyle;\n")
            .unwrap();
        let back: String = serde_json::from_str(literal).unwrap();
        assert_eq!(back, source);
    }
}
