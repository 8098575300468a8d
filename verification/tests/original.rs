use jsmeld::config::StyleHooks;
use jsmeld::style::{apply_style_hooks_for_extension, build_style_module_source};
use jsmeld::{Bundler, Compiler, JSMeldOptions};

type Hook = fn(&str, &str) -> Result<String, String>;

fn test_pre_hook(_path: &str, source: &str) -> Result<String, String> {
    Ok(source.replace("red", "blue"))
}

fn test_post_hook(_path: &str, source: &str) -> Result<String, String> {
    Ok(format!("{}\n/* post */", source))
}

#[test]
fn test_bundler_creation() {
    let _bundler: Bundler<Hook> = Bundler::new(JSMeldOptions::default());
}

#[test]
fn test_bundler_with_options() {
    let options: JSMeldOptions<Hook> = JSMeldOptions {
        target: "es2020".to_string(),
        minify: false,
        source_map: true,
        code_split: false,
        externals: vec![],
        style_hooks: StyleHooks::new(),
        style_output: None,
        ..Default::default()
    };
    let bundler = Bundler::new(options);
    assert_eq!(bundler.options().target, "es2020");
}

#[test]
fn test_add_external() {
    let mut bundler: Bundler<Hook> = Bundler::new(JSMeldOptions::default());
    bundler.add_external("react".to_string());
    assert_eq!(bundler.options().externals.len(), 1);
}

#[test]
fn test_style_module_generation() {
    let source = "body { color: red; }\n@var: 12px;";
    let module = build_style_module_source(source, true).expect("module generation should work");

    assert!(module.contains("document.createElement(\"style\")"));
    assert!(module.contains("export default __jsmeldStyle;"));
    assert!(module.contains("body { color: red; }\\n@var: 12px;"));
}

#[test]
fn test_style_module_generation_without_runtime_injection() {
    let source = "body { color: red; }";
    let module = build_style_module_source(source, false).expect("module generation should work");

    assert!(!module.contains("document.createElement(\"style\")"));
    assert!(module.contains("export default __jsmeldStyle;"));
}

#[test]
fn test_style_hook_pipeline() {
    let path = "styles/main.css";
    let source = "body { color: red; }";

    let mut hooks: StyleHooks<Hook> = StyleHooks::new();
    hooks.insert("css".to_string(), vec![test_pre_hook as Hook, test_post_hook as Hook]);

    let result = apply_style_hooks_for_extension(&hooks, path, source).expect("hooks should succeed");

    assert!(result.contains("blue"));
    assert!(result.ends_with("/* post */"));
}

#[test]
fn test_style_hook_pipeline_skips_other_extensions() {
    let mut hooks: StyleHooks<Hook> = StyleHooks::new();
    hooks.insert("css".to_string(), vec![test_pre_hook as Hook]);
    let source = "body { color: red; }";
    let less_path = "styles/theme.less";

    let out = apply_style_hooks_for_extension(&hooks, less_path, source).expect("hook application should succeed");

    assert_eq!(out, source);
}

#[test]
fn test_compiler_creation() {
    let _compiler = Compiler::new(JSMeldOptions::<Hook>::default());
}

#[test]
fn test_compile_simple_code() {
    let compiler = Compiler::new(JSMeldOptions::<Hook>::default());
    let result = compiler.compile("const x = 42;", "test.js");
    assert!(result.is_ok());
}

#[test]
fn test_compile_typescript() {
    let compiler = Compiler::new(JSMeldOptions::<Hook>::default());
    let result = compiler.compile("const x: number = 42;", "test.ts");
    assert!(result.is_ok());
}
