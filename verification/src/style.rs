//! Style files: recognising them, running the style hooks over them, and
//! turning a style sheet into a JavaScript module.

use vstd::prelude::*;
use crate::config::StyleHooks;
use crate::errors::{JSMeldError, JSMeldResult};
use crate::text::{ascii_lowercase, concat_str, str_equal, to_ascii_lowercase};

verus! {

/// `h` may return `r` when called with `path` and a string holding `input`.
pub open spec fn hook_may_return<H: Fn(&str, &str) -> Result<String, String>>(
    h: H,
    path: &str,
    input: Seq<char>,
    r: Result<String, String>,
) -> bool {
    exists|s: &str| s@ == input && #[trigger] call_ensures(h, (path, s), r)
}

/// Running `hooks` in order over `source`, each on the previous one's output,
/// may succeed with `out`.
pub open spec fn pipeline_yields<H: Fn(&str, &str) -> Result<String, String>>(
    hooks: Seq<H>,
    path: &str,
    source: Seq<char>,
    out: Seq<char>,
) -> bool
    decreases hooks.len(),
{
    if hooks.len() == 0 {
        out == source
    } else {
        exists|mid: Seq<char>, r: String|
            #![trigger hook_may_return(hooks.last(), path, mid, Ok::<String, String>(r))]
            pipeline_yields(hooks.drop_last(), path, source, mid)
                && hook_may_return(hooks.last(), path, mid, Ok::<String, String>(r))
                && r@ == out
    }
}

/// Running `hooks` in order over `source` may stop at the first hook that
/// fails, with that hook's error `e`.
pub open spec fn pipeline_fails<H: Fn(&str, &str) -> Result<String, String>>(
    hooks: Seq<H>,
    path: &str,
    source: Seq<char>,
    e: String,
) -> bool {
    exists|i: int, mid: Seq<char>|
        #![trigger hook_may_return(hooks[i], path, mid, Err::<String, String>(e))]
        0 <= i < hooks.len()
            && pipeline_yields(hooks.take(i), path, source, mid)
            && hook_may_return(hooks[i], path, mid, Err::<String, String>(e))
}

/// What running `hooks` in order over `source` may return.
pub open spec fn pipeline_may_return<H: Fn(&str, &str) -> Result<String, String>>(
    hooks: Seq<H>,
    path: &str,
    source: Seq<char>,
    r: Result<String, String>,
) -> bool {
    match r {
        Ok(out) => pipeline_yields(hooks, path, source, out@),
        Err(e) => pipeline_fails(hooks, path, source, e),
    }
}

/// Every hook of `hooks` accepts every path and source.
pub open spec fn hooks_callable<H: Fn(&str, &str) -> Result<String, String>>(hooks: Seq<H>) -> bool {
    forall|i: int, p: &str, s: &str| 0 <= i < hooks.len() ==> #[trigger] call_requires(hooks[i], (p, s))
}

/// Every hook stored in `m` accepts every path and source.
pub open spec fn hook_map_callable<H: Fn(&str, &str) -> Result<String, String>>(
    m: Map<Seq<char>, Seq<H>>,
) -> bool {
    forall|k: Seq<char>| #[trigger] m.contains_key(k) ==> hooks_callable(m[k])
}

/// Runs `hooks` in order over `source`: each hook receives `path` and the
/// previous hook's output; the first error stops the run and is returned.
pub fn run_style_hooks<H: Fn(&str, &str) -> Result<String, String>>(
    hooks: &Vec<H>,
    path: &str,
    source: &str,
) -> (r: Result<String, String>)
    requires
        hooks_callable(hooks@),
    ensures
        pipeline_may_return(hooks@, path, source@, r),
{
    let mut transformed = String::from_str(source);
    let mut i: usize = 0;
    assert(hooks@.take(0).len() == 0);
    while i < hooks.len()
        invariant
            i <= hooks.len(),
            hooks_callable(hooks@),
            pipeline_yields(hooks@.take(i as int), path, source@, transformed@),
        decreases hooks.len() - i,
    {
        let hook = &hooks[i];
        let input = transformed.as_str();
        let ghost before = transformed@;
        assert(call_requires(hooks@[i as int], (path, input)));
        let result = hook(path, input);
        assert(hook_may_return(hooks@[i as int], path, before, result));
        match result {
            Ok(next) => {
                proof {
                    let taken = hooks@.take(i + 1);
                    assert(taken.drop_last() =~= hooks@.take(i as int));
                    assert(taken.last() == hooks@[i as int]);
                    assert(hook_may_return(taken.last(), path, before, Ok::<String, String>(next)));
                }
                transformed = next;
                i = i + 1;
            },
            Err(e) => {
                proof {
                    assert(hook_may_return(hooks@[i as int], path, before, Err::<String, String>(e)));
                }
                return Err(e);
            },
        }
    }
    assert(hooks@.take(hooks@.len() as int) =~= hooks@);
    Ok(transformed)
}

/// The lower-case hexadecimal digit for `n` in `0..16`.
pub open spec fn hex_digit(n: int) -> char {
    if n < 10 {
        (('0' as int) + n) as char
    } else {
        (('a' as int) + n - 10) as char
    }
}

/// How JSON writes one character inside a string literal: quote and
/// backslash are escaped, the control characters with a short escape use it,
/// the other control characters are written as `\u00XX`, and every other
/// character stands for itself.
pub open spec fn json_escape(c: char) -> Seq<char> {
    if c == '"' {
        seq!['\\', '"']
    } else if c == '\\' {
        seq!['\\', '\\']
    } else if c == '\u{8}' {
        seq!['\\', 'b']
    } else if c == '\t' {
        seq!['\\', 't']
    } else if c == '\n' {
        seq!['\\', 'n']
    } else if c == '\u{c}' {
        seq!['\\', 'f']
    } else if c == '\r' {
        seq!['\\', 'r']
    } else if (c as u32) < 0x20 {
        seq!['\\', 'u', '0', '0', hex_digit((c as int) / 16), hex_digit((c as int) % 16)]
    } else {
        seq![c]
    }
}

/// The JSON string literal for `s`: `s` with each character escaped, between
/// double quotes.
pub open spec fn json_string_literal(s: Seq<char>) -> Seq<char> {
    seq!['"'] + s.map_values(|c: char| json_escape(c)).flatten() + seq!['"']
}

/// A character that JSON writes as itself inside a string literal.
pub open spec fn json_plain(c: char) -> bool {
    c != '"' && c != '\\' && (c as u32) >= 0x20
}

proof fn lemma_flatten_singletons(s: Seq<char>)
    requires
        forall|i: int| 0 <= i < s.len() ==> json_plain(#[trigger] s[i]),
    ensures
        s.map_values(|c: char| json_escape(c)).flatten() == s,
    decreases s.len(),
{
    let m = s.map_values(|c: char| json_escape(c));
    if s.len() > 0 {
        assert(json_plain(s[0]));
        assert(m.drop_first() =~= s.drop_first().map_values(|c: char| json_escape(c)));
        lemma_flatten_singletons(s.drop_first());
        assert(m.first() =~= seq![s[0]]);
        assert(m.flatten() =~= seq![s[0]] + s.drop_first());
        assert(seq![s[0]] + s.drop_first() =~= s);
    } else {
        assert(m =~= Seq::<Seq<char>>::empty());
    }
}

/// The value of the hexadecimal digit `c`, in either case.
pub open spec fn hex_value(c: char) -> Option<int> {
    if '0' <= c && c <= '9' {
        Some(c as int - '0' as int)
    } else if 'a' <= c && c <= 'f' {
        Some(c as int - 'a' as int + 10)
    } else if 'A' <= c && c <= 'F' {
        Some(c as int - 'A' as int + 10)
    } else {
        None
    }
}

/// The character that JSON's two-character escape `'\\'` + `c` stands for.
pub open spec fn json_short_escape(c: char) -> Option<char> {
    if c == '"' {
        Some('"')
    } else if c == '\\' {
        Some('\\')
    } else if c == '/' {
        Some('/')
    } else if c == 'b' {
        Some('\u{8}')
    } else if c == 'f' {
        Some('\u{c}')
    } else if c == 'n' {
        Some('\n')
    } else if c == 'r' {
        Some('\r')
    } else if c == 't' {
        Some('\t')
    } else {
        None
    }
}

/// The code point that the escape `\uXXXX` at the start of `body` gives.
pub open spec fn json_unicode_escape(body: Seq<char>) -> Option<int> {
    if body.len() >= 6 && body[0] == '\\' && body[1] == 'u' {
        match (hex_value(body[2]), hex_value(body[3]), hex_value(body[4]), hex_value(body[5])) {
            (Some(a), Some(b), Some(c), Some(d)) => Some(((a * 16 + b) * 16 + c) * 16 + d),
            _ => None,
        }
    } else {
        None
    }
}

/// The text that `body`, the part of a JSON string literal between its
/// quotes, stands for, as JSON reads it; `None` where `body` is not such a
/// part or where it escapes a surrogate, which this reading leaves out.
pub open spec fn json_decode(body: Seq<char>) -> Option<Seq<char>>
    decreases body.len(),
{
    if body.len() == 0 {
        Some(Seq::empty())
    } else if body[0] == '\\' {
        if body.len() >= 2 && body[1] == 'u' {
            match json_unicode_escape(body) {
                Some(v) => if 0xD800 <= v && v <= 0xDFFF {
                    None
                } else {
                    match json_decode(body.subrange(6, body.len() as int)) {
                        Some(rest) => Some(seq![v as char] + rest),
                        None => None,
                    }
                },
                None => None,
            }
        } else if body.len() >= 2 && json_short_escape(body[1]) is Some {
            match json_decode(body.subrange(2, body.len() as int)) {
                Some(rest) => Some(seq![json_short_escape(body[1])->0] + rest),
                None => None,
            }
        } else {
            None
        }
    } else if body[0] == '"' || (body[0] as u32) < 0x20 {
        None
    } else {
        match json_decode(body.subrange(1, body.len() as int)) {
            Some(rest) => Some(seq![body[0]] + rest),
            None => None,
        }
    }
}

/// Read as JSON, the escape of one character followed by `rest` gives that
/// character followed by what `rest` gives.
proof fn lemma_decode_escape(c: char, rest: Seq<char>)
    ensures
        json_decode(json_escape(c) + rest) == match json_decode(rest) {
            Some(t) => Some(seq![c] + t),
            None => None::<Seq<char>>,
        },
{
    let e = json_escape(c);
    let body = e + rest;
    if json_plain(c) {
        assert(body.subrange(1, body.len() as int) =~= rest);
    } else if (c as u32) < 0x20 && c != '\u{8}' && c != '\t' && c != '\n' && c != '\u{c}' && c != '\r' {
        let v = c as int;
        assert(hex_value(hex_digit(v / 16)) == Some(v / 16));
        assert(hex_value(hex_digit(v % 16)) == Some(v % 16));
        assert(json_unicode_escape(body) == Some(v));
        assert(body.subrange(6, body.len() as int) =~= rest);
        assert((v as char) == c);
    } else {
        assert(body.subrange(2, body.len() as int) =~= rest);
    }
}

/// Read as JSON, the body of the literal for `s` gives back `s`.
proof fn lemma_decode_body(s: Seq<char>)
    ensures
        json_decode(s.map_values(|c: char| json_escape(c)).flatten()) == Some(s),
    decreases s.len(),
{
    let m = s.map_values(|c: char| json_escape(c));
    if s.len() == 0 {
        assert(m =~= Seq::<Seq<char>>::empty());
    } else {
        assert(m.drop_first() =~= s.drop_first().map_values(|c: char| json_escape(c)));
        lemma_decode_body(s.drop_first());
        lemma_decode_escape(s[0], m.drop_first().flatten());
        assert(m.flatten() == m.first() + m.drop_first().flatten());
        assert(seq![s[0]] + s.drop_first() =~= s);
    }
}

/// The JSON literal of a style sheet reads back as that style sheet: it is a
/// JSON string literal, between double quotes, whose content JSON reads as
/// exactly `s`.
pub proof fn lemma_json_literal_round_trip(s: Seq<char>)
    ensures
        ({
            let lit = json_string_literal(s);
            &&& 2 <= lit.len()
            &&& lit[0] == '"'
            &&& lit.last() == '"'
            &&& json_decode(lit.subrange(1, lit.len() - 1)) == Some(s)
        }),
{
    let body = s.map_values(|c: char| json_escape(c)).flatten();
    let lit = json_string_literal(s);
    lemma_decode_body(s);
    assert(lit.subrange(1, lit.len() - 1) =~= body);
}

/// Text with no quote, no backslash and no control character becomes the
/// JSON literal that is the text itself between double quotes.
pub proof fn lemma_plain_text_literal(s: Seq<char>)
    requires
        forall|i: int| 0 <= i < s.len() ==> json_plain(#[trigger] s[i]),
    ensures
        json_string_literal(s) == seq!['"'] + s + seq!['"'],
{
    lemma_flatten_singletons(s);
}

/// The error type of `serde_json`, never produced by the call below.
#[verifier::external_type_specification]
#[verifier::external_body]
pub struct ExJsonError(serde_json::Error);

/// Calls `serde_json::to_string` on a string slice. Its source writes the
/// string, escaped as `json_escape` says, between quotes into a `Vec<u8>`,
/// which cannot fail.
#[verifier::external_body]
fn json_string(s: &str) -> (r: Result<String, serde_json::Error>)
    ensures
        r is Ok,
        r matches Ok(t) ==> t@ == json_string_literal(s@),
{
    serde_json::to_string(s)
}

/// The code after the style literal when the style is injected at run time.
pub open spec fn injected_style_tail() -> Seq<char> {
    ";\nif (typeof document !== \"undefined\") {\n  const __jsmeldStyleTag = document.createElement(\"style\");\n  __jsmeldStyleTag.textContent = __jsmeldStyle;\n  document.head.appendChild(__jsmeldStyleTag);\n}\nexport default __jsmeldStyle;\n"@
}

/// The code after the style literal when the style is only exported.
pub open spec fn exported_style_tail() -> Seq<char> {
    ";\nexport default __jsmeldStyle;\n"@
}

/// The JavaScript module that stands for a style sheet whose JSON literal is
/// `literal`: it binds the style text to `__jsmeldStyle` and exports it; when
/// `inject` holds it also appends a `<style>` tag with that text to the
/// document, where there is a document.
pub open spec fn style_module_text(literal: Seq<char>, inject: bool) -> Seq<char> {
    "const __jsmeldStyle = "@ + literal + if inject { injected_style_tail() } else { exported_style_tail() }
}

/// Every style module, injecting or not, exports the style as its default
/// export: it ends with `export default __jsmeldStyle;`.
pub proof fn lemma_style_module_exports(literal: Seq<char>, inject: bool)
    ensures
        "export default __jsmeldStyle;\n"@.is_suffix_of(style_module_text(literal, inject)),
{
    let e = "export default __jsmeldStyle;\n"@;
    let tail = if inject { injected_style_tail() } else { exported_style_tail() };
    let t = style_module_text(literal, inject);
    reveal_strlit("export default __jsmeldStyle;\n");
    reveal_strlit(";\nexport default __jsmeldStyle;\n");
    reveal_strlit(";\nif (typeof document !== \"undefined\") {\n  const __jsmeldStyleTag = document.createElement(\"style\");\n  __jsmeldStyleTag.textContent = __jsmeldStyle;\n  document.head.appendChild(__jsmeldStyleTag);\n}\nexport default __jsmeldStyle;\n");
    assert(tail.subrange(tail.len() - e.len(), tail.len() as int) =~= e);
    assert(t.subrange(t.len() - e.len(), t.len() as int) =~= tail.subrange(tail.len() - e.len(), tail.len() as int));
}

/// Builds the JavaScript module for the style sheet `style_source`.
pub fn build_style_module_source(style_source: &str, inject_runtime_style: bool) -> (r: JSMeldResult<String>)
    ensures
        r matches Ok(t) && t@ == style_module_text(json_string_literal(style_source@), inject_runtime_style),
{
    let literal = match json_string(style_source) {
        Ok(l) => l,
        Err(_) => return Err(JSMeldError::BundlingError(String::from_str("Failed to serialize CSS/LESS content"))),
    };
    let head = concat_str("const __jsmeldStyle = ", literal.as_str());
    if inject_runtime_style {
        Ok(concat_str(
            head.as_str(),
            ";\nif (typeof document !== \"undefined\") {\n  const __jsmeldStyleTag = document.createElement(\"style\");\n  __jsmeldStyleTag.textContent = __jsmeldStyle;\n  document.head.appendChild(__jsmeldStyleTag);\n}\nexport default __jsmeldStyle;\n",
        ))
    } else {
        Ok(concat_str(head.as_str(), ";\nexport default __jsmeldStyle;\n"))
    }
}

/// `e` is a possible extension of `path`: it holds no `'.'`, and `path`
/// holds `'.'` followed by `e`.
pub open spec fn is_extension_of(path: Seq<char>, e: Seq<char>) -> bool {
    &&& !e.contains('.')
    &&& exists|i: int|
        0 <= i && i + e.len() + 1 <= path.len() && #[trigger] path.subrange(i, i + e.len() + 1) == seq!['.'] + e
}

/// `c` separates path components on some platform: `'/'` everywhere, `'\\'`
/// on Windows.
pub open spec fn is_separator(c: char) -> bool {
    c == '/' || c == '\\'
}

/// `path` begins with two separators. On Windows such a path may begin with
/// a network or verbatim prefix, whose parts are not components and in which
/// `'/'` need not separate anything.
pub open spec fn starts_with_two_separators(path: Seq<char>) -> bool {
    path.len() >= 2 && is_separator(path[0]) && is_separator(path[1])
}

/// `path` does not begin with two separators and ends with `'.'` followed by
/// the non-empty `e`, which holds no `'.'`, no separator and no `':'`.
pub open spec fn ends_with_dotted(path: Seq<char>, e: Seq<char>) -> bool {
    &&& !starts_with_two_separators(path)
    &&& 0 < e.len()
    &&& forall|k: int| 0 <= k < e.len() ==> #[trigger] e[k] != '.' && !is_separator(e[k]) && e[k] != ':'
    &&& e.len() + 1 <= path.len()
    &&& path.subrange(path.len() - e.len() - 1, path.len() as int) == seq!['.'] + e
}

/// On every platform the extension of `path` is `e`: `path` ends with
/// `'.'` and `e`, and the character before that `'.'` is no separator and no
/// `':'`, so it belongs to the same file name, which does not begin with that
/// `'.'`.
pub open spec fn has_extension(path: Seq<char>, e: Seq<char>) -> bool {
    &&& ends_with_dotted(path, e)
    &&& e.len() + 2 <= path.len()
    &&& !is_separator(path[path.len() - e.len() - 2])
    &&& path[path.len() - e.len() - 2] != ':'
}

/// On every platform the file name of `path` is `'.'` followed by `e`: the
/// whole path, or what follows its last `'/'`. Such a file name has no
/// extension.
pub open spec fn names_dot_file(path: Seq<char>, e: Seq<char>) -> bool {
    &&& ends_with_dotted(path, e)
    &&& (path.len() == e.len() + 1 || path[path.len() - e.len() - 2] == '/')
}

/// On every platform the file name of `path` is what follows the `'/'` at
/// `j`: it is not empty and holds no `'.'` and no separator. Such a file name
/// has no extension.
pub open spec fn ends_in_undotted_name(path: Seq<char>, j: int) -> bool {
    &&& !starts_with_two_separators(path)
    &&& 0 <= j < path.len() - 1
    &&& path[j] == '/'
    &&& forall|k: int| j < k < path.len() ==> #[trigger] path[k] != '.' && !is_separator(path[k])
}

/// On every platform `path` has no extension: it holds no `'.'`, or its file
/// name is a dot file or holds no `'.'`.
pub open spec fn has_no_extension(path: Seq<char>) -> bool {
    ||| !path.contains('.')
    ||| exists|e: Seq<char>| #[trigger] names_dot_file(path, e)
    ||| exists|j: int| #[trigger] ends_in_undotted_name(path, j)
}

/// Calls `std::path::Path::extension` and converts the result to a `String`.
/// Its documentation: the extension is the part of the file name after its
/// final `'.'`, and there is none when the file name holds no `'.'` or is a
/// `'.'` followed by no other `'.'`. The file name is the path's last
/// component, a part of the path, so the extension always follows a `'.'` in
/// it. Where components and prefixes differ between platforms (`'\\'` and
/// `':'`, paths that begin with two separators) the contract states only what
/// holds on every platform.
#[verifier::external_body]
fn path_extension(path: &str) -> (r: Option<String>)
    ensures
        r matches Some(e) ==> is_extension_of(path@, e@),
        forall|e: Seq<char>| #[trigger] has_extension(path@, e) ==> r is Some && r.unwrap()@ == e,
        has_no_extension(path@) ==> r is None,
{
    match std::path::Path::new(path).extension() {
        Some(e) => e.to_str().map(String::from),
        None => None,
    }
}

/// The extensions of style files, in lower case.
pub open spec fn is_style_extension_name(e: Seq<char>) -> bool {
    e == "css"@ || e == "less"@ || e == "sass"@ || e == "scss"@ || e == "styl"@
}

/// The style extensions are exactly the five names css, less, sass, scss and
/// styl; in particular no extension of a script (js, jsx, mjs, cjs, ts, tsx,
/// mts, cts) is one, so script files are compiled, never turned into style
/// modules.
pub proof fn lemma_style_extensions()
    ensures
        Set::new(|e: Seq<char>| is_style_extension_name(e)) == set!["css"@, "less"@, "sass"@, "scss"@, "styl"@],
        Set::new(|e: Seq<char>| is_style_extension_name(e)).len() == 5,
        !is_style_extension_name("js"@),
        !is_style_extension_name("jsx"@),
        !is_style_extension_name("mjs"@),
        !is_style_extension_name("cjs"@),
        !is_style_extension_name("ts"@),
        !is_style_extension_name("tsx"@),
        !is_style_extension_name("mts"@),
        !is_style_extension_name("cts"@),
{
    reveal_strlit("css");
    reveal_strlit("less");
    reveal_strlit("sass");
    reveal_strlit("scss");
    reveal_strlit("styl");
    reveal_strlit("js");
    reveal_strlit("jsx");
    reveal_strlit("mjs");
    reveal_strlit("cjs");
    reveal_strlit("ts");
    reveal_strlit("tsx");
    reveal_strlit("mts");
    reveal_strlit("cts");
    let styles = Set::new(|e: Seq<char>| is_style_extension_name(e));
    let five = set!["css"@, "less"@, "sass"@, "scss"@, "styl"@];
    assert(styles =~= five);
    assert("css"@.len() == 3 && "less"@.len() == 4 && "sass"@.len() == 4 && "scss"@.len() == 4 && "styl"@.len() == 4);
    assert("less"@[0] == 'l' && "sass"@[0] == 's' && "scss"@[0] == 's' && "styl"@[0] == 's');
    assert("sass"@[1] == 'a' && "scss"@[1] == 'c' && "styl"@[1] == 't');
    assert("css"@[0] == 'c' && "css"@[1] == 's' && "js"@.len() == 2 && "ts"@.len() == 2);
    assert("jsx"@[0] == 'j' && "mjs"@[0] == 'm' && "cjs"@[1] == 'j' && "tsx"@[0] == 't' && "mts"@[0] == 'm');
    assert("cts"@[1] == 't' && "jsx"@.len() == 3 && "mjs"@.len() == 3 && "cjs"@.len() == 3);
    assert("tsx"@.len() == 3 && "mts"@.len() == 3 && "cts"@.len() == 3);
    let s1 = Set::<Seq<char>>::empty().insert("css"@);
    let s2 = s1.insert("less"@);
    let s3 = s2.insert("sass"@);
    let s4 = s3.insert("scss"@);
    assert(!s1.contains("less"@));
    assert(!s2.contains("sass"@));
    assert(!s3.contains("scss"@));
    assert(!s4.contains("styl"@));
}

/// Whether `extension` (in any case) is that of a style file: css, less,
/// sass, scss or styl.
pub fn is_style_extension(extension: &str) -> (r: bool)
    ensures
        r == is_style_extension_name(ascii_lowercase(extension@)),
{
    let lower = to_ascii_lowercase(extension);
    let l = lower.as_str();
    str_equal(l, "css") || str_equal(l, "less") || str_equal(l, "sass") || str_equal(l, "scss")
        || str_equal(l, "styl")
}

/// The lower-case extension of `path`, if it has one.
pub fn extension_from_path(path: &str) -> (r: Option<String>)
    ensures
        r matches Some(e) ==> exists|raw: Seq<char>| is_extension_of(path@, raw) && e@ == ascii_lowercase(raw),
        forall|e: Seq<char>| #[trigger] has_extension(path@, e) ==> (r matches Some(x) && x@ == ascii_lowercase(
            e,
        )),
        has_no_extension(path@) ==> r is None,
{
    match path_extension(path) {
        Some(e) => Some(to_ascii_lowercase(e.as_str())),
        None => None,
    }
}

/// Whether `path` names a style file, judged by its extension.
pub fn is_style_file(path: &str) -> (r: bool)
    ensures
        r ==> exists|raw: Seq<char>| is_extension_of(path@, raw) && is_style_extension_name(ascii_lowercase(raw)),
        forall|e: Seq<char>| #[trigger] has_extension(path@, e) ==> r == is_style_extension_name(
            ascii_lowercase(e),
        ),
        has_no_extension(path@) ==> !r,
{
    match path_extension(path) {
        Some(e) => is_style_extension(e.as_str()),
        None => false,
    }
}

/// The view of an optional string slice.
pub open spec fn opt_view(o: Option<&str>) -> Option<Seq<char>> {
    match o {
        Some(s) => Some(s@),
        None => None,
    }
}

/// What the hooks may make of `source` for a file whose lower-case extension
/// is `extension`: the hooks stored under that extension run in order; with
/// no extension, or none stored under it, the source comes back unchanged.
pub open spec fn hooks_outcome<H: Fn(&str, &str) -> Result<String, String>>(
    m: Map<Seq<char>, Seq<H>>,
    extension: Option<Seq<char>>,
    path: &str,
    source: Seq<char>,
    r: Result<String, String>,
) -> bool {
    match extension {
        Some(e) => if m.contains_key(e) {
            pipeline_may_return(m[e], path, source, r)
        } else {
            r matches Ok(t) && t@ == source
        },
        None => r matches Ok(t) && t@ == source,
    }
}

/// Runs the hooks stored under `extension`, if any, over `source`.
pub fn apply_style_hooks_with_extension<H: Fn(&str, &str) -> Result<String, String>>(
    hooks_by_extension: &StyleHooks<H>,
    extension: Option<&str>,
    path: &str,
    source: &str,
) -> (r: Result<String, String>)
    requires
        hook_map_callable(hooks_by_extension@),
    ensures
        hooks_outcome(hooks_by_extension@, opt_view(extension), path, source@, r),
{
    let extension = match extension {
        Some(e) => e,
        None => return Ok(String::from_str(source)),
    };
    match hooks_by_extension.get(extension) {
        Some(hooks) => run_style_hooks(hooks, path, source),
        None => Ok(String::from_str(source)),
    }
}

/// Runs the hooks registered for the lower-case extension of `path` over
/// `source`; files without such hooks come back unchanged.
pub fn apply_style_hooks_for_extension<H: Fn(&str, &str) -> Result<String, String>>(
    hooks_by_extension: &StyleHooks<H>,
    path: &str,
    source: &str,
) -> (r: Result<String, String>)
    requires
        hook_map_callable(hooks_by_extension@),
    ensures
        (r matches Ok(t) && t@ == source@) || exists|raw: Seq<char>|
            is_extension_of(path@, raw) && hooks_outcome(
                hooks_by_extension@,
                Some(ascii_lowercase(raw)),
                path,
                source@,
                r,
            ),
        forall|e: Seq<char>| #[trigger] has_extension(path@, e) ==> hooks_outcome(
            hooks_by_extension@,
            Some(ascii_lowercase(e)),
            path,
            source@,
            r,
        ),
        has_no_extension(path@) ==> (r matches Ok(t) && t@ == source@),
{
    let extension = extension_from_path(path);
    match &extension {
        Some(e) => apply_style_hooks_with_extension(hooks_by_extension, Some(e.as_str()), path, source),
        None => Ok(String::from_str(source)),
    }
}

} // verus!
