//! Configuration structures for jsmeld.

use vstd::prelude::*;
use crate::errors::{JSMeldError, JSMeldResult};
use crate::text::{
    ascii_lowercase, concat_str, debug_quoted, debug_str, decimal_digits, decimal_text, join, join_strings, str_equal,
    to_ascii_lowercase, trim_leading_dots, trim_start_dots,
};

verus! {

/// The key under which a hook registered for `extension` is stored:
/// leading dots removed, ASCII letters lower-cased.
pub open spec fn normalized_extension(extension: Seq<char>) -> Seq<char> {
    ascii_lowercase(trim_leading_dots(extension))
}

/// Normalizes a file extension for use as a style-hook key, so that `".CSS"`,
/// `"css"` and `"Css"` all name the same hooks.
pub fn normalize_extension(extension: &str) -> (r: String)
    ensures
        r@ == normalized_extension(extension@),
{
    to_ascii_lowercase(trim_start_dots(extension))
}

/// Style transform hooks keyed by file extension. Each extension holds an
/// ordered list of hooks; no extension occurs twice.
pub struct StyleHooks<H> {
    entries: Vec<(String, Vec<H>)>,
}

impl<H> View for StyleHooks<H> {
    type V = Map<Seq<char>, Seq<H>>;

    closed spec fn view(&self) -> Map<Seq<char>, Seq<H>> {
        Map::new(
            |k: Seq<char>| exists|i: int| 0 <= i < self.entries@.len() && #[trigger] self.entries@[i].0@ == k,
            |k: Seq<char>| self.entries@[self.index_of(k)].1@,
        )
    }
}

impl<H> StyleHooks<H> {
    #[verifier::type_invariant]
    closed spec fn keys_distinct(self) -> bool {
        forall|i: int, j: int|
            0 <= i < j < self.entries@.len() ==> #[trigger] self.entries@[i].0@ != #[trigger] self.entries@[j].0@
    }

    closed spec fn index_of(&self, k: Seq<char>) -> int {
        choose|i: int| 0 <= i < self.entries@.len() && #[trigger] self.entries@[i].0@ == k
    }

    proof fn lemma_index_of(&self, i: int)
        requires
            self.keys_distinct(),
            0 <= i < self.entries@.len(),
        ensures
            self.index_of(self.entries@[i].0@) == i,
            self@.contains_key(self.entries@[i].0@),
            self@[self.entries@[i].0@] == self.entries@[i].1@,
    {
        let k = self.entries@[i].0@;
        let j = self.index_of(k);
        assert(self.entries@[i].0@ == k);
        if j != i {
            if j < i {
                assert(self.entries@[j].0@ != self.entries@[i].0@);
            } else {
                assert(self.entries@[i].0@ != self.entries@[j].0@);
            }
        }
    }

    /// An empty set of hooks.
    pub fn new() -> (r: Self)
        ensures
            r@ == Map::<Seq<char>, Seq<H>>::empty(),
    {
        let r = StyleHooks { entries: Vec::new() };
        assert(r@ =~= Map::<Seq<char>, Seq<H>>::empty());
        r
    }

    fn find(&self, extension: &str) -> (r: Option<usize>)
        ensures
            r matches Some(i) ==> i < self.entries@.len() && self.entries@[i as int].0@ == extension@,
            r is None ==> !self@.contains_key(extension@),
    {
        let mut i: usize = 0;
        while i < self.entries.len()
            invariant
                i <= self.entries@.len(),
                forall|j: int| 0 <= j < i ==> self.entries@[j].0@ != extension@,
            decreases self.entries.len() - i,
        {
            if str_equal(self.entries[i].0.as_str(), extension) {
                return Some(i);
            }
            i = i + 1;
        }
        None
    }

    /// The number of extensions that hold hooks.
    pub fn len(&self) -> (r: usize)
        ensures
            r == self@.dom().len(),
    {
        proof {
            use_type_invariant(self);
            let keys = self.entries@.map_values(|e: (String, Vec<H>)| e.0@);
            assert(keys.no_duplicates()) by {
                assert forall|i: int, j: int| 0 <= i < keys.len() && 0 <= j < keys.len() && i != j implies
                    keys[i] != keys[j] by {
                    if i < j {
                        assert(self.entries@[i].0@ != self.entries@[j].0@);
                    } else {
                        assert(self.entries@[j].0@ != self.entries@[i].0@);
                    }
                }
            }
            keys.unique_seq_to_set();
            assert forall|k: Seq<char>| #[trigger] self@.dom().contains(k) <==> keys.to_set().contains(k) by {
                if self@.dom().contains(k) {
                    let i = choose|i: int| 0 <= i < self.entries@.len() && #[trigger] self.entries@[i].0@ == k;
                    assert(keys[i] == k);
                }
                if keys.to_set().contains(k) {
                    let i = choose|i: int| 0 <= i < keys.len() && keys[i] == k;
                    assert(self.entries@[i].0@ == k);
                }
            }
            assert(self@.dom() =~= keys.to_set());
        }
        self.entries.len()
    }

    /// The hooks stored under `extension`, compared exactly (no normalization).
    pub fn get(&self, extension: &str) -> (r: Option<&Vec<H>>)
        ensures
            self@.contains_key(extension@) ==> (r matches Some(v) && v@ == self@[extension@]),
            !self@.contains_key(extension@) ==> r is None,
    {
        proof { use_type_invariant(self); }
        match self.find(extension) {
            Some(i) => {
                proof { self.lemma_index_of(i as int); }
                Some(&self.entries[i].1)
            },
            None => None,
        }
    }

    /// Appends `hook` to the hooks stored under `extension`, creating the
    /// entry when there is none.
    pub fn add(&mut self, extension: String, hook: H)
        ensures
            final(self)@ == old(self)@.insert(
                extension@,
                if old(self)@.contains_key(extension@) {
                    old(self)@[extension@].push(hook)
                } else {
                    seq![hook]
                },
            ),
    {
        proof { use_type_invariant(&*self); }
        let ghost prev = *self;
        match self.find(extension.as_str()) {
            Some(i) => {
                proof { prev.lemma_index_of(i as int); }
                let mut entries: Vec<(String, Vec<H>)> = Vec::new();
                std::mem::swap(&mut entries, &mut self.entries);
                let (key, mut hooks) = entries.remove(i);
                hooks.push(hook);
                entries.insert(i, (key, hooks));
                proof {
                    let next = StyleHooks { entries };
                    assert forall|j: int| 0 <= j < prev.entries@.len() && j != i implies
                        next.entries@[j] == prev.entries@[j] by {}
                    Self::lemma_view_set_at(prev, next, i as int);
                }
                self.entries = entries;
            },
            None => {
                let mut entries: Vec<(String, Vec<H>)> = Vec::new();
                std::mem::swap(&mut entries, &mut self.entries);
                let one = vec![hook];
                assert(one@ =~= seq![hook]);
                entries.push((extension, one));
                proof {
                    let next = StyleHooks { entries };
                    Self::lemma_view_push(prev, next);
                }
                self.entries = entries;
            },
        }
    }

    /// Stores `hooks` under `extension`, replacing what was stored there.
    pub fn insert(&mut self, extension: String, hooks: Vec<H>)
        ensures
            final(self)@ == old(self)@.insert(extension@, hooks@),
    {
        proof { use_type_invariant(&*self); }
        let ghost prev = *self;
        match self.find(extension.as_str()) {
            Some(i) => {
                proof { prev.lemma_index_of(i as int); }
                let mut entries: Vec<(String, Vec<H>)> = Vec::new();
                std::mem::swap(&mut entries, &mut self.entries);
                let (key, _) = entries.remove(i);
                entries.insert(i, (key, hooks));
                proof {
                    let next = StyleHooks { entries };
                    assert forall|j: int| 0 <= j < prev.entries@.len() && j != i implies
                        next.entries@[j] == prev.entries@[j] by {}
                    Self::lemma_view_set_at(prev, next, i as int);
                }
                self.entries = entries;
            },
            None => {
                let mut entries: Vec<(String, Vec<H>)> = Vec::new();
                std::mem::swap(&mut entries, &mut self.entries);
                entries.push((extension, hooks));
                proof {
                    let next = StyleHooks { entries };
                    Self::lemma_view_push(prev, next);
                }
                self.entries = entries;
            },
        }
    }

    /// Replacing the hooks of the entry at `i` changes the view at that
    /// entry's key only.
    proof fn lemma_view_set_at(prev: Self, next: Self, i: int)
        requires
            prev.keys_distinct(),
            0 <= i < prev.entries@.len(),
            next.entries@.len() == prev.entries@.len(),
            next.entries@[i].0@ == prev.entries@[i].0@,
            forall|j: int| 0 <= j < prev.entries@.len() && j != i ==> next.entries@[j] == prev.entries@[j],
        ensures
            next.keys_distinct(),
            next@ == prev@.insert(prev.entries@[i].0@, next.entries@[i].1@),
    {
        let k = prev.entries@[i].0@;
        assert(next.keys_distinct()) by {
            assert forall|a: int, b: int| 0 <= a < b < next.entries@.len() implies
                #[trigger] next.entries@[a].0@ != #[trigger] next.entries@[b].0@ by {
                assert(prev.entries@[a].0@ != prev.entries@[b].0@);
            }
        }
        let target = prev@.insert(k, next.entries@[i].1@);
        assert forall|key: Seq<char>| #[trigger] next@.contains_key(key) <==> target.contains_key(key) by {
            if next@.contains_key(key) {
                let j = choose|j: int| 0 <= j < next.entries@.len() && #[trigger] next.entries@[j].0@ == key;
                if j != i {
                    assert(prev.entries@[j].0@ == key);
                }
            }
            if target.contains_key(key) && key != k {
                let j = choose|j: int| 0 <= j < prev.entries@.len() && #[trigger] prev.entries@[j].0@ == key;
                assert(next.entries@[j].0@ == key);
            }
            if key == k {
                assert(next.entries@[i].0@ == key);
            }
        }
        assert forall|key: Seq<char>| #[trigger] next@.contains_key(key) implies next@[key] == target[key] by {
            let j = choose|j: int| 0 <= j < next.entries@.len() && #[trigger] next.entries@[j].0@ == key;
            next.lemma_index_of(j);
            if j != i {
                assert(prev.entries@[j].0@ == key);
                prev.lemma_index_of(j);
            }
        }
        assert(next@ =~= target);
    }

    /// Appending an entry under a key not yet present adds that key.
    proof fn lemma_view_push(prev: Self, next: Self)
        requires
            prev.keys_distinct(),
            next.entries@.len() == prev.entries@.len() + 1,
            forall|j: int| 0 <= j < prev.entries@.len() ==> next.entries@[j] == prev.entries@[j],
            !prev@.contains_key(next.entries@.last().0@),
        ensures
            next.keys_distinct(),
            next@ == prev@.insert(next.entries@.last().0@, next.entries@.last().1@),
    {
        let n = prev.entries@.len() as int;
        let k = next.entries@[n].0@;
        assert(next.keys_distinct()) by {
            assert forall|a: int, b: int| 0 <= a < b < next.entries@.len() implies
                #[trigger] next.entries@[a].0@ != #[trigger] next.entries@[b].0@ by {
                if b < n {
                    assert(prev.entries@[a].0@ != prev.entries@[b].0@);
                } else {
                    assert(prev.entries@[a].0@ == next.entries@[a].0@);
                }
            }
        }
        let target = prev@.insert(k, next.entries@[n].1@);
        assert forall|key: Seq<char>| #[trigger] next@.contains_key(key) <==> target.contains_key(key) by {
            if next@.contains_key(key) {
                let j = choose|j: int| 0 <= j < next.entries@.len() && #[trigger] next.entries@[j].0@ == key;
                if j != n {
                    assert(prev.entries@[j].0@ == key);
                }
            }
            if target.contains_key(key) && key != k {
                let j = choose|j: int| 0 <= j < prev.entries@.len() && #[trigger] prev.entries@[j].0@ == key;
                assert(next.entries@[j].0@ == key);
            }
            if key == k {
                assert(next.entries@[n].0@ == key);
            }
        }
        assert forall|key: Seq<char>| #[trigger] next@.contains_key(key) implies next@[key] == target[key] by {
            let j = choose|j: int| 0 <= j < next.entries@.len() && #[trigger] next.entries@[j].0@ == key;
            next.lemma_index_of(j);
            if j != n {
                assert(prev.entries@[j].0@ == key);
                prev.lemma_index_of(j);
            }
        }
        assert(next@ =~= target);
    }
}

impl<H> StyleHooks<H> {
    /// Stores `hooks` under the normalized form of `extension`, replacing
    /// what was stored there.
    pub fn insert_normalized(&mut self, extension: &str, hooks: Vec<H>)
        ensures
            final(self)@ == old(self)@.insert(normalized_extension(extension@), hooks@),
    {
        let key = normalize_extension(extension);
        self.insert(key, hooks);
    }

    /// Appends `hook` to the hooks stored under the normalized form of
    /// `extension`.
    pub fn add_normalized(&mut self, extension: &str, hook: H)
        ensures
            ({
                let k = normalized_extension(extension@);
                final(self)@ == old(self)@.insert(
                    k,
                    if old(self)@.contains_key(k) { old(self)@[k].push(hook) } else { seq![hook] },
                )
            }),
    {
        let key = normalize_extension(extension);
        self.add(key, hook);
    }
}

/// `b` holds the same extensions as `a`, each with as many hooks, every
/// hook a clone of the one in the same place in `a`.
pub open spec fn hooks_cloned<H: Clone>(a: Map<Seq<char>, Seq<H>>, b: Map<Seq<char>, Seq<H>>) -> bool {
    &&& b.dom() == a.dom()
    &&& forall|k: Seq<char>|
        #[trigger] b.contains_key(k) ==> b[k].len() == a[k].len() && forall|i: int|
            0 <= i < a[k].len() ==> cloned::<H>(a[k][i], #[trigger] b[k][i])
}

impl<H: Clone> Clone for StyleHooks<H> {
    /// A copy with the same extensions, each hook cloned.
    fn clone(&self) -> (r: Self)
        ensures
            hooks_cloned(self@, r@),
    {
        proof { use_type_invariant(self); }
        let mut entries: Vec<(String, Vec<H>)> = Vec::new();
        let mut i: usize = 0;
        while i < self.entries.len()
            invariant
                i <= self.entries@.len(),
                entries@.len() == i,
                self.keys_distinct(),
                forall|j: int|
                    0 <= j < i ==> #[trigger] entries@[j].0 == self.entries@[j].0 && entries@[j].1.len()
                        == self.entries@[j].1.len() && forall|m: int|
                        0 <= m < self.entries@[j].1.len() ==> cloned::<H>(
                            self.entries@[j].1[m],
                            #[trigger] entries@[j].1[m],
                        ),
            decreases self.entries.len() - i,
        {
            let key = self.entries[i].0.clone();
            let hooks = self.entries[i].1.clone();
            entries.push((key, hooks));
            i = i + 1;
        }
        let r = StyleHooks { entries };
        proof {
            assert forall|k: Seq<char>| #[trigger] r@.dom().contains(k) <==> self@.dom().contains(k) by {
                if r@.dom().contains(k) {
                    let j = choose|j: int| 0 <= j < r.entries@.len() && #[trigger] r.entries@[j].0@ == k;
                    assert(self.entries@[j].0@ == k);
                }
                if self@.dom().contains(k) {
                    let j = choose|j: int| 0 <= j < self.entries@.len() && #[trigger] self.entries@[j].0@ == k;
                    assert(r.entries@[j].0@ == k);
                }
            }
            assert(r@.dom() =~= self@.dom());
            assert forall|k: Seq<char>| #[trigger] r@.contains_key(k) implies r@[k].len() == self@[k].len()
                && forall|m: int| 0 <= m < self@[k].len() ==> cloned::<H>(self@[k][m], #[trigger] r@[k][m]) by {
                let j = choose|j: int| 0 <= j < r.entries@.len() && #[trigger] r.entries@[j].0@ == k;
                r.lemma_index_of(j);
                self.lemma_index_of(j);
            }
        }
        r
    }
}

impl<H> Default for StyleHooks<H> {
    fn default() -> (r: Self)
        ensures
            r@ == Map::<Seq<char>, Seq<H>>::empty(),
    {
        StyleHooks::new()
    }
}

/// Unified options for JavaScript/TypeScript compilation and bundling. `H` is
/// the type of the style transform hooks: a function from a file path and a
/// style source to the transformed source or an error message.
pub struct JSMeldOptions<H> {
    /// JavaScript target version (e.g. "es5", "es2020", "esnext").
    pub target: String,
    /// Enable minification.
    pub minify: bool,
    /// Enable source maps.
    pub source_map: bool,
    /// Enable TypeScript support.
    pub typescript: bool,
    /// Module system (e.g. "commonjs", "esm").
    pub module: String,
    /// Enable strict mode.
    pub strict: bool,
    /// Enable code splitting.
    pub code_split: bool,
    /// External dependencies (won't be bundled).
    pub externals: Vec<String>,
    /// Style transform hooks keyed by file extension, executed in order when a
    /// style file is loaded during bundling.
    pub style_hooks: StyleHooks<H>,
    /// Optional output path for extracted bundled styles. When set during
    /// bundling, style imports are emitted into this CSS file instead of being
    /// injected into the JavaScript bundle at runtime.
    pub style_output: Option<String>,
}

impl<H: Clone> Clone for JSMeldOptions<H> {
    /// A copy of the options, each style hook cloned.
    fn clone(&self) -> (r: Self)
        ensures
            r.target == self.target,
            r.minify == self.minify,
            r.source_map == self.source_map,
            r.typescript == self.typescript,
            r.module == self.module,
            r.strict == self.strict,
            r.code_split == self.code_split,
            r.externals@ == self.externals@,
            hooks_cloned(self.style_hooks@, r.style_hooks@),
            r.style_output == self.style_output,
    {
        let externals = self.externals.clone();
        proof {
            assert forall|i: int| 0 <= i < externals@.len() implies externals@[i] == self.externals@[i] by {
                assert(cloned::<String>(self.externals@[i], externals@[i]));
            }
            assert(externals@ =~= self.externals@);
        }
        let style_output = match &self.style_output {
            Some(p) => Some(p.clone()),
            None => None,
        };
        JSMeldOptions {
            target: self.target.clone(),
            minify: self.minify,
            source_map: self.source_map,
            typescript: self.typescript,
            module: self.module.clone(),
            strict: self.strict,
            code_split: self.code_split,
            externals,
            style_hooks: self.style_hooks.clone(),
            style_output,
        }
    }
}

/// The default options: target "es6", no minification, source maps on,
/// TypeScript on, module "esm", strict mode on, no code splitting, no
/// externals, no style hooks, no style output.
pub open spec fn is_default_options<H>(o: JSMeldOptions<H>) -> bool {
    &&& o.target@ == "es6"@
    &&& !o.minify
    &&& o.source_map
    &&& o.typescript
    &&& o.module@ == "esm"@
    &&& o.strict
    &&& !o.code_split
    &&& o.externals@.len() == 0
    &&& o.style_hooks@ == Map::<Seq<char>, Seq<H>>::empty()
    &&& o.style_output is None
}

impl<H> Default for JSMeldOptions<H> {
    fn default() -> (r: Self)
        ensures
            is_default_options(r),
    {
        JSMeldOptions {
            target: String::from_str("es6"),
            minify: false,
            source_map: true,
            typescript: true,
            module: String::from_str("esm"),
            strict: true,
            code_split: false,
            externals: Vec::new(),
            style_hooks: StyleHooks::new(),
            style_output: None,
        }
    }
}

/// `"true"` or `"false"`.
pub open spec fn bool_text(b: bool) -> Seq<char> {
    if b {
        "true"@
    } else {
        "false"@
    }
}

fn bool_str(b: bool) -> (r: &'static str)
    ensures
        r@ == bool_text(b),
{
    if b {
        "true"
    } else {
        "false"
    }
}

/// The `{:?}` text of a list of strings.
pub open spec fn debug_list(items: Seq<String>) -> Seq<char> {
    "["@ + join(items.map_values(|p: String| debug_quoted(p@)), ", "@) + "]"@
}

/// The `{:?}` text of an optional string.
pub open spec fn debug_option(o: Option<String>) -> Seq<char> {
    match o {
        Some(p) => "Some("@ + debug_quoted(p@) + ")"@,
        None => "None"@,
    }
}

/// The text that describes options for debugging: every field in `{:?}`
/// form, the style hooks given only by how many extensions hold hooks.
pub open spec fn options_debug_text<H>(o: JSMeldOptions<H>) -> Seq<char> {
    "JSMeldOptions { target: "@ + debug_quoted(o.target@) + ", minify: "@ + bool_text(o.minify) + ", source_map: "@
        + bool_text(o.source_map) + ", typescript: "@ + bool_text(o.typescript) + ", module: "@ + debug_quoted(
        o.module@,
    ) + ", strict: "@ + bool_text(o.strict) + ", code_split: "@ + bool_text(o.code_split) + ", externals: "@
        + debug_list(o.externals@) + ", style_hooks: "@ + debug_quoted(
        "<"@ + decimal_digits(o.style_hooks@.dom().len()) + " extension(s)>"@,
    ) + ", style_output: "@ + debug_option(o.style_output) + " }"@
}

impl<H> JSMeldOptions<H> {
    /// The options as text for debugging, in the form `{:?}` gives a struct:
    /// every field, with the style hooks given only by how many extensions
    /// hold hooks.
    pub fn debug_text(&self) -> (r: String)
        ensures
            r@ == options_debug_text(*self),
    {
        let mut quoted: Vec<String> = Vec::new();
        let mut i: usize = 0;
        while i < self.externals.len()
            invariant
                i <= self.externals@.len(),
                quoted@.len() == i,
                forall|j: int| 0 <= j < i ==> #[trigger] quoted@[j]@ == debug_quoted(self.externals@[j]@),
            decreases self.externals.len() - i,
        {
            quoted.push(debug_str(self.externals[i].as_str()));
            i = i + 1;
        }
        let list = join_strings(&quoted, ", ");
        assert(quoted@.map_values(|p: String| p@) =~= self.externals@.map_values(|p: String| debug_quoted(p@)));
        let count = concat_str(concat_str("<", decimal_text(self.style_hooks.len()).as_str()).as_str(), " extension(s)>");
        let output = match &self.style_output {
            Some(p) => concat_str(concat_str("Some(", debug_str(p.as_str()).as_str()).as_str(), ")"),
            None => String::from_str("None"),
        };
        let mut r = String::from_str("JSMeldOptions { target: ");
        r.append(debug_str(self.target.as_str()).as_str());
        r.append(", minify: ");
        r.append(bool_str(self.minify));
        r.append(", source_map: ");
        r.append(bool_str(self.source_map));
        r.append(", typescript: ");
        r.append(bool_str(self.typescript));
        r.append(", module: ");
        r.append(debug_str(self.module.as_str()).as_str());
        r.append(", strict: ");
        r.append(bool_str(self.strict));
        r.append(", code_split: ");
        r.append(bool_str(self.code_split));
        r.append(", externals: ");
        r.append("[");
        r.append(list.as_str());
        r.append("]");
        r.append(", style_hooks: ");
        r.append(debug_str(count.as_str()).as_str());
        r.append(", style_output: ");
        r.append(output.as_str());
        r.append(" }");
        r
    }
}

/// The options that can be set by name, as the Python bindings accept them.
#[derive(Debug, Clone, Copy, PartialEq, Eq, Structural)]
pub enum OptionKey {
    Target,
    Minify,
    SourceMap,
    Typescript,
    Module,
    Strict,
    CodeSplit,
    Externals,
    StyleHooks,
    StyleOutput,
}

/// The option that a name selects, if any.
pub open spec fn option_key_named(name: Seq<char>) -> Option<OptionKey> {
    if name == "target"@ {
        Some(OptionKey::Target)
    } else if name == "minify"@ {
        Some(OptionKey::Minify)
    } else if name == "source_map"@ {
        Some(OptionKey::SourceMap)
    } else if name == "typescript"@ {
        Some(OptionKey::Typescript)
    } else if name == "module"@ {
        Some(OptionKey::Module)
    } else if name == "strict"@ {
        Some(OptionKey::Strict)
    } else if name == "code_split"@ {
        Some(OptionKey::CodeSplit)
    } else if name == "externals"@ {
        Some(OptionKey::Externals)
    } else if name == "style_hooks"@ {
        Some(OptionKey::StyleHooks)
    } else if name == "style_output"@ {
        Some(OptionKey::StyleOutput)
    } else {
        None
    }
}

/// The text of the error for an option name that selects no option.
pub open spec fn unknown_option_message(name: Seq<char>) -> Seq<char> {
    "Unknown option: '"@ + name + "'"@
}

/// Looks up an option by its name; an unknown name is a configuration error.
pub fn option_key(name: &str) -> (r: JSMeldResult<OptionKey>)
    ensures
        option_key_named(name@) matches Some(k) ==> r == Ok::<OptionKey, JSMeldError>(k),
        option_key_named(name@) is None ==> (r matches Err(JSMeldError::ConfigError(m))
            && m@ == unknown_option_message(name@)),
{
    if str_equal(name, "target") {
        Ok(OptionKey::Target)
    } else if str_equal(name, "minify") {
        Ok(OptionKey::Minify)
    } else if str_equal(name, "source_map") {
        Ok(OptionKey::SourceMap)
    } else if str_equal(name, "typescript") {
        Ok(OptionKey::Typescript)
    } else if str_equal(name, "module") {
        Ok(OptionKey::Module)
    } else if str_equal(name, "strict") {
        Ok(OptionKey::Strict)
    } else if str_equal(name, "code_split") {
        Ok(OptionKey::CodeSplit)
    } else if str_equal(name, "externals") {
        Ok(OptionKey::Externals)
    } else if str_equal(name, "style_hooks") {
        Ok(OptionKey::StyleHooks)
    } else if str_equal(name, "style_output") {
        Ok(OptionKey::StyleOutput)
    } else {
        let m = concat_str("Unknown option: '", name);
        Err(JSMeldError::ConfigError(concat_str(m.as_str(), "'")))
    }
}

/// A value for one of the plain (non-hook) options.
#[derive(Debug)]
pub enum OptionValue {
    Target(String),
    Minify(bool),
    SourceMap(bool),
    Typescript(bool),
    Module(String),
    Strict(bool),
    CodeSplit(bool),
    Externals(Vec<String>),
    StyleOutput(Option<String>),
}

/// The options `o` with the one field that `v` names set to `v`'s value.
pub open spec fn with_option<H>(o: JSMeldOptions<H>, v: OptionValue) -> JSMeldOptions<H> {
    match v {
        OptionValue::Target(t) => JSMeldOptions { target: t, ..o },
        OptionValue::Minify(b) => JSMeldOptions { minify: b, ..o },
        OptionValue::SourceMap(b) => JSMeldOptions { source_map: b, ..o },
        OptionValue::Typescript(b) => JSMeldOptions { typescript: b, ..o },
        OptionValue::Module(m) => JSMeldOptions { module: m, ..o },
        OptionValue::Strict(b) => JSMeldOptions { strict: b, ..o },
        OptionValue::CodeSplit(b) => JSMeldOptions { code_split: b, ..o },
        OptionValue::Externals(e) => JSMeldOptions { externals: e, ..o },
        OptionValue::StyleOutput(p) => JSMeldOptions { style_output: p, ..o },
    }
}

impl<H> JSMeldOptions<H> {
    /// Sets the one option that `value` names; the others keep their values.
    pub fn set_option(&mut self, value: OptionValue)
        ensures
            *final(self) == with_option(*old(self), value),
    {
        match value {
            OptionValue::Target(t) => self.target = t,
            OptionValue::Minify(b) => self.minify = b,
            OptionValue::SourceMap(b) => self.source_map = b,
            OptionValue::Typescript(b) => self.typescript = b,
            OptionValue::Module(m) => self.module = m,
            OptionValue::Strict(b) => self.strict = b,
            OptionValue::CodeSplit(b) => self.code_split = b,
            OptionValue::Externals(e) => self.externals = e,
            OptionValue::StyleOutput(p) => self.style_output = p,
        }
    }
}

/// The option that a value is for.
pub open spec fn value_key(v: OptionValue) -> OptionKey {
    match v {
        OptionValue::Target(_) => OptionKey::Target,
        OptionValue::Minify(_) => OptionKey::Minify,
        OptionValue::SourceMap(_) => OptionKey::SourceMap,
        OptionValue::Typescript(_) => OptionKey::Typescript,
        OptionValue::Module(_) => OptionKey::Module,
        OptionValue::Strict(_) => OptionKey::Strict,
        OptionValue::CodeSplit(_) => OptionKey::CodeSplit,
        OptionValue::Externals(_) => OptionKey::Externals,
        OptionValue::StyleOutput(_) => OptionKey::StyleOutput,
    }
}

/// The names of the fields in which the options `a` and `b` differ.
pub open spec fn differing_fields<H>(a: JSMeldOptions<H>, b: JSMeldOptions<H>) -> Set<Seq<char>> {
    Set::new(
        |n: Seq<char>|
            (n == "target"@ && a.target != b.target) || (n == "minify"@ && a.minify != b.minify) || (n
                == "source_map"@ && a.source_map != b.source_map) || (n == "typescript"@ && a.typescript
                != b.typescript) || (n == "module"@ && a.module != b.module) || (n == "strict"@ && a.strict
                != b.strict) || (n == "code_split"@ && a.code_split != b.code_split) || (n == "externals"@
                && a.externals != b.externals) || (n == "style_hooks"@ && a.style_hooks != b.style_hooks) || (n
                == "style_output"@ && a.style_output != b.style_output),
    )
}

/// The names of the options' fields.
pub open spec fn option_field_names() -> Set<Seq<char>> {
    set![
        "target"@,
        "minify"@,
        "source_map"@,
        "typescript"@,
        "module"@,
        "strict"@,
        "code_split"@,
        "externals"@,
        "style_hooks"@,
        "style_output"@,
    ]
}

/// Each option name selects the option of that name: every field's name
/// selects an option, no two names select the same option, and setting a
/// value for the option that a name selects (`set_option`) changes no field
/// but the one of that name.
pub proof fn lemma_option_names_select_their_fields<H>()
    ensures
        forall|n: Seq<char>| #[trigger] option_field_names().contains(n) ==> option_key_named(n) is Some,
        forall|n1: Seq<char>, n2: Seq<char>|
            #[trigger] option_key_named(n1) == #[trigger] option_key_named(n2) && option_key_named(n1) is Some
                ==> n1 == n2,
        forall|n: Seq<char>, v: OptionValue, o: JSMeldOptions<H>|
            #[trigger] option_key_named(n) == Some(value_key(v)) ==> differing_fields(
                o,
                #[trigger] with_option(o, v),
            ).subset_of(set![n]),
{
}

/// Lower-casing commutes with dropping leading dots, since `'.'` is its own
/// lower-case form.
proof fn lemma_trim_lowercase_commute(s: Seq<char>)
    ensures
        trim_leading_dots(ascii_lowercase(s)) == ascii_lowercase(trim_leading_dots(s)),
    decreases s.len(),
{
    if s.len() > 0 {
        assert(ascii_lowercase(s)[0] == crate::text::ascii_lower(s[0]));
        assert(ascii_lowercase(s).drop_first() =~= ascii_lowercase(s.drop_first()));
        if s[0] == '.' {
            lemma_trim_lowercase_commute(s.drop_first());
        } else {
            assert(ascii_lowercase(s)[0] != '.');
        }
    }
}

/// Lower-casing twice is lower-casing once.
proof fn lemma_lowercase_idempotent(s: Seq<char>)
    ensures
        ascii_lowercase(ascii_lowercase(s)) == ascii_lowercase(s),
{
    assert(ascii_lowercase(ascii_lowercase(s)) =~= ascii_lowercase(s));
}

/// A hook extension may be written with a leading dot: `".css"` and `"css"`
/// name the same hooks.
pub proof fn lemma_extension_leading_dot(extension: Seq<char>)
    ensures
        normalized_extension(seq!['.'] + extension) == normalized_extension(extension),
{
    let dotted = seq!['.'] + extension;
    assert(dotted.drop_first() =~= extension);
}

/// A hook extension's case does not matter: an extension and its lower-case
/// form name the same hooks.
pub proof fn lemma_extension_case(extension: Seq<char>)
    ensures
        normalized_extension(ascii_lowercase(extension)) == normalized_extension(extension),
{
    lemma_trim_lowercase_commute(extension);
    lemma_lowercase_idempotent(trim_leading_dots(extension));
}

/// Normalizing an extension twice is normalizing it once, so a normalized
/// key stays where it is.
pub proof fn lemma_extension_normalized_idempotent(extension: Seq<char>)
    ensures
        normalized_extension(normalized_extension(extension)) == normalized_extension(extension),
{
    let t = trim_leading_dots(extension);
    lemma_trim_lowercase_commute(t);
    lemma_trim_idempotent(extension);
    lemma_lowercase_idempotent(t);
}

/// Dropping leading dots twice is dropping them once.
proof fn lemma_trim_idempotent(s: Seq<char>)
    ensures
        trim_leading_dots(trim_leading_dots(s)) == trim_leading_dots(s),
    decreases s.len(),
{
    if s.len() > 0 && s[0] == '.' {
        lemma_trim_idempotent(s.drop_first());
    }
}

} // verus!
