//! Plugins: their manifests and errors, the registry of plugin commands, and
//! the decisions the plugin manager makes (which plugins load, where a
//! command goes, which key bindings scripts add).

use vstd::prelude::*;
use crate::error::joined;
use crate::config::{append_table_bindings, bindings_from_table, pairs_view};
use crate::keymap::{bindings_view, BindingView, KeyBinding, KeyContext};
use crate::text::{str_eq, strings_view};

verus! {

#[derive(Debug, Clone)]
pub struct PluginManifest {
    pub name: String,
    pub version: String,
    pub author: String,
    pub description: String,
}

/// A file operation a plugin may be asked about before it runs.
#[derive(Debug, Clone)]
pub enum FileOperation {
    Copy { sources: Vec<String>, dest: String },
    Move { sources: Vec<String>, dest: String },
    Delete { targets: Vec<String> },
    Rename { from: String, to: String },
}

#[derive(Debug, Clone)]
pub enum OperationDecision {
    Allow,
    Deny(String),
}

#[derive(Debug)]
pub enum PluginError {
    InitFailed(String),
    CommandNotFound(String),
    ExecutionError(String),
}

/// The text an error is shown with.
pub open spec fn plugin_error_text(e: PluginError) -> Seq<char> {
    match e {
        PluginError::InitFailed(m) => "Plugin initialization failed: "@ + m@,
        PluginError::CommandNotFound(m) => "Command not found: "@ + m@,
        PluginError::ExecutionError(m) => "Execution error: "@ + m@,
    }
}

impl PluginError {
    /// The text the error is shown with.
    pub fn message(&self) -> (r: String)
        ensures
            r@ == plugin_error_text(*self),
    {
        match self {
            PluginError::InitFailed(m) => joined("Plugin initialization failed: ", m.as_str()),
            PluginError::CommandNotFound(m) => joined("Command not found: ", m.as_str()),
            PluginError::ExecutionError(m) => joined("Execution error: ", m.as_str()),
        }
    }
}

/// Where a plugin command is carried out: a native plugin (by its position
/// among the loaded ones) or the Lua runtime.
#[derive(Debug, Clone, Copy, PartialEq, Eq, Structural)]
pub enum PluginSource {
    Native(usize),
    Lua,
}

/// The plugin commands by name; registering a name again replaces it.
pub struct CommandRegistry {
    entries: Vec<(String, PluginSource)>,
}

pub open spec fn registry_entries_view(v: Seq<(String, PluginSource)>) -> Seq<(Seq<char>, PluginSource)> {
    v.map_values(|e: (String, PluginSource)| (e.0@, e.1))
}

/// The map a list of distinct names describes.
pub open spec fn registry_map(s: Seq<(Seq<char>, PluginSource)>) -> Map<Seq<char>, PluginSource>
    decreases s.len(),
{
    if s.len() == 0 {
        Map::empty()
    } else {
        registry_map(s.drop_last()).insert(s.last().0, s.last().1)
    }
}

proof fn lemma_registry_map_lookup(s: Seq<(Seq<char>, PluginSource)>, i: int)
    requires
        0 <= i < s.len(),
        forall|a: int, b: int| 0 <= a < b < s.len() ==> #[trigger] s[a].0 != #[trigger] s[b].0,
    ensures
        registry_map(s).contains_key(s[i].0),
        registry_map(s)[s[i].0] == s[i].1,
    decreases s.len(),
{
    if i < s.len() - 1 {
        lemma_registry_map_lookup(s.drop_last(), i);
        assert(s.drop_last()[i] == s[i]);
    }
}

proof fn lemma_registry_map_absent(s: Seq<(Seq<char>, PluginSource)>, k: Seq<char>)
    requires
        forall|a: int| 0 <= a < s.len() ==> #[trigger] s[a].0 != k,
    ensures
        !registry_map(s).contains_key(k),
    decreases s.len(),
{
    if s.len() > 0 {
        lemma_registry_map_absent(s.drop_last(), k);
    }
}

impl View for CommandRegistry {
    type V = Map<Seq<char>, PluginSource>;

    closed spec fn view(&self) -> Map<Seq<char>, PluginSource> {
        registry_map(registry_entries_view(self.entries@))
    }
}

impl CommandRegistry {
    /// No name is registered twice.
    pub closed spec fn wf(&self) -> bool {
        let s = registry_entries_view(self.entries@);
        forall|a: int, b: int| 0 <= a < b < s.len() ==> #[trigger] s[a].0 != #[trigger] s[b].0
    }

    pub fn new() -> (r: Self)
        ensures
            r.wf(),
            r@ == Map::<Seq<char>, PluginSource>::empty(),
    {
        let r = CommandRegistry { entries: Vec::new() };
        assert(registry_entries_view(r.entries@) =~= Seq::empty());
        r
    }

    fn find(&self, name: &str) -> (r: Option<usize>)
        requires
            self.wf(),
        ensures
            match r {
                Some(i) => i < self.entries@.len() && self.entries@[i as int].0@ == name@,
                None => forall|a: int|
                    0 <= a < self.entries@.len() ==> #[trigger] self.entries@[a].0@ != name@,
            },
    {
        let mut i: usize = 0;
        while i < self.entries.len()
            invariant
                i <= self.entries@.len(),
                forall|a: int| 0 <= a < i ==> #[trigger] self.entries@[a].0@ != name@,
            decreases self.entries.len() - i,
        {
            if str_eq(self.entries[i].0.as_str(), name) {
                return Some(i);
            }
            i = i + 1;
        }
        None
    }

    /// Where the command `name` is carried out, if it is registered.
    pub fn get(&self, name: &str) -> (r: Option<PluginSource>)
        requires
            self.wf(),
        ensures
            r == (if self@.contains_key(name@) {
                Some(self@[name@])
            } else {
                None
            }),
    {
        let ghost s = registry_entries_view(self.entries@);
        match self.find(name) {
            Some(i) => {
                proof {
                    assert(s[i as int].0 == name@);
                    lemma_registry_map_lookup(s, i as int);
                }
                Some(self.entries[i].1)
            },
            None => {
                proof {
                    assert forall|a: int| 0 <= a < s.len() implies #[trigger] s[a].0 != name@ by {
                        assert(self.entries@[a].0@ != name@);
                    }
                    lemma_registry_map_absent(s, name@);
                }
                None
            },
        }
    }

    pub fn contains(&self, name: &str) -> (r: bool)
        requires
            self.wf(),
        ensures
            r == self@.contains_key(name@),
    {
        self.get(name).is_some()
    }

    /// Registers `name`, replacing what it was registered to.
    pub fn insert(&mut self, name: String, source: PluginSource)
        requires
            old(self).wf(),
        ensures
            final(self).wf(),
            final(self)@ == old(self)@.insert(name@, source),
    {
        let ghost s = registry_entries_view(self.entries@);
        let ghost nv = name@;
        match self.find(name.as_str()) {
            Some(i) => {
                self.entries.set(i, (name, source));
                proof {
                    let t = registry_entries_view(self.entries@);
                    assert(t =~= s.update(i as int, (nv, source)));
                    assert forall|a: int, b: int| 0 <= a < b < t.len() implies #[trigger] t[a].0
                        != #[trigger] t[b].0 by {
                        assert(t[a].0 == s[a].0 && t[b].0 == s[b].0);
                    }
                    assert(registry_map(t) =~= registry_map(s).insert(nv, source)) by {
                        assert forall|k: Seq<char>| #[trigger]
                            registry_map(t).contains_key(k) == registry_map(s).insert(
                                nv,
                                source,
                            ).contains_key(k) && (registry_map(t).contains_key(k)
                            ==> registry_map(t)[k] == registry_map(s).insert(nv, source)[k]) by {
                            assert(s[i as int].0 == nv);
                            if exists|a: int| 0 <= a < t.len() && t[a].0 == k {
                                let a = choose|a: int| 0 <= a < t.len() && t[a].0 == k;
                                lemma_registry_map_lookup(t, a);
                                lemma_registry_map_lookup(s, a);
                                if a != i {
                                    assert(s[a].0 != s[i as int].0);
                                }
                            } else {
                                assert forall|a: int| 0 <= a < s.len() implies #[trigger] s[a].0
                                    != k by {
                                    assert(t[a].0 == s[a].0);
                                }
                                lemma_registry_map_absent(t, k);
                                lemma_registry_map_absent(s, k);
                            }
                        }
                    }
                }
            },
            None => {
                self.entries.push((name, source));
                proof {
                    let t = registry_entries_view(self.entries@);
                    assert(t =~= s.push((nv, source)));
                    assert(t.drop_last() =~= s);
                    assert forall|a: int, b: int| 0 <= a < b < t.len() implies #[trigger] t[a].0
                        != #[trigger] t[b].0 by {
                        if b == t.len() - 1 {
                            assert(self.entries@[a].0@ != nv);
                        }
                    }
                }
            },
        }
    }

    /// Forgets every command.
    pub fn clear(&mut self)
        ensures
            final(self).wf(),
            final(self)@ == Map::<Seq<char>, PluginSource>::empty(),
    {
        self.entries.clear();
        assert(registry_entries_view(self.entries@) =~= Seq::empty());
    }
}

/// A command registered under a name is found under that name, going to
/// where it was last registered; other names keep what they had.
pub proof fn law_registry_read_after_write(
    m: Map<Seq<char>, PluginSource>,
    name: Seq<char>,
    source: PluginSource,
    other: Seq<char>,
)
    requires
        other != name,
    ensures
        m.insert(name, source).contains_key(name),
        m.insert(name, source)[name] == source,
        m.insert(name, source).contains_key(other) == m.contains_key(other),
        m.contains_key(other) ==> m.insert(name, source)[other] == m[other],
{
}

/// The plugin name a native library's file stem stands for: the stem without
/// a leading `lib`.
pub open spec fn spec_native_plugin_name(stem: Seq<char>) -> Seq<char> {
    if stem.len() >= 3 && stem.take(3) == "lib"@ {
        stem.skip(3)
    } else {
        stem
    }
}

pub fn native_plugin_name(stem: &str) -> (r: String)
    ensures
        r@ == spec_native_plugin_name(stem@),
{
    let chars = crate::text::chars_of(stem);
    proof {
        reveal_strlit("lib");
    }
    if chars.len() >= 3 && chars[0] == 'l' && chars[1] == 'i' && chars[2] == 'b' {
        assert(chars@.take(3) =~= "lib"@);
        let mut s = String::new();
        let mut k: usize = 3;
        while k < chars.len()
            invariant
                3 <= k <= chars@.len(),
                s@ == chars@.subrange(3, k as int),
            decreases chars.len() - k,
        {
            crate::text::string_push(&mut s, chars[k]);
            k = k + 1;
            assert(s@ =~= chars@.subrange(3, k as int));
        }
        assert(s@ =~= stem@.skip(3));
        s
    } else {
        proof {
            assert("lib"@ =~= seq!['l', 'i', 'b']);
            if chars@.len() >= 3 && chars@.take(3) == "lib"@ {
                assert(chars@.take(3)[0] == 'l' && chars@.take(3)[1] == 'i' && chars@.take(3)[2]
                    == 'b');
                assert(false);
            }
        }
        stem.to_owned()
    }
}

/// The positions, in order, of the files (extension, stem) of a plugin
/// directory that load: those with extension `ext` whose plugin name (the
/// stem, without a leading `lib` when `strip_lib`) is enabled.
pub open spec fn load_positions(
    files: Seq<(Seq<char>, Seq<char>)>,
    ext: Seq<char>,
    enabled: Seq<Seq<char>>,
    strip_lib: bool,
) -> Seq<usize>
    decreases files.len(),
{
    if files.len() == 0 {
        Seq::empty()
    } else {
        let prev = load_positions(files.drop_last(), ext, enabled, strip_lib);
        let f = files.last();
        let name = if strip_lib {
            spec_native_plugin_name(f.1)
        } else {
            f.1
        };
        if f.0 == ext && enabled.contains(name) {
            prev.push((files.len() - 1) as usize)
        } else {
            prev
        }
    }
}

pub open spec fn files_view(v: Seq<(String, String)>) -> Seq<(Seq<char>, Seq<char>)> {
    v.map_values(|f: (String, String)| (f.0@, f.1@))
}

/// Which files of a plugin directory load, given each file's (extension,
/// stem): native libraries have extension `ext` and are named by their stem
/// without a leading `lib` (`strip_lib`), scripts by their stem; either loads
/// only when enabled.
pub fn load_plan(files: &Vec<(String, String)>, ext: &str, enabled: &Vec<String>, strip_lib: bool) -> (r:
    Vec<usize>)
    ensures
        r@ == load_positions(files_view(files@), ext@, strings_view(enabled@), strip_lib),
{
    let ghost fv = files_view(files@);
    let mut r: Vec<usize> = Vec::new();
    let mut k: usize = 0;
    while k < files.len()
        invariant
            k <= files@.len(),
            fv == files_view(files@),
            r@ == load_positions(fv.take(k as int), ext@, strings_view(enabled@), strip_lib),
        decreases files.len() - k,
    {
        let f = &files[k];
        assert(fv.take(k + 1).drop_last() =~= fv.take(k as int));
        assert(fv.take(k + 1).last() == (f.0@, f.1@));
        let name = if strip_lib {
            native_plugin_name(f.1.as_str())
        } else {
            f.1.clone()
        };
        if str_eq(f.0.as_str(), ext) && is_enabled(enabled, name.as_str()) {
            r.push(k);
        }
        k = k + 1;
    }
    assert(fv.take(files.len() as int) =~= fv);
    r
}

/// A plugin loads only when the configuration enables it by name.
pub fn is_enabled(enabled: &Vec<String>, name: &str) -> (r: bool)
    ensures
        r == strings_view(enabled@).contains(name@),
{
    let mut i: usize = 0;
    while i < enabled.len()
        invariant
            i <= enabled@.len(),
            forall|a: int| 0 <= a < i ==> #[trigger] enabled@[a]@ != name@,
        decreases enabled.len() - i,
    {
        if str_eq(enabled[i].as_str(), name) {
            assert(strings_view(enabled@)[i as int] == name@);
            return true;
        }
        i = i + 1;
    }
    assert forall|a: int| 0 <= a < strings_view(enabled@).len() implies strings_view(enabled@)[a]
        != name@ by {
        assert(enabled@[a]@ != name@);
    }
    false
}

/// Where a plugin command goes.
#[derive(Debug, Clone, Copy, PartialEq, Eq, Structural)]
pub enum Dispatch {
    Native(usize),
    Lua,
    NotFound,
}

/// A registered command goes to its native plugin when that plugin is loaded
/// and enabled, or to the Lua runtime when there is one; otherwise it is not
/// found.
pub open spec fn spec_dispatch(
    commands: Map<Seq<char>, PluginSource>,
    native_enabled: Seq<bool>,
    has_lua: bool,
    name: Seq<char>,
) -> Dispatch {
    if commands.contains_key(name) {
        match commands[name] {
            PluginSource::Native(i) => if i < native_enabled.len() && native_enabled[i as int] {
                Dispatch::Native(i)
            } else {
                Dispatch::NotFound
            },
            PluginSource::Lua => if has_lua {
                Dispatch::Lua
            } else {
                Dispatch::NotFound
            },
        }
    } else {
        Dispatch::NotFound
    }
}

pub fn dispatch(commands: &CommandRegistry, native_enabled: &Vec<bool>, has_lua: bool, name: &str) -> (r:
    Dispatch)
    requires
        commands.wf(),
    ensures
        r == spec_dispatch(commands@, native_enabled@, has_lua, name@),
{
    match commands.get(name) {
        Some(PluginSource::Native(i)) => {
            if i < native_enabled.len() && native_enabled[i] {
                Dispatch::Native(i)
            } else {
                Dispatch::NotFound
            }
        },
        Some(PluginSource::Lua) => {
            if has_lua {
                Dispatch::Lua
            } else {
                Dispatch::NotFound
            }
        },
        None => Dispatch::NotFound,
    }
}

/// The key bindings scripts registered as (key specification, command)
/// pairs: one in normal mode for each specification that parses.
pub fn script_key_bindings(pairs: &Vec<(String, String)>) -> (r: Vec<KeyBinding>)
    ensures
        bindings_view(r@) == bindings_from_table(pairs_view(pairs@), KeyContext::Normal),
{
    let mut r: Vec<KeyBinding> = Vec::new();
    append_table_bindings(&mut r, pairs, KeyContext::Normal);
    assert(bindings_view(r@) =~= bindings_from_table(pairs_view(pairs@), KeyContext::Normal));
    r
}

} // verus!
