//! User configuration and its defaults. Tables of the configuration file are
//! held as lists of (key, value) pairs, each key at most once.

use vstd::prelude::*;
use crate::event::SortField;
use crate::keymap::{
    bindings_view, parse_key_spec, spec_parse_key_spec, BindingView, KeyBinding, KeyContext,
};
use crate::paths::spec_expand_tilde;
use crate::text::{spec_parse_unsigned, str_eq, trim};

verus! {

#[derive(Debug, Clone)]
pub struct Config {
    pub general: GeneralConfig,
    pub ui: UiConfig,
    pub sort: SortConfig,
    pub preview: PreviewConfig,
    pub plugins: PluginConfig,
    pub keys: KeysConfig,
}

#[derive(Debug, Clone, Copy)]
pub struct GeneralConfig {
    pub show_hidden: bool,
    pub confirm_delete: bool,
    pub follow_symlinks: bool,
}

#[derive(Debug, Clone)]
pub struct UiConfig {
    pub tick_rate_ms: u64,
    pub show_icons: bool,
    pub show_permissions: bool,
    pub show_size: bool,
    pub show_modified: bool,
    pub pane_ratios: [u16; 3],
    pub theme: ThemeConfig,
}

#[derive(Debug, Clone)]
pub struct ThemeConfig {
    pub preset: String,
    pub custom: Vec<(String, String)>,
}

#[derive(Debug, Clone)]
pub struct SortConfig {
    pub field: String,
    pub ascending: bool,
    pub dirs_first: bool,
}

#[derive(Debug, Clone)]
pub struct PreviewConfig {
    pub enabled: bool,
    pub max_file_size: String,
    pub syntax_theme: String,
    pub image_protocol: String,
    pub tab_width: usize,
}

#[derive(Debug, Clone)]
pub struct PluginConfig {
    pub directory: String,
    pub enabled: Vec<String>,
}

#[derive(Debug, Clone)]
pub struct KeysConfig {
    pub normal: Vec<(String, String)>,
    pub visual: Vec<(String, String)>,
    pub search: Vec<(String, String)>,
    pub command: Vec<(String, String)>,
}

/// The (key, value) pairs of a table, as plain values.
pub open spec fn pairs_view(v: Seq<(String, String)>) -> Seq<(Seq<char>, Seq<char>)> {
    v.map_values(|p: (String, String)| (p.0@, p.1@))
}

/// No key occurs twice in a table.
pub open spec fn table_keys_distinct(v: Seq<(String, String)>) -> bool {
    forall|i: int, j: int| 0 <= i < j < v.len() ==> #[trigger] v[i].0@ != #[trigger] v[j].0@
}

impl KeysConfig {
    /// Each key table holds each key at most once.
    pub open spec fn wf(&self) -> bool {
        &&& table_keys_distinct(self.normal@)
        &&& table_keys_distinct(self.visual@)
        &&& table_keys_distinct(self.search@)
        &&& table_keys_distinct(self.command@)
    }
}

pub fn default_true() -> (r: bool)
    ensures
        r,
{
    true
}

pub fn default_tick_rate() -> (r: u64)
    ensures
        r == 100,
{
    100
}

pub fn default_pane_ratios() -> (r: [u16; 3])
    ensures
        r@ == seq![1u16, 3u16, 2u16],
{
    [1, 3, 2]
}

pub fn default_theme_preset() -> (r: String)
    ensures
        r@ == "default"@,
{
    "default".to_owned()
}

pub fn default_sort_field() -> (r: String)
    ensures
        r@ == "name"@,
{
    "name".to_owned()
}

pub fn default_max_file_size() -> (r: String)
    ensures
        r@ == "10MB"@,
{
    "10MB".to_owned()
}

pub fn default_syntax_theme() -> (r: String)
    ensures
        r@ == "base16-ocean.dark"@,
{
    "base16-ocean.dark".to_owned()
}

pub fn default_image_protocol() -> (r: String)
    ensures
        r@ == "kitty"@,
{
    "kitty".to_owned()
}

pub fn default_tab_width() -> (r: usize)
    ensures
        r == 4,
{
    4
}

pub fn default_plugin_dir() -> (r: String)
    ensures
        r@ == "~/.config/kite/plugins"@,
{
    "~/.config/kite/plugins".to_owned()
}

impl Default for GeneralConfig {
    fn default() -> (r: Self)
        ensures
            !r.show_hidden,
            r.confirm_delete,
            r.follow_symlinks,
    {
        GeneralConfig { show_hidden: false, confirm_delete: true, follow_symlinks: true }
    }
}

impl Default for ThemeConfig {
    fn default() -> (r: Self)
        ensures
            r.preset@ == "default"@,
            r.custom@.len() == 0,
    {
        ThemeConfig { preset: default_theme_preset(), custom: Vec::new() }
    }
}

impl Default for UiConfig {
    fn default() -> (r: Self)
        ensures
            r.tick_rate_ms == 100,
            r.show_icons,
            r.show_permissions,
            r.show_size,
            r.show_modified,
            r.pane_ratios@ == seq![1u16, 3u16, 2u16],
            r.theme.preset@ == "default"@,
            r.theme.custom@.len() == 0,
    {
        UiConfig {
            tick_rate_ms: 100,
            show_icons: true,
            show_permissions: true,
            show_size: true,
            show_modified: true,
            pane_ratios: [1, 3, 2],
            theme: ThemeConfig::default(),
        }
    }
}

impl Default for SortConfig {
    fn default() -> (r: Self)
        ensures
            r.field@ == "name"@,
            r.ascending,
            r.dirs_first,
    {
        SortConfig { field: default_sort_field(), ascending: true, dirs_first: true }
    }
}

impl Default for PreviewConfig {
    fn default() -> (r: Self)
        ensures
            r.enabled,
            r.max_file_size@ == "10MB"@,
            r.syntax_theme@ == "base16-ocean.dark"@,
            r.image_protocol@ == "kitty"@,
            r.tab_width == 4,
    {
        PreviewConfig {
            enabled: true,
            max_file_size: default_max_file_size(),
            syntax_theme: default_syntax_theme(),
            image_protocol: default_image_protocol(),
            tab_width: 4,
        }
    }
}

impl Default for PluginConfig {
    fn default() -> (r: Self)
        ensures
            r.directory@ == "~/.config/kite/plugins"@,
            r.enabled@.len() == 0,
    {
        PluginConfig { directory: default_plugin_dir(), enabled: Vec::new() }
    }
}

impl Default for KeysConfig {
    fn default() -> (r: Self)
        ensures
            r.wf(),
            r.normal@.len() == 0,
            r.visual@.len() == 0,
            r.search@.len() == 0,
            r.command@.len() == 0,
    {
        KeysConfig { normal: Vec::new(), visual: Vec::new(), search: Vec::new(), command: Vec::new() }
    }
}

impl Default for Config {
    fn default() -> (r: Self)
        ensures
            !r.general.show_hidden && r.general.confirm_delete && r.general.follow_symlinks,
            r.ui.tick_rate_ms == 100 && r.ui.show_icons && r.ui.show_permissions && r.ui.show_size
                && r.ui.show_modified,
            r.ui.pane_ratios@ == seq![1u16, 3u16, 2u16],
            r.ui.theme.preset@ == "default"@ && r.ui.theme.custom@.len() == 0,
            r.sort.field@ == "name"@ && r.sort.ascending && r.sort.dirs_first,
            r.preview.enabled && r.preview.max_file_size@ == "10MB"@,
            r.preview.syntax_theme@ == "base16-ocean.dark"@,
            r.preview.image_protocol@ == "kitty"@ && r.preview.tab_width == 4,
            r.plugins.directory@ == "~/.config/kite/plugins"@ && r.plugins.enabled@.len() == 0,
            r.keys.wf(),
            r.keys.normal@.len() == 0 && r.keys.visual@.len() == 0 && r.keys.search@.len() == 0
                && r.keys.command@.len() == 0,
    {
        Config {
            general: GeneralConfig::default(),
            ui: UiConfig::default(),
            sort: SortConfig::default(),
            preview: PreviewConfig::default(),
            plugins: PluginConfig::default(),
            keys: KeysConfig::default(),
        }
    }
}

/// The sort field a configured field name selects; unknown names select the
/// name field.
pub open spec fn spec_sort_field(name: Seq<char>) -> SortField {
    if name == "size"@ {
        SortField::Size
    } else if name == "modified"@ {
        SortField::Modified
    } else if name == "extension"@ {
        SortField::Extension
    } else {
        SortField::Name
    }
}

impl SortConfig {
    pub fn sort_field(&self) -> (r: SortField)
        ensures
            r == spec_sort_field(self.field@),
    {
        let f = self.field.as_str();
        if str_eq(f, "size") {
            SortField::Size
        } else if str_eq(f, "modified") {
            SortField::Modified
        } else if str_eq(f, "extension") {
            SortField::Extension
        } else {
            SortField::Name
        }
    }
}

pub open spec fn unwrap_or_nat(o: Option<nat>, d: nat) -> nat {
    match o {
        Some(v) => v,
        None => d,
    }
}

/// `s` ends with the two characters `a` and `b`.
pub open spec fn ends_with2(s: Seq<char>, a: char, b: char) -> bool {
    s.len() >= 2 && s[s.len() - 2] == a && s[s.len() - 1] == b
}

/// The byte limit a size setting such as `10MB`, `512KB` or `1048576` denotes.
/// A number that does not parse falls back to ten megabytes in the same unit.
pub open spec fn spec_max_file_size(setting: Seq<char>) -> nat {
    let t = trim(setting);
    if ends_with2(t, 'M', 'B') {
        unwrap_or_nat(spec_parse_unsigned(trim(t.take(t.len() - 2)), u64::MAX as nat), 10)
            * 1024 * 1024
    } else if ends_with2(t, 'K', 'B') {
        unwrap_or_nat(spec_parse_unsigned(trim(t.take(t.len() - 2)), u64::MAX as nat), 10240)
            * 1024
    } else {
        unwrap_or_nat(spec_parse_unsigned(t, u64::MAX as nat), 10485760)
    }
}

fn parse_or(s: &[char], d: u64) -> (r: u64)
    ensures
        r == unwrap_or_nat(spec_parse_unsigned(s@, u64::MAX as nat), d as nat),
{
    match crate::text::parse_unsigned(s, u64::MAX) {
        Some(v) => v,
        None => d,
    }
}

impl PreviewConfig {
    /// The largest file size to preview, in bytes.
    pub fn max_file_size_bytes(&self) -> (r: u64)
        requires
            spec_max_file_size(self.max_file_size@) <= u64::MAX,
        ensures
            r == spec_max_file_size(self.max_file_size@),
    {
        let chars = crate::text::chars_of(self.max_file_size.as_str());
        let t = crate::text::trim_chars(chars.as_slice());
        let n = t.len();
        if n >= 2 && t[n - 2] == 'M' && t[n - 1] == 'B' {
            let num = crate::text::trim_chars(t.as_slice().split_at(n - 2).0);
            let v = parse_or(num.as_slice(), 10);
            v * 1024 * 1024
        } else if n >= 2 && t[n - 2] == 'K' && t[n - 1] == 'B' {
            let num = crate::text::trim_chars(t.as_slice().split_at(n - 2).0);
            let v = parse_or(num.as_slice(), 10240);
            v * 1024
        } else {
            parse_or(t.as_slice(), 10485760)
        }
    }
}

impl PluginConfig {
    /// The plugin directory, with a leading `~/` expanded against the home
    /// directory (when one is known).
    pub fn plugin_dir(&self) -> (r: String)
        ensures
            exists|home: Option<Seq<char>>| r@ == spec_expand_tilde(self.directory@, home),
    {
        crate::paths::shellexpand(self.directory.as_str())
    }
}

/// The bindings made from a key table: one per entry whose key specification
/// parses, in table order.
pub open spec fn bindings_from_table(pairs: Seq<(Seq<char>, Seq<char>)>, ctx: KeyContext) -> Seq<
    BindingView,
>
    decreases pairs.len(),
{
    if pairs.len() == 0 {
        Seq::empty()
    } else {
        let prev = bindings_from_table(pairs.drop_last(), ctx);
        match spec_parse_key_spec(pairs.last().0) {
            Some(key) => prev.push(
                BindingView { key, command: pairs.last().1, context: ctx, description: Seq::empty() },
            ),
            None => prev,
        }
    }
}

/// All bindings the configuration's key tables define, table by table.
pub open spec fn spec_user_bindings(keys: KeysConfig) -> Seq<BindingView> {
    bindings_from_table(pairs_view(keys.normal@), KeyContext::Normal) + bindings_from_table(
        pairs_view(keys.visual@),
        KeyContext::Visual,
    ) + bindings_from_table(pairs_view(keys.search@), KeyContext::Search) + bindings_from_table(
        pairs_view(keys.command@),
        KeyContext::Command,
    )
}

pub(crate) fn append_table_bindings(out: &mut Vec<KeyBinding>, table: &Vec<(String, String)>, ctx: KeyContext)
    ensures
        bindings_view(final(out)@) == bindings_view(old(out)@) + bindings_from_table(
            pairs_view(table@),
            ctx,
        ),
{
    let ghost pv = pairs_view(table@);
    let mut i: usize = 0;
    while i < table.len()
        invariant
            i <= table.len(),
            pv == pairs_view(table@),
            bindings_view(out@) == bindings_view(old(out)@) + bindings_from_table(
                pv.take(i as int),
                ctx,
            ),
        decreases table.len() - i,
    {
        let entry = &table[i];
        assert(pv.take(i + 1).drop_last() == pv.take(i as int));
        assert(pv.take(i + 1).last() == (entry.0@, entry.1@));
        if let Some(key) = parse_key_spec(entry.0.as_str()) {
            let ghost before = bindings_view(out@);
            out.push(
                KeyBinding {
                    key,
                    command: entry.1.clone(),
                    context: ctx,
                    description: String::new(),
                },
            );
            let ghost nv = BindingView {
                key,
                command: entry.1@,
                context: ctx,
                description: Seq::empty(),
            };
            assert(bindings_view(out@) =~= before.push(nv));
            assert(bindings_from_table(pv.take(i + 1), ctx) == bindings_from_table(
                pv.take(i as int),
                ctx,
            ).push(nv));
            assert(bindings_view(out@) =~= bindings_view(old(out)@) + bindings_from_table(
                pv.take(i + 1),
                ctx,
            ));
        }
        i = i + 1;
    }
    assert(pv.take(table.len() as int) == pv);
}

impl Config {
    /// The key bindings the user configured, one per parsable key
    /// specification.
    pub fn user_key_bindings(&self) -> (r: Vec<KeyBinding>)
        ensures
            bindings_view(r@) == spec_user_bindings(self.keys),
    {
        let mut bindings: Vec<KeyBinding> = Vec::new();
        append_table_bindings(&mut bindings, &self.keys.normal, KeyContext::Normal);
        append_table_bindings(&mut bindings, &self.keys.visual, KeyContext::Visual);
        append_table_bindings(&mut bindings, &self.keys.search, KeyContext::Search);
        append_table_bindings(&mut bindings, &self.keys.command, KeyContext::Command);
        assert(bindings_view(bindings@) =~= spec_user_bindings(self.keys));
        bindings
    }
}

} // verus!
