use kite::config::{
    default_image_protocol, default_max_file_size, default_pane_ratios, default_plugin_dir,
    default_sort_field, default_syntax_theme, default_tab_width, default_theme_preset,
    default_tick_rate, default_true, Config, PreviewConfig, SortConfig,
};
use kite::event::{AppCommand, SortField};
use kite::keymap::{
    command_to_app_command, default_keymap, parse_key_spec, KeyBinding, KeyCombo, KeyContext,
    KeyInput, Keymap, KeymapResult, Modifiers, RawKeyCode, SerializableKeyCode,
};

fn plain(c: char) -> KeyCombo {
    KeyCombo { code: SerializableKeyCode::Char(c), modifiers: Modifiers::default() }
}

fn ctrl(c: char) -> KeyCombo {
    KeyCombo {
        code: SerializableKeyCode::Char(c),
        modifiers: Modifiers { ctrl: true, alt: false, shift: false },
    }
}

#[test]
fn parse_key_specs() {
    assert_eq!(parse_key_spec("j"), Some(plain('j')));
    assert_eq!(parse_key_spec("ctrl+d"), Some(ctrl('d')));
    assert_eq!(
        parse_key_spec("Ctrl+Shift+Up"),
        Some(KeyCombo {
            code: SerializableKeyCode::Up,
            modifiers: Modifiers { ctrl: true, alt: false, shift: true },
        })
    );
    assert_eq!(
        parse_key_spec("space"),
        Some(KeyCombo { code: SerializableKeyCode::Space, modifiers: Modifiers::default() })
    );
    assert_eq!(
        parse_key_spec("f5"),
        Some(KeyCombo { code: SerializableKeyCode::F(5), modifiers: Modifiers::default() })
    );
    assert_eq!(parse_key_spec("nonsense"), None);
    assert_eq!(parse_key_spec(""), None);
}

#[test]
fn command_names_map_to_commands() {
    assert!(matches!(command_to_app_command("cursor_down"), Some(AppCommand::CursorDown)));
    assert!(matches!(command_to_app_command("confirm"), Some(AppCommand::ConfirmInput)));
    match command_to_app_command("git_status") {
        Some(AppCommand::PluginCommand { plugin, command, args }) => {
            assert_eq!(plugin, "");
            assert_eq!(command, "git_status");
            assert!(args.is_empty());
        }
        other => panic!("unexpected {:?}", other),
    }
}

#[test]
fn default_keymap_resolves() {
    let km = default_keymap();
    assert_eq!(km.resolve(&plain('j'), &KeyContext::Normal), Some("cursor_down"));
    assert_eq!(km.resolve(&plain('j'), &KeyContext::Visual), Some("cursor_down"));
    assert_eq!(km.resolve(&plain('q'), &KeyContext::Visual), None);
    assert_eq!(km.resolve(&ctrl('c'), &KeyContext::Search), Some("force_quit"));
    assert_eq!(km.resolve(&plain('z'), &KeyContext::Normal), None);
}

#[test]
fn gg_sequence_goes_to_top() {
    let mut km = default_keymap();
    assert!(matches!(km.feed_key_at(plain('g'), &KeyContext::Normal, 1_000), KeymapResult::Pending));
    match km.feed_key_at(plain('g'), &KeyContext::Normal, 2_000) {
        KeymapResult::Command(c) => assert_eq!(c, "cursor_top"),
        other => panic!("unexpected {:?}", other),
    }
}

#[test]
fn sequence_times_out() {
    let mut km = default_keymap();
    assert!(matches!(km.feed_key_at(plain('g'), &KeyContext::Normal, 0), KeymapResult::Pending));
    assert!(matches!(
        km.feed_key_at(plain('g'), &KeyContext::Normal, 600_000_000),
        KeymapResult::Pending
    ));
    match km.feed_key_at(plain('j'), &KeyContext::Normal, 600_000_001) {
        KeymapResult::Command(c) => assert_eq!(c, "cursor_down"),
        other => panic!("unexpected {:?}", other),
    }
}

#[test]
fn unbound_key_is_unhandled_and_sequence_cleared() {
    let mut km = default_keymap();
    assert!(matches!(km.feed_key_at(plain('g'), &KeyContext::Normal, 0), KeymapResult::Pending));
    km.clear_sequence();
    assert!(matches!(km.feed_key_at(plain('z'), &KeyContext::Normal, 1), KeymapResult::Unhandled));
}

#[test]
fn registered_sequence_and_real_clock() {
    let mut km = Keymap::new(Vec::new());
    km.register_sequence(vec![plain('d'), plain('d')], "delete".to_string());
    assert!(matches!(km.feed_key(plain('d'), &KeyContext::Normal), KeymapResult::Pending));
    match km.feed_key(plain('d'), &KeyContext::Normal) {
        KeymapResult::Command(c) => assert_eq!(c, "delete"),
        other => panic!("unexpected {:?}", other),
    }
}

#[test]
fn user_binding_replaces_default() {
    let mut km = default_keymap();
    km.merge_user_config(vec![KeyBinding {
        key: plain('j'),
        command: "page_down".to_string(),
        context: KeyContext::Normal,
        description: String::new(),
    }]);
    assert_eq!(km.resolve(&plain('j'), &KeyContext::Normal), Some("page_down"));
    assert_eq!(km.resolve(&plain('j'), &KeyContext::Visual), Some("cursor_down"));
}

#[test]
fn global_binding_still_shadows_user_binding() {
    let mut km = default_keymap();
    km.merge_user_config(vec![KeyBinding {
        key: ctrl('c'),
        command: "quit".to_string(),
        context: KeyContext::Normal,
        description: String::new(),
    }]);
    assert_eq!(km.resolve(&ctrl('c'), &KeyContext::Normal), Some("force_quit"));
}

#[test]
fn key_input_conversion() {
    let k = KeyInput { code: RawKeyCode::Char('G'), ctrl: false, alt: false, shift: true };
    assert_eq!(
        KeyCombo::from_key_input(&k),
        Some(KeyCombo {
            code: SerializableKeyCode::Char('G'),
            modifiers: Modifiers { ctrl: false, alt: false, shift: true },
        })
    );
    let space = KeyInput { code: RawKeyCode::Char(' '), ctrl: false, alt: false, shift: false };
    assert_eq!(
        KeyCombo::from_key_input(&space),
        Some(KeyCombo { code: SerializableKeyCode::Space, modifiers: Modifiers::default() })
    );
    let other = KeyInput { code: RawKeyCode::Other, ctrl: false, alt: false, shift: false };
    assert_eq!(KeyCombo::from_key_input(&other), None);
}

#[test]
fn config_defaults() {
    let c = Config::default();
    assert!(!c.general.show_hidden);
    assert!(c.general.confirm_delete);
    assert_eq!(c.ui.tick_rate_ms, 100);
    assert_eq!(c.ui.pane_ratios, [1, 3, 2]);
    assert_eq!(c.sort.sort_field(), SortField::Name);
    assert_eq!(c.preview.max_file_size_bytes(), 10 * 1024 * 1024);
    assert!(c.user_key_bindings().is_empty());
    assert!(default_true());
    assert_eq!(default_tick_rate(), 100);
    assert_eq!(default_pane_ratios(), [1, 3, 2]);
    assert_eq!(default_theme_preset(), "default");
    assert_eq!(default_sort_field(), "name");
    assert_eq!(default_max_file_size(), "10MB");
    assert_eq!(default_syntax_theme(), "base16-ocean.dark");
    assert_eq!(default_image_protocol(), "kitty");
    assert_eq!(default_tab_width(), 4);
    assert_eq!(default_plugin_dir(), "~/.config/kite/plugins");
}

#[test]
fn sort_field_names() {
    let mut s = SortConfig::default();
    for (name, field) in [
        ("size", SortField::Size),
        ("modified", SortField::Modified),
        ("extension", SortField::Extension),
        ("name", SortField::Name),
        ("bogus", SortField::Name),
    ] {
        s.field = name.to_string();
        assert_eq!(s.sort_field(), field);
    }
}

#[test]
fn max_file_size_units() {
    let mut p = PreviewConfig::default();
    for (text, bytes) in [
        ("10MB", 10 * 1024 * 1024u64),
        ("512KB", 512 * 1024),
        ("2GB", 10 * 1024 * 1024),
        ("12345", 12345),
        ("+7", 7),
        (" 3 MB ", 3 * 1024 * 1024),
        ("3mb", 10 * 1024 * 1024),
        ("xMB", 10 * 1024 * 1024),
        ("xKB", 10240 * 1024),
    ] {
        p.max_file_size = text.to_string();
        assert_eq!(p.max_file_size_bytes(), bytes, "{}", text);
    }
}

#[test]
fn user_bindings_from_tables() {
    let mut c = Config::default();
    c.keys.normal.push(("ctrl+x".to_string(), "cut".to_string()));
    c.keys.normal.push(("bad key".to_string(), "copy".to_string()));
    c.keys.visual.push(("v".to_string(), "normal_mode".to_string()));
    let b = c.user_key_bindings();
    assert_eq!(b.len(), 2);
    assert_eq!(b[0].key, ctrl('x'));
    assert_eq!(b[0].command, "cut");
    assert_eq!(b[0].context, KeyContext::Normal);
    assert_eq!(b[1].context, KeyContext::Visual);
}

#[test]
fn plugin_dir_expands_home() {
    let mut c = Config::default();
    c.plugins.directory = "/opt/kite/plugins".to_string();
    assert_eq!(c.plugins.plugin_dir(), "/opt/kite/plugins");
    assert_eq!(kite::paths::expand_tilde("~/x", Some("/home/u")), "/home/u/x");
    assert_eq!(kite::paths::expand_tilde("~/x", None), "~/x");
    assert_eq!(kite::paths::expand_tilde("/a/~/b", Some("/h")), "/a/~/b");
}

#[test]
fn key_specs_ignore_case() {
    assert_eq!(parse_key_spec("G"), Some(plain('g')));
    assert_eq!(parse_key_spec("G"), parse_key_spec("g"));
    assert_eq!(parse_key_spec("CTRL+D"), Some(ctrl('d')));
    assert_eq!(parse_key_spec("PageUp"), parse_key_spec("pageup"));
    assert_eq!(parse_key_spec("F12"), parse_key_spec("f12"));
    assert_eq!(parse_key_spec("Shift+Tab"), parse_key_spec("shift+tab"));
}

#[test]
fn merging_twice_is_merging_once() {
    let user = || {
        vec![
            KeyBinding {
                key: plain('j'),
                command: "page_down".to_string(),
                context: KeyContext::Normal,
                description: String::new(),
            },
            KeyBinding {
                key: plain('x'),
                command: "cut".to_string(),
                context: KeyContext::Global,
                description: String::new(),
            },
            KeyBinding {
                key: plain('j'),
                command: "cursor_bottom".to_string(),
                context: KeyContext::Normal,
                description: String::new(),
            },
        ]
    };
    let mut once = default_keymap();
    once.merge_user_config(user());
    let mut twice = default_keymap();
    twice.merge_user_config(user());
    twice.merge_user_config(user());
    for key in [plain('j'), plain('x'), plain('k'), ctrl('c'), ctrl('d')] {
        for ctx in [KeyContext::Normal, KeyContext::Visual, KeyContext::Global] {
            assert_eq!(once.resolve(&key, &ctx), twice.resolve(&key, &ctx));
        }
    }
    assert_eq!(twice.resolve(&plain('j'), &KeyContext::Normal), Some("cursor_bottom"));
    assert_eq!(twice.resolve(&plain('x'), &KeyContext::Visual), Some("cut"));
}

#[test]
fn default_bindings_name_builtin_commands() {
    let km = default_keymap();
    let keys = [
        plain('j'), plain('k'), plain('h'), plain('l'), plain('v'), plain('p'), plain('r'),
        plain('a'), plain('d'), plain('y'), plain('x'), plain('.'), plain('s'), plain('/'),
        plain('f'), plain(':'), plain('q'), ctrl('d'), ctrl('u'), ctrl('r'), ctrl('p'), ctrl('c'),
        ctrl('n'),
    ];
    let mut seen = 0;
    for key in keys {
        for ctx in [KeyContext::Normal, KeyContext::Visual, KeyContext::Search] {
            if let Some(s) = km.resolve(&key, &ctx) {
                seen += 1;
                assert!(!matches!(command_to_app_command(s), Some(AppCommand::PluginCommand { .. })));
            }
        }
    }
    assert!(seen > 20);
    assert!(matches!(command_to_app_command("cursor_top"), Some(AppCommand::CursorTop)));
}
