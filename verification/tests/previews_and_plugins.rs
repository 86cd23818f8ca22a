use kite::error::KiteError;
use kite::plugin::{
    dispatch, is_enabled, load_plan, native_plugin_name, script_key_bindings, CommandRegistry, Dispatch,
    PluginError, PluginSource,
};
use kite::keymap::KeyContext;
use kite::preview::{
    clear_kitty_image, encode_kitty_image, next_provider_step, priority_order, ProviderStep, BinaryPreviewProvider, DirectoryPreviewProvider,
    ImageFormat, KittyImageProvider, PreviewContent, PreviewError, StyledLine, TextPreviewProvider,
    Tone,
};

fn texts(lines: &[StyledLine]) -> Vec<Vec<(String, Tone)>> {
    lines
        .iter()
        .map(|l| l.spans.iter().map(|s| (s.text.clone(), s.tone)).collect())
        .collect()
}

#[test]
fn binary_dump_lines() {
    let data: Vec<u8> = (0u8..20).map(|b| b + 0x3e).collect();
    let lines = BinaryPreviewProvider.preview_lines("20 B", &data, 10);
    let t = texts(&lines);
    assert_eq!(t.len(), 4);
    assert_eq!(t[0], vec![("  Binary file (20 B)".to_string(), Tone::Yellow)]);
    assert_eq!(t[1], vec![(String::new(), Tone::Plain)]);
    assert_eq!(t[2][0].0, "  00000000  ");
    assert_eq!(t[2][1].0, "3e 3f 40 41 42 43 44 45 46 47 48 49 4a 4b 4c 4d");
    assert_eq!(t[2][2].0, "");
    assert_eq!(t[2][3].0, "  >?@ABCDEFGHIJKLM");
    assert_eq!(t[3][0].0, "  00000010  ");
    assert_eq!(t[3][1].0, "4e 4f 50 51");
    assert_eq!(t[3][2].0, " ".repeat(36));
    assert_eq!(t[3][3].0, "  NOPQ");
}

#[test]
fn binary_dump_respects_height_and_unprintables() {
    let data = vec![0u8, 0x7f, b' ', b'a', 0xff];
    let t = texts(&BinaryPreviewProvider.preview_lines("5 B", &data, 3));
    assert_eq!(t.len(), 3);
    assert_eq!(t[2][1].0, "00 7f 20 61 ff");
    assert_eq!(t[2][3].0, "  .. a.");
    assert_eq!(texts(&BinaryPreviewProvider.preview_lines("5 B", &data, 2)).len(), 2);
    assert_eq!(texts(&BinaryPreviewProvider.preview_lines("0 B", &[], 5)).len(), 2);
    assert_eq!(BinaryPreviewProvider.bytes_to_read(1000, 4), 64);
    assert_eq!(BinaryPreviewProvider.bytes_to_read(10, 4), 10);
    assert_eq!(BinaryPreviewProvider.priority(), 10);
}

#[test]
fn directory_summary() {
    let entries = vec![
        ("zeta".to_string(), false),
        ("beta".to_string(), true),
        ("alpha".to_string(), false),
        ("Gamma".to_string(), true),
    ];
    let t = texts(&DirectoryPreviewProvider.preview_lines(entries.clone(), 5));
    assert_eq!(t[0], vec![("  4 items".to_string(), Tone::Yellow)]);
    assert_eq!(t[2], vec![("  \u{f115} ".to_string(), Tone::Blue), ("Gamma".to_string(), Tone::Blue)]);
    assert_eq!(t[3][1].0, "beta");
    assert_eq!(t[4], vec![("  ... and 2 more".to_string(), Tone::DarkGray)]);
    assert_eq!(t.len(), 5);
    let all = texts(&DirectoryPreviewProvider.preview_lines(entries, 20));
    assert_eq!(all.len(), 6);
    assert_eq!(all[4], vec![("  \u{f016} ".to_string(), Tone::White), ("alpha".to_string(), Tone::White)]);
    assert_eq!(all[5][1].0, "zeta");
    assert_eq!(DirectoryPreviewProvider.priority(), 40);
}

#[test]
fn text_preview_rules() {
    let r = TextPreviewProvider::new();
    assert_eq!(r.theme, "base16-ocean.dark");
    assert_eq!(TextPreviewProvider::with_theme("InspiredGitHub").theme, "InspiredGitHub");
    assert_eq!(TextPreviewProvider::with_theme("no such theme").theme, "base16-ocean.dark");
    assert!(r.can_preview(true, "RS", "main.RS"));
    assert!(r.can_preview(true, "", "Makefile"));
    assert!(r.can_preview(true, "lock", "Cargo.lock"));
    assert!(!r.can_preview(false, "rs", "main.rs"));
    assert!(!r.can_preview(true, "exe", "a.exe"));
    assert!(r.check_size(10 * 1024 * 1024).is_ok());
    assert!(matches!(
        r.check_size(10 * 1024 * 1024 + 1),
        Err(PreviewError::TooLarge { size }) if size == 10 * 1024 * 1024 + 1
    ));
    assert_eq!(r.priority(), 60);
}

#[test]
fn text_preview_highlights_first_lines() {
    let r = TextPreviewProvider::new();
    let lines = r.text_preview(4, "a\nb\n", None, 1).unwrap();
    assert_eq!(lines.len(), 1);
    let joined: String = lines[0].spans.iter().map(|s| s.text.clone()).collect();
    assert_eq!(joined, "a\n");
    assert!(lines[0].spans.iter().all(|s| matches!(s.tone, Tone::Rgb(..))));
    let all = r.text_preview(4, "a\nb\n", Some("rs"), 10).unwrap();
    assert_eq!(all.len(), 2);
    let second: String = all[1].spans.iter().map(|s| s.text.clone()).collect();
    assert_eq!(second, "b\n");
    assert!(r.text_preview(0, "", Some("txt"), 5).unwrap().is_empty());
    let plain = r.text_preview(4, "q\n", Some("nosuchext"), 5).unwrap();
    let joined: String = plain[0].spans.iter().map(|s| s.text.clone()).collect();
    assert_eq!(joined, "q\n");
    let odd = TextPreviewProvider::with_theme("missing").text_preview(2, "z\n", None, 1).unwrap();
    assert_eq!(odd.len(), 1);
    assert!(matches!(
        r.text_preview(10 * 1024 * 1024 + 1, "x", None, 5),
        Err(PreviewError::TooLarge { size }) if size == 10 * 1024 * 1024 + 1
    ));
}

#[test]
fn image_preview_decodes_and_reports_errors() {
    let k = KittyImageProvider::force_enabled();
    match k.image_preview(&[1, 2, 3, 4], "png", 10, 5) {
        Err(PreviewError::Other(m)) => assert!(m.starts_with("Failed to open image: ")),
        other => panic!("unexpected {:?}", other),
    }
    let img = image::RgbaImage::new(4, 4);
    let mut png: Vec<u8> = Vec::new();
    image::DynamicImage::ImageRgba8(img)
        .write_to(&mut std::io::Cursor::new(&mut png), image::ImageFormat::Png)
        .unwrap();
    match k.image_preview(&png, "png", 1, 1) {
        Ok(PreviewContent::KittyImage { data, width, height, format }) => {
            assert_eq!((width, height), (8, 8));
            assert_eq!(data.len(), 8 * 8 * 4);
            assert_eq!(format, ImageFormat::Rgba32);
        }
        other => panic!("unexpected {:?}", other),
    }
}

#[test]
fn kitty_detection_and_extensions() {
    assert!(KittyImageProvider::new(Some("WezTerm"), None, false).supported);
    assert!(KittyImageProvider::new(None, Some("xterm-kitty"), false).supported);
    assert!(!KittyImageProvider::new(Some("Apple_Terminal"), Some("xterm-256color"), false).supported);
    assert!(KittyImageProvider::new(None, None, true).supported);
    let k = KittyImageProvider::force_enabled();
    assert!(k.can_preview(true, "PNG"));
    assert!(!k.can_preview(true, "svg"));
    assert!(!k.can_preview(false, "png"));
    assert!(!KittyImageProvider::new(None, None, false).can_preview(true, "png"));
    assert_eq!(k.target_size(10, 5), (80, 80));
    assert_eq!(k.priority(), 70);
}

#[test]
fn kitty_escape_sequences() {
    let s = encode_kitty_image(&[1, 2, 3], 4, 5, ImageFormat::Rgba32);
    assert_eq!(s, "\x1b_Ga=T,f=32,s=4,v=5,m=0;AQID\x1b\\");
    assert_eq!(encode_kitty_image(&[], 1, 1, ImageFormat::Png), "\x1b_Ga=T,f=100,s=1,v=1,m=0;\x1b\\");
    let big = vec![0u8; 3100];
    let s = encode_kitty_image(&big, 1, 2, ImageFormat::Rgb24);
    assert!(s.starts_with("\x1b_Ga=T,f=24,s=1,v=2,m=1;"));
    assert!(s.contains("\x1b\\\x1b_Gm=0;"));
    assert_eq!(clear_kitty_image(), "\x1b_Ga=d;\x1b\\");
}

#[test]
fn preview_error_messages() {
    assert_eq!(PreviewError::TooLarge { size: 12 }.message(), "File too large to preview: 12 bytes");
    assert_eq!(PreviewError::Unsupported.message(), "Unsupported format");
    assert_eq!(PreviewError::Other("x".to_string()).message(), "Preview generation failed: x");
    let io = PreviewError::Io(std::io::Error::new(std::io::ErrorKind::Other, "boom"));
    assert_eq!(io.message(), "IO error: boom");
}

#[test]
fn plugin_names_and_enabling() {
    assert_eq!(native_plugin_name("libgit-status"), "git-status");
    assert_eq!(native_plugin_name("git-status"), "git-status");
    assert_eq!(native_plugin_name("li"), "li");
    let enabled = vec!["git-status".to_string(), "fzf".to_string()];
    assert!(is_enabled(&enabled, "fzf"));
    assert!(!is_enabled(&enabled, "other"));
}

#[test]
fn command_registry_and_dispatch() {
    let mut reg = CommandRegistry::new();
    assert!(!reg.contains("hello"));
    reg.insert("hello".to_string(), PluginSource::Native(0));
    reg.insert("lua_cmd".to_string(), PluginSource::Lua);
    assert_eq!(reg.get("hello"), Some(PluginSource::Native(0)));
    reg.insert("hello".to_string(), PluginSource::Native(1));
    assert_eq!(reg.get("hello"), Some(PluginSource::Native(1)));
    assert_eq!(dispatch(&reg, &vec![true, true], true, "hello"), Dispatch::Native(1));
    assert_eq!(dispatch(&reg, &vec![true, false], true, "hello"), Dispatch::NotFound);
    assert_eq!(dispatch(&reg, &vec![true], true, "hello"), Dispatch::NotFound);
    assert_eq!(dispatch(&reg, &vec![], true, "lua_cmd"), Dispatch::Lua);
    assert_eq!(dispatch(&reg, &vec![], false, "lua_cmd"), Dispatch::NotFound);
    assert_eq!(dispatch(&reg, &vec![], true, "missing"), Dispatch::NotFound);
    reg.clear();
    assert!(!reg.contains("lua_cmd"));
}

#[test]
fn script_bindings_are_normal_mode() {
    let pairs = vec![("ctrl+g".to_string(), "git".to_string()), ("???".to_string(), "x".to_string())];
    let b = script_key_bindings(&pairs);
    assert_eq!(b.len(), 1);
    assert_eq!(b[0].command, "git");
    assert_eq!(b[0].context, KeyContext::Normal);
    assert_eq!(b[0].description, "");
}

#[test]
fn error_messages() {
    assert_eq!(PluginError::InitFailed("x".to_string()).message(), "Plugin initialization failed: x");
    assert_eq!(PluginError::CommandNotFound("y".to_string()).message(), "Command not found: y");
    assert_eq!(PluginError::ExecutionError("z".to_string()).message(), "Execution error: z");
    assert_eq!(KiteError::Config("bad".to_string()).message(), "Configuration error: bad");
    assert_eq!(KiteError::Plugin("p".to_string()).message(), "Plugin error: p");
    assert_eq!(KiteError::Cancelled.message(), "Operation cancelled");
    assert_eq!(KiteError::Other("plain".to_string()).message(), "plain");
}

#[test]
fn which_plugins_load() {
    let files = vec![
        ("so".to_string(), "libgit-status".to_string()),
        ("so".to_string(), "other".to_string()),
        ("txt".to_string(), "git-status".to_string()),
        ("so".to_string(), "fzf".to_string()),
    ];
    let enabled = vec!["git-status".to_string(), "fzf".to_string()];
    assert_eq!(load_plan(&files, "so", &enabled, true), vec![0, 3]);
    let scripts = vec![("lua".to_string(), "fzf".to_string()), ("lua".to_string(), "libfzf".to_string())];
    assert_eq!(load_plan(&scripts, "lua", &enabled, false), vec![0]);
}

#[test]
fn provider_choice_and_order() {
    assert_eq!(next_provider_step(&vec![], 3), ProviderStep::Ask(0));
    assert_eq!(next_provider_step(&vec![false], 3), ProviderStep::Ask(1));
    assert_eq!(next_provider_step(&vec![false, true], 3), ProviderStep::Use(1));
    assert_eq!(next_provider_step(&vec![false, false, false], 3), ProviderStep::NoPreview);
    assert_eq!(next_provider_step(&vec![], 0), ProviderStep::NoPreview);
    assert_eq!(priority_order(&vec![60, 70, 40, 10]), vec![1, 0, 2, 3]);
    assert_eq!(priority_order(&vec![60, 70, 40, 10, 60]), vec![1, 0, 4, 2, 3]);
    assert_eq!(priority_order(&vec![50, 50, 90]), vec![2, 0, 1]);
    assert!(priority_order(&vec![]).is_empty());
}
