use banshee::config::chord::{Action, Chord};
use banshee::config::color::Rgb;
use banshee::config::diagnostics::{Diagnostic, Severity};
use banshee::config::document::{
    collect_unknown_keys, line_col_at_byte_offset, load_parsed, load_str,
    toml_parse_error_to_diagnostic, DocumentKeys, ParseFailure,
};
use banshee::config::resolve::{copy_of, resolve, resolve_profile, RawConfig, RawProfile};
use banshee::config::schema::{
    ClipboardReadPolicy, Config, FontSize, ProfileType, RawFontSize,
    DEFAULT_CLIPBOARD_WRITE_MAX_BYTES, DEFAULT_FONT_SIZE, MAX_FONT_SIZE, MIN_FONT_SIZE,
};
use banshee::config::watch::{
    event_touches_file, load_file, Change, ChangeKind, ConfigService, FileReading, Load,
    WatchAction, WatchEvent, WatchLoop,
};
use banshee::sorted::SortedMap;

type Loaded = Result<(Config, Vec<Diagnostic>), Vec<Diagnostic>>;

fn points(size: f32) -> FontSize {
    FontSize {
        bits: size.to_bits(),
    }
}

fn raw_size(size: f32) -> RawFontSize {
    RawFontSize {
        size: points(size),
        shown: format!("{size}"),
    }
}

fn wrong(key: &str) -> ParseFailure {
    ParseFailure {
        message: format!("invalid type for {key}"),
        start: None,
    }
}

fn text(table: &toml::Table, key: &str) -> Result<Option<String>, ParseFailure> {
    match table.get(key) {
        None => Ok(None),
        Some(value) => match value.as_str() {
            Some(s) => Ok(Some(s.to_string())),
            None => Err(wrong(key)),
        },
    }
}

fn number(table: &toml::Table, key: &str) -> Result<Option<usize>, ParseFailure> {
    match table.get(key) {
        None => Ok(None),
        Some(value) => match value.as_integer() {
            Some(n) if n >= 0 => Ok(Some(n as usize)),
            _ => Err(wrong(key)),
        },
    }
}

fn size(table: &toml::Table, key: &str) -> Result<Option<RawFontSize>, ParseFailure> {
    match table.get(key) {
        None => Ok(None),
        Some(value) => match (value.as_float(), value.as_integer()) {
            (Some(f), _) => Ok(Some(raw_size(f as f32))),
            (_, Some(n)) => Ok(Some(raw_size(n as f32))),
            _ => Err(wrong(key)),
        },
    }
}

fn texts(table: &toml::Table, key: &str) -> Result<Option<Vec<String>>, ParseFailure> {
    match table.get(key) {
        None => Ok(None),
        Some(value) => {
            let list = value.as_array().ok_or_else(|| wrong(key))?;
            let mut out = Vec::new();
            for item in list {
                out.push(item.as_str().ok_or_else(|| wrong(key))?.to_string());
            }
            Ok(Some(out))
        }
    }
}

fn pairs(
    table: &toml::Table,
    key: &str,
) -> Result<Option<SortedMap<String, String>>, ParseFailure> {
    match table.get(key) {
        None => Ok(None),
        Some(value) => {
            let entries = value.as_table().ok_or_else(|| wrong(key))?;
            let mut out = SortedMap::new();
            for (k, v) in entries {
                out.insert(k.clone(), v.as_str().ok_or_else(|| wrong(key))?.to_string());
            }
            Ok(Some(out))
        }
    }
}

fn raw_profile(table: &toml::Table) -> Result<RawProfile, ParseFailure> {
    let required = |key: &str| text(table, key)?.ok_or_else(|| wrong(key));
    Ok(RawProfile {
        name: required("name")?,
        command: required("command")?,
        args: texts(table, "args")?.unwrap_or_default(),
        cwd: text(table, "cwd")?,
        env: pairs(table, "env")?.unwrap_or_else(SortedMap::new),
        profile_type: required("type")?,
        icon: text(table, "icon")?,
        color: text(table, "color")?,
        font_size: size(table, "font-size")?,
        theme: text(table, "theme")?,
        default: match table.get("default") {
            None => false,
            Some(value) => value.as_bool().ok_or_else(|| wrong("default"))?,
        },
    })
}

/// The typed reading of a document.
fn raw(source: &str) -> Result<RawConfig, ParseFailure> {
    let table: toml::Table = toml::from_str(source).map_err(|e: toml::de::Error| ParseFailure {
        message: e.message().to_string(),
        start: e.span().map(|s| s.start),
    })?;
    let profiles = match table.get("profile") {
        None => None,
        Some(value) => {
            let mut out = Vec::new();
            for item in value.as_array().ok_or_else(|| wrong("profile"))? {
                out.push(raw_profile(item.as_table().ok_or_else(|| wrong("profile"))?)?);
            }
            Some(out)
        }
    };
    Ok(RawConfig {
        font_family: text(&table, "font-family")?,
        font_size: size(&table, "font-size")?,
        background: text(&table, "background")?,
        foreground: text(&table, "foreground")?,
        palette: texts(&table, "palette")?,
        scrollback_limit: number(&table, "scrollback-limit")?,
        keybinds: pairs(&table, "keybinds")?,
        clipboard_read: text(&table, "clipboard-read")?,
        clipboard_write_max_bytes: number(&table, "clipboard-write-max-bytes")?,
        profiles,
    })
}

fn load(source: &str) -> Loaded {
    load_str(source, raw(source)).expect("every complaint can be placed")
}

fn file(source: &str) -> Load {
    load_file(FileReading::Text {
        source: source.to_string(),
        raw: raw(source),
    })
    .expect("every complaint can be placed")
}

fn plain_profile(name: &str, command: &str, profile_type: &str) -> RawProfile {
    RawProfile {
        name: name.to_string(),
        command: command.to_string(),
        args: Vec::new(),
        cwd: None,
        env: SortedMap::new(),
        profile_type: profile_type.to_string(),
        icon: None,
        color: None,
        font_size: None,
        theme: None,
        default: false,
    }
}

// ---- diagnostics ----------------------------------------------------------------

#[test]
fn display_includes_all_parts() {
    let d = Diagnostic::error("bad value".to_string())
        .with_key("font-size".to_string())
        .with_span(3, 7);
    assert_eq!(d.to_string(), "error [font-size] at 3:7: bad value");
}

#[test]
fn display_minimal() {
    let d = Diagnostic::warning("unknown key".to_string());
    assert_eq!(d.to_string(), "warning: unknown key");
}

#[test]
fn severities_have_labels() {
    assert_eq!(Severity::Error.label(), "error");
    assert_eq!(Severity::Warning.label(), "warning");
}

#[test]
fn diagnostics_are_copied_whole() {
    let d = Diagnostic::error("m".to_string())
        .with_key("k".to_string())
        .with_span(1, 2);
    assert_eq!(copy_of(&d), d);
}

// ---- documents ------------------------------------------------------------------

#[test]
fn empty_source_yields_defaults() {
    let (cfg, warnings) = load("").unwrap();
    assert_eq!(cfg, Config::default());
    assert!(warnings.is_empty());
}

#[test]
fn overrides_take_precedence_over_defaults() {
    let src = r##"
            font-family = "Consolas"
            font-size = 14.5
            background = "#101010"
            scrollback-limit = 5000000
        "##;
    let (cfg, warnings) = load(src).unwrap();
    assert!(warnings.is_empty());
    assert_eq!(cfg.font_family, "Consolas");
    assert_eq!(cfg.font_size, points(14.5));
    assert_eq!(cfg.background, Rgb::parse("#101010").unwrap());
    assert_eq!(cfg.scrollback_limit, 5_000_000);
    // Fields that are not set keep their defaults.
    assert_eq!(cfg.foreground, Config::default().foreground);
}

#[test]
fn malformed_toml_is_error() {
    let src = "font-size = not a number";
    let err = load(src).unwrap_err();
    assert!(err.iter().any(|d| d.severity == Severity::Error));
}

#[test]
fn malformed_toml_reports_span() {
    let src = "font-size = @@@";
    let err = load(src).unwrap_err();
    assert!(
        err[0].span.is_some(),
        "expected a line/col span, got {:?}",
        err[0]
    );
}

#[test]
fn unknown_top_level_key_warns_but_applies() {
    let src = r#"
            font-family = "Consolas"
            frobnicate = true
        "#;
    let (cfg, warnings) = load(src).unwrap();
    assert_eq!(cfg.font_family, "Consolas");
    assert_eq!(warnings.len(), 1);
    assert_eq!(warnings[0].key.as_deref(), Some("frobnicate"));
    assert_eq!(warnings[0].severity, Severity::Warning);
}

#[test]
fn invalid_color_is_error() {
    let src = r#"background = "not-a-color""#;
    let err = load(src).unwrap_err();
    assert!(err.iter().any(|d| d.key.as_deref() == Some("background")));
}

#[test]
fn font_size_out_of_bounds_is_error() {
    let src = "font-size = 500.0";
    let err = load(src).unwrap_err();
    assert!(err.iter().any(|d| d.key.as_deref() == Some("font-size")));
}

#[test]
fn palette_wrong_length_is_error() {
    let src = r##"palette = ["#000000", "#ffffff"]"##;
    let err = load(src).unwrap_err();
    assert!(err.iter().any(|d| d.key.as_deref() == Some("palette")));
}

#[test]
fn palette_full_length_parses() {
    let entries: Vec<String> = (0..16).map(|_| "\"#123456\"".to_string()).collect();
    let src = format!("palette = [{}]", entries.join(", "));
    let (cfg, _) = load(&src).unwrap();
    for c in cfg.palette {
        assert_eq!(c, Rgb::parse("#123456").unwrap());
    }
}

#[test]
fn keybind_chord_parses_regardless_of_modifier_order() {
    let a = Chord::parse("ctrl+shift+c").unwrap();
    let b = Chord::parse("shift+ctrl+c").unwrap();
    assert_eq!(a, b);
}

#[test]
fn keybind_invalid_action_is_error() {
    let src = r#"
            [keybinds]
            "ctrl+shift+c" = "not-an-action"
        "#;
    let err = load(src).unwrap_err();
    assert!(err
        .iter()
        .any(|d| d.key.as_deref() == Some("keybinds.ctrl+shift+c")));
}

#[test]
fn keybind_valid_overrides_default() {
    let src = r#"
            [keybinds]
            "ctrl+shift+x" = "scroll-to-bottom"
        "#;
    let (cfg, _) = load(src).unwrap();
    let chord = Chord::parse("ctrl+shift+x").unwrap();
    assert_eq!(cfg.keybinds.get(&chord), Some(&Action::ScrollToBottom));
}

#[test]
fn profile_valid_parses() {
    let src = r#"
            [[profile]]
            name = "PowerShell"
            command = "pwsh.exe"
            args = ["-NoLogo"]
            type = "windows"
        "#;
    let (cfg, warnings) = load(src).unwrap();
    assert!(warnings.is_empty());
    assert_eq!(cfg.profiles.len(), 1);
    assert_eq!(cfg.profiles[0].name, "PowerShell");
    assert_eq!(cfg.profiles[0].profile_type, ProfileType::Windows);
}

#[test]
fn profile_invalid_type_is_error() {
    let src = r#"
            [[profile]]
            name = "Foo"
            command = "foo.exe"
            type = "bogus"
        "#;
    let err = load(src).unwrap_err();
    assert!(err
        .iter()
        .any(|d| d.key.as_deref() == Some("profile[0].type")));
}

#[test]
fn profile_unknown_key_warns() {
    let src = r#"
            [[profile]]
            name = "Foo"
            command = "foo.exe"
            type = "windows"
            bogus = 1
        "#;
    let (_, warnings) = load(src).unwrap();
    assert!(warnings
        .iter()
        .any(|d| d.key.as_deref() == Some("profile.bogus")));
}

#[test]
fn clipboard_defaults_deny_and_cap() {
    let cfg = Config::default();
    assert_eq!(cfg.clipboard_read, ClipboardReadPolicy::Deny);
    assert_eq!(
        cfg.clipboard_write_max_bytes,
        DEFAULT_CLIPBOARD_WRITE_MAX_BYTES
    );
}

#[test]
fn clipboard_read_allow_parses() {
    let src = r#"clipboard-read = "allow""#;
    let (cfg, _) = load(src).unwrap();
    assert_eq!(cfg.clipboard_read, ClipboardReadPolicy::Allow);
}

#[test]
fn clipboard_read_invalid_is_error() {
    let src = r#"clipboard-read = "maybe""#;
    let err = load(src).unwrap_err();
    assert!(err
        .iter()
        .any(|d| d.key.as_deref() == Some("clipboard-read")));
}

// ---- the service ----------------------------------------------------------------

#[test]
fn missing_file_yields_defaults_not_error() {
    let svc = ConfigService::start(Load::Missing);
    assert_eq!(*svc.current(), Config::default());
    assert!(svc.diagnostics().is_empty());
}

#[test]
fn reload_now_picks_up_changes() {
    let mut svc = ConfigService::start(file(r#"font-family = "Consolas""#));
    svc.reload_now(file(r#"font-family = "Consolas""#));
    assert_eq!(svc.current().font_family, "Consolas");
}

#[test]
fn malformed_file_keeps_last_good() {
    let mut svc = ConfigService::start(file(r#"font-family = "Consolas""#));
    svc.reload_now(file(r#"font-family = "Consolas""#));
    assert_eq!(svc.current().font_family, "Consolas");
    let gen_before = svc.generation();

    svc.reload_now(file("font-size = not-a-number-@@@"));

    assert_eq!(
        svc.current().font_family,
        "Consolas",
        "last-good must be retained"
    );
    assert_eq!(
        svc.generation(),
        gen_before,
        "generation must not bump on rejection"
    );
    assert!(svc
        .diagnostics()
        .iter()
        .any(|d| d.severity == Severity::Error));
}

#[test]
fn unknown_key_warns_and_still_applies() {
    let source = "font-family = \"Consolas\"\nbogus-key = 1\n";
    let mut svc = ConfigService::start(file(source));
    svc.reload_now(file(source));

    assert_eq!(svc.current().font_family, "Consolas");
    assert!(svc
        .diagnostics()
        .iter()
        .any(|d| d.key.as_deref() == Some("bogus-key")));
}

#[test]
fn missing_config_file_starts_with_pure_defaults() {
    let svc = ConfigService::start(load_file(FileReading::Missing).unwrap());
    assert_eq!(*svc.current(), Config::default());
    assert_eq!(svc.generation(), 0);
    assert!(svc.diagnostics().is_empty());
}

#[test]
fn full_key_set_parses_with_override_precedence() {
    let source = r##"
font-family = "JetBrains Mono"
font-size = 13.0
background = "#111111"
foreground = "#eeeeee"
scrollback-limit = 20000000
clipboard-read = "allow"
clipboard-write-max-bytes = 2000000

[keybinds]
"ctrl+shift+c" = "copy"
"ctrl+shift+v" = "paste"
"ctrl+shift+b" = "scroll-to-bottom"

[[profile]]
name = "WSL Ubuntu"
command = "wsl.exe"
args = ["-d", "Ubuntu"]
type = "wsl"
cwd = "/home/user"

[profile.env]
FOO = "bar"
"##;

    let mut svc = ConfigService::start(file(source));
    svc.reload_now(file(source));
    let cfg = svc.current();

    assert!(svc.diagnostics().is_empty());
    assert_eq!(cfg.font_family, "JetBrains Mono");
    assert_eq!(cfg.font_size, points(13.0));
    assert_eq!(cfg.scrollback_limit, 20_000_000);
    assert_eq!(cfg.clipboard_read, ClipboardReadPolicy::Allow);
    assert_eq!(cfg.clipboard_write_max_bytes, 2_000_000);
    assert_eq!(cfg.profiles.len(), 1);
    assert_eq!(cfg.profiles[0].name, "WSL Ubuntu");
    assert_eq!(cfg.profiles[0].profile_type, ProfileType::Wsl);
    assert_eq!(cfg.profiles[0].cwd.as_deref(), Some("/home/user"));

    let copy_chord = Chord::parse("ctrl+shift+c").unwrap();
    assert_eq!(cfg.keybinds.get(&copy_chord), Some(&Action::Copy));
}

#[test]
fn malformed_toml_retains_last_good_with_located_error() {
    let mut svc = ConfigService::start(file(r##"font-family = "Consolas""##));
    svc.reload_now(file(r##"font-family = "Consolas""##));
    assert_eq!(svc.current().font_family, "Consolas");
    let gen_before = svc.generation();

    svc.reload_now(file("font-family = \"Consolas\"\nfont-size = @@@garbage\n"));

    assert_eq!(
        svc.current().font_family,
        "Consolas",
        "last-good must be retained"
    );
    assert_eq!(
        svc.generation(),
        gen_before,
        "rejected reload must not bump generation"
    );

    let diags = svc.diagnostics();
    assert!(!diags.is_empty());
    let err = diags
        .iter()
        .find(|d| d.severity == Severity::Error)
        .expect("expected an error diagnostic");
    assert!(
        err.span.is_some(),
        "expected a line/col location on the parse error"
    );
}

#[test]
fn unknown_key_is_warning_not_rejection() {
    let source = "font-family = \"Consolas\"\nnot-a-real-key = 42\n";
    let mut svc = ConfigService::start(file(source));
    svc.reload_now(file(source));

    assert_eq!(
        svc.current().font_family,
        "Consolas",
        "recognized keys still apply"
    );
    let diags = svc.diagnostics();
    assert!(diags.iter().any(
        |d| d.severity == Severity::Warning && d.key.as_deref() == Some("not-a-real-key")
    ));
}

#[test]
fn invalid_profile_type_is_rejected_wholesale() {
    let source = r##"
[[profile]]
name = "Bad"
command = "bad.exe"
type = "macos"
"##;
    let mut svc = ConfigService::start(file(source));
    svc.reload_now(file(source));

    assert!(svc.current().profiles.is_empty());
    assert!(svc
        .diagnostics()
        .iter()
        .any(|d| d.severity == Severity::Error));
}

#[test]
fn unreadable_file_is_reported() {
    let mut svc = ConfigService::start(Load::Missing);
    svc.reload_now(load_file(FileReading::Failed("access denied".to_string())).unwrap());
    assert_eq!(*svc.current(), Config::default());
    assert_eq!(svc.generation(), 0);
    assert_eq!(
        svc.diagnostics()[0].to_string(),
        "error: failed to read config file: access denied"
    );
}

#[test]
fn removed_file_reverts_to_defaults() {
    let mut svc = ConfigService::start(file("font-family = \"A\"\nbogus-key = 1\n"));
    assert_eq!(svc.current().font_family, "A");
    assert!(!svc.diagnostics().is_empty());
    svc.reload_now(load_file(FileReading::Missing).unwrap());
    assert_eq!(*svc.current(), Config::default());
    assert_eq!(svc.generation(), 1);
    assert!(svc.diagnostics().is_empty());
}

#[test]
fn applied_reloads_count() {
    let mut svc = ConfigService::start(Load::Missing);
    svc.reload_now(file(r#"font-family = "A""#));
    svc.reload_now(file("font-size = 500.0"));
    svc.reload_now(file(r#"font-family = "B""#));
    assert_eq!(svc.generation(), 2);
    assert_eq!(svc.current().font_family, "B");
    assert!(svc.diagnostics().is_empty());
}

// ---- messages -------------------------------------------------------------------

#[test]
fn complaints_are_placed_by_line_and_column() {
    assert_eq!(line_col_at_byte_offset("ab\ncd", 0), (1, 1));
    assert_eq!(line_col_at_byte_offset("ab\ncd", 4), (2, 2));
    assert_eq!(line_col_at_byte_offset("ab\ncd", 99), (2, 3));
    assert_eq!(line_col_at_byte_offset("é\nx", 3), (2, 1));
}

#[test]
fn parse_complaints_become_diagnostics() {
    let placed = ParseFailure {
        message: "no".to_string(),
        start: Some(3),
    };
    let d = toml_parse_error_to_diagnostic("ab\ncd", &placed);
    assert_eq!(d.severity, Severity::Error);
    assert_eq!(d.span, Some((2, 1)));
    let unplaced = ParseFailure {
        message: "no".to_string(),
        start: None,
    };
    assert_eq!(toml_parse_error_to_diagnostic("ab", &unplaced).span, None);
}

#[test]
fn complaint_inside_a_character_is_not_placed() {
    let failure = ParseFailure {
        message: "no".to_string(),
        start: Some(1),
    };
    assert!(load_str("# é", Err(failure)).is_some());
    let failure = ParseFailure {
        message: "no".to_string(),
        start: Some(3),
    };
    assert!(load_str("# é", Err(failure)).is_none());
}

#[test]
fn typed_complaints_reject_the_document() {
    let source = "font-family = 3";
    let err = load(source).unwrap_err();
    assert_eq!(err.len(), 1);
    assert!(err[0].message.contains("invalid type for font-family"));
}

#[test]
fn unknown_keys_are_reported_in_order() {
    let keys = DocumentKeys {
        top: vec!["a".to_string(), "font-size".to_string(), "b".to_string()],
        profiles: vec![vec!["name".to_string(), "c".to_string()]],
    };
    let mut warnings = Vec::new();
    collect_unknown_keys(&keys, &mut warnings);
    let named: Vec<&str> = warnings.iter().map(|d| d.key.as_deref().unwrap()).collect();
    assert_eq!(named, vec!["a", "b", "profile.c"]);
}

#[test]
fn unknown_keys_decide_nothing() {
    let keys = DocumentKeys {
        top: vec!["zzz".to_string()],
        profiles: vec![],
    };
    let (cfg, warnings) = load_parsed("", Ok(keys), Ok(RawConfig::default())).unwrap();
    assert_eq!(cfg, Config::default());
    assert_eq!(warnings.len(), 1);
}

#[test]
fn warnings_come_with_errors() {
    let err = load("bogus = 1\nclipboard-read = \"maybe\"").unwrap_err();
    assert!(err.iter().any(|d| d.severity == Severity::Error));
}

// ---- values ---------------------------------------------------------------------

#[test]
fn colors_parse_and_print() {
    let c = Rgb::parse("#0aFf10").unwrap();
    assert_eq!(c, Rgb { r: 0x0a, g: 0xff, b: 0x10 });
    assert_eq!(c.to_hex(), "#0aff10");
    assert_eq!(Rgb::parse(&c.to_hex()), Ok(c));
    assert!(Rgb::parse("0aff10").is_err());
    assert!(Rgb::parse("#0aff1").is_err());
    assert!(Rgb::parse("#0aff1g").is_err());
    assert_eq!(
        Rgb::parse("#+f+f+f"),
        Err("color '#+f+f+f' has invalid hex digits".to_string())
    );
    assert!(Rgb::parse("#€€").is_err());
}

#[test]
fn chords_parse() {
    let c = Chord::parse(" Ctrl + Alt+F5 ").unwrap();
    assert_eq!(c, Chord::parse("alt+ctrl+f5").unwrap());
    assert_eq!(c, Chord::parse("F5 + Control + Alt").unwrap());
    assert!(Chord::parse("").is_err());
    assert!(Chord::parse("ctrl").is_err());
    assert!(Chord::parse("hyper+c").is_err());
}

#[test]
fn actions_parse() {
    assert_eq!(Action::parse("copy"), Ok(Action::Copy));
    assert_eq!(Action::parse("paste"), Ok(Action::Paste));
    assert_eq!(Action::parse("scroll-to-bottom"), Ok(Action::ScrollToBottom));
    assert!(Action::parse("Copy").is_err());
}

#[test]
fn policies_and_profile_types_parse() {
    assert_eq!(ClipboardReadPolicy::parse("deny"), Ok(ClipboardReadPolicy::Deny));
    assert_eq!(ClipboardReadPolicy::parse("allow"), Ok(ClipboardReadPolicy::Allow));
    assert!(ClipboardReadPolicy::parse("").is_err());
    assert_eq!(ProfileType::parse("windows"), Ok(ProfileType::Windows));
    assert_eq!(ProfileType::parse("wsl"), Ok(ProfileType::Wsl));
    assert!(ProfileType::parse("macos").is_err());
}

#[test]
fn font_sizes_are_bounded() {
    assert_eq!(DEFAULT_FONT_SIZE, 12.0f32.to_bits());
    assert_eq!(MIN_FONT_SIZE, 4.0f32.to_bits());
    assert_eq!(MAX_FONT_SIZE, 128.0f32.to_bits());
    assert!(points(4.0).is_in_range());
    assert!(points(128.0).is_in_range());
    assert!(!points(3.99).is_in_range());
    assert!(!points(128.01).is_in_range());
    assert!(!points(-12.0).is_in_range());
    assert!(!points(f32::NAN).is_in_range());
    assert!(!points(f32::INFINITY).is_in_range());
    assert!(!points(-0.0).is_in_range());
}

#[test]
fn defaults_hold() {
    let cfg = Config::default();
    assert_eq!(cfg.font_family, "Cascadia Mono");
    assert_eq!(cfg.font_size, points(12.0));
    assert_eq!(cfg.background.to_hex(), "#0c0c0c");
    assert_eq!(cfg.foreground.to_hex(), "#cccccc");
    assert_eq!(cfg.scrollback_limit, 12_000_000);
    assert!(cfg.profiles.is_empty());
    let copy = Chord::parse("ctrl+shift+c").unwrap();
    let paste = Chord::parse("ctrl+shift+v").unwrap();
    assert_eq!(cfg.keybinds.get(&copy), Some(&Action::Copy));
    assert_eq!(cfg.keybinds.get(&paste), Some(&Action::Paste));
}

#[test]
fn profiles_are_validated() {
    let p = resolve_profile(plain_profile("A", "a.exe", "wsl")).unwrap();
    assert_eq!(p.profile_type, ProfileType::Wsl);
    let keys = |raw: RawProfile| -> Vec<String> {
        resolve_profile(raw)
            .unwrap_err()
            .iter()
            .map(|d| d.key.clone().unwrap())
            .collect()
    };
    assert_eq!(keys(plain_profile("  ", "a.exe", "wsl")), vec!["name"]);
    assert_eq!(keys(plain_profile("A", "\t", "wsl")), vec!["command"]);
    assert_eq!(keys(plain_profile("A", "a.exe", "dos")), vec!["type"]);
    let mut sized = plain_profile("A", "a.exe", "windows");
    sized.font_size = Some(raw_size(2.0));
    sized.color = Some("red".to_string());
    let found = keys(sized);
    assert!(found.contains(&"font-size".to_string()));
    assert!(found.contains(&"color".to_string()));
}

#[test]
fn every_fault_is_reported() {
    let mut raw = RawConfig::default();
    raw.font_size = Some(raw_size(500.0));
    raw.background = Some("x".to_string());
    raw.foreground = Some("y".to_string());
    raw.palette = Some(vec!["z".to_string(); 16]);
    raw.clipboard_read = Some("?".to_string());
    raw.profiles = Some(vec![plain_profile("", "", "")]);
    let mut binds = SortedMap::new();
    binds.insert("".to_string(), "copy".to_string());
    raw.keybinds = Some(binds);
    let errors = resolve(raw).unwrap_err();
    let keys: Vec<&str> = errors.iter().map(|d| d.key.as_deref().unwrap_or("")).collect();
    for key in [
        "font-size",
        "background",
        "foreground",
        "clipboard-read",
        "profile[0].type",
        "profile[0].name",
        "profile[0].command",
    ] {
        assert!(keys.contains(&key), "{key} missing in {keys:?}");
    }
    assert!(errors.iter().all(|d| d.severity == Severity::Error));
}

#[test]
fn out_of_range_font_size_is_quoted() {
    let errors = load("font-size = 500.5").unwrap_err();
    assert!(errors[0].message.contains("500.5"));
}

#[test]
fn sorted_map_keeps_key_order() {
    let mut m: SortedMap<String, u32> = SortedMap::new();
    m.insert("b".to_string(), 1);
    m.insert("a".to_string(), 2);
    m.insert("b".to_string(), 3);
    m.insert("é".to_string(), 4);
    assert_eq!(m.len(), 3);
    assert_eq!(m.entry(0), (&"a".to_string(), &2));
    assert_eq!(m.entry(1), (&"b".to_string(), &3));
    assert_eq!(m.get(&"é".to_string()), Some(&4));
    assert_eq!(m.get(&"c".to_string()), None);
}

// ---- watching -------------------------------------------------------------------

fn change(kind: ChangeKind, name: &str) -> Change {
    Change {
        kind,
        names: vec![Some(name.as_bytes().to_vec())],
    }
}

fn config_toml() -> Option<Vec<u8>> {
    Some(b"config.toml".to_vec())
}

#[test]
fn changes_touch_the_file_by_kind_and_name() {
    let name = config_toml();
    for kind in [
        ChangeKind::Any,
        ChangeKind::Create,
        ChangeKind::Modify,
        ChangeKind::Remove,
    ] {
        assert!(event_touches_file(&change(kind, "config.toml"), &name));
        assert!(!event_touches_file(&change(kind, "config.toml.tmp"), &name));
        assert!(event_touches_file(&change(kind, "other"), &None));
    }
    assert!(!event_touches_file(&change(ChangeKind::Access, "config.toml"), &name));
    assert!(!event_touches_file(&change(ChangeKind::Other, "config.toml"), &None));
    let nameless = Change {
        kind: ChangeKind::Modify,
        names: vec![None],
    };
    assert!(!event_touches_file(&nameless, &name));
}

#[test]
fn bursts_give_one_reload() {
    let mut watch = WatchLoop::new(config_toml());
    assert_eq!(watch.timeout_millis(), 200);
    assert_eq!(watch.step(WatchEvent::Timeout), WatchAction::Wait);
    let saved = || {
        WatchEvent::Changes(vec![
            change(ChangeKind::Modify, "config.toml.tmp"),
            change(ChangeKind::Modify, "config.toml"),
        ])
    };
    assert_eq!(watch.step(saved()), WatchAction::Wait);
    assert_eq!(watch.timeout_millis(), 100);
    assert_eq!(watch.step(saved()), WatchAction::Wait);
    assert_eq!(watch.step(WatchEvent::Error), WatchAction::Wait);
    assert_eq!(watch.step(WatchEvent::Timeout), WatchAction::Reload);
    assert_eq!(watch.timeout_millis(), 200);
    assert_eq!(watch.step(WatchEvent::Timeout), WatchAction::Wait);
}

#[test]
fn other_files_give_no_reload() {
    let mut watch = WatchLoop::new(config_toml());
    let other = WatchEvent::Changes(vec![change(ChangeKind::Modify, "notes.txt")]);
    assert_eq!(watch.step(other), WatchAction::Wait);
    assert_eq!(watch.step(WatchEvent::Timeout), WatchAction::Wait);
    assert_eq!(watch.step(WatchEvent::Shutdown), WatchAction::Stop);
    assert_eq!(watch.step(WatchEvent::Disconnected), WatchAction::Stop);
}
