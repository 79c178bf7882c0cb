//! Validation of what a configuration file says, and its resolution against
//! the defaults.
use vstd::prelude::*;

use crate::config::chord::{self, Action, Chord, ChordModel};
use crate::config::color::{self, Rgb};
use crate::config::diagnostics::{self, Diagnostic, DiagnosticModel};
use crate::config::schema::{
    self, ClipboardReadPolicy, Config, ConfigModel, FontSize, Profile, ProfileModel, ProfileType,
    RawFontSize,
};
use crate::sorted::SortedMap;
use crate::text::{self, join2, join3, push_decimal, trim};

verus! {

/// A configuration file's keys as they were read, before validation.
#[derive(Debug)]
pub struct RawConfig {
    pub font_family: Option<String>,
    pub font_size: Option<RawFontSize>,
    pub background: Option<String>,
    pub foreground: Option<String>,
    pub palette: Option<Vec<String>>,
    pub scrollback_limit: Option<usize>,
    pub keybinds: Option<SortedMap<String, String>>,
    pub clipboard_read: Option<String>,
    pub clipboard_write_max_bytes: Option<usize>,
    pub profiles: Option<Vec<RawProfile>>,
}

/// A `[[profile]]` entry as it was read, before validation.
#[derive(Debug)]
pub struct RawProfile {
    pub name: String,
    pub command: String,
    pub args: Vec<String>,
    pub cwd: Option<String>,
    pub env: SortedMap<String, String>,
    pub profile_type: String,
    pub icon: Option<String>,
    pub color: Option<String>,
    pub font_size: Option<RawFontSize>,
    pub theme: Option<String>,
    pub default: bool,
}

impl Default for RawConfig {
    /// A file that sets no key.
    fn default() -> (r: Self)
        ensures
            r == RawConfig::nothing_set(),
    {
        RawConfig {
            font_family: None,
            font_size: None,
            background: None,
            foreground: None,
            palette: None,
            scrollback_limit: None,
            keybinds: None,
            clipboard_read: None,
            clipboard_write_max_bytes: None,
            profiles: None,
        }
    }
}

impl RawConfig {
    /// A file that sets no key.
    pub open spec fn nothing_set() -> RawConfig {
        RawConfig {
            font_family: None,
            font_size: None,
            background: None,
            foreground: None,
            palette: None,
            scrollback_limit: None,
            keybinds: None,
            clipboard_read: None,
            clipboard_write_max_bytes: None,
            profiles: None,
        }
    }

    /// The environment overlays are sorted without doubles.
    pub open spec fn wf(&self) -> bool {
        self.profiles matches Some(list) ==> forall|i: int|
            0 <= i < list.len() ==> (#[trigger] list[i]).env.wf()
    }
}

// ---- what each key contributes --------------------------------------------

/// The size that is taken over, if any.
pub open spec fn size_choice(size: Option<RawFontSize>) -> Option<FontSize> {
    match size {
        Some(v) => if v.size.in_range() {
            Some(v.size)
        } else {
            None
        },
        None => None,
    }
}

/// The complaint about a font size, if there is one.
pub open spec fn size_errors(size: Option<RawFontSize>) -> Seq<DiagnosticModel> {
    match size {
        Some(v) => if v.size.in_range() {
            Seq::empty()
        } else {
            seq![
                diagnostics::error_on(
                    "font-size"@,
                    "font-size "@ + v.shown@ + " is out of range (4..=128)"@,
                ),
            ]
        },
        None => Seq::empty(),
    }
}

/// The color that is taken over, if any.
pub open spec fn color_choice(s: Option<String>) -> Option<Rgb> {
    match s {
        Some(s) => match color::color_of(s@) {
            Ok(c) => Some(c),
            Err(_) => None,
        },
        None => None,
    }
}

/// The complaint about a color given under `key`, if there is one.
pub open spec fn color_errors(key: Seq<char>, s: Option<String>) -> Seq<DiagnosticModel> {
    match s {
        Some(s) => match color::color_of(s@) {
            Ok(_) => Seq::empty(),
            Err(m) => seq![diagnostics::error_on(key, m)],
        },
        None => Seq::empty(),
    }
}

/// The key under which palette entry `i` is reported.
pub open spec fn palette_key(i: nat) -> Seq<char> {
    "palette["@ + text::decimal(i) + "]"@
}

/// The complaints about single palette entries.
pub open spec fn palette_entry_errors(entries: Seq<String>) -> Seq<DiagnosticModel>
    decreases entries.len(),
{
    if entries.len() == 0 {
        Seq::empty()
    } else {
        palette_entry_errors(entries.drop_last()) + color_errors(
            palette_key((entries.len() - 1) as nat),
            Some(entries.last()),
        )
    }
}

/// The complaints about a palette.
pub open spec fn palette_errors(palette: Option<Vec<String>>) -> Seq<DiagnosticModel> {
    match palette {
        Some(entries) => if entries.len() != 16 {
            seq![
                diagnostics::error_on(
                    "palette"@,
                    "palette must have exactly 16 entries, got "@ + text::decimal(
                        entries.len() as nat,
                    ),
                ),
            ]
        } else {
            palette_entry_errors(entries@)
        },
        None => Seq::empty(),
    }
}

/// The palette that an error-free file chooses.
pub open spec fn palette_choice(palette: Option<Vec<String>>) -> Seq<Rgb> {
    match palette {
        Some(entries) => entries@.map_values(|s: String| color_choice(Some(s)).unwrap()),
        None => schema::default_palette_colors(),
    }
}

/// The complaint about one keybind, if there is one: about its chord first,
/// else about its action.
pub open spec fn keybind_entry_errors(chord: Seq<char>, action: Seq<char>) -> Seq<DiagnosticModel> {
    match chord::chord_of(chord) {
        Err(m) => seq![diagnostics::error_on("keybinds."@ + chord, m)],
        Ok(_) => match Action::named(action) {
            Err(m) => seq![diagnostics::error_on("keybinds."@ + chord, m)],
            Ok(_) => Seq::empty(),
        },
    }
}

/// The complaints about keybinds, in key order.
pub open spec fn keybind_errors(entries: Seq<(Seq<char>, String)>) -> Seq<DiagnosticModel>
    decreases entries.len(),
{
    if entries.len() == 0 {
        Seq::empty()
    } else {
        keybind_errors(entries.drop_last()) + keybind_entry_errors(
            entries.last().0,
            entries.last().1@,
        )
    }
}

/// The keybinds of the entries that are in order; of two entries for one
/// chord the later stands.
pub open spec fn keybind_map(entries: Seq<(Seq<char>, String)>) -> Map<
    ChordModel,
    Action,
>
    decreases entries.len(),
{
    if entries.len() == 0 {
        Map::empty()
    } else {
        let earlier = keybind_map(entries.drop_last());
        match (
            chord::chord_of(entries.last().0),
            Action::named(entries.last().1@),
        ) {
            (Ok(chord), Ok(action)) => earlier.insert(chord, action),
            _ => earlier,
        }
    }
}

/// The complaint about the clipboard policy, if there is one.
pub open spec fn policy_errors(s: Option<String>) -> Seq<DiagnosticModel> {
    match s {
        Some(s) => match ClipboardReadPolicy::named(s@) {
            Ok(_) => Seq::empty(),
            Err(m) => seq![diagnostics::error_on("clipboard-read"@, m)],
        },
        None => Seq::empty(),
    }
}

/// The complaint about a profile's type, if there is one.
pub open spec fn type_errors(s: Seq<char>) -> Seq<DiagnosticModel> {
    match ProfileType::named(s) {
        Ok(_) => Seq::empty(),
        Err(m) => seq![diagnostics::error_on("type"@, m)],
    }
}

/// The complaint about a required text that is blank, if it is.
pub open spec fn blank_errors(key: Seq<char>, text: Seq<char>, message: Seq<char>) -> Seq<DiagnosticModel> {
    if text::trimmed(text).len() == 0 {
        seq![diagnostics::error_on(key, message)]
    } else {
        Seq::empty()
    }
}

/// The complaints about a profile.
pub open spec fn profile_errors(raw: RawProfile) -> Seq<DiagnosticModel> {
    type_errors(raw.profile_type@) + color_errors("color"@, raw.color) + size_errors(raw.font_size)
        + blank_errors("name"@, raw.name@, "profile name must not be empty"@) + blank_errors(
        "command"@,
        raw.command@,
        "profile command must not be empty"@,
    )
}

/// What an error-free profile says.
pub open spec fn profile_of(raw: RawProfile) -> ProfileModel {
    ProfileModel {
        name: raw.name@,
        command: raw.command@,
        args: schema::texts(raw.args@),
        cwd: diagnostics::text_of(raw.cwd),
        env: schema::env_of(raw.env),
        profile_type: ProfileType::named(raw.profile_type@)->Ok_0,
        icon: diagnostics::text_of(raw.icon),
        color: color_choice(raw.color),
        font_size: size_choice(raw.font_size),
        theme: diagnostics::text_of(raw.theme),
        default: raw.default,
    }
}

/// A complaint about profile `i` as the whole file reports it.
pub open spec fn in_profile(
    i: nat,
    d: DiagnosticModel,
) -> DiagnosticModel {
    DiagnosticModel {
        key: Some(
            match d.key {
                Some(key) => "profile["@ + text::decimal(i) + "]."@ + key,
                None => "profile["@ + text::decimal(i) + "]"@,
            },
        ),
        ..d
    }
}

/// The complaints about all profiles, in declaration order.
pub open spec fn profile_list_errors(list: Seq<RawProfile>) -> Seq<DiagnosticModel>
    decreases list.len(),
{
    if list.len() == 0 {
        Seq::empty()
    } else {
        profile_list_errors(list.drop_last()) + profile_errors(list.last()).map_values(
            |d: DiagnosticModel|
                in_profile((list.len() - 1) as nat, d),
        )
    }
}

/// The complaints about the `[[profile]]` entries.
pub open spec fn profiles_errors(list: Option<Vec<RawProfile>>) -> Seq<DiagnosticModel> {
    match list {
        Some(list) => profile_list_errors(list@),
        None => Seq::empty(),
    }
}

/// Every complaint about a file, in the order in which its keys are checked.
pub open spec fn config_errors(raw: RawConfig) -> Seq<DiagnosticModel> {
    size_errors(raw.font_size) + color_errors("background"@, raw.background) + color_errors(
        "foreground"@,
        raw.foreground,
    ) + palette_errors(raw.palette) + (match raw.keybinds {
        Some(map) => keybind_errors(map.listing()),
        None => Seq::empty(),
    }) + policy_errors(raw.clipboard_read) + profiles_errors(raw.profiles)
}

/// The configuration that an error-free file stands for: each key it sets,
/// the default for every other.
pub open spec fn config_of(raw: RawConfig) -> ConfigModel {
    let base = schema::default_config();
    ConfigModel {
        font_family: match raw.font_family {
            Some(s) => s@,
            None => base.font_family,
        },
        font_size: match size_choice(raw.font_size) {
            Some(v) => v,
            None => base.font_size,
        },
        background: match color_choice(raw.background) {
            Some(c) => c,
            None => base.background,
        },
        foreground: match color_choice(raw.foreground) {
            Some(c) => c,
            None => base.foreground,
        },
        palette: palette_choice(raw.palette),
        scrollback_limit: match raw.scrollback_limit {
            Some(n) => n,
            None => base.scrollback_limit,
        },
        keybinds: match raw.keybinds {
            Some(map) => keybind_map(map.listing()),
            None => base.keybinds,
        },
        clipboard_read: match raw.clipboard_read {
            Some(s) => ClipboardReadPolicy::named(s@)->Ok_0,
            None => base.clipboard_read,
        },
        clipboard_write_max_bytes: match raw.clipboard_write_max_bytes {
            Some(n) => n,
            None => base.clipboard_write_max_bytes,
        },
        profiles: match raw.profiles {
            Some(list) => list@.map_values(|p: RawProfile| profile_of(p)),
            None => base.profiles,
        },
    }
}

// ---- the checks themselves -------------------------------------------------

fn report(errors: &mut Vec<Diagnostic>, key: &str, message: String)
    ensures
        diagnostics::models(final(errors)@) == diagnostics::models(
            old(errors)@,
        ).push(diagnostics::error_on(key@, message@)),
{
    broadcast use diagnostics::models_push;

    let d = Diagnostic::error(message).with_key(key.to_owned());
    assert(d@ =~= diagnostics::error_on(key@, message@));
    errors.push(d);
}

fn check_size(size: &Option<RawFontSize>, errors: &mut Vec<Diagnostic>) -> (r: Option<FontSize>)
    ensures
        r == size_choice(*size),
        diagnostics::models(final(errors)@) == diagnostics::models(
            old(errors)@,
        ) + size_errors(*size),
{
    match size {
        Some(v) => {
            if v.size.is_in_range() {
                Some(v.size)
            } else {
                report(
                    errors,
                    "font-size",
                    join3("font-size ", v.shown.as_str(), " is out of range (4..=128)"),
                );
                None
            }
        },
        None => None,
    }
}

fn check_color(key: &str, s: &Option<String>, errors: &mut Vec<Diagnostic>) -> (r: Option<Rgb>)
    ensures
        r == color_choice(*s),
        diagnostics::models(final(errors)@) == diagnostics::models(
            old(errors)@,
        ) + color_errors(key@, *s),
{
    match s {
        Some(s) => match Rgb::parse(s.as_str()) {
            Ok(c) => Some(c),
            Err(message) => {
                report(errors, key, message);
                None
            },
        },
        None => None,
    }
}

fn check_blank(key: &str, text: &str, message: &str, errors: &mut Vec<Diagnostic>)
    ensures
        diagnostics::models(final(errors)@) == diagnostics::models(
            old(errors)@,
        ) + blank_errors(key@, text@, message@),
{
    if trim(text).as_str().is_empty() {
        report(errors, key, message.to_owned());
    }
}

fn palette_entry_key(i: usize) -> (r: String)
    ensures
        r@ == palette_key(i as nat),
{
    let mut key = "palette[".to_owned();
    push_decimal(&mut key, i as u64);
    key.append("]");
    key
}

fn check_palette(palette: &Option<Vec<String>>, errors: &mut Vec<Diagnostic>) -> (r: [Rgb; 16])
    ensures
        palette_errors(*palette).len() == 0 ==> r@ == palette_choice(*palette),
        diagnostics::models(final(errors)@) == diagnostics::models(old(errors)@)
            + palette_errors(*palette),
{
    let defaults = Config::default().palette;
    match palette {
        Some(entries) => {
            if entries.len() != 16 {
                let mut message = "palette must have exactly 16 entries, got ".to_owned();
                push_decimal(&mut message, entries.len() as u64);
                report(errors, "palette", message);
                return defaults;
            }
            let ghost start = diagnostics::models(errors@);
            let mut out = defaults;
            let mut i: usize = 0;
            assert(entries@.take(0) =~= Seq::<String>::empty());
            while i < 16
                invariant
                    i <= 16,
                    entries.len() == 16,
                    diagnostics::models(errors@) == start + palette_entry_errors(
                        entries@.take(i as int),
                    ),
                    palette_entry_errors(entries@.take(i as int)).len() == 0 ==> forall|j: int|
                        0 <= j < i ==> #[trigger] out@[j] == color_choice(Some(entries@[j])).unwrap(),
                decreases 16 - i,
            {
                assert(entries@.take(i + 1).drop_last() =~= entries@.take(i as int));
                let entry = entries[i].clone();
                let key = palette_entry_key(i);
                let choice = check_color(key.as_str(), &Some(entry), errors);
                if let Some(c) = choice {
                    out[i] = c;
                }
                i += 1;
            }
            assert(entries@.take(16) =~= entries@);
            assert(palette_errors(*palette).len() == 0 ==> out@ =~= palette_choice(*palette));
            out
        },
        None => defaults,
    }
}

fn check_keybinds(map: &SortedMap<String, String>, errors: &mut Vec<Diagnostic>) -> (r: SortedMap<
    Chord,
    Action,
>)
    ensures
        r.wf(),
        r@ == keybind_map(map.listing()),
        diagnostics::models(final(errors)@) == diagnostics::models(old(errors)@)
            + keybind_errors(map.listing()),
{
    let ghost start = diagnostics::models(errors@);
    let ghost entries = map.listing();
    let mut out: SortedMap<Chord, Action> = SortedMap::new();
    let mut i: usize = 0;
    assert(entries.take(0) =~= Seq::<(Seq<char>, String)>::empty());
    while i < map.len()
        invariant
            i <= entries.len(),
            entries == map.listing(),
            out.wf(),
            out@ == keybind_map(entries.take(i as int)),
            diagnostics::models(errors@) == start + keybind_errors(entries.take(i as int)),
        decreases entries.len() - i,
    {
        let (chord_text, action_text) = map.entry(i);
        assert(entries.take(i + 1).drop_last() =~= entries.take(i as int));
        assert(entries.take(i + 1).last() == entries[i as int]);
        match Chord::parse(chord_text.as_str()) {
            Err(message) => {
                let key = join2("keybinds.", chord_text.as_str());
                report(errors, key.as_str(), message);
            },
            Ok(chord) => match Action::parse(action_text.as_str()) {
                Err(message) => {
                    let key = join2("keybinds.", chord_text.as_str());
                    report(errors, key.as_str(), message);
                },
                Ok(action) => {
                    out.insert(chord, action);
                },
            },
        }
        i += 1;
    }
    assert(entries.take(i as int) =~= entries);
    out
}

fn check_policy(s: &Option<String>, errors: &mut Vec<Diagnostic>) -> (r: ClipboardReadPolicy)
    ensures
        policy_errors(*s).len() == 0 ==> r == (match *s {
            Some(s) => ClipboardReadPolicy::named(s@)->Ok_0,
            None => ClipboardReadPolicy::Deny,
        }),
        diagnostics::models(final(errors)@) == diagnostics::models(old(errors)@)
            + policy_errors(*s),
{
    match s {
        Some(s) => match ClipboardReadPolicy::parse(s.as_str()) {
            Ok(p) => p,
            Err(message) => {
                report(errors, "clipboard-read", message);
                ClipboardReadPolicy::Deny
            },
        },
        None => ClipboardReadPolicy::Deny,
    }
}

/// Validates one profile. Every complaint about it is reported, in the order
/// type, color, font size, name, command.
pub fn resolve_profile(raw: RawProfile) -> (r: Result<Profile, Vec<Diagnostic>>)
    ensures
        match r {
            Ok(p) => profile_errors(raw).len() == 0 && p@ == profile_of(raw) && p.env == raw.env,
            Err(errors) => profile_errors(raw).len() > 0 && diagnostics::models(errors@)
                == profile_errors(raw),
        },
{
    let mut errors: Vec<Diagnostic> = Vec::new();
    assert(diagnostics::models(errors@) =~= Seq::<DiagnosticModel>::empty());
    let profile_type = match ProfileType::parse(raw.profile_type.as_str()) {
        Ok(t) => t,
        Err(message) => {
            report(&mut errors, "type", message);
            ProfileType::Windows
        },
    };
    assert(diagnostics::models(errors@) =~= type_errors(raw.profile_type@));
    let color = check_color("color", &raw.color, &mut errors);
    let font_size = check_size(&raw.font_size, &mut errors);
    check_blank("name", raw.name.as_str(), "profile name must not be empty", &mut errors);
    check_blank("command", raw.command.as_str(), "profile command must not be empty", &mut errors);
    assert(diagnostics::models(errors@) == profile_errors(raw));
    if errors.len() > 0 {
        return Err(errors);
    }
    Ok(
        Profile {
            name: raw.name,
            command: raw.command,
            args: raw.args,
            cwd: raw.cwd,
            env: raw.env,
            profile_type,
            icon: raw.icon,
            color,
            font_size,
            theme: raw.theme,
            default: raw.default,
        },
    )
}

fn qualify(i: usize, d: Diagnostic) -> (r: Diagnostic)
    ensures
        r@ == in_profile(i as nat, d@),
{
    let mut key = "profile[".to_owned();
    push_decimal(&mut key, i as u64);
    match &d.key {
        Some(inner) => {
            key.append("].");
            key.append(inner.as_str());
        },
        None => {
            key.append("]");
        },
    }
    d.with_key(key)
}

fn qualify_all(i: usize, list: Vec<Diagnostic>, errors: &mut Vec<Diagnostic>)
    ensures
        diagnostics::models(final(errors)@) == diagnostics::models(old(errors)@)
            + diagnostics::models(list@).map_values(|d: DiagnosticModel| in_profile(i as nat, d)),
{
    let ghost start = diagnostics::models(errors@);
    let ghost all = list@;
    let ghost put = |d: DiagnosticModel| in_profile(i as nat, d);
    let mut n: usize = 0;
    assert(diagnostics::models(all.take(0)).map_values(put) =~= Seq::<DiagnosticModel>::empty());
    while n < list.len()
        invariant
            n <= list.len(),
            all == list@,
            put == (|d: DiagnosticModel| in_profile(i as nat, d)),
            diagnostics::models(errors@) == start + diagnostics::models(
                all.take(n as int),
            ).map_values(put),
        decreases list.len() - n,
    {
        let d = copy_of(&list[n]);
        let q = qualify(i, d);
        proof {
            diagnostics::models_push(errors@, q);
        }
        errors.push(q);
        proof {
            let before = diagnostics::models(all.take(n as int)).map_values(put);
            assert(diagnostics::models(all.take(n + 1)).map_values(put) =~= before.push(q@));
        }
        n += 1;
    }
    assert(all.take(n as int) =~= all);
}

/// The same diagnostic once more.
pub fn copy_of(d: &Diagnostic) -> (r: Diagnostic)
    ensures
        r@ == d@,
{
    Diagnostic {
        severity: d.severity,
        message: d.message.clone(),
        span: d.span,
        key: d.key.clone(),
    }
}

fn check_profiles(list: Vec<RawProfile>, errors: &mut Vec<Diagnostic>) -> (r: Vec<Profile>)
    ensures
        profile_list_errors(list@).len() == 0 ==> schema::profile_models(r@) == list@.map_values(
            |p: RawProfile| profile_of(p),
        ),
        (forall|i: int| 0 <= i < list.len() ==> (#[trigger] list[i]).env.wf()) ==> forall|i: int|
            0 <= i < r.len() ==> (#[trigger] r[i]).wf(),
        diagnostics::models(final(errors)@) == diagnostics::models(old(errors)@)
            + profile_list_errors(list@),
{
    let ghost start = diagnostics::models(errors@);
    let ghost all = list@;
    let ghost sorted = forall|i: int| 0 <= i < all.len() ==> (#[trigger] all[i]).env.wf();
    let mut rest = list;
    let mut out: Vec<Profile> = Vec::new();
    let mut i: usize = 0;
    let total = rest.len();
    assert(all.take(0) =~= Seq::<RawProfile>::empty());
    while i < total
        invariant
            i <= total,
            total == all.len(),
            rest@ == all.skip(i as int),
            sorted == (forall|j: int| 0 <= j < all.len() ==> (#[trigger] all[j]).env.wf()),
            profile_list_errors(all.take(i as int)).len() == 0 ==> schema::profile_models(out@)
                == all.take(i as int).map_values(|p: RawProfile| profile_of(p)),
            sorted ==> forall|j: int| 0 <= j < out.len() ==> (#[trigger] out[j]).wf(),
            diagnostics::models(errors@) == start + profile_list_errors(all.take(i as int)),
        decreases total - i,
    {
        assert(rest@[0] == all[i as int]);
        let raw = rest.remove(0);
        assert(rest@ =~= all.skip(i + 1));
        assert(all.take(i + 1).drop_last() =~= all.take(i as int));
        assert(all.take(i + 1).last() == raw);
        let ghost put = |d: DiagnosticModel| in_profile(i as nat, d);
        let ghost before = out@;
        match resolve_profile(raw) {
            Ok(p) => {
                out.push(p);
                assert(profile_errors(raw).map_values(put) =~= Seq::<DiagnosticModel>::empty());
                assert(schema::profile_models(out@) =~= schema::profile_models(before).push(p@));
                assert(all.take(i + 1).map_values(|p: RawProfile| profile_of(p)) =~= all.take(
                    i as int,
                ).map_values(|p: RawProfile| profile_of(p)).push(profile_of(raw)));
                assert(profile_list_errors(all.take(i + 1)) =~= profile_list_errors(
                    all.take(i as int),
                ));
            },
            Err(list) => {
                qualify_all(i, list, errors);
                assert(profile_list_errors(all.take(i + 1)) == profile_list_errors(
                    all.take(i as int),
                ) + profile_errors(raw).map_values(put));
            },
        }
        i += 1;
    }
    assert(all.take(i as int) =~= all);
    out
}

/// Validates a file and resolves it against the defaults: every complaint
/// about it, or the configuration it stands for.
pub fn resolve(raw: RawConfig) -> (r: Result<Config, Vec<Diagnostic>>)
    ensures
        match r {
            Ok(c) => config_errors(raw).len() == 0 && c@ == config_of(raw) && (raw.wf() ==> c.wf()),
            Err(errors) => config_errors(raw).len() > 0 && diagnostics::models(errors@)
                == config_errors(raw),
        },
{
    let mut errors: Vec<Diagnostic> = Vec::new();
    assert(diagnostics::models(errors@) =~= Seq::<DiagnosticModel>::empty());
    let defaults = Config::default();
    let font_family = match raw.font_family {
        Some(s) => s,
        None => defaults.font_family,
    };
    let font_size = match check_size(&raw.font_size, &mut errors) {
        Some(v) => v,
        None => defaults.font_size,
    };
    let background = match check_color("background", &raw.background, &mut errors) {
        Some(c) => c,
        None => defaults.background,
    };
    let foreground = match check_color("foreground", &raw.foreground, &mut errors) {
        Some(c) => c,
        None => defaults.foreground,
    };
    let palette = check_palette(&raw.palette, &mut errors);
    let scrollback_limit = match raw.scrollback_limit {
        Some(n) => n,
        None => defaults.scrollback_limit,
    };
    let keybinds = match &raw.keybinds {
        Some(map) => check_keybinds(map, &mut errors),
        None => defaults.keybinds,
    };
    let clipboard_read = check_policy(&raw.clipboard_read, &mut errors);
    let clipboard_write_max_bytes = match raw.clipboard_write_max_bytes {
        Some(n) => n,
        None => defaults.clipboard_write_max_bytes,
    };
    let profiles = match raw.profiles {
        Some(list) => check_profiles(list, &mut errors),
        None => Vec::new(),
    };
    assert(diagnostics::models(errors@) =~= config_errors(raw));
    if errors.len() > 0 {
        return Err(errors);
    }
    let config = Config {
        font_family,
        font_size,
        background,
        foreground,
        palette,
        scrollback_limit,
        keybinds,
        clipboard_read,
        clipboard_write_max_bytes,
        profiles,
    };
    assert(config@ =~= config_of(raw));
    Ok(config)
}

// ---- what every accepted file keeps to -----------------------------------------------

/// Whether a text is a color.
pub open spec fn is_color(s: Seq<char>) -> bool {
    color::color_of(s) is Ok
}

/// Whether a size lies between 4 and 128 points, both included.
pub open spec fn is_size(v: RawFontSize) -> bool {
    0x4080_0000 <= v.size.bits <= 0x4300_0000
}

/// Whether a `[[profile]]` entry is in order.
pub open spec fn is_valid_profile(raw: RawProfile) -> bool {
    &&& raw.profile_type@ == "windows"@ || raw.profile_type@ == "wsl"@
    &&& raw.color matches Some(s) ==> is_color(s@)
    &&& raw.font_size matches Some(v) ==> is_size(v)
    &&& text::trimmed(raw.name@).len() > 0
    &&& text::trimmed(raw.command@).len() > 0
}

/// Whether a keybind is in order.
pub open spec fn is_valid_keybind(chord: Seq<char>, action: Seq<char>) -> bool {
    &&& chord::chord_of(chord) is Ok
    &&& action == "copy"@ || action == "paste"@ || action == "scroll-to-bottom"@
}

/// Whether every key that a file sets is in order.
pub open spec fn is_valid_file(raw: RawConfig) -> bool {
    &&& raw.font_size matches Some(v) ==> is_size(v)
    &&& raw.background matches Some(s) ==> is_color(s@)
    &&& raw.foreground matches Some(s) ==> is_color(s@)
    &&& raw.palette matches Some(entries) ==> entries.len() == 16 && forall|i: int|
        0 <= i < 16 ==> is_color((#[trigger] entries[i])@)
    &&& raw.keybinds matches Some(map) ==> forall|i: int|
        0 <= i < map.listing().len() ==> is_valid_keybind(
            (#[trigger] map.listing()[i]).0,
            map.listing()[i].1@,
        )
    &&& raw.clipboard_read matches Some(s) ==> s@ == "deny"@ || s@ == "allow"@
    &&& raw.profiles matches Some(list) ==> forall|i: int|
        0 <= i < list.len() ==> is_valid_profile(#[trigger] list[i])
}

proof fn lemma_palette_entries(entries: Seq<String>)
    ensures
        palette_entry_errors(entries).len() == 0 <==> forall|i: int|
            0 <= i < entries.len() ==> is_color((#[trigger] entries[i])@),
    decreases entries.len(),
{
    if entries.len() > 0 {
        let earlier = entries.drop_last();
        lemma_palette_entries(earlier);
        assert(entries[entries.len() - 1] == entries.last());
        if palette_entry_errors(entries).len() == 0 {
            assert forall|i: int| 0 <= i < entries.len() implies is_color(
                (#[trigger] entries[i])@,
            ) by {
                if i < earlier.len() {
                    assert(earlier[i] == entries[i]);
                }
            }
        } else if forall|i: int| 0 <= i < entries.len() ==> is_color((#[trigger] entries[i])@) {
            assert forall|i: int| 0 <= i < earlier.len() implies is_color(
                (#[trigger] earlier[i])@,
            ) by {
                assert(earlier[i] == entries[i]);
            }
        }
    }
}

proof fn lemma_keybind_entries(entries: Seq<(Seq<char>, String)>)
    ensures
        keybind_errors(entries).len() == 0 <==> forall|i: int|
            0 <= i < entries.len() ==> is_valid_keybind(
                (#[trigger] entries[i]).0,
                entries[i].1@,
            ),
    decreases entries.len(),
{
    if entries.len() > 0 {
        let earlier = entries.drop_last();
        lemma_keybind_entries(earlier);
        assert(entries[entries.len() - 1] == entries.last());
        if keybind_errors(entries).len() == 0 {
            assert forall|i: int| 0 <= i < entries.len() implies is_valid_keybind(
                (#[trigger] entries[i]).0,
                entries[i].1@,
            ) by {
                if i < earlier.len() {
                    assert(earlier[i] == entries[i]);
                }
            }
        } else if forall|i: int|
            0 <= i < entries.len() ==> is_valid_keybind(
                (#[trigger] entries[i]).0,
                entries[i].1@,
            ) {
            assert forall|i: int| 0 <= i < earlier.len() implies is_valid_keybind(
                (#[trigger] earlier[i]).0,
                earlier[i].1@,
            ) by {
                assert(earlier[i] == entries[i]);
            }
        }
    }
}

proof fn lemma_profile_entries(list: Seq<RawProfile>)
    ensures
        profile_list_errors(list).len() == 0 <==> forall|i: int|
            0 <= i < list.len() ==> is_valid_profile(#[trigger] list[i]),
    decreases list.len(),
{
    if list.len() > 0 {
        let earlier = list.drop_last();
        lemma_profile_entries(earlier);
        assert(list[list.len() - 1] == list.last());
        assert(profile_errors(list.last()).len() == 0 <==> is_valid_profile(list.last()));
        if profile_list_errors(list).len() == 0 {
            assert forall|i: int| 0 <= i < list.len() implies is_valid_profile(
                #[trigger] list[i],
            ) by {
                if i < earlier.len() {
                    assert(earlier[i] == list[i]);
                }
            }
        } else if forall|i: int| 0 <= i < list.len() ==> is_valid_profile(#[trigger] list[i]) {
            assert forall|i: int| 0 <= i < earlier.len() implies is_valid_profile(
                #[trigger] earlier[i],
            ) by {
                assert(earlier[i] == list[i]);
            }
        }
    }
}

/// A file is accepted if and only if every key that it sets is in order.
pub proof fn accepted_iff_valid(raw: RawConfig)
    ensures
        config_errors(raw).len() == 0 <==> is_valid_file(raw),
{
    if let Some(entries) = raw.palette {
        lemma_palette_entries(entries@);
    }
    if let Some(map) = raw.keybinds {
        lemma_keybind_entries(map.listing());
    }
    if let Some(list) = raw.profiles {
        lemma_profile_entries(list@);
    }
}

/// Whether a profile says what its entry says, field by field.
pub open spec fn says_the_same(raw: RawProfile, p: ProfileModel) -> bool {
    &&& p.name == raw.name@
    &&& p.command == raw.command@
    &&& p.args.len() == raw.args.len()
    &&& forall|i: int| 0 <= i < raw.args.len() ==> #[trigger] p.args[i] == raw.args[i]@
    &&& p.env.len() == raw.env.listing().len()
    &&& forall|i: int|
        0 <= i < p.env.len() ==> (#[trigger] p.env[i]).0 == raw.env.listing()[i].0 && p.env[i].1
            == raw.env.listing()[i].1@
    &&& match raw.cwd {
        Some(s) => p.cwd == Some(s@),
        None => p.cwd is None,
    }
    &&& p.profile_type == ProfileType::Wsl <==> raw.profile_type@ == "wsl"@
    &&& p.profile_type == ProfileType::Windows <==> raw.profile_type@ == "windows"@
    &&& match raw.icon {
        Some(s) => p.icon == Some(s@),
        None => p.icon is None,
    }
    &&& match raw.color {
        Some(s) => p.color matches Some(c) && color::color_of(s@) == Ok::<Rgb, Seq<char>>(c),
        None => p.color is None,
    }
    &&& match raw.font_size {
        Some(v) => p.font_size == Some(v.size),
        None => p.font_size is None,
    }
    &&& match raw.theme {
        Some(s) => p.theme == Some(s@),
        None => p.theme is None,
    }
    &&& p.default == raw.default
}

/// Every key that an accepted file sets is taken over as it is.
pub proof fn set_keys_are_taken_over(raw: RawConfig)
    requires
        config_errors(raw).len() == 0,
    ensures
        raw.font_family matches Some(s) ==> config_of(raw).font_family == s@,
        raw.font_size matches Some(v) ==> config_of(raw).font_size == v.size,
        raw.background matches Some(s) ==> color::color_of(s@) == Ok::<Rgb, Seq<char>>(
            config_of(raw).background,
        ),
        raw.foreground matches Some(s) ==> color::color_of(s@) == Ok::<Rgb, Seq<char>>(
            config_of(raw).foreground,
        ),
        raw.palette matches Some(entries) ==> config_of(raw).palette.len() == 16 && forall|i: int|
            0 <= i < 16 ==> color::color_of((#[trigger] entries[i])@) == Ok::<Rgb, Seq<char>>(
                config_of(raw).palette[i],
            ),
        raw.scrollback_limit matches Some(n) ==> config_of(raw).scrollback_limit == n,
        raw.clipboard_read matches Some(s) ==> (config_of(raw).clipboard_read
            == ClipboardReadPolicy::Allow <==> s@ == "allow"@),
        raw.clipboard_write_max_bytes matches Some(n) ==> config_of(raw).clipboard_write_max_bytes
            == n,
        raw.profiles matches Some(list) ==> config_of(raw).profiles.len() == list.len() && forall|
            i: int,
        |
            0 <= i < list.len() ==> says_the_same(
                #[trigger] list[i],
                config_of(raw).profiles[i],
            ),
{
    accepted_iff_valid(raw);
    lemma_value_names();
    let c = config_of(raw);
    if let Some(entries) = raw.palette {
        assert forall|i: int| 0 <= i < 16 implies color::color_of((#[trigger] entries[i])@)
            == Ok::<Rgb, Seq<char>>(c.palette[i]) by {
            assert(is_color(entries[i]@));
        }
    }
    if let Some(list) = raw.profiles {
        assert forall|i: int| 0 <= i < list.len() implies says_the_same(
            #[trigger] list[i],
            c.profiles[i],
        ) by {
            assert(is_valid_profile(list[i]));
        }
    }
}

proof fn lemma_value_names()
    ensures
        "deny"@ != "allow"@,
        "windows"@ != "wsl"@,
        "copy"@ != "paste"@,
        "copy"@ != "scroll-to-bottom"@,
        "paste"@ != "scroll-to-bottom"@,
{
    reveal_strlit("deny");
    reveal_strlit("allow");
    reveal_strlit("windows");
    reveal_strlit("wsl");
    reveal_strlit("copy");
    reveal_strlit("paste");
    reveal_strlit("scroll-to-bottom");
    assert("deny"@.len() == 4 && "allow"@.len() == 5);
    assert("windows"@.len() == 7 && "wsl"@.len() == 3);
    assert("copy"@.len() == 4 && "paste"@.len() == 5 && "scroll-to-bottom"@.len() == 16);
}

/// Two accepted files that set a color, a size or a limit differently give
/// configurations that differ in it.
pub proof fn different_values_are_told_apart(a: RawConfig, b: RawConfig)
    requires
        config_errors(a).len() == 0,
        config_errors(b).len() == 0,
    ensures
        (a.foreground is Some && b.foreground is Some && color::color_of(a.foreground->0@)
            != color::color_of(b.foreground->0@)) ==> config_of(a).foreground != config_of(
            b,
        ).foreground,
        (a.background is Some && b.background is Some && color::color_of(a.background->0@)
            != color::color_of(b.background->0@)) ==> config_of(a).background != config_of(
            b,
        ).background,
        (a.font_family is Some && b.font_family is Some && a.font_family->0@
            != b.font_family->0@) ==> config_of(a).font_family != config_of(b).font_family,
        (a.font_size is Some && b.font_size is Some && a.font_size->0.size
            != b.font_size->0.size) ==> config_of(a).font_size != config_of(b).font_size,
        (a.scrollback_limit is Some && b.scrollback_limit is Some && a.scrollback_limit
            != b.scrollback_limit) ==> config_of(a).scrollback_limit != config_of(
            b,
        ).scrollback_limit,
        (a.clipboard_write_max_bytes is Some && b.clipboard_write_max_bytes is Some
            && a.clipboard_write_max_bytes != b.clipboard_write_max_bytes) ==> config_of(
            a,
        ).clipboard_write_max_bytes != config_of(b).clipboard_write_max_bytes,
        (a.clipboard_read is Some && b.clipboard_read is Some && a.clipboard_read->0@
            != b.clipboard_read->0@) ==> config_of(a).clipboard_read != config_of(
            b,
        ).clipboard_read,
{
    set_keys_are_taken_over(a);
    set_keys_are_taken_over(b);
    accepted_iff_valid(a);
    accepted_iff_valid(b);
    lemma_value_names();
}

/// A key that a file does not set has its default, whatever else the file
/// sets.
pub proof fn unset_keys_have_defaults(raw: RawConfig)
    ensures
        raw.font_family is None ==> config_of(raw).font_family == "Cascadia Mono"@,
        raw.font_size is None ==> config_of(raw).font_size.bits == 0x4140_0000,
        raw.background is None ==> config_of(raw).background == (Rgb {
            r: 0x0c,
            g: 0x0c,
            b: 0x0c,
        }),
        raw.foreground is None ==> config_of(raw).foreground == (Rgb {
            r: 0xcc,
            g: 0xcc,
            b: 0xcc,
        }),
        raw.palette is None ==> config_of(raw).palette == schema::default_palette_colors(),
        raw.scrollback_limit is None ==> config_of(raw).scrollback_limit == 12_000_000,
        raw.keybinds is None ==> config_of(raw).keybinds == schema::default_keybind_map(),
        raw.clipboard_read is None ==> config_of(raw).clipboard_read == ClipboardReadPolicy::Deny,
        raw.clipboard_write_max_bytes is None ==> config_of(raw).clipboard_write_max_bytes
            == 1_000_000,
        raw.profiles is None ==> config_of(raw).profiles.len() == 0,
{
}

proof fn lemma_keybind_stands(entries: Seq<(Seq<char>, String)>, i: int)
    requires
        0 <= i < entries.len(),
        chord::chord_of(entries[i].0) is Ok,
        Action::named(entries[i].1@) is Ok,
        forall|j: int|
            i < j < entries.len() ==> chord::chord_of((#[trigger] entries[j]).0)
                != chord::chord_of(entries[i].0),
    ensures
        keybind_map(entries).contains_key(chord::chord_of(entries[i].0)->Ok_0),
        keybind_map(entries)[chord::chord_of(entries[i].0)->Ok_0] == Action::named(
            entries[i].1@,
        )->Ok_0,
    decreases entries.len(),
{
    let earlier = entries.drop_last();
    if i < earlier.len() {
        assert(earlier[i] == entries[i]);
        assert forall|j: int| i < j < earlier.len() implies chord::chord_of(
            (#[trigger] earlier[j]).0,
        ) != chord::chord_of(earlier[i].0) by {
            assert(earlier[j] == entries[j]);
        }
        lemma_keybind_stands(earlier, i);
        assert(entries[entries.len() - 1] == entries.last());
    }
}

proof fn lemma_keybind_origin(entries: Seq<(Seq<char>, String)>, chord: ChordModel)
    requires
        keybind_map(entries).contains_key(chord),
    ensures
        exists|i: int|
            0 <= i < entries.len() && chord::chord_of((#[trigger] entries[i]).0) == Ok::<
                ChordModel,
                Seq<char>,
            >(chord),
    decreases entries.len(),
{
    if entries.len() > 0 {
        let earlier = entries.drop_last();
        assert(entries[entries.len() - 1] == entries.last());
        if keybind_map(earlier).contains_key(chord) {
            lemma_keybind_origin(earlier, chord);
            let i = choose|i: int|
                0 <= i < earlier.len() && chord::chord_of((#[trigger] earlier[i]).0) == Ok::<
                    ChordModel,
                    Seq<char>,
                >(chord);
            assert(entries[i] == earlier[i]);
        }
    }
}

/// A file's keybinds are exactly the ones it lists: each chord does what the
/// last entry for it says, and no chord does anything that is not listed.
pub proof fn listed_keybinds_stand(raw: RawConfig, i: int, chord: ChordModel)
    requires
        config_errors(raw).len() == 0,
        raw.keybinds is Some,
        0 <= i < raw.keybinds->0.listing().len(),
        chord::chord_of(raw.keybinds->0.listing()[i].0) == Ok::<ChordModel, Seq<char>>(chord),
        forall|j: int|
            i < j < raw.keybinds->0.listing().len() ==> chord::chord_of(
                (#[trigger] raw.keybinds->0.listing()[j]).0,
            ) != Ok::<ChordModel, Seq<char>>(chord),
    ensures
        config_of(raw).keybinds.contains_key(chord),
        config_of(raw).keybinds[chord] == Action::Copy <==> raw.keybinds->0.listing()[i].1@
            == "copy"@,
        config_of(raw).keybinds[chord] == Action::Paste <==> raw.keybinds->0.listing()[i].1@
            == "paste"@,
        config_of(raw).keybinds[chord] == Action::ScrollToBottom
            <==> raw.keybinds->0.listing()[i].1@ == "scroll-to-bottom"@,
        forall|other: ChordModel| #[trigger]
            config_of(raw).keybinds.contains_key(other) ==> exists|j: int|
                0 <= j < raw.keybinds->0.listing().len() && chord::chord_of(
                    (#[trigger] raw.keybinds->0.listing()[j]).0,
                ) == Ok::<ChordModel, Seq<char>>(other),
{
    accepted_iff_valid(raw);
    lemma_value_names();
    let entries = raw.keybinds->0.listing();
    assert(is_valid_keybind(entries[i].0, entries[i].1@));
    lemma_keybind_stands(entries, i);
    assert forall|other: ChordModel| #[trigger]
        config_of(raw).keybinds.contains_key(other) implies exists|j: int|
        0 <= j < entries.len() && chord::chord_of((#[trigger] entries[j]).0) == Ok::<
            ChordModel,
            Seq<char>,
        >(other) by {
        lemma_keybind_origin(entries, other);
    }
}

proof fn lemma_left(a: Seq<DiagnosticModel>, b: Seq<DiagnosticModel>, x: DiagnosticModel)
    requires
        a.contains(x),
    ensures
        (a + b).contains(x),
{
    let i = choose|i: int| 0 <= i < a.len() && a[i] == x;
    assert((a + b)[i] == x);
}

proof fn lemma_right(a: Seq<DiagnosticModel>, b: Seq<DiagnosticModel>)
    requires
        b.len() > 0,
    ensures
        (a + b).contains(b[0]),
{
    assert((a + b)[a.len() as int] == b[0]);
}

/// Every complaint stands under the key that it is about, with its own reason:
/// a size out of range, a color that is none, a palette without 16 entries and
/// a policy that is none.
pub proof fn complaints_stand_under_their_keys(raw: RawConfig)
    ensures
        raw.font_size matches Some(v) ==> (!is_size(v) ==> config_errors(raw).contains(
            DiagnosticModel {
                severity: diagnostics::Severity::Error,
                message: "font-size "@ + v.shown@ + " is out of range (4..=128)"@,
                span: None,
                key: Some("font-size"@),
            },
        )),
        raw.background matches Some(s) ==> (color::color_of(s@) matches Err(m) ==> config_errors(
            raw,
        ).contains(
            DiagnosticModel {
                severity: diagnostics::Severity::Error,
                message: m,
                span: None,
                key: Some("background"@),
            },
        )),
        raw.foreground matches Some(s) ==> (color::color_of(s@) matches Err(m) ==> config_errors(
            raw,
        ).contains(
            DiagnosticModel {
                severity: diagnostics::Severity::Error,
                message: m,
                span: None,
                key: Some("foreground"@),
            },
        )),
        raw.palette matches Some(entries) ==> (entries.len() != 16 ==> config_errors(raw).contains(
            DiagnosticModel {
                severity: diagnostics::Severity::Error,
                message: "palette must have exactly 16 entries, got "@ + text::decimal(
                    entries.len() as nat,
                ),
                span: None,
                key: Some("palette"@),
            },
        )),
        raw.clipboard_read matches Some(s) ==> (s@ != "deny"@ && s@ != "allow"@ ==> config_errors(
            raw,
        ).contains(
            DiagnosticModel {
                severity: diagnostics::Severity::Error,
                message: "clipboard-read must be \"deny\" or \"allow\", got \""@ + s@ + "\""@,
                span: None,
                key: Some("clipboard-read"@),
            },
        )),
{
    let size = size_errors(raw.font_size);
    let back = color_errors("background"@, raw.background);
    let fore = color_errors("foreground"@, raw.foreground);
    let palette = palette_errors(raw.palette);
    let keys = match raw.keybinds {
        Some(map) => keybind_errors(map.listing()),
        None => Seq::empty(),
    };
    let policy = policy_errors(raw.clipboard_read);
    let profiles = profiles_errors(raw.profiles);
    let s1 = size + back;
    let s2 = s1 + fore;
    let s3 = s2 + palette;
    let s4 = s3 + keys;
    let s5 = s4 + policy;
    if size.len() > 0 {
        let x = size[0];
        assert(size.contains(x));
        lemma_left(size, back, x);
        lemma_left(s1, fore, x);
        lemma_left(s2, palette, x);
        lemma_left(s3, keys, x);
        lemma_left(s4, policy, x);
        lemma_left(s5, profiles, x);
    }
    if back.len() > 0 {
        let x = back[0];
        lemma_right(size, back);
        lemma_left(s1, fore, x);
        lemma_left(s2, palette, x);
        lemma_left(s3, keys, x);
        lemma_left(s4, policy, x);
        lemma_left(s5, profiles, x);
    }
    if fore.len() > 0 {
        let x = fore[0];
        lemma_right(s1, fore);
        lemma_left(s2, palette, x);
        lemma_left(s3, keys, x);
        lemma_left(s4, policy, x);
        lemma_left(s5, profiles, x);
    }
    if palette.len() > 0 {
        let x = palette[0];
        lemma_right(s2, palette);
        lemma_left(s3, keys, x);
        lemma_left(s4, policy, x);
        lemma_left(s5, profiles, x);
    }
    if policy.len() > 0 {
        let x = policy[0];
        lemma_right(s4, policy);
        lemma_left(s5, profiles, x);
    }
}

/// The complaints about a profile stand under its keys, and in a whole file
/// under the profile's number.
pub proof fn profile_complaints_stand_under_their_keys(raw: RawProfile, i: nat)
    ensures
        text::trimmed(raw.name@).len() == 0 ==> profile_errors(raw).contains(
            DiagnosticModel {
                severity: diagnostics::Severity::Error,
                message: "profile name must not be empty"@,
                span: None,
                key: Some("name"@),
            },
        ),
        text::trimmed(raw.command@).len() == 0 ==> profile_errors(raw).contains(
            DiagnosticModel {
                severity: diagnostics::Severity::Error,
                message: "profile command must not be empty"@,
                span: None,
                key: Some("command"@),
            },
        ),
        raw.profile_type@ != "windows"@ && raw.profile_type@ != "wsl"@ ==> profile_errors(
            raw,
        ).contains(
            DiagnosticModel {
                severity: diagnostics::Severity::Error,
                message: "profile type must be \"windows\" or \"wsl\", got \""@
                    + raw.profile_type@ + "\""@,
                span: None,
                key: Some("type"@),
            },
        ),
        in_profile(
            i,
            DiagnosticModel {
                severity: diagnostics::Severity::Error,
                message: raw.name@,
                span: None,
                key: Some(raw.command@),
            },
        ) == (DiagnosticModel {
            severity: diagnostics::Severity::Error,
            message: raw.name@,
            span: None,
            key: Some("profile["@ + text::decimal(i) + "]."@ + raw.command@),
        }),
{
    let kind = type_errors(raw.profile_type@);
    let tint = color_errors("color"@, raw.color);
    let size = size_errors(raw.font_size);
    let name = blank_errors("name"@, raw.name@, "profile name must not be empty"@);
    let command = blank_errors("command"@, raw.command@, "profile command must not be empty"@);
    let s1 = kind + tint;
    let s2 = s1 + size;
    let s3 = s2 + name;
    if kind.len() > 0 {
        let x = kind[0];
        assert(kind.contains(x));
        lemma_left(kind, tint, x);
        lemma_left(s1, size, x);
        lemma_left(s2, name, x);
        lemma_left(s3, command, x);
    }
    if name.len() > 0 {
        lemma_right(s2, name);
        lemma_left(s3, command, name[0]);
    }
    if command.len() > 0 {
        lemma_right(s3, command);
    }
}

} // verus!
