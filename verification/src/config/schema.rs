//! The configuration schema: what a file may say, and how what it says is
//! validated and resolved against the defaults.
//!
//! Partial validity is not a thing: a file either validates as a whole or is
//! rejected with every error that was found in it.
use vstd::prelude::*;

use crate::config::chord::{Action, Chord, ChordModel};
use crate::config::color::{self, Rgb};
use crate::config::diagnostics;
use crate::sorted::SortedMap;
use crate::text::{join3, same};

verus! {

/// Byte budget for scrollback retention; about 10.9k lines of 80 columns.
pub const DEFAULT_SCROLLBACK_LIMIT: usize = 12_000_000;

pub const DEFAULT_FONT_FAMILY: &'static str = "Cascadia Mono";

/// 12.0 as a single-precision bit pattern.
pub const DEFAULT_FONT_SIZE: u32 = 0x4140_0000;

/// 4.0 as a single-precision bit pattern.
pub const MIN_FONT_SIZE: u32 = 0x4080_0000;

/// 128.0 as a single-precision bit pattern.
pub const MAX_FONT_SIZE: u32 = 0x4300_0000;

pub const DEFAULT_BACKGROUND: &'static str = "#0c0c0c";

pub const DEFAULT_FOREGROUND: &'static str = "#cccccc";

pub const DEFAULT_CLIPBOARD_WRITE_MAX_BYTES: usize = 1_000_000;

/// The 16 colors used when `palette` is not specified.
pub const DEFAULT_PALETTE: [&'static str; 16] = [
    "#0c0c0c",
    "#c50f1f",
    "#13a10e",
    "#c19c00",
    "#0037da",
    "#881798",
    "#3a96dd",
    "#cccccc",
    "#767676",
    "#e74856",
    "#16c60c",
    "#f9f1a5",
    "#3b78ff",
    "#b4009e",
    "#61d6d6",
    "#f2f2f2",
];

/// A font size in points, held as the bit pattern of a single-precision
/// number. Bit patterns of positive numbers are ordered as the numbers are.
#[derive(Debug, Clone, Copy, PartialEq, Eq, Structural)]
pub struct FontSize {
    pub bits: u32,
}

impl FontSize {
    /// Whether the size lies between 4 and 128 points, both included.
    pub open spec fn in_range(self) -> bool {
        MIN_FONT_SIZE <= self.bits <= MAX_FONT_SIZE
    }

    /// Tests whether the size lies between 4 and 128 points.
    pub fn is_in_range(self) -> (r: bool)
        ensures
            r == self.in_range(),
    {
        MIN_FONT_SIZE <= self.bits && self.bits <= MAX_FONT_SIZE
    }
}

/// A font size as a file gives it: the size and the decimal text shown for it
/// in messages.
#[derive(Debug, Clone, PartialEq, Eq)]
pub struct RawFontSize {
    pub size: FontSize,
    pub shown: String,
}

/// Whether programs may read the clipboard through OSC 52.
#[derive(Debug, Clone, Copy, PartialEq, Eq, Structural)]
pub enum ClipboardReadPolicy {
    Deny,
    Allow,
}

impl ClipboardReadPolicy {
    /// The policy with a given name, or why there is none.
    pub open spec fn named(s: Seq<char>) -> Result<ClipboardReadPolicy, Seq<char>> {
        if s == "deny"@ {
            Ok(ClipboardReadPolicy::Deny)
        } else if s == "allow"@ {
            Ok(ClipboardReadPolicy::Allow)
        } else {
            Err("clipboard-read must be \"deny\" or \"allow\", got \""@ + s + "\""@)
        }
    }

    /// Reads the name of a policy.
    pub fn parse(s: &str) -> (r: Result<Self, String>)
        ensures
            match (r, ClipboardReadPolicy::named(s@)) {
                (Ok(a), Ok(b)) => a == b,
                (Err(e), Err(m)) => e@ == m,
                _ => false,
            },
    {
        if same(s, "deny") {
            Ok(ClipboardReadPolicy::Deny)
        } else if same(s, "allow") {
            Ok(ClipboardReadPolicy::Allow)
        } else {
            Err(join3("clipboard-read must be \"deny\" or \"allow\", got \"", s, "\""))
        }
    }
}

/// What kind of session a profile opens.
#[derive(Debug, Clone, Copy, PartialEq, Eq, Structural)]
pub enum ProfileType {
    Windows,
    Wsl,
}

impl ProfileType {
    /// The type with a given name, or why there is none.
    pub open spec fn named(s: Seq<char>) -> Result<ProfileType, Seq<char>> {
        if s == "windows"@ {
            Ok(ProfileType::Windows)
        } else if s == "wsl"@ {
            Ok(ProfileType::Wsl)
        } else {
            Err("profile type must be \"windows\" or \"wsl\", got \""@ + s + "\""@)
        }
    }

    /// Reads the name of a profile type.
    pub fn parse(s: &str) -> (r: Result<Self, String>)
        ensures
            match (r, ProfileType::named(s@)) {
                (Ok(a), Ok(b)) => a == b,
                (Err(e), Err(m)) => e@ == m,
                _ => false,
            },
    {
        if same(s, "windows") {
            Ok(ProfileType::Windows)
        } else if same(s, "wsl") {
            Ok(ProfileType::Wsl)
        } else {
            Err(join3("profile type must be \"windows\" or \"wsl\", got \"", s, "\""))
        }
    }
}

/// A `[[profile]]` entry that has been validated.
#[derive(Debug, Clone, PartialEq, Eq)]
pub struct Profile {
    pub name: String,
    pub command: String,
    pub args: Vec<String>,
    pub cwd: Option<String>,
    pub env: SortedMap<String, String>,
    pub profile_type: ProfileType,
    pub icon: Option<String>,
    pub color: Option<Rgb>,
    pub font_size: Option<FontSize>,
    pub theme: Option<String>,
    /// Marks the profile that is selected when none is named. Where several
    /// set it, the first in declaration order wins.
    pub default: bool,
}

/// What a [`Profile`] says.
#[verifier::ext_equal]
pub struct ProfileModel {
    pub name: Seq<char>,
    pub command: Seq<char>,
    pub args: Seq<Seq<char>>,
    pub cwd: Option<Seq<char>>,
    /// The environment overlay, in key order.
    pub env: Seq<(Seq<char>, Seq<char>)>,
    pub profile_type: ProfileType,
    pub icon: Option<Seq<char>>,
    pub color: Option<Rgb>,
    pub font_size: Option<FontSize>,
    pub theme: Option<Seq<char>>,
    pub default: bool,
}

/// The texts of a list of strings.
pub open spec fn texts(list: Seq<String>) -> Seq<Seq<char>> {
    list.map_values(|s: String| s@)
}

/// The entries of an environment overlay, in key order.
pub open spec fn env_of(env: SortedMap<String, String>) -> Seq<(Seq<char>, Seq<char>)> {
    env.listing().map_values(|e: (Seq<char>, String)| (e.0, e.1@))
}

impl View for Profile {
    type V = ProfileModel;

    open spec fn view(&self) -> ProfileModel {
        ProfileModel {
            name: self.name@,
            command: self.command@,
            args: texts(self.args@),
            cwd: diagnostics::text_of(self.cwd),
            env: env_of(self.env),
            profile_type: self.profile_type,
            icon: diagnostics::text_of(self.icon),
            color: self.color,
            font_size: self.font_size,
            theme: diagnostics::text_of(self.theme),
            default: self.default,
        }
    }
}

impl Profile {
    /// The environment overlay is sorted and names no variable twice.
    pub open spec fn wf(&self) -> bool {
        self.env.wf()
    }
}

/// A fully resolved configuration. Every field carries a value; there is no
/// unset state.
#[derive(Debug, Clone, PartialEq, Eq)]
pub struct Config {
    pub font_family: String,
    pub font_size: FontSize,
    pub background: Rgb,
    pub foreground: Rgb,
    pub palette: [Rgb; 16],
    /// Scrollback retention, in bytes.
    pub scrollback_limit: usize,
    pub keybinds: SortedMap<Chord, Action>,
    pub clipboard_read: ClipboardReadPolicy,
    pub clipboard_write_max_bytes: usize,
    pub profiles: Vec<Profile>,
}

/// What a [`Config`] says.
#[verifier::ext_equal]
pub struct ConfigModel {
    pub font_family: Seq<char>,
    pub font_size: FontSize,
    pub background: Rgb,
    pub foreground: Rgb,
    pub palette: Seq<Rgb>,
    pub scrollback_limit: usize,
    pub keybinds: Map<ChordModel, Action>,
    pub clipboard_read: ClipboardReadPolicy,
    pub clipboard_write_max_bytes: usize,
    pub profiles: Seq<ProfileModel>,
}

/// What a list of profiles says.
pub open spec fn profile_models(list: Seq<Profile>) -> Seq<ProfileModel> {
    list.map_values(|p: Profile| p@)
}

impl View for Config {
    type V = ConfigModel;

    open spec fn view(&self) -> ConfigModel {
        ConfigModel {
            font_family: self.font_family@,
            font_size: self.font_size,
            background: self.background,
            foreground: self.foreground,
            palette: self.palette@,
            scrollback_limit: self.scrollback_limit,
            keybinds: self.keybinds@,
            clipboard_read: self.clipboard_read,
            clipboard_write_max_bytes: self.clipboard_write_max_bytes,
            profiles: profile_models(self.profiles@),
        }
    }
}

impl Config {
    /// The keybinds and the environment overlays are sorted without doubles.
    pub open spec fn wf(&self) -> bool {
        &&& self.keybinds.wf()
        &&& forall|i: int| 0 <= i < self.profiles.len() ==> (#[trigger] self.profiles[i]).wf()
    }
}

/// The default palette.
pub open spec fn default_palette_colors() -> Seq<Rgb> {
    seq![
        Rgb { r: 0x0c, g: 0x0c, b: 0x0c },
        Rgb { r: 0xc5, g: 0x0f, b: 0x1f },
        Rgb { r: 0x13, g: 0xa1, b: 0x0e },
        Rgb { r: 0xc1, g: 0x9c, b: 0x00 },
        Rgb { r: 0x00, g: 0x37, b: 0xda },
        Rgb { r: 0x88, g: 0x17, b: 0x98 },
        Rgb { r: 0x3a, g: 0x96, b: 0xdd },
        Rgb { r: 0xcc, g: 0xcc, b: 0xcc },
        Rgb { r: 0x76, g: 0x76, b: 0x76 },
        Rgb { r: 0xe7, g: 0x48, b: 0x56 },
        Rgb { r: 0x16, g: 0xc6, b: 0x0c },
        Rgb { r: 0xf9, g: 0xf1, b: 0xa5 },
        Rgb { r: 0x3b, g: 0x78, b: 0xff },
        Rgb { r: 0xb4, g: 0x00, b: 0x9e },
        Rgb { r: 0x61, g: 0xd6, b: 0xd6 },
        Rgb { r: 0xf2, g: 0xf2, b: 0xf2 },
    ]
}

/// The chord of control, shift and one key.
pub open spec fn ctrl_shift(key: Seq<char>) -> ChordModel {
    ChordModel { ctrl: true, alt: false, shift: true, key }
}

/// The default keybinds: copy and paste.
pub open spec fn default_keybind_map() -> Map<ChordModel, Action> {
    Map::empty().insert(ctrl_shift("c"@), Action::Copy).insert(ctrl_shift("v"@), Action::Paste)
}

/// The configuration in effect when a file says nothing.
pub open spec fn default_config() -> ConfigModel {
    ConfigModel {
        font_family: "Cascadia Mono"@,
        font_size: FontSize { bits: DEFAULT_FONT_SIZE },
        background: Rgb { r: 0x0c, g: 0x0c, b: 0x0c },
        foreground: Rgb { r: 0xcc, g: 0xcc, b: 0xcc },
        palette: default_palette_colors(),
        scrollback_limit: DEFAULT_SCROLLBACK_LIMIT,
        keybinds: default_keybind_map(),
        clipboard_read: ClipboardReadPolicy::Deny,
        clipboard_write_max_bytes: DEFAULT_CLIPBOARD_WRITE_MAX_BYTES,
        profiles: Seq::empty(),
    }
}

proof fn lemma_default_color(s: Seq<char>, c: Rgb)
    requires
        s == color::hex_notation(c),
    ensures
        color::color_of(s) == Ok::<Rgb, Seq<char>>(c),
{
    color::color_round_trip(c);
}

proof fn lemma_default_palette()
    ensures
        forall|i: int|
            0 <= i < 16 ==> color::color_of((#[trigger] DEFAULT_PALETTE[i])@) == Ok::<
                Rgb,
                Seq<char>,
            >(default_palette_colors()[i]),
{
    reveal_strlit("#0c0c0c");
    reveal_strlit("#c50f1f");
    reveal_strlit("#13a10e");
    reveal_strlit("#c19c00");
    reveal_strlit("#0037da");
    reveal_strlit("#881798");
    reveal_strlit("#3a96dd");
    reveal_strlit("#cccccc");
    reveal_strlit("#767676");
    reveal_strlit("#e74856");
    reveal_strlit("#16c60c");
    reveal_strlit("#f9f1a5");
    reveal_strlit("#3b78ff");
    reveal_strlit("#b4009e");
    reveal_strlit("#61d6d6");
    reveal_strlit("#f2f2f2");
    assert forall|i: int| 0 <= i < 16 implies color::color_of(
        (#[trigger] DEFAULT_PALETTE[i])@,
    ) == Ok::<Rgb, Seq<char>>(default_palette_colors()[i]) by {
        let c = default_palette_colors()[i];
        assert(DEFAULT_PALETTE[i]@ =~= color::hex_notation(c));
        lemma_default_color(DEFAULT_PALETTE[i]@, c);
    }
}

fn default_palette() -> (r: [Rgb; 16])
    ensures
        r@ == default_palette_colors(),
{
    let names = DEFAULT_PALETTE;
    let mut out = [Rgb { r: 0, g: 0, b: 0 };16];
    let mut i: usize = 0;
    let ghost wanted = default_palette_colors();
    proof {
        lemma_default_palette();
        assert(forall|j: int|
            0 <= j < 16 ==> color::color_of((#[trigger] names@[j])@) == Ok::<
                Rgb,
                Seq<char>,
            >(wanted[j]));
    }
    while i < 16
        invariant
            i <= 16,
            names@.len() == 16,
            forall|j: int|
                0 <= j < 16 ==> color::color_of((#[trigger] names@[j])@) == Ok::<
                    Rgb,
                    Seq<char>,
                >(wanted[j]),
            forall|j: int| 0 <= j < i ==> #[trigger] out@[j] == wanted[j],
        decreases 16 - i,
    {
        let color = Rgb::parse(names[i]).unwrap();
        assert(color == wanted[i as int]);
        out[i] = color;
        i += 1;
    }
    assert(out@ =~= wanted);
    out
}

fn default_keybinds() -> (r: SortedMap<Chord, Action>)
    ensures
        r.wf(),
        r@ == default_keybind_map(),
{
    let mut m: SortedMap<Chord, Action> = SortedMap::new();
    m.insert(Chord { ctrl: true, alt: false, shift: true, key: "c".to_owned() }, Action::Copy);
    m.insert(Chord { ctrl: true, alt: false, shift: true, key: "v".to_owned() }, Action::Paste);
    m
}

impl Default for Config {
    fn default() -> (r: Self)
        ensures
            r.wf(),
            r@ == default_config(),
    {
        proof {
            reveal_strlit("#0c0c0c");
            reveal_strlit("#cccccc");
            let dark = Rgb { r: 0x0c, g: 0x0c, b: 0x0c };
            let light = Rgb { r: 0xcc, g: 0xcc, b: 0xcc };
            assert("#0c0c0c"@ =~= color::hex_notation(dark));
            assert("#cccccc"@ =~= color::hex_notation(light));
            lemma_default_color("#0c0c0c"@, dark);
            lemma_default_color("#cccccc"@, light);
        }
        let r = Config {
            font_family: DEFAULT_FONT_FAMILY.to_owned(),
            font_size: FontSize { bits: DEFAULT_FONT_SIZE },
            background: Rgb::parse(DEFAULT_BACKGROUND).unwrap(),
            foreground: Rgb::parse(DEFAULT_FOREGROUND).unwrap(),
            palette: default_palette(),
            scrollback_limit: DEFAULT_SCROLLBACK_LIMIT,
            keybinds: default_keybinds(),
            clipboard_read: ClipboardReadPolicy::Deny,
            clipboard_write_max_bytes: DEFAULT_CLIPBOARD_WRITE_MAX_BYTES,
            profiles: Vec::new(),
        };
        assert(r@ =~= default_config());
        r
    }
}

/// The default palette as it is usually written, color by color.
#[verifier::rlimit(30)]
pub proof fn default_palette_is_this()
    ensures
        default_config().palette.len() == 16,
        color::color_of("#0c0c0c"@) == Ok::<Rgb, Seq<char>>(default_config().palette[0]),
        color::color_of("#c50f1f"@) == Ok::<Rgb, Seq<char>>(default_config().palette[1]),
        color::color_of("#13a10e"@) == Ok::<Rgb, Seq<char>>(default_config().palette[2]),
        color::color_of("#c19c00"@) == Ok::<Rgb, Seq<char>>(default_config().palette[3]),
        color::color_of("#0037da"@) == Ok::<Rgb, Seq<char>>(default_config().palette[4]),
        color::color_of("#881798"@) == Ok::<Rgb, Seq<char>>(default_config().palette[5]),
        color::color_of("#3a96dd"@) == Ok::<Rgb, Seq<char>>(default_config().palette[6]),
        color::color_of("#cccccc"@) == Ok::<Rgb, Seq<char>>(default_config().palette[7]),
        color::color_of("#767676"@) == Ok::<Rgb, Seq<char>>(default_config().palette[8]),
        color::color_of("#e74856"@) == Ok::<Rgb, Seq<char>>(default_config().palette[9]),
        color::color_of("#16c60c"@) == Ok::<Rgb, Seq<char>>(default_config().palette[10]),
        color::color_of("#f9f1a5"@) == Ok::<Rgb, Seq<char>>(default_config().palette[11]),
        color::color_of("#3b78ff"@) == Ok::<Rgb, Seq<char>>(default_config().palette[12]),
        color::color_of("#b4009e"@) == Ok::<Rgb, Seq<char>>(default_config().palette[13]),
        color::color_of("#61d6d6"@) == Ok::<Rgb, Seq<char>>(default_config().palette[14]),
        color::color_of("#f2f2f2"@) == Ok::<Rgb, Seq<char>>(default_config().palette[15]),
{
    reveal_strlit("#0c0c0c");
    reveal_strlit("#c50f1f");
    reveal_strlit("#13a10e");
    reveal_strlit("#c19c00");
    reveal_strlit("#0037da");
    reveal_strlit("#881798");
    reveal_strlit("#3a96dd");
    reveal_strlit("#cccccc");
    reveal_strlit("#767676");
    reveal_strlit("#e74856");
    reveal_strlit("#16c60c");
    reveal_strlit("#f9f1a5");
    reveal_strlit("#3b78ff");
    reveal_strlit("#b4009e");
    reveal_strlit("#61d6d6");
    reveal_strlit("#f2f2f2");
    assert("#0c0c0c"@ =~= color::hex_notation(default_palette_colors()[0]));
    lemma_default_color("#0c0c0c"@, default_palette_colors()[0]);
    assert("#c50f1f"@ =~= color::hex_notation(default_palette_colors()[1]));
    lemma_default_color("#c50f1f"@, default_palette_colors()[1]);
    assert("#13a10e"@ =~= color::hex_notation(default_palette_colors()[2]));
    lemma_default_color("#13a10e"@, default_palette_colors()[2]);
    assert("#c19c00"@ =~= color::hex_notation(default_palette_colors()[3]));
    lemma_default_color("#c19c00"@, default_palette_colors()[3]);
    assert("#0037da"@ =~= color::hex_notation(default_palette_colors()[4]));
    lemma_default_color("#0037da"@, default_palette_colors()[4]);
    assert("#881798"@ =~= color::hex_notation(default_palette_colors()[5]));
    lemma_default_color("#881798"@, default_palette_colors()[5]);
    assert("#3a96dd"@ =~= color::hex_notation(default_palette_colors()[6]));
    lemma_default_color("#3a96dd"@, default_palette_colors()[6]);
    assert("#cccccc"@ =~= color::hex_notation(default_palette_colors()[7]));
    lemma_default_color("#cccccc"@, default_palette_colors()[7]);
    assert("#767676"@ =~= color::hex_notation(default_palette_colors()[8]));
    lemma_default_color("#767676"@, default_palette_colors()[8]);
    assert("#e74856"@ =~= color::hex_notation(default_palette_colors()[9]));
    lemma_default_color("#e74856"@, default_palette_colors()[9]);
    assert("#16c60c"@ =~= color::hex_notation(default_palette_colors()[10]));
    lemma_default_color("#16c60c"@, default_palette_colors()[10]);
    assert("#f9f1a5"@ =~= color::hex_notation(default_palette_colors()[11]));
    lemma_default_color("#f9f1a5"@, default_palette_colors()[11]);
    assert("#3b78ff"@ =~= color::hex_notation(default_palette_colors()[12]));
    lemma_default_color("#3b78ff"@, default_palette_colors()[12]);
    assert("#b4009e"@ =~= color::hex_notation(default_palette_colors()[13]));
    lemma_default_color("#b4009e"@, default_palette_colors()[13]);
    assert("#61d6d6"@ =~= color::hex_notation(default_palette_colors()[14]));
    lemma_default_color("#61d6d6"@, default_palette_colors()[14]);
    assert("#f2f2f2"@ =~= color::hex_notation(default_palette_colors()[15]));
    lemma_default_color("#f2f2f2"@, default_palette_colors()[15]);
}

/// The other defaults: Cascadia Mono at 12 points, light gray on near black,
/// 12 million bytes of scrollback, refused clipboard reads, clipboard writes
/// of up to a million bytes, and no profile of the user's.
pub proof fn defaults_are_these()
    ensures
        default_config().font_family == "Cascadia Mono"@,
        default_config().font_size.bits == 0x4140_0000,
        color::color_of("#0c0c0c"@) == Ok::<Rgb, Seq<char>>(default_config().background),
        color::color_of("#cccccc"@) == Ok::<Rgb, Seq<char>>(default_config().foreground),
        default_config().scrollback_limit == 12_000_000,
        default_config().clipboard_read == ClipboardReadPolicy::Deny,
        default_config().clipboard_write_max_bytes == 1_000_000,
        default_config().profiles.len() == 0,
{
    reveal_strlit("#0c0c0c");
    reveal_strlit("#cccccc");
    assert("#0c0c0c"@ =~= color::hex_notation(Rgb { r: 0x0c, g: 0x0c, b: 0x0c }));
    lemma_default_color("#0c0c0c"@, Rgb { r: 0x0c, g: 0x0c, b: 0x0c });
    assert("#cccccc"@ =~= color::hex_notation(Rgb { r: 0xcc, g: 0xcc, b: 0xcc }));
    lemma_default_color("#cccccc"@, Rgb { r: 0xcc, g: 0xcc, b: 0xcc });
}

/// By default Control, Shift and C copy, Control, Shift and V paste, and no
/// other chord does anything.
pub proof fn default_keybinds_are_these(chord: ChordModel)
    ensures
        default_config().keybinds.contains_key(chord) <==> chord.ctrl && chord.shift && !chord.alt
            && (chord.key == "c"@ || chord.key == "v"@),
        chord.ctrl && chord.shift && !chord.alt && chord.key == "c"@
            ==> default_config().keybinds[chord] == Action::Copy,
        chord.ctrl && chord.shift && !chord.alt && chord.key == "v"@
            ==> default_config().keybinds[chord] == Action::Paste,
{
    reveal_strlit("c");
    reveal_strlit("v");
    assert("c"@[0] == 'c' && "v"@[0] == 'v');
    assert("c"@ != "v"@);
    if chord.ctrl && chord.shift && !chord.alt {
        assert(chord =~= ctrl_shift(chord.key));
    }
}

/// The names of the clipboard policies and of the profile types.
pub proof fn values_by_name(s: Seq<char>)
    ensures
        ClipboardReadPolicy::named(s) == Ok::<ClipboardReadPolicy, Seq<char>>(
            ClipboardReadPolicy::Deny,
        ) <==> s == "deny"@,
        ClipboardReadPolicy::named(s) == Ok::<ClipboardReadPolicy, Seq<char>>(
            ClipboardReadPolicy::Allow,
        ) <==> s == "allow"@,
        ProfileType::named(s) == Ok::<ProfileType, Seq<char>>(ProfileType::Windows) <==> s
            == "windows"@,
        ProfileType::named(s) == Ok::<ProfileType, Seq<char>>(ProfileType::Wsl) <==> s == "wsl"@,
{
    reveal_strlit("deny");
    reveal_strlit("allow");
    reveal_strlit("windows");
    reveal_strlit("wsl");
    assert("deny"@.len() == 4 && "allow"@.len() == 5 && "windows"@.len() == 7 && "wsl"@.len()
        == 3);
}

/// What is said of a configuration is said of its very fields.
pub proof fn configurations_are_their_fields(c: Config)
    ensures
        c@.font_family == c.font_family@,
        c@.font_size == c.font_size,
        c@.background == c.background,
        c@.foreground == c.foreground,
        c@.palette.len() == 16,
        forall|i: int| 0 <= i < 16 ==> #[trigger] c@.palette[i] == c.palette[i],
        c@.scrollback_limit == c.scrollback_limit,
        c@.keybinds == c.keybinds@,
        c@.clipboard_read == c.clipboard_read,
        c@.clipboard_write_max_bytes == c.clipboard_write_max_bytes,
        c@.profiles.len() == c.profiles.len(),
        forall|i: int| 0 <= i < c.profiles.len() ==> #[trigger] c@.profiles[i] == c.profiles[i]@,
{
}

/// What is said of a profile is said of its very fields.
pub proof fn profiles_are_their_fields(p: Profile)
    ensures
        p@.name == p.name@,
        p@.command == p.command@,
        p@.args.len() == p.args.len(),
        forall|i: int| 0 <= i < p.args.len() ==> #[trigger] p@.args[i] == p.args[i]@,
        p.cwd matches Some(s) ==> p@.cwd == Some(s@),
        p.cwd is None ==> p@.cwd is None,
        p@.env.len() == p.env.listing().len(),
        forall|i: int|
            0 <= i < p@.env.len() ==> (#[trigger] p@.env[i]).0 == p.env.listing()[i].0
                && p@.env[i].1 == p.env.listing()[i].1@,
        p@.profile_type == p.profile_type,
        p.icon matches Some(s) ==> p@.icon == Some(s@),
        p@.color == p.color,
        p@.font_size == p.font_size,
        p.theme matches Some(s) ==> p@.theme == Some(s@),
        p@.default == p.default,
{
}

} // verus!
