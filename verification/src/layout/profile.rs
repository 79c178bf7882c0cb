//! The profile model: built-in profiles, their merge with discovered and user
//! profiles, and what each of them launches.
//!
//! The list is built from three sources in this order: the built-ins, which
//! are always present; profiles that another part of the program discovers;
//! the user's `[[profile]]` entries. A profile whose name is already in the
//! list replaces that entry as a whole and keeps its place. Any other is
//! appended.
use vstd::prelude::*;

use crate::config::color::Rgb;
use crate::config::diagnostics;
use crate::config::schema::{self, Config, FontSize, Profile, ProfileModel, ProfileType};
use crate::sorted::SortedMap;
use crate::text::same;

verus! {

/// A profile with every field resolved against the configuration.
#[derive(Debug, Clone, PartialEq, Eq)]
pub struct ResolvedProfile {
    pub name: String,
    pub command: String,
    pub args: Vec<String>,
    pub cwd: Option<String>,
    pub env: SortedMap<String, String>,
    pub profile_type: ProfileType,
    pub icon: Option<String>,
    pub color: Option<Rgb>,
    /// The profile's own size, else the global one.
    pub font_size: FontSize,
    pub theme: Option<String>,
    pub is_default: bool,
}

/// What a [`ResolvedProfile`] says.
#[verifier::ext_equal]
pub struct ResolvedModel {
    pub name: Seq<char>,
    pub command: Seq<char>,
    pub args: Seq<Seq<char>>,
    pub cwd: Option<Seq<char>>,
    pub env: Seq<(Seq<char>, Seq<char>)>,
    pub profile_type: ProfileType,
    pub icon: Option<Seq<char>>,
    pub color: Option<Rgb>,
    pub font_size: FontSize,
    pub theme: Option<Seq<char>>,
    pub is_default: bool,
}

impl View for ResolvedProfile {
    type V = ResolvedModel;

    open spec fn view(&self) -> ResolvedModel {
        ResolvedModel {
            name: self.name@,
            command: self.command@,
            args: schema::texts(self.args@),
            cwd: diagnostics::text_of(self.cwd),
            env: schema::env_of(self.env),
            profile_type: self.profile_type,
            icon: diagnostics::text_of(self.icon),
            color: self.color,
            font_size: self.font_size,
            theme: diagnostics::text_of(self.theme),
            is_default: self.is_default,
        }
    }
}

/// A profile resolved against the global font size.
pub open spec fn resolved(p: ProfileModel, font_size: FontSize) -> ResolvedModel {
    ResolvedModel {
        name: p.name,
        command: p.command,
        args: p.args,
        cwd: p.cwd,
        env: p.env,
        profile_type: p.profile_type,
        icon: p.icon,
        color: p.color,
        font_size: match p.font_size {
            Some(size) => size,
            None => font_size,
        },
        theme: p.theme,
        is_default: p.default,
    }
}

/// A command line and environment ready to be spawned.
#[derive(Debug, Clone, PartialEq, Eq)]
pub struct LaunchSpec {
    pub command: String,
    pub args: Vec<String>,
    pub cwd: Option<String>,
    pub env: Vec<(String, String)>,
}

/// What a [`LaunchSpec`] says.
#[verifier::ext_equal]
pub struct LaunchModel {
    pub command: Seq<char>,
    pub args: Seq<Seq<char>>,
    pub cwd: Option<Seq<char>>,
    pub env: Seq<(Seq<char>, Seq<char>)>,
}

impl View for LaunchSpec {
    type V = LaunchModel;

    open spec fn view(&self) -> LaunchModel {
        LaunchModel {
            command: self.command@,
            args: schema::texts(self.args@),
            cwd: diagnostics::text_of(self.cwd),
            env: self.env@.map_values(|e: (String, String)| (e.0@, e.1@)),
        }
    }
}

/// The position of the first argument equal to `arg`, or the number of
/// arguments when there is none.
pub open spec fn arg_position(args: Seq<Seq<char>>, arg: Seq<char>) -> int
    decreases args.len(),
{
    if args.len() == 0 || args[0] == arg {
        0
    } else {
        1 + arg_position(args.drop_first(), arg)
    }
}

/// Where `--cd` goes: right after `-d <distro>`, or at the end when no distro
/// is named.
pub open spec fn cd_position(args: Seq<Seq<char>>) -> int {
    let flag = arg_position(args, "-d"@);
    if flag + 1 < args.len() {
        flag + 2
    } else {
        args.len() as int
    }
}

/// The arguments a profile launches with. A WSL profile with a working
/// directory gets `--cd <cwd>`, unless its arguments already have `--cd`.
pub open spec fn launch_args(p: ResolvedModel) -> Seq<Seq<char>> {
    match p.cwd {
        Some(cwd) => if p.profile_type == ProfileType::Wsl && !p.args.contains("--cd"@) {
            p.args.take(cd_position(p.args)) + seq!["--cd"@, cwd] + p.args.skip(
                cd_position(p.args),
            )
        } else {
            p.args
        },
        None => p.args,
    }
}

/// What a profile launches. The working directory of a WSL profile is passed
/// by `--cd`, not as that of the spawned process.
pub open spec fn launched(p: ResolvedModel) -> LaunchModel {
    LaunchModel {
        command: p.command,
        args: launch_args(p),
        cwd: if p.profile_type == ProfileType::Wsl {
            None
        } else {
            p.cwd
        },
        env: p.env,
    }
}

/// The same strings once more.
pub fn copy_strings(list: &Vec<String>) -> (r: Vec<String>)
    ensures
        r@ == list@,
{
    let mut out: Vec<String> = Vec::new();
    let mut i: usize = 0;
    while i < list.len()
        invariant
            i <= list.len(),
            out@ == list@.take(i as int),
        decreases list.len() - i,
    {
        out.push(list[i].clone());
        assert(list@.take(i + 1) =~= list@.take(i as int).push(list@[i as int]));
        i += 1;
    }
    assert(list@.take(i as int) =~= list@);
    out
}

/// What [`arg_position`] promises: the position is the first one with the
/// argument.
pub proof fn lemma_arg_position(args: Seq<Seq<char>>, arg: Seq<char>)
    ensures
        0 <= arg_position(args, arg) <= args.len(),
        forall|i: int| 0 <= i < arg_position(args, arg) ==> #[trigger] args[i] != arg,
        arg_position(args, arg) < args.len() ==> args[arg_position(args, arg)] == arg,
        args.contains(arg) <==> arg_position(args, arg) < args.len(),
    decreases args.len(),
{
    if args.len() > 0 && args[0] != arg {
        let rest = args.drop_first();
        lemma_arg_position(rest, arg);
        assert forall|i: int| 0 <= i < arg_position(args, arg) implies #[trigger] args[i] != arg by {
            if i > 0 {
                assert(args[i] == rest[i - 1]);
            }
        }
        if args.contains(arg) {
            let i = choose|i: int| 0 <= i < args.len() && args[i] == arg;
            assert(rest[i - 1] == arg);
        }
        if arg_position(args, arg) < args.len() {
            assert(args[arg_position(args, arg)] == rest[arg_position(rest, arg)]);
        }
    } else if args.len() > 0 {
        assert(args.contains(args[0]));
    }
}

/// The first position with an argument is the one that [`arg_position`] gives.
pub proof fn lemma_arg_position_is(args: Seq<Seq<char>>, arg: Seq<char>, at: int)
    requires
        0 <= at <= args.len(),
        forall|i: int| 0 <= i < at ==> #[trigger] args[i] != arg,
        at < args.len() ==> args[at] == arg,
    ensures
        arg_position(args, arg) == at,
{
    lemma_arg_position(args, arg);
    let found = arg_position(args, arg);
    if found < at {
        assert(args[found] != arg);
    } else if at < found {
        assert(args[at] != arg);
    }
}

/// The position of the first argument equal to `arg`, or the number of
/// arguments.
pub fn position_of(args: &Vec<String>, arg: &str) -> (r: usize)
    ensures
        r as int == arg_position(schema::texts(args@), arg@),
        r <= args.len(),
{
    let ghost all = schema::texts(args@);
    let mut i: usize = 0;
    while i < args.len() && !same(args[i].as_str(), arg)
        invariant
            i <= args.len(),
            all == schema::texts(args@),
            forall|j: int| 0 <= j < i ==> #[trigger] all[j] != arg@,
        decreases args.len() - i,
    {
        assert(all[i as int] == args@[i as int]@);
        i += 1;
    }
    proof {
        if i < args.len() {
            assert(all[i as int] == args@[i as int]@);
        }
        lemma_arg_position_is(all, arg@, i as int);
    }
    i
}

impl ResolvedProfile {
    /// The environment overlay is sorted without doubles.
    pub open spec fn wf(&self) -> bool {
        self.env.wf()
    }

    fn from_profile(p: &Profile, config: &Config) -> (r: ResolvedProfile)
        ensures
            r@ == resolved(p@, config.font_size),
            p.wf() ==> r.wf(),
    {
        ResolvedProfile {
            name: p.name.clone(),
            command: p.command.clone(),
            args: copy_strings(&p.args),
            cwd: p.cwd.clone(),
            env: p.env.copy(),
            profile_type: p.profile_type,
            icon: p.icon.clone(),
            color: p.color,
            font_size: match p.font_size {
                Some(size) => size,
                None => config.font_size,
            },
            theme: p.theme.clone(),
            is_default: p.default,
        }
    }

    /// The command, arguments, working directory and environment that this
    /// profile launches with.
    pub fn launch_spec(&self) -> (r: LaunchSpec)
        ensures
            r@ == launched(self@),
    {
        let mut args = copy_strings(&self.args);
        let ghost before = self@.args;
        let is_wsl = match self.profile_type {
            ProfileType::Wsl => true,
            ProfileType::Windows => false,
        };
        if is_wsl {
            if let Some(cwd) = &self.cwd {
                proof {
                    lemma_arg_position(before, "--cd"@);
                    lemma_arg_position(before, "-d"@);
                }
                if position_of(&args, "--cd") == args.len() {
                    let flag = position_of(&args, "-d");
                    let at: usize = if flag < args.len() && flag + 1 < args.len() {
                        flag + 2
                    } else {
                        args.len()
                    };
                    args.insert(at, cwd.clone());
                    args.insert(at, "--cd".to_owned());
                    assert(schema::texts(args@) =~= before.take(at as int) + seq!["--cd"@, cwd@]
                        + before.skip(at as int));
                }
            }
        }
        let cwd = if is_wsl {
            None
        } else {
            self.cwd.clone()
        };
        let mut env: Vec<(String, String)> = Vec::new();
        let ghost pairs = self@.env;
        let mut i: usize = 0;
        while i < self.env.len()
            invariant
                i <= pairs.len(),
                pairs == schema::env_of(self.env),
                env@.map_values(|e: (String, String)| (e.0@, e.1@)) == pairs.take(i as int),
            decreases pairs.len() - i,
        {
            let (k, v) = self.env.entry(i);
            let ghost done = env@;
            env.push((k.clone(), v.clone()));
            assert(env@.map_values(|e: (String, String)| (e.0@, e.1@)) =~= done.map_values(
                |e: (String, String)| (e.0@, e.1@),
            ).push((k@, v@)));
            assert(pairs.take(i + 1) =~= pairs.take(i as int).push(pairs[i as int]));
            i += 1;
        }
        assert(pairs.take(i as int) =~= pairs);
        LaunchSpec { command: self.command.clone(), args, cwd, env }
    }
}

// ---- the built-ins -------------------------------------------------------------------

/// A Windows profile that sets nothing but its name, command and arguments.
pub open spec fn plain_profile(
    name: Seq<char>,
    command: Seq<char>,
    args: Seq<Seq<char>>,
) -> ProfileModel {
    ProfileModel {
        name,
        command,
        args,
        cwd: None,
        env: Seq::empty(),
        profile_type: ProfileType::Windows,
        icon: None,
        color: None,
        font_size: None,
        theme: None,
        default: false,
    }
}

/// The built-in profiles.
pub open spec fn builtins() -> Seq<ProfileModel> {
    seq![
        plain_profile("pwsh"@, "pwsh.exe"@, seq!["-NoLogo"@]),
        plain_profile("Windows PowerShell"@, "powershell.exe"@, Seq::empty()),
        plain_profile("cmd"@, "cmd.exe"@, Seq::empty()),
    ]
}

fn plain(name: &str, command: &str, args: Vec<String>) -> (r: Profile)
    ensures
        r@ == plain_profile(name@, command@, schema::texts(args@)),
        r.wf(),
{
    let r = Profile {
        name: name.to_owned(),
        command: command.to_owned(),
        args,
        cwd: None,
        env: SortedMap::new(),
        profile_type: ProfileType::Windows,
        icon: None,
        color: None,
        font_size: None,
        theme: None,
        default: false,
    };
    assert(r@.env =~= Seq::<(Seq<char>, Seq<char>)>::empty());
    r
}

/// The profiles that exist whatever the configuration says.
pub fn builtin_profiles() -> (r: Vec<Profile>)
    ensures
        schema::profile_models(r@) == builtins(),
        forall|i: int| 0 <= i < r.len() ==> (#[trigger] r[i]).wf(),
{
    let mut no_logo: Vec<String> = Vec::new();
    no_logo.push("-NoLogo".to_owned());
    let pwsh = plain("pwsh", "pwsh.exe", no_logo);
    let powershell = plain("Windows PowerShell", "powershell.exe", Vec::new());
    let cmd = plain("cmd", "cmd.exe", Vec::new());
    assert(pwsh@.args =~= seq!["-NoLogo"@]);
    assert(powershell@.args =~= Seq::<Seq<char>>::empty());
    assert(cmd@.args =~= Seq::<Seq<char>>::empty());
    let mut list: Vec<Profile> = Vec::new();
    list.push(pwsh);
    list.push(powershell);
    list.push(cmd);
    assert(schema::profile_models(list@) =~= builtins());
    list
}

// ---- the merge ------------------------------------------------------------------------

/// The position of the first profile called `name`, or the length of the list.
pub open spec fn name_position(list: Seq<ProfileModel>, name: Seq<char>) -> int
    decreases list.len(),
{
    if list.len() == 0 || list[0].name == name {
        0
    } else {
        1 + name_position(list.drop_first(), name)
    }
}

/// The list with one more profile: in the place of its namesake, or at the end.
pub open spec fn placed(list: Seq<ProfileModel>, p: ProfileModel) -> Seq<ProfileModel> {
    let at = name_position(list, p.name);
    if at < list.len() {
        list.update(at, p)
    } else {
        list.push(p)
    }
}

/// The list with the profiles of one source placed one after another.
pub open spec fn merged(list: Seq<ProfileModel>, source: Seq<ProfileModel>) -> Seq<ProfileModel>
    decreases source.len(),
{
    if source.len() == 0 {
        list
    } else {
        placed(merged(list, source.drop_last()), source.last())
    }
}

/// The built-ins, then the discovered profiles, then the user's.
pub open spec fn all_profiles(extra: Seq<ProfileModel>, user: Seq<ProfileModel>) -> Seq<
    ProfileModel,
> {
    merged(merged(builtins(), extra), user)
}

proof fn lemma_name_position(list: Seq<ProfileModel>, name: Seq<char>)
    ensures
        0 <= name_position(list, name) <= list.len(),
        forall|i: int| 0 <= i < name_position(list, name) ==> (#[trigger] list[i]).name != name,
        name_position(list, name) < list.len() ==> list[name_position(list, name)].name == name,
    decreases list.len(),
{
    if list.len() > 0 && list[0].name != name {
        let rest = list.drop_first();
        lemma_name_position(rest, name);
        assert forall|i: int| 0 <= i < name_position(list, name) implies (#[trigger] list[i]).name
            != name by {
            if i > 0 {
                assert(list[i] == rest[i - 1]);
            }
        }
        if name_position(list, name) < list.len() {
            assert(list[name_position(list, name)] == rest[name_position(rest, name)]);
        }
    }
}

proof fn lemma_name_position_is(list: Seq<ProfileModel>, name: Seq<char>, at: int)
    requires
        0 <= at <= list.len(),
        forall|i: int| 0 <= i < at ==> (#[trigger] list[i]).name != name,
        at < list.len() ==> list[at].name == name,
    ensures
        name_position(list, name) == at,
{
    lemma_name_position(list, name);
    let found = name_position(list, name);
    if found < at {
        assert(list[found].name != name);
    } else if at < found {
        assert(list[at].name != name);
    }
}

/// The same profile once more.
pub fn copy_profile(p: &Profile) -> (r: Profile)
    ensures
        r@ == p@,
        p.wf() ==> r.wf(),
{
    Profile {
        name: p.name.clone(),
        command: p.command.clone(),
        args: copy_strings(&p.args),
        cwd: p.cwd.clone(),
        env: p.env.copy(),
        profile_type: p.profile_type,
        icon: p.icon.clone(),
        color: p.color,
        font_size: p.font_size,
        theme: p.theme.clone(),
        default: p.default,
    }
}

fn place_profile(list: &mut Vec<Profile>, incoming: &Profile)
    ensures
        schema::profile_models(final(list)@) == placed(
            schema::profile_models(old(list)@),
            incoming@,
        ),
{
    let ghost all = schema::profile_models(list@);
    let mut at: usize = 0;
    while at < list.len() && !same(list[at].name.as_str(), incoming.name.as_str())
        invariant
            at <= list.len(),
            all == schema::profile_models(list@),
            forall|j: int| 0 <= j < at ==> (#[trigger] all[j]).name != incoming@.name,
        decreases list.len() - at,
    {
        assert(all[at as int] == list@[at as int]@);
        at += 1;
    }
    proof {
        if at < list.len() {
            assert(all[at as int] == list@[at as int]@);
        }
        lemma_name_position_is(all, incoming@.name, at as int);
    }
    let copy = copy_profile(incoming);
    if at < list.len() {
        list.set(at, copy);
        assert(schema::profile_models(list@) =~= all.update(at as int, incoming@));
    } else {
        list.push(copy);
        assert(schema::profile_models(list@) =~= all.push(incoming@));
    }
}

fn merge_source(list: &mut Vec<Profile>, source: &[Profile])
    ensures
        schema::profile_models(final(list)@) == merged(
            schema::profile_models(old(list)@),
            schema::profile_models(source@),
        ),
{
    let ghost base = schema::profile_models(list@);
    let ghost incoming = schema::profile_models(source@);
    let mut i: usize = 0;
    assert(incoming.take(0) =~= Seq::<ProfileModel>::empty());
    while i < source.len()
        invariant
            i <= source.len(),
            incoming == schema::profile_models(source@),
            schema::profile_models(list@) == merged(base, incoming.take(i as int)),
        decreases source.len() - i,
    {
        assert(incoming.take(i + 1).drop_last() =~= incoming.take(i as int));
        place_profile(list, &source[i]);
        i += 1;
    }
    assert(incoming.take(i as int) =~= incoming);
}

/// The ordered set of profiles that can be launched.
#[derive(Debug, Clone, PartialEq, Eq)]
pub struct ProfileSet {
    profiles: Vec<ResolvedProfile>,
}

/// What a list of resolved profiles says.
pub open spec fn resolved_models(list: Seq<ResolvedProfile>) -> Seq<ResolvedModel> {
    list.map_values(|p: ResolvedProfile| p@)
}

/// The position of the profile to launch when none is named: the first one
/// marked as default, else the first.
pub open spec fn default_position(list: Seq<ResolvedModel>) -> int {
    let marked = first_marked(list);
    if marked < list.len() {
        marked
    } else {
        0
    }
}

/// The position of the first profile marked as default, or the length of the
/// list.
pub open spec fn first_marked(list: Seq<ResolvedModel>) -> int
    decreases list.len(),
{
    if list.len() == 0 || list[0].is_default {
        0
    } else {
        1 + first_marked(list.drop_first())
    }
}

proof fn lemma_first_marked(list: Seq<ResolvedModel>, at: int)
    requires
        0 <= at <= list.len(),
        forall|i: int| 0 <= i < at ==> !(#[trigger] list[i]).is_default,
        at < list.len() ==> list[at].is_default,
    ensures
        first_marked(list) == at,
    decreases list.len(),
{
    if at > 0 {
        assert(!list[0].is_default);
        let rest = list.drop_first();
        assert forall|i: int| 0 <= i < at - 1 implies !(#[trigger] rest[i]).is_default by {
            assert(rest[i] == list[i + 1]);
        }
        lemma_first_marked(rest, at - 1);
    }
}

impl ProfileSet {
    pub closed spec fn view(&self) -> Seq<ResolvedModel> {
        resolved_models(self.profiles@)
    }

    /// Merges the built-ins, `extra_sources` and the user's profiles, and
    /// resolves each against the configuration.
    pub fn resolve(config: &Config, extra_sources: &[Profile]) -> (r: ProfileSet)
        ensures
            r@ == all_profiles(
                schema::profile_models(extra_sources@),
                config@.profiles,
            ).map_values(|p: ProfileModel| resolved(p, config.font_size)),
            r@.len() >= 3,
    {
        let mut ordered = builtin_profiles();
        merge_source(&mut ordered, extra_sources);
        merge_source(&mut ordered, config.profiles.as_slice());
        let ghost all = schema::profile_models(ordered@);
        proof {
            let middle = merged(builtins(), schema::profile_models(extra_sources@));
            lemma_merge_grows(builtins(), schema::profile_models(extra_sources@));
            lemma_merge_grows(middle, config@.profiles);
        }
        let ghost resolve_one = |p: ProfileModel| resolved(p, config.font_size);
        let mut profiles: Vec<ResolvedProfile> = Vec::new();
        let mut i: usize = 0;
        assert(resolved_models(profiles@) =~= all.take(0).map_values(resolve_one));
        while i < ordered.len()
            invariant
                i <= ordered.len(),
                all == schema::profile_models(ordered@),
                resolve_one == (|p: ProfileModel| resolved(p, config.font_size)),
                resolved_models(profiles@) == all.take(i as int).map_values(resolve_one),
            decreases ordered.len() - i,
        {
            let p = ResolvedProfile::from_profile(&ordered[i], config);
            let ghost before = profiles@;
            profiles.push(p);
            assert(resolved_models(profiles@) =~= resolved_models(before).push(p@));
            assert(all.take(i + 1).map_values(resolve_one) =~= all.take(i as int).map_values(
                resolve_one,
            ).push(resolve_one(all[i as int])));
            i += 1;
        }
        assert(all.take(i as int) =~= all);
        ProfileSet { profiles }
    }

    /// All profiles, in order.
    pub fn profiles(&self) -> (r: &[ResolvedProfile])
        ensures
            resolved_models(r@) == self@,
    {
        self.profiles.as_slice()
    }

    /// The profile to launch when none is named.
    pub fn default_profile(&self) -> (r: &ResolvedProfile)
        requires
            self@.len() > 0,
        ensures
            r@ == self@[default_position(self@)],
    {
        let ghost all = self@;
        let mut i: usize = 0;
        while i < self.profiles.len() && !self.profiles[i].is_default
            invariant
                i <= self.profiles.len(),
                all == resolved_models(self.profiles@),
                forall|j: int| 0 <= j < i ==> !(#[trigger] all[j]).is_default,
            decreases self.profiles.len() - i,
        {
            assert(all[i as int] == self.profiles@[i as int]@);
            i += 1;
        }
        proof {
            if i < self.profiles.len() {
                assert(all[i as int] == self.profiles@[i as int]@);
            }
            lemma_first_marked(all, i as int);
        }
        if i < self.profiles.len() {
            &self.profiles[i]
        } else {
            &self.profiles[0]
        }
    }
}

// ---- what every merge keeps to -------------------------------------------------------

proof fn lemma_merge_grows(list: Seq<ProfileModel>, source: Seq<ProfileModel>)
    ensures
        merged(list, source).len() >= list.len(),
        forall|i: int|
            0 <= i < list.len() ==> (#[trigger] merged(list, source)[i]).name == list[i].name,
    decreases source.len(),
{
    if source.len() > 0 {
        lemma_merge_grows(list, source.drop_last());
        lemma_name_position(merged(list, source.drop_last()), source.last().name);
    }
}

/// No name occurs twice in a list.
pub open spec fn distinct_names(list: Seq<ProfileModel>) -> bool {
    forall|i: int, j: int|
        0 <= i < j < list.len() ==> (#[trigger] list[i]).name != (#[trigger] list[j]).name
}

proof fn lemma_merge_distinct(list: Seq<ProfileModel>, source: Seq<ProfileModel>)
    requires
        distinct_names(list),
    ensures
        distinct_names(merged(list, source)),
    decreases source.len(),
{
    if source.len() > 0 {
        lemma_merge_distinct(list, source.drop_last());
        lemma_name_position(merged(list, source.drop_last()), source.last().name);
    }
}

proof fn lemma_builtins_distinct()
    ensures
        distinct_names(builtins()),
{
    reveal_strlit("pwsh");
    reveal_strlit("Windows PowerShell");
    reveal_strlit("cmd");
    assert("pwsh"@.len() == 4 && "Windows PowerShell"@.len() == 18 && "cmd"@.len() == 3);
}

/// The built-in names are always there, in their order and in front.
pub proof fn builtins_come_first(extra: Seq<ProfileModel>, user: Seq<ProfileModel>)
    ensures
        all_profiles(extra, user).len() >= 3,
        all_profiles(extra, user)[0].name == "pwsh"@,
        all_profiles(extra, user)[1].name == "Windows PowerShell"@,
        all_profiles(extra, user)[2].name == "cmd"@,
{
    lemma_merge_grows(builtins(), extra);
    lemma_merge_grows(merged(builtins(), extra), user);
}

/// No two profiles of the set have the same name.
pub proof fn names_are_distinct(extra: Seq<ProfileModel>, user: Seq<ProfileModel>)
    ensures
        distinct_names(all_profiles(extra, user)),
{
    lemma_builtins_distinct();
    lemma_merge_distinct(builtins(), extra);
    lemma_merge_distinct(merged(builtins(), extra), user);
}

/// A merge invents nothing: every profile of the result is one of the list or
/// one of the source, whole.
pub proof fn merge_invents_nothing(list: Seq<ProfileModel>, source: Seq<ProfileModel>, i: int)
    requires
        0 <= i < merged(list, source).len(),
    ensures
        list.contains(merged(list, source)[i]) || source.contains(merged(list, source)[i]),
    decreases source.len(),
{
    let all = merged(list, source);
    if source.len() == 0 {
        assert(list.contains(list[i]));
    } else {
        let earlier = merged(list, source.drop_last());
        lemma_name_position(earlier, source.last().name);
        if all[i] == source.last() {
            assert(source[source.len() - 1] == all[i]);
        } else {
            merge_invents_nothing(list, source.drop_last(), i);
            if source.drop_last().contains(all[i]) {
                let j = choose|j: int|
                    0 <= j < source.drop_last().len() && source.drop_last()[j] == all[i];
                assert(source[j] == all[i]);
            }
        }
    }
}

/// The last profile of a source with a given name is the one that stands
/// under that name after the merge.
pub proof fn later_source_wins(list: Seq<ProfileModel>, source: Seq<ProfileModel>, n: int)
    requires
        0 <= n < source.len(),
        forall|i: int| n < i < source.len() ==> (#[trigger] source[i]).name != source[n].name,
    ensures
        merged(list, source).contains(source[n]),
        name_position(merged(list, source), source[n].name) < merged(list, source).len(),
        merged(list, source)[name_position(merged(list, source), source[n].name)] == source[n],
    decreases source.len(),
{
    let earlier = source.drop_last();
    let before = merged(list, earlier);
    let after = merged(list, source);
    let name = source[n].name;
    lemma_name_position(before, source.last().name);
    let at = name_position(before, source.last().name);
    if n == source.len() - 1 {
        let here = if at < before.len() {
            at
        } else {
            before.len() as int
        };
        assert(after[here] == source[n]);
        lemma_name_position_is(after, name, here);
    } else {
        assert(earlier[n] == source[n]);
        assert forall|i: int| n < i < earlier.len() implies (#[trigger] earlier[i]).name
            != earlier[n].name by {
            assert(earlier[i] == source[i]);
        }
        later_source_wins(list, earlier, n);
        let was = name_position(before, name);
        lemma_name_position(before, name);
        assert(source[source.len() - 1].name != name);
        assert(at != was);
        assert(after[was] == source[n]);
        assert forall|i: int| 0 <= i < was implies (#[trigger] after[i]).name != name by {
            assert(before[i].name != name);
        }
        lemma_name_position_is(after, name, was);
    }
}

/// A user's profile, when no later one has its name, is launched under that
/// name whatever the built-ins and the discovered profiles say.
pub proof fn user_profile_wins(extra: Seq<ProfileModel>, user: Seq<ProfileModel>, n: int)
    requires
        0 <= n < user.len(),
        forall|i: int| n < i < user.len() ==> (#[trigger] user[i]).name != user[n].name,
    ensures
        all_profiles(extra, user)[name_position(all_profiles(extra, user), user[n].name)]
            == user[n],
{
    later_source_wins(merged(builtins(), extra), user, n);
}

/// A replaced profile keeps its place: the names of an earlier list stay where
/// they were, and what is new comes after them.
pub proof fn replaced_in_place(list: Seq<ProfileModel>, source: Seq<ProfileModel>, i: int)
    requires
        0 <= i < list.len(),
    ensures
        merged(list, source).len() >= list.len(),
        merged(list, source)[i].name == list[i].name,
{
    lemma_merge_grows(list, source);
}

// ---- what every launch keeps to ------------------------------------------------------

/// A resolved profile says what the profile says; only a font size that it
/// leaves open comes from the configuration.
pub proof fn resolving_adds_only_the_size(p: ProfileModel, font_size: FontSize)
    ensures
        resolved(p, font_size).name == p.name,
        resolved(p, font_size).command == p.command,
        resolved(p, font_size).args == p.args,
        resolved(p, font_size).cwd == p.cwd,
        resolved(p, font_size).env == p.env,
        resolved(p, font_size).profile_type == p.profile_type,
        resolved(p, font_size).icon == p.icon,
        resolved(p, font_size).color == p.color,
        resolved(p, font_size).theme == p.theme,
        resolved(p, font_size).is_default == p.default,
        p.font_size is None ==> resolved(p, font_size).font_size == font_size,
        p.font_size matches Some(size) ==> resolved(p, font_size).font_size == size,
{
}

/// A profile launches its own command in its own environment, pair by pair in
/// key order, whatever its type.
pub proof fn command_and_environment_are_kept(p: ResolvedModel)
    ensures
        launched(p).command == p.command,
        launched(p).env.len() == p.env.len(),
        forall|i: int| 0 <= i < p.env.len() ==> #[trigger] launched(p).env[i] == p.env[i],
{
}

/// The type of a profile decides about the working directory alone: two
/// profiles that differ in nothing else launch the same command in the same
/// environment, and without a directory the same arguments in it.
pub proof fn type_decides_the_directory_alone(a: ResolvedModel, b: ResolvedModel)
    requires
        b == (ResolvedModel { profile_type: b.profile_type, ..a }),
    ensures
        launched(a).command == launched(b).command,
        launched(a).env == launched(b).env,
        a.cwd is None ==> launched(a) == launched(b),
{
}

/// A Windows profile launches with its own arguments, in its own directory.
pub proof fn windows_launch_is_direct(p: ResolvedModel)
    requires
        p.profile_type == ProfileType::Windows,
    ensures
        launched(p).args == p.args,
        launched(p).cwd == p.cwd,
{
}

/// A WSL profile is never spawned in a directory of its own. Its arguments are
/// kept in their order; `--cd` and the directory are added to them exactly if
/// there is a directory and they do not have `--cd` already, and then right
/// behind the distribution where one is named, else at the end.
pub proof fn wsl_directory_is_an_argument(p: ResolvedModel)
    requires
        p.profile_type == ProfileType::Wsl,
    ensures
        launched(p).cwd is None,
        p.cwd is None || p.args.contains("--cd"@) ==> launched(p).args == p.args,
        p.cwd is Some && !p.args.contains("--cd"@) ==> exists|at: int|
            {
                &&& 0 <= at <= p.args.len()
                &&& launched(p).args == #[trigger] p.args.take(at) + seq!["--cd"@, p.cwd->0]
                    + p.args.skip(at)
                &&& at == p.args.len() || (at >= 2 && p.args[at - 2] == "-d"@ && forall|i: int|
                    0 <= i < at - 2 ==> #[trigger] p.args[i] != "-d"@)
                &&& at == p.args.len() ==> forall|i: int|
                    0 <= i < p.args.len() - 2 ==> #[trigger] p.args[i] != "-d"@
            },
{
    lemma_arg_position(p.args, "-d"@);
    if p.cwd is Some && !p.args.contains("--cd"@) {
        let at = cd_position(p.args);
        let flag = arg_position(p.args, "-d"@);
        assert(launched(p).args == p.args.take(at) + seq!["--cd"@, p.cwd->0] + p.args.skip(at));
        if at == p.args.len() {
            assert forall|i: int| 0 <= i < p.args.len() - 2 implies #[trigger] p.args[i]
                != "-d"@ by {
                assert(i < flag);
            }
        }
    }
}

/// The profile to launch when none is named is the first that is marked, or
/// the very first when none is.
pub proof fn first_marked_profile_is_default(list: Seq<ResolvedModel>)
    requires
        list.len() > 0,
    ensures
        0 <= default_position(list) < list.len(),
        forall|i: int| 0 <= i < default_position(list) ==> !(#[trigger] list[i]).is_default,
        list[default_position(list)].is_default || (default_position(list) == 0 && forall|i: int|
            0 <= i < list.len() ==> !(#[trigger] list[i]).is_default),
{
    lemma_marked_position(list);
}

proof fn lemma_marked_position(list: Seq<ResolvedModel>)
    ensures
        0 <= first_marked(list) <= list.len(),
        forall|i: int| 0 <= i < first_marked(list) ==> !(#[trigger] list[i]).is_default,
        first_marked(list) < list.len() ==> list[first_marked(list)].is_default,
    decreases list.len(),
{
    if list.len() > 0 && !list[0].is_default {
        let rest = list.drop_first();
        lemma_marked_position(rest);
        assert forall|i: int| 0 <= i < first_marked(list) implies !(
        #[trigger] list[i]).is_default by {
            if i > 0 {
                assert(list[i] == rest[i - 1]);
            }
        }
        if first_marked(list) < list.len() {
            assert(list[first_marked(list)] == rest[first_marked(rest)]);
        }
    }
}

/// The built-in profiles are PowerShell, Windows PowerShell and the command
/// prompt, in this order, all of them Windows shells.
pub proof fn builtins_are_the_windows_shells()
    ensures
        builtins().len() == 3,
        builtins()[0].name == "pwsh"@ && builtins()[0].command == "pwsh.exe"@
            && builtins()[0].args == seq!["-NoLogo"@],
        builtins()[1].name == "Windows PowerShell"@ && builtins()[1].command == "powershell.exe"@
            && builtins()[1].args.len() == 0,
        builtins()[2].name == "cmd"@ && builtins()[2].command == "cmd.exe"@
            && builtins()[2].args.len() == 0,
        forall|i: int|
            0 <= i < 3 ==> (#[trigger] builtins()[i]).profile_type == ProfileType::Windows
                && builtins()[i].cwd is None && builtins()[i].env.len() == 0
                && !builtins()[i].default,
{
}

/// A profile of a new name comes last; one whose name is taken replaces its
/// namesake as a whole and leaves every other one as it is.
pub proof fn each_profile_finds_its_place(
    list: Seq<ProfileModel>,
    source: Seq<ProfileModel>,
    p: ProfileModel,
)
    ensures
        ({
            let before = merged(list, source);
            let after = merged(list, source.push(p));
            &&& (forall|i: int| 0 <= i < before.len() ==> (#[trigger] before[i]).name != p.name)
                ==> after == before.push(p)
            &&& (exists|i: int| 0 <= i < before.len() && (#[trigger] before[i]).name == p.name)
                ==> after.len() == before.len() && after.contains(p)
            &&& forall|i: int|
                0 <= i < before.len() && (#[trigger] before[i]).name != p.name ==> after[i]
                    == before[i]
        }),
{
    let before = merged(list, source);
    assert(source.push(p).drop_last() =~= source);
    lemma_name_position(before, p.name);
    let at = name_position(before, p.name);
    if at < before.len() {
        assert(before[at].name == p.name);
        assert(before.update(at, p)[at] == p);
    } else if exists|i: int| 0 <= i < before.len() && (#[trigger] before[i]).name == p.name {
        let i = choose|i: int| 0 <= i < before.len() && (#[trigger] before[i]).name == p.name;
        assert(before[i].name != p.name);
    }
}

/// Discovered profiles stand before those of the user: the user's come into
/// the list that the built-ins and the discovered ones make up, which without
/// the user's is the whole list.
pub proof fn users_come_after_discovered(extra: Seq<ProfileModel>, user: Seq<ProfileModel>, i: int)
    requires
        0 <= i < all_profiles(extra, Seq::empty()).len(),
    ensures
        all_profiles(extra, user).len() >= all_profiles(extra, Seq::empty()).len(),
        all_profiles(extra, user)[i].name == all_profiles(extra, Seq::empty())[i].name,
        all_profiles(Seq::empty(), Seq::empty()) == builtins(),
{
    replaced_in_place(merged(builtins(), extra), user, i);
}

/// What is said of a launch is said of the very strings that are spawned:
/// the command, each argument, the directory, and each variable with its
/// value.
pub proof fn launches_are_what_is_spawned(spec: LaunchSpec)
    ensures
        spec@.command == spec.command@,
        spec@.args.len() == spec.args.len(),
        forall|i: int| 0 <= i < spec.args.len() ==> #[trigger] spec@.args[i] == spec.args[i]@,
        spec.cwd matches Some(s) ==> spec@.cwd == Some(s@),
        spec.cwd is None ==> spec@.cwd is None,
        spec@.env.len() == spec.env.len(),
        forall|i: int|
            0 <= i < spec.env.len() ==> (#[trigger] spec@.env[i]).0 == spec.env[i].0@
                && spec@.env[i].1 == spec.env[i].1@,
{
}

/// What is said of a resolved profile is said of its very fields.
pub proof fn resolved_profiles_are_their_fields(p: ResolvedProfile)
    ensures
        p@.name == p.name@,
        p@.command == p.command@,
        p@.args.len() == p.args.len(),
        forall|i: int| 0 <= i < p.args.len() ==> #[trigger] p@.args[i] == p.args[i]@,
        p.cwd matches Some(s) ==> p@.cwd == Some(s@),
        p.cwd is None ==> p@.cwd is None,
        p@.env.len() == p.env.listing().len(),
        forall|i: int|
            0 <= i < p@.env.len() ==> (#[trigger] p@.env[i]).0 == p.env.listing()[i].0
                && p@.env[i].1 == p.env.listing()[i].1@,
        p@.profile_type == p.profile_type,
        p@.color == p.color,
        p@.font_size == p.font_size,
        p@.is_default == p.is_default,
{
}

} // verus!
