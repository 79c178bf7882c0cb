//! Session lifecycle: what a session is opened with, and what is kept of it
//! while it runs and after its program has exited.
//!
//! Opening takes a snapshot of everything it needs from the profile first. A
//! configuration that is reloaded meanwhile gives a new profile and does not
//! touch the session being opened.
use vstd::prelude::*;

use crate::config::diagnostics;
use crate::config::schema::{self, ProfileType};
use crate::layout::profile::{
    self, position_of, LaunchModel, LaunchSpec, ResolvedModel, ResolvedProfile,
};
use crate::term::terminal::{TermError, VtOptions};
use crate::text::join2;

verus! {

/// Options for a session's terminal.
#[derive(Debug, Clone, Copy, PartialEq, Eq, Structural)]
pub struct SessionOptions {
    /// Byte budget for scrollback. It applies to sessions opened with it.
    pub scrollback_limit: usize,
}

impl Default for SessionOptions {
    fn default() -> (r: Self)
        ensures
            r == (SessionOptions { scrollback_limit: 12_000_000 }),
    {
        SessionOptions { scrollback_limit: VtOptions::default().max_scrollback }
    }
}

/// The argument right after the first `-d`, if there is one.
pub open spec fn distro_in(args: Seq<Seq<char>>) -> Option<Seq<char>> {
    let flag = profile::arg_position(args, "-d"@);
    if flag + 1 < args.len() {
        Some(args[flag + 1])
    } else {
        None
    }
}

/// The WSL distribution that launch arguments name: the argument right after
/// `-d`.
pub fn wsl_distro_from_args(args: &Vec<String>) -> (r: Option<String>)
    ensures
        diagnostics::text_of(r) == distro_in(schema::texts(args@)),
{
    let flag = position_of(args, "-d");
    if flag < args.len() && flag + 1 < args.len() {
        Some(args[flag + 1].clone())
    } else {
        None
    }
}

/// Everything a session is opened with.
#[derive(Debug, Clone, PartialEq, Eq)]
pub struct SessionPlan {
    pub profile_name: String,
    pub launch: LaunchSpec,
    /// The WSL distribution, for a WSL profile that names one.
    pub wsl_distro: Option<String>,
    pub cols: u16,
    pub rows: u16,
    pub vt: VtOptions,
}

/// What a [`SessionPlan`] says.
#[verifier::ext_equal]
pub struct PlanModel {
    pub profile_name: Seq<char>,
    pub launch: LaunchModel,
    pub wsl_distro: Option<Seq<char>>,
    pub cols: u16,
    pub rows: u16,
    pub vt: VtOptions,
}

impl View for SessionPlan {
    type V = PlanModel;

    open spec fn view(&self) -> PlanModel {
        PlanModel {
            profile_name: self.profile_name@,
            launch: self.launch@,
            wsl_distro: diagnostics::text_of(self.wsl_distro),
            cols: self.cols,
            rows: self.rows,
            vt: self.vt,
        }
    }
}

/// What opening a profile takes from it.
pub open spec fn plan_of(p: ResolvedModel, cols: u16, rows: u16, opts: SessionOptions) -> PlanModel {
    PlanModel {
        profile_name: p.name,
        launch: profile::launched(p),
        wsl_distro: if p.profile_type == ProfileType::Wsl {
            distro_in(profile::launch_args(p))
        } else {
            None
        },
        cols,
        rows,
        vt: VtOptions { max_scrollback: opts.scrollback_limit, cell_width_px: 1, cell_height_px: 1 },
    }
}

impl SessionPlan {
    /// What opening a profile with the default options takes from it.
    pub fn open(profile: &ResolvedProfile, cols: u16, rows: u16) -> (r: SessionPlan)
        ensures
            r@ == plan_of(
                profile@,
                cols,
                rows,
                SessionOptions { scrollback_limit: 12_000_000 },
            ),
    {
        SessionPlan::open_with_options(profile, cols, rows, SessionOptions::default())
    }

    /// What opening a profile takes from it.
    pub fn open_with_options(
        profile: &ResolvedProfile,
        cols: u16,
        rows: u16,
        opts: SessionOptions,
    ) -> (r: SessionPlan)
        ensures
            r@ == plan_of(profile@, cols, rows, opts),
    {
        let launch = profile.launch_spec();
        let is_wsl = match profile.profile_type {
            ProfileType::Wsl => true,
            ProfileType::Windows => false,
        };
        let wsl_distro = if is_wsl {
            wsl_distro_from_args(&launch.args)
        } else {
            None
        };
        let defaults = VtOptions::default();
        SessionPlan {
            profile_name: profile.name.clone(),
            launch,
            wsl_distro,
            cols,
            rows,
            vt: VtOptions {
                max_scrollback: opts.scrollback_limit,
                cell_width_px: defaults.cell_width_px,
                cell_height_px: defaults.cell_height_px,
            },
        }
    }
}

/// The message for a terminal that could not be constructed.
pub fn vt_failure_message(e: TermError) -> (r: String)
    ensures
        r@ == "vt construction failed: "@ + e.message(),
{
    join2("vt construction failed: ", e.to_string().as_str())
}

/// What to do about the exit of a session's program.
#[derive(Debug, Clone, PartialEq, Eq)]
pub enum ExitStep {
    /// The exit has been reported already.
    Reported,
    /// Ask whether the program has exited; if it has, find out why this WSL
    /// distribution died.
    AskWsl(String),
    /// Ask whether the program has exited.
    Ask,
}

/// A running session. `R` is the report made of its exit.
pub struct Session<R> {
    pub profile_name: String,
    pub wsl_distro: Option<String>,
    pub command_line: String,
    /// The working directory that the shell last reported.
    pub cwd: Option<String>,
    pub exit_report: Option<R>,
}

impl<R> Session<R> {
    /// A session whose program has been started by `command_line`.
    pub fn started(plan: &SessionPlan, command_line: String) -> (r: Self)
        ensures
            r.profile_name@ == plan@.profile_name,
            diagnostics::text_of(r.wsl_distro) == plan@.wsl_distro,
            r.command_line == command_line,
            r.cwd is None,
            r.exit_report is None,
    {
        Session {
            profile_name: plan.profile_name.clone(),
            wsl_distro: plan.wsl_distro.clone(),
            command_line,
            cwd: None,
            exit_report: None,
        }
    }

    /// Takes in the working directory that the terminal holds. One that was
    /// reported earlier stays when there is none.
    pub fn tick(&mut self, pwd: Option<String>)
        ensures
            *final(self) == (Session {
                cwd: if pwd is Some {
                    pwd
                } else {
                    old(self).cwd
                },
                ..*old(self)
            }),
    {
        if let Some(pwd) = pwd {
            self.cwd = Some(pwd);
        }
    }

    /// What to do to learn of the exit.
    pub fn exit_step(&self) -> (r: ExitStep)
        ensures
            match r {
                ExitStep::Reported => self.exit_report is Some,
                ExitStep::AskWsl(distro) => self.exit_report is None && (self.wsl_distro matches Some(
                    d,
                ) && d@ == distro@),
                ExitStep::Ask => self.exit_report is None && self.wsl_distro is None,
            },
    {
        if self.exit_report.is_some() {
            return ExitStep::Reported;
        }
        match &self.wsl_distro {
            Some(distro) => ExitStep::AskWsl(distro.clone()),
            None => ExitStep::Ask,
        }
    }

    /// Takes in the report of the exit, and gives the one that stands: the
    /// first report made, ever after.
    pub fn try_exit_report(&mut self, report: Option<R>) -> (r: Option<&R>)
        ensures
            final(self).exit_report == (if old(self).exit_report is Some {
                old(self).exit_report
            } else {
                report
            }),
            *final(self) == (Session { exit_report: final(self).exit_report, ..*old(self) }),
            match r {
                Some(r) => final(self).exit_report == Some(*r),
                None => final(self).exit_report is None,
            },
    {
        if self.exit_report.is_none() {
            self.exit_report = report;
        }
        self.exit_report.as_ref()
    }

    /// The working directory that the shell last reported.
    pub fn cwd(&self) -> (r: Option<&String>)
        ensures
            match (r, self.cwd) {
                (Some(a), Some(b)) => *a == b,
                (None, None) => true,
                _ => false,
            },
    {
        self.cwd.as_ref()
    }

    /// The name of the profile that the session was opened from.
    pub fn profile_name(&self) -> (r: &str)
        ensures
            r@ == self.profile_name@,
    {
        self.profile_name.as_str()
    }

    /// The command line that the program was started by.
    pub fn command_line(&self) -> (r: &str)
        ensures
            r@ == self.command_line@,
    {
        self.command_line.as_str()
    }
}

/// The directory that is added to a WSL launch does not change which
/// distribution it names, wherever it names one.
pub proof fn cd_keeps_distro(p: ResolvedModel)
    requires
        distro_in(p.args) is Some,
    ensures
        distro_in(profile::launch_args(p)) == distro_in(p.args),
{
    let args = p.args;
    let flag = profile::arg_position(args, "-d"@);
    profile::lemma_arg_position(args, "-d"@);
    let launch = profile::launch_args(p);
    assert forall|i: int| 0 <= i <= flag + 1 implies #[trigger] launch[i] == args[i] by {}
    assert(launch.len() >= args.len());
    assert forall|i: int| 0 <= i < flag implies #[trigger] launch[i] != "-d"@ by {
        assert(launch[i] == args[i]);
    }
    profile::lemma_arg_position_is(launch, "-d"@, flag);
}

/// The distribution is the argument right behind the first `-d`, whatever
/// stands before and after.
pub proof fn distro_stands_behind_its_flag(
    before: Seq<Seq<char>>,
    name: Seq<char>,
    after: Seq<Seq<char>>,
)
    requires
        !before.contains("-d"@),
    ensures
        distro_in(before + seq!["-d"@, name] + after) == Some(name),
        distro_in(before) is None,
        distro_in(before.push("-d"@)) is None,
{
    let args = before + seq!["-d"@, name] + after;
    let n = before.len() as int;
    assert forall|i: int| 0 <= i < n implies #[trigger] args[i] != "-d"@ by {
        assert(args[i] == before[i]);
        assert(before.contains(before[i]));
    }
    assert(args[n] == "-d"@);
    profile::lemma_arg_position_is(args, "-d"@, n);
    profile::lemma_arg_position(before, "-d"@);
    let bare = before.push("-d"@);
    assert forall|i: int| 0 <= i < n implies #[trigger] bare[i] != "-d"@ by {
        assert(bare[i] == before[i]);
        assert(before.contains(before[i]));
    }
    profile::lemma_arg_position_is(bare, "-d"@, n);
}

/// What a session is opened with: the profile's name and launch, the size and
/// the scrollback budget asked for, and for a WSL profile alone the
/// distribution that its arguments name.
pub proof fn plans_hold_what_was_asked_for(
    p: ResolvedModel,
    cols: u16,
    rows: u16,
    opts: SessionOptions,
)
    ensures
        plan_of(p, cols, rows, opts).profile_name == p.name,
        plan_of(p, cols, rows, opts).launch.command == p.command,
        plan_of(p, cols, rows, opts).launch.env == p.env,
        plan_of(p, cols, rows, opts).cols == cols,
        plan_of(p, cols, rows, opts).rows == rows,
        plan_of(p, cols, rows, opts).vt.max_scrollback == opts.scrollback_limit,
        p.profile_type == ProfileType::Windows ==> plan_of(p, cols, rows, opts).wsl_distro is None,
        p.profile_type == ProfileType::Wsl && distro_in(p.args) is Some ==> plan_of(
            p,
            cols,
            rows,
            opts,
        ).wsl_distro == distro_in(p.args),
{
    profile::command_and_environment_are_kept(p);
    assert(plan_of(p, cols, rows, opts).launch.env =~= p.env);
    if distro_in(p.args) is Some {
        cd_keeps_distro(p);
    }
}

} // verus!
