//! Reloading with last-good semantics, and the debouncing of file events.
//!
//! The directory that holds the configuration file is watched, not the file:
//! editors that save by renaming a temporary file over the target would lose
//! a watch on the file itself. Reading the file, waiting for events and
//! measuring time happen outside this crate; what they give is handed in.
use vstd::prelude::*;
use vstd::utf8::*;

use crate::config::diagnostics::{self, Diagnostic, DiagnosticModel};
use crate::config::document::{self, load_str, LoadResult, ParseFailure};
use crate::config::resolve::RawConfig;
use crate::config::schema::{self, Config, ConfigModel};
use crate::text::join2;

verus! {

/// How long events are collected before a reload, in milliseconds.
pub const DEBOUNCE_MILLIS: u64 = 100;

/// How long the watcher waits when nothing is pending, in milliseconds.
pub const IDLE_MILLIS: u64 = 200;

/// What an attempt to read the configuration file gave.
pub enum FileReading {
    /// The text, and what the typed parse of it gave.
    Text { source: String, raw: Result<RawConfig, ParseFailure> },
    /// There is no such file.
    Missing,
    /// Reading failed; the system's description of the error.
    Failed(String),
}

/// A load attempt.
pub enum Load {
    /// The file was read and loaded.
    Document(LoadResult),
    /// There is no such file.
    Missing,
    /// Reading failed.
    Failed(String),
}

impl Load {
    /// What applying this attempt gives: the configuration and its
    /// diagnostics, or the diagnostics of a rejection.
    pub open spec fn verdict(self) -> Result<
        (ConfigModel, Seq<DiagnosticModel>),
        Seq<DiagnosticModel>,
    > {
        match self {
            Load::Document(result) => document::load_model(result),
            Load::Missing => Ok((schema::default_config(), Seq::empty())),
            Load::Failed(reason) => Err(
                seq![
                    DiagnosticModel {
                        severity: diagnostics::Severity::Error,
                        message: "failed to read config file: "@ + reason@,
                        span: None,
                        key: None,
                    },
                ],
            ),
        }
    }

    /// A configuration that this attempt applies is well-formed.
    pub open spec fn wf(self) -> bool {
        self matches Load::Document(Ok((config, _))) ==> config.wf()
    }

    /// Whether this attempt is applied.
    pub open spec fn applied(self) -> bool {
        self.verdict() is Ok
    }
}

/// The load attempt for what was read. There is none when a parser's
/// complaint cannot be placed in the text.
pub fn load_file(file: FileReading) -> (r: Option<Load>)
    requires
        file matches FileReading::Text { source, .. } ==> encode_utf8(source@).len() < usize::MAX,
    ensures
        match file {
            FileReading::Text { source, raw } => {
                &&& r is Some <==> document::reportable(
                    source@,
                    document::keys_in(source@),
                    raw,
                )
                &&& r matches Some(load) ==> load.verdict() == document::outcome(
                    source@,
                    document::keys_in(source@),
                    raw,
                )
                &&& (r matches Some(load) && (raw matches Ok(raw) && raw.wf())) ==> r->Some_0.wf()
            },
            FileReading::Missing => r == Some(Load::Missing),
            FileReading::Failed(reason) => r == Some(Load::Failed(reason)),
        },
{
    match file {
        FileReading::Text { source, raw } => match load_str(source.as_str(), raw) {
            Some(result) => Some(Load::Document(result)),
            None => None,
        },
        FileReading::Missing => Some(Load::Missing),
        FileReading::Failed(reason) => Some(Load::Failed(reason)),
    }
}

fn read_error(reason: &str) -> (r: Vec<Diagnostic>)
    ensures
        diagnostics::models(r@) == seq![
            DiagnosticModel {
                severity: diagnostics::Severity::Error,
                message: "failed to read config file: "@ + reason@,
                span: None,
                key: None,
            },
        ],
{
    let d = Diagnostic::error(join2("failed to read config file: ", reason));
    let mut list: Vec<Diagnostic> = Vec::new();
    list.push(d);
    assert(diagnostics::models(list@) =~= seq![d@]);
    list
}

/// The configuration in effect, with the diagnostics of the latest load
/// attempt and a counter of the loads that were applied.
pub struct ConfigService {
    config: Config,
    diagnostics: Vec<Diagnostic>,
    generation: u64,
}

/// What a [`ConfigService`] holds.
#[verifier::ext_equal]
pub struct ServiceModel {
    pub config: ConfigModel,
    pub diagnostics: Seq<DiagnosticModel>,
    pub generation: u64,
}

/// The state after a load attempt. An applied load replaces the configuration
/// and is counted; a rejected one changes nothing but the diagnostics.
pub open spec fn after_load(
    state: ServiceModel,
    verdict: Result<(ConfigModel, Seq<DiagnosticModel>), Seq<DiagnosticModel>>,
) -> ServiceModel {
    match verdict {
        Ok((config, warnings)) => ServiceModel {
            config,
            diagnostics: warnings,
            generation: vstd::wrapping::u64_specs::wrapping_add(state.generation, 1),
        },
        Err(errors) => ServiceModel { diagnostics: errors, ..state },
    }
}

impl ConfigService {
    pub closed spec fn view(&self) -> ServiceModel {
        ServiceModel {
            config: self.config@,
            diagnostics: diagnostics::models(self.diagnostics@),
            generation: self.generation,
        }
    }

    /// The configuration in effect is well-formed.
    pub closed spec fn wf(&self) -> bool {
        self.config.wf()
    }

    /// The state at startup. A missing file is no error: it gives the
    /// defaults. So does a rejected one, together with its errors.
    pub fn start(load: Load) -> (r: Self)
        ensures
            r@ == (match load.verdict() {
                Ok((config, warnings)) => ServiceModel {
                    config,
                    diagnostics: warnings,
                    generation: 0,
                },
                Err(errors) => ServiceModel {
                    config: schema::default_config(),
                    diagnostics: errors,
                    generation: 0,
                },
            }),
            load.wf() ==> r.wf(),
    {
        let (config, diagnostics) = load_from_disk(load);
        ConfigService { config, diagnostics, generation: 0 }
    }

    /// The latest applied configuration.
    pub fn current(&self) -> (r: &Config)
        ensures
            r@ == self@.config,
            self.wf() ==> r.wf(),
    {
        &self.config
    }

    /// The number of loads applied since startup.
    pub fn generation(&self) -> (r: u64)
        ensures
            r == self@.generation,
    {
        self.generation
    }

    /// The diagnostics of the latest load attempt.
    pub fn diagnostics(&self) -> (r: &Vec<Diagnostic>)
        ensures
            diagnostics::models(r@) == self@.diagnostics,
    {
        &self.diagnostics
    }

    /// Takes in a load attempt.
    pub fn reload_now(&mut self, load: Load)
        ensures
            final(self)@ == after_load(old(self)@, load.verdict()),
            old(self).wf() && load.wf() ==> final(self).wf(),
    {
        match load {
            Load::Document(Ok((config, warnings))) => {
                self.config = config;
                self.diagnostics = warnings;
                self.generation = self.generation.wrapping_add(1);
            },
            Load::Document(Err(errors)) => {
                self.diagnostics = errors;
            },
            Load::Missing => {
                self.config = Config::default();
                self.diagnostics = Vec::new();
                self.generation = self.generation.wrapping_add(1);
                assert(diagnostics::models(self.diagnostics@) =~= Seq::<DiagnosticModel>::empty());
            },
            Load::Failed(reason) => {
                self.diagnostics = read_error(reason.as_str());
            },
        }
    }
}

/// The configuration to start with, and the diagnostics of that first load.
fn load_from_disk(load: Load) -> (r: (Config, Vec<Diagnostic>))
    ensures
        match load.verdict() {
            Ok((config, warnings)) => r.0@ == config && diagnostics::models(r.1@) == warnings,
            Err(errors) => r.0@ == schema::default_config() && diagnostics::models(r.1@) == errors,
        },
        load.wf() ==> r.0.wf(),
{
    match load {
        Load::Document(Ok((config, warnings))) => (config, warnings),
        Load::Document(Err(errors)) => (Config::default(), errors),
        Load::Missing => {
            let none: Vec<Diagnostic> = Vec::new();
            assert(diagnostics::models(none@) =~= Seq::<DiagnosticModel>::empty());
            (Config::default(), none)
        },
        Load::Failed(reason) => (Config::default(), read_error(reason.as_str())),
    }
}

/// The state after a series of load attempts.
pub open spec fn after_loads(state: ServiceModel, loads: Seq<Load>) -> ServiceModel
    decreases loads.len(),
{
    if loads.len() == 0 {
        state
    } else {
        after_load(after_loads(state, loads.drop_last()), loads.last().verdict())
    }
}

/// Last-good: as long as every attempt is rejected, the configuration and the
/// counter stay as they were.
pub proof fn rejections_keep_last_good(state: ServiceModel, loads: Seq<Load>)
    requires
        forall|i: int| 0 <= i < loads.len() ==> !(#[trigger] loads[i]).applied(),
    ensures
        after_loads(state, loads).config == state.config,
        after_loads(state, loads).generation == state.generation,
    decreases loads.len(),
{
    if loads.len() > 0 {
        let earlier = loads.drop_last();
        assert forall|i: int| 0 <= i < earlier.len() implies !(#[trigger] earlier[i]).applied() by {
            assert(earlier[i] == loads[i]);
        }
        rejections_keep_last_good(state, earlier);
        assert(!loads[loads.len() - 1].applied());
    }
}

/// Last-good: after any series of attempts the configuration is that of the
/// latest applied one, whatever was rejected after it.
pub proof fn latest_applied_stays(state: ServiceModel, loads: Seq<Load>, n: int)
    requires
        0 <= n < loads.len(),
        loads[n].applied(),
        forall|i: int| n < i < loads.len() ==> !(#[trigger] loads[i]).applied(),
    ensures
        after_loads(state, loads).config == loads[n].verdict()->Ok_0.0,
    decreases loads.len(),
{
    let earlier = loads.drop_last();
    if n < loads.len() - 1 {
        assert(earlier[n] == loads[n]);
        assert forall|i: int| n < i < earlier.len() implies !(#[trigger] earlier[i]).applied() by {
            assert(earlier[i] == loads[i]);
        }
        latest_applied_stays(state, earlier, n);
        assert(!loads[loads.len() - 1].applied());
    }
}

// ---- file events -------------------------------------------------------------------

/// What happened to a path.
#[derive(Debug, Clone, Copy, PartialEq, Eq, Structural)]
pub enum ChangeKind {
    Any,
    Access,
    Create,
    Modify,
    Remove,
    Other,
}

/// A file event: what happened, and the file name of each path concerned, as
/// the system encodes it. A path such as `/` has no file name.
#[derive(Debug, Clone, PartialEq, Eq)]
pub struct Change {
    pub kind: ChangeKind,
    pub names: Vec<Option<Vec<u8>>>,
}

/// Whether two encoded names are the same.
pub open spec fn same_name(a: Option<Vec<u8>>, b: Seq<u8>) -> bool {
    a matches Some(a) && a@ == b
}

/// Whether an event can have changed the file called `file_name`. Where the
/// file has no name, every change counts.
pub open spec fn touches(change: Change, file_name: Option<Vec<u8>>) -> bool {
    &&& change.kind == ChangeKind::Create || change.kind == ChangeKind::Modify || change.kind
        == ChangeKind::Remove || change.kind == ChangeKind::Any
    &&& match file_name {
        Some(name) => exists|i: int|
            0 <= i < change.names.len() && same_name(#[trigger] change.names[i], name@),
        None => true,
    }
}

fn bytes_equal(a: &Vec<u8>, b: &Vec<u8>) -> (r: bool)
    ensures
        r == (a@ == b@),
{
    if a.len() != b.len() {
        return false;
    }
    let mut i: usize = 0;
    while i < a.len()
        invariant
            a.len() == b.len(),
            i <= a.len(),
            forall|j: int| 0 <= j < i ==> a@[j] == b@[j],
        decreases a.len() - i,
    {
        if a[i] != b[i] {
            return false;
        }
        i += 1;
    }
    assert(a@ =~= b@);
    true
}

/// Whether an event can have changed the file called `file_name`.
pub fn event_touches_file(change: &Change, file_name: &Option<Vec<u8>>) -> (r: bool)
    ensures
        r == touches(*change, *file_name),
{
    match change.kind {
        ChangeKind::Access | ChangeKind::Other => {
            return false;
        },
        ChangeKind::Any | ChangeKind::Create | ChangeKind::Modify | ChangeKind::Remove => {},
    }
    let name = match file_name {
        Some(name) => name,
        None => {
            return true;
        },
    };
    let mut i: usize = 0;
    while i < change.names.len()
        invariant
            i <= change.names.len(),
            *file_name == Some(*name),
            change.kind != ChangeKind::Access && change.kind != ChangeKind::Other,
            forall|j: int| 0 <= j < i ==> !same_name(#[trigger] change.names[j], name@),
        decreases change.names.len() - i,
    {
        if let Some(other) = &change.names[i] {
            if bytes_equal(other, name) {
                assert(same_name(change.names[i as int], name@));
                return true;
            }
        }
        i += 1;
    }
    false
}

/// What the watcher waits for gave.
pub enum WatchEvent {
    /// The service is shutting down.
    Shutdown,
    /// A file event, and those that were queued behind it.
    Changes(Vec<Change>),
    /// The watcher reported an error.
    Error,
    /// Nothing came within the waiting time.
    Timeout,
    /// The watcher is gone.
    Disconnected,
}

/// What the watch loop does next.
#[derive(Debug, Clone, Copy, PartialEq, Eq, Structural)]
pub enum WatchAction {
    Wait,
    Reload,
    Stop,
}

/// The debouncing of file events: a burst of changes gives one reload, once
/// no event has come for a while.
pub struct WatchLoop {
    pub file_name: Option<Vec<u8>>,
    pub pending: bool,
}

/// Whether one of the events can have changed the file.
pub open spec fn any_touches(changes: Seq<Change>, file_name: Option<Vec<u8>>) -> bool {
    exists|i: int| 0 <= i < changes.len() && touches(#[trigger] changes[i], file_name)
}

/// Whether an event brings a change of the file.
pub open spec fn brings_change(event: WatchEvent, file_name: Option<Vec<u8>>) -> bool {
    event matches WatchEvent::Changes(changes) && any_touches(changes@, file_name)
}

/// Whether a reload is pending after an event.
pub open spec fn pending_after(
    pending: bool,
    event: WatchEvent,
    file_name: Option<Vec<u8>>,
) -> bool {
    match event {
        WatchEvent::Timeout => false,
        _ => pending || brings_change(event, file_name),
    }
}

/// What to do about an event.
pub open spec fn action_on(pending: bool, event: WatchEvent) -> WatchAction {
    match event {
        WatchEvent::Shutdown | WatchEvent::Disconnected => WatchAction::Stop,
        WatchEvent::Timeout => if pending {
            WatchAction::Reload
        } else {
            WatchAction::Wait
        },
        WatchEvent::Changes(_) | WatchEvent::Error => WatchAction::Wait,
    }
}

impl WatchLoop {
    /// A loop with nothing pending.
    pub fn new(file_name: Option<Vec<u8>>) -> (r: Self)
        ensures
            r.file_name == file_name,
            !r.pending,
    {
        WatchLoop { file_name, pending: false }
    }

    /// How long to wait for the next event, in milliseconds.
    pub fn timeout_millis(&self) -> (r: u64)
        ensures
            r == (if self.pending {
                DEBOUNCE_MILLIS
            } else {
                IDLE_MILLIS
            }),
    {
        if self.pending {
            DEBOUNCE_MILLIS
        } else {
            IDLE_MILLIS
        }
    }

    /// Takes in what the wait gave and says what to do next.
    pub fn step(&mut self, event: WatchEvent) -> (r: WatchAction)
        ensures
            final(self).file_name == old(self).file_name,
            final(self).pending == pending_after(old(self).pending, event, old(self).file_name),
            r == action_on(old(self).pending, event),
    {
        match event {
            WatchEvent::Shutdown | WatchEvent::Disconnected => WatchAction::Stop,
            WatchEvent::Error => WatchAction::Wait,
            WatchEvent::Changes(changes) => {
                let ghost name = self.file_name;
                let ghost was = self.pending;
                let mut i: usize = 0;
                while i < changes.len()
                    invariant
                        i <= changes.len(),
                        self.file_name == name,
                        self.pending == (was || any_touches(changes@.take(i as int), name)),
                    decreases changes.len() - i,
                {
                    let hit = event_touches_file(&changes[i], &self.file_name);
                    proof {
                        let before = changes@.take(i as int);
                        let after = changes@.take(i + 1);
                        assert(after[i as int] == changes@[i as int]);
                        if any_touches(before, name) {
                            let j = choose|j: int|
                                0 <= j < before.len() && touches(#[trigger] before[j], name);
                            assert(after[j] == before[j]);
                        }
                        if any_touches(after, name) && !hit {
                            let j = choose|j: int|
                                0 <= j < after.len() && touches(#[trigger] after[j], name);
                            assert(before[j] == after[j]);
                        }
                    }
                    if hit {
                        self.pending = true;
                    }
                    i += 1;
                }
                assert(changes@.take(i as int) =~= changes@);
                WatchAction::Wait
            },
            WatchEvent::Timeout => {
                if self.pending {
                    self.pending = false;
                    WatchAction::Reload
                } else {
                    WatchAction::Wait
                }
            },
        }
    }
}

/// Whether a reload is pending after a series of events, when none was at its
/// start.
pub open spec fn pending_after_all(events: Seq<WatchEvent>, file_name: Option<Vec<u8>>) -> bool
    decreases events.len(),
{
    if events.len() == 0 {
        false
    } else {
        pending_after(pending_after_all(events.drop_last(), file_name), events.last(), file_name)
    }
}

/// What is done about event `i` of a series, when nothing was pending at its
/// start.
pub open spec fn action_at(
    events: Seq<WatchEvent>,
    file_name: Option<Vec<u8>>,
    i: int,
) -> WatchAction {
    action_on(pending_after_all(events.take(i), file_name), events[i])
}

/// Whether event `j` brings a change of the file and no timeout has come
/// between it and event `n`.
pub open spec fn unsettled(
    events: Seq<WatchEvent>,
    file_name: Option<Vec<u8>>,
    j: int,
    n: int,
) -> bool {
    &&& 0 <= j < n
    &&& brings_change(events[j], file_name)
    &&& forall|k: int| j < k < n ==> !(#[trigger] events[k] is Timeout)
}

proof fn lemma_pending(events: Seq<WatchEvent>, file_name: Option<Vec<u8>>, n: int)
    requires
        0 <= n <= events.len(),
    ensures
        pending_after_all(events.take(n), file_name) <==> exists|j: int|
            unsettled(events, file_name, j, n),
    decreases n,
{
    if n > 0 {
        let m = n - 1;
        lemma_pending(events, file_name, m);
        assert(events.take(n).drop_last() =~= events.take(n - 1));
        assert(events.take(n).last() == events[n - 1]);
        if pending_after_all(events.take(n), file_name) {
            if brings_change(events[n - 1], file_name) {
                assert(unsettled(events, file_name, n - 1, n));
            } else {
                let j = choose|j: int| unsettled(events, file_name, j, m);
                assert(unsettled(events, file_name, j, n));
            }
        }
        if exists|j: int| unsettled(events, file_name, j, n) {
            let j = choose|j: int| unsettled(events, file_name, j, n);
            if j < n - 1 {
                assert(unsettled(events, file_name, j, m));
            }
        }
    }
}

/// Whatever events come: the file is reloaded at a timeout before which it was
/// changed since the last timeout, and never otherwise.
pub proof fn reloads_follow_changes(events: Seq<WatchEvent>, file_name: Option<Vec<u8>>, i: int)
    requires
        0 <= i < events.len(),
    ensures
        action_at(events, file_name, i) == WatchAction::Reload <==> events[i] is Timeout && exists|
            j: int,
        | unsettled(events, file_name, j, i),
{
    lemma_pending(events, file_name, i);
}

/// A burst of events gives one reload: none while it lasts, one at the first
/// timeout after it if it changed the file, and none at the timeout after
/// that.
pub proof fn burst_reloads_once(
    events: Seq<WatchEvent>,
    file_name: Option<Vec<u8>>,
    from: int,
    to: int,
)
    requires
        0 <= from <= to,
        to + 1 < events.len(),
        from > 0 ==> events[from - 1] is Timeout,
        forall|k: int| from <= k < to ==> !(#[trigger] events[k] is Timeout),
        events[to] is Timeout,
        events[to + 1] is Timeout,
    ensures
        forall|k: int|
            from <= k < to ==> #[trigger] action_at(events, file_name, k) != WatchAction::Reload,
        action_at(events, file_name, to) == (if exists|k: int|
            from <= k < to && brings_change(#[trigger] events[k], file_name) {
            WatchAction::Reload
        } else {
            WatchAction::Wait
        }),
        action_at(events, file_name, to + 1) == WatchAction::Wait,
{
    assert forall|k: int| from <= k < to implies #[trigger] action_at(events, file_name, k)
        != WatchAction::Reload by {
        assert(!(events[k] is Timeout));
    }
    reloads_follow_changes(events, file_name, to);
    let next = to + 1;
    reloads_follow_changes(events, file_name, next);
    if exists|k: int| from <= k < to && brings_change(#[trigger] events[k], file_name) {
        let k = choose|k: int| from <= k < to && brings_change(#[trigger] events[k], file_name);
        assert(unsettled(events, file_name, k, to));
    }
    if exists|j: int| unsettled(events, file_name, j, to) {
        let j = choose|j: int| unsettled(events, file_name, j, to);
        assert(brings_change(events[j], file_name));
        if j < from {
            assert(from - 1 == j || !(events[from - 1] is Timeout));
        }
    }
    if exists|j: int| unsettled(events, file_name, j, next) {
        let j = choose|j: int| unsettled(events, file_name, j, next);
        assert(to == j || !(events[to] is Timeout));
    }
}

/// Events that do not change the file never reload it.
pub proof fn other_changes_never_reload(
    events: Seq<WatchEvent>,
    file_name: Option<Vec<u8>>,
    i: int,
)
    requires
        0 <= i < events.len(),
        forall|j: int| 0 <= j < i ==> !brings_change(#[trigger] events[j], file_name),
    ensures
        action_at(events, file_name, i) != WatchAction::Reload,
{
    reloads_follow_changes(events, file_name, i);
    if exists|j: int| unsettled(events, file_name, j, i) {
        let j = choose|j: int| unsettled(events, file_name, j, i);
        assert(!brings_change(events[j], file_name));
    }
}

/// The counter counts the loads that were applied, one by one.
pub proof fn applied_loads_are_counted(state: ServiceModel, load: Load)
    requires
        state.generation < u64::MAX,
    ensures
        load.applied() ==> after_load(state, load.verdict()).generation == state.generation + 1,
        !load.applied() ==> after_load(state, load.verdict()).generation == state.generation,
{
}

/// What each attempt gives: a missing file the defaults without a diagnostic,
/// a file that cannot be read an error with the system's reason, and a loaded
/// one what loading gave. The diagnostics are always those of the latest
/// attempt.
pub proof fn attempts_give(state: ServiceModel, reason: String)
    ensures
        after_load(state, Load::Missing.verdict()).config == schema::default_config(),
        after_load(state, Load::Missing.verdict()).diagnostics.len() == 0,
        after_load(state, Load::Failed(reason).verdict()).config == state.config,
        after_load(state, Load::Failed(reason).verdict()).diagnostics.len() == 1,
        after_load(state, Load::Failed(reason).verdict()).diagnostics[0].message
            == "failed to read config file: "@ + reason@,
        after_load(state, Load::Failed(reason).verdict()).diagnostics[0].severity
            == diagnostics::Severity::Error,
{
}

/// Which file events concern the file: a change of its name, its content or
/// its being there, on a path with its file name. Reading it does not.
pub proof fn events_concern_the_file(change: Change, name: Vec<u8>, i: int)
    requires
        0 <= i < change.names.len(),
        change.names[i] is Some,
        change.names[i]->0@ == name@,
    ensures
        change.kind == ChangeKind::Create || change.kind == ChangeKind::Modify || change.kind
            == ChangeKind::Remove || change.kind == ChangeKind::Any ==> touches(
            change,
            Some(name),
        ),
        change.kind == ChangeKind::Access || change.kind == ChangeKind::Other ==> !touches(
            change,
            Some(name),
        ),
{
    assert(same_name(change.names[i], name@));
}

/// Events on other names do not concern the file.
pub proof fn other_names_do_not_concern_the_file(change: Change, name: Vec<u8>)
    requires
        forall|i: int|
            0 <= i < change.names.len() && (#[trigger] change.names[i]) is Some
                ==> change.names[i]->0@ != name@,
    ensures
        !touches(change, Some(name)),
{
    if touches(change, Some(name)) {
        let i = choose|i: int|
            0 <= i < change.names.len() && same_name(#[trigger] change.names[i], name@);
        assert(change.names[i] is Some);
    }
}

} // verus!
