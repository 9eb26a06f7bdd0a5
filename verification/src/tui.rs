//! The dashboard: its state, how keys and the clock move it, and what it
//! shows. The terminal itself is driven from outside: this module decides,
//! the caller performs.

use vstd::prelude::*;
use crate::config::Config;
use crate::engine::{gathered, Engine, MetricsSnapshot, Section};
use crate::error::GimError;
use crate::metric::Timestamp;
use crate::modules::Sample;

verus! {

/// A key of the keyboard, as far as the dashboard tells keys apart.
#[derive(Clone, Copy, PartialEq, Eq, Structural, Debug)]
pub enum Key {
    Char(char),
    Esc,
    Tab,
    BackTab,
    Left,
    Right,
    Other,
}

/// What happened to a key.
#[derive(Clone, Copy, PartialEq, Eq, Structural, Debug)]
pub enum KeyKind {
    Press,
    Release,
    Repeat,
}

/// What a key press asks for.
#[derive(Clone, Copy, PartialEq, Eq, Structural, Debug)]
pub enum Command {
    Quit,
    NextTab,
    PreviousTab,
    Nothing,
}

/// What a key event asks for: only a press asks for anything.
pub open spec fn command_of(key: Key, kind: KeyKind) -> Command {
    if kind != KeyKind::Press {
        Command::Nothing
    } else {
        match key {
            Key::Char(c) => if c == 'q' {
                Command::Quit
            } else if c == 'l' {
                Command::NextTab
            } else if c == 'h' {
                Command::PreviousTab
            } else {
                Command::Nothing
            },
            Key::Esc => Command::Quit,
            Key::Tab => Command::NextTab,
            Key::Right => Command::NextTab,
            Key::BackTab => Command::PreviousTab,
            Key::Left => Command::PreviousTab,
            Key::Other => Command::Nothing,
        }
    }
}

/// The tab after `selected` among `count` tabs, the first following the last;
/// `selected` itself where there are no tabs.
pub open spec fn tab_after(selected: int, count: int) -> int {
    if count > 0 {
        (selected + 1) % count
    } else {
        selected
    }
}

/// The tab before `selected` among `count` tabs, the last preceding the
/// first; `selected` itself where there are no tabs.
pub open spec fn tab_before(selected: int, count: int) -> int {
    if count > 0 {
        if selected == 0 {
            count - 1
        } else {
            selected - 1
        }
    } else {
        selected
    }
}

/// The tab that is selected after a command.
pub open spec fn tab_on(command: Command, selected: int, count: int) -> int {
    match command {
        Command::NextTab => tab_after(selected, count),
        Command::PreviousTab => tab_before(selected, count),
        _ => selected,
    }
}

/// The milliseconds left until the next round is due; zero once it is.
pub open spec fn wait_left(interval: u64, elapsed: u64) -> u64 {
    if elapsed >= interval {
        0
    } else {
        (interval - elapsed) as u64
    }
}

/// Where the dashboard stands.
#[derive(Clone, Copy, PartialEq, Eq, Structural, Debug)]
pub enum Phase {
    /// The terminal is not yet prepared, or the first round not yet made.
    Initializing,
    /// The dashboard is shown.
    Running,
    /// The terminal is being restored.
    Quitting,
    /// The terminal was restored; nothing is left to do.
    Done,
}

/// What the caller reports to the dashboard.
#[derive(Debug)]
pub enum Event {
    /// The terminal was prepared: alternate screen and raw input are on.
    Prepared,
    /// A round was collected: what the metrics source gave for each
    /// configured module, and when.
    Collected { samples: Vec<Sample>, at: Timestamp },
    /// The frame was drawn, `elapsed_ms` milliseconds after the last round.
    Drawn { elapsed_ms: u64 },
    /// The wait for input ended, with a key event or without one,
    /// `elapsed_ms` milliseconds after the last round.
    Waited { key: Option<(Key, KeyKind)>, elapsed_ms: u64 },
    /// Preparing the terminal, drawing or reading input failed.
    Failed { reason: String },
    /// The terminal was restored; where that failed, the reason.
    Restored { failure: Option<String> },
}

/// What the dashboard asks of the caller.
#[derive(Clone, Copy, PartialEq, Eq, Structural, Debug)]
pub enum Action {
    /// Enter the alternate screen and turn raw input on.
    Prepare,
    /// Ask the metrics source for every configured module.
    Collect,
    /// Draw the frame.
    Draw,
    /// Wait for input for the given milliseconds at most.
    Wait { timeout_ms: u64 },
    /// Turn raw input off, leave the alternate screen, show the cursor.
    Restore,
    /// Leave the loop with the dashboard's result.
    Exit,
}

/// The dashboard.
#[derive(Debug)]
pub struct App {
    engine: Engine,
    config: Config,
    snapshot: Option<MetricsSnapshot>,
    selected_tab: usize,
    should_quit: bool,
    phase: Phase,
    failure: Option<String>,
}

/// The state of the dashboard, as far as its behaviour depends on it.
pub struct Dashboard {
    pub phase: Phase,
    /// The modules of the current snapshot, if a round was made.
    pub sections: Option<Seq<Section>>,
    pub selected_tab: int,
    pub quit_requested: bool,
    /// The reason of the first failure, if anything failed.
    pub failure: Option<Seq<char>>,
}

impl Dashboard {
    /// The number of tabs: the modules of the current snapshot.
    pub open spec fn tab_count(self) -> int {
        match self.sections {
            Some(sections) => sections.len() as int,
            None => 0,
        }
    }

    /// The state after a failure was reported: the terminal is to be
    /// restored, and the first failure is kept.
    pub open spec fn failed(self, reason: Seq<char>) -> Dashboard {
        Dashboard {
            phase: Phase::Quitting,
            failure: if self.failure is Some {
                self.failure
            } else {
                Some(reason)
            },
            ..self
        }
    }
}

/// The state after a key event: a quit is noted, a tab command moves the
/// selection, anything else changes nothing.
pub open spec fn after_key(d: Dashboard, key: Key, kind: KeyKind) -> Dashboard {
    let command = command_of(key, kind);
    Dashboard {
        selected_tab: tab_on(command, d.selected_tab, d.tab_count()),
        quit_requested: d.quit_requested || command == Command::Quit,
        ..d
    }
}

/// The state and the request that follow an event. `kinds` are the
/// configured modules and `interval` the milliseconds between two rounds.
pub open spec fn step_of(
    d: Dashboard,
    event: Event,
    kinds: Seq<crate::modules::ModuleKind>,
    interval: u64,
) -> (Dashboard, Action) {
    match d.phase {
        Phase::Done => (d, Action::Exit),
        Phase::Quitting => match event {
            Event::Restored { failure } => (
                Dashboard {
                    phase: Phase::Done,
                    failure: if d.failure is Some {
                        d.failure
                    } else {
                        match failure {
                            Some(reason) => Some(reason@),
                            None => None,
                        }
                    },
                    ..d
                },
                Action::Exit,
            ),
            _ => (d, Action::Restore),
        },
        Phase::Initializing => match event {
            Event::Prepared => (d, Action::Collect),
            Event::Collected { samples, at } => (
                Dashboard {
                    phase: Phase::Running,
                    sections: Some(gathered(kinds, samples@, at, kinds.len())),
                    ..d
                },
                Action::Draw,
            ),
            Event::Failed { reason } => (d.failed(reason@), Action::Restore),
            Event::Drawn { .. } => (d, Action::Prepare),
            Event::Waited { .. } => (d, Action::Prepare),
            Event::Restored { .. } => (d, Action::Prepare),
        },
        Phase::Running => match event {
            Event::Drawn { elapsed_ms } => (
                d,
                Action::Wait { timeout_ms: wait_left(interval, elapsed_ms) },
            ),
            Event::Waited { key, elapsed_ms } => {
                let moved = match key {
                    Some(pressed) => after_key(d, pressed.0, pressed.1),
                    None => d,
                };
                if moved.quit_requested {
                    (Dashboard { phase: Phase::Quitting, ..moved }, Action::Restore)
                } else if elapsed_ms >= interval {
                    (moved, Action::Collect)
                } else {
                    (moved, Action::Draw)
                }
            },
            Event::Collected { samples, at } => (
                Dashboard { sections: Some(gathered(kinds, samples@, at, kinds.len())), ..d },
                Action::Draw,
            ),
            Event::Failed { reason } => (d.failed(reason@), Action::Restore),
            Event::Prepared => (d, Action::Draw),
            Event::Restored { .. } => (d, Action::Draw),
        },
    }
}

/// Among `count` tabs the selection goes round: forward from the last tab to
/// the first, backward from the first to the last, and back and forth are
/// inverse to each other. Without tabs nothing moves.
pub proof fn tabs_go_round(selected: int, count: int)
    requires
        0 <= selected,
        count > 0 ==> selected < count,
    ensures
        count > 0 ==> tab_after(count - 1, count) == 0,
        count > 0 ==> tab_before(0, count) == count - 1,
        count > 0 ==> 0 <= tab_after(selected, count) < count,
        count > 0 ==> 0 <= tab_before(selected, count) < count,
        count > 0 ==> tab_before(tab_after(selected, count), count) == selected,
        count > 0 ==> tab_after(tab_before(selected, count), count) == selected,
        count == 0 ==> tab_after(selected, count) == selected,
        count == 0 ==> tab_before(selected, count) == selected,
{
    if count > 0 {
        assert((count - 1 + 1) % count == 0) by (nonlinear_arith)
            requires
                count > 0,
        ;
        if selected + 1 < count {
            assert((selected + 1) % count == selected + 1) by (nonlinear_arith)
                requires
                    0 <= selected + 1 < count,
            ;
        }
        if selected > 0 {
            assert(selected % count == selected) by (nonlinear_arith)
                requires
                    0 <= selected < count,
            ;
        }
    }
}

/// A key event changes neither the phase nor the snapshot, and moves the
/// selection only on a press that asks for it. With tabs and the selection
/// among them, it stays among them.
pub proof fn key_keeps_selection_valid(d: Dashboard, key: Key, kind: KeyKind)
    requires
        0 <= d.selected_tab,
        d.tab_count() > 0 ==> d.selected_tab < d.tab_count(),
    ensures
        after_key(d, key, kind).phase == d.phase,
        after_key(d, key, kind).sections == d.sections,
        kind != KeyKind::Press ==> after_key(d, key, kind) == d,
        d.tab_count() == 0 ==> after_key(d, key, kind).selected_tab == d.selected_tab,
        d.tab_count() > 0 ==> 0 <= after_key(d, key, kind).selected_tab < d.tab_count(),
{
    tabs_go_round(d.selected_tab, d.tab_count());
}

/// The terminal is restored on every way out: the loop is left only after
/// the restoration was reported, the restoration is asked for whenever the
/// dashboard turns to quitting, and asked for again until it is reported.
pub proof fn leaves_only_restored(
    d: Dashboard,
    event: Event,
    kinds: Seq<crate::modules::ModuleKind>,
    interval: u64,
)
    ensures
        ({
            let (next, action) = step_of(d, event, kinds, interval);
            &&& action == Action::Exit ==> next.phase == Phase::Done
            &&& next.phase == Phase::Done ==> d.phase == Phase::Done || (d.phase == Phase::Quitting
                && event is Restored)
            &&& next.phase == Phase::Quitting ==> action == Action::Restore
            &&& d.phase == Phase::Quitting ==> next.phase == Phase::Quitting || event is Restored
            &&& event is Failed && d.phase != Phase::Done ==> next.phase == Phase::Quitting
                || next.phase == Phase::Done
        }),
{
}

/// While the dashboard runs, a round is asked for as soon as one is due,
/// with a key or without, unless a quit was asked for; and no wait is longer
/// than what is left until the next round.
pub proof fn round_when_due(
    d: Dashboard,
    key: Option<(Key, KeyKind)>,
    elapsed_ms: u64,
    kinds: Seq<crate::modules::ModuleKind>,
    interval: u64,
)
    requires
        d.phase == Phase::Running,
    ensures
        ({
            let (next, action) = step_of(d, Event::Waited { key, elapsed_ms }, kinds, interval);
            &&& next.quit_requested ==> action == Action::Restore
            &&& !next.quit_requested && elapsed_ms >= interval ==> action == Action::Collect
            &&& !next.quit_requested && elapsed_ms < interval ==> action == Action::Draw
        }),
        ({
            let (next, action) = step_of(d, Event::Drawn { elapsed_ms }, kinds, interval);
            &&& next == d
            &&& action matches Action::Wait { timeout_ms } && timeout_ms <= interval && (
            elapsed_ms < interval ==> timeout_ms == interval - elapsed_ms) && (elapsed_ms
                >= interval ==> timeout_ms == 0)
        }),
{
}

/// What a key event asks for.
pub fn command_for(key: Key, kind: KeyKind) -> (command: Command)
    ensures
        command == command_of(key, kind),
{
    match kind {
        KeyKind::Press => match key {
            Key::Char(c) => if c == 'q' {
                Command::Quit
            } else if c == 'l' {
                Command::NextTab
            } else if c == 'h' {
                Command::PreviousTab
            } else {
                Command::Nothing
            },
            Key::Esc => Command::Quit,
            Key::Tab => Command::NextTab,
            Key::Right => Command::NextTab,
            Key::BackTab => Command::PreviousTab,
            Key::Left => Command::PreviousTab,
            Key::Other => Command::Nothing,
        },
        _ => Command::Nothing,
    }
}

/// The tab that is selected after a command, among `count` tabs.
pub fn next_tab(command: Command, selected: usize, count: usize) -> (tab: usize)
    ensures
        tab == tab_on(command, selected as int, count as int),
{
    match command {
        Command::NextTab => {
            if count > 0 {
                let within: usize = selected % count;
                proof {
                    assert((within + 1) % (count as int) == (selected + 1) % (count as int))
                        by (nonlinear_arith)
                        requires
                            within == selected % count,
                            count > 0,
                    ;
                }
                (within + 1) % count
            } else {
                selected
            }
        },
        Command::PreviousTab => {
            if count > 0 {
                if selected == 0 {
                    count - 1
                } else {
                    selected - 1
                }
            } else {
                selected
            }
        },
        _ => selected,
    }
}

/// The milliseconds left until the next round is due.
pub fn remaining_wait(interval_ms: u64, elapsed_ms: u64) -> (left: u64)
    ensures
        left == wait_left(interval_ms, elapsed_ms),
{
    if elapsed_ms >= interval_ms {
        0
    } else {
        interval_ms - elapsed_ms
    }
}

impl View for App {
    type V = Dashboard;

    closed spec fn view(&self) -> Dashboard {
        Dashboard {
            phase: self.phase,
            sections: match self.snapshot {
                Some(snapshot) => Some(snapshot@),
                None => None,
            },
            selected_tab: self.selected_tab as int,
            quit_requested: self.should_quit,
            failure: match self.failure {
                Some(reason) => Some(reason@),
                None => None,
            },
        }
    }
}

impl App {
    /// The configured modules.
    pub closed spec fn kinds(&self) -> Seq<crate::modules::ModuleKind> {
        self.engine.kinds()
    }

    /// The milliseconds between two rounds.
    pub closed spec fn interval(&self) -> u64 {
        self.config.refresh_interval()
    }

    /// The configuration.
    pub closed spec fn settings(&self) -> Config {
        self.config
    }

    /// Whether every module of the snapshot has unique and ascending keys.
    pub closed spec fn wf(&self) -> bool {
        match self.snapshot {
            Some(snapshot) => snapshot.wf(),
            None => true,
        }
    }

    /// A dashboard over the engine's modules that has not started: no
    /// snapshot, the first tab selected.
    pub fn new(engine: Engine, config: Config) -> (app: App)
        ensures
            app.wf(),
            app.kinds() == engine.kinds(),
            app.settings() == config,
            app.interval() == config.refresh_interval(),
            app@ == (Dashboard {
                phase: Phase::Initializing,
                sections: None,
                selected_tab: 0,
                quit_requested: false,
                failure: None,
            }),
    {
        App {
            engine,
            config,
            snapshot: None,
            selected_tab: 0,
            should_quit: false,
            phase: Phase::Initializing,
            failure: None,
        }
    }

    /// The number of tabs: the modules of the current snapshot.
    pub fn tab_count(&self) -> (n: usize)
        ensures
            n == self@.tab_count(),
    {
        match &self.snapshot {
            Some(snapshot) => snapshot.modules.len(),
            None => 0,
        }
    }

    /// The tab that is selected.
    pub fn selected_tab(&self) -> (tab: usize)
        ensures
            tab == self@.selected_tab,
    {
        self.selected_tab
    }

    /// Whether a quit was asked for.
    pub fn should_quit(&self) -> (quit: bool)
        ensures
            quit == self@.quit_requested,
    {
        self.should_quit
    }

    /// Where the dashboard stands.
    pub fn phase(&self) -> (phase: Phase)
        ensures
            phase == self@.phase,
    {
        self.phase
    }

    /// The current snapshot, if a round was made.
    pub fn snapshot(&self) -> (r: Option<&MetricsSnapshot>)
        ensures
            match r {
                Some(snapshot) => self@.sections == Some(snapshot@) && snapshot.wf(),
                None => self@.sections is None,
            },
            self.wf(),
    {
        proof {
            use_type_invariant(self);
        }
        self.snapshot.as_ref()
    }

    /// The configuration.
    pub fn config(&self) -> (config: &Config)
        ensures
            *config == self.settings(),
    {
        &self.config
    }

    /// The names of the configured modules, for which the caller asks the
    /// metrics source when a round is due.
    pub fn module_names(&self) -> (names: Vec<&'static str>)
        ensures
            names@.len() == self.kinds().len(),
            forall|i: int|
                0 <= i < names@.len() ==> (#[trigger] names@[i])@ == crate::engine::names_of(
                    self.kinds(),
                )[i],
    {
        self.engine.module_names()
    }

    #[verifier::type_invariant]
    spec fn sound(&self) -> bool {
        self.wf()
    }

    /// Makes a round: the snapshot is replaced by what the collectors make of
    /// the samples.
    pub fn refresh(&mut self, samples: &Vec<Sample>, at: Timestamp)
        ensures
            final(self).wf(),
            final(self).kinds() == old(self).kinds(),
            final(self).settings() == old(self).settings(),
            final(self).interval() == old(self).interval(),
            final(self)@ == (Dashboard {
                sections: Some(gathered(old(self).kinds(), samples@, at, old(self).kinds().len())),
                ..old(self)@
            }),
    {
        let snapshot = self.engine.collect_once(samples, at);
        self.snapshot = Some(snapshot);
    }

    /// Acts on a key event: only a press counts. `q` and Escape ask to quit;
    /// Tab, the right arrow and `l` select the next tab, Shift+Tab, the left
    /// arrow and `h` the one before, going round at either end. Without tabs
    /// the selection stays.
    pub fn handle_key(&mut self, key: Key, kind: KeyKind)
        ensures
            final(self).wf(),
            final(self).kinds() == old(self).kinds(),
            final(self).settings() == old(self).settings(),
            final(self).interval() == old(self).interval(),
            final(self)@ == after_key(old(self)@, key, kind),
    {
        proof {
            use_type_invariant(&*self);
        }
        let command = command_for(key, kind);
        let count = self.tab_count();
        if command == Command::Quit {
            self.should_quit = true;
        }
        self.selected_tab = next_tab(command, self.selected_tab, count);
    }

    /// Takes an event and says what to do next.
    pub fn step(&mut self, event: Event) -> (action: Action)
        ensures
            final(self).wf(),
            final(self).kinds() == old(self).kinds(),
            final(self).settings() == old(self).settings(),
            final(self).interval() == old(self).interval(),
            (final(self)@, action) == step_of(
                old(self)@,
                event,
                old(self).kinds(),
                old(self).interval(),
            ),
    {
        proof {
            use_type_invariant(&*self);
        }
        let interval = self.config.tui_refresh_ms();
        match self.phase {
            Phase::Done => Action::Exit,
            Phase::Quitting => match event {
                Event::Restored { failure } => {
                    self.phase = Phase::Done;
                    if self.failure.is_none() {
                        self.failure = failure;
                    }
                    Action::Exit
                },
                _ => Action::Restore,
            },
            Phase::Initializing => match event {
                Event::Prepared => Action::Collect,
                Event::Collected { samples, at } => {
                    self.refresh(&samples, at);
                    self.phase = Phase::Running;
                    Action::Draw
                },
                Event::Failed { reason } => {
                    self.fail(reason);
                    Action::Restore
                },
                Event::Drawn { .. } => Action::Prepare,
                Event::Waited { .. } => Action::Prepare,
                Event::Restored { .. } => Action::Prepare,
            },
            Phase::Running => match event {
                Event::Drawn { elapsed_ms } => Action::Wait {
                    timeout_ms: remaining_wait(interval, elapsed_ms),
                },
                Event::Waited { key, elapsed_ms } => {
                    match key {
                        Some(pressed) => {
                            self.handle_key(pressed.0, pressed.1);
                        },
                        None => {},
                    }
                    if self.should_quit {
                        self.phase = Phase::Quitting;
                        Action::Restore
                    } else if elapsed_ms >= interval {
                        Action::Collect
                    } else {
                        Action::Draw
                    }
                },
                Event::Collected { samples, at } => {
                    self.refresh(&samples, at);
                    Action::Draw
                },
                Event::Failed { reason } => {
                    self.fail(reason);
                    Action::Restore
                },
                Event::Prepared => Action::Draw,
                Event::Restored { .. } => Action::Draw,
            },
        }
    }

    /// Notes a failure and turns to restoring the terminal.
    fn fail(&mut self, reason: String)
        ensures
            final(self).wf(),
            final(self).kinds() == old(self).kinds(),
            final(self).settings() == old(self).settings(),
            final(self).interval() == old(self).interval(),
            final(self)@ == old(self)@.failed(reason@),
    {
        proof {
            use_type_invariant(&*self);
        }
        self.phase = Phase::Quitting;
        if self.failure.is_none() {
            self.failure = Some(reason);
        }
    }

    /// The result with which the dashboard ends: the first failure, if
    /// anything failed.
    pub fn outcome(&self) -> (r: Result<(), GimError>)
        ensures
            match r {
                Ok(_) => self@.failure is None,
                Err(e) => self@.failure is Some && (e matches GimError::Tui(reason) && Some(
                    reason@,
                ) == self@.failure),
            },
    {
        match &self.failure {
            Some(reason) => Err(GimError::Tui(reason.clone())),
            None => Ok(()),
        }
    }
}

} // verus!
