//! The interaction state machine: choosing a process, typing a countdown
//! length, and waiting for the countdown to run out. Each key press and each
//! clock check is one transition; the caller performs the termination that a
//! transition asks for and reports how it went.

use vstd::prelude::*;
use crate::catalog::{
    clamp_selection, filter_matching, find_name, is_first_with_id, is_stable_name_sort, models, next_selection,
    previous_selection, Catalog, ProcessEntry,
};
use crate::duration::{duration_of, parse_timer_input};
use crate::text::{copy_text, trimmed};
use crate::timer::{remaining_at, Timer};

verus! {

/// Which of the three stages of the interaction is active.
#[derive(Debug, PartialEq, Eq, Structural, Clone, Copy)]
pub enum Mode {
    Selecting,
    ConfiguringTimer,
    Running,
}

/// A key press, as the terminal reports it.
#[derive(Debug, PartialEq, Eq, Structural, Clone, Copy)]
pub enum Key {
    Up,
    Down,
    Enter,
    Esc,
    Backspace,
    Char(char),
    Other,
}

/// What the caller does after a key press.
#[derive(Debug, PartialEq, Eq, Structural, Clone, Copy)]
pub enum Action {
    Continue,
    Quit,
}

/// The line shown to the operator about the last transition.
#[derive(Debug, PartialEq, Eq, Structural, Clone, Copy)]
pub enum Status {
    SelectPrompt,
    TimerPrompt,
    InvalidFormat,
    TimerRunning,
    TimerCancelled,
    Terminated,
    TerminationFailed,
}

impl Status {
    pub open spec fn spec_is_error(self) -> bool {
        self == Status::InvalidFormat || self == Status::TerminationFailed
    }

    /// Whether the line reports a failure.
    #[verifier::when_used_as_spec(spec_is_error)]
    pub fn is_error(self) -> (r: bool)
        ensures
            r == self.spec_is_error(),
    {
        match self {
            Status::InvalidFormat | Status::TerminationFailed => true,
            _ => false,
        }
    }

    /// The text of the line.
    pub fn message(self) -> &'static str {
        match self {
            Status::SelectPrompt => "Select a process (Up/Down: move, /: search, Enter: select)",
            Status::TimerPrompt => "Enter the countdown (minutes:seconds, e.g. 5:30, or seconds, e.g. 300)",
            Status::InvalidFormat => "Invalid format. Examples: 5:30 or 300",
            Status::TimerRunning => "Countdown running... (Q: cancel)",
            Status::TimerCancelled => "Countdown cancelled",
            Status::Terminated => "The process was terminated.",
            Status::TerminationFailed => "Terminating the process failed",
        }
    }
}

/// The abstract state of the interaction.
pub struct AppView {
    pub mode: Mode,
    pub all: Seq<(u32, Seq<char>)>,
    pub filtered: Seq<(u32, Seq<char>)>,
    pub query: Seq<char>,
    pub selected: Option<usize>,
    pub timer: Timer,
    pub timer_input: Seq<char>,
    pub target: Option<u32>,
    pub status: Status,
}

/// The invariant of the interaction: the matching list follows the query,
/// a non-empty matching list has a selection inside it, a target exists
/// exactly outside process selection, and the countdown runs exactly while
/// waiting for it.
pub open spec fn consistent(v: AppView) -> bool {
    &&& v.filtered == filter_matching(v.all, v.query)
    &&& v.filtered.len() > 0 ==> (v.selected matches Some(i) && i < v.filtered.len())
    &&& (v.mode == Mode::Selecting <==> v.target is None)
    &&& (v.mode == Mode::Running <==> v.timer.started_at_ms is Some)
}

/// `v` with `q` as the active query: the matching list rebuilt and the
/// selection clamped to it.
pub open spec fn with_query(v: AppView, q: Seq<char>) -> AppView {
    let f = filter_matching(v.all, q);
    AppView { query: q, filtered: f, selected: clamp_selection(v.selected, f.len() as int), ..v }
}

/// The identifier under the selection, if the selection points at an entry.
pub open spec fn selected_id_of(v: AppView) -> Option<u32> {
    match v.selected {
        Some(i) => if i < v.filtered.len() {
            Some(v.filtered[i as int].0)
        } else {
            None
        },
        None => None,
    }
}

/// `v` back at process selection with no target and no running countdown.
pub open spec fn back_to_selecting(v: AppView, status: Status) -> AppView {
    AppView {
        mode: Mode::Selecting,
        target: None,
        timer: Timer { started_at_ms: None, ..v.timer },
        status,
        ..v
    }
}

/// A key press while choosing a process.
pub open spec fn selecting_step(v: AppView, key: Key) -> (AppView, Action) {
    match key {
        Key::Up => (AppView { selected: previous_selection(v.selected, v.filtered.len() as int), ..v }, Action::Continue),
        Key::Down => (AppView { selected: next_selection(v.selected, v.filtered.len() as int), ..v }, Action::Continue),
        Key::Enter => match selected_id_of(v) {
            Some(id) => (
                AppView {
                    mode: Mode::ConfiguringTimer,
                    target: Some(id),
                    timer_input: Seq::empty(),
                    status: Status::TimerPrompt,
                    ..v
                },
                Action::Continue,
            ),
            None => (v, Action::Continue),
        },
        Key::Backspace => (
            with_query(v, if v.query.len() > 0 { v.query.drop_last() } else { v.query }),
            Action::Continue,
        ),
        Key::Char(c) => if c == 'q' || c == 'Q' {
            (v, Action::Quit)
        } else if c == '/' {
            (with_query(v, Seq::empty()), Action::Continue)
        } else {
            (with_query(v, v.query.push(c)), Action::Continue)
        },
        _ => (v, Action::Continue),
    }
}

/// A key press while typing the countdown length.
pub open spec fn configuring_step(v: AppView, key: Key, now_ms: u64) -> (AppView, Action) {
    match key {
        Key::Esc => (
            AppView {
                mode: Mode::Selecting,
                target: None,
                timer_input: Seq::empty(),
                status: Status::SelectPrompt,
                ..v
            },
            Action::Continue,
        ),
        Key::Enter => match duration_of(trimmed(v.timer_input)) {
            Some(secs) => (
                AppView {
                    mode: Mode::Running,
                    timer: Timer { total_seconds: secs, started_at_ms: Some(now_ms) },
                    status: Status::TimerRunning,
                    ..v
                },
                Action::Continue,
            ),
            None => (AppView { status: Status::InvalidFormat, ..v }, Action::Continue),
        },
        Key::Backspace => (
            AppView {
                timer_input: if v.timer_input.len() > 0 {
                    v.timer_input.drop_last()
                } else {
                    v.timer_input
                },
                ..v
            },
            Action::Continue,
        ),
        Key::Char(c) => if c == 'q' || c == 'Q' {
            (v, Action::Quit)
        } else {
            (AppView { timer_input: v.timer_input.push(c), ..v }, Action::Continue)
        },
        _ => (v, Action::Continue),
    }
}

/// A key press while the countdown runs: `q` cancels it.
pub open spec fn running_step(v: AppView, key: Key) -> (AppView, Action) {
    match key {
        Key::Char(c) => if c == 'q' || c == 'Q' {
            (back_to_selecting(v, Status::TimerCancelled), Action::Continue)
        } else {
            (v, Action::Continue)
        },
        _ => (v, Action::Continue),
    }
}

/// The state and action that follow a key press at `now_ms`.
pub open spec fn key_step(v: AppView, key: Key, now_ms: u64) -> (AppView, Action) {
    match v.mode {
        Mode::Selecting => selecting_step(v, key),
        Mode::ConfiguringTimer => configuring_step(v, key, now_ms),
        Mode::Running => running_step(v, key),
    }
}

/// The process to terminate at `now_ms`: the target, once the running
/// countdown has no seconds left.
pub open spec fn expired_target_of(v: AppView, now_ms: u64) -> Option<u32> {
    match v.timer.started_at_ms {
        Some(start) => if v.mode == Mode::Running && remaining_at(
            v.timer.total_seconds,
            start,
            now_ms,
        ) == 0 {
            v.target
        } else {
            None
        },
        None => None,
    }
}

/// The whole state of the interaction.
pub struct App {
    pub catalog: Catalog,
    pub timer: Timer,
    pub mode: Mode,
    pub timer_input: Vec<char>,
    pub target: Option<u32>,
    pub status: Status,
}

impl View for App {
    type V = AppView;

    open spec fn view(&self) -> AppView {
        AppView {
            mode: self.mode,
            all: models(self.catalog.all@),
            filtered: models(self.catalog.filtered@),
            query: self.catalog.query@,
            selected: self.catalog.selected,
            timer: self.timer,
            timer_input: self.timer_input@,
            target: self.target,
            status: self.status,
        }
    }
}

impl App {
    pub open spec fn wf(&self) -> bool {
        &&& self.catalog.wf()
        &&& consistent(self@)
    }

    /// Process selection over an empty catalog, with no countdown.
    pub fn new() -> (r: App)
        ensures
            r.wf(),
            r@.mode == Mode::Selecting,
            r@.all.len() == 0,
            r@.query.len() == 0,
            r@.selected is None,
            r@.timer_input.len() == 0,
            r@.target is None,
            r@.timer.started_at_ms is None,
            r@.status == Status::SelectPrompt,
    {
        App {
            catalog: Catalog::new(),
            timer: Timer::new(),
            mode: Mode::Selecting,
            timer_input: Vec::new(),
            target: None,
            status: Status::SelectPrompt,
        }
    }

    /// Replaces the known processes with `snapshot` and re-applies the query.
    pub fn refresh(&mut self, snapshot: &Vec<ProcessEntry>)
        requires
            old(self).wf(),
        ensures
            final(self).wf(),
            is_stable_name_sort(models(snapshot@), final(self)@.all),
            final(self)@ == with_query(AppView { all: final(self)@.all, ..old(self)@ }, old(self)@.query),
    {
        self.catalog.refresh(snapshot);
    }

    /// Whether the process list is due for a refresh: only while choosing.
    pub fn refresh_due(&self) -> (r: bool)
        ensures
            r == (self.mode == Mode::Selecting),
    {
        self.mode == Mode::Selecting
    }

    /// Applies a key press that came at `now_ms`.
    pub fn handle_key(&mut self, key: Key, now_ms: u64) -> (r: Action)
        requires
            old(self).wf(),
        ensures
            final(self).wf(),
            (final(self)@, r) == key_step(old(self)@, key, now_ms),
    {
        match self.mode {
            Mode::Selecting => self.selecting_key(key),
            Mode::ConfiguringTimer => self.configuring_key(key, now_ms),
            Mode::Running => self.running_key(key),
        }
    }

    fn selecting_key(&mut self, key: Key) -> (r: Action)
        requires
            old(self).wf(),
            old(self).mode == Mode::Selecting,
        ensures
            final(self).wf(),
            (final(self)@, r) == selecting_step(old(self)@, key),
    {
        match key {
            Key::Up => {
                self.catalog.previous();
                Action::Continue
            },
            Key::Down => {
                self.catalog.next();
                Action::Continue
            },
            Key::Enter => {
                if let Some(id) = self.catalog.selected_id() {
                    self.target = Some(id);
                    self.timer_input = Vec::new();
                    self.mode = Mode::ConfiguringTimer;
                    self.status = Status::TimerPrompt;
                }
                Action::Continue
            },
            Key::Backspace => {
                let mut q = copy_text(&self.catalog.query);
                q.pop();
                self.catalog.set_query(q);
                Action::Continue
            },
            Key::Char(c) => {
                if c == 'q' || c == 'Q' {
                    Action::Quit
                } else if c == '/' {
                    self.catalog.set_query(Vec::new());
                    Action::Continue
                } else {
                    let mut q = copy_text(&self.catalog.query);
                    q.push(c);
                    self.catalog.set_query(q);
                    Action::Continue
                }
            },
            _ => Action::Continue,
        }
    }

    fn configuring_key(&mut self, key: Key, now_ms: u64) -> (r: Action)
        requires
            old(self).wf(),
            old(self).mode == Mode::ConfiguringTimer,
        ensures
            final(self).wf(),
            (final(self)@, r) == configuring_step(old(self)@, key, now_ms),
    {
        match key {
            Key::Esc => {
                self.mode = Mode::Selecting;
                self.target = None;
                self.timer_input = Vec::new();
                self.status = Status::SelectPrompt;
                Action::Continue
            },
            Key::Enter => {
                match parse_timer_input(&self.timer_input) {
                    Ok(secs) => {
                        self.timer.arm(secs, now_ms);
                        self.mode = Mode::Running;
                        self.status = Status::TimerRunning;
                    },
                    Err(_) => {
                        self.status = Status::InvalidFormat;
                    },
                }
                Action::Continue
            },
            Key::Backspace => {
                self.timer_input.pop();
                Action::Continue
            },
            Key::Char(c) => {
                if c == 'q' || c == 'Q' {
                    Action::Quit
                } else {
                    self.timer_input.push(c);
                    Action::Continue
                }
            },
            _ => Action::Continue,
        }
    }

    fn running_key(&mut self, key: Key) -> (r: Action)
        requires
            old(self).wf(),
            old(self).mode == Mode::Running,
        ensures
            final(self).wf(),
            (final(self)@, r) == running_step(old(self)@, key),
    {
        match key {
            Key::Char(c) => {
                if c == 'q' || c == 'Q' {
                    self.cancel_to_selecting(Status::TimerCancelled);
                }
                Action::Continue
            },
            _ => Action::Continue,
        }
    }

    fn cancel_to_selecting(&mut self, status: Status)
        requires
            old(self).wf(),
        ensures
            final(self).wf(),
            final(self)@ == back_to_selecting(old(self)@, status),
    {
        self.mode = Mode::Selecting;
        self.target = None;
        self.timer.disarm();
        self.status = status;
    }

    /// The name of the target process in the catalog, if there is a target
    /// and the catalog holds an entry with its identifier.
    pub fn target_name(&self) -> (r: Option<Vec<char>>)
        ensures
            r is None <==> (self.target is None || forall|k: int|
                0 <= k < self@.all.len() ==> self@.all[k].0 != self.target->0),
            r matches Some(n) ==> exists|k: int|
                is_first_with_id(self@.all, self.target->0, k) && self@.all[k].1 == n@,
    {
        match self.target {
            Some(id) => {
                assert(self@.all == models(self.catalog.all@));
                find_name(&self.catalog.all, id)
            },
            None => None,
        }
    }

    /// The process to terminate now: the target, once the running countdown
    /// has no seconds left at `now_ms`.
    pub fn expired_target(&self, now_ms: u64) -> (r: Option<u32>)
        ensures
            r == expired_target_of(self@, now_ms),
    {
        if self.mode == Mode::Running {
            match self.timer.remaining(now_ms) {
                Some(left) => if left == 0 {
                    self.target
                } else {
                    None
                },
                None => None,
            }
        } else {
            None
        }
    }

    /// Takes in how the termination of the target went: either way back to
    /// process selection with no target and no countdown. Returns whether the
    /// process list should be refreshed, which it should after a success.
    pub fn termination_finished(&mut self, succeeded: bool) -> (refresh: bool)
        requires
            old(self).wf(),
        ensures
            final(self).wf(),
            final(self)@ == back_to_selecting(
                old(self)@,
                if succeeded {
                    Status::Terminated
                } else {
                    Status::TerminationFailed
                },
            ),
            refresh == succeeded,
    {
        self.cancel_to_selecting(
            if succeeded {
                Status::Terminated
            } else {
                Status::TerminationFailed
            },
        );
        succeeded
    }
}

} // verus!
