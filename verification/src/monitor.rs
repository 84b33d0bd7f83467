//! The life of one tunnel, from its start until it is stopped or given up.
//!
//! A [`Monitor`] decides; its caller acts. The caller performs the actions that [`Monitor::start`]
//! and [`Monitor::step`] return, in their order, and hands back what happens as an [`Event`],
//! until the monitor is finished.
use vstd::prelude::*;

use crate::notice::{self, notification, Notification, NotificationView};
use crate::number::{self, to_decimal};
use crate::preset::{Preset, PresetView};
use crate::ssh::{self, ssh_arguments};
use crate::text::{self, contains, join, trim};
use crate::tunnel::{StateView, TunnelState};
use crate::url::{self, extract_url};

verus! {

/// How often a tunnel that broke down is set up again.
pub const MAX_ATTEMPTS: u32 = 5;

/// How many seconds a tunnel may take to open.
pub const CONNECT_TIMEOUT_SECS: u64 = 8;

/// How many seconds pass before a tunnel is set up again.
pub const PAUSE_SECS: u64 = 3;

/// The server prints one of these when the time of a free tunnel is over.
pub const LIMIT_MARK: &'static str = "[Limit]";

pub const LIMIT_PHRASE: &'static str = "lifetime limit reached";

/// The server prints one of these when the tunnel was closed from the dashboard.
pub const CLOSED_MARK: &'static str = "[Closed]";

pub const CLOSED_PHRASE: &'static str = "Tunnel closed from dashboard";

/// `ssh` complains so where it never got to talk to the server.
pub const NO_TERMINAL_PHRASE: &'static str = "Pseudo-terminal will not be allocated";

pub const LIMIT_MESSAGE: &'static str = "Отключено по таймауту для бесплатных тарифов";

pub const CLOSED_MESSAGE: &'static str = "Туннель отключен через дашборд";

pub const TIMEOUT_MESSAGE: &'static str = "Таймаут подключения (8с)";

pub const LOST_MESSAGE: &'static str = "Соединение с сервером разорвано";

pub const UNREACHABLE_MESSAGE: &'static str = "Ошибка подключения (проверьте порт SSH/сервер)";

/// What a monitor waits for.
#[derive(Debug, Clone, Copy, PartialEq, Eq, Structural)]
pub enum Phase {
    /// Whether the process could be launched.
    Launching,
    /// What the process prints, and its end.
    Running,
    /// The end of the pause before the next launch.
    Pausing,
    /// Nothing any more.
    Finished,
}

/// What can happen to a tunnel.
#[derive(Debug)]
pub enum Event {
    /// The process was launched.
    Launched,
    /// The process could not be launched, for this reason.
    LaunchFailed(String),
    /// The process printed a line.
    StdoutLine(String),
    /// The process will print no more, or its output cannot be read.
    StdoutEnded,
    /// The process complained in a line.
    StderrLine(String),
    /// The process will complain no more, or its complaints cannot be read.
    StderrEnded,
    /// The process ended.
    Exited,
    /// The time to open the tunnel is over.
    ConnectTimeout,
    /// The pause is over.
    PauseElapsed,
    /// The user asked for an end.
    StopRequested,
}

/// The mathematical value of an [`Event`].
pub enum EventView {
    Launched,
    LaunchFailed(Seq<char>),
    StdoutLine(Seq<char>),
    StdoutEnded,
    StderrLine(Seq<char>),
    StderrEnded,
    Exited,
    ConnectTimeout,
    PauseElapsed,
    StopRequested,
}

impl View for Event {
    type V = EventView;

    open spec fn view(&self) -> EventView {
        match self {
            Event::Launched => EventView::Launched,
            Event::LaunchFailed(why) => EventView::LaunchFailed(why@),
            Event::StdoutLine(line) => EventView::StdoutLine(line@),
            Event::StdoutEnded => EventView::StdoutEnded,
            Event::StderrLine(line) => EventView::StderrLine(line@),
            Event::StderrEnded => EventView::StderrEnded,
            Event::Exited => EventView::Exited,
            Event::ConnectTimeout => EventView::ConnectTimeout,
            Event::PauseElapsed => EventView::PauseElapsed,
            Event::StopRequested => EventView::StopRequested,
        }
    }
}

impl Event {
    /// What an attempt to read a line of output comes to. `read` is the number of bytes that were
    /// read, if reading succeeded; with none left to read it is zero.
    pub fn from_stdout(read: Option<usize>, line: String) -> (r: Event)
        ensures
            r@ == match read {
                Some(n) => if n == 0 {
                    EventView::StdoutEnded
                } else {
                    EventView::StdoutLine(line@)
                },
                None => EventView::StdoutEnded,
            },
    {
        match read {
            Some(n) => if n == 0 {
                Event::StdoutEnded
            } else {
                Event::StdoutLine(line)
            },
            None => Event::StdoutEnded,
        }
    }

    /// What an attempt to read a line of complaints comes to. `read` is the number of bytes that
    /// were read, if reading succeeded; with none left to read it is zero.
    pub fn from_stderr(read: Option<usize>, line: String) -> (r: Event)
        ensures
            r@ == match read {
                Some(n) => if n == 0 {
                    EventView::StderrEnded
                } else {
                    EventView::StderrLine(line@)
                },
                None => EventView::StderrEnded,
            },
    {
        match read {
            Some(n) => if n == 0 {
                Event::StderrEnded
            } else {
                Event::StderrLine(line)
            },
            None => Event::StderrEnded,
        }
    }
}

/// What is to be done for a tunnel.
#[derive(Debug)]
pub enum Action {
    /// Show the user this state.
    SetState(TunnelState),
    /// Show the user a notification.
    Notify(Notification),
    /// Launch `ssh` with these arguments.
    Launch(Vec<String>),
    /// Report [`Event::ConnectTimeout`] when so many seconds have passed.
    ArmTimeout(u64),
    /// Kill the process.
    Kill,
    /// Report [`Event::PauseElapsed`] when so many seconds have passed.
    Pause(u64),
}

/// The mathematical value of an [`Action`].
pub enum ActionView {
    SetState(StateView),
    Notify(NotificationView),
    Launch(Seq<Seq<char>>),
    ArmTimeout(u64),
    Kill,
    Pause(u64),
}

impl View for Action {
    type V = ActionView;

    open spec fn view(&self) -> ActionView {
        match self {
            Action::SetState(state) => ActionView::SetState(state@),
            Action::Notify(notification) => ActionView::Notify(notification@),
            Action::Launch(arguments) => ActionView::Launch(text::texts(arguments@)),
            Action::ArmTimeout(secs) => ActionView::ArmTimeout(*secs),
            Action::Kill => ActionView::Kill,
            Action::Pause(secs) => ActionView::Pause(*secs),
        }
    }
}

/// The mathematical values of a list of actions.
pub open spec fn action_views(actions: Seq<Action>) -> Seq<ActionView> {
    actions.map_values(|a: Action| a@)
}

/// Decides what is done for one tunnel.
#[derive(Debug)]
pub struct Monitor {
    preset: Preset,
    host: String,
    ssh_port: u16,
    attempts: u32,
    phase: Phase,
    last_error_msg: Option<String>,
    limit_reached: bool,
    dashboard_closed: bool,
    is_connected: bool,
}

/// The mathematical value of a [`Monitor`].
pub struct MonitorView {
    /// What is tunnelled.
    pub preset: PresetView,
    /// The server.
    pub host: Seq<char>,
    /// The port of the server.
    pub ssh_port: u16,
    /// How often the tunnel was set up again.
    pub attempts: nat,
    /// What is waited for.
    pub phase: Phase,
    /// The last complaint of the present process.
    pub last_error_msg: Option<Seq<char>>,
    /// The present process reported the end of its time.
    pub limit_reached: bool,
    /// The present process reported that the tunnel was closed.
    pub dashboard_closed: bool,
    /// The present process reported an address.
    pub is_connected: bool,
}

impl View for Monitor {
    type V = MonitorView;

    closed spec fn view(&self) -> MonitorView {
        MonitorView {
            preset: self.preset@,
            host: self.host@,
            ssh_port: self.ssh_port,
            attempts: self.attempts as nat,
            phase: self.phase,
            last_error_msg: text::opt_text(self.last_error_msg),
            limit_reached: self.limit_reached,
            dashboard_closed: self.dashboard_closed,
            is_connected: self.is_connected,
        }
    }
}

/// A monitor before its first launch.
pub open spec fn fresh(
    preset: PresetView,
    host: Seq<char>,
    ssh_port: u16,
) -> MonitorView {
    MonitorView {
        preset,
        host,
        ssh_port,
        attempts: 0,
        phase: Phase::Launching,
        last_error_msg: None,
        limit_reached: false,
        dashboard_closed: false,
        is_connected: false,
    }
}

/// What is done to launch the process of a tunnel.
pub open spec fn launch_actions(m: MonitorView) -> Seq<ActionView> {
    seq![
        ActionView::SetState(StateView::Connecting),
        ActionView::Launch(ssh::arguments(m.preset, m.host, m.ssh_port)),
    ]
}

/// A line of output says that the time of the tunnel is over.
pub open spec fn tells_limit(line: Seq<char>) -> bool {
    text::occurs_in(line, LIMIT_MARK@) || text::occurs_in(line, LIMIT_PHRASE@)
}

/// A line of output says that the tunnel was closed from the dashboard.
pub open spec fn tells_closed(line: Seq<char>) -> bool {
    text::occurs_in(line, CLOSED_MARK@) || text::occurs_in(line, CLOSED_PHRASE@)
}

/// The monitor after a line of output: what the line tells is remembered.
pub open spec fn heard(m: MonitorView, line: Seq<char>) -> MonitorView {
    MonitorView {
        limit_reached: m.limit_reached || tells_limit(line),
        dashboard_closed: m.dashboard_closed || tells_closed(line),
        is_connected: m.is_connected || url::url_in(line) is Some,
        ..m
    }
}

/// What is done after a line of output: an address is shown and announced.
pub open spec fn heard_actions(m: MonitorView, line: Seq<char>) -> Seq<ActionView> {
    match url::url_in(line) {
        Some(url) => seq![
            ActionView::SetState(StateView::Active(url)),
            ActionView::Notify(
                notice::notification_about(m.preset.name, "Туннель запущен: "@ + url),
            ),
        ],
        None => seq![],
    }
}

/// The monitor after a complaint: the last one that is not blank is remembered.
pub open spec fn complained(m: MonitorView, line: Seq<char>) -> MonitorView {
    if text::trimmed(line).len() > 0 {
        MonitorView { last_error_msg: Some(text::trimmed(line)), ..m }
    } else {
        m
    }
}

/// Why a tunnel is given up that was set up again as often as it may be.
pub open spec fn exhausted_reason(last_error_msg: Option<Seq<char>>) -> Seq<char> {
    match last_error_msg {
        Some(msg) => if text::occurs_in(msg, NO_TERMINAL_PHRASE@) {
            UNREACHABLE_MESSAGE@
        } else {
            msg
        },
        None => LOST_MESSAGE@,
    }
}

/// Why a tunnel is given up now that its process is gone, unless it is set up again.
pub open spec fn verdict(m: MonitorView) -> Option<Seq<char>> {
    if m.limit_reached {
        Some(LIMIT_MESSAGE@)
    } else if m.dashboard_closed {
        Some(CLOSED_MESSAGE@)
    } else if m.attempts < MAX_ATTEMPTS {
        None
    } else {
        Some(exhausted_reason(m.last_error_msg))
    }
}

/// What the user is told when a tunnel is set up again for the `attempt`th time.
pub open spec fn retry_body(attempt: nat) -> Seq<char> {
    "Туннель упал. "@ + ("Попытка переподключения "@ + number::decimal(attempt) + "/5..."@)
}

/// A monitor that gave its tunnel up, or was stopped.
pub open spec fn finished(m: MonitorView) -> MonitorView {
    MonitorView { phase: Phase::Finished, ..m }
}

/// What becomes of a tunnel whose process is gone.
pub open spec fn over(m: MonitorView) -> (MonitorView, Seq<ActionView>) {
    match verdict(m) {
        Some(reason) => (
            finished(m),
            seq![
                ActionView::Kill,
                ActionView::SetState(StateView::Error(reason)),
            ],
        ),
        None => (
            MonitorView { attempts: m.attempts + 1, phase: Phase::Pausing, ..m },
            seq![
                ActionView::Kill,
                ActionView::SetState(StateView::Connecting),
                ActionView::Notify(
                    notice::notification_about(m.preset.name, retry_body(m.attempts + 1)),
                ),
                ActionView::Pause(PAUSE_SECS),
            ],
        ),
    }
}

/// What an event makes of a monitor, and what is to be done. An event that is not waited for
/// changes nothing.
pub open spec fn next(m: MonitorView, e: EventView) -> (MonitorView, Seq<ActionView>) {
    match (m.phase, e) {
        (Phase::Launching, EventView::Launched) => (
            MonitorView {
                phase: Phase::Running,
                last_error_msg: None,
                limit_reached: false,
                dashboard_closed: false,
                is_connected: false,
                ..m
            },
            seq![ActionView::ArmTimeout(CONNECT_TIMEOUT_SECS)],
        ),
        (Phase::Launching, EventView::LaunchFailed(why)) => (
            finished(m),
            seq![
                ActionView::SetState(
                    StateView::Error("Ошибка запуска SSH: "@ + why),
                ),
            ],
        ),
        (Phase::Running, EventView::StdoutLine(line)) => (heard(m, line), heard_actions(m, line)),
        (Phase::Running, EventView::StderrLine(line)) => (complained(m, line), seq![]),
        (Phase::Running, EventView::StdoutEnded) => over(m),
        (Phase::Running, EventView::Exited) => over(m),
        (Phase::Running, EventView::ConnectTimeout) => if m.is_connected {
            (m, seq![])
        } else {
            let (after, actions) = over(
                MonitorView { last_error_msg: Some(TIMEOUT_MESSAGE@), ..m },
            );
            (after, seq![ActionView::Kill] + actions)
        },
        (Phase::Running, EventView::StopRequested) => (
            finished(m),
            seq![ActionView::Kill, ActionView::SetState(StateView::Inactive)],
        ),
        (Phase::Pausing, EventView::PauseElapsed) => (
            MonitorView { phase: Phase::Launching, ..m },
            launch_actions(m),
        ),
        (Phase::Pausing, EventView::StopRequested) => (
            finished(m),
            seq![ActionView::SetState(StateView::Inactive)],
        ),
        _ => (m, seq![]),
    }
}

impl Monitor {
    /// A monitor for a tunnel to a server, and what is to be done first.
    pub fn start(preset: Preset, host: String, ssh_port: u16) -> (r: (Self, Vec<Action>))
        ensures
            r.0@ == fresh(preset@, host@, ssh_port),
            action_views(r.1@) == launch_actions(fresh(preset@, host@, ssh_port)),
    {
        let m = Monitor {
            preset,
            host,
            ssh_port,
            attempts: 0,
            phase: Phase::Launching,
            last_error_msg: None,
            limit_reached: false,
            dashboard_closed: false,
            is_connected: false,
        };
        let actions = m.launch();
        (m, actions)
    }

    fn launch(&self) -> (r: Vec<Action>)
        ensures
            action_views(r@) == launch_actions(self@),
    {
        let mut r: Vec<Action> = Vec::new();
        r.push(Action::SetState(TunnelState::Connecting));
        r.push(Action::Launch(ssh_arguments(&self.preset, &self.host, self.ssh_port)));
        assert(action_views(r@) =~= launch_actions(self@));
        r
    }

    fn hear(&mut self, line: &str) -> (r: Vec<Action>)
        ensures
            final(self)@ == heard(old(self)@, line@),
            action_views(r@) == heard_actions(old(self)@, line@),
    {
        if contains(line, LIMIT_MARK) || contains(line, LIMIT_PHRASE) {
            self.limit_reached = true;
        }
        if contains(line, CLOSED_MARK) || contains(line, CLOSED_PHRASE) {
            self.dashboard_closed = true;
        }
        let mut r: Vec<Action> = Vec::new();
        match extract_url(line) {
            Some(url) => {
                self.is_connected = true;
                let body = join("Туннель запущен: ", &url);
                r.push(Action::SetState(TunnelState::Active(url)));
                r.push(Action::Notify(notification(&self.preset.name, &body)));
            },
            None => {},
        }
        assert(action_views(r@) =~= heard_actions(old(self)@, line@));
        r
    }

    fn complain(&mut self, line: &str)
        ensures
            final(self)@ == complained(old(self)@, line@),
    {
        let clean = trim(line);
        if !clean.as_str().is_empty() {
            self.last_error_msg = Some(clean);
        }
    }

    fn give_up_reason(&self) -> (r: Option<String>)
        ensures
            text::opt_text(r) == verdict(self@),
    {
        if self.limit_reached {
            Some(LIMIT_MESSAGE.to_string())
        } else if self.dashboard_closed {
            Some(CLOSED_MESSAGE.to_string())
        } else if self.attempts < MAX_ATTEMPTS {
            None
        } else {
            match &self.last_error_msg {
                Some(msg) => if contains(msg, NO_TERMINAL_PHRASE) {
                    Some(UNREACHABLE_MESSAGE.to_string())
                } else {
                    Some(msg.clone())
                },
                None => Some(LOST_MESSAGE.to_string()),
            }
        }
    }

    fn end_session(&mut self, actions: Vec<Action>) -> (r: Vec<Action>)
        ensures
            final(self)@ == over(old(self)@).0,
            action_views(r@) == action_views(actions@) + over(old(self)@).1,
    {
        let mut r = actions;
        r.push(Action::Kill);
        match self.give_up_reason() {
            Some(reason) => {
                self.phase = Phase::Finished;
                r.push(Action::SetState(TunnelState::Error(reason)));
            },
            None => {
                self.attempts += 1;
                self.phase = Phase::Pausing;
                let attempt = join("Попытка переподключения ", &to_decimal(self.attempts as u64)).concat(
                    "/5...",
                );
                r.push(Action::SetState(TunnelState::Connecting));
                r.push(
                    Action::Notify(notification(&self.preset.name, &join("Туннель упал. ", &attempt))),
                );
                r.push(Action::Pause(PAUSE_SECS));
            },
        }
        assert(action_views(r@) =~= action_views(actions@) + over(old(self)@).1);
        r
    }

    /// Takes in what happened, and says what is to be done.
    pub fn step(&mut self, event: Event) -> (r: Vec<Action>)
        ensures
            final(self)@ == next(old(self)@, event@).0,
            action_views(r@) == next(old(self)@, event@).1,
    {
        let mut r: Vec<Action> = Vec::new();
        match (self.phase, event) {
            (Phase::Launching, Event::Launched) => {
                self.phase = Phase::Running;
                self.last_error_msg = None;
                self.limit_reached = false;
                self.dashboard_closed = false;
                self.is_connected = false;
                r.push(Action::ArmTimeout(CONNECT_TIMEOUT_SECS));
            },
            (Phase::Launching, Event::LaunchFailed(why)) => {
                self.phase = Phase::Finished;
                r.push(Action::SetState(TunnelState::Error(join("Ошибка запуска SSH: ", &why))));
            },
            (Phase::Running, Event::StdoutLine(line)) => {
                r = self.hear(&line);
            },
            (Phase::Running, Event::StderrLine(line)) => {
                self.complain(&line);
            },
            (Phase::Running, Event::StdoutEnded) => {
                r = self.end_session(r);
            },
            (Phase::Running, Event::Exited) => {
                r = self.end_session(r);
            },
            (Phase::Running, Event::ConnectTimeout) => {
                if !self.is_connected {
                    self.last_error_msg = Some(TIMEOUT_MESSAGE.to_string());
                    r.push(Action::Kill);
                    r = self.end_session(r);
                }
            },
            (Phase::Running, Event::StopRequested) => {
                self.phase = Phase::Finished;
                r.push(Action::Kill);
                r.push(Action::SetState(TunnelState::Inactive));
            },
            (Phase::Pausing, Event::PauseElapsed) => {
                self.phase = Phase::Launching;
                r = self.launch();
            },
            (Phase::Pausing, Event::StopRequested) => {
                self.phase = Phase::Finished;
                r.push(Action::SetState(TunnelState::Inactive));
            },
            _ => {},
        }
        assert(action_views(r@) =~= next(old(self)@, event@).1);
        r
    }

    /// What the monitor waits for.
    pub fn phase(&self) -> (r: Phase)
        ensures
            r == self@.phase,
    {
        self.phase
    }

    /// Tells whether the time to open the tunnel still counts: the process runs, and has not
    /// reported an address.
    pub fn awaits_address(&self) -> (r: bool)
        ensures
            r == (self@.phase == Phase::Running && !self@.is_connected),
    {
        match self.phase {
            Phase::Running => !self.is_connected,
            _ => false,
        }
    }
}

} // verus!
