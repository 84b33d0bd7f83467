//! What holds of each process of a tunnel, from its launch to its end, as told by what happened.
use vstd::prelude::*;

use crate::life;
use crate::monitor::{self, Action, ActionView, Event, EventView, MonitorView, Phase};
use crate::notice::NotificationView;
use crate::number;
use crate::preset::PresetView;
use crate::ssh;
use crate::text;
use crate::tunnel::StateView;
use crate::url;

verus! {

/// The process printed a line with these words.
pub open spec fn printed(e: EventView, words: Seq<char>) -> bool {
    e matches EventView::StdoutLine(line) && text::occurs_in(line, words)
}

/// One of the events is that the process printed a line with these words.
pub open spec fn ever_printed(events: Seq<EventView>, words: Seq<char>) -> bool {
    exists|i: int| 0 <= i < events.len() && printed(#[trigger] events[i], words)
}

/// The server said that the time of the tunnel is over.
pub open spec fn said_limit(events: Seq<EventView>) -> bool {
    ever_printed(events, "[Limit]"@) || ever_printed(events, "lifetime limit reached"@)
}

/// The server said that the tunnel was closed from the dashboard.
pub open spec fn said_closed(events: Seq<EventView>) -> bool {
    ever_printed(events, "[Closed]"@) || ever_printed(events, "Tunnel closed from dashboard"@)
}

/// Nobody asked for an end.
pub open spec fn unstopped(events: Seq<EventView>) -> bool {
    forall|i: int| 0 <= i < events.len() ==> !((#[trigger] events[i]) is StopRequested)
}

/// The process is gone, or as good as gone.
pub open spec fn is_end(e: EventView) -> bool {
    e is Exited || e is StdoutEnded
}

/// Events that a running process survives: it does not end, nobody stops it, and its time to
/// open passes only when an address was printed before.
pub open spec fn survived(events: Seq<EventView>) -> bool {
    forall|i: int|
        0 <= i < events.len() ==> {
            let e = #[trigger] events[i];
            &&& !is_end(e)
            &&& !(e is StopRequested)
            &&& e is ConnectTimeout ==> ever_printed(events.take(i), "https://"@)
        }
}

proof fn lemma_ever_printed_step(events: Seq<EventView>, words: Seq<char>)
    requires
        events.len() > 0,
    ensures
        ever_printed(events, words) == (ever_printed(events.drop_last(), words) || printed(
            events.last(),
            words,
        )),
{
    let earlier = events.drop_last();
    if ever_printed(events, words) {
        let i = choose|i: int| 0 <= i < events.len() && printed(#[trigger] events[i], words);
        if i < earlier.len() {
            assert(printed(earlier[i], words));
        }
    }
    if ever_printed(earlier, words) {
        let i = choose|i: int| 0 <= i < earlier.len() && printed(#[trigger] earlier[i], words);
        assert(printed(events[i], words));
    }
    if printed(events.last(), words) {
        assert(printed(events[events.len() - 1], words));
    }
}

proof fn lemma_survived_earlier(events: Seq<EventView>)
    requires
        survived(events),
        events.len() > 0,
    ensures
        survived(events.drop_last()),
        events.last() is ConnectTimeout ==> ever_printed(events.drop_last(), "https://"@),
{
    let earlier = events.drop_last();
    assert forall|i: int| 0 <= i < earlier.len() implies {
        let e = #[trigger] earlier[i];
        &&& !is_end(e)
        &&& !(e is StopRequested)
        &&& e is ConnectTimeout ==> ever_printed(earlier.take(i), "https://"@)
    } by {
        assert(events[i] == earlier[i]);
        assert(events.take(i) =~= earlier.take(i));
    }
    assert(events[events.len() - 1] == events.last());
    assert(events.take(events.len() - 1) =~= earlier);
}

/// Happening one after the other.
proof fn lemma_run_add(m: MonitorView, a: Seq<EventView>, b: Seq<EventView>)
    ensures
        life::run(m, a + b).0 == life::run(life::run(m, a).0, b).0,
        life::run(m, a + b).1 == life::run(m, a).1 + life::run(life::run(m, a).0, b).1,
    decreases b.len(),
{
    if b.len() == 0 {
        assert(a + b =~= a);
        assert(life::run(m, a).1 + life::run(life::run(m, a).0, b).1 =~= life::run(m, a).1);
    } else {
        assert((a + b).drop_last() =~= a + b.drop_last());
        lemma_run_add(m, a, b.drop_last());
        assert(life::run(m, a + b).1 =~= life::run(m, a).1 + life::run(life::run(m, a).0, b).1);
    }
}

proof fn lemma_run_one(m: MonitorView, e: EventView)
    ensures
        life::run(m, seq![e]).0 == monitor::next(m, e).0,
        life::run(m, seq![e]).1 == monitor::next(m, e).1,
{
    reveal_with_fuel(life::run, 2);
    assert(seq![e].drop_last() =~= Seq::<EventView>::empty());
    assert(life::run(m, seq![e]).1 =~= monitor::next(m, e).1);
}

proof fn lemma_life_add(
    preset: PresetView,
    host: Seq<char>,
    ssh_port: u16,
    a: Seq<EventView>,
    b: Seq<EventView>,
)
    ensures
        life::life(preset, host, ssh_port, a + b).0 == life::run(life::life(preset, host, ssh_port, a).0, b).0,
        life::life(preset, host, ssh_port, a + b).1 == life::life(preset, host, ssh_port, a).1 + life::run(
            life::life(preset, host, ssh_port, a).0,
            b,
        ).1,
{
    let m = monitor::fresh(preset, host, ssh_port);
    lemma_run_add(m, a, b);
    assert(life::life(preset, host, ssh_port, a + b).1 =~= life::life(preset, host, ssh_port, a).1 + life::run(
        life::life(preset, host, ssh_port, a).0,
        b,
    ).1);
}

/// The last complaint that is not blank.
spec fn complaint(events: Seq<EventView>) -> Option<Seq<char>>
    decreases events.len(),
{
    if events.len() == 0 {
        None
    } else {
        match events.last() {
            EventView::StderrLine(line) => if text::trimmed(line).len() > 0 {
                Some(text::trimmed(line))
            } else {
                complaint(events.drop_last())
            },
            _ => complaint(events.drop_last()),
        }
    }
}

/// From `at` on, every complaint is blank.
pub open spec fn blank_from(events: Seq<EventView>, at: int) -> bool {
    forall|j: int|
        at <= j < events.len() ==> (#[trigger] events[j] matches EventView::StderrLine(line)
            ==> text::trimmed(line).len() == 0)
}

proof fn lemma_complaint_at(events: Seq<EventView>, i: int, line: Seq<char>)
    requires
        0 <= i < events.len(),
        events[i] == EventView::StderrLine(line),
        text::trimmed(line).len() > 0,
        blank_from(events, i + 1),
    ensures
        complaint(events) == Some(text::trimmed(line)),
    decreases events.len(),
{
    let earlier = events.drop_last();
    if i < events.len() - 1 {
        assert(events[events.len() - 1] == events.last());
        assert(earlier[i] == events[i]);
        assert forall|j: int| i + 1 <= j < earlier.len() implies (
        #[trigger] earlier[j] matches EventView::StderrLine(l) ==> text::trimmed(l).len() == 0) by {
            assert(earlier[j] == events[j]);
        }
        lemma_complaint_at(earlier, i, line);
    }
}

proof fn lemma_no_complaint(events: Seq<EventView>)
    requires
        blank_from(events, 0),
    ensures
        complaint(events) is None,
    decreases events.len(),
{
    if events.len() > 0 {
        let earlier = events.drop_last();
        assert(events[events.len() - 1] == events.last());
        assert forall|j: int| 0 <= j < earlier.len() implies (
        #[trigger] earlier[j] matches EventView::StderrLine(l) ==> text::trimmed(l).len() == 0) by {
            assert(earlier[j] == events[j]);
        }
        lemma_no_complaint(earlier);
    }
}

/// What a monitor knows of a process while it runs.
#[verifier::rlimit(40)]
proof fn lemma_session(m: MonitorView, s: Seq<EventView>)
    requires
        m.phase == Phase::Launching,
        survived(s),
    ensures
        ({
            let (r, actions) = life::run(m, seq![EventView::Launched] + s);
            &&& r.phase == Phase::Running
            &&& r.preset == m.preset
            &&& r.host == m.host
            &&& r.ssh_port == m.ssh_port
            &&& r.attempts == m.attempts
            &&& r.is_connected == ever_printed(s, "https://"@)
            &&& r.limit_reached == said_limit(s)
            &&& r.dashboard_closed == said_closed(s)
            &&& r.last_error_msg == complaint(s)
            &&& life::launches(actions) == 0
        }),
    decreases s.len(),
{
    let all = seq![EventView::Launched] + s;
    if s.len() == 0 {
        assert(all =~= seq![EventView::Launched]);
        lemma_run_one(m, EventView::Launched);
        reveal_with_fuel(life::launches, 3);
    } else {
        let earlier = s.drop_last();
        lemma_survived_earlier(s);
        lemma_session(m, earlier);
        assert(all.drop_last() =~= seq![EventView::Launched] + earlier);
        assert(all.last() == s.last());
        let (before, done) = life::run(m, seq![EventView::Launched] + earlier);
        let (after, actions) = monitor::next(before, s.last());
        life::lemma_launches_add(done, actions);
        assert(s[s.len() - 1] == s.last());
        lemma_ever_printed_step(s, "https://"@);
        lemma_ever_printed_step(s, "[Limit]"@);
        lemma_ever_printed_step(s, "lifetime limit reached"@);
        lemma_ever_printed_step(s, "[Closed]"@);
        lemma_ever_printed_step(s, "Tunnel closed from dashboard"@);
        assert(life::launches(actions) == 0) by {
            reveal_with_fuel(life::launches, 3);
        }
        if let EventView::StdoutLine(line) = s.last() {
            lemma_has_address(line);
        }
    }
}

proof fn lemma_has_address(line: Seq<char>)
    ensures
        url::url_in(line) is Some <==> text::occurs_in(line, "https://"@),
{
    reveal_strlit("https://");
    url::lemma_address_needs_scheme(line);
    if text::occurs_in(line, "https://"@) {
        let i = choose|i: int| text::occurs_at(line, "https://"@, i);
        assert(line.subrange(i, i + 8) == "https://"@);
    }
    if url::url_in(line) is Some {
        let j = choose|j: int|
            0 <= j <= line.len() - 8 && #[trigger] line.subrange(j, j + 8) == "https://"@;
        assert(text::occurs_at(line, "https://"@, j));
    }
}

/// A tunnel starts out as connecting, with one launch, whatever is tunnelled to where.
pub proof fn lemma_first_actions(preset: PresetView, host: Seq<char>, ssh_port: u16)
    ensures
        life::life(preset, host, ssh_port, seq![]).0.phase == Phase::Launching,
        life::life(preset, host, ssh_port, seq![]).1 == seq![
            ActionView::SetState(StateView::Connecting),
            ActionView::Launch(ssh::arguments(preset, host, ssh_port)),
        ],
{
    assert(life::life(preset, host, ssh_port, seq![]).1 =~= seq![
        ActionView::SetState(StateView::Connecting),
        ActionView::Launch(ssh::arguments(preset, host, ssh_port)),
    ]);
}

/// Every process that was launched has eight seconds to open the tunnel, the first as well as each
/// that replaces one; a process that could not be launched ends the tunnel with the reason.
pub proof fn lemma_launch_is_answered(m: MonitorView, why: Seq<char>)
    requires
        m.phase == Phase::Launching,
    ensures
        monitor::next(m, EventView::Launched).0.phase == Phase::Running,
        monitor::next(m, EventView::Launched).1 == seq![ActionView::ArmTimeout(8)],
        monitor::next(m, EventView::LaunchFailed(why)).0.phase == Phase::Finished,
        monitor::next(m, EventView::LaunchFailed(why)).1 == seq![
            ActionView::SetState(StateView::Error("Ошибка запуска SSH: "@ + why)),
        ],
{
}

/// How many seconds-to-open are set.
pub open spec fn timeouts(actions: Seq<ActionView>) -> nat
    decreases actions.len(),
{
    if actions.len() == 0 {
        0
    } else {
        timeouts(actions.drop_last()) + if actions.last() == ActionView::ArmTimeout(8) {
            1nat
        } else {
            0
        }
    }
}

/// How many of the events report a launch that was waited for.
pub open spec fn launched(
    preset: PresetView,
    host: Seq<char>,
    ssh_port: u16,
    events: Seq<EventView>,
) -> nat
    decreases events.len(),
{
    if events.len() == 0 {
        0
    } else {
        let earlier = events.drop_last();
        launched(preset, host, ssh_port, earlier) + if events.last() is Launched && life::life(
            preset,
            host,
            ssh_port,
            earlier,
        ).0.phase == Phase::Launching {
            1nat
        } else {
            0
        }
    }
}

proof fn lemma_timeouts_add(a: Seq<ActionView>, b: Seq<ActionView>)
    ensures
        timeouts(a + b) == timeouts(a) + timeouts(b),
    decreases b.len(),
{
    if b.len() == 0 {
        assert(a + b =~= a);
    } else {
        assert((a + b).drop_last() =~= a + b.drop_last());
        lemma_timeouts_add(a, b.drop_last());
    }
}

#[verifier::rlimit(40)]
proof fn lemma_timeouts_of_next(m: MonitorView, e: EventView)
    ensures
        timeouts(monitor::next(m, e).1) == if m.phase == Phase::Launching && e is Launched {
            1nat
        } else {
            0
        },
{
    reveal_with_fuel(timeouts, 6);
}

/// Each launch is directly followed by its time to open or by an error, a time to open follows
/// nothing but a launch and is eight seconds, and `waiting` tells whether a launch comes last.
spec fn timed(actions: Seq<ActionView>, waiting: bool) -> bool {
    &&& actions.len() > 0
    &&& waiting <==> actions.last() is Launch
    &&& forall|i: int|
        0 <= i < actions.len() && (#[trigger] actions[i]) is ArmTimeout ==> actions[i]
            == ActionView::ArmTimeout(8) && 0 < i && actions[i - 1] is Launch
    &&& forall|i: int|
        0 <= i < actions.len() - 1 && (#[trigger] actions[i]) is Launch ==> {
            ||| actions[i + 1] == ActionView::ArmTimeout(8)
            ||| actions[i + 1] matches ActionView::SetState(state) && state is Error
        }
}

/// What can be done next so that all stays timed.
spec fn timed_step(actions: Seq<ActionView>, waiting: bool, waiting_after: bool) -> bool {
    &&& actions.len() == 0 ==> waiting_after == waiting
    &&& actions.len() > 0 ==> (waiting_after <==> actions.last() is Launch)
    &&& actions.len() > 0 && waiting ==> {
        ||| actions[0] == ActionView::ArmTimeout(8)
        ||| actions[0] matches ActionView::SetState(state) && state is Error
    }
    &&& forall|i: int|
        0 <= i < actions.len() && (#[trigger] actions[i]) is ArmTimeout ==> i == 0 && waiting
            && actions[i] == ActionView::ArmTimeout(8)
    &&& forall|i: int|
        0 <= i < actions.len() && (#[trigger] actions[i]) is Launch ==> i == actions.len() - 1
}

#[verifier::rlimit(40)]
proof fn lemma_timed_step(m: MonitorView, e: EventView)
    ensures
        timed_step(
            monitor::next(m, e).1,
            m.phase == Phase::Launching,
            monitor::next(m, e).0.phase == Phase::Launching,
        ),
{
}

proof fn lemma_timed_add(
    done: Seq<ActionView>,
    actions: Seq<ActionView>,
    waiting: bool,
    waiting_after: bool,
)
    requires
        timed(done, waiting),
        timed_step(actions, waiting, waiting_after),
    ensures
        timed(done + actions, waiting_after),
{
    let all = done + actions;
    let n = done.len() as int;
    if actions.len() == 0 {
        assert(all =~= done);
    } else {
        assert(all.last() == actions.last());
        assert forall|i: int| 0 <= i < all.len() && (#[trigger] all[i]) is ArmTimeout implies all[i]
            == ActionView::ArmTimeout(8) && 0 < i && all[i - 1] is Launch by {
            if i < n {
                assert(done[i] is ArmTimeout);
            } else {
                assert(actions[i - n] is ArmTimeout);
                assert(done[n - 1] == done.last());
            }
        }
        assert forall|i: int| 0 <= i < all.len() - 1 && (#[trigger] all[i]) is Launch implies {
            ||| all[i + 1] == ActionView::ArmTimeout(8)
            ||| all[i + 1] matches ActionView::SetState(state) && state is Error
        } by {
            if i < n - 1 {
                assert(done[i] is Launch);
                assert(all[i + 1] == done[i + 1]);
            } else if i == n - 1 {
                assert(done.last() is Launch);
                assert(all[i + 1] == actions[0]);
            } else {
                assert(actions[i - n] is Launch);
            }
        }
    }
}

proof fn lemma_timed_life(
    preset: PresetView,
    host: Seq<char>,
    ssh_port: u16,
    events: Seq<EventView>,
)
    ensures
        ({
            let (m, actions) = life::life(preset, host, ssh_port, events);
            &&& timeouts(actions) == launched(preset, host, ssh_port, events)
            &&& timed(actions, m.phase == Phase::Launching)
        }),
    decreases events.len(),
{
    if events.len() == 0 {
        lemma_first_actions(preset, host, ssh_port);
        assert(events =~= seq![]);
        reveal_with_fuel(timeouts, 3);
    } else {
        let earlier = events.drop_last();
        let e = events.last();
        lemma_timed_life(preset, host, ssh_port, earlier);
        let (before, done) = life::life(preset, host, ssh_port, earlier);
        let (after, actions) = monitor::next(before, e);
        lemma_timeouts_add(done, actions);
        lemma_timeouts_of_next(before, e);
        lemma_timed_step(before, e);
        lemma_timed_add(
            done,
            actions,
            before.phase == Phase::Launching,
            after.phase == Phase::Launching,
        );
        assert(life::life(preset, host, ssh_port, events).1 =~= done + actions);
    }
}

/// In every life, as many times of eight seconds are set as processes were launched, each directly
/// after its launch and before anything else is done, and no other time to open is ever set. A
/// launch that is not followed by its time to open is followed by an error or is the last that was
/// done.
pub proof fn lemma_every_process_has_its_time(
    preset: PresetView,
    host: Seq<char>,
    ssh_port: u16,
    events: Seq<EventView>,
)
    ensures
        ({
            let (m, actions) = life::life(preset, host, ssh_port, events);
            &&& timeouts(actions) == launched(preset, host, ssh_port, events)
            &&& forall|i: int|
                0 <= i < actions.len() && (#[trigger] actions[i]) is ArmTimeout ==> actions[i]
                    == ActionView::ArmTimeout(8) && 0 < i && actions[i - 1] is Launch
            &&& forall|i: int|
                0 <= i < actions.len() - 1 && (#[trigger] actions[i]) is Launch ==> {
                    ||| actions[i + 1] == ActionView::ArmTimeout(8)
                    ||| actions[i + 1] matches ActionView::SetState(state) && state is Error
                }
        }),
{
    lemma_timed_life(preset, host, ssh_port, events);
}

/// An address in a line of output is shown and announced, every time, whatever was printed
/// before; a line without one does nothing. Either way the process runs on.
pub proof fn lemma_address_is_announced(m: MonitorView, line: Seq<char>)
    requires
        m.phase == Phase::Running,
    ensures
        monitor::next(m, EventView::StdoutLine(line)).0.phase == Phase::Running,
        url::url_in(line) matches Some(address) ==> monitor::next(
            m,
            EventView::StdoutLine(line),
        ).1 == seq![
            ActionView::SetState(StateView::Active(address)),
            ActionView::Notify(
                NotificationView {
                    title: "Tunnelhunt: "@ + m.preset.name,
                    body: "Туннель запущен: "@ + address,
                },
            ),
        ],
        url::url_in(line) is None ==> monitor::next(m, EventView::StdoutLine(line)).1.len() == 0,
{
}

/// What a process complains of does not end it and is not shown while it runs.
pub proof fn lemma_complaints_are_quiet(m: MonitorView, line: Seq<char>)
    requires
        m.phase == Phase::Running,
    ensures
        monitor::next(m, EventView::StderrLine(line)).0.phase == Phase::Running,
        monitor::next(m, EventView::StderrLine(line)).1.len() == 0,
        monitor::next(m, EventView::StderrEnded).0 == m,
        monitor::next(m, EventView::StderrEnded).1.len() == 0,
{
}

/// The time to open counts just as long as the present process has printed no address.
pub proof fn lemma_awaited_address(m: MonitorView, s: Seq<EventView>)
    requires
        m.phase == Phase::Launching,
        survived(s),
    ensures
        life::run(m, seq![EventView::Launched] + s).0.phase == Phase::Running,
        life::run(m, seq![EventView::Launched] + s).0.is_connected <==> ever_printed(s, "https://"@),
{
    lemma_session(m, s);
}

/// After a pause the tunnel is shown as connecting and launched again, as it was the first time.
pub proof fn lemma_launched_again(
    preset: PresetView,
    host: Seq<char>,
    ssh_port: u16,
    events: Seq<EventView>,
)
    requires
        life::life(preset, host, ssh_port, events).0.phase == Phase::Pausing,
    ensures
        ({
            let (m, actions) = monitor::next(
                life::life(preset, host, ssh_port, events).0,
                EventView::PauseElapsed,
            );
            &&& m.phase == Phase::Launching
            &&& actions == life::life(preset, host, ssh_port, seq![]).1
        }),
{
    life::lemma_same_launches(preset, host, ssh_port, events);
    lemma_first_actions(preset, host, ssh_port);
    assert(monitor::next(
        life::life(preset, host, ssh_port, events).0,
        EventView::PauseElapsed,
    ).1 =~= life::life(preset, host, ssh_port, seq![]).1);
}

/// Events that are not waited for change nothing: while a launch is under way only its outcome
/// counts, during a pause only its end and a request to stop, and while a process runs neither a
/// launch nor a pause.
pub proof fn lemma_nothing_else_counts(m: MonitorView, e: EventView)
    requires
        match m.phase {
            Phase::Launching => !(e is Launched) && !(e is LaunchFailed),
            Phase::Running => e is Launched || e is LaunchFailed || e is PauseElapsed,
            Phase::Pausing => !(e is PauseElapsed) && !(e is StopRequested),
            Phase::Finished => true,
        },
    ensures
        monitor::next(m, e).0 == m,
        monitor::next(m, e).1.len() == 0,
{
}

/// A request to stop kills the process, if one runs, shows the tunnel as inactive, and ends it.
pub proof fn lemma_stopped_at_once(m: MonitorView)
    requires
        m.phase == Phase::Running || m.phase == Phase::Pausing,
    ensures
        monitor::next(m, EventView::StopRequested).0.phase == Phase::Finished,
        m.phase == Phase::Running ==> monitor::next(m, EventView::StopRequested).1 == seq![
            ActionView::Kill,
            ActionView::SetState(StateView::Inactive),
        ],
        m.phase == Phase::Pausing ==> monitor::next(m, EventView::StopRequested).1 == seq![
            ActionView::SetState(StateView::Inactive),
        ],
{
}

/// What is done for the `attempt`th time that a tunnel is set up again.
pub open spec fn retry(preset: PresetView, attempt: nat) -> Seq<ActionView> {
    seq![
        ActionView::Kill,
        ActionView::SetState(StateView::Connecting),
        ActionView::Notify(
            NotificationView {
                title: "Tunnelhunt: "@ + preset.name,
                body: "Туннель упал. Попытка переподключения "@ + number::decimal(attempt)
                    + "/5..."@,
            },
        ),
        ActionView::Pause(3),
    ]
}

proof fn lemma_retry_body(attempt: nat)
    ensures
        monitor::retry_body(attempt) == "Туннель упал. Попытка переподключения "@
            + number::decimal(attempt) + "/5..."@,
{
    reveal_strlit("Туннель упал. ");
    reveal_strlit("Попытка переподключения ");
    reveal_strlit("Туннель упал. Попытка переподключения ");
    assert("Туннель упал. "@ + "Попытка переподключения "@
        =~= "Туннель упал. Попытка переподключения "@);
    assert(monitor::retry_body(attempt) =~= "Туннель упал. Попытка переподключения "@
        + number::decimal(attempt) + "/5..."@);
}

/// The life of a tunnel up to and with a process that runs: launched after `before`, and then `s`.
pub open spec fn up_to(before: Seq<EventView>, s: Seq<EventView>) -> Seq<EventView> {
    before + (seq![EventView::Launched] + s)
}

/// What is known of a tunnel whose process runs, in a life.
#[verifier::rlimit(40)]
proof fn lemma_running_life(
    preset: PresetView,
    host: Seq<char>,
    ssh_port: u16,
    before: Seq<EventView>,
    s: Seq<EventView>,
)
    requires
        life::life(preset, host, ssh_port, before).0.phase == Phase::Launching,
        survived(s),
    ensures
        ({
            let m = life::life(preset, host, ssh_port, up_to(before, s)).0;
            &&& m.phase == Phase::Running
            &&& m.preset == preset
            &&& m.attempts + 1 == life::launches(life::life(preset, host, ssh_port, before).1)
            &&& m.is_connected == ever_printed(s, "https://"@)
            &&& m.limit_reached == said_limit(s)
            &&& m.dashboard_closed == said_closed(s)
            &&& m.last_error_msg == complaint(s)
        }),
{
    lemma_life_add(preset, host, ssh_port, before, seq![EventView::Launched] + s);
    lemma_session(life::life(preset, host, ssh_port, before).0, s);
    life::lemma_bounded_launches(preset, host, ssh_port, before);
    life::lemma_same_launches(preset, host, ssh_port, before);
}

/// A tunnel that breaks down after at most five launches, without a word from the server that it
/// is over, is set up again after three seconds, and the user is told for the how manyth time.
#[verifier::rlimit(40)]
pub proof fn lemma_set_up_again(
    preset: PresetView,
    host: Seq<char>,
    ssh_port: u16,
    before: Seq<EventView>,
    s: Seq<EventView>,
    e: EventView,
)
    requires
        life::life(preset, host, ssh_port, before).0.phase == Phase::Launching,
        survived(s),
        !said_limit(s),
        !said_closed(s),
        life::launches(life::life(preset, host, ssh_port, before).1) <= 5,
        is_end(e) || e is ConnectTimeout && !ever_printed(s, "https://"@),
    ensures
        ({
            let count = life::launches(life::life(preset, host, ssh_port, before).1);
            let (m, actions) = monitor::next(
                life::life(preset, host, ssh_port, up_to(before, s)).0,
                e,
            );
            &&& m.phase == Phase::Pausing
            &&& is_end(e) ==> actions == retry(preset, count)
            &&& e is ConnectTimeout ==> actions == seq![ActionView::Kill] + retry(preset, count)
        }),
{
    lemma_running_life(preset, host, ssh_port, before, s);
    let count = life::launches(life::life(preset, host, ssh_port, before).1);
    lemma_retry_body(count);
    let (m, actions) = monitor::next(life::life(preset, host, ssh_port, up_to(before, s)).0, e);
    if is_end(e) {
        assert(actions =~= retry(preset, count));
    } else {
        assert(actions =~= seq![ActionView::Kill] + retry(preset, count));
    }
}

/// What is done when a tunnel is given up.
pub open spec fn farewell(reason: Seq<char>) -> Seq<ActionView> {
    seq![ActionView::Kill, ActionView::SetState(StateView::Error(reason))]
}

/// A tunnel that breaks down after its sixth launch is given up, and what is shown is the last
/// complaint of that process which is not blank, without the white space around it; where `ssh`
/// complains of its terminal, the user is told to look at the port and the server instead.
pub proof fn lemma_given_up_with_the_last_complaint(
    preset: PresetView,
    host: Seq<char>,
    ssh_port: u16,
    before: Seq<EventView>,
    s: Seq<EventView>,
    e: EventView,
    i: int,
    line: Seq<char>,
)
    requires
        life::life(preset, host, ssh_port, before).0.phase == Phase::Launching,
        survived(s),
        !said_limit(s),
        !said_closed(s),
        life::launches(life::life(preset, host, ssh_port, before).1) == 6,
        is_end(e),
        0 <= i < s.len(),
        s[i] == EventView::StderrLine(line),
        text::trimmed(line).len() > 0,
        blank_from(s, i + 1),
    ensures
        ({
            let (m, actions) = monitor::next(
                life::life(preset, host, ssh_port, up_to(before, s)).0,
                e,
            );
            &&& m.phase == Phase::Finished
            &&& text::occurs_in(text::trimmed(line), "Pseudo-terminal will not be allocated"@)
                ==> actions == farewell("Ошибка подключения (проверьте порт SSH/сервер)"@)
            &&& !text::occurs_in(text::trimmed(line), "Pseudo-terminal will not be allocated"@)
                ==> actions == farewell(text::trimmed(line))
        }),
{
    lemma_running_life(preset, host, ssh_port, before, s);
    lemma_complaint_at(s, i, line);
}

/// A tunnel that breaks down after its sixth launch without a complaint was cut off.
pub proof fn lemma_given_up_without_complaint(
    preset: PresetView,
    host: Seq<char>,
    ssh_port: u16,
    before: Seq<EventView>,
    s: Seq<EventView>,
    e: EventView,
)
    requires
        life::life(preset, host, ssh_port, before).0.phase == Phase::Launching,
        survived(s),
        !said_limit(s),
        !said_closed(s),
        life::launches(life::life(preset, host, ssh_port, before).1) == 6,
        is_end(e),
        blank_from(s, 0),
    ensures
        ({
            let (m, actions) = monitor::next(
                life::life(preset, host, ssh_port, up_to(before, s)).0,
                e,
            );
            &&& m.phase == Phase::Finished
            &&& actions == farewell("Соединение с сервером разорвано"@)
        }),
{
    lemma_running_life(preset, host, ssh_port, before, s);
    lemma_no_complaint(s);
}

/// A tunnel that takes too long to open after its sixth launch is given up for just that, whatever
/// the process complained of; it is killed once for the time and once for the end.
pub proof fn lemma_given_up_for_time(
    preset: PresetView,
    host: Seq<char>,
    ssh_port: u16,
    before: Seq<EventView>,
    s: Seq<EventView>,
)
    requires
        life::life(preset, host, ssh_port, before).0.phase == Phase::Launching,
        survived(s),
        !said_limit(s),
        !said_closed(s),
        !ever_printed(s, "https://"@),
        life::launches(life::life(preset, host, ssh_port, before).1) == 6,
    ensures
        ({
            let (m, actions) = monitor::next(
                life::life(preset, host, ssh_port, up_to(before, s)).0,
                EventView::ConnectTimeout,
            );
            &&& m.phase == Phase::Finished
            &&& actions == seq![ActionView::Kill] + farewell("Таймаут подключения (8с)"@)
        }),
{
    lemma_running_life(preset, host, ssh_port, before, s);
    let m = life::life(preset, host, ssh_port, up_to(before, s)).0;
    reveal_strlit("Таймаут подключения (8с)");
    reveal_strlit("Pseudo-terminal will not be allocated");
    assert("Таймаут подключения (8с)"@.len() < "Pseudo-terminal will not be allocated"@.len());
    assert(!text::occurs_in(
        "Таймаут подключения (8с)"@,
        "Pseudo-terminal will not be allocated"@,
    ));
    assert(monitor::next(m, EventView::ConnectTimeout).1 =~= seq![ActionView::Kill] + farewell(
        "Таймаут подключения (8с)"@,
    ));
}

/// Once the server said in the output of a process that the tunnel is over, the end of that
/// process, or of its time to open, ends the tunnel at once, after however many launches: its time
/// was over, or else it was closed.
pub proof fn lemma_server_ends_the_tunnel_at_once(
    preset: PresetView,
    host: Seq<char>,
    ssh_port: u16,
    before: Seq<EventView>,
    s: Seq<EventView>,
    e: EventView,
)
    requires
        life::life(preset, host, ssh_port, before).0.phase == Phase::Launching,
        survived(s),
        said_limit(s) || said_closed(s),
        is_end(e) || e is ConnectTimeout && !ever_printed(s, "https://"@),
    ensures
        ({
            let reason = if said_limit(s) {
                "Отключено по таймауту для бесплатных тарифов"@
            } else {
                "Туннель отключен через дашборд"@
            };
            let (m, actions) = monitor::next(
                life::life(preset, host, ssh_port, up_to(before, s)).0,
                e,
            );
            &&& m.phase == Phase::Finished
            &&& is_end(e) ==> actions == farewell(reason)
            &&& e is ConnectTimeout ==> actions == seq![ActionView::Kill] + farewell(reason)
        }),
{
    lemma_running_life(preset, host, ssh_port, before, s);
}

/// A tunnel that is open is not given up, and nothing is done, when the time to open passes.
pub proof fn lemma_open_tunnel_has_time(
    preset: PresetView,
    host: Seq<char>,
    ssh_port: u16,
    before: Seq<EventView>,
    s: Seq<EventView>,
)
    requires
        life::life(preset, host, ssh_port, before).0.phase == Phase::Launching,
        survived(s),
        ever_printed(s, "https://"@),
    ensures
        ({
            let m = life::life(preset, host, ssh_port, up_to(before, s)).0;
            &&& monitor::next(m, EventView::ConnectTimeout).0 == m
            &&& monitor::next(m, EventView::ConnectTimeout).1.len() == 0
        }),
{
    lemma_running_life(preset, host, ssh_port, before, s);
}

/// The error that the user is shown when the server ends a tunnel.
spec fn last_word(limit_reached: bool) -> StateView {
    StateView::Error(
        if limit_reached {
            "Отключено по таймауту для бесплатных тарифов"@
        } else {
            "Туннель отключен через дашборд"@
        },
    )
}

#[verifier::rlimit(40)]
proof fn lemma_doomed_step(m: MonitorView, e: EventView)
    requires
        m.phase == Phase::Running,
        m.limit_reached || m.dashboard_closed,
        !(e is StopRequested),
    ensures
        ({
            let (r, actions) = monitor::next(m, e);
            &&& life::launches(actions) == 0
            &&& m.limit_reached ==> r.limit_reached
            &&& m.dashboard_closed ==> r.dashboard_closed
            &&& r.limit_reached ==> m.limit_reached || printed(e, "[Limit]"@) || printed(
                e,
                "lifetime limit reached"@,
            )
            &&& r.phase == Phase::Running || r.phase == Phase::Finished && life::shown(actions)
                == Some(last_word(r.limit_reached))
            &&& is_end(e) ==> r.phase == Phase::Finished
        }),
{
    reveal_with_fuel(life::launches, 6);
    reveal_with_fuel(life::shown, 6);
}

/// What becomes of a process after the server said that it is over.
proof fn lemma_doomed(m: MonitorView, rest: Seq<EventView>)
    requires
        m.phase == Phase::Running,
        m.limit_reached || m.dashboard_closed,
        unstopped(rest),
    ensures
        ({
            let (r, actions) = life::run(m, rest);
            &&& life::launches(actions) == 0
            &&& m.limit_reached ==> r.limit_reached
            &&& m.dashboard_closed ==> r.dashboard_closed
            &&& r.limit_reached ==> m.limit_reached || said_limit(rest)
            &&& r.phase == Phase::Running || r.phase == Phase::Finished && life::shown(actions)
                == Some(last_word(r.limit_reached))
        }),
    decreases rest.len(),
{
    if rest.len() > 0 {
        let earlier = rest.drop_last();
        assert forall|i: int| 0 <= i < earlier.len() implies !((
        #[trigger] earlier[i]) is StopRequested) by {
            assert(earlier[i] == rest[i]);
        }
        lemma_doomed(m, earlier);
        let (before, done) = life::run(m, earlier);
        let e = rest.last();
        assert(rest[rest.len() - 1] == e);
        let actions = monitor::next(before, e).1;
        life::lemma_launches_add(done, actions);
        life::lemma_shown_add(done, actions);
        lemma_ever_printed_step(rest, "[Limit]"@);
        lemma_ever_printed_step(rest, "lifetime limit reached"@);
        if before.phase == Phase::Running {
            lemma_doomed_step(before, e);
        }
    }
}

proof fn lemma_doomed_to_the_end(m: MonitorView, rest: Seq<EventView>, end: EventView)
    requires
        m.phase == Phase::Running,
        m.limit_reached || m.dashboard_closed,
        unstopped(rest),
        is_end(end),
    ensures
        ({
            let (r, actions) = life::run(m, rest + seq![end]);
            &&& life::launches(actions) == 0
            &&& r.phase == Phase::Finished
            &&& m.limit_reached ==> r.limit_reached
            &&& r.limit_reached ==> m.limit_reached || said_limit(rest)
            &&& life::shown(actions) == Some(last_word(r.limit_reached))
        }),
{
    lemma_doomed(m, rest);
    lemma_run_add(m, rest, seq![end]);
    let (before, done) = life::run(m, rest);
    lemma_run_one(before, end);
    let actions = monitor::next(before, end).1;
    life::lemma_launches_add(done, actions);
    life::lemma_shown_add(done, actions);
    if before.phase == Phase::Running {
        lemma_doomed_step(before, end);
    }
}

/// What happens from a line of output on to the end of the process.
pub open spec fn from_line_to_end(line: Seq<char>, rest: Seq<EventView>, end: EventView) -> Seq<
    EventView,
> {
    seq![EventView::StdoutLine(line)] + (rest + seq![end])
}

/// When the server says that the time of a running tunnel is over, open or not, then whatever
/// follows short of a request to stop, the end of the process is the end of the tunnel: it is
/// finished, it is not launched again, and the user is shown that its time was over.
pub proof fn lemma_limit_ends_the_tunnel(
    m: MonitorView,
    line: Seq<char>,
    rest: Seq<EventView>,
    end: EventView,
)
    requires
        m.phase == Phase::Running,
        text::occurs_in(line, "[Limit]"@) || text::occurs_in(line, "lifetime limit reached"@),
        unstopped(rest),
        is_end(end),
    ensures
        ({
            let (r, actions) = life::run(m, from_line_to_end(line, rest, end));
            &&& r.phase == Phase::Finished
            &&& life::launches(actions) == 0
            &&& life::shown(actions) == Some(
                StateView::Error("Отключено по таймауту для бесплатных тарифов"@),
            )
        }),
{
    lemma_line_then_end(m, line, rest, end);
}

proof fn lemma_line_then_end(
    m: MonitorView,
    line: Seq<char>,
    rest: Seq<EventView>,
    end: EventView,
)
    requires
        m.phase == Phase::Running,
        ({
            let n = monitor::next(m, EventView::StdoutLine(line)).0;
            n.limit_reached || n.dashboard_closed
        }),
        unstopped(rest),
        is_end(end),
    ensures
        ({
            let n = monitor::next(m, EventView::StdoutLine(line)).0;
            let (r, actions) = life::run(m, from_line_to_end(line, rest, end));
            &&& r.phase == Phase::Finished
            &&& life::launches(actions) == 0
            &&& n.limit_reached ==> r.limit_reached
            &&& r.limit_reached ==> n.limit_reached || said_limit(rest)
            &&& life::shown(actions) == Some(last_word(r.limit_reached))
        }),
{
    let first = seq![EventView::StdoutLine(line)];
    lemma_run_add(m, first, rest + seq![end]);
    lemma_run_one(m, EventView::StdoutLine(line));
    let (n, said) = monitor::next(m, EventView::StdoutLine(line));
    lemma_doomed_to_the_end(n, rest, end);
    let later = life::run(n, rest + seq![end]).1;
    life::lemma_launches_add(said, later);
    life::lemma_shown_add(said, later);
    assert(life::launches(said) == 0) by {
        reveal_with_fuel(life::launches, 3);
    }
}

/// When the server says that a running tunnel was closed from the dashboard, open or not, then
/// whatever follows short of a request to stop, the end of the process is the end of the tunnel:
/// it is finished, it is not launched again, and the user is shown that it was closed, or that its
/// time was over where the server said that too.
pub proof fn lemma_closing_ends_the_tunnel(
    m: MonitorView,
    line: Seq<char>,
    rest: Seq<EventView>,
    end: EventView,
)
    requires
        m.phase == Phase::Running,
        text::occurs_in(line, "[Closed]"@) || text::occurs_in(
            line,
            "Tunnel closed from dashboard"@,
        ),
        unstopped(rest),
        is_end(end),
    ensures
        ({
            let (r, actions) = life::run(m, from_line_to_end(line, rest, end));
            &&& r.phase == Phase::Finished
            &&& life::launches(actions) == 0
            &&& life::shown(actions) == Some(StateView::Error("Туннель отключен через дашборд"@))
                || life::shown(actions) == Some(
                StateView::Error("Отключено по таймауту для бесплатных тарифов"@),
            )
        }),
{
    lemma_line_then_end(m, line, rest, end);
}

/// Where the server says that a tunnel was closed from the dashboard, and the process never said
/// that its time was over, the user is shown that it was closed.
pub proof fn lemma_closing_is_shown(
    preset: PresetView,
    host: Seq<char>,
    ssh_port: u16,
    before: Seq<EventView>,
    s: Seq<EventView>,
    line: Seq<char>,
    rest: Seq<EventView>,
    end: EventView,
)
    requires
        life::life(preset, host, ssh_port, before).0.phase == Phase::Launching,
        survived(s),
        !said_limit(s),
        text::occurs_in(line, "[Closed]"@) || text::occurs_in(
            line,
            "Tunnel closed from dashboard"@,
        ),
        !text::occurs_in(line, "[Limit]"@),
        !text::occurs_in(line, "lifetime limit reached"@),
        unstopped(rest),
        !said_limit(rest),
        is_end(end),
    ensures
        ({
            let (r, actions) = life::life(
                preset,
                host,
                ssh_port,
                up_to(before, s) + from_line_to_end(line, rest, end),
            );
            &&& r.phase == Phase::Finished
            &&& life::launches(actions) == life::launches(life::life(preset, host, ssh_port, before).1)
            &&& life::shown(actions) == Some(StateView::Error("Туннель отключен через дашборд"@))
        }),
{
    let tail = from_line_to_end(line, rest, end);
    lemma_running_life(preset, host, ssh_port, before, s);
    lemma_life_add(preset, host, ssh_port, up_to(before, s), tail);
    lemma_life_add(preset, host, ssh_port, before, seq![EventView::Launched] + s);
    lemma_session(life::life(preset, host, ssh_port, before).0, s);
    let (m, done) = life::life(preset, host, ssh_port, up_to(before, s));
    lemma_line_then_end(m, line, rest, end);
    let later = life::run(m, tail).1;
    life::lemma_launches_add(done, later);
    life::lemma_shown_add(done, later);
    life::lemma_launches_add(
        life::life(preset, host, ssh_port, before).1,
        life::run(life::life(preset, host, ssh_port, before).0, seq![EventView::Launched] + s).1,
    );
}

proof fn lemma_said_before(
    preset: PresetView,
    host: Seq<char>,
    ssh_port: u16,
    events: Seq<EventView>,
)
    ensures
        life::life(preset, host, ssh_port, events).0.limit_reached ==> said_limit(events),
        life::life(preset, host, ssh_port, events).0.dashboard_closed ==> said_closed(events),
    decreases events.len(),
{
    if events.len() > 0 {
        lemma_said_before(preset, host, ssh_port, events.drop_last());
        lemma_ever_printed_step(events, "[Limit]"@);
        lemma_ever_printed_step(events, "lifetime limit reached"@);
        lemma_ever_printed_step(events, "[Closed]"@);
        lemma_ever_printed_step(events, "Tunnel closed from dashboard"@);
    }
}

#[verifier::rlimit(40)]
proof fn lemma_why_finished(m: MonitorView, e: EventView)
    requires
        m.phase != Phase::Finished,
        m.attempts <= 5,
        monitor::next(m, e).0.phase == Phase::Finished,
    ensures
        life::launches(monitor::next(m, e).1) == 0,
        ({
            ||| e is StopRequested
            ||| e is LaunchFailed
            ||| m.limit_reached
            ||| m.dashboard_closed
            ||| m.phase == Phase::Running && m.attempts == 5
        }),
{
    reveal_with_fuel(life::launches, 6);
}

/// The events hold one of the reasons, other than wear, for which a tunnel ends.
pub open spec fn reason_given(events: Seq<EventView>) -> bool {
    ||| !unstopped(events)
    ||| exists|i: int| 0 <= i < events.len() && (#[trigger] events[i]) is LaunchFailed
    ||| said_limit(events)
    ||| said_closed(events)
}

proof fn lemma_reason_stays(events: Seq<EventView>)
    requires
        events.len() > 0,
        reason_given(events.drop_last()),
    ensures
        reason_given(events),
{
    let earlier = events.drop_last();
    lemma_ever_printed_step(events, "[Limit]"@);
    lemma_ever_printed_step(events, "lifetime limit reached"@);
    lemma_ever_printed_step(events, "[Closed]"@);
    lemma_ever_printed_step(events, "Tunnel closed from dashboard"@);
    if !unstopped(earlier) {
        let i = choose|i: int| 0 <= i < earlier.len() && (#[trigger] earlier[i]) is StopRequested;
        assert(events[i] == earlier[i]);
    }
    if exists|i: int| 0 <= i < earlier.len() && (#[trigger] earlier[i]) is LaunchFailed {
        let i = choose|i: int| 0 <= i < earlier.len() && (#[trigger] earlier[i]) is LaunchFailed;
        assert(events[i] == earlier[i]);
    }
}

/// A tunnel ends for one of these reasons only: it was stopped, its process could not be launched,
/// the server printed that its time was over or that it was closed, or it was launched six times.
pub proof fn lemma_ends_for_a_reason(
    preset: PresetView,
    host: Seq<char>,
    ssh_port: u16,
    events: Seq<EventView>,
)
    requires
        life::life(preset, host, ssh_port, events).0.phase == Phase::Finished,
    ensures
        reason_given(events) || life::launches(life::life(preset, host, ssh_port, events).1) == 6,
    decreases events.len(),
{
    if events.len() > 0 {
        let earlier = events.drop_last();
        let e = events.last();
        assert(events[events.len() - 1] == e);
        let (before, done) = life::life(preset, host, ssh_port, earlier);
        let actions = monitor::next(before, e).1;
        assert(life::life(preset, host, ssh_port, events).1 =~= done + actions);
        if before.phase == Phase::Finished {
            lemma_ends_for_a_reason(preset, host, ssh_port, earlier);
            assert(done + actions =~= done);
        } else {
            lemma_said_before(preset, host, ssh_port, earlier);
            life::lemma_bounded_launches(preset, host, ssh_port, earlier);
            life::lemma_launches_add(done, actions);
            lemma_why_finished(before, e);
        }
        if reason_given(earlier) {
            lemma_reason_stays(events);
        }
    }
}

/// The value of an event tells its kind and holds its line or reason.
pub proof fn lemma_event_values(words: String)
    ensures
        Event::Launched@ == EventView::Launched,
        Event::LaunchFailed(words)@ == EventView::LaunchFailed(words@),
        Event::StdoutLine(words)@ == EventView::StdoutLine(words@),
        Event::StdoutEnded@ == EventView::StdoutEnded,
        Event::StderrLine(words)@ == EventView::StderrLine(words@),
        Event::StderrEnded@ == EventView::StderrEnded,
        Event::Exited@ == EventView::Exited,
        Event::ConnectTimeout@ == EventView::ConnectTimeout,
        Event::PauseElapsed@ == EventView::PauseElapsed,
        Event::StopRequested@ == EventView::StopRequested,
{
}

/// The value of an action tells its kind and holds what it is done with, and a list of actions
/// holds the value of each in its place.
pub proof fn lemma_action_values(action: Action, actions: Seq<Action>)
    ensures
        match action {
            Action::SetState(state) => action@ == ActionView::SetState(state@),
            Action::Notify(notification) => action@ == ActionView::Notify(
                NotificationView { title: notification.title@, body: notification.body@ },
            ),
            Action::Launch(arguments) => action@ matches ActionView::Launch(words) && words.len()
                == arguments.len() && forall|i: int|
                0 <= i < words.len() ==> #[trigger] words[i] == arguments@[i]@,
            Action::ArmTimeout(secs) => action@ == ActionView::ArmTimeout(secs),
            Action::Kill => action@ == ActionView::Kill,
            Action::Pause(secs) => action@ == ActionView::Pause(secs),
        },
        monitor::action_views(actions).len() == actions.len(),
        forall|i: int|
            0 <= i < actions.len() ==> #[trigger] monitor::action_views(actions)[i] == actions[i]@,
{
}

} // verus!
