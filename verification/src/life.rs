//! What holds of a tunnel over its whole life, whatever happens to it.
use vstd::prelude::*;

use crate::monitor::{self, ActionView, EventView, MonitorView, Phase};
use crate::preset::PresetView;
use crate::registry;
use crate::ssh;
use crate::tunnel::{ProcessView, StateView};
use crate::url;

verus! {

/// What a sequence of events makes of a monitor, and all that is done on the way.
pub open spec fn run(m: MonitorView, events: Seq<EventView>) -> (MonitorView, Seq<ActionView>)
    decreases events.len(),
{
    if events.len() == 0 {
        (m, seq![])
    } else {
        let (before, done) = run(m, events.drop_last());
        let (after, actions) = monitor::next(before, events.last());
        (after, done + actions)
    }
}

/// A whole life: the start of a monitor, and the events after it.
pub open spec fn life(
    preset: PresetView,
    host: Seq<char>,
    ssh_port: u16,
    events: Seq<EventView>,
) -> (MonitorView, Seq<ActionView>) {
    let m = monitor::fresh(preset, host, ssh_port);
    let (after, actions) = run(m, events);
    (after, monitor::launch_actions(m) + actions)
}

/// How often a process is launched.
pub open spec fn launches(actions: Seq<ActionView>) -> nat
    decreases actions.len(),
{
    if actions.len() == 0 {
        0
    } else {
        launches(actions.drop_last()) + if actions.last() is Launch {
            1nat
        } else {
            0
        }
    }
}

/// The state that the user is shown in the end, if any.
pub open spec fn shown(actions: Seq<ActionView>) -> Option<StateView>
    decreases actions.len(),
{
    if actions.len() == 0 {
        None
    } else {
        match actions.last() {
            ActionView::SetState(state) => Some(state),
            _ => shown(actions.drop_last()),
        }
    }
}

pub(crate) proof fn lemma_launches_add(a: Seq<ActionView>, b: Seq<ActionView>)
    ensures
        launches(a + b) == launches(a) + launches(b),
    decreases b.len(),
{
    if b.len() == 0 {
        assert(a + b =~= a);
    } else {
        assert((a + b).drop_last() =~= a + b.drop_last());
        lemma_launches_add(a, b.drop_last());
    }
}

pub(crate) proof fn lemma_shown_add(a: Seq<ActionView>, b: Seq<ActionView>)
    ensures
        shown(a + b) == if shown(b) is Some {
            shown(b)
        } else {
            shown(a)
        },
    decreases b.len(),
{
    if b.len() == 0 {
        assert(a + b =~= a);
    } else {
        assert((a + b).drop_last() =~= a + b.drop_last());
        lemma_shown_add(a, b.drop_last());
    }
}

/// How many of the launches that the attempts of a monitor allow are still to come.
spec fn pending(m: MonitorView) -> nat {
    if m.phase == Phase::Pausing {
        1
    } else {
        0
    }
}

/// A state fits a phase: an open tunnel is shown as such, one that is being set up or waits to be
/// is shown as connecting, and one that is finished is shown as inactive or with an error.
pub open spec fn fits(m: MonitorView, state: Option<StateView>) -> bool {
    match m.phase {
        Phase::Launching => state == Some(StateView::Connecting),
        Phase::Running => if m.is_connected {
            state matches Some(s) && s is Active
        } else {
            state == Some(StateView::Connecting)
        },
        Phase::Pausing => state == Some(StateView::Connecting),
        Phase::Finished => state matches Some(s) && (s is Inactive || s is Error),
    }
}

/// What one event does to the number of launches and to the state that is shown.
#[verifier::rlimit(40)]
proof fn lemma_next(m: MonitorView, e: EventView, state: Option<StateView>)
    requires
        m.attempts <= monitor::MAX_ATTEMPTS,
        fits(m, state),
    ensures
        ({
            let (after, actions) = monitor::next(m, e);
            &&& launches(actions) + m.attempts + pending(after) <= after.attempts + pending(m)
            &&& after.phase != Phase::Finished ==> launches(actions) + m.attempts + pending(after)
                == after.attempts + pending(m)
            &&& m.attempts <= after.attempts <= monitor::MAX_ATTEMPTS
            &&& fits(
                after,
                if shown(actions) is Some {
                    shown(actions)
                } else {
                    state
                },
            )
        }),
{
    reveal_with_fuel(launches, 6);
    reveal_with_fuel(shown, 6);
}

/// Whatever happens, a tunnel is set up again at most five times, so that its process is launched
/// at most six times; an address that was reached in between does not change that. As long as a
/// process runs or is to run, it was launched once more than the tunnel was set up again.
pub proof fn lemma_bounded_launches(
    preset: PresetView,
    host: Seq<char>,
    ssh_port: u16,
    events: Seq<EventView>,
)
    ensures
        life(preset, host, ssh_port, events).0.attempts <= monitor::MAX_ATTEMPTS,
        launches(life(preset, host, ssh_port, events).1) <= life(
            preset,
            host,
            ssh_port,
            events,
        ).0.attempts + 1,
        ({
            let (m, actions) = life(preset, host, ssh_port, events);
            m.phase == Phase::Launching || m.phase == Phase::Running ==> launches(actions)
                == m.attempts + 1
        }),
{
    lemma_life(preset, host, ssh_port, events);
}

/// What the user is shown fits what the monitor waits for. When the monitor is finished, the
/// tunnel is shown as inactive or with an error.
pub proof fn lemma_shown_fits(
    preset: PresetView,
    host: Seq<char>,
    ssh_port: u16,
    events: Seq<EventView>,
)
    ensures
        fits(
            life(preset, host, ssh_port, events).0,
            shown(life(preset, host, ssh_port, events).1),
        ),
{
    lemma_life(preset, host, ssh_port, events);
}

proof fn lemma_life(
    preset: PresetView,
    host: Seq<char>,
    ssh_port: u16,
    events: Seq<EventView>,
)
    ensures
        ({
            let (m, actions) = life(preset, host, ssh_port, events);
            &&& launches(actions) + pending(m) <= m.attempts + 1
            &&& m.phase != Phase::Finished ==> launches(actions) + pending(m) == m.attempts + 1
            &&& m.attempts <= monitor::MAX_ATTEMPTS
            &&& fits(m, shown(actions))
        }),
    decreases events.len(),
{
    let first = monitor::launch_actions(monitor::fresh(preset, host, ssh_port));
    if events.len() == 0 {
        reveal_with_fuel(launches, 3);
        reveal_with_fuel(shown, 3);
        assert(first + seq![] =~= first);
    } else {
        lemma_life(preset, host, ssh_port, events.drop_last());
        let (before, done) = life(preset, host, ssh_port, events.drop_last());
        let (after, actions) = monitor::next(before, events.last());
        lemma_next(before, events.last(), shown(done));
        lemma_launches_add(done, actions);
        lemma_shown_add(done, actions);
        let (m, all) = life(preset, host, ssh_port, events);
        assert(all =~= done + actions);
    }
}

/// A monitor that is finished stays so, and does nothing any more.
pub proof fn lemma_finished_is_final(m: MonitorView, events: Seq<EventView>)
    requires
        m.phase == Phase::Finished,
    ensures
        run(m, events).0 == m,
        run(m, events).1.len() == 0,
    decreases events.len(),
{
    if events.len() > 0 {
        lemma_finished_is_final(m, events.drop_last());
    }
}

/// A request to stop is obeyed at once, whether a process runs or a pause is under way: the
/// process is killed, the tunnel is shown as inactive, and the monitor is finished.
pub proof fn lemma_stop_is_obeyed(m: MonitorView)
    requires
        m.phase == Phase::Running || m.phase == Phase::Pausing,
    ensures
        monitor::next(m, EventView::StopRequested).0 == monitor::finished(m),
        shown(monitor::next(m, EventView::StopRequested).1) == Some(StateView::Inactive),
        m.phase == Phase::Running ==> monitor::next(m, EventView::StopRequested).1.contains(
            ActionView::Kill,
        ),
        launches(monitor::next(m, EventView::StopRequested).1) == 0,
{
    reveal_with_fuel(launches, 3);
    let actions = monitor::next(m, EventView::StopRequested).1;
    if m.phase == Phase::Running {
        assert(actions[0] == ActionView::Kill);
    }
}

/// A process may be there: one was launched and not killed since.
pub open spec fn alive(actions: Seq<ActionView>) -> bool
    decreases actions.len(),
{
    if actions.len() == 0 {
        false
    } else {
        match actions.last() {
            ActionView::Launch(_) => true,
            ActionView::Kill => false,
            _ => alive(actions.drop_last()),
        }
    }
}

/// No process is launched while another may be there.
pub open spec fn one_at_a_time(actions: Seq<ActionView>) -> bool {
    forall|i: int|
        0 <= i < actions.len() && (#[trigger] actions[i]) is Launch ==> !alive(actions.take(i))
}

proof fn lemma_alive_add(a: Seq<ActionView>, b: Seq<ActionView>)
    requires
        forall|i: int| 0 <= i < b.len() ==> !((#[trigger] b[i]) is Launch),
    ensures
        alive(a + b) == (alive(a) && !b.contains(ActionView::Kill)),
    decreases b.len(),
{
    if b.len() == 0 {
        assert(a + b =~= a);
    } else {
        assert((a + b).drop_last() =~= a + b.drop_last());
        lemma_alive_add(a, b.drop_last());
        if b.last() is Kill {
            assert(b[b.len() - 1] == ActionView::Kill);
        }
        if b.contains(ActionView::Kill) {
            let i = choose|i: int| 0 <= i < b.len() && b[i] == ActionView::Kill;
            if i < b.len() - 1 {
                assert(b.drop_last()[i] == ActionView::Kill);
            }
        }
        if b.drop_last().contains(ActionView::Kill) {
            let i = choose|i: int|
                0 <= i < b.drop_last().len() && b.drop_last()[i] == ActionView::Kill;
            assert(b[i] == ActionView::Kill);
        }
    }
}

proof fn lemma_processes(
    preset: PresetView,
    host: Seq<char>,
    ssh_port: u16,
    events: Seq<EventView>,
)
    ensures
        ({
            let (m, actions) = life(preset, host, ssh_port, events);
            &&& one_at_a_time(actions)
            &&& m.phase == Phase::Pausing ==> !alive(actions)
        }),
    decreases events.len(),
{
    let m0 = monitor::fresh(preset, host, ssh_port);
    let first = monitor::launch_actions(m0);
    let (m, all) = life(preset, host, ssh_port, events);
    if events.len() == 0 {
        assert(all =~= first);
        assert(!alive(first.take(1))) by {
            reveal_with_fuel(alive, 2);
        }
    } else {
        lemma_processes(preset, host, ssh_port, events.drop_last());
        let (before, done) = life(preset, host, ssh_port, events.drop_last());
        let (after, actions) = monitor::next(before, events.last());
        assert(all =~= done + actions);
        assert forall|i: int| 0 <= i < all.len() && (#[trigger] all[i]) is Launch implies !alive(
            all.take(i),
        ) by {
            if i < done.len() {
                assert(all.take(i) =~= done.take(i));
                assert(done[i] is Launch);
            } else {
                assert(actions[i - done.len()] is Launch);
                assert(before.phase == Phase::Pausing);
                assert(i == done.len() + 1);
                let step = seq![actions[0]];
                assert(all.take(i) =~= done + step);
                lemma_alive_add(done, step);
            }
        }
        if after.phase == Phase::Pausing && before.phase == Phase::Running {
            assert(actions[0] == ActionView::Kill);
            lemma_alive_add(done, actions);
        } else if after.phase == Phase::Pausing {
            assert(all =~= done);
        }
    }
}

/// A process is launched only when the one before it was killed.
pub proof fn lemma_one_process(
    preset: PresetView,
    host: Seq<char>,
    ssh_port: u16,
    events: Seq<EventView>,
)
    ensures
        one_at_a_time(life(preset, host, ssh_port, events).1),
{
    lemma_processes(preset, host, ssh_port, events);
}

/// No process that ran is left behind: where a monitor stops waiting for one, it is killed.
pub proof fn lemma_nothing_left_behind(m: MonitorView, e: EventView)
    requires
        m.phase == Phase::Running,
        monitor::next(m, e).0.phase != Phase::Running,
    ensures
        monitor::next(m, e).1.contains(ActionView::Kill),
{
    assert(monitor::next(m, e).1[0] == ActionView::Kill);
}

/// Once the server said that the time of the tunnel is over, or that it was closed, the tunnel is
/// not set up again, and unless the user stops it first it ends with just that error.
#[verifier::rlimit(40)]
pub proof fn lemma_server_has_the_last_word(m: MonitorView, events: Seq<EventView>)
    requires
        m.phase == Phase::Running,
        m.limit_reached || m.dashboard_closed,
    ensures
        launches(run(m, events).1) == 0,
        ({
            let (after, actions) = run(m, events);
            ||| after.phase == Phase::Running && (after.limit_reached || after.dashboard_closed)
            ||| after.phase == Phase::Finished && shown(actions) == Some(StateView::Inactive)
                && events.contains(EventView::StopRequested)
            ||| after.phase == Phase::Finished && shown(actions) == Some(
                StateView::Error(
                    if after.limit_reached {
                        monitor::LIMIT_MESSAGE@
                    } else {
                        monitor::CLOSED_MESSAGE@
                    },
                ),
            )
        }),
    decreases events.len(),
{
    if events.len() > 0 {
        lemma_server_has_the_last_word(m, events.drop_last());
        let (before, done) = run(m, events.drop_last());
        let e = events.last();
        let (after, actions) = monitor::next(before, e);
        lemma_launches_add(done, actions);
        lemma_shown_add(done, actions);
        assert(launches(actions) == 0) by {
            reveal_with_fuel(launches, 6);
        }
        reveal_with_fuel(shown, 6);
        if before.phase == Phase::Finished {
            if events.drop_last().contains(EventView::StopRequested) {
                let i = choose|i: int|
                    0 <= i < events.drop_last().len() && events.drop_last()[i]
                        == EventView::StopRequested;
                assert(events[i] == EventView::StopRequested);
            }
        } else if e is StopRequested {
            assert(events[events.len() - 1] == EventView::StopRequested);
        }
    }
}

/// A tunnel that breaks down is not given up before it was set up again as often as it may be: the
/// user stopped it, or the process could not be launched, or the server ended it, or there were
/// five further attempts.
pub proof fn lemma_not_given_up_early(
    preset: PresetView,
    host: Seq<char>,
    ssh_port: u16,
    events: Seq<EventView>,
)
    requires
        life(preset, host, ssh_port, events).0.phase == Phase::Finished,
    ensures
        ({
            let (m, actions) = life(preset, host, ssh_port, events);
            ||| m.attempts == monitor::MAX_ATTEMPTS
            ||| m.limit_reached || m.dashboard_closed
            ||| exists|i: int|
                0 <= i < events.len() && (#[trigger] events[i] is StopRequested
                    || events[i] is LaunchFailed)
        }),
    decreases events.len(),
{
    if events.len() > 0 {
        let earlier = events.drop_last();
        let (before, done) = life(preset, host, ssh_port, earlier);
        lemma_life(preset, host, ssh_port, earlier);
        if before.phase == Phase::Finished {
            lemma_not_given_up_early(preset, host, ssh_port, earlier);
            if exists|i: int|
                0 <= i < earlier.len() && (#[trigger] earlier[i] is StopRequested
                    || earlier[i] is LaunchFailed) {
                let i = choose|i: int|
                    0 <= i < earlier.len() && (#[trigger] earlier[i] is StopRequested
                        || earlier[i] is LaunchFailed);
                assert(events[i] == earlier[i]);
            }
        } else {
            assert(events[events.len() - 1] == events.last());
        }
    }
}

/// A tunnel that is open is not given up for the time that it took to open.
pub proof fn lemma_timeout_spares_open_tunnels(m: MonitorView)
    requires
        m.phase == Phase::Running,
        m.is_connected,
    ensures
        monitor::next(m, EventView::ConnectTimeout).0 == m,
        monitor::next(m, EventView::ConnectTimeout).1.len() == 0,
{
}

/// Every launch of a tunnel reaches for the same server with the same arguments.
pub proof fn lemma_same_launches(
    preset: PresetView,
    host: Seq<char>,
    ssh_port: u16,
    events: Seq<EventView>,
)
    ensures
        ({
            let (m, actions) = life(preset, host, ssh_port, events);
            &&& m.preset == preset
            &&& m.host == host
            &&& m.ssh_port == ssh_port
            &&& forall|i: int|
                0 <= i < actions.len() && (#[trigger] actions[i]) is Launch ==> actions[i]
                    == ActionView::Launch(ssh::arguments(preset, host, ssh_port))
        }),
    decreases events.len(),
{
    let (m, all) = life(preset, host, ssh_port, events);
    if events.len() > 0 {
        lemma_same_launches(preset, host, ssh_port, events.drop_last());
        let (before, done) = life(preset, host, ssh_port, events.drop_last());
        let (after, actions) = monitor::next(before, events.last());
        assert(all =~= done + actions);
        assert forall|i: int| 0 <= i < all.len() && (#[trigger] all[i]) is Launch implies all[i]
            == ActionView::Launch(ssh::arguments(preset, host, ssh_port)) by {
            if i < done.len() {
                assert(done[i] is Launch);
            } else {
                assert(actions[i - done.len()] is Launch);
            }
        }
    }
}

proof fn lemma_next_shows_address(m: MonitorView, e: EventView, address: Seq<char>)
    requires
        shown(monitor::next(m, e).1) == Some(StateView::Active(address)),
    ensures
        e matches EventView::StdoutLine(line) && url::url_in(line) == Some(address),
{
    reveal_with_fuel(shown, 6);
}

/// An address that the user is shown was printed by the process.
pub proof fn lemma_address_was_printed(
    preset: PresetView,
    host: Seq<char>,
    ssh_port: u16,
    events: Seq<EventView>,
    address: Seq<char>,
)
    requires
        shown(life(preset, host, ssh_port, events).1) == Some(StateView::Active(address)),
    ensures
        exists|i: int|
            0 <= i < events.len() && (#[trigger] events[i] matches EventView::StdoutLine(line)
                && url::url_in(line) == Some(address)),
    decreases events.len(),
{
    let first = monitor::launch_actions(monitor::fresh(preset, host, ssh_port));
    let (m, all) = life(preset, host, ssh_port, events);
    if events.len() == 0 {
        assert(all =~= first);
        assert(shown(first) == Some(StateView::Connecting)) by {
            reveal_with_fuel(shown, 3);
        }
    } else {
        let earlier = events.drop_last();
        let (before, done) = life(preset, host, ssh_port, earlier);
        let (after, actions) = monitor::next(before, events.last());
        assert(all =~= done + actions);
        lemma_shown_add(done, actions);
        if shown(actions) is Some {
            lemma_next_shows_address(before, events.last(), address);
            assert(events[events.len() - 1] == events.last());
        } else {
            lemma_address_was_printed(preset, host, ssh_port, earlier, address);
            let i = choose|i: int|
                0 <= i < earlier.len() && (#[trigger] earlier[i] matches EventView::StdoutLine(line)
                    && url::url_in(line) == Some(address));
            assert(events[i] == earlier[i]);
        }
    }
}

/// The started tunnels after the actions of the monitor of one of them.
pub open spec fn performed(
    m: Map<Seq<char>, ProcessView>,
    id: Seq<char>,
    actions: Seq<ActionView>,
) -> Map<Seq<char>, ProcessView>
    decreases actions.len(),
{
    if actions.len() == 0 {
        m
    } else {
        let before = performed(m, id, actions.drop_last());
        match actions.last() {
            ActionView::SetState(state) => registry::with_state(before, id, state),
            _ => before,
        }
    }
}

/// What a monitor wants shown is what is found under its preset, and no other tunnel is touched.
pub proof fn lemma_performed(
    m: Map<Seq<char>, ProcessView>,
    id: Seq<char>,
    actions: Seq<ActionView>,
)
    requires
        m.contains_key(id),
    ensures
        performed(m, id, actions) == m.insert(
            id,
            (ProcessView {
                state: (match shown(actions) {
                    Some(state) => state,
                    None => m[id].state,
                }),
                ..m[id]
            }),
        ),
    decreases actions.len(),
{
    if actions.len() == 0 {
        assert(m =~= m.insert(id, m[id]));
    } else {
        lemma_performed(m, id, actions.drop_last());
        assert(performed(m, id, actions) =~= m.insert(
            id,
            ProcessView {
                state: (match shown(actions) {
                    Some(state) => state,
                    None => m[id].state,
                }),
                ..m[id]
            },
        ));
    }
}

} // verus!
