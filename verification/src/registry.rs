//! The tunnels that were started since the program began.
use vstd::prelude::*;

use tokio::sync::mpsc;

use crate::tray::TrayIcon;
use crate::tunnel::{ProcessView, StateView, TunnelProcess, TunnelState};

verus! {

/// The started tunnels, one for each preset.
pub struct AppState {
    tunnels: Vec<TunnelProcess>,
}

/// What the user interface is told when the state of a tunnel changes.
#[derive(Debug)]
pub struct StateChange {
    /// The preset of the tunnel.
    pub id: String,
    /// Its new state.
    pub state: TunnelState,
}

/// The name under which the user interface is told of a [`StateChange`].
pub const STATE_CHANGE_EVENT: &'static str = "tunnel-state-changed";

/// Position `i` holds the tunnel of `id`.
spec fn holds(tunnels: Seq<TunnelProcess>, id: Seq<char>, i: int) -> bool {
    0 <= i < tunnels.len() && tunnels[i].preset_id@ == id
}

/// `pairs` holds each entry of `m` once, in some order.
pub open spec fn lists<V>(pairs: Seq<(Seq<char>, V)>, m: Map<Seq<char>, V>) -> bool {
    &&& forall|i: int, j: int|
        0 <= i < j < pairs.len() ==> (#[trigger] pairs[i]).0 != (#[trigger] pairs[j]).0
    &&& forall|i: int|
        0 <= i < pairs.len() ==> m.contains_key((#[trigger] pairs[i]).0) && m[pairs[i].0]
            == pairs[i].1
    &&& forall|id: Seq<char>| #[trigger]
        m.contains_key(id) ==> exists|i: int| 0 <= i < pairs.len() && (#[trigger] pairs[i]).0 == id
}

/// The tunnels that can still be asked to stop, and where to ask.
pub open spec fn senders(m: Map<Seq<char>, ProcessView>) -> Map<
    Seq<char>,
    mpsc::Sender<()>,
> {
    Map::new(
        |id: Seq<char>| m.contains_key(id) && m[id].child_tx is Some,
        |id: Seq<char>| m[id].child_tx->0,
    )
}

/// A tunnel whose monitor was asked to stop.
pub open spec fn released(p: ProcessView) -> ProcessView {
    ProcessView { child_tx: None, ..p }
}

/// A tunnel that the user stopped.
pub open spec fn stopped(p: ProcessView) -> ProcessView {
    ProcessView {
        child_tx: None,
        state: StateView::Inactive,
        ..p
    }
}

/// The tunnels after one of them was given a state; where it was never started, nothing changes.
pub open spec fn with_state(
    m: Map<Seq<char>, ProcessView>,
    id: Seq<char>,
    state: StateView,
) -> Map<Seq<char>, ProcessView> {
    if m.contains_key(id) {
        m.insert(id, ProcessView { state, ..m[id] })
    } else {
        m
    }
}

/// The tunnels after one of them was started, in place of an earlier one of the same preset.
pub open spec fn with_started(
    m: Map<Seq<char>, ProcessView>,
    id: Seq<char>,
    child_tx: mpsc::Sender<()>,
) -> Map<Seq<char>, ProcessView> {
    m.insert(
        id,
        ProcessView { preset_id: id, state: StateView::Connecting, child_tx: Some(child_tx) },
    )
}

/// The tunnels after one of them was stopped; where it was never started, nothing changes.
pub open spec fn with_stopped(m: Map<Seq<char>, ProcessView>, id: Seq<char>) -> Map<
    Seq<char>,
    ProcessView,
> {
    if m.contains_key(id) {
        m.insert(id, stopped(m[id]))
    } else {
        m
    }
}

/// Where the monitor of a tunnel is asked to stop, if it can still be asked.
pub open spec fn sender_of(m: Map<Seq<char>, ProcessView>, id: Seq<char>) -> Option<
    mpsc::Sender<()>,
> {
    if m.contains_key(id) {
        m[id].child_tx
    } else {
        None
    }
}

/// The tunnels after all of them were stopped.
pub open spec fn all_stopped(m: Map<Seq<char>, ProcessView>) -> Map<Seq<char>, ProcessView> {
    m.map_values(|p: ProcessView| stopped(p))
}

/// The tunnels after all their monitors were asked to stop.
pub open spec fn all_released(m: Map<Seq<char>, ProcessView>) -> Map<Seq<char>, ProcessView> {
    m.map_values(|p: ProcessView| released(p))
}

/// The state of each tunnel.
pub open spec fn states(m: Map<Seq<char>, ProcessView>) -> Map<Seq<char>, StateView> {
    m.map_values(|p: ProcessView| p.state)
}

/// Some tunnel is open.
pub open spec fn any_active(m: Map<Seq<char>, ProcessView>) -> bool {
    exists|id: Seq<char>| #[trigger] m.contains_key(id) && m[id].state is Active
}

/// No two tunnels belong to one preset.
spec fn distinct(tunnels: Seq<TunnelProcess>) -> bool {
    forall|i: int, j: int|
        0 <= i < j < tunnels.len() ==> (#[trigger] tunnels[i]).preset_id@ != (
        #[trigger] tunnels[j]).preset_id@
}

/// The tunnels by their preset.
spec fn by_id(tunnels: Seq<TunnelProcess>) -> Map<Seq<char>, ProcessView> {
    Map::new(
        |id: Seq<char>| exists|i: int| holds(tunnels, id, i),
        |id: Seq<char>| tunnels[choose|i: int| holds(tunnels, id, i)]@,
    )
}

impl View for AppState {
    type V = Map<Seq<char>, ProcessView>;

    closed spec fn view(&self) -> Map<Seq<char>, ProcessView> {
        by_id(self.tunnels@)
    }
}

proof fn lemma_by_id(tunnels: Seq<TunnelProcess>, i: int)
    requires
        distinct(tunnels),
        0 <= i < tunnels.len(),
    ensures
        by_id(tunnels).contains_key(tunnels[i].preset_id@),
        by_id(tunnels)[tunnels[i].preset_id@] == tunnels[i]@,
{
    let id = tunnels[i].preset_id@;
    assert(holds(tunnels, id, i));
    let j = choose|j: int| holds(tunnels, id, j);
    assert(holds(tunnels, id, j));
}

/// Replacing the tunnel at one position by another of the same preset.
proof fn lemma_replace(old_tunnels: Seq<TunnelProcess>, tunnels: Seq<TunnelProcess>, i: int)
    requires
        distinct(old_tunnels),
        0 <= i < old_tunnels.len(),
        tunnels.len() == old_tunnels.len(),
        tunnels[i].preset_id@ == old_tunnels[i].preset_id@,
        forall|j: int| 0 <= j < tunnels.len() && j != i ==> tunnels[j] == old_tunnels[j],
    ensures
        distinct(tunnels),
        by_id(tunnels) == by_id(old_tunnels).insert(tunnels[i].preset_id@, tunnels[i]@),
{
    let before = by_id(old_tunnels);
    let after = by_id(tunnels);
    assert forall|id: Seq<char>| after.contains_key(id) == before.insert(
        tunnels[i].preset_id@,
        tunnels[i]@,
    ).contains_key(id) by {
        if exists|j: int| holds(tunnels, id, j) {
            let j = choose|j: int| holds(tunnels, id, j);
            assert(holds(old_tunnels, id, j));
        }
        if exists|j: int| holds(old_tunnels, id, j) {
            let j = choose|j: int| holds(old_tunnels, id, j);
            assert(holds(tunnels, id, j));
        }
        if id == tunnels[i].preset_id@ {
            assert(holds(tunnels, id, i));
        }
    }
    assert forall|id: Seq<char>| after.contains_key(id) implies after[id] == before.insert(
        tunnels[i].preset_id@,
        tunnels[i]@,
    )[id] by {
        let j = choose|j: int| holds(tunnels, id, j);
        assert(holds(tunnels, id, j));
        lemma_by_id(tunnels, j);
        lemma_by_id(old_tunnels, j);
    }
    assert(after =~= before.insert(tunnels[i].preset_id@, tunnels[i]@));
}

/// Adding the tunnel of a preset that had none.
proof fn lemma_push(old_tunnels: Seq<TunnelProcess>, tunnels: Seq<TunnelProcess>)
    requires
        distinct(old_tunnels),
        tunnels.len() == old_tunnels.len() + 1,
        forall|j: int| 0 <= j < old_tunnels.len() ==> tunnels[j] == old_tunnels[j],
        forall|j: int| !holds(old_tunnels, tunnels.last().preset_id@, j),
    ensures
        distinct(tunnels),
        by_id(tunnels) == by_id(old_tunnels).insert(tunnels.last().preset_id@, tunnels.last()@),
{
    let n = old_tunnels.len() as int;
    let key = tunnels.last().preset_id@;
    let after = by_id(tunnels);
    let expected = by_id(old_tunnels).insert(key, tunnels.last()@);
    assert forall|i: int, j: int| 0 <= i < j < tunnels.len() implies (
    #[trigger] tunnels[i]).preset_id@ != (#[trigger] tunnels[j]).preset_id@ by {
        if j == n {
            assert(!holds(old_tunnels, key, i));
        }
    }
    assert forall|id: Seq<char>| after.contains_key(id) == expected.contains_key(id) by {
        if exists|j: int| holds(tunnels, id, j) {
            let j = choose|j: int| holds(tunnels, id, j);
            if j != n {
                assert(holds(old_tunnels, id, j));
            }
        }
        if exists|j: int| holds(old_tunnels, id, j) {
            let j = choose|j: int| holds(old_tunnels, id, j);
            assert(holds(tunnels, id, j));
        }
        if id == key {
            assert(holds(tunnels, id, n));
        }
    }
    assert forall|id: Seq<char>| after.contains_key(id) implies after[id] == expected[id] by {
        let j = choose|j: int| holds(tunnels, id, j);
        assert(holds(tunnels, id, j));
        lemma_by_id(tunnels, j);
        if j != n {
            lemma_by_id(old_tunnels, j);
        }
    }
    assert(after =~= expected);
}

/// Changing every tunnel in the same way.
proof fn lemma_map_all(
    old_tunnels: Seq<TunnelProcess>,
    tunnels: Seq<TunnelProcess>,
    f: spec_fn(ProcessView) -> ProcessView,
)
    requires
        distinct(old_tunnels),
        tunnels.len() == old_tunnels.len(),
        forall|j: int|
            0 <= j < tunnels.len() ==> (#[trigger] tunnels[j])@ == f(old_tunnels[j]@)
                && tunnels[j].preset_id@ == old_tunnels[j].preset_id@,
    ensures
        distinct(tunnels),
        by_id(tunnels) == by_id(old_tunnels).map_values(f),
{
    let before = by_id(old_tunnels);
    let after = by_id(tunnels);
    assert forall|id: Seq<char>| after.contains_key(id) == before.contains_key(id) by {
        if exists|j: int| holds(tunnels, id, j) {
            let j = choose|j: int| holds(tunnels, id, j);
            assert(holds(old_tunnels, id, j));
        }
        if exists|j: int| holds(old_tunnels, id, j) {
            let j = choose|j: int| holds(old_tunnels, id, j);
            assert(holds(tunnels, id, j));
        }
    }
    assert forall|id: Seq<char>| after.contains_key(id) implies after[id] == f(before[id]) by {
        let j = choose|j: int| holds(tunnels, id, j);
        assert(holds(tunnels, id, j));
        lemma_by_id(tunnels, j);
        lemma_by_id(old_tunnels, j);
    }
    assert(after =~= before.map_values(f));
}

impl AppState {
    #[verifier::type_invariant]
    spec fn one_per_preset(self) -> bool {
        distinct(self.tunnels@)
    }

    /// No tunnel was started yet.
    pub fn new() -> (r: Self)
        ensures
            r@ == Map::<Seq<char>, ProcessView>::empty(),
    {
        let r = AppState { tunnels: Vec::new() };
        assert(r@ =~= Map::<Seq<char>, ProcessView>::empty());
        r
    }

    fn position(tunnels: &Vec<TunnelProcess>, id: &str) -> (r: Option<usize>)
        ensures
            match r {
                Some(i) => holds(tunnels@, id@, i as int),
                None => forall|i: int| !holds(tunnels@, id@, i),
            },
    {
        let wanted = id.to_owned();
        let mut i: usize = 0;
        while i < tunnels.len()
            invariant
                wanted@ == id@,
                i <= tunnels@.len(),
                forall|j: int| 0 <= j < i ==> !holds(tunnels@, id@, j),
            decreases tunnels.len() - i,
        {
            if tunnels[i].preset_id == wanted {
                return Some(i);
            }
            i += 1;
        }
        None
    }

    /// The tunnel of a preset, if one was started.
    pub fn get(&self, preset_id: &str) -> (r: Option<&TunnelProcess>)
        ensures
            match r {
                Some(tunnel) => self@.contains_key(preset_id@) && self@[preset_id@] == tunnel@,
                None => !self@.contains_key(preset_id@),
            },
    {
        proof {
            use_type_invariant(self);
        }
        match Self::position(&self.tunnels, preset_id) {
            Some(i) => {
                proof {
                    lemma_by_id(self.tunnels@, i as int);
                }
                Some(&self.tunnels[i])
            },
            None => None,
        }
    }

    /// Gives the tunnel of a preset a new state; where none was started, nothing changes. Returns
    /// what the user interface is told, which is the same either way.
    pub fn update_tunnel_state(&mut self, preset_id: &str, state: TunnelState) -> (r: StateChange)
        ensures
            final(self)@ == with_state(old(self)@, preset_id@, state@),
            r.id@ == preset_id@,
            r.state@ == state@,
    {
        proof {
            use_type_invariant(&*self);
        }
        let change = StateChange { id: preset_id.to_owned(), state: state.clone() };
        let mut tunnels: Vec<TunnelProcess> = Vec::new();
        std::mem::swap(&mut tunnels, &mut self.tunnels);
        let ghost before = tunnels@;
        match Self::position(&tunnels, preset_id) {
            Some(i) => {
                tunnels[i].state = state;
                proof {
                    lemma_by_id(before, i as int);
                    lemma_replace(before, tunnels@, i as int);
                }
            },
            None => {},
        }
        self.tunnels = tunnels;
        change
    }

    /// Records that a tunnel is being set up for a preset, in place of an earlier one. Returns
    /// where the monitor of the earlier one is asked to stop, if it can still be asked.
    pub fn start_tunnel(&mut self, preset_id: &str, child_tx: mpsc::Sender<()>) -> (r: Option<
        mpsc::Sender<()>,
    >)
        ensures
            final(self)@ == with_started(old(self)@, preset_id@, child_tx),
            r == sender_of(old(self)@, preset_id@),
    {
        proof {
            use_type_invariant(&*self);
        }
        let mut tunnels: Vec<TunnelProcess> = Vec::new();
        std::mem::swap(&mut tunnels, &mut self.tunnels);
        let ghost before = tunnels@;
        let mut earlier: Option<mpsc::Sender<()>> = None;
        match Self::position(&tunnels, preset_id) {
            Some(i) => {
                earlier = tunnels[i].child_tx.take();
                tunnels[i].state = TunnelState::Connecting;
                tunnels[i].child_tx = Some(child_tx);
                proof {
                    lemma_by_id(before, i as int);
                    lemma_replace(before, tunnels@, i as int);
                }
            },
            None => {
                tunnels.push(
                    TunnelProcess {
                        preset_id: preset_id.to_owned(),
                        state: TunnelState::Connecting,
                        child_tx: Some(child_tx),
                    },
                );
                proof {
                    lemma_push(before, tunnels@);
                }
            },
        }
        self.tunnels = tunnels;
        earlier
    }

    /// Marks the tunnel of a preset as stopped; where none was started, nothing changes. Returns
    /// where its monitor is asked to stop, if it can still be asked.
    pub fn stop_tunnel(&mut self, preset_id: &str) -> (r: Option<mpsc::Sender<()>>)
        ensures
            final(self)@ == with_stopped(old(self)@, preset_id@),
            r == sender_of(old(self)@, preset_id@),
    {
        proof {
            use_type_invariant(&*self);
        }
        let mut tunnels: Vec<TunnelProcess> = Vec::new();
        std::mem::swap(&mut tunnels, &mut self.tunnels);
        let ghost before = tunnels@;
        let mut asked: Option<mpsc::Sender<()>> = None;
        match Self::position(&tunnels, preset_id) {
            Some(i) => {
                asked = tunnels[i].child_tx.take();
                tunnels[i].state = TunnelState::Inactive;
                proof {
                    lemma_by_id(before, i as int);
                    lemma_replace(before, tunnels@, i as int);
                }
            },
            None => {},
        }
        self.tunnels = tunnels;
        asked
    }

    /// Takes the senders out of all tunnels, and marks the tunnels as stopped if `stop` is set.
    fn take_senders(tunnels: &mut Vec<TunnelProcess>, stop: bool) -> (r: Vec<
        (String, mpsc::Sender<()>),
    >)
        requires
            distinct(old(tunnels)@),
        ensures
            distinct(final(tunnels)@),
            by_id(final(tunnels)@) == by_id(old(tunnels)@).map_values(
                |p: ProcessView|
                    if stop {
                        stopped(p)
                    } else {
                        released(p)
                    },
            ),
            lists(
                r@.map_values(|e: (String, mpsc::Sender<()>)| (e.0@, e.1)),
                senders(by_id(old(tunnels)@)),
            ),
    {
        let ghost before = tunnels@;
        let mut out: Vec<(String, mpsc::Sender<()>)> = Vec::new();
        let mut i: usize = 0;
        while i < tunnels.len()
            invariant
                i <= tunnels@.len(),
                tunnels@.len() == before.len(),
                forall|j: int|
                    0 <= j < i ==> (#[trigger] tunnels@[j])@ == if stop {
                        stopped(before[j]@)
                    } else {
                        released(before[j]@)
                    },
                forall|j: int| i <= j < tunnels@.len() ==> #[trigger] tunnels@[j] == before[j],
                forall|k: int|
                    0 <= k < out@.len() ==> exists|j: int|
                        0 <= j < i && (#[trigger] before[j]).preset_id@ == (
                        #[trigger] out@[k]).0@ && before[j].child_tx == Some(out@[k].1),
                forall|j: int|
                    0 <= j < i && (#[trigger] before[j]).child_tx is Some ==> exists|k: int|
                        0 <= k < out@.len() && (#[trigger] out@[k]).0@ == before[j].preset_id@,
                distinct(before),
                forall|k: int, l: int|
                    0 <= k < l < out@.len() ==> (#[trigger] out@[k]).0@ != (
                    #[trigger] out@[l]).0@,
            decreases tunnels.len() - i,
        {
            let ghost sent = out@;
            let tx = tunnels[i].child_tx.take();
            if stop {
                tunnels[i].state = TunnelState::Inactive;
            }
            match tx {
                Some(tx) => {
                    out.push((tunnels[i].preset_id.clone(), tx));
                    assert(out@[sent.len() as int].0@ == before[i as int].preset_id@);
                    assert(forall|k: int| 0 <= k < sent.len() ==> out@[k] == sent[k]);
                },
                None => {},
            }
            i += 1;
        }
        proof {
            lemma_map_all(
                before,
                tunnels@,
                |p: ProcessView|
                    if stop {
                        stopped(p)
                    } else {
                        released(p)
                    },
            );
            let pairs = out@.map_values(|e: (String, mpsc::Sender<()>)| (e.0@, e.1));
            let m = senders(by_id(before));
            assert forall|k: int| 0 <= k < pairs.len() implies m.contains_key(
                (#[trigger] pairs[k]).0,
            ) && m[pairs[k].0] == pairs[k].1 by {
                assert(pairs[k].0 == out@[k].0@);
                let j = choose|j: int|
                    0 <= j < before.len() && (#[trigger] before[j]).preset_id@ == out@[k].0@
                        && before[j].child_tx == Some(out@[k].1);
                lemma_by_id(before, j);
            }
            assert forall|id: Seq<char>| #[trigger] m.contains_key(id) implies exists|k: int|
                0 <= k < pairs.len() && (#[trigger] pairs[k]).0 == id by {
                let j = choose|j: int| holds(before, id, j);
                lemma_by_id(before, j);
                assert(before[j].child_tx is Some);
                let k = choose|k: int|
                    0 <= k < out@.len() && (#[trigger] out@[k]).0@ == before[j].preset_id@;
                assert(pairs[k].0 == id);
            }
            assert forall|k: int, l: int| 0 <= k < l < pairs.len() implies (
            #[trigger] pairs[k]).0 != (#[trigger] pairs[l]).0 by {
                assert(out@[k].0@ != out@[l].0@);
            }
        }
        out
    }

    /// Marks every tunnel as stopped. Returns, for each that can still be asked, its preset and
    /// where its monitor is asked to stop.
    pub fn stop_all_tunnels(&mut self) -> (r: Vec<(String, mpsc::Sender<()>)>)
        ensures
            final(self)@ == all_stopped(old(self)@),
            lists(
                r@.map_values(|e: (String, mpsc::Sender<()>)| (e.0@, e.1)),
                senders(old(self)@),
            ),
    {
        proof {
            use_type_invariant(&*self);
        }
        let mut tunnels: Vec<TunnelProcess> = Vec::new();
        std::mem::swap(&mut tunnels, &mut self.tunnels);
        let r = Self::take_senders(&mut tunnels, true);
        self.tunnels = tunnels;
        assert(self@ =~= all_stopped(old(self)@));
        r
    }

    /// Lets go of every monitor and keeps the states as they are. Returns, for each that can
    /// still be asked, its preset and where its monitor is asked to stop.
    pub fn release_all(&mut self) -> (r: Vec<(String, mpsc::Sender<()>)>)
        ensures
            final(self)@ == all_released(old(self)@),
            lists(
                r@.map_values(|e: (String, mpsc::Sender<()>)| (e.0@, e.1)),
                senders(old(self)@),
            ),
    {
        proof {
            use_type_invariant(&*self);
        }
        let mut tunnels: Vec<TunnelProcess> = Vec::new();
        std::mem::swap(&mut tunnels, &mut self.tunnels);
        let r = Self::take_senders(&mut tunnels, false);
        self.tunnels = tunnels;
        assert(self@ =~= all_released(old(self)@));
        r
    }

    /// The state of each tunnel, with its preset.
    pub fn get_tunnel_states(&self) -> (r: Vec<(String, TunnelState)>)
        ensures
            lists(
                r@.map_values(|e: (String, TunnelState)| (e.0@, e.1@)),
                states(self@),
            ),
    {
        proof {
            use_type_invariant(self);
        }
        let mut out: Vec<(String, TunnelState)> = Vec::new();
        let mut i: usize = 0;
        while i < self.tunnels.len()
            invariant
                i <= self.tunnels@.len(),
                out@.len() == i,
                forall|j: int|
                    0 <= j < i ==> (#[trigger] out@[j]).0@ == self.tunnels@[j].preset_id@
                        && out@[j].1@ == self.tunnels@[j].state@,
            decreases self.tunnels.len() - i,
        {
            out.push((self.tunnels[i].preset_id.clone(), self.tunnels[i].state.clone()));
            i += 1;
        }
        proof {
            let pairs = out@.map_values(|e: (String, TunnelState)| (e.0@, e.1@));
            let m = states(self@);
            assert forall|k: int| 0 <= k < pairs.len() implies m.contains_key(
                (#[trigger] pairs[k]).0,
            ) && m[pairs[k].0] == pairs[k].1 by {
                lemma_by_id(self.tunnels@, k);
            }
            assert forall|id: Seq<char>| #[trigger] m.contains_key(id) implies exists|k: int|
                0 <= k < pairs.len() && (#[trigger] pairs[k]).0 == id by {
                let j = choose|j: int| holds(self.tunnels@, id, j);
                assert(pairs[j].0 == id);
            }
            assert forall|k: int, l: int| 0 <= k < l < pairs.len() implies (
            #[trigger] pairs[k]).0 != (#[trigger] pairs[l]).0 by {
                assert(self.tunnels@[k].preset_id@ != self.tunnels@[l].preset_id@);
            }
        }
        out
    }

    /// Tells whether some tunnel is open.
    pub fn has_active(&self) -> (r: bool)
        ensures
            r == any_active(self@),
    {
        proof {
            use_type_invariant(self);
        }
        let mut i: usize = 0;
        while i < self.tunnels.len()
            invariant
                i <= self.tunnels@.len(),
                distinct(self.tunnels@),
                forall|j: int| 0 <= j < i ==> !((#[trigger] self.tunnels@[j]).state@ is Active),
            decreases self.tunnels.len() - i,
        {
            if self.tunnels[i].state.is_active() {
                proof {
                    lemma_by_id(self.tunnels@, i as int);
                    assert(self@.contains_key(self.tunnels@[i as int].preset_id@));
                }
                return true;
            }
            i += 1;
        }
        proof {
            assert forall|id: Seq<char>| #[trigger] self@.contains_key(id) implies !(
            self@[id].state is Active) by {
                let j = choose|j: int| holds(self.tunnels@, id, j);
                lemma_by_id(self.tunnels@, j);
            }
        }
        false
    }

    /// The icon that the tray shows: the active one as long as some tunnel is open.
    pub fn tray_icon(&self) -> (r: TrayIcon)
        ensures
            r == TrayIcon::Active <==> any_active(self@),
            r == TrayIcon::Idle <==> !any_active(self@),
    {
        if self.has_active() {
            TrayIcon::Active
        } else {
            TrayIcon::Idle
        }
    }
}

/// Each tunnel is found under its own preset.
pub proof fn lemma_keyed_by_preset(state: AppState, id: Seq<char>)
    requires
        state@.contains_key(id),
    ensures
        state@[id].preset_id == id,
{
    let i = choose|i: int| holds(state.tunnels@, id, i);
    assert(holds(state.tunnels@, id, i));
}

/// A state that a started tunnel is given is read back; no other tunnel is touched, and none is
/// added.
pub proof fn lemma_state_is_kept(m: Map<Seq<char>, ProcessView>, id: Seq<char>, state: StateView)
    ensures
        with_state(m, id, state).dom() == m.dom(),
        m.contains_key(id) ==> states(with_state(m, id, state))[id] == state,
        senders(with_state(m, id, state)) == senders(m),
        forall|other: Seq<char>|
            other != id && m.contains_key(other) ==> with_state(m, id, state)[other] == m[other],
{
    assert(with_state(m, id, state).dom() =~= m.dom());
    assert(senders(with_state(m, id, state)) =~= senders(m));
}

/// A tunnel that was started is shown as connecting, and its monitor is the one that is asked to
/// stop; no other tunnel is touched.
pub proof fn lemma_start(
    m: Map<Seq<char>, ProcessView>,
    id: Seq<char>,
    child_tx: mpsc::Sender<()>,
)
    ensures
        states(with_started(m, id, child_tx)) == states(m).insert(id, StateView::Connecting),
        sender_of(with_started(m, id, child_tx), id) == Some(child_tx),
        forall|other: Seq<char>|
            other != id && m.contains_key(other) ==> with_started(m, id, child_tx)[other]
                == m[other],
{
    assert(states(with_started(m, id, child_tx)) =~= states(m).insert(id, StateView::Connecting));
}

/// A tunnel that was stopped is shown as inactive, its monitor is asked only once, and stopping it
/// again changes nothing; no other tunnel is touched.
pub proof fn lemma_stop(m: Map<Seq<char>, ProcessView>, id: Seq<char>)
    ensures
        m.contains_key(id) ==> states(with_stopped(m, id))[id] == StateView::Inactive,
        sender_of(with_stopped(m, id), id) is None,
        with_stopped(with_stopped(m, id), id) == with_stopped(m, id),
        forall|other: Seq<char>|
            other != id && m.contains_key(other) ==> with_stopped(m, id)[other] == m[other],
{
    assert(with_stopped(with_stopped(m, id), id) =~= with_stopped(m, id));
}

/// After all tunnels were stopped each is shown as inactive, none is open, and no monitor is left
/// to ask.
pub proof fn lemma_stop_all(m: Map<Seq<char>, ProcessView>)
    ensures
        all_stopped(m).dom() == m.dom(),
        forall|id: Seq<char>|
            m.contains_key(id) ==> states(all_stopped(m))[id] == StateView::Inactive,
        !any_active(all_stopped(m)),
        senders(all_stopped(m)) == Map::<Seq<char>, mpsc::Sender<()>>::empty(),
        all_stopped(all_stopped(m)) == all_stopped(m),
{
    assert(all_stopped(m).dom() =~= m.dom());
    assert(senders(all_stopped(m)) =~= Map::<Seq<char>, mpsc::Sender<()>>::empty());
    assert(all_stopped(all_stopped(m)) =~= all_stopped(m));
}

/// Stopping all tunnels does to each what stopping it alone does.
pub proof fn lemma_stop_all_stops_each(m: Map<Seq<char>, ProcessView>, id: Seq<char>)
    requires
        m.contains_key(id),
    ensures
        all_stopped(m)[id] == with_stopped(m, id)[id],
        senders(m).contains_key(id) <==> sender_of(m, id) is Some,
        senders(m).contains_key(id) ==> sender_of(m, id) == Some(senders(m)[id]),
{
}

/// After all monitors were let go none is left to ask, and every tunnel is shown as before.
pub proof fn lemma_release_all(m: Map<Seq<char>, ProcessView>)
    ensures
        states(all_released(m)) == states(m),
        any_active(all_released(m)) == any_active(m),
        senders(all_released(m)) == Map::<Seq<char>, mpsc::Sender<()>>::empty(),
{
    assert(states(all_released(m)) =~= states(m));
    assert(senders(all_released(m)) =~= Map::<Seq<char>, mpsc::Sender<()>>::empty());
    if any_active(m) {
        let id = choose|id: Seq<char>| #[trigger] m.contains_key(id) && m[id].state is Active;
        assert(all_released(m).contains_key(id));
    }
    if any_active(all_released(m)) {
        let id = choose|id: Seq<char>| #[trigger]
            all_released(m).contains_key(id) && all_released(m)[id].state is Active;
        assert(m.contains_key(id));
    }
}

/// One open tunnel is enough, whatever the others are: as soon as a started tunnel is given an
/// address, the tray shows the active icon.
pub proof fn lemma_one_open_tunnel_is_enough(
    m: Map<Seq<char>, ProcessView>,
    id: Seq<char>,
    url: Seq<char>,
)
    requires
        m.contains_key(id),
    ensures
        any_active(with_state(m, id, StateView::Active(url))),
        m[id].state == StateView::Active(url) ==> any_active(m),
{
    assert(with_state(m, id, StateView::Active(url)).contains_key(id));
}

/// Where no tunnel is open, the tray shows the idle icon.
pub proof fn lemma_idle_without_open_tunnels(m: Map<Seq<char>, ProcessView>)
    requires
        forall|id: Seq<char>| #[trigger]
            m.contains_key(id) ==> {
                ||| m[id].state is Inactive
                ||| m[id].state is Connecting
                ||| m[id].state is Error
            },
    ensures
        !any_active(m),
{
}

/// Opening a tunnel can only turn the icon active; what happens to a tunnel that is not open and
/// stays so does not change the icon.
pub proof fn lemma_icon_follows_open_tunnels(
    m: Map<Seq<char>, ProcessView>,
    id: Seq<char>,
    state: StateView,
)
    requires
        m.contains_key(id),
        !(m[id].state is Active),
    ensures
        any_active(with_state(m, id, state)) <==> any_active(m) || state is Active,
{
    let after = with_state(m, id, state);
    assert(after.contains_key(id));
    if any_active(m) {
        let open = choose|open: Seq<char>| #[trigger] m.contains_key(open) && m[open].state is Active;
        assert(after.contains_key(open) && after[open] == m[open]);
    }
    if any_active(after) && !(state is Active) {
        let open = choose|open: Seq<char>| #[trigger]
            after.contains_key(open) && after[open].state is Active;
        assert(m.contains_key(open) && after[open] == m[open]);
    }
}

/// What giving a tunnel a state changes: its state and nothing else; a tunnel that was never
/// started is not invented.
pub proof fn lemma_update_changes_one_state(
    m: Map<Seq<char>, ProcessView>,
    id: Seq<char>,
    state: StateView,
    other: Seq<char>,
)
    ensures
        ({
            let after = with_state(m, id, state);
            &&& after.contains_key(other) <==> m.contains_key(other)
            &&& m.contains_key(id) ==> after[id].state == state && after[id].child_tx
                == m[id].child_tx && after[id].preset_id == m[id].preset_id
            &&& m.contains_key(other) && other != id ==> after[other] == m[other]
        }),
{
}

/// What starting a tunnel changes: it is there, connecting, under its own preset and with its own
/// monitor, whatever was there before; no other tunnel comes, goes or changes.
pub proof fn lemma_start_puts_one_tunnel(
    m: Map<Seq<char>, ProcessView>,
    id: Seq<char>,
    child_tx: mpsc::Sender<()>,
    other: Seq<char>,
)
    ensures
        ({
            let after = with_started(m, id, child_tx);
            &&& after.contains_key(id)
            &&& after[id].preset_id == id
            &&& after[id].state == StateView::Connecting
            &&& after[id].child_tx == Some(child_tx)
            &&& other != id ==> (after.contains_key(other) <==> m.contains_key(other))
            &&& other != id && m.contains_key(other) ==> after[other] == m[other]
        }),
{
}

/// What stopping a tunnel changes: it is inactive and its monitor is let go, whatever its state
/// was; it stays listed, and no other tunnel comes, goes or changes.
pub proof fn lemma_stop_changes_one_tunnel(
    m: Map<Seq<char>, ProcessView>,
    id: Seq<char>,
    other: Seq<char>,
)
    ensures
        ({
            let after = with_stopped(m, id);
            &&& after.contains_key(other) <==> m.contains_key(other)
            &&& m.contains_key(id) ==> after[id].state == StateView::Inactive
                && after[id].child_tx is None && after[id].preset_id == m[id].preset_id
            &&& m.contains_key(other) && other != id ==> after[other] == m[other]
        }),
{
}

/// The monitor that is asked to stop is the one that the tunnel was started with, as long as it
/// was not asked yet.
pub proof fn lemma_who_is_asked(
    m: Map<Seq<char>, ProcessView>,
    id: Seq<char>,
    child_tx: mpsc::Sender<()>,
    state: StateView,
)
    ensures
        sender_of(with_state(with_started(m, id, child_tx), id, state), id) == Some(child_tx),
        m.contains_key(id) ==> sender_of(m, id) == m[id].child_tx,
        !m.contains_key(id) ==> sender_of(m, id) is None,
        sender_of(with_stopped(with_started(m, id, child_tx), id), id) is None,
{
}

/// What stopping and what letting go of all tunnels do to each of them.
pub proof fn lemma_all_means_each(m: Map<Seq<char>, ProcessView>, id: Seq<char>)
    ensures
        all_stopped(m).contains_key(id) <==> m.contains_key(id),
        all_released(m).contains_key(id) <==> m.contains_key(id),
        m.contains_key(id) ==> {
            &&& all_stopped(m)[id].state == StateView::Inactive
            &&& all_stopped(m)[id].child_tx is None
            &&& all_stopped(m)[id].preset_id == m[id].preset_id
            &&& all_released(m)[id].state == m[id].state
            &&& all_released(m)[id].child_tx is None
            &&& all_released(m)[id].preset_id == m[id].preset_id
        },
{
}

/// Every tunnel has its state listed, and every monitor that can still be asked is asked; nothing
/// else is.
pub proof fn lemma_what_is_listed(m: Map<Seq<char>, ProcessView>, id: Seq<char>)
    ensures
        states(m).contains_key(id) <==> m.contains_key(id),
        m.contains_key(id) ==> states(m)[id] == m[id].state,
        senders(m).contains_key(id) <==> m.contains_key(id) && m[id].child_tx is Some,
        m.contains_key(id) && m[id].child_tx is Some ==> Some(senders(m)[id]) == m[id].child_tx,
{
}

/// A list holds just the entries of what it lists, each of them once: an entry is at one place,
/// and there are no further places.
pub proof fn lemma_lists_each_once<V>(
    pairs: Seq<(Seq<char>, V)>,
    m: Map<Seq<char>, V>,
    id: Seq<char>,
)
    requires
        lists(pairs, m),
    ensures
        m.contains_key(id) <==> pairs.contains((id, m[id])),
        forall|i: int, j: int|
            0 <= i < pairs.len() && 0 <= j < pairs.len() && (#[trigger] pairs[i]).0 == id && (
            #[trigger] pairs[j]).0 == id ==> i == j && pairs[i].1 == m[id],
        forall|i: int| 0 <= i < pairs.len() ==> m.contains_key((#[trigger] pairs[i]).0),
{
    if m.contains_key(id) {
        let i = choose|i: int| 0 <= i < pairs.len() && (#[trigger] pairs[i]).0 == id;
        assert(pairs[i] == (id, m[id]));
    }
    if pairs.contains((id, m[id])) {
        let i = choose|i: int| 0 <= i < pairs.len() && pairs[i] == (id, m[id]);
        assert(m.contains_key(pairs[i].0));
    }
}

/// The user interface listens for changes under this name.
pub proof fn lemma_event_name()
    ensures
        STATE_CHANGE_EVENT@ == "tunnel-state-changed"@,
{
}

} // verus!
