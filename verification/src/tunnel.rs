//! The state of one tunnel.
use vstd::prelude::*;

use tokio::sync::mpsc;
use vstd::std_specs::cmp::PartialEqSpec;

verus! {

/// The sending half of a bounded channel, `tokio::sync::mpsc::Sender`. It is carried as it is:
/// nothing is claimed of what it holds.
#[verifier::external_type_specification]
#[verifier::external_body]
#[verifier::reject_recursive_types(T)]
pub struct ExSender<T>(tokio::sync::mpsc::Sender<T>);

/// What the user is shown of a tunnel.
#[derive(Debug)]
pub enum TunnelState {
    /// No process runs for the tunnel.
    Inactive,
    /// The tunnel is being set up.
    Connecting,
    /// The tunnel is open under this address.
    Active(String),
    /// The tunnel was given up, for this reason.
    Error(String),
}

/// The mathematical value of a [`TunnelState`].
pub enum StateView {
    Inactive,
    Connecting,
    Active(Seq<char>),
    Error(Seq<char>),
}

impl View for TunnelState {
    type V = StateView;

    open spec fn view(&self) -> StateView {
        match self {
            TunnelState::Inactive => StateView::Inactive,
            TunnelState::Connecting => StateView::Connecting,
            TunnelState::Active(url) => StateView::Active(url@),
            TunnelState::Error(msg) => StateView::Error(msg@),
        }
    }
}

impl Clone for TunnelState {
    fn clone(&self) -> (r: Self)
        ensures
            r@ == self@,
    {
        match self {
            TunnelState::Inactive => TunnelState::Inactive,
            TunnelState::Connecting => TunnelState::Connecting,
            TunnelState::Active(url) => TunnelState::Active(url.clone()),
            TunnelState::Error(msg) => TunnelState::Error(msg.clone()),
        }
    }
}

impl PartialEq for TunnelState {
    fn eq(&self, other: &Self) -> (r: bool) {
        match (self, other) {
            (TunnelState::Inactive, TunnelState::Inactive) => true,
            (TunnelState::Connecting, TunnelState::Connecting) => true,
            (TunnelState::Active(a), TunnelState::Active(b)) => *a == *b,
            (TunnelState::Error(a), TunnelState::Error(b)) => *a == *b,
            _ => false,
        }
    }
}

impl vstd::std_specs::cmp::PartialEqSpecImpl for TunnelState {
    open spec fn obeys_eq_spec() -> bool {
        true
    }

    open spec fn eq_spec(&self, other: &Self) -> bool {
        self@ == other@
    }
}

impl TunnelState {
    /// Tells whether the tunnel is open.
    pub fn is_active(&self) -> (r: bool)
        ensures
            r == (self@ is Active),
    {
        match self {
            TunnelState::Active(_) => true,
            _ => false,
        }
    }
}

/// A tunnel that was started: its state, and how to ask its monitor to stop.
#[derive(Debug)]
pub struct TunnelProcess {
    /// The preset that the tunnel was started from.
    pub preset_id: String,
    /// What the user is shown.
    pub state: TunnelState,
    /// Where a request to stop is sent, until one was made.
    pub child_tx: Option<mpsc::Sender<()>>,
}

/// The mathematical value of a [`TunnelProcess`].
pub struct ProcessView {
    pub preset_id: Seq<char>,
    pub state: StateView,
    pub child_tx: Option<mpsc::Sender<()>>,
}

impl View for TunnelProcess {
    type V = ProcessView;

    open spec fn view(&self) -> ProcessView {
        ProcessView {
            preset_id: self.preset_id@,
            state: self.state@,
            child_tx: self.child_tx,
        }
    }
}

/// The value of a state tells the four kinds apart and holds the address or the reason.
pub proof fn lemma_state_values(words: String)
    ensures
        TunnelState::Inactive@ == StateView::Inactive,
        TunnelState::Connecting@ == StateView::Connecting,
        TunnelState::Active(words)@ == StateView::Active(words@),
        TunnelState::Error(words)@ == StateView::Error(words@),
{
}

/// Two states are equal where they are of one kind and hold the same words.
pub proof fn lemma_equal_states(a: TunnelState, b: TunnelState)
    ensures
        a.eq_spec(&b) <==> match (a, b) {
            (TunnelState::Inactive, TunnelState::Inactive) => true,
            (TunnelState::Connecting, TunnelState::Connecting) => true,
            (TunnelState::Active(x), TunnelState::Active(y)) => x@ == y@,
            (TunnelState::Error(x), TunnelState::Error(y)) => x@ == y@,
            _ => false,
        },
{
}

/// The value of a tunnel holds all of its fields.
pub proof fn lemma_process_values(process: TunnelProcess)
    ensures
        process@.preset_id == process.preset_id@,
        process@.state == process.state@,
        process@.child_tx == process.child_tx,
{
}

} // verus!
