use vstd::prelude::*;
use crate::command::Command;
use crate::percent::Percent;

verus! {

/// Where a worker stands in its protocol with the controller.
#[derive(Clone, Copy, Debug, PartialEq, Eq, Structural)]
pub enum WorkerState {
    /// Blocked until the controller's `Start`.
    AwaitingStart,
    /// Started, blocked until the first load command.
    AwaitingFirstLoad,
    /// Commanded to zero load: blocked until the next command.
    Idle,
    /// Running busy/sleep cycles at the given load.
    Busy(Percent),
    /// The channel was closed: the worker has finished.
    Terminated,
}

/// What the worker's channel handed over.
#[derive(Clone, Copy, Debug, PartialEq, Eq, Structural)]
pub enum Delivery {
    /// A command arrived.
    Received(Command),
    /// A non-blocking check found nothing waiting.
    Empty,
    /// The controller's side of the channel is gone.
    Disconnected,
}

/// A message that breaks the protocol: a bug on the controller's side.
#[derive(Clone, Copy, Debug, PartialEq, Eq, Structural)]
pub enum ProtocolViolation {
    /// The channel closed before `Start` arrived.
    ClosedBeforeStart,
    /// The first message was not `Start`.
    FirstNotStart,
    /// `Start` arrived a second time.
    RepeatedStart,
    /// A load above 100% was commanded.
    LoadOutOfRange,
}

/// What the worker does next in a given state.
#[derive(Clone, Copy, Debug, PartialEq, Eq, Structural)]
pub enum WorkerAction {
    /// Block on the channel until something arrives.
    Receive,
    /// Do one unit of busy work, sleep for the rest of the cycle, then check
    /// the channel without blocking.
    Cycle(Percent),
    /// Stop the worker.
    Exit,
}

/// A reachable state: a busy worker runs at a load in (0, 100].
pub open spec fn state_wf(s: WorkerState) -> bool {
    match s {
        WorkerState::Busy(p) => 0 < p.0 <= 100,
        _ => true,
    }
}

/// The state that a load command leads to.
pub open spec fn load_state(p: Percent) -> Result<WorkerState, ProtocolViolation> {
    if p.0 > 100 {
        Err(ProtocolViolation::LoadOutOfRange)
    } else if p.0 == 0 {
        Ok(WorkerState::Idle)
    } else {
        Ok(WorkerState::Busy(p))
    }
}

/// The worker's protocol: the state after a delivery, or the violation it reveals.
pub open spec fn transition(s: WorkerState, d: Delivery) -> Result<WorkerState, ProtocolViolation> {
    match s {
        WorkerState::AwaitingStart => match d {
            Delivery::Received(Command::Start) => Ok(WorkerState::AwaitingFirstLoad),
            Delivery::Received(Command::SetLoad(_)) => Err(ProtocolViolation::FirstNotStart),
            Delivery::Empty => Ok(s),
            Delivery::Disconnected => Err(ProtocolViolation::ClosedBeforeStart),
        },
        WorkerState::Terminated => Ok(WorkerState::Terminated),
        _ => match d {
            Delivery::Received(Command::Start) => Err(ProtocolViolation::RepeatedStart),
            Delivery::Received(Command::SetLoad(p)) => load_state(p),
            Delivery::Empty => Ok(s),
            Delivery::Disconnected => Ok(WorkerState::Terminated),
        },
    }
}

/// What a worker does in each state.
pub open spec fn action_spec(s: WorkerState) -> WorkerAction {
    match s {
        WorkerState::Busy(p) => WorkerAction::Cycle(p),
        WorkerState::Terminated => WorkerAction::Exit,
        _ => WorkerAction::Receive,
    }
}

impl WorkerState {
    /// A freshly spawned worker.
    pub fn new() -> (r: WorkerState)
        ensures
            r == WorkerState::AwaitingStart,
    {
        WorkerState::AwaitingStart
    }

    /// The state after `d`, or the protocol violation that `d` reveals.
    pub fn next(self, d: Delivery) -> (r: Result<WorkerState, ProtocolViolation>)
        ensures
            r == transition(self, d),
            state_wf(self) ==> (r matches Ok(t) ==> state_wf(t)),
    {
        match self {
            WorkerState::AwaitingStart => match d {
                Delivery::Received(Command::Start) => Ok(WorkerState::AwaitingFirstLoad),
                Delivery::Received(Command::SetLoad(_)) => Err(ProtocolViolation::FirstNotStart),
                Delivery::Empty => Ok(self),
                Delivery::Disconnected => Err(ProtocolViolation::ClosedBeforeStart),
            },
            WorkerState::Terminated => Ok(WorkerState::Terminated),
            _ => match d {
                Delivery::Received(Command::Start) => Err(ProtocolViolation::RepeatedStart),
                Delivery::Received(Command::SetLoad(p)) => {
                    if p.0 > 100 {
                        Err(ProtocolViolation::LoadOutOfRange)
                    } else if p.0 == 0 {
                        Ok(WorkerState::Idle)
                    } else {
                        Ok(WorkerState::Busy(p))
                    }
                },
                Delivery::Empty => Ok(self),
                Delivery::Disconnected => Ok(WorkerState::Terminated),
            },
        }
    }

    /// What the worker does in this state.
    pub fn action(self) -> (r: WorkerAction)
        ensures
            r == action_spec(self),
    {
        match self {
            WorkerState::Busy(p) => WorkerAction::Cycle(p),
            WorkerState::Terminated => WorkerAction::Exit,
            _ => WorkerAction::Receive,
        }
    }
}

/// Nanoseconds to sleep after `elapsed` nanoseconds of busy work so that the
/// busy share of the whole cycle is `load`: `elapsed * (100 - load) / load`,
/// rounded down.
pub fn sleep_nanos(elapsed: u64, load: Percent) -> (r: u128)
    requires
        0 < load.0 <= 100,
    ensures
        r == elapsed * (100 - load.0) / (load.0 as int),
        load.0 * (elapsed + r) <= 100 * elapsed,
        100 * elapsed < load.0 * (elapsed + r + 1),
{
    let p = load.0 as u128;
    let e = elapsed as u128;
    assert(e * (100 - p) <= 100 * 0xffff_ffff_ffff_ffffu128) by (nonlinear_arith)
        requires
            e <= 0xffff_ffff_ffff_ffffu128,
            p <= 100,
    ;
    let r = e * (100 - p) / p;
    proof {
        let pi = p as int;
        let ei = e as int;
        let ri = r as int;
        let q = ei * (100 - pi);
        assert(pi * ri <= q < pi * ri + pi) by (nonlinear_arith)
            requires
                ri == q / pi,
                pi > 0,
        ;
        assert(pi * (ei + ri) == pi * ei + pi * ri) by (nonlinear_arith);
        assert(pi * (ei + ri + 1) == pi * ei + pi * ri + pi) by (nonlinear_arith);
        assert(q + pi * ei == 100 * ei) by (nonlinear_arith)
            requires
                q == ei * (100 - pi),
        ;
    }
    r
}

/// A zero load puts any started worker to sleep on its channel: it does no
/// busy work until a positive load arrives, and nothing else wakes it into work.
pub proof fn lemma_zero_load_idles(s: WorkerState, d: Delivery)
    requires
        s != WorkerState::AwaitingStart,
        s != WorkerState::Terminated,
    ensures
        transition(s, Delivery::Received(Command::SetLoad(Percent(0)))) == Ok::<
            WorkerState,
            ProtocolViolation,
        >(WorkerState::Idle),
        action_spec(WorkerState::Idle) == WorkerAction::Receive,
        transition(WorkerState::Idle, d) matches Ok(WorkerState::Busy(_))
            ==> d matches Delivery::Received(Command::SetLoad(p)) && p.0 > 0,
{
}

/// A first message other than `Start` is a protocol violation, never ignored.
pub proof fn lemma_first_message_must_be_start(c: Command)
    requires
        c != Command::Start,
    ensures
        transition(WorkerState::AwaitingStart, Delivery::Received(c)) == Err::<
            WorkerState,
            ProtocolViolation,
        >(ProtocolViolation::FirstNotStart),
{
}

} // verus!
