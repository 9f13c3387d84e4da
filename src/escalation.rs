use vstd::prelude::*;

verus! {

/// How many polls the graceful phase waits for the process to exit.
pub const GRACEFUL_POLLS: u32 = 30;

/// How many polls the phase after the termination signal waits.
pub const TERMINATE_POLLS: u32 = 10;

/// Time between two polls for exit, in milliseconds.
pub const POLL_INTERVAL_MS: u64 = 500;

/// Longest a stop waits before it kills the process outright.
pub const STOP_BUDGET_MS: u64 = 20000;

/// The phase of a stop in progress.
#[derive(Debug, Clone, Copy, PartialEq, Eq, Structural)]
pub enum StopStage {
    /// The shutdown command was written; waiting for the process to exit.
    Graceful,
    /// The termination signal was sent; waiting for the process to exit.
    Terminating,
    /// The process is being killed.
    Killing,
    /// The stop is over.
    Done,
}

/// What the caller performs next during a stop.
#[derive(Debug, Clone, Copy, PartialEq, Eq, Structural)]
pub enum StopAction {
    /// Wait `POLL_INTERVAL_MS`, then check whether the process exited.
    Poll,
    /// Send the termination signal.
    SendTerminate,
    /// Kill the process.
    ForceKill,
    /// Remove the instance from the registry; the stop is complete.
    Finish,
}

/// A stop in progress: its phase and how many polls that phase has made.
#[derive(Debug, Clone, Copy, PartialEq, Eq, Structural)]
pub struct StopEscalation {
    pub stage: StopStage,
    pub polls: u32,
}

/// The state after the shutdown command was written.
pub open spec fn initial_escalation() -> StopEscalation {
    StopEscalation { stage: StopStage::Graceful, polls: 0 }
}

/// One step of the escalation, given whether the last poll saw the process
/// exit.
pub open spec fn step_of(s: StopEscalation, exited: bool) -> (StopEscalation, StopAction) {
    let done = StopEscalation { stage: StopStage::Done, polls: 0 };
    if exited {
        (done, StopAction::Finish)
    } else {
        match s.stage {
            StopStage::Graceful => if s.polls < GRACEFUL_POLLS {
                (StopEscalation { stage: StopStage::Graceful, polls: (s.polls + 1) as u32 }, StopAction::Poll)
            } else {
                (StopEscalation { stage: StopStage::Terminating, polls: 0 }, StopAction::SendTerminate)
            },
            StopStage::Terminating => if s.polls < TERMINATE_POLLS {
                (StopEscalation { stage: StopStage::Terminating, polls: (s.polls + 1) as u32 }, StopAction::Poll)
            } else {
                (StopEscalation { stage: StopStage::Killing, polls: 0 }, StopAction::ForceKill)
            },
            StopStage::Killing => (done, StopAction::Finish),
            StopStage::Done => (done, StopAction::Finish),
        }
    }
}

/// Steps left before the escalation is done when the process never exits.
pub open spec fn steps_left(s: StopEscalation) -> nat {
    match s.stage {
        StopStage::Graceful => ((if s.polls < GRACEFUL_POLLS { GRACEFUL_POLLS - s.polls } else { 0 }) + TERMINATE_POLLS + 3) as nat,
        StopStage::Terminating => ((if s.polls < TERMINATE_POLLS { TERMINATE_POLLS - s.polls } else { 0 }) + 2) as nat,
        StopStage::Killing => 1,
        StopStage::Done => 0,
    }
}

/// The actions a stop performs from `s` on when the process never exits.
pub open spec fn unanswered_run(s: StopEscalation) -> Seq<StopAction>
    decreases steps_left(s),
{
    if s.stage == StopStage::Done {
        Seq::empty()
    } else {
        let (next, action) = step_of(s, false);
        seq![action] + unanswered_run(next)
    }
}

/// `n` polls in a row.
pub open spec fn polls(n: nat) -> Seq<StopAction> {
    Seq::new(n, |_i: int| StopAction::Poll)
}

/// How many polls `actions` holds.
pub open spec fn poll_count(actions: Seq<StopAction>) -> nat
    decreases actions.len(),
{
    if actions.len() == 0 {
        0
    } else {
        (if actions[0] == StopAction::Poll { 1nat } else { 0nat }) + poll_count(actions.subrange(1, actions.len() as int))
    }
}

impl StopEscalation {
    /// The escalation right after the shutdown command was written.
    pub fn new() -> (r: StopEscalation)
        ensures
            r == initial_escalation(),
    {
        StopEscalation { stage: StopStage::Graceful, polls: 0 }
    }

    /// The next state and the action to perform, given whether the last
    /// poll saw the process exit. Once it exited the stop finishes at once;
    /// else the graceful phase polls `GRACEFUL_POLLS` times, the termination
    /// signal follows, then `TERMINATE_POLLS` more polls, then a kill.
    pub fn step(&self, exited: bool) -> (r: (StopEscalation, StopAction))
        ensures
            r == step_of(*self, exited),
            exited ==> r.1 == StopAction::Finish,
    {
        let done = StopEscalation { stage: StopStage::Done, polls: 0 };
        if exited {
            return (done, StopAction::Finish);
        }
        match self.stage {
            StopStage::Graceful => if self.polls < GRACEFUL_POLLS {
                (StopEscalation { stage: StopStage::Graceful, polls: self.polls + 1 }, StopAction::Poll)
            } else {
                (StopEscalation { stage: StopStage::Terminating, polls: 0 }, StopAction::SendTerminate)
            },
            StopStage::Terminating => if self.polls < TERMINATE_POLLS {
                (StopEscalation { stage: StopStage::Terminating, polls: self.polls + 1 }, StopAction::Poll)
            } else {
                (StopEscalation { stage: StopStage::Killing, polls: 0 }, StopAction::ForceKill)
            },
            StopStage::Killing => (done, StopAction::Finish),
            StopStage::Done => (done, StopAction::Finish),
        }
    }
}

proof fn lemma_poll_count_concat(a: Seq<StopAction>, b: Seq<StopAction>)
    ensures
        poll_count(a + b) == poll_count(a) + poll_count(b),
    decreases a.len(),
{
    if a.len() == 0 {
        assert(a + b =~= b);
    } else {
        assert((a + b).subrange(1, (a + b).len() as int) =~= a.subrange(1, a.len() as int) + b);
        lemma_poll_count_concat(a.subrange(1, a.len() as int), b);
    }
}

proof fn lemma_poll_count_polls(n: nat)
    ensures
        poll_count(polls(n)) == n,
    decreases n,
{
    if n > 0 {
        assert(polls(n).subrange(1, n as int) =~= polls((n - 1) as nat));
        lemma_poll_count_polls((n - 1) as nat);
    }
}

proof fn lemma_poll_count_single(a: StopAction)
    ensures
        poll_count(seq![a]) == if a == StopAction::Poll { 1nat } else { 0nat },
{
    assert(seq![a].subrange(1, 1) =~= Seq::<StopAction>::empty());
    assert(poll_count(Seq::<StopAction>::empty()) == 0);
    assert(seq![a][0] == a);
}

proof fn lemma_terminating_run(p: u32)
    requires
        p <= TERMINATE_POLLS,
    ensures
        unanswered_run(StopEscalation { stage: StopStage::Terminating, polls: p })
            == polls((TERMINATE_POLLS - p) as nat) + seq![StopAction::ForceKill, StopAction::Finish],
    decreases TERMINATE_POLLS - p,
{
    let s = StopEscalation { stage: StopStage::Terminating, polls: p };
    let killing = StopEscalation { stage: StopStage::Killing, polls: 0 };
    let done = StopEscalation { stage: StopStage::Done, polls: 0 };
    assert(unanswered_run(done) == Seq::<StopAction>::empty());
    assert(unanswered_run(killing) =~= seq![StopAction::Finish]);
    if p < TERMINATE_POLLS {
        lemma_terminating_run((p + 1) as u32);
        assert(unanswered_run(s) =~= polls((TERMINATE_POLLS - p) as nat) + seq![StopAction::ForceKill, StopAction::Finish]);
    } else {
        assert(unanswered_run(s) =~= polls(0) + seq![StopAction::ForceKill, StopAction::Finish]);
    }
}

proof fn lemma_graceful_run(p: u32)
    requires
        p <= GRACEFUL_POLLS,
    ensures
        unanswered_run(StopEscalation { stage: StopStage::Graceful, polls: p })
            == polls((GRACEFUL_POLLS - p) as nat) + seq![StopAction::SendTerminate] + polls(TERMINATE_POLLS as nat)
                + seq![StopAction::ForceKill, StopAction::Finish],
    decreases GRACEFUL_POLLS - p,
{
    let s = StopEscalation { stage: StopStage::Graceful, polls: p };
    let rest = polls(TERMINATE_POLLS as nat) + seq![StopAction::ForceKill, StopAction::Finish];
    lemma_terminating_run(0);
    if p < GRACEFUL_POLLS {
        lemma_graceful_run((p + 1) as u32);
        assert(unanswered_run(s) =~= polls((GRACEFUL_POLLS - p) as nat) + seq![StopAction::SendTerminate] + rest);
    } else {
        assert(unanswered_run(s) =~= polls(0) + seq![StopAction::SendTerminate] + rest);
    }
}

/// A process that answers neither the shutdown command nor the termination
/// signal is still killed: a stop polls `GRACEFUL_POLLS` times, sends the
/// signal, polls `TERMINATE_POLLS` times, kills the process and finishes,
/// having waited `STOP_BUDGET_MS` in all.
pub proof fn lemma_unanswered_stop_is_killed()
    ensures
        unanswered_run(initial_escalation()) == polls(GRACEFUL_POLLS as nat) + seq![StopAction::SendTerminate]
            + polls(TERMINATE_POLLS as nat) + seq![StopAction::ForceKill, StopAction::Finish],
        poll_count(unanswered_run(initial_escalation())) * POLL_INTERVAL_MS == STOP_BUDGET_MS,
        unanswered_run(initial_escalation()).last() == StopAction::Finish,
        unanswered_run(initial_escalation())[unanswered_run(initial_escalation()).len() - 2] == StopAction::ForceKill,
{
    lemma_graceful_run(0);
    let a = polls(GRACEFUL_POLLS as nat);
    let b = seq![StopAction::SendTerminate];
    let c = polls(TERMINATE_POLLS as nat);
    let d = seq![StopAction::ForceKill, StopAction::Finish];
    lemma_poll_count_concat(a + b + c, d);
    lemma_poll_count_concat(a + b, c);
    lemma_poll_count_concat(a, b);
    lemma_poll_count_polls(GRACEFUL_POLLS as nat);
    lemma_poll_count_polls(TERMINATE_POLLS as nat);
    lemma_poll_count_single(StopAction::SendTerminate);
    lemma_poll_count_concat(seq![StopAction::ForceKill], seq![StopAction::Finish]);
    assert(d =~= seq![StopAction::ForceKill] + seq![StopAction::Finish]);
    lemma_poll_count_single(StopAction::ForceKill);
    lemma_poll_count_single(StopAction::Finish);
}

} // verus!
