use vstd::prelude::*;
use std::collections::VecDeque;

verus! {

/// How many console lines an instance keeps for replay.
pub const BACKLOG_CAPACITY: usize = 500;

/// The most recent lines of `history`, at most `BACKLOG_CAPACITY` of them,
/// oldest first.
pub open spec fn recent(history: Seq<String>) -> Seq<String> {
    if history.len() <= BACKLOG_CAPACITY {
        history
    } else {
        history.subrange(history.len() - BACKLOG_CAPACITY, history.len() as int)
    }
}

/// Appending a line to the history appends it to the recent window, which
/// drops its oldest line once full.
pub proof fn lemma_recent_push(history: Seq<String>, line: String)
    ensures
        recent(history.push(line)) == if recent(history).len() < BACKLOG_CAPACITY {
            recent(history).push(line)
        } else {
            recent(history).subrange(1, BACKLOG_CAPACITY as int).push(line)
        },
{
    let h2 = history.push(line);
    if history.len() < BACKLOG_CAPACITY {
        assert(recent(h2) =~= recent(history).push(line));
    } else {
        assert(recent(h2) =~= recent(history).subrange(1, BACKLOG_CAPACITY as int).push(line));
    }
}

/// A subscriber that attaches after `earlier` was emitted is handed the most
/// recent lines of `earlier`, oldest first, at most `BACKLOG_CAPACITY` of
/// them; followed by the `live` lines emitted after it attached, this is a
/// contiguous stretch of what a subscriber attached from the start sees, so
/// nothing is skipped or repeated.
pub proof fn lemma_replay_then_live(earlier: Seq<String>, live: Seq<String>)
    ensures
        recent(earlier).len() == if earlier.len() < BACKLOG_CAPACITY {
            earlier.len()
        } else {
            BACKLOG_CAPACITY as nat
        },
        recent(earlier) + live == (earlier + live).subrange(
            earlier.len() - recent(earlier).len(),
            (earlier.len() + live.len()) as int,
        ),
{
    let all = earlier + live;
    let start = earlier.len() - recent(earlier).len();
    assert(recent(earlier) + live =~= all.subrange(start, (earlier.len() + live.len()) as int));
}

/// The bounded, replayable history of an instance's console output.
///
/// Its view is every line ever appended, in arrival order; it holds the
/// most recent `BACKLOG_CAPACITY` of them.
pub struct ConsoleBacklog {
    lines: VecDeque<String>,
    history: Ghost<Seq<String>>,
}

impl View for ConsoleBacklog {
    type V = Seq<String>;

    closed spec fn view(&self) -> Seq<String> {
        self.history@
    }
}

impl ConsoleBacklog {
    /// The kept lines are the recent window of the history.
    pub closed spec fn wf(&self) -> bool {
        self.lines@ == recent(self.history@)
    }

    /// An empty backlog.
    pub fn new() -> (r: ConsoleBacklog)
        ensures
            r.wf(),
            r@ == Seq::<String>::empty(),
    {
        ConsoleBacklog { lines: VecDeque::new(), history: Ghost(Seq::empty()) }
    }

    /// Appends a line, evicting the oldest kept line once the backlog is full.
    pub fn push_line(&mut self, line: String)
        requires
            old(self).wf(),
        ensures
            final(self).wf(),
            final(self)@ == old(self)@.push(line),
    {
        proof {
            lemma_recent_push(self.history@, line);
        }
        let ghost before = self.lines@;
        assert(before.len() <= BACKLOG_CAPACITY);
        self.lines.push_back(line);
        if self.lines.len() > BACKLOG_CAPACITY {
            self.lines.pop_front();
            assert(self.lines@ =~= before.subrange(1, BACKLOG_CAPACITY as int).push(line));
        }
        self.history = Ghost(self.history@.push(line));
    }

    /// How many lines are kept.
    pub fn len(&self) -> (r: usize)
        requires
            self.wf(),
        ensures
            r == recent(self@).len(),
    {
        self.lines.len()
    }

    /// The kept lines, oldest first: what a newly attached subscriber is
    /// handed before the live lines.
    pub fn replay(&self) -> (r: Vec<String>)
        requires
            self.wf(),
        ensures
            r@ == recent(self@),
    {
        let mut out: Vec<String> = Vec::new();
        let mut i: usize = 0;
        while i < self.lines.len()
            invariant
                i <= self.lines@.len(),
                out@ == self.lines@.subrange(0, i as int),
            decreases self.lines@.len() - i,
        {
            out.push(self.lines[i].clone());
            i = i + 1;
            assert(out@ =~= self.lines@.subrange(0, i as int));
        }
        assert(out@ =~= self.lines@);
        out
    }
}

} // verus!
