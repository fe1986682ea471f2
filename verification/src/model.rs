//! The mathematical model of the sequencer: its state as plain sequences, and
//! what each operation does to the state and sends to the sink.

use vstd::prelude::*;

verus! {

/// What is held back for one task that is not yet the head.
pub struct Slot {
    /// The bytes rendered for the task and not yet sent to the sink.
    pub bytes: Seq<u8>,
    /// Whether the task has completed.
    pub done: bool,
}

/// A block of bytes that reaches the sink in one piece, with the task it
/// belongs to.
pub struct Shown {
    pub task: nat,
    pub bytes: Seq<u8>,
}

/// The state of a sequencer.
pub struct State {
    /// Whether style changes are rendered as ANSI escape sequences.
    pub ansi: bool,
    /// The number of tasks that have completed and been flushed; also the
    /// index of the task that writes to the sink directly.
    pub head: nat,
    /// The number of tasks begun so far.
    pub started: nat,
    /// The slots of the tasks `head`, `head + 1`, ... as far as any of them
    /// has been reached.
    pub pending: Seq<Slot>,
}

/// An empty slot of a task that has not completed.
pub open spec fn fresh_slot() -> Slot {
    Slot { bytes: Seq::empty(), done: false }
}

/// The number of slots at the front of `pending` that are done, up to the
/// first one that is not.
pub open spec fn done_run(pending: Seq<Slot>) -> nat
    decreases pending.len(),
{
    if pending.len() > 0 && pending[0].done {
        1 + done_run(pending.skip(1))
    } else {
        0
    }
}

/// `done_run` is the index of the first slot that is not done.
pub proof fn lemma_done_run(pending: Seq<Slot>)
    ensures
        done_run(pending) <= pending.len(),
        forall|i: int| 0 <= i < done_run(pending) ==> (#[trigger] pending[i]).done,
        done_run(pending) < pending.len() ==> !pending[done_run(pending) as int].done,
    decreases pending.len(),
{
    if pending.len() > 0 && pending[0].done {
        let rest = pending.skip(1);
        lemma_done_run(rest);
        assert forall|i: int| 0 <= i < done_run(pending) implies (#[trigger] pending[i]).done by {
            if i > 0 {
                assert(rest[i - 1] == pending[i]);
            }
        }
        if done_run(pending) < pending.len() {
            assert(rest[done_run(rest) as int] == pending[done_run(pending) as int]);
        }
    }
}

/// Any index before which every slot is done, and at which the sequence ends
/// or a slot is not done, is `done_run`.
pub proof fn lemma_done_run_is(pending: Seq<Slot>, n: nat)
    requires
        n <= pending.len(),
        forall|i: int| 0 <= i < n ==> (#[trigger] pending[i]).done,
        n < pending.len() ==> !pending[n as int].done,
    ensures
        done_run(pending) == n,
{
    lemma_done_run(pending);
    let m = done_run(pending);
    if m < n {
        assert(pending[m as int].done);
    } else if n < m {
        assert(pending[n as int].done);
    }
}

impl State {
    /// The state of a new sequencer.
    pub open spec fn init(ansi: bool) -> State {
        State { ansi, head: 0, started: 0, pending: Seq::empty() }
    }

    /// What holds of every state that a sequencer reaches: slots exist only
    /// for tasks that were begun, and the head's slot, where it exists, is
    /// empty and not done, because the head writes to the sink directly.
    pub open spec fn wf(self) -> bool {
        &&& self.head + self.pending.len() <= self.started
        &&& self.pending.len() > 0 ==> !self.pending[0].done && self.pending[0].bytes.len() == 0
    }

    /// Whether task `k` has completed.
    pub open spec fn is_done(self, k: nat) -> bool {
        k < self.head || (k - self.head < self.pending.len() && self.pending[k - self.head].done)
    }

    /// Whether task `k` has been begun and has not completed.
    pub open spec fn is_open(self, k: nat) -> bool {
        self.head <= k < self.started && !self.is_done(k)
    }

    /// The bytes held back for task `k`.
    pub open spec fn buffered(self, k: nat) -> Seq<u8> {
        if self.head <= k < self.head + self.pending.len() {
            self.pending[k - self.head].bytes
        } else {
            Seq::empty()
        }
    }

    /// The state after one more task was begun.
    pub open spec fn begin(self) -> State {
        State { started: self.started + 1, ..self }
    }

    /// The state with `pending` grown by fresh slots until it has one for
    /// task `k`.
    pub open spec fn reach(self, k: nat) -> State
        recommends
            self.head <= k,
    {
        if k - self.head < self.pending.len() {
            self
        } else {
            State {
                pending: Seq::new(
                    (k - self.head + 1) as nat,
                    |i: int|
                        if i < self.pending.len() {
                            self.pending[i]
                        } else {
                            fresh_slot()
                        },
                ),
                ..self
            }
        }
    }

    /// The state after task `k` rendered `bytes`: nothing changes where `k` is
    /// the head, else the bytes go to the end of the task's slot.
    pub open spec fn emit(self, k: nat, bytes: Seq<u8>) -> State
        recommends
            self.head <= k,
    {
        if k == self.head {
            self
        } else {
            let grown = self.reach(k);
            let slot = grown.pending[k - self.head];
            State {
                pending: grown.pending.update(
                    k - self.head,
                    Slot { bytes: slot.bytes + bytes, done: slot.done },
                ),
                ..grown
            }
        }
    }

    /// What reaches the sink when task `k` renders `bytes`: the bytes at once
    /// where `k` is the head, else nothing.
    pub open spec fn emit_output(self, k: nat, bytes: Seq<u8>) -> Seq<Shown> {
        if k == self.head {
            seq![Shown { task: k, bytes }]
        } else {
            Seq::empty()
        }
    }

    /// The state in which task `k` is marked done, before anything is
    /// flushed.
    pub open spec fn mark(self, k: nat) -> State
        recommends
            self.head <= k,
    {
        let grown = self.reach(k);
        State {
            pending: grown.pending.update(
                k - self.head,
                Slot { bytes: grown.pending[k - self.head].bytes, done: true },
            ),
            ..grown
        }
    }

    /// The state after task `k` completed: the head moves past every task at
    /// the front that is done, their slots leave, and the slot of the new
    /// head, where there is one, is emptied.
    pub open spec fn finish(self, k: nat) -> State
        recommends
            self.head <= k,
    {
        let marked = self.mark(k);
        let n = done_run(marked.pending);
        let rest = marked.pending.skip(n as int);
        State {
            head: self.head + n,
            pending: if rest.len() > 0 {
                rest.update(0, Slot { bytes: Seq::empty(), done: rest[0].done })
            } else {
                rest
            },
            ..marked
        }
    }

    /// What reaches the sink when task `k` completes: for each task that the
    /// head moves past, in order, what was held back for it; then what was
    /// held back for the new head.
    pub open spec fn finish_output(self, k: nat) -> Seq<Shown>
        recommends
            self.head <= k,
    {
        let marked = self.mark(k);
        let n = done_run(marked.pending);
        let rest = marked.pending.skip(n as int);
        let flushed = Seq::new(
            n,
            |i: int|
                Shown {
                    task: (self.head + i) as nat,
                    bytes: marked.pending[i].bytes,
                },
        );
        if rest.len() > 0 {
            flushed.push(Shown { task: self.head + n, bytes: rest[0].bytes })
        } else {
            flushed
        }
    }
}

} // verus!
