//! The sequencer: it numbers the tasks and holds back what the tasks behind
//! the head have rendered.

use vstd::prelude::*;
use std::collections::VecDeque;
use crate::model::{fresh_slot, Slot, State};
use crate::render::{ansi_buffer, buffer_bytes, buffer_is_ansi, plain_buffer};
use crate::task::Task;

verus! {

/// The stream that a sequencer's output is meant for.
#[derive(Clone, Copy, Debug, PartialEq, Eq, Structural)]
pub enum Target {
    Stdout,
    Stderr,
}

/// What is held back for one task: the buffer that renders its output, and
/// whether the task has completed.
pub struct Output {
    pub(crate) buffer: termcolor::Buffer,
    pub(crate) done: bool,
}

impl View for Output {
    type V = Slot;

    open(crate) spec fn view(&self) -> Slot {
        Slot { bytes: buffer_bytes(self.buffer), done: self.done }
    }
}

impl Output {
    /// Whether the task has completed.
    pub fn is_done(&self) -> (done: bool)
        ensures
            done == self@.done,
    {
        self.done
    }
}

/// Hands out tasks with increasing indices, and holds the output of the tasks
/// that are not yet the head.
pub struct Sequencer {
    pub(crate) target: Target,
    pub(crate) ansi: bool,
    /// Number of tasks popped from the queue.
    pub(crate) finished: usize,
    /// Index of the next started task.
    pub(crate) started: usize,
    pub(crate) pending: VecDeque<Output>,
}

/// Calls `index_mut` of `VecDeque`: the element at `i`, borrowed mutably. The
/// deque changes at `i` only, to what the borrow holds when it ends.
#[verifier::external_body]
pub(crate) fn deque_index_mut<T>(deque: &mut VecDeque<T>, i: usize) -> (element: &mut T)
    requires
        i < old(deque)@.len(),
    ensures
        *element == old(deque)@[i as int],
        final(deque)@ == old(deque)@.update(i as int, *final(element)),
{
    &mut deque[i]
}

impl View for Sequencer {
    type V = State;

    open(crate) spec fn view(&self) -> State {
        State {
            ansi: self.ansi,
            head: self.finished as nat,
            started: self.started as nat,
            pending: Seq::new(self.pending@.len(), |i: int| self.pending@[i]@),
        }
    }
}

impl Sequencer {
    /// Every buffer is of the kind that the sequencer was made with.
    pub open(crate) spec fn inv(&self) -> bool {
        forall|i: int|
            0 <= i < self.pending@.len() ==> buffer_is_ansi((#[trigger] self.pending@[i]).buffer)
                == self.ansi
    }

    /// The sequencer is in a state that its operations keep up.
    pub open spec fn wf(&self) -> bool {
        self.inv() && self@.wf()
    }

    /// The stream that the output is meant for.
    pub open(crate) spec fn spec_target(&self) -> Target {
        self.target
    }

    /// A sequencer for the given stream, which takes ANSI escape sequences if
    /// `ansi` is true: no task was begun and nothing is held back.
    pub fn new(target: Target, ansi: bool) -> (seq: Sequencer)
        ensures
            seq.wf(),
            seq@ == State::init(ansi),
            seq.spec_target() == target,
    {
        let seq = Sequencer { target, ansi, finished: 0, started: 0, pending: VecDeque::new() };
        assert(seq@.pending =~= Seq::empty());
        seq
    }

    /// Makes a sequencer whose output is meant for stdout.
    pub fn stdout(ansi: bool) -> (seq: Sequencer)
        ensures
            seq.wf(),
            seq@ == State::init(ansi),
            seq.spec_target() == Target::Stdout,
    {
        Sequencer::new(Target::Stdout, ansi)
    }

    /// Makes a sequencer whose output is meant for stderr.
    pub fn stderr(ansi: bool) -> (seq: Sequencer)
        ensures
            seq.wf(),
            seq@ == State::init(ansi),
            seq.spec_target() == Target::Stderr,
    {
        Sequencer::new(Target::Stderr, ansi)
    }

    /// Begins the next task: its index is the number of tasks begun before
    /// it. Nothing else changes, and nothing is sent.
    pub fn begin(&mut self) -> (task: Task)
        requires
            old(self).wf(),
            old(self)@.started < usize::MAX,
        ensures
            final(self).wf(),
            final(self)@ == old(self)@.begin(),
            final(self).spec_target() == old(self).spec_target(),
            task.spec_index() == old(self)@.started,
            final(self)@.is_open(task.spec_index() as nat),
    {
        let index = self.started;
        self.started = self.started + 1;
        proof {
            assert(self@.pending =~= old(self)@.pending);
        }
        Task::new(index)
    }

    /// The stream that the output is meant for.
    pub fn target(&self) -> (target: Target)
        ensures
            target == self.spec_target(),
    {
        self.target
    }

    /// Whether style changes are rendered as ANSI escape sequences.
    pub fn supports_color(&self) -> (ansi: bool)
        ensures
            ansi == self@.ansi,
    {
        self.ansi
    }

    /// The index of the head: the number of tasks completed and flushed.
    pub fn finished(&self) -> (head: usize)
        ensures
            head == self@.head,
    {
        self.finished
    }

    /// The number of tasks begun so far.
    pub fn started(&self) -> (started: usize)
        ensures
            started == self@.started,
    {
        self.started
    }

    /// The number of slots that are held at present.
    pub fn pending_len(&self) -> (len: usize)
        ensures
            len == self@.pending.len(),
    {
        self.pending.len()
    }

    /// Whether task `index` has been begun and has not completed: the
    /// condition under which a task may render or complete.
    pub fn is_open(&self, index: usize) -> (open: bool)
        ensures
            open == self@.is_open(index as nat),
    {
        if index < self.finished || index >= self.started {
            return false;
        }
        let offset = index - self.finished;
        if offset < self.pending.len() {
            !self.pending[offset].is_done()
        } else {
            true
        }
    }

    /// Makes sure that `pending` has a slot for task `index`, growing it by
    /// fresh slots where needed, and returns the slot's place in `pending`.
    pub(crate) fn get(&mut self, index: usize) -> (offset: usize)
        requires
            old(self).wf(),
            old(self).finished <= index < old(self).started,
        ensures
            offset == index - old(self).finished,
            offset < final(self).pending@.len(),
            final(self).inv(),
            final(self)@ == old(self)@.reach(index as nat),
            final(self).finished == old(self).finished,
            final(self).target == old(self).target,
    {
        let offset = index - self.finished;
        if offset < self.pending.len() {
            return offset;
        }
        while offset >= self.pending.len()
            invariant
                self.target == old(self).target,
                self.ansi == old(self).ansi,
                self.finished == old(self).finished,
                self.started == old(self).started,
                offset == index - self.finished,
                index < self.started,
                self.pending@.len() <= offset + 1,
                old(self).pending@.len() <= self.pending@.len(),
                old(self).pending@.len() <= offset,
                forall|i: int|
                    0 <= i < old(self).pending@.len() ==> self.pending@[i] == old(
                        self,
                    ).pending@[i],
                forall|i: int|
                    old(self).pending@.len() <= i < self.pending@.len() ==> {
                        &&& (#[trigger] self.pending@[i])@ == fresh_slot()
                        &&& buffer_is_ansi(self.pending@[i].buffer) == self.ansi
                    },
            decreases offset + 1 - self.pending@.len(),
        {
            let buffer = if self.ansi {
                ansi_buffer()
            } else {
                plain_buffer()
            };
            self.pending.push_back(Output { buffer, done: false });
        }
        proof {
            assert(self@.pending =~= old(self)@.reach(index as nat).pending);
        }
        offset
    }
}

} // verus!
