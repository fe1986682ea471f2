//! The handle through which one task renders its output and completes.

use vstd::prelude::*;
use vstd::string::StringSliceAdditionalSpecFns;
use crate::color::Color;
use crate::model::{lemma_done_run_is, Shown};
use crate::render::{
    ansi_buffer, buffer_bytes, buffer_clear, buffer_contents, buffer_into_bytes, buffer_is_ansi,
    buffer_reset, buffer_set_bold, buffer_set_color, buffer_write, plain_buffer, reset_bytes,
    style_bytes,
};
use crate::sequencer::{deque_index_mut, Sequencer};

verus! {

/// One thing that a task renders: bytes, a style, or a reset of the style.
pub enum Op<'a> {
    Write(&'a [u8]),
    Style { bold: bool, color: Option<Color> },
    Reset,
}

/// The bytes that `op` renders to on a sink that takes ANSI escape sequences
/// (`ansi`) or on one that drops every style change.
pub open spec fn rendered(ansi: bool, op: Op) -> Seq<u8> {
    match op {
        Op::Write(data) => data@,
        Op::Style { bold, color } => style_bytes(ansi, bold, color),
        Op::Reset => reset_bytes(ansi),
    }
}

/// Renders `op` at the end of `buffer`.
pub(crate) fn render(buffer: &mut termcolor::Buffer, op: &Op)
    ensures
        buffer_bytes(*final(buffer)) == buffer_bytes(*old(buffer)) + rendered(
            buffer_is_ansi(*old(buffer)),
            *op,
        ),
        buffer_is_ansi(*final(buffer)) == buffer_is_ansi(*old(buffer)),
{
    match op {
        Op::Write(data) => buffer_write(buffer, data),
        Op::Style { bold, color: None } => buffer_set_bold(buffer, *bold),
        Op::Style { bold, color: Some(color) } => buffer_set_color(buffer, *bold, *color),
        Op::Reset => buffer_reset(buffer),
    }
    proof {
        assert(buffer_bytes(*buffer) =~= buffer_bytes(*old(buffer)) + rendered(
            buffer_is_ansi(*old(buffer)),
            *op,
        ));
    }
}

/// A block of bytes to send to the sink in one piece, with the index of the
/// task that rendered it.
#[derive(Debug)]
pub struct Chunk {
    pub index: usize,
    pub bytes: Vec<u8>,
}

impl View for Chunk {
    type V = Shown;

    open spec fn view(&self) -> Shown {
        Shown { task: self.index as nat, bytes: self.bytes@ }
    }
}

/// The blocks of `chunks`, each as its view.
pub open spec fn shown(chunks: Seq<Chunk>) -> Seq<Shown> {
    Seq::new(chunks.len(), |i: int| chunks[i]@)
}

/// The blocks that a rendering of task `k` sends to the sink: the bytes handed
/// back, as one block of the task, or none.
pub open spec fn sent(k: nat, live: Option<Vec<u8>>) -> Seq<Shown> {
    match live {
        Some(bytes) => seq![Shown { task: k, bytes: bytes@ }],
        None => Seq::empty(),
    }
}

/// Unit of work arranged by a sequencer.
#[derive(Debug)]
pub struct Task(usize);

impl Task {
    /// Index of the task: a counter that begins at 0 and grows by 1 for each
    /// task begun.
    pub closed spec fn spec_index(&self) -> usize {
        self.0
    }

    pub(crate) fn new(index: usize) -> (task: Task)
        ensures
            task.spec_index() == index,
    {
        Task(index)
    }

    /// Index of the task.
    #[verifier::when_used_as_spec(spec_index)]
    pub fn index(&self) -> (index: usize)
        ensures
            index == self.spec_index(),
    {
        self.0
    }

    /// Whether the task is the head, so that what it renders goes to the sink
    /// at once.
    pub fn is_live(&self, seq: &Sequencer) -> (live: bool)
        ensures
            live == (self.spec_index() == seq@.head),
    {
        self.0 == seq.finished
    }

    /// Renders `op` on behalf of the handle. Where the task is the head, the
    /// rendered bytes are returned, to be sent to the sink at once, and the
    /// sequencer stays as it is. Else they go to the end of what is held back
    /// for the task, and nothing is returned.
    pub fn apply(&self, seq: &mut Sequencer, op: Op) -> (live: Option<Vec<u8>>)
        requires
            old(seq).wf(),
            old(seq)@.is_open(self.spec_index() as nat),
        ensures
            final(seq).wf(),
            final(seq).spec_target() == old(seq).spec_target(),
            final(seq)@ == old(seq)@.emit(
                self.spec_index() as nat,
                rendered(old(seq)@.ansi, op),
            ),
            final(seq)@.is_open(self.spec_index() as nat),
            self.spec_index() == old(seq)@.head <==> live is Some,
            live is Some ==> live->Some_0@ == rendered(old(seq)@.ansi, op),
            sent(self.spec_index() as nat, live) == old(seq)@.emit_output(
                self.spec_index() as nat,
                rendered(old(seq)@.ansi, op),
            ),
    {
        if self.is_live(seq) {
            let mut buffer = if seq.ansi {
                ansi_buffer()
            } else {
                plain_buffer()
            };
            render(&mut buffer, &op);
            Some(buffer_into_bytes(buffer))
        } else {
            let offset = seq.get(self.0);
            let slot = deque_index_mut(&mut seq.pending, offset);
            render(&mut slot.buffer, &op);
            proof {
                assert(seq@.pending =~= old(seq)@.emit(
                    self.spec_index() as nat,
                    rendered(old(seq)@.ansi, op),
                ).pending);
            }
            None
        }
    }

    /// Sets the output to appear in bold, uncolored.
    pub fn bold(&self, seq: &mut Sequencer) -> (live: Option<Vec<u8>>)
        requires
            old(seq).wf(),
            old(seq)@.is_open(self.spec_index() as nat),
        ensures
            final(seq).wf(),
            final(seq).spec_target() == old(seq).spec_target(),
            final(seq)@ == old(seq)@.emit(
                self.spec_index() as nat,
                rendered(old(seq)@.ansi, Op::Style { bold: true, color: None }),
            ),
            final(seq)@.is_open(self.spec_index() as nat),
            self.spec_index() == old(seq)@.head <==> live is Some,
            live is Some ==> live->Some_0@ == rendered(old(seq)@.ansi, Op::Style { bold: true, color: None }),
            sent(self.spec_index() as nat, live) == old(seq)@.emit_output(
                self.spec_index() as nat,
                rendered(old(seq)@.ansi, Op::Style { bold: true, color: None }),
            ),
    {
        self.apply(seq, Op::Style { bold: true, color: None })
    }

    /// Sets the output to appear in color, not bold.
    pub fn color(&self, seq: &mut Sequencer, color: Color) -> (live: Option<Vec<u8>>)
        requires
            old(seq).wf(),
            old(seq)@.is_open(self.spec_index() as nat),
        ensures
            final(seq).wf(),
            final(seq).spec_target() == old(seq).spec_target(),
            final(seq)@ == old(seq)@.emit(
                self.spec_index() as nat,
                rendered(old(seq)@.ansi, Op::Style { bold: false, color: Some(color) }),
            ),
            final(seq)@.is_open(self.spec_index() as nat),
            self.spec_index() == old(seq)@.head <==> live is Some,
            live is Some ==> live->Some_0@ == rendered(old(seq)@.ansi, Op::Style { bold: false, color: Some(color) }),
            sent(self.spec_index() as nat, live) == old(seq)@.emit_output(
                self.spec_index() as nat,
                rendered(old(seq)@.ansi, Op::Style { bold: false, color: Some(color) }),
            ),
    {
        self.apply(seq, Op::Style { bold: false, color: Some(color) })
    }

    /// Sets the output to appear bold and colored.
    pub fn bold_color(&self, seq: &mut Sequencer, color: Color) -> (live: Option<Vec<u8>>)
        requires
            old(seq).wf(),
            old(seq)@.is_open(self.spec_index() as nat),
        ensures
            final(seq).wf(),
            final(seq).spec_target() == old(seq).spec_target(),
            final(seq)@ == old(seq)@.emit(
                self.spec_index() as nat,
                rendered(old(seq)@.ansi, Op::Style { bold: true, color: Some(color) }),
            ),
            final(seq)@.is_open(self.spec_index() as nat),
            self.spec_index() == old(seq)@.head <==> live is Some,
            live is Some ==> live->Some_0@ == rendered(old(seq)@.ansi, Op::Style { bold: true, color: Some(color) }),
            sent(self.spec_index() as nat, live) == old(seq)@.emit_output(
                self.spec_index() as nat,
                rendered(old(seq)@.ansi, Op::Style { bold: true, color: Some(color) }),
            ),
    {
        self.apply(seq, Op::Style { bold: true, color: Some(color) })
    }

    /// Sets the output to non-bold, uncolored.
    pub fn reset_color(&self, seq: &mut Sequencer) -> (live: Option<Vec<u8>>)
        requires
            old(seq).wf(),
            old(seq)@.is_open(self.spec_index() as nat),
        ensures
            final(seq).wf(),
            final(seq).spec_target() == old(seq).spec_target(),
            final(seq)@ == old(seq)@.emit(
                self.spec_index() as nat,
                rendered(old(seq)@.ansi, Op::Reset),
            ),
            final(seq)@.is_open(self.spec_index() as nat),
            self.spec_index() == old(seq)@.head <==> live is Some,
            live is Some ==> live->Some_0@ == rendered(old(seq)@.ansi, Op::Reset),
            sent(self.spec_index() as nat, live) == old(seq)@.emit_output(
                self.spec_index() as nat,
                rendered(old(seq)@.ansi, Op::Reset),
            ),
    {
        self.apply(seq, Op::Reset)
    }

    /// Writes text that the caller has formatted.
    pub fn write_fmt(&self, seq: &mut Sequencer, text: &str) -> (live: Option<Vec<u8>>)
        requires
            old(seq).wf(),
            old(seq)@.is_open(self.spec_index() as nat),
        ensures
            final(seq).wf(),
            final(seq).spec_target() == old(seq).spec_target(),
            final(seq)@ == old(seq)@.emit(
                self.spec_index() as nat,
                text.spec_bytes(),
            ),
            final(seq)@.is_open(self.spec_index() as nat),
            self.spec_index() == old(seq)@.head <==> live is Some,
            live is Some ==> live->Some_0@ == text.spec_bytes(),
            sent(self.spec_index() as nat, live) == old(seq)@.emit_output(
                self.spec_index() as nat,
                text.spec_bytes(),
            ),
    {
        self.apply(seq, Op::Write(text.as_bytes()))
    }

    /// Writes all of `data`.
    pub fn write_all(&self, seq: &mut Sequencer, data: &[u8]) -> (live: Option<Vec<u8>>)
        requires
            old(seq).wf(),
            old(seq)@.is_open(self.spec_index() as nat),
        ensures
            final(seq).wf(),
            final(seq).spec_target() == old(seq).spec_target(),
            final(seq)@ == old(seq)@.emit(
                self.spec_index() as nat,
                data@,
            ),
            final(seq)@.is_open(self.spec_index() as nat),
            self.spec_index() == old(seq)@.head <==> live is Some,
            live is Some ==> live->Some_0@ == data@,
            sent(self.spec_index() as nat, live) == old(seq)@.emit_output(
                self.spec_index() as nat,
                data@,
            ),
    {
        self.apply(seq, Op::Write(data))
    }

    /// Completes the task. It is marked done; then the head moves past every
    /// task at the front that is done. For each of these, in order, what was
    /// held back for it is returned as one block. Where a slot is left at the
    /// front, what it holds is returned last, for the new head, and the slot
    /// is emptied, so that nothing is sent twice. The blocks are to be sent
    /// to the sink in the order returned.
    pub fn complete(self, seq: &mut Sequencer) -> (chunks: Vec<Chunk>)
        requires
            old(seq).wf(),
            old(seq)@.is_open(self.spec_index() as nat),
        ensures
            final(seq).wf(),
            final(seq).spec_target() == old(seq).spec_target(),
            final(seq)@ == old(seq)@.finish(self.spec_index() as nat),
            shown(chunks@) == old(seq)@.finish_output(self.spec_index() as nat),
    {
        let offset = seq.get(self.0);
        let slot = deque_index_mut(&mut seq.pending, offset);
        slot.done = true;
        let ghost marked = old(seq)@.mark(self.spec_index() as nat);
        let ghost head = old(seq)@.head;
        proof {
            assert(seq@.pending =~= marked.pending);
        }
        let mut chunks: Vec<Chunk> = Vec::new();
        while seq.pending.len() > 0 && seq.pending[0].is_done()
            invariant
                seq.inv(),
                seq.target == old(seq).target,
                seq.ansi == old(seq).ansi,
                seq.started == old(seq).started,
                marked == old(seq)@.mark(self.spec_index() as nat),
                head == old(seq)@.head,
                chunks@.len() == seq.finished - head,
                chunks@.len() + seq.pending@.len() == marked.pending.len(),
                head <= self.spec_index(),
                seq.finished + seq.pending@.len() <= seq.started,
                seq@.pending == marked.pending.skip(chunks@.len() as int),
                forall|i: int| 0 <= i < chunks@.len() ==> (#[trigger] marked.pending[i]).done,
                forall|i: int|
                    0 <= i < chunks@.len() ==> (#[trigger] chunks@[i])@ == (Shown {
                        task: (head + i) as nat,
                        bytes: marked.pending[i].bytes,
                    }),
            decreases seq.pending@.len(),
        {
            let ghost popped = chunks@.len() as int;
            let ghost before = seq.pending@;
            proof {
                assert(before[0]@ == seq@.pending[0]);
            }
            let index = seq.finished;
            seq.finished = seq.finished + 1;
            let front = seq.pending.pop_front();
            if let Some(task) = front {
                chunks.push(Chunk { index, bytes: buffer_into_bytes(task.buffer) });
            }
            proof {
                assert forall|i: int| 0 <= i < seq.pending@.len() implies seq@.pending[i]
                    == marked.pending.skip(popped + 1)[i] by {
                    assert(seq.pending@[i] == before[i + 1]);
                    assert(before[i + 1]@ == marked.pending.skip(popped)[i + 1]);
                }
                assert(seq@.pending =~= marked.pending.skip(chunks@.len() as int));
            }
        }
        proof {
            if seq.pending@.len() > 0 {
                assert(seq@.pending[0] == marked.pending[chunks@.len() as int]);
            }
            lemma_done_run_is(marked.pending, chunks@.len() as nat);
        }
        if seq.pending.len() > 0 {
            let index = seq.finished;
            let front = deque_index_mut(&mut seq.pending, 0);
            let bytes = buffer_contents(&front.buffer);
            buffer_clear(&mut front.buffer);
            chunks.push(Chunk { index, bytes });
        }
        proof {
            assert(seq@.pending =~= old(seq)@.finish(self.spec_index() as nat).pending);
            assert(shown(chunks@) =~= old(seq)@.finish_output(self.spec_index() as nat));
        }
        chunks
    }
}

} // verus!
