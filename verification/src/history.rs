//! What holds of every run of a sequencer: the operations of a run are taken
//! as a sequence of events, and the sink's content as the blocks that the
//! operations sent, in order.

use vstd::prelude::*;
use crate::model::{done_run, lemma_done_run, Shown, State};

verus! {

/// One operation on a sequencer.
pub enum Event {
    /// A task is begun.
    Begin,
    /// A task renders bytes.
    Render { task: nat, bytes: Seq<u8> },
    /// A task completes.
    Complete { task: nat },
}

impl State {
    /// Whether the operation may be made in this state: a task renders and
    /// completes only while it is open.
    pub open spec fn admits(self, event: Event) -> bool {
        match event {
            Event::Begin => true,
            Event::Render { task, bytes } => self.is_open(task),
            Event::Complete { task } => self.is_open(task),
        }
    }

    /// The state after the operation.
    pub open spec fn step(self, event: Event) -> State {
        match event {
            Event::Begin => self.begin(),
            Event::Render { task, bytes } => self.emit(task, bytes),
            Event::Complete { task } => self.finish(task),
        }
    }

    /// The blocks that the operation sends to the sink.
    pub open spec fn output(self, event: Event) -> Seq<Shown> {
        match event {
            Event::Begin => Seq::empty(),
            Event::Render { task, bytes } => self.emit_output(task, bytes),
            Event::Complete { task } => self.finish_output(task),
        }
    }
}

/// The state of a new sequencer after the events, in order.
pub open spec fn state_after(ansi: bool, events: Seq<Event>) -> State
    decreases events.len(),
{
    if events.len() == 0 {
        State::init(ansi)
    } else {
        state_after(ansi, events.drop_last()).step(events.last())
    }
}

/// Whether each event is admitted by the state that the events before it
/// lead to.
pub open spec fn admitted(ansi: bool, events: Seq<Event>) -> bool
    decreases events.len(),
{
    events.len() == 0 || (admitted(ansi, events.drop_last()) && state_after(
        ansi,
        events.drop_last(),
    ).admits(events.last()))
}

/// The blocks that reached the sink over the events, in order.
pub open spec fn sink(ansi: bool, events: Seq<Event>) -> Seq<Shown>
    decreases events.len(),
{
    if events.len() == 0 {
        Seq::empty()
    } else {
        sink(ansi, events.drop_last()) + state_after(ansi, events.drop_last()).output(
            events.last(),
        )
    }
}

/// The bytes that the event renders for task `k`.
pub open spec fn rendered_for(event: Event, k: nat) -> Seq<u8> {
    match event {
        Event::Render { task, bytes } => if task == k {
            bytes
        } else {
            Seq::empty()
        },
        _ => Seq::empty(),
    }
}

/// The bytes that task `k` rendered over the events, in order.
pub open spec fn written(events: Seq<Event>, k: nat) -> Seq<u8>
    decreases events.len(),
{
    if events.len() == 0 {
        Seq::empty()
    } else {
        written(events.drop_last(), k) + rendered_for(events.last(), k)
    }
}

/// The bytes of task `k` among the blocks, in order.
pub open spec fn shown_of(blocks: Seq<Shown>, k: nat) -> Seq<u8>
    decreases blocks.len(),
{
    if blocks.len() == 0 {
        Seq::empty()
    } else if blocks.last().task == k {
        shown_of(blocks.drop_last(), k) + blocks.last().bytes
    } else {
        shown_of(blocks.drop_last(), k)
    }
}

/// Whether the blocks stand in task order: no block of a task is followed by
/// a block of a task with a lower index.
pub open spec fn in_task_order(blocks: Seq<Shown>) -> bool {
    forall|i: int, j: int| 0 <= i <= j < blocks.len() ==> blocks[i].task <= blocks[j].task
}

/// Every admitted operation keeps the state well-formed.
pub proof fn lemma_step_keeps_wf(state: State, event: Event)
    requires
        state.wf(),
        state.admits(event),
    ensures
        state.step(event).wf(),
{
    match event {
        Event::Begin => {},
        Event::Render { task, bytes } => {},
        Event::Complete { task } => {
            lemma_done_run(state.mark(task).pending);
        },
    }
}

/// The state after any admitted run is well-formed.
pub proof fn lemma_reached_state_wf(ansi: bool, events: Seq<Event>)
    requires
        admitted(ansi, events),
    ensures
        state_after(ansi, events).wf(),
    decreases events.len(),
{
    if events.len() > 0 {
        lemma_reached_state_wf(ansi, events.drop_last());
        lemma_step_keeps_wf(state_after(ansi, events.drop_last()), events.last());
    }
}

/// The blocks that one operation sends belong to the tasks from the head
/// before it to the head after it, one block for each in turn.
pub proof fn lemma_output_runs_from_head(state: State, event: Event)
    requires
        state.wf(),
        state.admits(event),
    ensures
        forall|i: int|
            0 <= i < state.output(event).len() ==> (#[trigger] state.output(event)[i]).task
                == state.head + i,
        state.output(event).len() > 0 ==> state.head + state.output(event).len() - 1
            <= state.step(event).head,
        state.head <= state.step(event).head,
{
    match event {
        Event::Begin => {},
        Event::Render { task, bytes } => {},
        Event::Complete { task } => {
            lemma_done_run(state.mark(task).pending);
        },
    }
}

/// Order: over any admitted run, the blocks reach the sink in task order, and
/// none belongs to a task beyond the head. So the bytes of two tasks are
/// never interleaved.
pub proof fn lemma_sink_in_task_order(ansi: bool, events: Seq<Event>)
    requires
        admitted(ansi, events),
    ensures
        in_task_order(sink(ansi, events)),
        forall|i: int|
            0 <= i < sink(ansi, events).len() ==> (#[trigger] sink(ansi, events)[i]).task
                <= state_after(ansi, events).head,
    decreases events.len(),
{
    if events.len() > 0 {
        let before = events.drop_last();
        let state = state_after(ansi, before);
        lemma_sink_in_task_order(ansi, before);
        lemma_reached_state_wf(ansi, before);
        lemma_output_runs_from_head(state, events.last());
        let old_blocks = sink(ansi, before);
        let new_blocks = state.output(events.last());
        let all = sink(ansi, events);
        assert forall|i: int| 0 <= i < all.len() implies (#[trigger] all[i]).task
            <= state_after(ansi, events).head by {
            if i >= old_blocks.len() {
                assert(all[i] == new_blocks[i - old_blocks.len()]);
            }
        }
        assert forall|i: int, j: int| 0 <= i <= j < all.len() implies all[i].task
            <= all[j].task by {
            if j >= old_blocks.len() {
                assert(all[j] == new_blocks[j - old_blocks.len()]);
                if i >= old_blocks.len() {
                    assert(all[i] == new_blocks[i - old_blocks.len()]);
                } else {
                    assert(all[i] == old_blocks[i]);
                }
            }
        }
    }
}

/// The bytes of a task among two runs of blocks are those among the first
/// followed by those among the second.
pub proof fn lemma_shown_of_concat(first: Seq<Shown>, second: Seq<Shown>, k: nat)
    ensures
        shown_of(first + second, k) == shown_of(first, k) + shown_of(second, k),
    decreases second.len(),
{
    if second.len() == 0 {
        assert(first + second =~= first);
        assert(shown_of(first, k) + shown_of(second, k) =~= shown_of(first, k));
    } else {
        lemma_shown_of_concat(first, second.drop_last(), k);
        assert((first + second).drop_last() =~= first + second.drop_last());
        assert((first + second).last() == second.last());
        if second.last().task == k {
            assert(shown_of(first + second, k) =~= shown_of(first, k) + shown_of(second, k));
        }
    }
}

/// Among blocks that belong to the tasks `base`, `base + 1`, ... in turn, the
/// bytes of a task are those of its one block.
pub proof fn lemma_shown_of_run(blocks: Seq<Shown>, base: nat, k: nat)
    requires
        forall|i: int| 0 <= i < blocks.len() ==> (#[trigger] blocks[i]).task == base + i,
    ensures
        shown_of(blocks, k) == if base <= k < base + blocks.len() {
            blocks[k - base].bytes
        } else {
            Seq::empty()
        },
    decreases blocks.len(),
{
    if blocks.len() > 0 {
        let front = blocks.drop_last();
        assert forall|i: int| 0 <= i < front.len() implies (#[trigger] front[i]).task == base
            + i by {
            assert(front[i] == blocks[i]);
        }
        lemma_shown_of_run(front, base, k);
        if blocks.last().task == k {
            assert(shown_of(blocks, k) =~= blocks[k - base].bytes);
        } else if base <= k < base + front.len() {
            assert(front[k - base] == blocks[k - base]);
        }
    }
}

/// What one admitted operation does to the bytes of task `k`: what it sends
/// of them, followed by what is held back after it, is what was held back
/// before it, followed by what the operation rendered for `k`.
pub proof fn lemma_step_moves_bytes(state: State, event: Event, k: nat)
    requires
        state.wf(),
        state.admits(event),
    ensures
        shown_of(state.output(event), k) + state.step(event).buffered(k) == state.buffered(k)
            + rendered_for(event, k),
{
    let out = state.output(event);
    let next = state.step(event);
    lemma_output_runs_from_head(state, event);
    lemma_shown_of_run(out, state.head, k);
    match event {
        Event::Begin => {},
        Event::Render { task, bytes } => {},
        Event::Complete { task } => {
            let marked = state.mark(task);
            lemma_done_run(marked.pending);
            assert(marked.buffered(k) =~= state.buffered(k));
        },
    }
    assert(shown_of(out, k) + next.buffered(k) =~= state.buffered(k) + rendered_for(event, k));
}

/// No duplication, no loss: over any admitted run, the bytes of task `k`
/// that reached the sink, followed by those still held back for it, are the
/// bytes that the task rendered, once and in order. Nothing is held back for
/// a task at or before the head, so all it rendered has been shown.
pub proof fn lemma_shown_exactly_once(ansi: bool, events: Seq<Event>, k: nat)
    requires
        admitted(ansi, events),
    ensures
        shown_of(sink(ansi, events), k) + state_after(ansi, events).buffered(k) == written(
            events,
            k,
        ),
        k <= state_after(ansi, events).head ==> state_after(ansi, events).buffered(k)
            == Seq::<u8>::empty(),
        k <= state_after(ansi, events).head ==> shown_of(sink(ansi, events), k) == written(
            events,
            k,
        ),
    decreases events.len(),
{
    lemma_reached_state_wf(ansi, events);
    let after = state_after(ansi, events);
    assert(k <= after.head ==> after.buffered(k) =~= Seq::<u8>::empty());
    if events.len() == 0 {
        assert(shown_of(sink(ansi, events), k) + after.buffered(k) =~= written(events, k));
    } else {
        let before = events.drop_last();
        let state = state_after(ansi, before);
        let event = events.last();
        lemma_shown_exactly_once(ansi, before, k);
        lemma_reached_state_wf(ansi, before);
        lemma_step_moves_bytes(state, event, k);
        lemma_shown_of_concat(sink(ansi, before), state.output(event), k);
        assert(shown_of(sink(ansi, events), k) + after.buffered(k) =~= written(events, k));
    }
    if k <= after.head {
        assert(shown_of(sink(ansi, events), k) + after.buffered(k) =~= shown_of(
            sink(ansi, events),
            k,
        ));
    }
}

/// Drained: in a well-formed state in which every task begun is done, the
/// head is the number of tasks begun and nothing is pending.
pub proof fn lemma_drained(state: State)
    requires
        state.wf(),
        forall|k: nat| k < state.started ==> state.is_done(k),
    ensures
        state.head == state.started,
        state.pending.len() == 0,
{
    if state.head < state.started {
        assert(state.is_done(state.head));
    }
}

/// Drained, over a run: once every task begun in an admitted run is done,
/// the head is the number of tasks begun and nothing is pending.
pub proof fn lemma_run_drained(ansi: bool, events: Seq<Event>)
    requires
        admitted(ansi, events),
        forall|k: nat|
            k < state_after(ansi, events).started ==> state_after(ansi, events).is_done(k),
    ensures
        state_after(ansi, events).head == state_after(ansi, events).started,
        state_after(ansi, events).pending.len() == 0,
{
    lemma_reached_state_wf(ansi, events);
    lemma_drained(state_after(ansi, events));
}

/// No task waits for another: an open task stays open whatever the other
/// tasks do, so its next operation is admitted at any time.
pub proof fn lemma_open_until_completed(state: State, event: Event, k: nat)
    requires
        state.wf(),
        state.admits(event),
        state.is_open(k),
        event != (Event::Complete { task: k }),
    ensures
        state.step(event).is_open(k),
{
    match event {
        Event::Begin => {},
        Event::Render { task, bytes } => {},
        Event::Complete { task } => {
            let marked = state.mark(task);
            lemma_done_run(marked.pending);
            if k - state.head < marked.pending.len() {
                assert(!marked.pending[k - state.head].done);
            }
        },
    }
}

/// Progress behind the head: a task that is open and not the head renders
/// and completes without moving the head and without sending a byte, however
/// many tasks before it are still open.
pub proof fn lemma_behind_head_is_silent(state: State, event: Event, k: nat)
    requires
        state.wf(),
        state.is_open(k),
        state.head < k,
        event is Render && event->Render_task == k || event == (Event::Complete { task: k }),
    ensures
        state.step(event).wf(),
        state.step(event).head == state.head,
        forall|i: int|
            0 <= i < state.output(event).len() ==> (#[trigger] state.output(event)[i]).bytes
                == Seq::<u8>::empty(),
        event is Render ==> state.output(event).len() == 0 && state.step(event).is_open(k),
        event is Complete ==> state.step(event).is_done(k),
{
    lemma_step_keeps_wf(state, event);
    match event {
        Event::Begin => {},
        Event::Render { task, bytes } => {},
        Event::Complete { task } => {
            let marked = state.mark(k);
            assert(!marked.pending[0].done);
            assert(done_run(marked.pending) == 0);
            assert(marked.pending.skip(0) =~= marked.pending);
            assert(marked.pending[0].bytes =~= Seq::<u8>::empty());
        },
    }
}

} // verus!
