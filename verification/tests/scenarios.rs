use oqueue::{Chunk, Color, Mutex, Op, Sequencer, Target, Task};

/// Appends what a write handed back for the sink.
fn send(sink: &mut Vec<u8>, live: Option<Vec<u8>>) {
    if let Some(bytes) = live {
        sink.extend_from_slice(&bytes);
    }
}

/// Appends the blocks that a completion handed back, in order.
fn flush(sink: &mut Vec<u8>, chunks: Vec<Chunk>) {
    for chunk in chunks {
        sink.extend_from_slice(&chunk.bytes);
    }
}

#[test]
fn out_of_order_completion_is_shown_in_task_order() {
    let mut seq = Sequencer::stdout(false);
    let mut sink = Vec::new();
    let t0 = seq.begin();
    let t1 = seq.begin();
    let t2 = seq.begin();

    send(&mut sink, t1.write_all(&mut seq, b"B"));
    flush(&mut sink, t1.complete(&mut seq));
    send(&mut sink, t2.write_all(&mut seq, b"C"));
    flush(&mut sink, t2.complete(&mut seq));
    assert_eq!(sink, b"");
    assert_eq!(seq.finished(), 0);

    send(&mut sink, t0.write_all(&mut seq, b"A"));
    assert_eq!(sink, b"A");
    let chunks = t0.complete(&mut seq);
    let shown: Vec<(usize, Vec<u8>)> = chunks.iter().map(|c| (c.index, c.bytes.clone())).collect();
    assert_eq!(shown, vec![(0, b"".to_vec()), (1, b"B".to_vec()), (2, b"C".to_vec())]);
    flush(&mut sink, chunks);
    assert_eq!(sink, b"ABC");
    assert_eq!(seq.finished(), 3);
    assert_eq!(seq.pending_len(), 0);
}

#[test]
fn live_head_is_shown_at_once_and_successor_after_it() {
    let mut seq = Sequencer::stderr(false);
    let mut sink = Vec::new();
    let t0 = seq.begin();
    send(&mut sink, t0.write_all(&mut seq, b"A-part1"));
    assert_eq!(sink, b"A-part1");

    let t1 = seq.begin();
    send(&mut sink, t1.write_all(&mut seq, b"B"));
    flush(&mut sink, t1.complete(&mut seq));
    assert_eq!(sink, b"A-part1");

    send(&mut sink, t0.write_all(&mut seq, b"A-part2"));
    assert_eq!(sink, b"A-part1A-part2");
    flush(&mut sink, t0.complete(&mut seq));
    assert_eq!(sink, b"A-part1A-part2B");
    assert_eq!(seq.finished(), 2);
    assert_eq!(seq.pending_len(), 0);
}

#[test]
fn promoted_head_shows_its_buffer_once() {
    let mut seq = Sequencer::stdout(false);
    let mut sink = Vec::new();
    let t0 = seq.begin();
    let t1 = seq.begin();
    assert_eq!(t1.write_all(&mut seq, b"early "), None);
    assert_eq!(seq.pending_len(), 2);

    let chunks = t0.complete(&mut seq);
    assert_eq!(chunks.len(), 2);
    assert_eq!((chunks[0].index, chunks[0].bytes.as_slice()), (0, &b""[..]));
    assert_eq!((chunks[1].index, chunks[1].bytes.as_slice()), (1, &b"early "[..]));
    flush(&mut sink, chunks);
    assert_eq!(seq.finished(), 1);
    assert_eq!(seq.pending_len(), 1);

    assert_eq!(t1.write_all(&mut seq, b"late"), Some(b"late".to_vec()));
    sink.extend_from_slice(b"late");
    let chunks = t1.complete(&mut seq);
    assert_eq!(chunks.len(), 1);
    assert_eq!((chunks[0].index, chunks[0].bytes.as_slice()), (1, &b""[..]));
    flush(&mut sink, chunks);
    assert_eq!(sink, b"early late");
}

#[test]
fn high_index_task_runs_to_completion_before_lower_ones_write() {
    let mut seq = Sequencer::stdout(false);
    let mut tasks: Vec<Task> = Vec::new();
    for _ in 0..10 {
        tasks.push(seq.begin());
    }
    let last = tasks.pop().unwrap();
    assert_eq!(last.index(), 9);
    for _ in 0..100 {
        assert_eq!(last.write_all(&mut seq, b"x"), None);
    }
    let chunks = last.complete(&mut seq);
    assert_eq!(chunks.len(), 1);
    assert_eq!((chunks[0].index, chunks[0].bytes.len()), (0, 0));
    assert_eq!(seq.finished(), 0);
    assert_eq!(seq.pending_len(), 10);
    assert!(!seq.is_open(9));
    assert!(seq.is_open(8));
}

#[test]
fn sink_sees_blocks_in_task_order() {
    let mut seq = Sequencer::stdout(false);
    let mut log: Vec<usize> = Vec::new();
    let mut sink = Vec::new();
    let mut tasks: Vec<Task> = Vec::new();
    for _ in 0..6 {
        tasks.push(seq.begin());
    }
    // Completion order 3, 5, 0, 2, 1, 4.
    for want in [3usize, 5, 0, 2, 1, 4] {
        let at = tasks.iter().position(|t| t.index() == want).unwrap();
        let task = tasks.remove(at);
        let text = format!("<{}>", want);
        if let Some(bytes) = task.write_fmt(&mut seq, &text) {
            log.push(task.index());
            sink.extend_from_slice(&bytes);
        }
        for chunk in task.complete(&mut seq) {
            log.push(chunk.index);
            sink.extend_from_slice(&chunk.bytes);
        }
    }
    assert!(log.windows(2).all(|w| w[0] <= w[1]));
    assert_eq!(sink, b"<0><1><2><3><4><5>");
    assert_eq!(seq.finished(), 6);
    assert_eq!(seq.started(), 6);
    assert_eq!(seq.pending_len(), 0);
}

#[test]
fn drained_sequencer_has_head_at_count_and_nothing_pending() {
    let mut seq = Sequencer::stdout(true);
    let a = seq.begin();
    let b = seq.begin();
    let c = seq.begin();
    c.complete(&mut seq);
    a.complete(&mut seq);
    assert_eq!(seq.finished(), 1);
    b.complete(&mut seq);
    assert_eq!(seq.finished(), seq.started());
    assert_eq!(seq.finished(), 3);
    assert_eq!(seq.pending_len(), 0);
}

#[test]
fn new_sequencer_is_empty() {
    let seq = Sequencer::new(Target::Stderr, true);
    assert_eq!(seq.target(), Target::Stderr);
    assert!(seq.supports_color());
    assert_eq!(seq.finished(), 0);
    assert_eq!(seq.started(), 0);
    assert_eq!(seq.pending_len(), 0);
    assert!(!seq.is_open(0));
    assert_eq!(Sequencer::stdout(false).target(), Target::Stdout);
    assert!(!Sequencer::stdout(false).supports_color());
    assert_eq!(Sequencer::stderr(false).target(), Target::Stderr);
}

#[test]
fn begin_counts_from_zero() {
    let mut seq = Sequencer::stdout(false);
    for want in 0..5usize {
        let task = seq.begin();
        assert_eq!(task.index(), want);
        assert_eq!(seq.started(), want + 1);
        assert!(seq.is_open(want));
        assert!(!seq.is_open(want + 1));
    }
    assert_eq!(seq.pending_len(), 0);
}

#[test]
fn ansi_styles_are_rendered_as_escape_sequences() {
    let mut seq = Sequencer::stdout(true);
    let t0 = seq.begin();
    assert_eq!(t0.bold(&mut seq), Some(b"\x1b[0m\x1b[1m".to_vec()));
    assert_eq!(t0.color(&mut seq, Color::Red), Some(b"\x1b[0m\x1b[31m".to_vec()));
    assert_eq!(t0.bold_color(&mut seq, Color::Blue), Some(b"\x1b[0m\x1b[1m\x1b[34m".to_vec()));
    assert_eq!(t0.color(&mut seq, Color::Ansi256(200)), Some(b"\x1b[0m\x1b[38;5;200m".to_vec()));
    assert_eq!(
        t0.color(&mut seq, Color::Rgb(1, 20, 255)),
        Some(b"\x1b[0m\x1b[38;2;1;20;255m".to_vec())
    );
    assert_eq!(t0.reset_color(&mut seq), Some(b"\x1b[0m".to_vec()));
    assert_eq!(t0.write_fmt(&mut seq, "hi"), Some(b"hi".to_vec()));
    assert_eq!(
        t0.apply(&mut seq, Op::Style { bold: false, color: None }),
        Some(b"\x1b[0m".to_vec())
    );
}

#[test]
fn every_named_color_has_its_own_code() {
    let mut seq = Sequencer::stdout(true);
    let t0 = seq.begin();
    let cases: [(Color, &[u8]); 8] = [
        (Color::Black, b"\x1b[0m\x1b[30m"),
        (Color::Red, b"\x1b[0m\x1b[31m"),
        (Color::Green, b"\x1b[0m\x1b[32m"),
        (Color::Yellow, b"\x1b[0m\x1b[33m"),
        (Color::Blue, b"\x1b[0m\x1b[34m"),
        (Color::Magenta, b"\x1b[0m\x1b[35m"),
        (Color::Cyan, b"\x1b[0m\x1b[36m"),
        (Color::White, b"\x1b[0m\x1b[37m"),
    ];
    for (color, code) in cases {
        assert_eq!(t0.color(&mut seq, color), Some(code.to_vec()));
    }
}

#[test]
fn plain_sink_drops_styles() {
    let mut seq = Sequencer::stdout(false);
    let t0 = seq.begin();
    let t1 = seq.begin();
    assert_eq!(t0.bold(&mut seq), Some(Vec::new()));
    assert_eq!(t0.color(&mut seq, Color::Green), Some(Vec::new()));
    assert_eq!(t0.reset_color(&mut seq), Some(Vec::new()));
    assert_eq!(t1.bold_color(&mut seq, Color::Cyan), None);
    assert_eq!(t1.write_all(&mut seq, b"text"), None);
    t1.complete(&mut seq);
    let chunks = t0.complete(&mut seq);
    assert_eq!(chunks.len(), 2);
    assert_eq!(chunks[0].bytes, b"");
    assert_eq!(chunks[1].bytes, b"text");
}

#[test]
fn buffered_styles_keep_their_place_among_the_bytes() {
    let mut seq = Sequencer::stdout(true);
    let t0 = seq.begin();
    let t1 = seq.begin();
    assert_eq!(t1.write_all(&mut seq, b"a"), None);
    assert_eq!(t1.bold(&mut seq), None);
    assert_eq!(t1.write_all(&mut seq, b"b"), None);
    assert_eq!(t1.reset_color(&mut seq), None);
    assert_eq!(t1.write_all(&mut seq, b"c"), None);
    let chunks = t1.complete(&mut seq);
    assert_eq!(chunks.len(), 1);
    assert_eq!((chunks[0].index, chunks[0].bytes.len()), (0, 0));
    let chunks = t0.complete(&mut seq);
    assert_eq!(chunks.len(), 2);
    assert_eq!(chunks[0].index, 0);
    assert_eq!(chunks[0].bytes, b"");
    assert_eq!(chunks[1].index, 1);
    assert_eq!(chunks[1].bytes, b"a\x1b[0m\x1b[1mb\x1b[0mc");
    assert_eq!(seq.finished(), 2);
}

#[test]
fn completed_and_unbegun_tasks_are_not_open() {
    let mut seq = Sequencer::stdout(false);
    let t0 = seq.begin();
    let t1 = seq.begin();
    let t2 = seq.begin();
    assert!(seq.is_open(0) && seq.is_open(1) && seq.is_open(2));
    assert!(!seq.is_open(3));
    assert!(!seq.is_open(usize::MAX));
    t1.complete(&mut seq);
    assert!(seq.is_open(0) && !seq.is_open(1) && seq.is_open(2));
    t0.complete(&mut seq);
    assert!(!seq.is_open(0) && !seq.is_open(1) && seq.is_open(2));
    assert_eq!(seq.finished(), 2);
    assert_eq!(seq.pending_len(), 0);
    assert_eq!(t2.write_all(&mut seq, b"z"), Some(b"z".to_vec()));
}

#[test]
fn task_is_printed_with_its_index() {
    let mut seq = Sequencer::stdout(false);
    seq.begin();
    let task = seq.begin();
    assert_eq!(format!("{:?}", task), "Task(1)");
}

#[test]
fn mutex_hands_out_the_guarded_value() {
    let mutex = Mutex::new(5usize);
    {
        let mut guard = mutex.lock();
        *guard += 1;
    }
    assert_eq!(*mutex.lock(), 6);
    let shared = Mutex::new(Sequencer::stdout(false));
    let task = shared.lock().begin();
    assert_eq!(task.index(), 0);
    assert_eq!(shared.lock().started(), 1);
}

#[test]
fn lone_head_completes_without_a_byte() {
    let mut seq = Sequencer::stdout(true);
    let task = seq.begin();
    let chunks = task.complete(&mut seq);
    assert_eq!(chunks.len(), 1);
    assert_eq!((chunks[0].index, chunks[0].bytes.len()), (0, 0));
    assert_eq!(seq.finished(), 1);
    assert_eq!(seq.pending_len(), 0);

    let mut seq = Sequencer::stdout(false);
    let task = seq.begin();
    let chunks = task.complete(&mut seq);
    assert_eq!(chunks.len(), 1);
    assert_eq!((chunks[0].index, chunks[0].bytes.len()), (0, 0));
    assert_eq!(seq.finished(), 1);
}

#[test]
fn task_that_never_completes_holds_back_all_behind_it() {
    let mut seq = Sequencer::stdout(false);
    let mut sink = Vec::new();
    let stuck = seq.begin();
    for n in 1..5usize {
        let task = seq.begin();
        send(&mut sink, task.write_all(&mut seq, b"later"));
        flush(&mut sink, task.complete(&mut seq));
        assert_eq!(seq.finished(), 0);
        assert_eq!(seq.pending_len(), n + 1);
    }
    assert_eq!(sink, b"");
    assert!(seq.is_open(stuck.index()));
    send(&mut sink, stuck.write_all(&mut seq, b"first"));
    assert_eq!(sink, b"first");
}

#[test]
fn apply_routes_by_the_head() {
    let mut seq = Sequencer::stdout(true);
    let t0 = seq.begin();
    let t1 = seq.begin();
    assert_eq!(t0.apply(&mut seq, Op::Write(b"now")), Some(b"now".to_vec()));
    assert_eq!(t1.apply(&mut seq, Op::Write(b"then")), None);
    assert_eq!(t1.apply(&mut seq, Op::Reset), None);
    assert_eq!(t0.apply(&mut seq, Op::Reset), Some(b"\x1b[0m".to_vec()));
    assert_eq!(
        t0.apply(&mut seq, Op::Style { bold: true, color: Some(Color::White) }),
        Some(b"\x1b[0m\x1b[1m\x1b[37m".to_vec())
    );
    let chunks = t0.complete(&mut seq);
    assert_eq!(chunks.len(), 2);
    assert_eq!(chunks[0].bytes, b"");
    assert_eq!((chunks[1].index, chunks[1].bytes.as_slice()), (1, &b"then\x1b[0m"[..]));
    assert_eq!(t1.apply(&mut seq, Op::Write(b"!")), Some(b"!".to_vec()));
}

#[test]
fn completion_on_an_ansi_sink_shows_the_writes_alone() {
    let mut seq = Sequencer::stdout(true);
    let mut sink = Vec::new();
    let t0 = seq.begin();
    let t1 = seq.begin();
    let t2 = seq.begin();
    send(&mut sink, t1.write_all(&mut seq, b"B"));
    flush(&mut sink, t1.complete(&mut seq));
    send(&mut sink, t2.write_all(&mut seq, b"C"));
    flush(&mut sink, t2.complete(&mut seq));
    send(&mut sink, t0.write_all(&mut seq, b"A"));
    flush(&mut sink, t0.complete(&mut seq));
    assert_eq!(sink, b"ABC");

    let mut seq = Sequencer::stderr(true);
    let mut sink = Vec::new();
    let t0 = seq.begin();
    send(&mut sink, t0.write_all(&mut seq, b"A-part1"));
    let t1 = seq.begin();
    send(&mut sink, t1.write_all(&mut seq, b"B"));
    flush(&mut sink, t1.complete(&mut seq));
    send(&mut sink, t0.write_all(&mut seq, b"A-part2"));
    assert_eq!(sink, b"A-part1A-part2");
    flush(&mut sink, t0.complete(&mut seq));
    assert_eq!(sink, b"A-part1A-part2B");
}

#[test]
fn numbered_colors_are_written_in_decimal_without_leading_zeros() {
    let mut seq = Sequencer::stdout(true);
    let t0 = seq.begin();
    let cases: [(u8, &[u8]); 8] = [
        (0, b"\x1b[0m\x1b[38;5;0m"),
        (7, b"\x1b[0m\x1b[38;5;7m"),
        (9, b"\x1b[0m\x1b[38;5;9m"),
        (10, b"\x1b[0m\x1b[38;5;10m"),
        (99, b"\x1b[0m\x1b[38;5;99m"),
        (100, b"\x1b[0m\x1b[38;5;100m"),
        (109, b"\x1b[0m\x1b[38;5;109m"),
        (255, b"\x1b[0m\x1b[38;5;255m"),
    ];
    for (n, code) in cases {
        assert_eq!(t0.color(&mut seq, Color::Ansi256(n)), Some(code.to_vec()));
    }
    assert_eq!(
        t0.color(&mut seq, Color::Rgb(0, 0, 0)),
        Some(b"\x1b[0m\x1b[38;2;0;0;0m".to_vec())
    );
    assert_eq!(
        t0.bold_color(&mut seq, Color::Rgb(255, 100, 9)),
        Some(b"\x1b[0m\x1b[1m\x1b[38;2;255;100;9m".to_vec())
    );
}

#[test]
fn live_is_the_head() {
    let mut seq = Sequencer::stdout(false);
    let t0 = seq.begin();
    let t1 = seq.begin();
    assert!(t0.is_live(&seq));
    assert!(!t1.is_live(&seq));
    t0.complete(&mut seq);
    assert!(t1.is_live(&seq));
}
