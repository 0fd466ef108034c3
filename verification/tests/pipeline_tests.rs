use sp1_core::chip::Chip;
use sp1_core::emulator::{CoreState, Instruction, Opcode, Program};
use sp1_core::pipeline::{process_checkpoint, resequence, Checkpoint, ShardTraces};

/// A program that jumps in place forever, so every replay yields a full
/// shard's worth of cycles.
fn spinning_program() -> Program {
    Program::new(vec![Instruction::new(Opcode::Jal, 1, 0, 0, true, true)], 0, 0)
}

#[test]
fn worker_replays_one_bounded_shard() {
    let program = spinning_program();
    let ckpt = Checkpoint { index: 7, state: CoreState::initial(&program) };
    let result = process_checkpoint(&program, ckpt, 4);
    assert_eq!(result.index, 7);
    assert_eq!(result.record.cpu_events.len(), 4);
    assert_eq!(result.record.jump_events.len(), 4);
    assert_eq!(result.traces.len(), 2);
    assert!(matches!(result.traces[0].0, Chip::Cpu(_)));
    assert!(matches!(result.traces[1].0, Chip::Jump(_)));
}

#[test]
fn five_checkpoints_two_workers_resequence_in_shard_order() {
    let program = spinning_program();
    let shard_size = 4;

    // Five checkpoints feed two workers over a channel of capacity one, so
    // each worker takes the next checkpoint as the channel refills; the
    // workers finish out of order.
    let checkpoints: Vec<Checkpoint> = (0..5)
        .map(|i| Checkpoint { index: i, state: CoreState::initial(&program) })
        .collect();

    let mut worker_a: Vec<Checkpoint> = Vec::new();
    let mut worker_b: Vec<Checkpoint> = Vec::new();
    for (n, ckpt) in checkpoints.into_iter().enumerate() {
        if n % 2 == 0 {
            worker_a.push(ckpt);
        } else {
            worker_b.push(ckpt);
        }
    }

    // Worker B outpaces worker A, so completion order interleaves as
    // 1, 0, 3, 2, 4 — not shard order.
    let mut finished: Vec<ShardTraces> = Vec::new();
    let mut a = worker_a.into_iter();
    let mut b = worker_b.into_iter();
    loop {
        let mut progressed = false;
        if let Some(ckpt) = b.next() {
            finished.push(process_checkpoint(&program, ckpt, shard_size));
            progressed = true;
        }
        if let Some(ckpt) = a.next() {
            finished.push(process_checkpoint(&program, ckpt, shard_size));
            progressed = true;
        }
        if !progressed {
            break;
        }
    }
    let completion_order: Vec<usize> = finished.iter().map(|r| r.index).collect();
    assert_eq!(completion_order, vec![1, 0, 3, 2, 4]);

    // Exactly five output pairs, re-ordered by shard index.
    let ordered = resequence(finished).expect("every shard index is present");
    assert_eq!(ordered.len(), 5);
    for (i, result) in ordered.iter().enumerate() {
        assert_eq!(result.index, i);
        assert_eq!(result.record.cpu_events.len(), 4);
        assert_eq!(result.traces.len(), 2);
    }
}

#[test]
fn resequence_rejects_a_missing_index() {
    let program = spinning_program();
    let results: Vec<ShardTraces> = [0usize, 1, 3]
        .iter()
        .map(|&i| {
            let ckpt = Checkpoint { index: i, state: CoreState::initial(&program) };
            process_checkpoint(&program, ckpt, 2)
        })
        .collect();
    assert!(resequence(results).is_none());
}
