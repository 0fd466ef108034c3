//! The trace-generation pipeline around the worker pool.
//!
//! Workers replay checkpoints into bounded records and render them into
//! trace tables; completion order across workers may be out of order, so
//! the results are re-sequenced by shard index before they reach the
//! proving backend, which needs a monotonic shard sequence for cross-shard
//! linking. The channels and threads that carry checkpoints and results
//! live with the caller; the logic here is what a worker does with one
//! checkpoint, and how finished results are put back in order.

use vstd::prelude::*;
use vstd::multiset::Multiset;
use crate::chip::{cpu_table_of, generate_traces, jump_table_of, Chip, CpuChip, JumpChip, TraceTable};
use crate::emulator::{execute_from, spec_run, CoreState, ExecutionRecord, Program};

verus! {

/// A snapshot of the machine state at a shard boundary: produced once,
/// consumed exactly once by a worker.
#[derive(Clone, Debug)]
pub struct Checkpoint {
    /// The index of the shard the replay of this checkpoint produces.
    pub index: usize,
    /// The machine state at the boundary.
    pub state: CoreState,
}

/// One worker's finished output: a shard's record and its trace tables.
#[derive(Clone, Debug)]
pub struct ShardTraces {
    /// The shard index.
    pub index: usize,
    /// The replayed record.
    pub record: ExecutionRecord,
    /// One trace table per chip, in registry order.
    pub traces: Vec<(Chip, TraceTable)>,
}

/// The run of one checkpoint emits at most one cpu event per cycle of fuel,
/// and at most one jump event per cpu event.
pub proof fn lemma_run_lens(p: Program, s: crate::emulator::SpecCore, fuel: nat)
    ensures
        spec_run(p, s, fuel).1.len() <= fuel,
        spec_run(p, s, fuel).2.len() <= spec_run(p, s, fuel).1.len(),
    decreases fuel,
{
    if fuel > 0 {
        match crate::emulator::spec_step(p, s) {
            None => {},
            Some((s2, ce, je)) => {
                lemma_run_lens(p, s2, (fuel - 1) as nat);
            },
        }
    }
}

/// One worker's job: replay the checkpoint for up to `shard_size` cycles
/// into exactly one bounded record, and render every chip's trace table
/// for it.
pub fn process_checkpoint(p: &Program, checkpoint: Checkpoint, shard_size: usize) -> (r:
    ShardTraces)
    requires
        p.wf(),
        checkpoint.state.wf(),
        shard_size <= usize::MAX / 2,
    ensures
        r.index == checkpoint.index,
        r.record.cpu_events@ == spec_run(*p, checkpoint.state@, shard_size as nat).1,
        r.record.jump_events@ == spec_run(*p, checkpoint.state@, shard_size as nat).2,
        r.traces@.len() == 2,
        r.traces@[0].0 == Chip::Cpu(CpuChip),
        cpu_table_of(r.record.cpu_events@, r.traces@[0].1),
        r.traces@[1].0 == Chip::Jump(JumpChip),
        jump_table_of(r.record.jump_events@, r.traces@[1].1),
{
    proof {
        lemma_run_lens(*p, checkpoint.state@, shard_size as nat);
    }
    let (record, _state) = execute_from(p, checkpoint.state, shard_size);
    let traces = generate_traces(&record);
    ShardTraces { index: checkpoint.index, record, traces }
}

/// Law: a worker's honest output passes constraint checking — the tables
/// generated from the events of a machine run satisfy every declared
/// constraint of their chips.
pub proof fn lemma_worker_output_passes_checking(
    p: Program,
    s: crate::emulator::SpecCore,
    fuel: nat,
    cpu_t: TraceTable,
    jump_t: TraceTable,
)
    requires
        cpu_table_of(spec_run(p, s, fuel).1, cpu_t),
        jump_table_of(spec_run(p, s, fuel).2, jump_t),
    ensures
        crate::chip::table_ok(Chip::Cpu(CpuChip), cpu_t),
        crate::chip::table_ok(Chip::Jump(JumpChip), jump_t),
{
    crate::emulator::lemma_run_events_ok(p, s, fuel);
    crate::chip::lemma_honest_traces_ok(
        spec_run(p, s, fuel).1,
        spec_run(p, s, fuel).2,
        cpu_t,
        jump_t,
    );
}

/// Whether some element of `s` carries shard index `i`.
pub open spec fn has_index(s: Seq<ShardTraces>, i: int) -> bool {
    exists|j: int| 0 <= j < s.len() && (#[trigger] s[j]).index == i
}

/// Re-sequence out-of-order worker results by shard index.
///
/// Returns the results reordered so that the element at position `i`
/// carries shard index `i` — the order the proving backend needs —
/// whenever every index below the result count is present, and `None`
/// exactly when some index is missing.
pub fn resequence(results: Vec<ShardTraces>) -> (r: Option<Vec<ShardTraces>>)
    ensures
        r is Some <==> (forall|i: int| 0 <= i < results@.len() ==> has_index(results@, i)),
        r is Some ==> {
            let out = r->Some_0;
            &&& out@.len() == results@.len()
            &&& forall|i: int| 0 <= i < out@.len() ==> (#[trigger] out@[i]).index == i
            &&& forall|i: int| 0 <= i < out@.len() ==> results@.contains(#[trigger] out@[i])
            &&& out@.to_multiset() == results@.to_multiset()
        },
{
    let ghost orig = results@;
    let n = results.len();
    let mut rest = results;
    let mut out: Vec<ShardTraces> = Vec::new();
    let mut i: usize = 0;
    proof {
        broadcast use vstd::seq_lib::group_to_multiset_ensures;
        assert(forall|a: ShardTraces| !out@.contains(a));
        assert(out@.to_multiset().add(rest@.to_multiset()) =~= orig.to_multiset());
    }
    while i < n
        invariant
            orig == results@,
            i <= n == orig.len(),
            out@.len() == i,
            rest@.len() == n - i,
            forall|k: int| 0 <= k < i ==> (#[trigger] out@[k]).index == k,
            forall|k: int| 0 <= k < i ==> orig.contains(#[trigger] out@[k]),
            forall|k: int| 0 <= k < rest@.len() ==> orig.contains(#[trigger] rest@[k]),
            forall|j: int|
                0 <= j < orig.len() && (#[trigger] orig[j]).index >= i ==> rest@.contains(orig[j]),
            out@.to_multiset().add(rest@.to_multiset()) == orig.to_multiset(),
        decreases n - i,
    {
        let mut found: usize = rest.len();
        let mut j: usize = 0;
        while j < rest.len()
            invariant
                j <= rest@.len(),
                found == rest@.len() || (found < j && rest@[found as int].index == i),
                found == rest@.len() ==> forall|k: int|
                    0 <= k < j ==> (#[trigger] rest@[k]).index != i,
            decreases rest@.len() - j,
        {
            if found == rest.len() && rest[j].index == i {
                found = j;
            }
            j += 1;
        }
        if found == rest.len() {
            // No result carries shard index `i`: by the invariant, the
            // input never did either.
            proof {
                assert(!has_index(orig, i as int)) by {
                    if has_index(orig, i as int) {
                        let w = choose|j: int|
                            0 <= j < orig.len() && (#[trigger] orig[j]).index == i;
                        assert(rest@.contains(orig[w]));
                    }
                }
            }
            return None;
        }
        let ghost old_rest = rest@;
        let ghost old_out = out@;
        let item = rest.remove(found);
        out.push(item);
        proof {
            broadcast use vstd::seq_lib::group_to_multiset_ensures;
            assert(rest@.to_multiset() =~= old_rest.to_multiset().remove(item));
            assert(out@.to_multiset() =~= old_out.to_multiset().insert(item));
            assert(old_rest.to_multiset().count(item) > 0);
            assert(out@.to_multiset().add(rest@.to_multiset()) =~= orig.to_multiset());
            assert(forall|k: int|
                0 <= k < rest@.len() ==> old_rest.contains(#[trigger] rest@[k]));
            assert forall|j2: int|
                0 <= j2 < orig.len() && (#[trigger] orig[j2]).index >= i + 1 implies rest@.contains(
                orig[j2],
            ) by {
                let w = choose|w: int| 0 <= w < old_rest.len() && old_rest[w] == orig[j2];
                if w < found {
                    assert(rest@[w] == old_rest[w]);
                } else {
                    assert(w > found);
                    assert(rest@[w - 1] == old_rest[w]);
                }
            }
        }
        i += 1;
    }
    proof {
        assert forall|i2: int| 0 <= i2 < orig.len() implies has_index(orig, i2) by {
            assert(orig.contains(out@[i2]));
            let w = choose|w: int| 0 <= w < orig.len() && orig[w] == out@[i2];
            assert(orig[w].index == i2);
        }
        broadcast use vstd::seq_lib::group_to_multiset_ensures;
        assert(forall|a: ShardTraces| !rest@.contains(a));
        assert(rest@.to_multiset() =~= Multiset::<ShardTraces>::empty());
        assert(out@.to_multiset() =~= orig.to_multiset());
    }
    Some(out)
}

} // verus!
