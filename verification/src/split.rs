//! The shard assembler: cuts a live stream of categorized events into
//! bounded shards.
//!
//! A shard boundary is cut when the primary cycle count reaches the shard
//! size, or when any deferred category reaches its split threshold. On a
//! cut, categories at or over their threshold move into the closed shard;
//! categories still under it carry forward. Memory init/finalize
//! bookkeeping events are exempt from count-based splitting: they ride
//! until the terminal shard, unless the accumulated deferred count exceeds
//! the combine-memory threshold, which force-flushes them into the current
//! shard to bound memory. The terminal shard absorbs every pending category
//! unconditionally. Shards emit in increasing order and event order within
//! a category is preserved, so concatenating the shards' events in
//! shard-index order reproduces exactly the full event stream.

use vstd::prelude::*;
use crate::opts::{SP1CoreOpts, SplitOpts};

verus! {

/// The category of an emitted event.
#[derive(Clone, Copy, Debug, PartialEq, Eq, Structural)]
pub enum Category {
    /// An ordinary execution cycle.
    Cycle,
    /// A deferred keccak permutation.
    Keccak,
    /// A deferred sha extend.
    ShaExtend,
    /// A deferred sha compress.
    ShaCompress,
    /// A deferred memory access.
    Memory,
    /// A memory init/finalize bookkeeping event.
    MemoryInit,
}

/// One event of the stream: its category and an identifying payload.
#[derive(Clone, Copy, Debug, PartialEq, Eq, Structural)]
pub struct Event {
    /// The category the event belongs to.
    pub category: Category,
    /// The payload.
    pub data: u64,
}

/// A bounded slice of the execution: the events assigned to one shard, held
/// per category in arrival order.
#[derive(Clone, Debug, PartialEq, Eq)]
pub struct Shard {
    /// The shard's position in the emitted sequence.
    pub index: usize,
    /// The cycle events.
    pub cycles: Vec<Event>,
    /// The keccak events.
    pub keccak: Vec<Event>,
    /// The sha extend events.
    pub sha_extend: Vec<Event>,
    /// The sha compress events.
    pub sha_compress: Vec<Event>,
    /// The memory events.
    pub memory: Vec<Event>,
    /// The memory bookkeeping events.
    pub memory_init: Vec<Event>,
}

/// The events of one category in a stream, in order.
pub open spec fn cat_events(s: Seq<Event>, c: Category) -> Seq<Event> {
    s.filter(|e: Event| e.category == c)
}

/// The events of one category held by a shard.
pub open spec fn shard_cat(s: Shard, c: Category) -> Seq<Event> {
    match c {
        Category::Cycle => s.cycles@,
        Category::Keccak => s.keccak@,
        Category::ShaExtend => s.sha_extend@,
        Category::ShaCompress => s.sha_compress@,
        Category::Memory => s.memory@,
        Category::MemoryInit => s.memory_init@,
    }
}

/// The concatenation, in shard-index order, of the events of one category
/// over a sequence of shards.
pub open spec fn shards_cat(shards: Seq<Shard>, c: Category) -> Seq<Event>
    decreases shards.len(),
{
    if shards.len() == 0 {
        Seq::empty()
    } else {
        shards_cat(shards.drop_last(), c) + shard_cat(shards.last(), c)
    }
}

proof fn lemma_shards_cat_push(shards: Seq<Shard>, sh: Shard, c: Category)
    ensures
        shards_cat(shards.push(sh), c) == shards_cat(shards, c) + shard_cat(sh, c),
{
    assert(shards.push(sh).drop_last() =~= shards);
    assert(shards.push(sh).last() == sh);
}

proof fn lemma_cat_push(s: Seq<Event>, e: Event, c: Category)
    ensures
        e.category == c ==> cat_events(s.push(e), c) == cat_events(s, c).push(e),
        e.category != c ==> cat_events(s.push(e), c) == cat_events(s, c),
{
    reveal(Seq::filter);
    assert(s.push(e).drop_last() =~= s);
    assert(s.push(e).last() == e);
    if e.category == c {
        assert(cat_events(s, c) + seq![e] =~= cat_events(s, c).push(e));
    } else {
        assert(cat_events(s, c) + Seq::<Event>::empty() =~= cat_events(s, c));
    }
}

proof fn lemma_cat_push_each(s: Seq<Event>, e: Event)
    ensures
        cat_events(s.push(e), Category::Cycle) == if e.category == Category::Cycle {
            cat_events(s, Category::Cycle).push(e)
        } else {
            cat_events(s, Category::Cycle)
        },
        cat_events(s.push(e), Category::Keccak) == if e.category == Category::Keccak {
            cat_events(s, Category::Keccak).push(e)
        } else {
            cat_events(s, Category::Keccak)
        },
        cat_events(s.push(e), Category::ShaExtend) == if e.category == Category::ShaExtend {
            cat_events(s, Category::ShaExtend).push(e)
        } else {
            cat_events(s, Category::ShaExtend)
        },
        cat_events(s.push(e), Category::ShaCompress) == if e.category == Category::ShaCompress {
            cat_events(s, Category::ShaCompress).push(e)
        } else {
            cat_events(s, Category::ShaCompress)
        },
        cat_events(s.push(e), Category::Memory) == if e.category == Category::Memory {
            cat_events(s, Category::Memory).push(e)
        } else {
            cat_events(s, Category::Memory)
        },
        cat_events(s.push(e), Category::MemoryInit) == if e.category == Category::MemoryInit {
            cat_events(s, Category::MemoryInit).push(e)
        } else {
            cat_events(s, Category::MemoryInit)
        },
{
    lemma_cat_push(s, e, Category::Cycle);
    lemma_cat_push(s, e, Category::Keccak);
    lemma_cat_push(s, e, Category::ShaExtend);
    lemma_cat_push(s, e, Category::ShaCompress);
    lemma_cat_push(s, e, Category::Memory);
    lemma_cat_push(s, e, Category::MemoryInit);
}

/// Whether a shard's per-category counts respect the cutting rule: at most
/// a full shard of cycles, and each deferred category at or under its
/// threshold (one event over a zero threshold, which cuts on arrival).
/// Memory bookkeeping is exempt.
pub open spec fn shard_within_bounds(s: Shard, shard_size: usize, split: SplitOpts) -> bool {
    &&& s.cycles@.len() <= shard_size || s.cycles@.len() <= 1
    &&& s.keccak@.len() <= split.keccak || s.keccak@.len() <= 1
    &&& s.sha_extend@.len() <= split.sha_extend || s.sha_extend@.len() <= 1
    &&& s.sha_compress@.len() <= split.sha_compress || s.sha_compress@.len() <= 1
    &&& s.memory@.len() <= split.memory || s.memory@.len() <= 1
}

/// Whether a category counts toward the accumulated deferred total.
pub open spec fn is_deferred(c: Category) -> bool {
    ||| c == Category::Keccak
    ||| c == Category::ShaExtend
    ||| c == Category::ShaCompress
    ||| c == Category::Memory
}

/// The number of deferred events in a stream.
pub open spec fn deferred_count(s: Seq<Event>) -> int
    decreases s.len(),
{
    if s.len() == 0 {
        0
    } else {
        deferred_count(s.drop_last()) + if is_deferred(s.last().category) {
            1int
        } else {
            0int
        }
    }
}

proof fn lemma_deferred_count_push(s: Seq<Event>, e: Event)
    ensures
        deferred_count(s.push(e)) == deferred_count(s) + if is_deferred(e.category) {
            1int
        } else {
            0int
        },
{
    assert(s.push(e).drop_last() =~= s);
    assert(s.push(e).last() == e);
}

/// Whether closing `s` as a non-terminal shard is justified by the cutting
/// rule: its cycle count reached the shard size (one cycle over a zero
/// shard size), or some deferred category reached its split threshold.
/// Memory bookkeeping never justifies a cut.
pub open spec fn shard_cut_justified(s: Shard, shard_size: usize, split: SplitOpts) -> bool {
    ||| shard_size > 0 && s.cycles@.len() == shard_size
    ||| shard_size == 0 && s.cycles@.len() == 1
    ||| s.keccak@.len() > 0 && s.keccak@.len() >= split.keccak
    ||| s.sha_extend@.len() > 0 && s.sha_extend@.len() >= split.sha_extend
    ||| s.sha_compress@.len() > 0 && s.sha_compress@.len() >= split.sha_compress
    ||| s.memory@.len() > 0 && s.memory@.len() >= split.memory
}

/// Close the open shard: its cycles, its flushed bookkeeping events, and
/// every pending deferred category at or over its threshold move into a new
/// shard appended to `shards`; categories under threshold carry forward and
/// come back to the caller in category order.
#[verifier::rlimit(50)]
fn close_shard(
    shards: &mut Vec<Shard>,
    cur_cycles: Vec<Event>,
    cur_init: Vec<Event>,
    pend_keccak: Vec<Event>,
    pend_sha_extend: Vec<Event>,
    pend_sha_compress: Vec<Event>,
    pend_memory: Vec<Event>,
    opts: &SP1CoreOpts,
) -> (kept: (Vec<Event>, Vec<Event>, Vec<Event>, Vec<Event>))
    requires
        forall|i: int|
            0 <= i < old(shards)@.len() ==> (#[trigger] old(shards)@[i]).index == i,
    ensures
        final(shards)@.len() == old(shards)@.len() + 1,
        forall|i: int|
            0 <= i < old(shards)@.len() ==> #[trigger] final(shards)@[i] == old(shards)@[i],
        forall|i: int|
            0 <= i < final(shards)@.len() ==> (#[trigger] final(shards)@[i]).index == i,
        final(shards)@.last().cycles@ == cur_cycles@,
        final(shards)@.last().memory_init@ == cur_init@,
        pend_keccak@.len() >= opts.split_opts.keccak ==> final(shards)@.last().keccak@
            == pend_keccak@ && kept.0@ == Seq::<Event>::empty(),
        pend_keccak@.len() < opts.split_opts.keccak ==> final(shards)@.last().keccak@.len() == 0
            && kept.0@ == pend_keccak@,
        pend_sha_extend@.len() >= opts.split_opts.sha_extend ==> final(shards)@.last().sha_extend@
            == pend_sha_extend@ && kept.1@ == Seq::<Event>::empty(),
        pend_sha_extend@.len() < opts.split_opts.sha_extend
            ==> final(shards)@.last().sha_extend@.len() == 0 && kept.1@ == pend_sha_extend@,
        pend_sha_compress@.len() >= opts.split_opts.sha_compress
            ==> final(shards)@.last().sha_compress@ == pend_sha_compress@ && kept.2@ == Seq::<Event>::empty(),
        pend_sha_compress@.len() < opts.split_opts.sha_compress
            ==> final(shards)@.last().sha_compress@.len() == 0 && kept.2@ == pend_sha_compress@,
        pend_memory@.len() >= opts.split_opts.memory ==> final(shards)@.last().memory@
            == pend_memory@ && kept.3@ == Seq::<Event>::empty(),
        pend_memory@.len() < opts.split_opts.memory ==> final(shards)@.last().memory@.len() == 0
            && kept.3@ == pend_memory@,
        shards_cat(final(shards)@, Category::Cycle) == shards_cat(old(shards)@, Category::Cycle)
            + cur_cycles@,
        shards_cat(final(shards)@, Category::MemoryInit) == shards_cat(
            old(shards)@,
            Category::MemoryInit,
        ) + cur_init@,
        shards_cat(final(shards)@, Category::Keccak) + kept.0@ == shards_cat(
            old(shards)@,
            Category::Keccak,
        ) + pend_keccak@,
        shards_cat(final(shards)@, Category::ShaExtend) + kept.1@ == shards_cat(
            old(shards)@,
            Category::ShaExtend,
        ) + pend_sha_extend@,
        shards_cat(final(shards)@, Category::ShaCompress) + kept.2@ == shards_cat(
            old(shards)@,
            Category::ShaCompress,
        ) + pend_sha_compress@,
        shards_cat(final(shards)@, Category::Memory) + kept.3@ == shards_cat(
            old(shards)@,
            Category::Memory,
        ) + pend_memory@,
{
    let mut sh = Shard {
        index: shards.len(),
        cycles: cur_cycles,
        keccak: Vec::new(),
        sha_extend: Vec::new(),
        sha_compress: Vec::new(),
        memory: Vec::new(),
        memory_init: cur_init,
    };
    let mut kept_keccak: Vec<Event> = Vec::new();
    let mut kept_sha_extend: Vec<Event> = Vec::new();
    let mut kept_sha_compress: Vec<Event> = Vec::new();
    let mut kept_memory: Vec<Event> = Vec::new();
    if pend_keccak.len() >= opts.split_opts.keccak {
        sh.keccak = pend_keccak;
    } else {
        kept_keccak = pend_keccak;
    }
    if pend_sha_extend.len() >= opts.split_opts.sha_extend {
        sh.sha_extend = pend_sha_extend;
    } else {
        kept_sha_extend = pend_sha_extend;
    }
    if pend_sha_compress.len() >= opts.split_opts.sha_compress {
        sh.sha_compress = pend_sha_compress;
    } else {
        kept_sha_compress = pend_sha_compress;
    }
    if pend_memory.len() >= opts.split_opts.memory {
        sh.memory = pend_memory;
    } else {
        kept_memory = pend_memory;
    }
    proof {
        lemma_shards_cat_push(shards@, sh, Category::Cycle);
        lemma_shards_cat_push(shards@, sh, Category::Keccak);
        lemma_shards_cat_push(shards@, sh, Category::ShaExtend);
        lemma_shards_cat_push(shards@, sh, Category::ShaCompress);
        lemma_shards_cat_push(shards@, sh, Category::Memory);
        lemma_shards_cat_push(shards@, sh, Category::MemoryInit);
    }
    shards.push(sh);
    proof {
        assert(shards_cat(shards@, Category::Keccak) + kept_keccak@ =~= shards_cat(
            old(shards)@,
            Category::Keccak,
        ) + pend_keccak@);
        assert(shards_cat(shards@, Category::ShaExtend) + kept_sha_extend@ =~= shards_cat(
            old(shards)@,
            Category::ShaExtend,
        ) + pend_sha_extend@);
        assert(shards_cat(shards@, Category::ShaCompress) + kept_sha_compress@ =~= shards_cat(
            old(shards)@,
            Category::ShaCompress,
        ) + pend_sha_compress@);
        assert(shards_cat(shards@, Category::Memory) + kept_memory@ =~= shards_cat(
            old(shards)@,
            Category::Memory,
        ) + pend_memory@);
    }
    (kept_keccak, kept_sha_extend, kept_sha_compress, kept_memory)
}

/// Cut the event stream into bounded shards.
///
/// The round-trip law stands in the `ensures`: for every category,
/// concatenating the shards' events in shard-index order reproduces exactly
/// that category's events of the input stream — no duplication, no loss —
/// and the shards are indexed consecutively from zero. Every non-terminal
/// shard closes only at a justified boundary — its cycle count at the shard
/// size or a deferred category at its threshold — and carries memory
/// bookkeeping events only when the stream's accumulated deferred count
/// exceeds the combine-memory threshold; otherwise the bookkeeping rides to
/// the terminal shard, which the round trip places it in.
#[verifier::rlimit(50)]
pub fn assemble_shards(events: &Vec<Event>, opts: &SP1CoreOpts) -> (r: Vec<Shard>)
    ensures
        forall|c: Category| #[trigger] shards_cat(r@, c) == cat_events(events@, c),
        forall|i: int| 0 <= i < r@.len() ==> (#[trigger] r@[i]).index == i,
        forall|i: int|
            0 <= i < r@.len() ==> shard_within_bounds(#[trigger] r@[i], opts.shard_size, opts.split_opts),
        forall|i: int|
            0 <= i && i + 1 < r@.len() ==> shard_cut_justified(
                #[trigger] r@[i],
                opts.shard_size,
                opts.split_opts,
            ),
        forall|i: int|
            0 <= i && i + 1 < r@.len() && (#[trigger] r@[i]).memory_init@.len() > 0
                ==> deferred_count(events@) > opts.split_opts.combine_memory_threshold,
{
    let n = events.len();
    let mut shards: Vec<Shard> = Vec::new();
    let mut cur_cycles: Vec<Event> = Vec::new();
    let mut cur_init: Vec<Event> = Vec::new();
    let mut pend_keccak: Vec<Event> = Vec::new();
    let mut pend_sha_extend: Vec<Event> = Vec::new();
    let mut pend_sha_compress: Vec<Event> = Vec::new();
    let mut pend_memory: Vec<Event> = Vec::new();
    let mut pend_init: Vec<Event> = Vec::new();
    let mut cycle_count: usize = 0;
    let mut deferred_seen: usize = 0;
    let mut k: usize = 0;
    proof {
        assert(events@.take(0) =~= Seq::<Event>::empty());
        reveal(Seq::filter);
    }
    while k < n
        invariant
            k <= n == events@.len(),
            cycle_count <= k,
            deferred_seen <= k,
            deferred_seen == deferred_count(events@.take(k as int)),
            cur_init@.len() > 0 ==> deferred_seen > opts.split_opts.combine_memory_threshold,
            cur_cycles@.len() == cycle_count,
            opts.shard_size > 0 ==> cycle_count < opts.shard_size,
            opts.shard_size == 0 ==> cycle_count == 0,
            opts.split_opts.keccak > 0 ==> pend_keccak@.len() < opts.split_opts.keccak,
            opts.split_opts.keccak == 0 ==> pend_keccak@.len() == 0,
            opts.split_opts.sha_extend > 0 ==> pend_sha_extend@.len() < opts.split_opts.sha_extend,
            opts.split_opts.sha_extend == 0 ==> pend_sha_extend@.len() == 0,
            opts.split_opts.sha_compress > 0 ==> pend_sha_compress@.len()
                < opts.split_opts.sha_compress,
            opts.split_opts.sha_compress == 0 ==> pend_sha_compress@.len() == 0,
            opts.split_opts.memory > 0 ==> pend_memory@.len() < opts.split_opts.memory,
            opts.split_opts.memory == 0 ==> pend_memory@.len() == 0,
            forall|i: int|
                0 <= i < shards@.len() ==> shard_within_bounds(
                    #[trigger] shards@[i],
                    opts.shard_size,
                    opts.split_opts,
                ),
            forall|i: int|
                0 <= i < shards@.len() ==> shard_cut_justified(
                    #[trigger] shards@[i],
                    opts.shard_size,
                    opts.split_opts,
                ),
            forall|i: int|
                0 <= i < shards@.len() && (#[trigger] shards@[i]).memory_init@.len() > 0
                    ==> deferred_count(events@.take(k as int))
                    > opts.split_opts.combine_memory_threshold,
            shards_cat(shards@, Category::Cycle) + cur_cycles@ == cat_events(
                events@.take(k as int),
                Category::Cycle,
            ),
            shards_cat(shards@, Category::Keccak) + pend_keccak@ == cat_events(
                events@.take(k as int),
                Category::Keccak,
            ),
            shards_cat(shards@, Category::ShaExtend) + pend_sha_extend@ == cat_events(
                events@.take(k as int),
                Category::ShaExtend,
            ),
            shards_cat(shards@, Category::ShaCompress) + pend_sha_compress@ == cat_events(
                events@.take(k as int),
                Category::ShaCompress,
            ),
            shards_cat(shards@, Category::Memory) + pend_memory@ == cat_events(
                events@.take(k as int),
                Category::Memory,
            ),
            shards_cat(shards@, Category::MemoryInit) + cur_init@ + pend_init@ == cat_events(
                events@.take(k as int),
                Category::MemoryInit,
            ),
            forall|i: int| 0 <= i < shards@.len() ==> (#[trigger] shards@[i]).index == i,
        decreases n - k,
    {
        let e = events[k];
        proof {
            assert(events@.take(k + 1) =~= events@.take(k as int).push(e));
            lemma_cat_push_each(events@.take(k as int), e);
            lemma_deferred_count_push(events@.take(k as int), e);
        }
        let mut cut = false;
        match e.category {
            Category::Cycle => {
                cur_cycles.push(e);
                cycle_count = cycle_count + 1;
                if cycle_count >= opts.shard_size {
                    cut = true;
                }
            },
            Category::Keccak => {
                pend_keccak.push(e);
                deferred_seen = deferred_seen + 1;
                if pend_keccak.len() >= opts.split_opts.keccak {
                    cut = true;
                }
            },
            Category::ShaExtend => {
                pend_sha_extend.push(e);
                deferred_seen = deferred_seen + 1;
                if pend_sha_extend.len() >= opts.split_opts.sha_extend {
                    cut = true;
                }
            },
            Category::ShaCompress => {
                pend_sha_compress.push(e);
                deferred_seen = deferred_seen + 1;
                if pend_sha_compress.len() >= opts.split_opts.sha_compress {
                    cut = true;
                }
            },
            Category::Memory => {
                pend_memory.push(e);
                deferred_seen = deferred_seen + 1;
                if pend_memory.len() >= opts.split_opts.memory {
                    cut = true;
                }
            },
            Category::MemoryInit => {
                pend_init.push(e);
            },
        }
        proof {
            assert(shards_cat(shards@, Category::Cycle) + cur_cycles@ =~= cat_events(
                events@.take(k + 1),
                Category::Cycle,
            ));
            assert(shards_cat(shards@, Category::Keccak) + pend_keccak@ =~= cat_events(
                events@.take(k + 1),
                Category::Keccak,
            ));
            assert(shards_cat(shards@, Category::ShaExtend) + pend_sha_extend@ =~= cat_events(
                events@.take(k + 1),
                Category::ShaExtend,
            ));
            assert(shards_cat(shards@, Category::ShaCompress) + pend_sha_compress@ =~= cat_events(
                events@.take(k + 1),
                Category::ShaCompress,
            ));
            assert(shards_cat(shards@, Category::Memory) + pend_memory@ =~= cat_events(
                events@.take(k + 1),
                Category::Memory,
            ));
            assert(shards_cat(shards@, Category::MemoryInit) + cur_init@ + pend_init@
                =~= cat_events(events@.take(k + 1), Category::MemoryInit));
            assert(deferred_seen == deferred_count(events@.take(k + 1)));
        }
        // Bound resident memory: once the accumulated deferred count
        // exceeds the combine-memory threshold, the pending bookkeeping
        // events are combined into the current shard.
        if deferred_seen > opts.split_opts.combine_memory_threshold && pend_init.len() > 0 {
            cur_init.append(&mut pend_init);
            proof {
                assert(shards_cat(shards@, Category::MemoryInit) + cur_init@ + pend_init@
                    =~= cat_events(events@.take(k + 1), Category::MemoryInit));
            }
        }
        if cut {
            let kept = close_shard(
                &mut shards,
                cur_cycles,
                cur_init,
                pend_keccak,
                pend_sha_extend,
                pend_sha_compress,
                pend_memory,
                opts,
            );
            cur_cycles = Vec::new();
            cur_init = Vec::new();
            pend_keccak = kept.0;
            pend_sha_extend = kept.1;
            pend_sha_compress = kept.2;
            pend_memory = kept.3;
            cycle_count = 0;
            proof {
                assert(shards_cat(shards@, Category::Cycle) + cur_cycles@ =~= cat_events(
                    events@.take(k + 1),
                    Category::Cycle,
                ));
                assert(shards_cat(shards@, Category::Keccak) + pend_keccak@ =~= cat_events(
                    events@.take(k + 1),
                    Category::Keccak,
                ));
                assert(shards_cat(shards@, Category::ShaExtend) + pend_sha_extend@
                    =~= cat_events(events@.take(k + 1), Category::ShaExtend));
                assert(shards_cat(shards@, Category::ShaCompress) + pend_sha_compress@
                    =~= cat_events(events@.take(k + 1), Category::ShaCompress));
                assert(shards_cat(shards@, Category::Memory) + pend_memory@ =~= cat_events(
                    events@.take(k + 1),
                    Category::Memory,
                ));
                assert(shards_cat(shards@, Category::MemoryInit) + cur_init@ + pend_init@
                    =~= cat_events(events@.take(k + 1), Category::MemoryInit));
                assert(shard_cut_justified(shards@.last(), opts.shard_size, opts.split_opts));
                assert(shards@.last().memory_init@.len() > 0 ==> deferred_count(
                    events@.take(k + 1),
                ) > opts.split_opts.combine_memory_threshold);
            }
        }
        k = k + 1;
    }
    // The terminal shard absorbs every pending category unconditionally
    // and flushes the memory bookkeeping.
    proof {
        assert(events@.take(n as int) =~= events@);
    }
    cur_init.append(&mut pend_init);
    let terminal = Shard {
        index: shards.len(),
        cycles: cur_cycles,
        keccak: pend_keccak,
        sha_extend: pend_sha_extend,
        sha_compress: pend_sha_compress,
        memory: pend_memory,
        memory_init: cur_init,
    };
    proof {
        lemma_shards_cat_push(shards@, terminal, Category::Cycle);
        lemma_shards_cat_push(shards@, terminal, Category::Keccak);
        lemma_shards_cat_push(shards@, terminal, Category::ShaExtend);
        lemma_shards_cat_push(shards@, terminal, Category::ShaCompress);
        lemma_shards_cat_push(shards@, terminal, Category::Memory);
        lemma_shards_cat_push(shards@, terminal, Category::MemoryInit);
    }
    shards.push(terminal);
    proof {
        assert(shards_cat(shards@, Category::Cycle) =~= cat_events(events@, Category::Cycle));
        assert(shards_cat(shards@, Category::Keccak) =~= cat_events(events@, Category::Keccak));
        assert(shards_cat(shards@, Category::ShaExtend) =~= cat_events(
            events@,
            Category::ShaExtend,
        ));
        assert(shards_cat(shards@, Category::ShaCompress) =~= cat_events(
            events@,
            Category::ShaCompress,
        ));
        assert(shards_cat(shards@, Category::Memory) =~= cat_events(events@, Category::Memory));
        assert(shards_cat(shards@, Category::MemoryInit) =~= cat_events(
            events@,
            Category::MemoryInit,
        ));
        assert forall|c: Category| #[trigger] shards_cat(shards@, c) == cat_events(
            events@,
            c,
        ) by {
            match c {
                Category::Cycle => {},
                Category::Keccak => {},
                Category::ShaExtend => {},
                Category::ShaCompress => {},
                Category::Memory => {},
                Category::MemoryInit => {},
            }
        }
    }
    shards
}

} // verus!
