use sp1_core::opts::{SP1CoreOpts, SplitOpts};
use sp1_core::split::{assemble_shards, Category, Event, Shard};

fn tiny_opts() -> SP1CoreOpts {
    SP1CoreOpts {
        shard_size: 3,
        shard_batch_size: 1,
        split_opts: SplitOpts {
            combine_memory_threshold: 4,
            deferred: 2,
            keccak: 2,
            sha_extend: 2,
            sha_compress: 2,
            memory: 3,
        },
        trace_gen_workers: 1,
        checkpoints_channel_capacity: 1,
        records_and_traces_channel_capacity: 1,
    }
}

fn ev(category: Category, data: u64) -> Event {
    Event { category, data }
}

fn collect(shards: &[Shard], category: Category) -> Vec<Event> {
    let mut out = Vec::new();
    for sh in shards {
        let list = match category {
            Category::Cycle => &sh.cycles,
            Category::Keccak => &sh.keccak,
            Category::ShaExtend => &sh.sha_extend,
            Category::ShaCompress => &sh.sha_compress,
            Category::Memory => &sh.memory,
            Category::MemoryInit => &sh.memory_init,
        };
        out.extend_from_slice(list);
    }
    out
}

fn filtered(stream: &[Event], category: Category) -> Vec<Event> {
    stream.iter().copied().filter(|e| e.category == category).collect()
}

const ALL_CATEGORIES: [Category; 6] = [
    Category::Cycle,
    Category::Keccak,
    Category::ShaExtend,
    Category::ShaCompress,
    Category::Memory,
    Category::MemoryInit,
];

#[test]
fn round_trip_reproduces_the_stream() {
    let stream = vec![
        ev(Category::Cycle, 0),
        ev(Category::Keccak, 1),
        ev(Category::Cycle, 2),
        ev(Category::MemoryInit, 3),
        ev(Category::Keccak, 4),
        ev(Category::Cycle, 5),
        ev(Category::ShaExtend, 6),
        ev(Category::Cycle, 7),
        ev(Category::Memory, 8),
        ev(Category::Cycle, 9),
        ev(Category::ShaCompress, 10),
        ev(Category::Cycle, 11),
        ev(Category::Cycle, 12),
    ];
    let shards = assemble_shards(&stream, &tiny_opts());
    assert!(!shards.is_empty());
    for (i, sh) in shards.iter().enumerate() {
        assert_eq!(sh.index, i);
    }
    for c in ALL_CATEGORIES {
        assert_eq!(collect(&shards, c), filtered(&stream, c));
    }
}

#[test]
fn cycle_threshold_cuts_shards() {
    let stream: Vec<Event> = (0..7).map(|i| ev(Category::Cycle, i)).collect();
    let shards = assemble_shards(&stream, &tiny_opts());
    // Seven cycles with a shard size of three: two full shards and a
    // terminal shard with the single remaining cycle.
    assert_eq!(shards.len(), 3);
    assert_eq!(shards[0].cycles.len(), 3);
    assert_eq!(shards[1].cycles.len(), 3);
    assert_eq!(shards[2].cycles.len(), 1);
    for c in ALL_CATEGORIES {
        assert_eq!(collect(&shards, c), filtered(&stream, c));
    }
}

#[test]
fn deferred_category_reaching_threshold_cuts_and_moves() {
    let stream = vec![
        ev(Category::Cycle, 0),
        ev(Category::Keccak, 1),
        ev(Category::Keccak, 2),
        ev(Category::Cycle, 3),
    ];
    let shards = assemble_shards(&stream, &tiny_opts());
    // The second keccak event reaches the threshold of two and cuts; the
    // keccak events move into the closed shard while the single cycle
    // closes with it. The last cycle lands in the terminal shard.
    assert_eq!(shards.len(), 2);
    assert_eq!(shards[0].keccak.len(), 2);
    assert_eq!(shards[0].cycles.len(), 1);
    assert_eq!(shards[1].cycles.len(), 1);
    for c in ALL_CATEGORIES {
        assert_eq!(collect(&shards, c), filtered(&stream, c));
    }
}

#[test]
fn under_threshold_categories_carry_forward() {
    let stream = vec![
        ev(Category::ShaExtend, 0),
        ev(Category::Cycle, 1),
        ev(Category::Cycle, 2),
        ev(Category::Cycle, 3),
        ev(Category::Cycle, 4),
    ];
    let shards = assemble_shards(&stream, &tiny_opts());
    // The single sha-extend event stays under its threshold of two at the
    // first cut and rides until the terminal shard.
    assert_eq!(shards.len(), 2);
    assert_eq!(shards[0].sha_extend.len(), 0);
    assert_eq!(shards[1].sha_extend.len(), 1);
    for c in ALL_CATEGORIES {
        assert_eq!(collect(&shards, c), filtered(&stream, c));
    }
}

#[test]
fn memory_bookkeeping_rides_to_terminal_shard() {
    let stream = vec![
        ev(Category::MemoryInit, 0),
        ev(Category::Cycle, 1),
        ev(Category::Cycle, 2),
        ev(Category::Cycle, 3),
        ev(Category::Cycle, 4),
    ];
    let shards = assemble_shards(&stream, &tiny_opts());
    assert_eq!(shards.len(), 2);
    // Exempt from count-based splitting: the bookkeeping event does not
    // close with the first shard, it is flushed into the terminal one.
    assert_eq!(shards[0].memory_init.len(), 0);
    assert_eq!(shards[1].memory_init.len(), 1);
}

#[test]
fn combine_threshold_flushes_bookkeeping_into_current_shard() {
    let mut stream = vec![ev(Category::MemoryInit, 0)];
    // Six deferred events push the accumulated deferred count past the
    // combine-memory threshold of four; the keccak threshold of two keeps
    // cutting, so the flushed bookkeeping lands in a non-terminal shard.
    for i in 0..6 {
        stream.push(ev(Category::Keccak, 1 + i));
    }
    stream.push(ev(Category::Cycle, 100));
    let shards = assemble_shards(&stream, &tiny_opts());
    let init_total: usize = shards.iter().map(|s| s.memory_init.len()).sum();
    assert_eq!(init_total, 1);
    let last = shards.len() - 1;
    assert_eq!(shards[last].memory_init.len(), 0);
    for c in ALL_CATEGORIES {
        assert_eq!(collect(&shards, c), filtered(&stream, c));
    }
}

#[test]
fn empty_stream_yields_one_empty_terminal_shard() {
    let stream: Vec<Event> = Vec::new();
    let shards = assemble_shards(&stream, &tiny_opts());
    assert_eq!(shards.len(), 1);
    assert_eq!(shards[0].index, 0);
    assert!(shards[0].cycles.is_empty());
    assert!(shards[0].keccak.is_empty());
}
