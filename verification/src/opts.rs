//! Sizing and concurrency options for the prover.
//!
//! All knobs are derived once from the host's memory and a set of optional
//! positive-integer overrides, then threaded through the pipeline by value.
//! Malformed or missing overrides fall back to the computed defaults; the
//! resolution itself never fails.

use vstd::prelude::*;
use vstd::string::StringSliceAdditionalSpecFns;
use vstd::utf8::encode_utf8;

verus! {

/// The hard cap on the size of a core shard, in cycles.
pub const MAX_SHARD_SIZE: usize = 2097152;

/// The fixed shard size used by the recursion prover, whose shards carry
/// fewer, larger events.
pub const RECURSION_MAX_SHARD_SIZE: usize = 4194304;

/// The largest useful shard batch size.
pub const MAX_SHARD_BATCH_SIZE: usize = 8;

/// The default number of trace-generation workers.
pub const DEFAULT_TRACE_GEN_WORKERS: usize = 1;

/// The default capacity of the checkpoint channel.
pub const DEFAULT_CHECKPOINTS_CHANNEL_CAPACITY: usize = 128;

/// The default capacity of the records-and-traces channel.
pub const DEFAULT_RECORDS_AND_TRACES_CHANNEL_CAPACITY: usize = 1;

/// The floor (and default) for the deferred-event split threshold.
pub const MAX_DEFERRED_SPLIT_THRESHOLD: usize = 32768;

/// Thresholds for splitting deferred events into shards.
///
/// Each category expands into trace rows at a different multiplicity per raw
/// event, so the per-category thresholds are fixed rational multiples of one
/// base threshold, normalizing the contribution of every category to a
/// comparable row count per shard.
#[derive(Clone, Copy, Debug, PartialEq, Eq, Structural)]
pub struct SplitOpts {
    /// The threshold above which pending memory init/finalize bookkeeping
    /// events are combined into the current shard, in cycles.
    pub combine_memory_threshold: usize,
    /// The threshold for default deferred events.
    pub deferred: usize,
    /// The threshold for keccak events.
    pub keccak: usize,
    /// The threshold for sha extend events.
    pub sha_extend: usize,
    /// The threshold for sha compress events.
    pub sha_compress: usize,
    /// The threshold for memory events.
    pub memory: usize,
}

/// The value of [`SplitOpts::new`] as a function of the base threshold.
pub open spec fn spec_split_opts(t: usize) -> SplitOpts {
    SplitOpts {
        combine_memory_threshold: (1usize << 26),
        deferred: t,
        keccak: (8 * t / 24) as usize,
        sha_extend: (32 * t / 48) as usize,
        sha_compress: (32 * t / 80) as usize,
        memory: (64 * t) as usize,
    }
}

impl SplitOpts {
    /// Create a new [`SplitOpts`] with the given base threshold.
    ///
    /// The ratios are chosen carefully to bound per-shard memory uniformly
    /// across heterogeneous event categories.
    #[must_use]
    pub fn new(deferred_split_threshold: usize) -> (r: Self)
        requires
            deferred_split_threshold <= usize::MAX / 64,
        ensures
            r == spec_split_opts(deferred_split_threshold),
    {
        Self {
            combine_memory_threshold: 1 << 26,
            deferred: deferred_split_threshold,
            keccak: 8 * deferred_split_threshold / 24,
            sha_extend: 32 * deferred_split_threshold / 48,
            sha_compress: 32 * deferred_split_threshold / 80,
            memory: 64 * deferred_split_threshold,
        }
    }
}

/// Law: for every admissible base threshold, the derived thresholds follow
/// the fixed ratios — keccak 8/24, sha-extend 32/48, sha-compress 32/80,
/// memory 64x — and the combine-memory threshold is the constant 2^26,
/// independent of the base threshold's magnitude.
pub proof fn lemma_split_ratios(t: usize)
    requires
        t <= usize::MAX / 64,
    ensures
        spec_split_opts(t).deferred == t,
        spec_split_opts(t).keccak == 8 * t / 24,
        spec_split_opts(t).sha_extend == 32 * t / 48,
        spec_split_opts(t).sha_compress == 32 * t / 80,
        spec_split_opts(t).memory == 64 * t,
        spec_split_opts(t).combine_memory_threshold == 1usize << 26,
{
}

/// The default shard size as a function of total host memory in GB.
///
/// A memory-fit heuristic, deliberately coarse: below 15 GB the shard size is
/// 2^17; above, the log2 of the shard size grows with the log2 of the memory
/// (about 0.619·log2(mem) + 16.2, floored), capped at 2^21. Evaluated
/// exactly as a step function of the memory size.
pub open spec fn spec_shard_size(mem_gb: u64) -> usize {
    if mem_gb <= 14 {
        131072usize  // 2^17
    } else if mem_gb <= 22 {
        262144usize  // 2^18
    } else if mem_gb <= 70 {
        524288usize  // 2^19
    } else if mem_gb <= 215 {
        1048576usize  // 2^20
    } else {
        2097152usize  // 2^21
    }
}

/// Calculate the default shard size from the total available memory in GB.
#[must_use]
pub fn shard_size(total_available_mem: u64) -> (r: usize)
    ensures
        r == spec_shard_size(total_available_mem),
{
    if total_available_mem <= 14 {
        131072
    } else if total_available_mem <= 22 {
        262144
    } else if total_available_mem <= 70 {
        524288
    } else if total_available_mem <= 215 {
        1048576
    } else {
        MAX_SHARD_SIZE
    }
}

/// Law: the default shard size is non-decreasing in the host's memory and
/// never exceeds the cap of 2^21 cycles.
pub proof fn lemma_shard_size_monotone(m1: u64, m2: u64)
    requires
        m1 <= m2,
    ensures
        spec_shard_size(m1) <= spec_shard_size(m2),
        spec_shard_size(m2) <= MAX_SHARD_SIZE,
{
}

/// The default shard batch size as a function of total host memory in GB:
/// a monotone step function, 1 on memory-constrained hosts up to 8 on very
/// large ones.
pub open spec fn spec_shard_batch_size(mem_gb: u64) -> usize {
    if mem_gb <= 16 {
        1usize
    } else if mem_gb <= 48 {
        2usize
    } else if mem_gb >= 256 {
        MAX_SHARD_BATCH_SIZE
    } else {
        4usize
    }
}

/// Calculate the default shard batch size from the total available memory in
/// GB.
#[must_use]
pub fn shard_batch_size(total_available_mem: u64) -> (r: usize)
    ensures
        r == spec_shard_batch_size(total_available_mem),
{
    if total_available_mem <= 16 {
        1
    } else if total_available_mem <= 48 {
        2
    } else if total_available_mem >= 256 {
        MAX_SHARD_BATCH_SIZE
    } else {
        4
    }
}

/// Law: the default shard batch size is non-decreasing in the host's memory
/// and never exceeds 8.
pub proof fn lemma_shard_batch_size_monotone(m1: u64, m2: u64)
    requires
        m1 <= m2,
    ensures
        spec_shard_batch_size(m1) <= spec_shard_batch_size(m2),
        spec_shard_batch_size(m2) <= MAX_SHARD_BATCH_SIZE,
{
}

/// Whether every byte of `s` is an ASCII decimal digit.
pub open spec fn dec_digits(s: Seq<u8>) -> bool {
    forall|i: int| 0 <= i < s.len() ==> 48 <= #[trigger] s[i] <= 57
}

/// The numeric value of a sequence of ASCII decimal digits.
pub open spec fn dec_value(s: Seq<u8>) -> int
    decreases s.len(),
{
    if s.len() == 0 {
        0
    } else {
        10 * dec_value(s.drop_last()) + (s.last() - 48)
    }
}

/// The result of parsing a positive-integer knob from the UTF-8 bytes of its
/// textual value: an optional leading `+`, then one or more decimal digits
/// whose value is positive and fits the machine word; anything else —
/// including zero, which no knob accepts — is malformed.
pub open spec fn spec_parse_usize(s: Seq<u8>) -> Option<usize> {
    let digits = if s.len() > 0 && s[0] == 43 {
        s.drop_first()
    } else {
        s
    };
    if digits.len() > 0 && dec_digits(digits) && 0 < dec_value(digits) && dec_value(digits)
        <= usize::MAX as int {
        Some(dec_value(digits) as usize)
    } else {
        None
    }
}

proof fn lemma_dec_value_nonneg(s: Seq<u8>)
    requires
        dec_digits(s),
    ensures
        dec_value(s) >= 0,
    decreases s.len(),
{
    if s.len() > 0 {
        assert(dec_digits(s.drop_last()));
        lemma_dec_value_nonneg(s.drop_last());
    }
}

proof fn lemma_dec_value_step(s: Seq<u8>, a: int, b: int)
    requires
        0 <= a <= b < s.len(),
    ensures
        dec_value(s.subrange(a, b + 1)) == 10 * dec_value(s.subrange(a, b)) + (s[b] - 48),
{
    assert(s.subrange(a, b + 1).drop_last() =~= s.subrange(a, b));
    assert(s.subrange(a, b + 1).last() == s[b]);
}

proof fn lemma_dec_value_prefix_bound(s: Seq<u8>, i: int)
    requires
        dec_digits(s),
        0 <= i <= s.len(),
    ensures
        dec_value(s.subrange(0, i)) <= dec_value(s),
    decreases s.len() - i,
{
    if i == s.len() {
        assert(s.subrange(0, i) =~= s);
    } else {
        lemma_dec_value_step(s, 0, i);
        assert(dec_digits(s.subrange(0, i)));
        lemma_dec_value_nonneg(s.subrange(0, i));
        lemma_dec_value_prefix_bound(s, i + 1);
    }
}

/// Parse a positive-integer knob value. Returns `None` on anything but an
/// optional `+` sign followed by decimal digits whose value is positive and
/// fits the machine word.
#[verifier::loop_isolation(false)]
pub fn parse_usize(s: &str) -> (r: Option<usize>)
    ensures
        r == spec_parse_usize(s.spec_bytes()),
{
    let bytes = s.as_bytes();
    let ghost all: Seq<u8> = bytes@;
    let n = bytes.len();
    // A leading `+` (byte 43) is accepted by the knob grammar.
    let start: usize = if n > 0 && bytes[0] == 43 {
        1
    } else {
        0
    };
    let ghost digits: Seq<u8> = all.subrange(start as int, n as int);
    proof {
        if start == 1 {
            assert(digits =~= all.drop_first());
        } else {
            assert(digits =~= all);
        }
    }
    if start == n {
        return None;
    }
    let mut i: usize = start;
    let mut val: usize = 0;
    while i < n
        invariant
            start <= i <= n == bytes@.len(),
            bytes@ == all,
            digits == all.subrange(start as int, n as int),
            forall|j: int| start <= j < i ==> 48 <= #[trigger] all[j] <= 57,
            val == dec_value(all.subrange(start as int, i as int)),
            0 <= val <= usize::MAX,
        decreases n - i,
    {
        let d = bytes[i];
        if d < 48 || d > 57 {
            proof {
                // The byte at `i` shows the digits are not all decimal.
                assert(digits[i - start] == all[i as int]);
                assert(!dec_digits(digits));
            }
            return None;
        }
        proof {
            lemma_dec_value_step(all, start as int, i as int);
        }
        let wide: u128 = (val as u128) * 10 + ((d - 48) as u128);
        if wide > usize::MAX as u128 {
            proof {
                // The value of the digits seen so far already overflows, and
                // a digit sequence's value only grows with further digits.
                if dec_digits(digits) {
                    let k: int = i + 1 - start;
                    assert(digits.subrange(0, k) =~= all.subrange(start as int, i + 1));
                    lemma_dec_value_prefix_bound(digits, k);
                }
            }
            return None;
        }
        val = val * 10 + ((d - 48) as usize);
        i += 1;
    }
    proof {
        assert(digits =~= all.subrange(start as int, i as int));
        assert(forall|j: int|
            0 <= j < digits.len() ==> 48 <= #[trigger] digits[j] <= 57);
    }
    if val == 0 {
        // Zero is not a positive-integer knob value.
        return None;
    }
    Some(val)
}

/// Raw textual overrides for the core options, one per knob. A `None`, a
/// malformed or a non-positive value leaves the computed default in force.
#[derive(Clone, Debug)]
pub struct CoreOptOverrides {
    /// Override for the deferred-event split threshold.
    pub split_threshold: Option<String>,
    /// Override for the shard size.
    pub shard_size: Option<String>,
    /// Override for the shard batch size.
    pub shard_batch_size: Option<String>,
    /// Override for the number of trace-generation workers.
    pub trace_gen_workers: Option<String>,
    /// Override for the checkpoint channel capacity.
    pub checkpoints_channel_capacity: Option<String>,
    /// Override for the records-and-traces channel capacity.
    pub records_and_traces_channel_capacity: Option<String>,
}

impl CoreOptOverrides {
    /// No overrides: every knob keeps its computed default.
    pub fn none() -> (r: Self)
        ensures
            r == (CoreOptOverrides {
                split_threshold: None,
                shard_size: None,
                shard_batch_size: None,
                trace_gen_workers: None,
                checkpoints_channel_capacity: None,
                records_and_traces_channel_capacity: None,
            }),
    {
        CoreOptOverrides {
            split_threshold: None,
            shard_size: None,
            shard_batch_size: None,
            trace_gen_workers: None,
            checkpoints_channel_capacity: None,
            records_and_traces_channel_capacity: None,
        }
    }
}

/// The value a knob resolves to: the override where it parses, the computed
/// default otherwise.
pub open spec fn spec_knob(ov: Option<String>, default: usize) -> usize {
    match ov {
        None => default,
        Some(s) => match spec_parse_usize(encode_utf8(s@)) {
            Some(v) => v,
            None => default,
        },
    }
}

/// Resolve one knob from its optional textual override.
pub fn knob_value(ov: &Option<String>, default: usize) -> (r: usize)
    ensures
        r == spec_knob(*ov, default),
{
    match ov {
        None => default,
        Some(s) => match parse_usize(s.as_str()) {
            Some(v) => v,
            None => default,
        },
    }
}

/// The resolved deferred-event split threshold: overridable, floored (never
/// capped) at [`MAX_DEFERRED_SPLIT_THRESHOLD`]. An override so large that
/// threshold derivation would overflow the machine word is treated as
/// malformed and falls back to the default.
pub open spec fn spec_split_threshold(ov: Option<String>) -> usize {
    let raw = spec_knob(ov, MAX_DEFERRED_SPLIT_THRESHOLD);
    if raw > usize::MAX / 64 {
        MAX_DEFERRED_SPLIT_THRESHOLD
    } else if raw < MAX_DEFERRED_SPLIT_THRESHOLD {
        MAX_DEFERRED_SPLIT_THRESHOLD
    } else {
        raw
    }
}

/// Options for the core prover.
#[derive(Clone, Copy, Debug, PartialEq, Eq, Structural)]
pub struct SP1CoreOpts {
    /// The size of a shard in terms of cycles.
    pub shard_size: usize,
    /// The size of a batch of shards in terms of cycles.
    pub shard_batch_size: usize,
    /// Options for splitting deferred events.
    pub split_opts: SplitOpts,
    /// The number of workers to use for generating traces.
    pub trace_gen_workers: usize,
    /// The capacity of the channel for checkpoints.
    pub checkpoints_channel_capacity: usize,
    /// The capacity of the channel for records and traces.
    pub records_and_traces_channel_capacity: usize,
}

/// The core options resolved from a host memory size (in GB) and the given
/// overrides.
pub open spec fn spec_core_opts(mem_gb: u64, ov: CoreOptOverrides) -> SP1CoreOpts {
    SP1CoreOpts {
        shard_size: spec_knob(ov.shard_size, spec_shard_size(mem_gb)),
        shard_batch_size: spec_knob(ov.shard_batch_size, spec_shard_batch_size(mem_gb)),
        split_opts: spec_split_opts(spec_split_threshold(ov.split_threshold)),
        trace_gen_workers: spec_knob(ov.trace_gen_workers, DEFAULT_TRACE_GEN_WORKERS),
        checkpoints_channel_capacity: spec_knob(
            ov.checkpoints_channel_capacity,
            DEFAULT_CHECKPOINTS_CHANNEL_CAPACITY,
        ),
        records_and_traces_channel_capacity: spec_knob(
            ov.records_and_traces_channel_capacity,
            DEFAULT_RECORDS_AND_TRACES_CHANNEL_CAPACITY,
        ),
    }
}

impl SP1CoreOpts {
    /// Resolve the core options from the host's memory size in GB and the
    /// given knob overrides. Deterministic: equal inputs give equal options.
    #[must_use]
    pub fn from_memory(mem_gb: u64, overrides: &CoreOptOverrides) -> (r: Self)
        ensures
            r == spec_core_opts(mem_gb, *overrides),
    {
        let raw = knob_value(&overrides.split_threshold, MAX_DEFERRED_SPLIT_THRESHOLD);
        let split_threshold = if raw > usize::MAX / 64 {
            MAX_DEFERRED_SPLIT_THRESHOLD
        } else if raw < MAX_DEFERRED_SPLIT_THRESHOLD {
            MAX_DEFERRED_SPLIT_THRESHOLD
        } else {
            raw
        };
        let default_shard_size = shard_size(mem_gb);
        let default_shard_batch_size = shard_batch_size(mem_gb);
        Self {
            shard_size: knob_value(&overrides.shard_size, default_shard_size),
            shard_batch_size: knob_value(&overrides.shard_batch_size, default_shard_batch_size),
            split_opts: SplitOpts::new(split_threshold),
            trace_gen_workers: knob_value(&overrides.trace_gen_workers, DEFAULT_TRACE_GEN_WORKERS),
            checkpoints_channel_capacity: knob_value(
                &overrides.checkpoints_channel_capacity,
                DEFAULT_CHECKPOINTS_CHANNEL_CAPACITY,
            ),
            records_and_traces_channel_capacity: knob_value(
                &overrides.records_and_traces_channel_capacity,
                DEFAULT_RECORDS_AND_TRACES_CHANNEL_CAPACITY,
            ),
        }
    }

    /// Resolve the core options against the host's own memory.
    #[must_use]
    pub fn resolve(overrides: &CoreOptOverrides) -> (r: Self)
        ensures
            exists|mem_gb: u64| r == #[trigger] spec_core_opts(mem_gb, *overrides),
    {
        let mem_gb = host_memory_gb();
        let r = Self::from_memory(mem_gb, overrides);
        proof {
            assert(r == spec_core_opts(mem_gb, *overrides));
        }
        r
    }

    /// The options for the recursion prover: resolved as the core options,
    /// then the shard size fixed to [`RECURSION_MAX_SHARD_SIZE`], since
    /// recursion shards carry fewer, larger events.
    #[must_use]
    pub fn recursion(overrides: &CoreOptOverrides) -> (r: Self)
        ensures
            exists|mem_gb: u64|
                r == #[trigger] spec_recursion_opts(mem_gb, *overrides),
    {
        let mem_gb = host_memory_gb();
        let r = Self::recursion_from_memory(mem_gb, overrides);
        proof {
            assert(r == spec_recursion_opts(mem_gb, *overrides));
        }
        r
    }

    /// The recursion options resolved from a given host memory size in GB.
    #[must_use]
    pub fn recursion_from_memory(mem_gb: u64, overrides: &CoreOptOverrides) -> (r: Self)
        ensures
            r == spec_recursion_opts(mem_gb, *overrides),
    {
        let mut opts = Self::from_memory(mem_gb, overrides);
        opts.shard_size = RECURSION_MAX_SHARD_SIZE;
        opts
    }
}

/// The recursion options as a function of memory and overrides: the core
/// options with the shard size fixed to [`RECURSION_MAX_SHARD_SIZE`].
pub open spec fn spec_recursion_opts(mem_gb: u64, ov: CoreOptOverrides) -> SP1CoreOpts {
    SP1CoreOpts { shard_size: RECURSION_MAX_SHARD_SIZE, ..spec_core_opts(mem_gb, ov) }
}

/// Law: resolving options is idempotent — identical memory and override
/// inputs yield bit-identical options.
pub proof fn lemma_resolution_idempotent(mem_gb: u64, ov: CoreOptOverrides, a: SP1CoreOpts, b: SP1CoreOpts)
    requires
        a == spec_core_opts(mem_gb, ov),
        b == spec_core_opts(mem_gb, ov),
    ensures
        a == b,
{
}

/// Options to configure the prover for core and recursive proofs.
#[derive(Clone, Copy, Debug, PartialEq, Eq, Structural)]
pub struct SP1ProverOpts {
    /// Options for the core prover.
    pub core_opts: SP1CoreOpts,
    /// Options for the recursion prover.
    pub recursion_opts: SP1CoreOpts,
}

/// The CPU prover options as a function of memory and overrides.
pub open spec fn spec_cpu_opts(mem_gb: u64, ov: CoreOptOverrides) -> SP1ProverOpts {
    SP1ProverOpts {
        core_opts: spec_core_opts(mem_gb, ov),
        recursion_opts: spec_recursion_opts(mem_gb, ov),
    }
}

/// The GPU prover options as a function of CPU RAM, memory and overrides,
/// for a host whose GPU RAM passes the 24 GB minimum.
pub open spec fn spec_gpu_opts(cpu_ram_gb: usize, mem_gb: u64, ov: CoreOptOverrides) -> SP1ProverOpts {
    let base = spec_cpu_opts(mem_gb, ov);
    SP1ProverOpts {
        core_opts: SP1CoreOpts {
            shard_size: MAX_SHARD_SIZE,
            shard_batch_size: 1,
            split_opts: spec_split_opts(16384),
            trace_gen_workers: if cpu_ram_gb <= 20 {
                2usize
            } else {
                4usize
            },
            checkpoints_channel_capacity: base.core_opts.checkpoints_channel_capacity,
            records_and_traces_channel_capacity: if cpu_ram_gb <= 20 {
                1usize
            } else {
                4usize
            },
        },
        recursion_opts: SP1CoreOpts { shard_batch_size: 1, ..base.recursion_opts },
    }
}

impl SP1ProverOpts {
    /// Get the default prover options for a prover on CPU.
    #[must_use]
    pub fn cpu(overrides: &CoreOptOverrides) -> (r: Self)
        ensures
            exists|mem_gb: u64| r == #[trigger] spec_cpu_opts(mem_gb, *overrides),
    {
        let mem_gb = host_memory_gb();
        let r = Self::cpu_from_memory(mem_gb, overrides);
        proof {
            assert(r == spec_cpu_opts(mem_gb, *overrides));
        }
        r
    }

    /// The CPU prover options resolved from a given host memory size in GB.
    #[must_use]
    pub fn cpu_from_memory(mem_gb: u64, overrides: &CoreOptOverrides) -> (r: Self)
        ensures
            r == spec_cpu_opts(mem_gb, *overrides),
    {
        Self {
            core_opts: SP1CoreOpts::from_memory(mem_gb, overrides),
            recursion_opts: SP1CoreOpts::recursion_from_memory(mem_gb, overrides),
        }
    }

    /// Get the default prover options for a prover on GPU given the amount
    /// of CPU and GPU memory. The GPU profile fixes the shard size to 2^21,
    /// the shard batch size to 1 and the deferred threshold to 2^14, and
    /// reduces worker count and channel capacity further when CPU RAM is at
    /// most 20 GB. A GPU with less than 24 GB is below the resource floor:
    /// callers must reject it, there is no degraded mode.
    #[must_use]
    pub fn gpu(cpu_ram_gb: usize, gpu_ram_gb: usize, overrides: &CoreOptOverrides) -> (r: Self)
        requires
            24 <= gpu_ram_gb,
        ensures
            exists|mem_gb: u64|
                r == #[trigger] spec_gpu_opts(cpu_ram_gb, mem_gb, *overrides),
    {
        let mem_gb = host_memory_gb();
        let r = Self::gpu_from_memory(cpu_ram_gb, gpu_ram_gb, mem_gb, overrides);
        proof {
            assert(r == spec_gpu_opts(cpu_ram_gb, mem_gb, *overrides));
        }
        r
    }

    /// The GPU prover options resolved from a given host memory size in GB.
    #[must_use]
    pub fn gpu_from_memory(
        cpu_ram_gb: usize,
        gpu_ram_gb: usize,
        mem_gb: u64,
        overrides: &CoreOptOverrides,
    ) -> (r: Self)
        requires
            24 <= gpu_ram_gb,
        ensures
            r == spec_gpu_opts(cpu_ram_gb, mem_gb, *overrides),
    {
        let mut opts = Self::cpu_from_memory(mem_gb, overrides);

        // Set the core options.
        opts.core_opts.shard_size = MAX_SHARD_SIZE;
        opts.core_opts.shard_batch_size = 1;
        opts.core_opts.split_opts = SplitOpts::new(16384);
        opts.core_opts.records_and_traces_channel_capacity = 4;
        opts.core_opts.trace_gen_workers = 4;
        if cpu_ram_gb <= 20 {
            opts.core_opts.records_and_traces_channel_capacity = 1;
            opts.core_opts.trace_gen_workers = 2;
        }

        // Set the recursion options.
        opts.recursion_opts.shard_batch_size = 1;

        opts
    }
}

/// Relies on `sysinfo::System::new_all`: collects a snapshot of the host's
/// information, including its memory.
#[verifier::external_body]
fn system_snapshot() -> sysinfo::System {
    sysinfo::System::new_all()
}

/// Relies on `sysinfo::System::total_memory`: the host's total RAM in bytes.
#[verifier::external_body]
fn system_total_memory(sys: &sysinfo::System) -> u64 {
    sys.total_memory()
}

/// Query the host's total memory once and convert it to whole GB.
fn host_memory_gb() -> u64 {
    let sys = system_snapshot();
    let bytes = system_total_memory(&sys);
    bytes / (1024 * 1024 * 1024)
}

#[verifier::external_type_specification]
#[verifier::external_body]
pub struct ExSystem(sysinfo::System);

} // verus!


