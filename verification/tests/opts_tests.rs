use sp1_core::opts::{
    parse_usize, shard_batch_size, shard_size, CoreOptOverrides, SP1CoreOpts, SP1ProverOpts,
    SplitOpts, MAX_SHARD_BATCH_SIZE, MAX_SHARD_SIZE, RECURSION_MAX_SHARD_SIZE,
};

fn no_overrides() -> CoreOptOverrides {
    CoreOptOverrides::none()
}

#[test]
fn split_opts_follow_fixed_ratios() {
    let t: usize = 32768;
    let opts = SplitOpts::new(t);
    assert_eq!(opts.deferred, 32768);
    assert_eq!(opts.keccak, 8 * t / 24);
    assert_eq!(opts.keccak, 10922);
    assert_eq!(opts.sha_extend, 32 * t / 48);
    assert_eq!(opts.sha_extend, 21845);
    assert_eq!(opts.sha_compress, 32 * t / 80);
    assert_eq!(opts.sha_compress, 13107);
    assert_eq!(opts.memory, 64 * t);
    assert_eq!(opts.memory, 2097152);
    assert_eq!(opts.combine_memory_threshold, 1 << 26);
}

#[test]
fn split_opts_ratios_for_other_bases() {
    for t in [1usize, 7, 100, 16384, 1048576] {
        let opts = SplitOpts::new(t);
        assert_eq!(opts.deferred, t);
        assert_eq!(opts.keccak, 8 * t / 24);
        assert_eq!(opts.sha_extend, 32 * t / 48);
        assert_eq!(opts.sha_compress, 32 * t / 80);
        assert_eq!(opts.memory, 64 * t);
        assert_eq!(opts.combine_memory_threshold, 67108864);
    }
}

#[test]
fn shard_size_steps_and_cap() {
    assert_eq!(shard_size(0), 1 << 17);
    assert_eq!(shard_size(14), 1 << 17);
    assert_eq!(shard_size(15), 1 << 18);
    assert_eq!(shard_size(22), 1 << 18);
    assert_eq!(shard_size(23), 1 << 19);
    assert_eq!(shard_size(70), 1 << 19);
    assert_eq!(shard_size(71), 1 << 20);
    assert_eq!(shard_size(215), 1 << 20);
    assert_eq!(shard_size(216), 1 << 21);
    assert_eq!(shard_size(1_000_000), MAX_SHARD_SIZE);
}

#[test]
fn shard_size_is_monotone() {
    let mut prev = 0usize;
    for m in 0..4096u64 {
        let s = shard_size(m);
        assert!(s >= prev);
        assert!(s <= MAX_SHARD_SIZE);
        prev = s;
    }
}

#[test]
fn shard_batch_size_boundaries() {
    assert_eq!(shard_batch_size(16), 1);
    assert_eq!(shard_batch_size(17), 2);
    assert_eq!(shard_batch_size(48), 2);
    assert_eq!(shard_batch_size(49), 4);
    assert_eq!(shard_batch_size(255), 4);
    assert_eq!(shard_batch_size(256), MAX_SHARD_BATCH_SIZE);
}

#[test]
fn parse_usize_accepts_decimal_knobs() {
    assert_eq!(parse_usize("123"), Some(123));
    assert_eq!(parse_usize("+42"), Some(42));
    assert_eq!(parse_usize("+1"), Some(1));
    assert_eq!(parse_usize(""), None);
    assert_eq!(parse_usize("+"), None);
    assert_eq!(parse_usize("12a"), None);
    assert_eq!(parse_usize("-3"), None);
    assert_eq!(parse_usize("99999999999999999999999999"), None);
}

#[test]
fn parse_usize_rejects_zero() {
    // The knobs are positive integers: zero is malformed, not a value.
    assert_eq!(parse_usize("0"), None);
    assert_eq!(parse_usize("00"), None);
    assert_eq!(parse_usize("+0"), None);
}

#[test]
fn resolution_is_idempotent() {
    let a = SP1CoreOpts::from_memory(32, &no_overrides());
    let b = SP1CoreOpts::from_memory(32, &no_overrides());
    assert_eq!(a, b);
    let c = SP1ProverOpts::cpu_from_memory(32, &no_overrides());
    let d = SP1ProverOpts::cpu_from_memory(32, &no_overrides());
    assert_eq!(c, d);
}

#[test]
fn defaults_follow_memory() {
    let opts = SP1CoreOpts::from_memory(32, &no_overrides());
    assert_eq!(opts.shard_size, 1 << 19);
    assert_eq!(opts.shard_batch_size, 2);
    assert_eq!(opts.split_opts.deferred, 32768);
    assert_eq!(opts.trace_gen_workers, 1);
    assert_eq!(opts.checkpoints_channel_capacity, 128);
    assert_eq!(opts.records_and_traces_channel_capacity, 1);
}

#[test]
fn overrides_take_effect_and_malformed_falls_back() {
    let mut ov = no_overrides();
    ov.shard_size = Some("4096".to_string());
    ov.trace_gen_workers = Some("8".to_string());
    ov.checkpoints_channel_capacity = Some("junk".to_string());
    let opts = SP1CoreOpts::from_memory(32, &ov);
    assert_eq!(opts.shard_size, 4096);
    assert_eq!(opts.trace_gen_workers, 8);
    assert_eq!(opts.checkpoints_channel_capacity, 128);
}

#[test]
fn zero_overrides_fall_back_to_defaults() {
    // A zero shard size, worker count or channel capacity would wedge the
    // pipeline; zero is treated as malformed and the defaults stand.
    let mut ov = no_overrides();
    ov.shard_size = Some("0".to_string());
    ov.trace_gen_workers = Some("0".to_string());
    ov.records_and_traces_channel_capacity = Some("0".to_string());
    let opts = SP1CoreOpts::from_memory(32, &ov);
    assert_eq!(opts.shard_size, 1 << 19);
    assert_eq!(opts.trace_gen_workers, 1);
    assert_eq!(opts.records_and_traces_channel_capacity, 1);
}

#[test]
fn split_threshold_is_floored_never_capped() {
    let mut ov = no_overrides();
    ov.split_threshold = Some("100".to_string());
    let low = SP1CoreOpts::from_memory(32, &ov);
    assert_eq!(low.split_opts.deferred, 32768);
    ov.split_threshold = Some("65536".to_string());
    let high = SP1CoreOpts::from_memory(32, &ov);
    assert_eq!(high.split_opts.deferred, 65536);
    assert_eq!(high.split_opts.memory, 64 * 65536);
}

#[test]
fn recursion_fixes_shard_size() {
    let opts = SP1CoreOpts::recursion_from_memory(32, &no_overrides());
    assert_eq!(opts.shard_size, RECURSION_MAX_SHARD_SIZE);
    assert_eq!(opts.shard_batch_size, 2);
}

#[test]
fn gpu_profile_fixes_core_knobs() {
    let opts = SP1ProverOpts::gpu_from_memory(32, 24, 32, &no_overrides());
    assert_eq!(opts.core_opts.shard_size, 1 << 21);
    assert_eq!(opts.core_opts.shard_batch_size, 1);
    assert_eq!(opts.core_opts.split_opts.deferred, 1 << 14);
    assert_eq!(opts.core_opts.trace_gen_workers, 4);
    assert_eq!(opts.core_opts.records_and_traces_channel_capacity, 4);
    assert_eq!(opts.recursion_opts.shard_batch_size, 1);
}

#[test]
fn gpu_profile_shrinks_on_small_cpu_ram() {
    let opts = SP1ProverOpts::gpu_from_memory(20, 24, 32, &no_overrides());
    assert_eq!(opts.core_opts.trace_gen_workers, 2);
    assert_eq!(opts.core_opts.records_and_traces_channel_capacity, 1);
}

#[test]
fn host_resolution_runs() {
    let opts = SP1CoreOpts::resolve(&no_overrides());
    assert!(opts.shard_size >= 1 << 17);
    assert!(opts.shard_size <= 1 << 21);
    let prover = SP1ProverOpts::cpu(&no_overrides());
    assert_eq!(prover.recursion_opts.shard_size, RECURSION_MAX_SHARD_SIZE);
}
