use sp1_core::chip::{
    check_jump_row, check_machine, check_table, generate_traces, Chip, CpuChip, JumpChip,
    JUMP_IS_JAL, JUMP_IS_JALR, NUM_CPU_COLS, NUM_JUMP_COLS,
};
use sp1_core::emulator::{execute, Instruction, Opcode, Program};
use sp1_core::target::{
    is_supported_target, normalize_target_environment, TargetArch, TargetEnvironment, TargetOs,
};

#[test]
fn honest_execution_passes_constraint_checking() {
    let instructions = vec![
        Instruction::new(Opcode::Jal, 29, 12, 0, true, true),
        Instruction::new(Opcode::Add, 30, 0, 5, false, true),
        Instruction::new(Opcode::Add, 28, 0, 5, false, true),
        Instruction::new(Opcode::Add, 28, 0, 5, false, true),
    ];
    let program = Program::new(instructions, 0, 0);
    let record = execute(&program, 100);
    assert_eq!(record.cpu_events.len(), 2);
    assert_eq!(record.jump_events.len(), 1);
    assert_eq!(record.cpu_events[0].pc, 0);
    assert_eq!(record.cpu_events[0].next_pc, 12);
    assert_eq!(record.jump_events[0].next_pc, 12);
    let traces = generate_traces(&record);
    assert!(check_machine(&traces).is_ok());
}

#[test]
fn test_malicious_jal() {
    let instructions = vec![
        Instruction::new(Opcode::Jal, 29, 12, 0, true, true),
        Instruction::new(Opcode::Add, 30, 0, 5, false, true),
        Instruction::new(Opcode::Add, 28, 0, 5, false, true),
        Instruction::new(Opcode::Add, 28, 0, 5, false, true),
    ];
    let program = Program::new(instructions, 0, 0);

    // A malicious record where the JAL instruction jumps incorrectly.
    let mut malicious_record = execute(&program, 100);
    malicious_record.cpu_events[0].next_pc = 4;
    malicious_record.jump_events[0].next_pc = 4;

    let traces = generate_traces(&malicious_record);
    let result = check_machine(&traces);
    assert!(result.is_err() && result.unwrap_err().is_constraints_failing());
}

#[test]
fn test_malicious_jalr() {
    let instructions = vec![
        Instruction::new(Opcode::Add, 28, 0, 12, false, true),
        Instruction::new(Opcode::Jalr, 29, 28, 0, false, true),
        Instruction::new(Opcode::Add, 30, 0, 5, false, true),
        Instruction::new(Opcode::Add, 28, 0, 5, false, true),
        Instruction::new(Opcode::Add, 28, 0, 5, false, true),
    ];
    let program = Program::new(instructions, 0, 0);

    // A malicious record where the JALR instruction jumps incorrectly.
    let mut malicious_record = execute(&program, 100);
    malicious_record.cpu_events[1].next_pc = 8;
    malicious_record.jump_events[0].next_pc = 8;

    let traces = generate_traces(&malicious_record);
    let result = check_machine(&traces);
    assert!(result.is_err() && result.unwrap_err().is_constraints_failing());
}

#[test]
fn test_malicious_multiple_opcode_flags() {
    let instructions = vec![
        Instruction::new(Opcode::Jal, 29, 12, 0, true, true),
        Instruction::new(Opcode::Add, 30, 0, 5, false, true),
        Instruction::new(Opcode::Add, 28, 0, 5, false, true),
        Instruction::new(Opcode::Add, 28, 0, 5, false, true),
    ];
    let program = Program::new(instructions, 0, 0);
    let record = execute(&program, 100);

    // Modify the jump chip to have a row that has multiple opcode flags set.
    let mut traces = generate_traces(&record);
    for (chip, trace) in traces.iter_mut() {
        if matches!(chip, Chip::Jump(_)) {
            assert!(trace.rows[0][JUMP_IS_JAL] == 1);
            trace.rows[0][JUMP_IS_JALR] = 1;
        }
    }

    let result = check_machine(&traces);
    assert!(result.is_err() && result.unwrap_err().is_constraints_failing());
}

#[test]
fn chip_widths_are_fixed() {
    assert_eq!(JumpChip.width(), NUM_JUMP_COLS);
    assert_eq!(CpuChip.width(), NUM_CPU_COLS);
}

#[test]
fn traces_pad_to_least_power_of_two() {
    let instructions = vec![
        Instruction::new(Opcode::Add, 1, 0, 1, false, true),
        Instruction::new(Opcode::Add, 2, 1, 2, false, true),
        Instruction::new(Opcode::Add, 3, 2, 3, false, true),
    ];
    let program = Program::new(instructions, 0, 0);
    let record = execute(&program, 100);
    assert_eq!(record.cpu_events.len(), 3);
    let trace = CpuChip.generate_trace(&record.cpu_events);
    // Three events pad to four rows, the least power of two at least three.
    assert_eq!(trace.rows.len(), 4);
    assert_eq!(trace.rows[3], vec![0u64; NUM_CPU_COLS]);
    assert!(check_table(Chip::Cpu(CpuChip), &trace));

    let empty = JumpChip.generate_trace(&record.jump_events);
    assert_eq!(empty.rows.len(), 1);
    assert_eq!(empty.rows[0], vec![0u64; NUM_JUMP_COLS]);
    assert!(check_table(Chip::Jump(JumpChip), &empty));
}

#[test]
fn padding_rows_satisfy_row_constraints() {
    let zero = vec![0u64; NUM_JUMP_COLS];
    assert!(check_jump_row(&zero));
}

#[test]
fn supported_targets() {
    assert!(is_supported_target(TargetArch::X8664, TargetOs::Linux));
    assert!(is_supported_target(TargetArch::Aarch64, TargetOs::Linux));
    assert!(is_supported_target(TargetArch::X8664, TargetOs::Macos));
    assert!(is_supported_target(TargetArch::Aarch64, TargetOs::Macos));
    assert!(!is_supported_target(TargetArch::Other, TargetOs::Linux));
    assert!(!is_supported_target(TargetArch::X8664, TargetOs::Other));
}

#[test]
fn musl_environment_normalizes_to_gnu() {
    assert_eq!(
        normalize_target_environment(TargetEnvironment::Musl),
        TargetEnvironment::Gnu
    );
    assert_eq!(
        normalize_target_environment(TargetEnvironment::Gnu),
        TargetEnvironment::Gnu
    );
    assert_eq!(
        normalize_target_environment(TargetEnvironment::Other),
        TargetEnvironment::Other
    );
}
