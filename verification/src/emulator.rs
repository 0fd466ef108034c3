//! A small 32-bit machine emulator for the event categories the jump chip
//! covers: enough to replay a checkpoint into one shard's worth of events.
//!
//! The machine has 32 registers of 32-bit values (register 0 hardwired to
//! zero), a program counter, and three instructions: `ADD`, `JAL` and
//! `JALR`. Every executed cycle emits a cpu event; jumps also emit a jump
//! event. Execution halts when the program counter leaves the program.

use vstd::prelude::*;

verus! {

/// The number of machine registers.
pub const NUM_REGISTERS: usize = 32;

/// The modulus of the machine's 32-bit words.
pub const WORD_MODULUS: u64 = 4294967296;

/// Reduce a value to a 32-bit machine word.
pub open spec fn wrap32(x: int) -> u64 {
    (x % 4294967296) as u64
}

/// An opcode of the machine.
#[derive(Clone, Copy, Debug, PartialEq, Eq, Structural)]
pub enum Opcode {
    /// Register/immediate addition.
    Add,
    /// Jump and link: jump by an immediate offset.
    Jal,
    /// Jump and link register: jump to a register value plus an offset.
    Jalr,
}

/// One program instruction: an opcode, a destination register and two
/// operands, each either a register index or an immediate.
#[derive(Clone, Copy, Debug, PartialEq, Eq, Structural)]
pub struct Instruction {
    /// The opcode.
    pub opcode: Opcode,
    /// The destination register index.
    pub op_a: u64,
    /// The first operand: register index, or immediate if `imm_b`.
    pub op_b: u64,
    /// The second operand: register index, or immediate if `imm_c`.
    pub op_c: u64,
    /// Whether `op_b` is an immediate.
    pub imm_b: bool,
    /// Whether `op_c` is an immediate.
    pub imm_c: bool,
}

impl Instruction {
    /// Whether the instruction's operands are in range: register indices
    /// below 32, immediates and the destination below the word modulus.
    pub open spec fn wf(self) -> bool {
        &&& self.op_a < 32
        &&& if self.imm_b {
            self.op_b < 4294967296
        } else {
            self.op_b < 32
        }
        &&& if self.imm_c {
            self.op_c < 4294967296
        } else {
            self.op_c < 32
        }
    }

    /// Create a new instruction.
    pub fn new(opcode: Opcode, op_a: u64, op_b: u64, op_c: u64, imm_b: bool, imm_c: bool) -> (r:
        Self)
        ensures
            r == (Instruction { opcode, op_a, op_b, op_c, imm_b, imm_c }),
    {
        Instruction { opcode, op_a, op_b, op_c, imm_b, imm_c }
    }
}

/// A program: instructions laid out four bytes apart from `pc_base`, entered
/// at `pc_start`.
#[derive(Clone, Debug)]
pub struct Program {
    /// The instructions.
    pub instructions: Vec<Instruction>,
    /// The program counter of the first executed instruction.
    pub pc_start: u64,
    /// The program counter of `instructions[0]`.
    pub pc_base: u64,
}

impl Program {
    /// Whether the program's instructions are well-formed and its layout
    /// stays within 32-bit words.
    pub open spec fn wf(self) -> bool {
        &&& forall|i: int|
            0 <= i < self.instructions@.len() ==> (#[trigger] self.instructions@[i]).wf()
        &&& self.pc_start < 4294967296
        &&& self.pc_base < 4294967296
        &&& self.pc_base + 4 * self.instructions@.len() < 4294967296
    }

    /// Create a new program.
    pub fn new(instructions: Vec<Instruction>, pc_start: u64, pc_base: u64) -> (r: Self)
        ensures
            r.instructions == instructions,
            r.pc_start == pc_start,
            r.pc_base == pc_base,
    {
        Program { instructions, pc_start, pc_base }
    }
}

/// The machine state: a program counter and the register file.
#[derive(Clone, Debug)]
pub struct CoreState {
    /// The program counter.
    pub pc: u64,
    /// The registers; register 0 is hardwired to zero.
    pub regs: Vec<u64>,
}

/// The mathematical view of a machine state.
pub struct SpecCore {
    /// The program counter.
    pub pc: u64,
    /// The registers.
    pub regs: Seq<u64>,
}

impl View for CoreState {
    type V = SpecCore;

    open spec fn view(&self) -> SpecCore {
        SpecCore { pc: self.pc, regs: self.regs@ }
    }
}

impl SpecCore {
    /// Whether the state is a machine state: 32 registers of 32-bit words,
    /// register 0 zero, and a 32-bit program counter.
    pub open spec fn wf(self) -> bool {
        &&& self.regs.len() == 32
        &&& self.regs[0] == 0
        &&& self.pc < 4294967296
        &&& forall|i: int| 0 <= i < 32 ==> #[trigger] self.regs[i] < 4294967296
    }
}

impl CoreState {
    /// Whether the state is a machine state.
    pub open spec fn wf(self) -> bool {
        self@.wf()
    }

    /// The initial state of a program: all registers zero, the program
    /// counter at the program's entry.
    pub fn initial(program: &Program) -> (r: Self)
        requires
            program.wf(),
        ensures
            r@ == spec_initial(*program),
            r.wf(),
    {
        let mut regs: Vec<u64> = Vec::new();
        let mut i: usize = 0;
        while i < NUM_REGISTERS
            invariant
                i <= 32,
                regs@.len() == i,
                forall|j: int| 0 <= j < i ==> #[trigger] regs@[j] == 0,
            decreases 32 - i,
        {
            regs.push(0);
            i += 1;
        }
        let r = CoreState { pc: program.pc_start, regs };
        proof {
            assert(r@.regs =~= spec_initial(*program).regs);
        }
        r
    }
}

/// The initial state of a program.
pub open spec fn spec_initial(program: Program) -> SpecCore {
    SpecCore { pc: program.pc_start, regs: Seq::new(32, |i: int| 0u64) }
}

/// One cycle's worth of cpu bookkeeping: where the cycle started, where it
/// went, and whether it was a jump.
#[derive(Clone, Copy, Debug, PartialEq, Eq, Structural)]
pub struct CpuEvent {
    /// The program counter of the cycle.
    pub pc: u64,
    /// The program counter after the cycle.
    pub next_pc: u64,
    /// Whether the cycle executed a jump.
    pub is_jump: bool,
}

/// One jump's operands and outcome.
#[derive(Clone, Copy, Debug, PartialEq, Eq, Structural)]
pub struct JumpEvent {
    /// The jump opcode.
    pub opcode: Opcode,
    /// The program counter of the jump.
    pub pc: u64,
    /// The program counter the jump enforced.
    pub next_pc: u64,
    /// The value written to the destination register: the return address.
    pub a: u64,
    /// The first operand's value.
    pub b: u64,
    /// The second operand's value.
    pub c: u64,
}

/// The events emitted while replaying a program segment.
#[derive(Clone, Debug, PartialEq, Eq)]
pub struct ExecutionRecord {
    /// One event per executed cycle.
    pub cpu_events: Vec<CpuEvent>,
    /// One event per executed jump.
    pub jump_events: Vec<JumpEvent>,
}

/// The instruction index the program counter points at, if it is inside the
/// program.
pub open spec fn spec_fetch(p: Program, pc: u64) -> Option<int> {
    if p.pc_base <= pc && (pc - p.pc_base) % 4 == 0 && (pc - p.pc_base) / 4
        < p.instructions@.len() {
        Some((pc - p.pc_base) / 4)
    } else {
        None
    }
}

/// One machine step: `None` when the program counter has left the program,
/// otherwise the next state, the cycle's cpu event and its jump event if
/// the instruction was a jump.
pub open spec fn spec_step(p: Program, s: SpecCore) -> Option<(SpecCore, CpuEvent, Option<
    JumpEvent,
>)> {
    match spec_fetch(p, s.pc) {
        None => None,
        Some(idx) => {
            let inst = p.instructions@[idx];
            let b = if inst.imm_b {
                inst.op_b
            } else {
                s.regs[inst.op_b as int]
            };
            let c = if inst.imm_c {
                inst.op_c
            } else {
                s.regs[inst.op_c as int]
            };
            let a = wrap32(s.pc + 4);
            let next_pc = match inst.opcode {
                Opcode::Add => wrap32(s.pc + 4),
                Opcode::Jal => wrap32(s.pc + b),
                Opcode::Jalr => wrap32(b + c),
            };
            let written = match inst.opcode {
                Opcode::Add => wrap32(b + c),
                Opcode::Jal => a,
                Opcode::Jalr => a,
            };
            let regs = if inst.op_a == 0 {
                s.regs
            } else {
                s.regs.update(inst.op_a as int, written)
            };
            let s2 = SpecCore { pc: next_pc, regs };
            let is_jump = inst.opcode == Opcode::Jal || inst.opcode == Opcode::Jalr;
            let ce = CpuEvent { pc: s.pc, next_pc, is_jump };
            let je = if is_jump {
                Some(JumpEvent { opcode: inst.opcode, pc: s.pc, next_pc, a, b, c })
            } else {
                None
            };
            Some((s2, ce, je))
        },
    }
}

/// Run up to `fuel` machine steps from `s`: the final state and the emitted
/// cpu and jump events, in order.
pub open spec fn spec_run(p: Program, s: SpecCore, fuel: nat) -> (SpecCore, Seq<CpuEvent>, Seq<
    JumpEvent,
>)
    decreases fuel,
{
    if fuel == 0 {
        (s, Seq::empty(), Seq::empty())
    } else {
        match spec_step(p, s) {
            None => (s, Seq::empty(), Seq::empty()),
            Some((s2, ce, je)) => {
                let rest = spec_run(p, s2, (fuel - 1) as nat);
                let jumps = match je {
                    Some(j) => seq![j] + rest.2,
                    None => rest.2,
                };
                (rest.0, seq![ce] + rest.1, jumps)
            },
        }
    }
}

/// A machine step preserves well-formedness of the state.
pub proof fn lemma_step_wf(p: Program, s: SpecCore)
    requires
        p.wf(),
        s.wf(),
        spec_step(p, s) is Some,
    ensures
        spec_step(p, s)->Some_0.0.wf(),
{
    let idx = spec_fetch(p, s.pc)->Some_0;
    assert(p.instructions@[idx].wf());
}

/// One machine step, in place. Returns the emitted events, or `None` when
/// the machine has halted (the state is then unchanged).
pub fn step(p: &Program, state: &mut CoreState) -> (r: Option<(CpuEvent, Option<JumpEvent>)>)
    requires
        p.wf(),
        old(state).wf(),
    ensures
        final(state).wf(),
        match spec_step(*p, old(state)@) {
            None => r is None && final(state)@ == old(state)@,
            Some((s2, ce, je)) => r == Some((ce, je)) && final(state)@ == s2,
        },
{
    proof {
        if spec_step(*p, old(state)@) is Some {
            lemma_step_wf(*p, old(state)@);
        }
    }
    // Fetch: halt when the program counter is outside the program.
    if state.pc < p.pc_base {
        return None;
    }
    let off = state.pc - p.pc_base;
    if off % 4 != 0 {
        return None;
    }
    let idx = off / 4;
    if idx >= p.instructions.len() as u64 {
        return None;
    }
    let inst = p.instructions[idx as usize];
    let b = if inst.imm_b {
        inst.op_b
    } else {
        state.regs[inst.op_b as usize]
    };
    let c = if inst.imm_c {
        inst.op_c
    } else {
        state.regs[inst.op_c as usize]
    };
    let a = (state.pc + 4) % WORD_MODULUS;
    let next_pc = match inst.opcode {
        Opcode::Add => (state.pc + 4) % WORD_MODULUS,
        Opcode::Jal => (state.pc + b) % WORD_MODULUS,
        Opcode::Jalr => (b + c) % WORD_MODULUS,
    };
    let written = match inst.opcode {
        Opcode::Add => (b + c) % WORD_MODULUS,
        Opcode::Jal => a,
        Opcode::Jalr => a,
    };
    let is_jump = match inst.opcode {
        Opcode::Add => false,
        Opcode::Jal => true,
        Opcode::Jalr => true,
    };
    let pc = state.pc;
    if inst.op_a != 0 {
        state.regs[inst.op_a as usize] = written;
    }
    state.pc = next_pc;
    let ce = CpuEvent { pc, next_pc, is_jump };
    let je = if is_jump {
        Some(JumpEvent { opcode: inst.opcode, pc, next_pc, a, b, c })
    } else {
        None
    };
    Some((ce, je))
}

/// Replay up to `max_cycles` cycles from `start`, collecting the emitted
/// events: the worker-side replay of one checkpoint into one bounded
/// segment. The result is exactly what the mathematical run yields.
pub fn execute_from(p: &Program, start: CoreState, max_cycles: usize) -> (r: (
    ExecutionRecord,
    CoreState,
))
    requires
        p.wf(),
        start.wf(),
    ensures
        r.1.wf(),
        ({
            let run = spec_run(*p, start@, max_cycles as nat);
            &&& r.1@ == run.0
            &&& r.0.cpu_events@ == run.1
            &&& r.0.jump_events@ == run.2
        }),
{
    let ghost full = spec_run(*p, start@, max_cycles as nat);
    let mut cur = start;
    let mut cpu_events: Vec<CpuEvent> = Vec::new();
    let mut jump_events: Vec<JumpEvent> = Vec::new();
    let mut i: usize = 0;
    let mut halted = false;
    proof {
        assert(full.1 =~= cpu_events@ + full.1);
        assert(full.2 =~= jump_events@ + full.2);
    }
    while i < max_cycles && !halted
        invariant
            p.wf(),
            cur.wf(),
            i <= max_cycles,
            !halted ==> ({
                let rest = spec_run(*p, cur@, (max_cycles - i) as nat);
                &&& full.0 == rest.0
                &&& full.1 == cpu_events@ + rest.1
                &&& full.2 == jump_events@ + rest.2
            }),
            halted ==> full == (cur@, cpu_events@, jump_events@),
        decreases max_cycles - i,
    {
        let ghost rest = spec_run(*p, cur@, (max_cycles - i) as nat);
        match step(p, &mut cur) {
            None => {
                proof {
                    assert(rest.1 =~= Seq::<CpuEvent>::empty());
                    assert(rest.2 =~= Seq::<JumpEvent>::empty());
                    assert(full.1 =~= cpu_events@);
                    assert(full.2 =~= jump_events@);
                }
                halted = true;
            },
            Some((ce, je)) => {
                let ghost rest2 = spec_run(*p, cur@, (max_cycles - i - 1) as nat);
                cpu_events.push(ce);
                proof {
                    assert(full.1 =~= cpu_events@ + rest2.1);
                }
                match je {
                    Some(j) => {
                        jump_events.push(j);
                        proof {
                            assert(full.2 =~= jump_events@ + rest2.2);
                        }
                    },
                    None => {
                        proof {
                            assert(full.2 =~= jump_events@ + rest2.2);
                        }
                    },
                }
            },
        }
        i += 1;
    }
    proof {
        if !halted {
            let rest = spec_run(*p, cur@, 0nat);
            assert(full.1 =~= cpu_events@);
            assert(full.2 =~= jump_events@);
        }
    }
    (ExecutionRecord { cpu_events, jump_events }, cur)
}

/// What a machine run promises of each cpu event: a non-jump cycle moves
/// the program counter by four.
pub open spec fn cpu_event_ok(e: CpuEvent) -> bool {
    !e.is_jump ==> e.next_pc == wrap32(e.pc + 4)
}

/// What a machine run promises of each jump event: it is a jump, it
/// enforces the jump target, and it writes the return address.
pub open spec fn jump_event_ok(e: JumpEvent) -> bool {
    &&& e.opcode == Opcode::Jal || e.opcode == Opcode::Jalr
    &&& e.opcode == Opcode::Jal ==> e.next_pc == wrap32(e.pc + e.b) && e.a == wrap32(e.pc + 4)
    &&& e.opcode == Opcode::Jalr ==> e.next_pc == wrap32(e.b + e.c) && e.a == wrap32(e.pc + 4)
}

/// Law: a machine run only emits events meeting their promises, its first
/// cycle starts at the starting state's program counter, and consecutive
/// cycles chain — each cycle starts where the previous one ended.
pub proof fn lemma_run_events_ok(p: Program, s: SpecCore, fuel: nat)
    ensures
        forall|i: int|
            0 <= i < spec_run(p, s, fuel).1.len() ==> cpu_event_ok(
                #[trigger] spec_run(p, s, fuel).1[i],
            ),
        forall|i: int|
            0 <= i < spec_run(p, s, fuel).2.len() ==> jump_event_ok(
                #[trigger] spec_run(p, s, fuel).2[i],
            ),
        spec_run(p, s, fuel).1.len() > 0 ==> spec_run(p, s, fuel).1[0].pc == s.pc,
        forall|i: int|
            0 <= i && i + 1 < spec_run(p, s, fuel).1.len() ==> (#[trigger] spec_run(
                p,
                s,
                fuel,
            ).1[i + 1]).pc == spec_run(p, s, fuel).1[i].next_pc,
    decreases fuel,
{
    if fuel > 0 {
        match spec_step(p, s) {
            None => {},
            Some((s2, ce, je)) => {
                lemma_run_events_ok(p, s2, (fuel - 1) as nat);
                let rest = spec_run(p, s2, (fuel - 1) as nat);
                let run = spec_run(p, s, fuel);
                assert(run.1 == seq![ce] + rest.1);
                assert forall|i: int| 0 <= i < run.1.len() implies cpu_event_ok(
                    #[trigger] run.1[i],
                ) by {
                    if i == 0 {
                        assert(run.1[0] == ce);
                    } else {
                        assert(run.1[i] == rest.1[i - 1]);
                    }
                }
                assert forall|i: int| 0 <= i < run.2.len() implies jump_event_ok(
                    #[trigger] run.2[i],
                ) by {
                    match je {
                        Some(j) => {
                            assert(run.2 == seq![j] + rest.2);
                            if i == 0 {
                                assert(run.2[0] == j);
                            } else {
                                assert(run.2[i] == rest.2[i - 1]);
                            }
                        },
                        None => {
                            assert(run.2 == rest.2);
                        },
                    }
                }
                assert forall|i: int| 0 <= i && i + 1 < run.1.len() implies (#[trigger] run.1[i
                    + 1]).pc == run.1[i].next_pc by {
                    if i == 0 {
                        assert(run.1[0] == ce);
                        assert(run.1[1] == rest.1[0]);
                        assert(rest.1.len() > 0);
                        assert(rest.1[0].pc == s2.pc);
                        assert(s2.pc == ce.next_pc);
                        assert(run.1[1].pc == run.1[0].next_pc);
                    } else {
                        assert(run.1[i] == rest.1[i - 1]);
                        assert(run.1[i + 1] == rest.1[i]);
                        assert(rest.1[i - 1 + 1].pc == rest.1[i - 1].next_pc);
                        assert(rest.1[i - 1 + 1] == rest.1[i]);
                    }
                }
            },
        }
    }
}

/// Law: a run splits at any checkpoint — running `a + b` cycles emits
/// exactly the events of running `a` cycles and then, from the state
/// reached, `b` more. Replaying the checkpoints of a run in order
/// therefore reproduces the full record.
pub proof fn lemma_run_decompose(p: Program, s: SpecCore, a: nat, b: nat)
    ensures
        spec_run(p, s, a + b).0 == spec_run(p, spec_run(p, s, a).0, b).0,
        spec_run(p, s, a + b).1 == spec_run(p, s, a).1 + spec_run(p, spec_run(p, s, a).0, b).1,
        spec_run(p, s, a + b).2 == spec_run(p, s, a).2 + spec_run(p, spec_run(p, s, a).0, b).2,
    decreases a,
{
    if a == 0 {
        assert(spec_run(p, s, a).0 == s);
        assert(spec_run(p, s, a).1 + spec_run(p, s, b).1 =~= spec_run(p, s, b).1);
        assert(spec_run(p, s, a).2 + spec_run(p, s, b).2 =~= spec_run(p, s, b).2);
    } else {
        match spec_step(p, s) {
            None => {
                assert(spec_run(p, s, a + b) == (s, Seq::<CpuEvent>::empty(), Seq::<
                    JumpEvent,
                >::empty()));
                assert(spec_run(p, s, a).0 == s);
                if b > 0 {
                    assert(spec_run(p, s, b) == (s, Seq::<CpuEvent>::empty(), Seq::<
                        JumpEvent,
                    >::empty()));
                }
                assert(spec_run(p, s, a).1 + spec_run(p, s, b).1 =~= spec_run(p, s, a + b).1);
                assert(spec_run(p, s, a).2 + spec_run(p, s, b).2 =~= spec_run(p, s, a + b).2);
            },
            Some((s2, ce, je)) => {
                lemma_run_decompose(p, s2, (a - 1) as nat, b);
                assert((a + b - 1) as nat == (a - 1) as nat + b);
                let mid = spec_run(p, s, a).0;
                assert(mid == spec_run(p, s2, (a - 1) as nat).0);
                assert(spec_run(p, s, a + b).1 =~= spec_run(p, s, a).1 + spec_run(p, mid, b).1);
                assert(spec_run(p, s, a + b).2 =~= spec_run(p, s, a).2 + spec_run(p, mid, b).2);
            },
        }
    }
}

/// Execute a program from its initial state for up to `max_cycles` cycles.
pub fn execute(p: &Program, max_cycles: usize) -> (r: ExecutionRecord)
    requires
        p.wf(),
    ensures
        ({
            let run = spec_run(*p, spec_initial(*p), max_cycles as nat);
            &&& r.cpu_events@ == run.1
            &&& r.jump_events@ == run.2
        }),
{
    let start = CoreState::initial(p);
    let (record, _final_state) = execute_from(p, start, max_cycles);
    record
}

} // verus!
