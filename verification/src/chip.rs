//! The chip abstraction: a closed set of chips, each a stateless strategy
//! turning one event category into a trace table plus declared row and
//! transition constraints.
//!
//! A trace table is a row-major matrix of machine words whose row count is
//! padded to the next power of two; the all-zero dummy row used for padding
//! trivially satisfies every row constraint, so padding never affects
//! soundness. A row set violating any declared constraint is rejected by
//! constraint checking.

use vstd::prelude::*;
use crate::emulator::{wrap32, CpuEvent, ExecutionRecord, JumpEvent, Opcode};

verus! {

/// The number of columns of the jump chip.
pub const NUM_JUMP_COLS: usize = 8;

/// Jump chip column: the program counter of the jump.
pub const JUMP_PC: usize = 0;

/// Jump chip column: the program counter the jump enforced.
pub const JUMP_NEXT_PC: usize = 1;

/// Jump chip column: the value written to the destination register.
pub const JUMP_A: usize = 2;

/// Jump chip column: the first operand's value.
pub const JUMP_B: usize = 3;

/// Jump chip column: the second operand's value.
pub const JUMP_C: usize = 4;

/// Jump chip column: the `JAL` opcode indicator.
pub const JUMP_IS_JAL: usize = 5;

/// Jump chip column: the `JALR` opcode indicator.
pub const JUMP_IS_JALR: usize = 6;

/// Jump chip column: whether the row is real rather than padding.
pub const JUMP_IS_REAL: usize = 7;

/// The number of columns of the cpu chip.
pub const NUM_CPU_COLS: usize = 4;

/// Cpu chip column: the program counter of the cycle.
pub const CPU_PC: usize = 0;

/// Cpu chip column: the program counter after the cycle.
pub const CPU_NEXT_PC: usize = 1;

/// Cpu chip column: the jump indicator.
pub const CPU_IS_JUMP: usize = 2;

/// Cpu chip column: whether the row is real rather than padding.
pub const CPU_IS_REAL: usize = 3;

/// A row-major matrix of machine words; the width is fixed per chip.
#[derive(Clone, Debug, PartialEq, Eq)]
pub struct TraceTable {
    /// The fixed column count.
    pub width: usize,
    /// The rows, each of length `width`.
    pub rows: Vec<Vec<u64>>,
}

impl TraceTable {
    /// Whether every row has the declared width.
    pub open spec fn wf(self) -> bool {
        forall|i: int| 0 <= i < self.rows@.len() ==> (#[trigger] self.rows@[i])@.len() == self.width
    }

    /// The mathematical view: the sequence of rows.
    pub open spec fn rows_seq(self) -> Seq<Seq<u64>> {
        self.rows@.map(|i: int, r: Vec<u64>| r@)
    }
}

/// Whether a column holds a boolean indicator.
pub open spec fn boolean(x: u64) -> bool {
    x == 0 || x == 1
}

/// The all-zero dummy row of the given width.
pub open spec fn zero_row(width: int) -> Seq<u64> {
    Seq::new(width as nat, |i: int| 0u64)
}

/// The row constraints of the jump chip: the opcode indicators are boolean
/// and exactly one fires on a real row, a `JAL` row's target is the row's
/// program counter plus its first operand, a `JALR` row's target is its
/// first operand plus its second, and either jump writes the return address
/// — the program counter plus four — to its destination.
pub open spec fn jump_row_ok(row: Seq<u64>) -> bool {
    &&& row.len() == NUM_JUMP_COLS
    &&& boolean(row[JUMP_IS_JAL as int])
    &&& boolean(row[JUMP_IS_JALR as int])
    &&& boolean(row[JUMP_IS_REAL as int])
    &&& row[JUMP_IS_JAL as int] + row[JUMP_IS_JALR as int] == row[JUMP_IS_REAL as int]
    &&& row[JUMP_IS_JAL as int] == 1 ==> {
        &&& row[JUMP_NEXT_PC as int] == wrap32(row[JUMP_PC as int] + row[JUMP_B as int])
        &&& row[JUMP_A as int] == wrap32(row[JUMP_PC as int] + 4)
    }
    &&& row[JUMP_IS_JALR as int] == 1 ==> {
        &&& row[JUMP_NEXT_PC as int] == wrap32(row[JUMP_B as int] + row[JUMP_C as int])
        &&& row[JUMP_A as int] == wrap32(row[JUMP_PC as int] + 4)
    }
}

/// The transition constraints of the jump chip: none — jump rows are
/// mutually independent.
pub open spec fn jump_pair_ok(r1: Seq<u64>, r2: Seq<u64>) -> bool {
    true
}

/// The row constraints of the cpu chip: the indicators are boolean, a jump
/// only fires on a real row, and a real non-jump row's next program counter
/// is its program counter plus four.
pub open spec fn cpu_row_ok(row: Seq<u64>) -> bool {
    &&& row.len() == NUM_CPU_COLS
    &&& boolean(row[CPU_IS_JUMP as int])
    &&& boolean(row[CPU_IS_REAL as int])
    &&& row[CPU_IS_JUMP as int] == 1 ==> row[CPU_IS_REAL as int] == 1
    &&& (row[CPU_IS_REAL as int] == 1 && row[CPU_IS_JUMP as int] == 0) ==> row[
        CPU_NEXT_PC as int
    ] == wrap32(row[CPU_PC as int] + 4)
}

/// The transition constraints of the cpu chip: program-counter continuity —
/// a real row's program counter is the previous row's next program counter —
/// and real rows precede padding.
pub open spec fn cpu_pair_ok(r1: Seq<u64>, r2: Seq<u64>) -> bool {
    &&& r2[CPU_IS_REAL as int] == 1 ==> {
        &&& r1[CPU_IS_REAL as int] == 1
        &&& r2[CPU_PC as int] == r1[CPU_NEXT_PC as int]
    }
}

/// The jump chip: renders jump events into an eight-column table.
#[derive(Clone, Copy, Debug, Default, PartialEq, Eq, Structural)]
pub struct JumpChip;

/// The cpu chip: renders cpu events into a four-column table.
#[derive(Clone, Copy, Debug, Default, PartialEq, Eq, Structural)]
pub struct CpuChip;

/// One chip of the machine's closed, ordered registry.
#[derive(Clone, Copy, Debug, PartialEq, Eq, Structural)]
pub enum Chip {
    /// The cpu chip.
    Cpu(CpuChip),
    /// The jump chip.
    Jump(JumpChip),
}

/// The trace row of one jump event.
pub open spec fn jump_event_row(e: JumpEvent) -> Seq<u64> {
    seq![
        e.pc,
        e.next_pc,
        e.a,
        e.b,
        e.c,
        if e.opcode == Opcode::Jal {
            1u64
        } else {
            0u64
        },
        if e.opcode == Opcode::Jalr {
            1u64
        } else {
            0u64
        },
        1u64,
    ]
}

/// The trace row of one cpu event.
pub open spec fn cpu_event_row(e: CpuEvent) -> Seq<u64> {
    seq![
        e.pc,
        e.next_pc,
        if e.is_jump {
            1u64
        } else {
            0u64
        },
        1u64,
    ]
}

/// Whether every row of a table satisfies the row constraints and every
/// adjacent pair the transition constraints of the given chip.
pub open spec fn table_ok(chip: Chip, t: TraceTable) -> bool {
    match chip {
        Chip::Cpu(_) => {
            &&& forall|i: int|
                0 <= i < t.rows_seq().len() ==> cpu_row_ok(#[trigger] t.rows_seq()[i])
            &&& forall|i: int|
                0 <= i && i + 1 < t.rows_seq().len() ==> cpu_pair_ok(
                    #[trigger] t.rows_seq()[i],
                    t.rows_seq()[i + 1],
                )
        },
        Chip::Jump(_) => {
            &&& forall|i: int|
                0 <= i < t.rows_seq().len() ==> jump_row_ok(#[trigger] t.rows_seq()[i])
            &&& forall|i: int|
                0 <= i && i + 1 < t.rows_seq().len() ==> jump_pair_ok(
                    #[trigger] t.rows_seq()[i],
                    t.rows_seq()[i + 1],
                )
        },
    }
}

/// Law: the all-zero dummy row used for padding independently satisfies
/// every row constraint of every chip, so padding rows never affect
/// soundness.
pub proof fn lemma_padding_row_trivial()
    ensures
        jump_row_ok(zero_row(NUM_JUMP_COLS as int)),
        cpu_row_ok(zero_row(NUM_CPU_COLS as int)),
{
}

/// Whether `n` is a power of two.
pub open spec fn is_pow2(n: int) -> bool
    decreases n,
{
    if n <= 0 {
        false
    } else if n == 1 {
        true
    } else {
        n % 2 == 0 && is_pow2(n / 2)
    }
}

proof fn lemma_pow2_below(m: int, r: int)
    requires
        is_pow2(m),
        is_pow2(r),
        m < r,
    ensures
        m <= r / 2,
    decreases r,
{
    if m > 1 {
        lemma_pow2_below(m / 2, r / 2);
    }
}

/// The least power of two at least `n` (and at least one).
pub fn next_power_of_two(n: usize) -> (r: usize)
    requires
        n <= usize::MAX / 2,
    ensures
        is_pow2(r as int),
        r >= n,
        forall|m: int| is_pow2(m) && m >= n ==> r <= m,
{
    let mut r: usize = 1;
    while r < n
        invariant
            n <= usize::MAX / 2,
            1 <= r,
            is_pow2(r as int),
            r == 1 || r / 2 < n,
        decreases 2 * n - r,
    {
        r = r * 2;
    }
    proof {
        assert forall|m: int| is_pow2(m) && m >= n implies r <= m by {
            if m < r {
                lemma_pow2_below(m, r as int);
                assert(r == 1 || r / 2 < n);
            }
        }
    }
    r
}

/// Append all-zero dummy rows of the given width until the table holds
/// `target` rows.
fn pad_rows(rows: &mut Vec<Vec<u64>>, width: usize, target: usize)
    requires
        old(rows)@.len() <= target,
    ensures
        final(rows)@.len() == target,
        forall|i: int|
            0 <= i < old(rows)@.len() ==> #[trigger] final(rows)@[i] == old(rows)@[i],
        forall|i: int|
            old(rows)@.len() <= i < target ==> (#[trigger] final(rows)@[i])@ == zero_row(
                width as int,
            ),
{
    while rows.len() < target
        invariant
            old(rows)@.len() <= rows@.len() <= target,
            forall|i: int|
                0 <= i < old(rows)@.len() ==> #[trigger] rows@[i] == old(rows)@[i],
            forall|i: int|
                old(rows)@.len() <= i < rows@.len() ==> (#[trigger] rows@[i])@ == zero_row(
                    width as int,
                ),
        decreases target - rows@.len(),
    {
        let mut row: Vec<u64> = Vec::new();
        let mut j: usize = 0;
        while j < width
            invariant
                j <= width,
                row@.len() == j,
                forall|k: int| 0 <= k < j ==> #[trigger] row@[k] == 0u64,
            decreases width - j,
        {
            row.push(0);
            j += 1;
        }
        proof {
            assert(row@ =~= zero_row(width as int));
        }
        rows.push(row);
    }
}

impl JumpChip {
    /// The jump chip's fixed column count.
    #[must_use]
    pub fn width(&self) -> (r: usize)
        ensures
            r == NUM_JUMP_COLS,
    {
        NUM_JUMP_COLS
    }

    /// Render the jump events into a trace table: one row per event, in
    /// event order, padded with dummy rows to the least power of two at
    /// least the event count (one row when there are no events).
    #[must_use]
    pub fn generate_trace(&self, events: &Vec<JumpEvent>) -> (t: TraceTable)
        requires
            events@.len() <= usize::MAX / 2,
        ensures
            jump_table_of(events@, t),
    {
        let mut rows: Vec<Vec<u64>> = Vec::new();
        let mut i: usize = 0;
        while i < events.len()
            invariant
                i <= events@.len() <= usize::MAX / 2,
                rows@.len() == i,
                forall|k: int|
                    0 <= k < i ==> (#[trigger] rows@[k])@ == jump_event_row(events@[k]),
            decreases events@.len() - i,
        {
            let e = events[i];
            let row: Vec<u64> = vec![
                e.pc,
                e.next_pc,
                e.a,
                e.b,
                e.c,
                if matches!(e.opcode, Opcode::Jal) {
                    1
                } else {
                    0
                },
                if matches!(e.opcode, Opcode::Jalr) {
                    1
                } else {
                    0
                },
                1,
            ];
            proof {
                assert(row@ =~= jump_event_row(events@[i as int]));
            }
            rows.push(row);
            i += 1;
        }
        let target = next_power_of_two(events.len());
        pad_rows(&mut rows, NUM_JUMP_COLS, target);
        let t = TraceTable { width: NUM_JUMP_COLS, rows };
        proof {
            lemma_padded_len(events@.len() as int, target as int);
        }
        t
    }
}

impl CpuChip {
    /// The cpu chip's fixed column count.
    #[must_use]
    pub fn width(&self) -> (r: usize)
        ensures
            r == NUM_CPU_COLS,
    {
        NUM_CPU_COLS
    }

    /// Render the cpu events into a trace table: one row per event, in
    /// event order, padded with dummy rows to the least power of two at
    /// least the event count (one row when there are no events).
    #[must_use]
    pub fn generate_trace(&self, events: &Vec<CpuEvent>) -> (t: TraceTable)
        requires
            events@.len() <= usize::MAX / 2,
        ensures
            cpu_table_of(events@, t),
    {
        let mut rows: Vec<Vec<u64>> = Vec::new();
        let mut i: usize = 0;
        while i < events.len()
            invariant
                i <= events@.len() <= usize::MAX / 2,
                rows@.len() == i,
                forall|k: int|
                    0 <= k < i ==> (#[trigger] rows@[k])@ == cpu_event_row(events@[k]),
            decreases events@.len() - i,
        {
            let e = events[i];
            let row: Vec<u64> = vec![
                e.pc,
                e.next_pc,
                if e.is_jump {
                    1
                } else {
                    0
                },
                1,
            ];
            proof {
                assert(row@ =~= cpu_event_row(events@[i as int]));
            }
            rows.push(row);
            i += 1;
        }
        let target = next_power_of_two(events.len());
        pad_rows(&mut rows, NUM_CPU_COLS, target);
        let t = TraceTable { width: NUM_CPU_COLS, rows };
        proof {
            lemma_padded_len(events@.len() as int, target as int);
        }
        t
    }
}

/// Whether `t` is exactly the jump chip's trace of `events`: one row per
/// event in order, padded with dummy rows to the least power of two at
/// least the event count (one row when there are no events).
pub open spec fn jump_table_of(events: Seq<JumpEvent>, t: TraceTable) -> bool {
    &&& t.wf()
    &&& t.width == NUM_JUMP_COLS
    &&& t.rows_seq().len() == spec_padded_len(events.len() as int)
    &&& forall|i: int|
        0 <= i < events.len() ==> t.rows_seq()[i] == jump_event_row(#[trigger] events[i])
    &&& forall|i: int|
        events.len() <= i < t.rows_seq().len() ==> #[trigger] t.rows_seq()[i] == zero_row(
            NUM_JUMP_COLS as int,
        )
}

/// Whether `t` is exactly the cpu chip's trace of `events`.
pub open spec fn cpu_table_of(events: Seq<CpuEvent>, t: TraceTable) -> bool {
    &&& t.wf()
    &&& t.width == NUM_CPU_COLS
    &&& t.rows_seq().len() == spec_padded_len(events.len() as int)
    &&& forall|i: int|
        0 <= i < events.len() ==> t.rows_seq()[i] == cpu_event_row(#[trigger] events[i])
    &&& forall|i: int|
        events.len() <= i < t.rows_seq().len() ==> #[trigger] t.rows_seq()[i] == zero_row(
            NUM_CPU_COLS as int,
        )
}

/// The least power of two at least `n`, for positive `n`: the padded row
/// count of a table of `n` events.
pub open spec fn spec_padded_len(n: int) -> int {
    choose|r: int| is_pow2(r) && r >= n && forall|m: int| is_pow2(m) && m >= n ==> r <= m
}

/// An error of the proving machine.
#[derive(Clone, Copy, Debug, PartialEq, Eq, Structural)]
pub enum MachineError {
    /// A trace table violates a declared constraint of its chip.
    ConstraintsFailing,
}

impl MachineError {
    /// Whether the error reports a failing constraint.
    #[must_use]
    pub fn is_constraints_failing(&self) -> (r: bool)
        ensures
            r == (*self == MachineError::ConstraintsFailing),
    {
        match self {
            MachineError::ConstraintsFailing => true,
        }
    }
}

/// Check one row against the jump chip's row constraints.
pub fn check_jump_row(row: &Vec<u64>) -> (r: bool)
    ensures
        r == jump_row_ok(row@),
{
    if row.len() != NUM_JUMP_COLS {
        return false;
    }
    let is_jal = row[JUMP_IS_JAL];
    let is_jalr = row[JUMP_IS_JALR];
    let is_real = row[JUMP_IS_REAL];
    if !(is_jal == 0 || is_jal == 1) {
        return false;
    }
    if !(is_jalr == 0 || is_jalr == 1) {
        return false;
    }
    if !(is_real == 0 || is_real == 1) {
        return false;
    }
    if is_jal + is_jalr != is_real {
        return false;
    }
    let pc = row[JUMP_PC];
    let next_pc = row[JUMP_NEXT_PC];
    let a = row[JUMP_A];
    let b = row[JUMP_B];
    let c = row[JUMP_C];
    if is_jal == 1 {
        let target = (((pc as u128) + (b as u128)) % 4294967296) as u64;
        let ret = (((pc as u128) + 4) % 4294967296) as u64;
        if next_pc != target || a != ret {
            return false;
        }
    }
    if is_jalr == 1 {
        let target = (((b as u128) + (c as u128)) % 4294967296) as u64;
        let ret = (((pc as u128) + 4) % 4294967296) as u64;
        if next_pc != target || a != ret {
            return false;
        }
    }
    true
}

/// Check one row against the cpu chip's row constraints.
pub fn check_cpu_row(row: &Vec<u64>) -> (r: bool)
    ensures
        r == cpu_row_ok(row@),
{
    if row.len() != NUM_CPU_COLS {
        return false;
    }
    let is_jump = row[CPU_IS_JUMP];
    let is_real = row[CPU_IS_REAL];
    if !(is_jump == 0 || is_jump == 1) {
        return false;
    }
    if !(is_real == 0 || is_real == 1) {
        return false;
    }
    if is_jump == 1 && is_real != 1 {
        return false;
    }
    if is_real == 1 && is_jump == 0 {
        let next = (((row[CPU_PC] as u128) + 4) % 4294967296) as u64;
        if row[CPU_NEXT_PC] != next {
            return false;
        }
    }
    true
}

/// Check an adjacent pair of rows against the cpu chip's transition
/// constraints.
pub fn check_cpu_pair(r1: &Vec<u64>, r2: &Vec<u64>) -> (r: bool)
    requires
        r1@.len() == NUM_CPU_COLS,
        r2@.len() == NUM_CPU_COLS,
    ensures
        r == cpu_pair_ok(r1@, r2@),
{
    if r2[CPU_IS_REAL] == 1 {
        r1[CPU_IS_REAL] == 1 && r2[CPU_PC] == r1[CPU_NEXT_PC]
    } else {
        true
    }
}

/// Check a whole table against the given chip's declared row and transition
/// constraints.
pub fn check_table(chip: Chip, t: &TraceTable) -> (r: bool)
    ensures
        r == table_ok(chip, *t),
{
    let mut i: usize = 0;
    let n = t.rows.len();
    match chip {
        Chip::Cpu(_) => {
            while i < n
                invariant
                    chip is Cpu,
                    i <= n == t.rows@.len(),
                    t.rows_seq().len() == t.rows@.len(),
                    forall|k: int| 0 <= k < i ==> cpu_row_ok(#[trigger] t.rows_seq()[k]),
                    forall|k: int|
                        0 <= k && k + 1 < i ==> cpu_pair_ok(
                            #[trigger] t.rows_seq()[k],
                            t.rows_seq()[k + 1],
                        ),
                decreases n - i,
            {
                proof {
                    assert(t.rows_seq()[i as int] == t.rows@[i as int]@);
                }
                if !check_cpu_row(&t.rows[i]) {
                    proof {
                        assert(!cpu_row_ok(t.rows_seq()[i as int]));
                    }
                    return false;
                }
                if i >= 1 {
                    proof {
                        assert(t.rows_seq()[i - 1] == t.rows@[i - 1]@);
                    }
                    if !check_cpu_pair(&t.rows[i - 1], &t.rows[i]) {
                        return false;
                    }
                }
                i += 1;
            }
            true
        },
        Chip::Jump(_) => {
            while i < n
                invariant
                    chip is Jump,
                    i <= n == t.rows@.len(),
                    t.rows_seq().len() == t.rows@.len(),
                    forall|k: int| 0 <= k < i ==> jump_row_ok(#[trigger] t.rows_seq()[k]),
                decreases n - i,
            {
                proof {
                    assert(t.rows_seq()[i as int] == t.rows@[i as int]@);
                }
                if !check_jump_row(&t.rows[i]) {
                    proof {
                        assert(!jump_row_ok(t.rows_seq()[i as int]));
                    }
                    return false;
                }
                i += 1;
            }
            true
        },
    }
}

/// Generate the full ordered set of trace tables for one record: the cpu
/// chip's table, then the jump chip's.
pub fn generate_traces(record: &ExecutionRecord) -> (r: Vec<(Chip, TraceTable)>)
    requires
        record.cpu_events@.len() <= usize::MAX / 2,
        record.jump_events@.len() <= usize::MAX / 2,
    ensures
        r@.len() == 2,
        r@[0].0 == Chip::Cpu(CpuChip),
        cpu_table_of(record.cpu_events@, r@[0].1),
        r@[1].0 == Chip::Jump(JumpChip),
        jump_table_of(record.jump_events@, r@[1].1),
{
    let cpu_chip = CpuChip;
    let jump_chip = JumpChip;
    let mut r: Vec<(Chip, TraceTable)> = Vec::new();
    r.push((Chip::Cpu(cpu_chip), cpu_chip.generate_trace(&record.cpu_events)));
    r.push((Chip::Jump(jump_chip), jump_chip.generate_trace(&record.jump_events)));
    r
}

/// Check every generated table against its chip's declared constraints:
/// `Ok` exactly when no table violates any row or transition constraint.
pub fn check_machine(traces: &Vec<(Chip, TraceTable)>) -> (r: Result<(), MachineError>)
    ensures
        r is Ok <==> (forall|i: int|
            0 <= i < traces@.len() ==> table_ok(
                (#[trigger] traces@[i]).0,
                traces@[i].1,
            )),
{
    let mut i: usize = 0;
    let n = traces.len();
    while i < n
        invariant
            i <= n == traces@.len(),
            forall|k: int|
                0 <= k < i ==> table_ok((#[trigger] traces@[k]).0, traces@[k].1),
        decreases n - i,
    {
        if !check_table(traces[i].0, &traces[i].1) {
            return Err(MachineError::ConstraintsFailing);
        }
        i += 1;
    }
    Ok(())
}

/// Law: for honest input — cpu and jump events meeting the promises a
/// machine run makes, with consecutive cycles chained — the generated
/// tables satisfy every declared row and transition constraint: the core
/// never silently emits a trace violating its own constraints for honest
/// input.
pub proof fn lemma_honest_traces_ok(
    cpu_events: Seq<CpuEvent>,
    jump_events: Seq<JumpEvent>,
    cpu_t: TraceTable,
    jump_t: TraceTable,
)
    requires
        forall|i: int|
            0 <= i < cpu_events.len() ==> crate::emulator::cpu_event_ok(#[trigger] cpu_events[i]),
        forall|i: int|
            0 <= i && i + 1 < cpu_events.len() ==> (#[trigger] cpu_events[i + 1]).pc
                == cpu_events[i].next_pc,
        forall|i: int|
            0 <= i < jump_events.len() ==> crate::emulator::jump_event_ok(
                #[trigger] jump_events[i],
            ),
        cpu_table_of(cpu_events, cpu_t),
        jump_table_of(jump_events, jump_t),
    ensures
        table_ok(Chip::Cpu(CpuChip), cpu_t),
        table_ok(Chip::Jump(JumpChip), jump_t),
{
    let n = cpu_events.len() as int;
    assert forall|i: int| 0 <= i < cpu_t.rows_seq().len() implies cpu_row_ok(
        #[trigger] cpu_t.rows_seq()[i],
    ) by {
        if i < n {
            assert(cpu_t.rows_seq()[i] == cpu_event_row(cpu_events[i]));
        } else {
            assert(cpu_t.rows_seq()[i] == zero_row(NUM_CPU_COLS as int));
        }
    }
    assert forall|i: int| 0 <= i && i + 1 < cpu_t.rows_seq().len() implies cpu_pair_ok(
        #[trigger] cpu_t.rows_seq()[i],
        cpu_t.rows_seq()[i + 1],
    ) by {
        if i + 1 < n {
            assert(cpu_t.rows_seq()[i] == cpu_event_row(cpu_events[i]));
            assert(cpu_t.rows_seq()[i + 1] == cpu_event_row(cpu_events[i + 1]));
        } else {
            assert(cpu_t.rows_seq()[i + 1] == zero_row(NUM_CPU_COLS as int));
        }
    }
    let m = jump_events.len() as int;
    assert forall|i: int| 0 <= i < jump_t.rows_seq().len() implies jump_row_ok(
        #[trigger] jump_t.rows_seq()[i],
    ) by {
        if i < m {
            assert(jump_t.rows_seq()[i] == jump_event_row(jump_events[i]));
            assert(crate::emulator::jump_event_ok(jump_events[i]));
        } else {
            assert(jump_t.rows_seq()[i] == zero_row(NUM_JUMP_COLS as int));
        }
    }
}

/// Law: `spec_padded_len(n)` is exactly the witness pinned by the three
/// least-power-of-two properties.
pub proof fn lemma_padded_len(n: int, r: int)
    requires
        is_pow2(r),
        r >= n,
        forall|m: int| is_pow2(m) && m >= n ==> r <= m,
    ensures
        spec_padded_len(n) == r,
{
    assert(exists|x: int|
        is_pow2(x) && x >= n && (forall|m: int| is_pow2(m) && m >= n ==> x <= m)) by {
        assert(is_pow2(r) && r >= n && (forall|m: int| is_pow2(m) && m >= n ==> r <= m));
    }
    let w = spec_padded_len(n);
    assert(is_pow2(w) && w >= n && (forall|m: int| is_pow2(m) && m >= n ==> w <= m));
    assert(w <= r && r <= w);
}

} // verus!
