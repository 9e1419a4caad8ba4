//! The execution core: the register file, index register, program counter,
//! call stack, timers and the decode/dispatch engine for the instruction set.
//!
//! The semantics of one instruction is captured by the spec functions
//! [`cpu_step`], [`bus_step`] and [`step_fault`]: the first two say what the
//! core and the bus hold after an instruction, the third on which machine
//! states an instruction is an unrecoverable fault.

use crate::bus::{BusView, DataBus};
use crate::display::{blank_fb, draw_collision, draw_fb};
use rand::Rng;
use vstd::prelude::*;

verus! {

/// Address at which program execution starts; the bytes below it hold the
/// interpreter's font data.
pub const START_ADDRESS: u16 = 0x200;

/// Index of the flag register.
pub const VF: usize = 0x0F;

/// An unrecoverable fault: execution must stop and the host is told why.
#[derive(Clone, Copy, Debug, PartialEq, Eq, Structural)]
pub enum Fault {
    /// The instruction word matches no known opcode or sub-opcode.
    IllegalInstruction,
    /// A return was executed with an empty call stack.
    StackUnderflow,
    /// An access reached past the 4096-byte memory or the 16-entry key state.
    OutOfBounds,
}

#[verifier::ext_equal]
pub ghost struct CpuView {
    pub reg: Seq<u8>,
    pub i: u16,
    pub pc: u16,
    pub stack: Seq<u16>,
    pub dt: u8,
    pub st: u8,
    pub cost: u64,
    pub last_micros: u64,
    pub wait: bool,
}

pub struct Cpu {
    pub reg: Vec<u8>,
    pub i: u16,
    pub pc: u16,
    pub stack: Vec<u16>,
    pub dt: u8,
    pub st: u8,
    /// Cost in microseconds charged to the most recently executed instruction.
    pub instr_time: u64,
    /// Timestamp in microseconds at which the most recent instruction ran.
    pub instr_timer: u64,
    pub wait_for_input: bool,
}

impl View for Cpu {
    type V = CpuView;

    open spec fn view(&self) -> CpuView {
        CpuView {
            reg: self.reg@,
            i: self.i,
            pc: self.pc,
            stack: self.stack@,
            dt: self.dt,
            st: self.st,
            cost: self.instr_time,
            last_micros: self.instr_timer,
            wait: self.wait_for_input,
        }
    }
}

impl CpuView {
    pub open spec fn wf(self) -> bool {
        self.reg.len() == 16
    }
}

// Decode: the five bit-fields of a 16-bit instruction word.

/// Top nibble, the primary dispatch key.
pub open spec fn op_of(ins: u16) -> u16 {
    ins >> 12u16
}

/// Lower 12 bits, an address immediate.
pub open spec fn nnn_of(ins: u16) -> u16 {
    ins & 0x0FFF
}

/// Lower byte, an 8-bit immediate and secondary dispatch key.
pub open spec fn kk_of(ins: u16) -> u8 {
    (ins & 0x00FF) as u8
}

/// Lowest nibble, the sprite height and secondary dispatch key.
pub open spec fn n_of(ins: u16) -> u8 {
    (ins & 0x000F) as u8
}

/// Bits 11-8, the first register index.
pub open spec fn x_of(ins: u16) -> int {
    ((ins >> 8u16) & 0xF) as int
}

/// Bits 7-4, the second register index.
pub open spec fn y_of(ins: u16) -> int {
    ((ins >> 4u16) & 0xF) as int
}

proof fn lemma_decode_bounds(ins: u16)
    by (bit_vector)
    ensures
        ins >> 12u16 < 16,
        ins & 0x0FFF < 0x1000,
        (ins >> 8u16) & 0xF < 16,
        (ins >> 4u16) & 0xF < 16,
        ins & 0x00FF < 256,
        ins & 0x000F < 16,
{
}

// Modular machine arithmetic, stated in the same shape as vstd's wrapping
// specifications.

/// 8-bit wrapping addition.
pub open spec fn wrap_add8(a: u8, b: u8) -> u8 {
    if a + b > 255 {
        (a + b - 256) as u8
    } else {
        (a + b) as u8
    }
}

/// 8-bit wrapping subtraction.
pub open spec fn wrap_sub8(a: u8, b: u8) -> u8 {
    if a - b < 0 {
        (a - b + 256) as u8
    } else {
        (a - b) as u8
    }
}

/// The carry flag of an 8-bit addition.
pub open spec fn carry8(a: u8, b: u8) -> u8 {
    if a + b > 255 {
        1u8
    } else {
        0u8
    }
}

/// 16-bit wrapping addition.
pub open spec fn wrap_add16(a: u16, b: u16) -> u16 {
    if a + b > 0xFFFF {
        (a + b - 0x10000) as u16
    } else {
        (a + b) as u16
    }
}

/// The program counter advanced by `k` bytes, wrapping.
pub open spec fn pc_wrap(pc: u16, k: u16) -> u16 {
    wrap_add16(pc, k)
}

proof fn lemma_pc_two_steps(p: u16)
    ensures
        pc_wrap(pc_wrap(p, 2), 2) == pc_wrap(p, 4),
{
}

// Binary-coded decimal decomposition.

/// Hundreds digit.
pub open spec fn bcd_h(v: u8) -> u8 {
    v / 100
}

/// Tens digit.
pub open spec fn bcd_t(v: u8) -> u8 {
    (v % 100) / 10
}

/// Units digit.
pub open spec fn bcd_u(v: u8) -> u8 {
    v % 10
}

/// The sprite bytes a draw instruction reads: `memory[I .. I+n]`.
pub open spec fn sprite_of(c: CpuView, b: BusView, ins: u16) -> Seq<u8> {
    b.mem.subrange(c.i as int, c.i + n_of(ins))
}

/// On which machine states instruction `ins` is an unrecoverable fault, and
/// which fault it is. `None` means the instruction executes.
pub open spec fn step_fault(c: CpuView, ins: u16) -> Option<Fault> {
    let op = op_of(ins);
    let kk = kk_of(ins);
    let n = n_of(ins);
    if op == 0x0 {
        if kk == 0xE0 {
            None
        } else if kk == 0xEE {
            if c.stack.len() == 0 {
                Some(Fault::StackUnderflow)
            } else {
                None
            }
        } else {
            Some(Fault::IllegalInstruction)
        }
    } else if op == 0x8 {
        if n <= 7 || n == 0xE {
            None
        } else {
            Some(Fault::IllegalInstruction)
        }
    } else if op == 0xD {
        if c.i + n > 4096 {
            Some(Fault::OutOfBounds)
        } else {
            None
        }
    } else if op == 0xE {
        if kk == 0x9E || kk == 0xA1 {
            if c.reg[x_of(ins)] < 16 {
                None
            } else {
                Some(Fault::OutOfBounds)
            }
        } else {
            Some(Fault::IllegalInstruction)
        }
    } else if op == 0xF {
        if kk == 0x33 {
            if c.i + 2 < 4096 {
                None
            } else {
                Some(Fault::OutOfBounds)
            }
        } else if kk == 0x55 || kk == 0x65 {
            if c.i + x_of(ins) < 4096 {
                None
            } else {
                Some(Fault::OutOfBounds)
            }
        } else if kk == 0x07 || kk == 0x0A || kk == 0x15 || kk == 0x18 || kk == 0x1E || kk == 0x29 {
            None
        } else {
            Some(Fault::IllegalInstruction)
        }
    } else {
        None
    }
}

/// The execution core after instruction `ins` runs on core `c` and bus `b`,
/// where `rb` is the byte the random generator handed back. Meaningful only
/// when `step_fault(c, ins)` is `None`.
///
/// Control transfers set the program counter to their target directly; every
/// other instruction advances it by two (a skip by four), so the counter
/// always points at the next fetch target. The wait-for-key instruction
/// leaves the counter on itself; the host advances it when a key arrives.
pub open spec fn cpu_step(c: CpuView, b: BusView, ins: u16, rb: u8) -> CpuView {
    let op = op_of(ins);
    let nnn = nnn_of(ins);
    let kk = kk_of(ins);
    let n = n_of(ins);
    let x = x_of(ins);
    let y = y_of(ins);
    let vx = c.reg[x];
    let vy = c.reg[y];
    if op == 0x0 {
        if kk == 0xE0 {
            CpuView { pc: pc_wrap(c.pc, 2), cost: 109u64, ..c }
        } else {
            CpuView { pc: c.stack.last(), stack: c.stack.drop_last(), cost: 109u64, ..c }
        }
    } else if op == 0x1 {
        CpuView { pc: nnn, cost: 105u64, ..c }
    } else if op == 0x2 {
        CpuView { pc: nnn, stack: c.stack.push(pc_wrap(c.pc, 2)), cost: 105u64, ..c }
    } else if op == 0x3 {
        let t = vx == kk;
        CpuView { pc: pc_wrap(c.pc, if t { 4u16 } else { 2u16 }), cost: if t { 46u64 } else { 64u64 }, ..c }
    } else if op == 0x4 {
        let t = vx != kk;
        CpuView { pc: pc_wrap(c.pc, if t { 4u16 } else { 2u16 }), cost: if t { 46u64 } else { 64u64 }, ..c }
    } else if op == 0x5 {
        let t = vx == vy;
        CpuView { pc: pc_wrap(c.pc, if t { 4u16 } else { 2u16 }), cost: if t { 64u64 } else { 82u64 }, ..c }
    } else if op == 0x6 {
        CpuView { reg: c.reg.update(x, kk), pc: pc_wrap(c.pc, 2), cost: 27u64, ..c }
    } else if op == 0x7 {
        CpuView { reg: c.reg.update(x, wrap_add8(vx, kk)), pc: pc_wrap(c.pc, 2), cost: 45u64, ..c }
    } else if op == 0x8 {
        let pc = pc_wrap(c.pc, 2);
        if n == 0x0 {
            CpuView { reg: c.reg.update(x, vy), pc, cost: 200u64, ..c }
        } else if n == 0x1 {
            CpuView { reg: c.reg.update(x, vx | vy), pc, cost: 200u64, ..c }
        } else if n == 0x2 {
            CpuView { reg: c.reg.update(x, vx & vy), pc, cost: 200u64, ..c }
        } else if n == 0x3 {
            CpuView { reg: c.reg.update(x, vx ^ vy), pc, cost: 200u64, ..c }
        } else if n == 0x4 {
            CpuView { reg: c.reg.update(x, wrap_add8(vx, vy)).update(VF as int, carry8(vx, vy)), pc, cost: 200u64, ..c }
        } else if n == 0x5 {
            let r1 = c.reg.update(VF as int, if vx > vy { 1u8 } else { 0u8 });
            CpuView { reg: r1.update(x, wrap_sub8(r1[x], r1[y])), pc, cost: 200u64, ..c }
        } else if n == 0x6 {
            let r1 = c.reg.update(VF as int, vx & 1);
            CpuView { reg: r1.update(x, r1[x] >> 1u8), pc, cost: 200u64, ..c }
        } else if n == 0x7 {
            let r1 = c.reg.update(VF as int, if vy > vx { 1u8 } else { 0u8 });
            CpuView { reg: r1.update(x, wrap_sub8(r1[y], r1[x])), pc, cost: 200u64, ..c }
        } else {
            let r1 = c.reg.update(VF as int, (vx & 0x80) >> 7u8);
            CpuView { reg: r1.update(x, r1[x] << 1u8), pc, cost: 200u64, ..c }
        }
    } else if op == 0x9 {
        let t = vx != vy;
        CpuView { pc: pc_wrap(c.pc, if t { 4u16 } else { 2u16 }), cost: if t { 64u64 } else { 82u64 }, ..c }
    } else if op == 0xA {
        CpuView { i: nnn, pc: pc_wrap(c.pc, 2), cost: 55u64, ..c }
    } else if op == 0xB {
        CpuView { pc: (nnn + c.reg[0]) as u16, cost: 105u64, ..c }
    } else if op == 0xC {
        CpuView { reg: c.reg.update(x, rb & kk), pc: pc_wrap(c.pc, 2), cost: 164u64, ..c }
    } else if op == 0xD {
        let col = draw_collision(b.fb, sprite_of(c, b, ins), vx, vy);
        CpuView { reg: c.reg.update(VF as int, if col { 1u8 } else { 0u8 }), pc: pc_wrap(c.pc, 2), cost: 22743u64, ..c }
    } else if op == 0xE {
        let pressed = b.keys[vx as int];
        let t = if kk == 0x9E { pressed } else { !pressed };
        CpuView { pc: pc_wrap(c.pc, if t { 4u16 } else { 2u16 }), cost: if t { 82u64 } else { 64u64 }, ..c }
    } else if op == 0xF {
        if kk == 0x07 {
            CpuView { reg: c.reg.update(x, c.dt), pc: pc_wrap(c.pc, 2), cost: 45u64, ..c }
        } else if kk == 0x0A {
            CpuView { wait: true, ..c }
        } else if kk == 0x15 {
            CpuView { dt: vx, pc: pc_wrap(c.pc, 2), cost: 45u64, ..c }
        } else if kk == 0x18 {
            CpuView { st: vx, pc: pc_wrap(c.pc, 2), cost: 45u64, ..c }
        } else if kk == 0x1E {
            CpuView { i: wrap_add16(c.i, vx as u16), pc: pc_wrap(c.pc, 2), cost: 86u64, ..c }
        } else if kk == 0x29 {
            CpuView { i: (vx * 5) as u16, pc: pc_wrap(c.pc, 2), cost: 91u64, ..c }
        } else if kk == 0x33 {
            CpuView { pc: pc_wrap(c.pc, 2), cost: ((bcd_h(vx) + bcd_t(vx) + bcd_u(vx)) * 73 + 364) as u64, ..c }
        } else if kk == 0x55 {
            CpuView { pc: pc_wrap(c.pc, 2), cost: (x * 64 + 64) as u64, ..c }
        } else {
            let reg2 = Seq::new(16, |j: int| if 0 <= j <= x { b.mem[c.i + j] } else { c.reg[j] });
            CpuView { reg: reg2, pc: pc_wrap(c.pc, 2), cost: (x * 64 + 64) as u64, ..c }
        }
    } else {
        c
    }
}

/// The bus after instruction `ins` runs on core `c` and bus `b`. Meaningful
/// only when `step_fault(c, ins)` is `None`.
pub open spec fn bus_step(c: CpuView, b: BusView, ins: u16) -> BusView {
    let op = op_of(ins);
    let kk = kk_of(ins);
    let x = x_of(ins);
    let vx = c.reg[x];
    if op == 0x0 && kk == 0xE0 {
        BusView { fb: blank_fb(), redraw: true, ..b }
    } else if op == 0xD {
        BusView { fb: draw_fb(b.fb, sprite_of(c, b, ins), c.reg[x_of(ins)], c.reg[y_of(ins)]), redraw: true, ..b }
    } else if op == 0xF && kk == 0x0A {
        BusView { key_reg: x as u8, ..b }
    } else if op == 0xF && kk == 0x33 {
        BusView {
            mem: b.mem.update(c.i as int, bcd_h(vx)).update(c.i + 1, bcd_t(vx)).update(c.i + 2, bcd_u(vx)),
            ..b
        }
    } else if op == 0xF && kk == 0x55 {
        BusView {
            mem: Seq::new(b.mem.len(), |p: int| if c.i <= p <= c.i + x { c.reg[p - c.i] } else { b.mem[p] }),
            ..b
        }
    } else {
        b
    }
}

/// For every register index, adding an immediate to a register wraps modulo
/// 256 and writes no carry flag: adding 2 to a register holding 0xFF leaves
/// 1 in it and every other register exactly as it was.
pub proof fn lemma_add_imm_wraparound(c: CpuView, b: BusView, x: u16, rb: u8)
    requires
        c.wf(),
        x < 16,
        c.reg[x as int] == 0xFF,
    ensures
        ({
            let ins = 0x7002u16 | (x << 8u16);
            let c2 = cpu_step(c, b, ins, rb);
            step_fault(c, ins) is None && c2.reg[x as int] == 1u8 && forall|j: int|
                0 <= j < 16 && j != x ==> c2.reg[j] == c.reg[j]
        }),
{
    let ins = 0x7002u16 | (x << 8u16);
    assert(ins >> 12u16 == 7 && (ins >> 8u16) & 0xF == x && (ins & 0x00FF) == 2) by (bit_vector)
        requires
            ins == 0x7002u16 | (x << 8u16),
            x < 16,
    ;
}

/// For all register values, the register-register addition sets the flag
/// register to 1 exactly when the unsigned sum exceeds 255, and (when the
/// destination is not the flag register itself) leaves the sum modulo 256
/// in the destination.
pub proof fn lemma_add_carry(c: CpuView, b: BusView, x: u16, y: u16, rb: u8)
    requires
        c.wf(),
        x < 16,
        y < 16,
    ensures
        ({
            let ins = 0x8004u16 | (x << 8u16) | (y << 4u16);
            let c2 = cpu_step(c, b, ins, rb);
            let vx = c.reg[x as int];
            let vy = c.reg[y as int];
            step_fault(c, ins) is None && c2.reg[VF as int] == (if vx + vy > 255 { 1u8 } else { 0u8 })
                && (x != 15 ==> c2.reg[x as int] == (vx + vy) % 256)
        }),
{
    let ins = 0x8004u16 | (x << 8u16) | (y << 4u16);
    assert(ins >> 12u16 == 8 && (ins >> 8u16) & 0xF == x && (ins >> 4u16) & 0xF == y && (ins
        & 0x000F) == 4) by (bit_vector)
        requires
            ins == 0x8004u16 | (x << 8u16) | (y << 4u16),
            x < 16,
            y < 16,
    ;
}

/// A return executed with an empty call stack is the stack-underflow fault,
/// on every machine state; it is never a silent no-op.
pub proof fn lemma_ret_underflow(c: CpuView)
    requires
        c.stack.len() == 0,
    ensures
        step_fault(c, 0x00EE) == Some(Fault::StackUnderflow),
{
    assert(0x00EEu16 >> 12u16 == 0 && (0x00EEu16 & 0x00FF) == 0xEE) by (bit_vector);
}

/// Instruction execution leaves both timers alone unless the instruction is
/// one of the two explicit timer writes; their 60 Hz decrement is driven by
/// the timer clock alone.
pub proof fn lemma_step_preserves_timers(c: CpuView, b: BusView, ins: u16, rb: u8)
    requires
        !(op_of(ins) == 0xF && (kk_of(ins) == 0x15 || kk_of(ins) == 0x18)),
    ensures
        cpu_step(c, b, ins, rb).dt == c.dt,
        cpu_step(c, b, ins, rb).st == c.st,
{
}

/// Relies on rand::rngs::ThreadRng::gen_range over the half-open range
/// 0..255: a byte strictly below 255, and nothing else can be promised of a
/// random draw.
#[verifier::external_body]
fn random_below_255() -> (r: u8)
    ensures
        r < 255,
{
    let mut rng = rand::thread_rng();
    rng.gen_range(0..255)
}

impl Cpu {
    pub open spec fn wf(self) -> bool {
        self@.wf()
    }

    pub fn new() -> (r: Cpu)
        ensures
            r.wf(),
            forall|k: int| 0 <= k < 16 ==> r@.reg[k] == 0u8,
            r@.i == 0u16,
            r@.pc == START_ADDRESS,
            r@.stack.len() == 0,
            r@.dt == 0u8,
            r@.st == 0u8,
            r@.cost == 0u64,
            r@.last_micros == 0u64,
            !r@.wait,
    {
        let mut reg: Vec<u8> = Vec::new();
        let mut k: usize = 0;
        while k < 16
            invariant
                reg@.len() == k,
                k <= 16,
                forall|j: int| 0 <= j < k ==> reg@[j] == 0u8,
            decreases 16 - k,
        {
            reg.push(0u8);
            k = k + 1;
        }
        Cpu {
            reg,
            i: 0,
            pc: START_ADDRESS,
            stack: Vec::new(),
            dt: 0,
            st: 0,
            instr_time: 0,
            instr_timer: 0,
            wait_for_input: false,
        }
    }

    pub fn get_i(&self) -> (r: u16)
        ensures
            r == self@.i,
    {
        self.i
    }

    /// Decode and execute one instruction word. On a fault the machine is
    /// left exactly as it was; otherwise core and bus step as [`cpu_step`]
    /// and [`bus_step`] say, for some byte the random generator handed back.
    pub fn exec_instruction(&mut self, bus: &mut DataBus, instruction: u16) -> (r: Result<(), Fault>)
        requires
            old(self).wf(),
            old(bus).wf(),
        ensures
            final(self).wf(),
            final(bus).wf(),
            (r is Err) == (step_fault(old(self)@, instruction) is Some),
            r is Err ==> final(self)@ == old(self)@ && final(bus)@ == old(bus)@
                && step_fault(old(self)@, instruction) == Some(r->Err_0),
            r is Ok ==> (exists|rb: u8|
                rb < 255 && final(self)@ == #[trigger] cpu_step(old(self)@, old(bus)@, instruction, rb))
                && final(bus)@ == bus_step(old(self)@, old(bus)@, instruction),
    {
        proof {
            lemma_decode_bounds(instruction);
        }
        let opcode: u8 = (instruction >> 12u16) as u8;
        let nnn: u16 = instruction & 0x0FFF;
        let kk: u8 = (instruction & 0x00FF) as u8;
        let n: u8 = (instruction & 0x000F) as u8;
        let x: u8 = ((instruction >> 8u16) & 0xF) as u8;
        let y: u8 = ((instruction >> 4u16) & 0xF) as u8;

        match opcode {
            0x0 => {
                if kk == 0xE0 {
                    self.cls(bus);
                    self.advance_pc();
                } else if kk == 0xEE {
                    self.ret_s()?;
                } else {
                    return Err(Fault::IllegalInstruction);
                }
            },
            0x1 => {
                self.jp_addr(nnn);
            },
            0x2 => {
                self.call_addr(nnn);
            },
            0x3 => {
                self.se_vx_byte(x, kk);
                self.advance_pc();
                proof {
                    lemma_pc_two_steps(old(self)@.pc);
                }
            },
            0x4 => {
                self.sne_vx_byte(x, kk);
                self.advance_pc();
                proof {
                    lemma_pc_two_steps(old(self)@.pc);
                }
            },
            0x5 => {
                self.se_vx_vy(x, y);
                self.advance_pc();
                proof {
                    lemma_pc_two_steps(old(self)@.pc);
                }
            },
            0x6 => {
                self.ld_vx_byte(x, kk);
                self.advance_pc();
            },
            0x7 => {
                self.add_vx_byte(x, kk);
                self.advance_pc();
            },
            0x8 => {
                match n {
                    0x0 => self.ld_vx_vy(x, y),
                    0x1 => self.or_vx_vy(x, y),
                    0x2 => self.and_vx_vy(x, y),
                    0x3 => self.xor_vx_vy(x, y),
                    0x4 => self.add_vx_vy(x, y),
                    0x5 => self.sub_vx_vy(x, y),
                    0x6 => self.shr_vx(x),
                    0x7 => self.subn_vx_vy(x, y),
                    0xE => self.shl_vx(x),
                    _ => {
                        return Err(Fault::IllegalInstruction);
                    },
                }
                self.advance_pc();
            },
            0x9 => {
                self.sne_vx_vy(x, y);
                self.advance_pc();
                proof {
                    lemma_pc_two_steps(old(self)@.pc);
                }
            },
            0xA => {
                self.ld_i_addr(nnn);
                self.advance_pc();
            },
            0xB => {
                self.jmp_v0_addr(nnn);
            },
            0xC => {
                self.rnd_vx_byte(x, kk);
                self.advance_pc();
            },
            0xD => {
                self.d_xn_n(bus, x, y, n)?;
                self.advance_pc();
            },
            0xE => {
                if kk == 0x9E {
                    self.skp_vx(bus, x)?;
                    self.advance_pc();
                    proof {
                        lemma_pc_two_steps(old(self)@.pc);
                    }
                } else if kk == 0xA1 {
                    self.sknp_vx(bus, x)?;
                    self.advance_pc();
                    proof {
                        lemma_pc_two_steps(old(self)@.pc);
                    }
                } else {
                    return Err(Fault::IllegalInstruction);
                }
            },
            0xF => {
                match kk {
                    0x07 => {
                        self.ld_vx_dt(x);
                        self.advance_pc();
                    },
                    0x0A => {
                        self.ld_vx_k(bus, x);
                    },
                    0x15 => {
                        self.ld_dt_vx(x);
                        self.advance_pc();
                    },
                    0x18 => {
                        self.ld_st_vx(x);
                        self.advance_pc();
                    },
                    0x1E => {
                        self.add_i_vx(x);
                        self.advance_pc();
                    },
                    0x29 => {
                        self.ld_f_vx(x);
                        self.advance_pc();
                    },
                    0x33 => {
                        self.ld_b_vx(bus, x)?;
                        self.advance_pc();
                    },
                    0x55 => {
                        self.ld_i_vx(bus, x)?;
                        self.advance_pc();
                    },
                    0x65 => {
                        self.ld_vx_i(bus, x)?;
                        self.advance_pc();
                    },
                    _ => {
                        return Err(Fault::IllegalInstruction);
                    },
                }
            },
            _ => {
                // The top nibble of a 16-bit word is at most 0xF.
                proof {
                    assert(false);
                }
                return Err(Fault::IllegalInstruction);
            },
        }
        proof {
            if op_of(instruction) == 0xC {
                let b = choose|b: u8|
                    b < 255 && self@.reg =~= old(self)@.reg.update(x_of(instruction), b & kk_of(instruction));
                assert(self@ =~= cpu_step(old(self)@, old(bus)@, instruction, b));
            } else {
                assert(self@ =~= cpu_step(old(self)@, old(bus)@, instruction, 0u8));
            }
            assert(bus@ =~= bus_step(old(self)@, old(bus)@, instruction));
        }
        Ok(())
    }

    /// The universal advance past a two-byte instruction.
    fn advance_pc(&mut self)
        ensures
            (final(self)@ == CpuView { pc: pc_wrap(old(self)@.pc, 2), ..old(self)@ }),
    {
        self.pc = self.pc.wrapping_add(2);
    }

    #[inline(always)]
    fn instr_exec_time(&mut self, delay: u16)
        ensures
            (final(self)@ == CpuView { cost: delay as u64, ..old(self)@ }),
    {
        self.instr_time = delay as u64;
    }

    // 0x00E0 Clear screen
    fn cls(&mut self, bus: &mut DataBus)
        requires
            old(bus).wf(),
        ensures
            (final(self)@ == CpuView { cost: 109u64, ..old(self)@ }),
            final(bus).wf(),
            (final(bus)@ == BusView { fb: blank_fb(), redraw: true, ..old(bus)@ }),
    {
        bus.display.clear_screen();
        self.instr_exec_time(109);
    }

    // 0x00EE Return from a subroutine; an empty call stack is a fatal fault.
    fn ret_s(&mut self) -> (r: Result<(), Fault>)
        ensures
            (r is Err) == (old(self)@.stack.len() == 0),
            r is Err ==> final(self)@ == old(self)@ && r == Err::<(), Fault>(Fault::StackUnderflow),
            r is Ok ==> (final(self)@ == CpuView {
                pc: old(self)@.stack.last(),
                stack: old(self)@.stack.drop_last(),
                cost: 109u64,
                ..old(self)@
            }),
    {
        match self.stack.pop() {
            Some(addr) => {
                self.pc = addr;
                self.instr_exec_time(109);
                Ok(())
            },
            None => Err(Fault::StackUnderflow),
        }
    }

    // 0x1 Jump to location nnn. The target is stored directly; the universal
    // two-byte advance is skipped for control transfers.
    fn jp_addr(&mut self, nnn: u16)
        ensures
            (final(self)@ == CpuView { pc: nnn, cost: 105u64, ..old(self)@ }),
    {
        self.pc = nnn;
        self.instr_exec_time(105);
    }

    // 0x2 Call subroutine at nnn: push the return address, jump.
    fn call_addr(&mut self, nnn: u16)
        ensures
            (final(self)@ == CpuView {
                pc: nnn,
                stack: old(self)@.stack.push(pc_wrap(old(self)@.pc, 2)),
                cost: 105u64,
                ..old(self)@
            }),
    {
        self.stack.push(self.pc.wrapping_add(2));
        self.pc = nnn;
        self.instr_exec_time(105);
    }

    // 0x3 Skip next instruction if Vx = kk
    fn se_vx_byte(&mut self, x: u8, kk: u8)
        requires
            old(self).wf(),
            x < 16,
        ensures
            ({
                let t = old(self)@.reg[x as int] == kk;
                final(self)@ == CpuView {
                    pc: if t { pc_wrap(old(self)@.pc, 2) } else { old(self)@.pc },
                    cost: if t { 46u64 } else { 64u64 },
                    ..old(self)@
                }
            }),
    {
        if self.reg[x as usize] == kk {
            self.pc = self.pc.wrapping_add(2);
            self.instr_exec_time(46);
            return ;
        }
        self.instr_exec_time(64);
    }

    // 0x4 Skip next instruction if Vx != kk
    fn sne_vx_byte(&mut self, x: u8, kk: u8)
        requires
            old(self).wf(),
            x < 16,
        ensures
            ({
                let t = old(self)@.reg[x as int] != kk;
                final(self)@ == CpuView {
                    pc: if t { pc_wrap(old(self)@.pc, 2) } else { old(self)@.pc },
                    cost: if t { 46u64 } else { 64u64 },
                    ..old(self)@
                }
            }),
    {
        if self.reg[x as usize] != kk {
            self.pc = self.pc.wrapping_add(2);
            self.instr_exec_time(46);
            return ;
        }
        self.instr_exec_time(64);
    }

    // 0x5 Skip next instruction if Vx = Vy
    fn se_vx_vy(&mut self, x: u8, y: u8)
        requires
            old(self).wf(),
            x < 16,
            y < 16,
        ensures
            ({
                let t = old(self)@.reg[x as int] == old(self)@.reg[y as int];
                final(self)@ == CpuView {
                    pc: if t { pc_wrap(old(self)@.pc, 2) } else { old(self)@.pc },
                    cost: if t { 64u64 } else { 82u64 },
                    ..old(self)@
                }
            }),
    {
        if self.reg[x as usize] == self.reg[y as usize] {
            self.pc = self.pc.wrapping_add(2);
            self.instr_exec_time(64);
            return ;
        }
        self.instr_exec_time(82);
    }

    // 0x6 Set Vx = kk
    fn ld_vx_byte(&mut self, vx: u8, byte: u8)
        requires
            old(self).wf(),
            vx < 16,
        ensures
            (final(self)@ == CpuView {
                reg: old(self)@.reg.update(vx as int, byte),
                cost: 27u64,
                ..old(self)@
            }),
    {
        self.reg[vx as usize] = byte;
        self.instr_exec_time(27);
    }

    // 0x7 Set Vx = Vx + kk (wraps with no carry flag)
    fn add_vx_byte(&mut self, x: u8, kk: u8)
        requires
            old(self).wf(),
            x < 16,
        ensures
            (final(self)@ == CpuView {
                reg: old(self)@.reg.update(x as int, wrap_add8(old(self)@.reg[x as int], kk)),
                cost: 45u64,
                ..old(self)@
            }),
    {
        self.reg[x as usize] = self.reg[x as usize].wrapping_add(kk);
        self.instr_exec_time(45);
    }

    // 0x8__0 Set Vx = Vy
    fn ld_vx_vy(&mut self, x: u8, y: u8)
        requires
            old(self).wf(),
            x < 16,
            y < 16,
        ensures
            (final(self)@ == CpuView {
                reg: old(self)@.reg.update(x as int, old(self)@.reg[y as int]),
                cost: 200u64,
                ..old(self)@
            }),
    {
        self.reg[x as usize] = self.reg[y as usize];
        self.instr_exec_time(200);
    }

    // 0x8__1 Set Vx = Vx OR Vy
    fn or_vx_vy(&mut self, x: u8, y: u8)
        requires
            old(self).wf(),
            x < 16,
            y < 16,
        ensures
            (final(self)@ == CpuView {
                reg: old(self)@.reg.update(x as int, old(self)@.reg[x as int] | old(self)@.reg[y as int]),
                cost: 200u64,
                ..old(self)@
            }),
    {
        self.reg[x as usize] = self.reg[x as usize] | self.reg[y as usize];
        self.instr_exec_time(200);
    }

    // 0x8__2 Set Vx = Vx AND Vy
    fn and_vx_vy(&mut self, x: u8, y: u8)
        requires
            old(self).wf(),
            x < 16,
            y < 16,
        ensures
            (final(self)@ == CpuView {
                reg: old(self)@.reg.update(x as int, old(self)@.reg[x as int] & old(self)@.reg[y as int]),
                cost: 200u64,
                ..old(self)@
            }),
    {
        self.reg[x as usize] = self.reg[x as usize] & self.reg[y as usize];
        self.instr_exec_time(200);
    }

    // 0x8__3 Set Vx = Vx XOR Vy
    fn xor_vx_vy(&mut self, x: u8, y: u8)
        requires
            old(self).wf(),
            x < 16,
            y < 16,
        ensures
            (final(self)@ == CpuView {
                reg: old(self)@.reg.update(x as int, old(self)@.reg[x as int] ^ old(self)@.reg[y as int]),
                cost: 200u64,
                ..old(self)@
            }),
    {
        self.reg[x as usize] = self.reg[x as usize] ^ self.reg[y as usize];
        self.instr_exec_time(200);
    }

    // 0x8__4 Set Vx = Vx + Vy, set VF = carry
    fn add_vx_vy(&mut self, x: u8, y: u8)
        requires
            old(self).wf(),
            x < 16,
            y < 16,
        ensures
            (final(self)@ == CpuView {
                reg: old(self)@.reg
                    .update(x as int, wrap_add8(old(self)@.reg[x as int], old(self)@.reg[y as int]))
                    .update(VF as int, carry8(old(self)@.reg[x as int], old(self)@.reg[y as int])),
                cost: 200u64,
                ..old(self)@
            }),
    {
        let vx = self.reg[x as usize];
        let vy = self.reg[y as usize];
        let res = vx.wrapping_add(vy);
        let carry: u8 = if (vx as u16) + (vy as u16) > 255 {
            1
        } else {
            0
        };
        self.reg[x as usize] = res;
        self.reg[VF] = carry;
        self.instr_exec_time(200);
    }

    // 0x8__5 Set VF = 1 if Vx > Vy (before the subtraction), then
    // Vx = Vx - Vy wrapping. The flag write happens first, as on the
    // original interpreters, so when x is the flag register the
    // subtraction reads the freshly written flag.
    fn sub_vx_vy(&mut self, x: u8, y: u8)
        requires
            old(self).wf(),
            x < 16,
            y < 16,
        ensures
            ({
                let r1 = old(self)@.reg
                    .update(VF as int, if old(self)@.reg[x as int] > old(self)@.reg[y as int] { 1u8 } else { 0u8 });
                final(self)@ == CpuView {
                    reg: r1.update(x as int, wrap_sub8(r1[x as int], r1[y as int])),
                    cost: 200u64,
                    ..old(self)@
                }
            }),
    {
        let flag: u8 = if self.reg[x as usize] > self.reg[y as usize] {
            1
        } else {
            0
        };
        self.reg[VF] = flag;
        let d = self.reg[x as usize].wrapping_sub(self.reg[y as usize]);
        self.reg[x as usize] = d;
        self.instr_exec_time(200);
    }

    // 0x8__6 Set VF = low bit of Vx, then Vx = Vx >> 1. The ambiguity
    // between the older shift-Vy and the newer shift-Vx-in-place reading is
    // settled here as shift-Vx-in-place.
    fn shr_vx(&mut self, x: u8)
        requires
            old(self).wf(),
            x < 16,
        ensures
            ({
                let r1 = old(self)@.reg.update(VF as int, old(self)@.reg[x as int] & 1);
                final(self)@ == CpuView {
                    reg: r1.update(x as int, r1[x as int] >> 1u8),
                    cost: 200u64,
                    ..old(self)@
                }
            }),
    {
        self.reg[VF] = self.reg[x as usize] & 1;
        let d = self.reg[x as usize] >> 1u8;
        self.reg[x as usize] = d;
        self.instr_exec_time(200);
    }

    // 0x8__7 Set VF = 1 if Vy > Vx, then Vx = Vy - Vx wrapping; the flag
    // write happens first, as in the borrow case above.
    fn subn_vx_vy(&mut self, x: u8, y: u8)
        requires
            old(self).wf(),
            x < 16,
            y < 16,
        ensures
            ({
                let r1 = old(self)@.reg
                    .update(VF as int, if old(self)@.reg[y as int] > old(self)@.reg[x as int] { 1u8 } else { 0u8 });
                final(self)@ == CpuView {
                    reg: r1.update(x as int, wrap_sub8(r1[y as int], r1[x as int])),
                    cost: 200u64,
                    ..old(self)@
                }
            }),
    {
        let flag: u8 = if self.reg[y as usize] > self.reg[x as usize] {
            1
        } else {
            0
        };
        self.reg[VF] = flag;
        let d = self.reg[y as usize].wrapping_sub(self.reg[x as usize]);
        self.reg[x as usize] = d;
        self.instr_exec_time(200);
    }

    // 0x8__E Set VF = top bit of Vx, then Vx = Vx << 1 wrapping; the same
    // shift-Vx-in-place reading as for the right shift.
    fn shl_vx(&mut self, x: u8)
        requires
            old(self).wf(),
            x < 16,
        ensures
            ({
                let r1 = old(self)@.reg.update(VF as int, (old(self)@.reg[x as int] & 0x80) >> 7u8);
                final(self)@ == CpuView {
                    reg: r1.update(x as int, r1[x as int] << 1u8),
                    cost: 200u64,
                    ..old(self)@
                }
            }),
    {
        self.reg[VF] = (self.reg[x as usize] & 0x80) >> 7u8;
        let d = self.reg[x as usize] << 1u8;
        self.reg[x as usize] = d;
        self.instr_exec_time(200);
    }

    // 0x9XY0 Skip next instruction if Vx != Vy
    fn sne_vx_vy(&mut self, x: u8, y: u8)
        requires
            old(self).wf(),
            x < 16,
            y < 16,
        ensures
            ({
                let t = old(self)@.reg[x as int] != old(self)@.reg[y as int];
                final(self)@ == CpuView {
                    pc: if t { pc_wrap(old(self)@.pc, 2) } else { old(self)@.pc },
                    cost: if t { 64u64 } else { 82u64 },
                    ..old(self)@
                }
            }),
    {
        if self.reg[x as usize] != self.reg[y as usize] {
            self.pc = self.pc.wrapping_add(2);
            self.instr_exec_time(64);
            return ;
        }
        self.instr_exec_time(82);
    }

    // 0xA Set I = nnn
    fn ld_i_addr(&mut self, nnn: u16)
        ensures
            (final(self)@ == CpuView { i: nnn, cost: 55u64, ..old(self)@ }),
    {
        self.i = nnn;
        self.instr_exec_time(55);
    }

    // 0xB Jump to location nnn + V0, another direct control transfer.
    fn jmp_v0_addr(&mut self, nnn: u16)
        requires
            old(self).wf(),
            nnn < 0x1000,
        ensures
            (final(self)@ == CpuView {
                pc: (nnn + old(self)@.reg[0]) as u16,
                cost: 105u64,
                ..old(self)@
            }),
    {
        self.pc = nnn + self.reg[0] as u16;
        self.instr_exec_time(105);
    }

    // 0xC Set Vx = random byte AND kk
    fn rnd_vx_byte(&mut self, x: u8, kk: u8)
        requires
            old(self).wf(),
            x < 16,
        ensures
            final(self).wf(),
            exists|b: u8|
                b < 255 && final(self)@ == (CpuView {
                    reg: old(self)@.reg.update(x as int, #[trigger] (b & kk)),
                    cost: 164u64,
                    ..old(self)@
                }),
    {
        let b = random_below_255();
        self.set_masked_random(x, b, kk);
    }

    /// Applies a random draw: Vx = b AND kk, verified for every byte `b`
    /// the generator can hand back.
    pub fn set_masked_random(&mut self, x: u8, b: u8, kk: u8)
        requires
            old(self).wf(),
            x < 16,
        ensures
            (final(self)@ == CpuView {
                reg: old(self)@.reg.update(x as int, b & kk),
                cost: 164u64,
                ..old(self)@
            }),
    {
        self.reg[x as usize] = b & kk;
        self.instr_exec_time(164);
    }

    // 0xD Draw the n-byte sprite at memory[I..I+n] at (Vx, Vy); VF reports
    // the collision. Reading past the end of memory is a fatal fault.
    fn d_xn_n(&mut self, bus: &mut DataBus, x: u8, y: u8, n: u8) -> (r: Result<(), Fault>)
        requires
            old(self).wf(),
            old(bus).wf(),
            x < 16,
            y < 16,
            n < 16,
        ensures
            final(self).wf(),
            final(bus).wf(),
            (r is Err) == (old(self)@.i + n > 4096),
            r is Err ==> final(self)@ == old(self)@ && final(bus)@ == old(bus)@
                && r == Err::<(), Fault>(Fault::OutOfBounds),
            r is Ok ==> ({
                let sprite = old(bus)@.mem.subrange(old(self)@.i as int, old(self)@.i + n);
                let col = draw_collision(old(bus)@.fb, sprite, old(self)@.reg[x as int], old(self)@.reg[y as int]);
                final(self)@ == (CpuView {
                    reg: old(self)@.reg.update(VF as int, if col { 1u8 } else { 0u8 }),
                    cost: 22743u64,
                    ..old(self)@
                }) && final(bus)@ == (BusView {
                    fb: draw_fb(old(bus)@.fb, sprite, old(self)@.reg[x as int], old(self)@.reg[y as int]),
                    redraw: true,
                    ..old(bus)@
                })
            }),
    {
        if (self.i as usize) + (n as usize) > 4096 {
            return Err(Fault::OutOfBounds);
        }
        let base = self.i as usize;
        let mut sprite: Vec<u8> = Vec::new();
        let mut k: usize = 0;
        while k < n as usize
            invariant
                self@ == old(self)@,
                bus@ == old(bus)@,
                bus.wf(),
                base == self@.i as int,
                base + n <= 4096,
                k <= n,
                sprite@ == bus@.mem.subrange(base as int, base + k),
            decreases n - k,
        {
            sprite.push(bus.ram.read_byte(base + k));
            proof {
                assert(sprite@ =~= bus@.mem.subrange(base as int, base + k + 1));
            }
            k = k + 1;
        }
        let collision = bus.display.draw_s(self.reg[x as usize], self.reg[y as usize], sprite.as_slice());
        self.reg[VF] = if collision {
            1
        } else {
            0
        };
        self.instr_exec_time(22743);
        Ok(())
    }

    // E_9E Skip next instruction if the key with the value of Vx is
    // pressed. A register value past the 16 keys is a fatal fault.
    fn skp_vx(&mut self, bus: &DataBus, x: u8) -> (r: Result<(), Fault>)
        requires
            old(self).wf(),
            bus.wf(),
            x < 16,
        ensures
            (r is Err) == (old(self)@.reg[x as int] >= 16),
            r is Err ==> final(self)@ == old(self)@ && r == Err::<(), Fault>(Fault::OutOfBounds),
            r is Ok ==> ({
                let t = bus@.keys[old(self)@.reg[x as int] as int];
                final(self)@ == CpuView {
                    pc: if t { pc_wrap(old(self)@.pc, 2) } else { old(self)@.pc },
                    cost: if t { 82u64 } else { 64u64 },
                    ..old(self)@
                }
            }),
    {
        let key = self.reg[x as usize];
        if key >= 16 {
            return Err(Fault::OutOfBounds);
        }
        if bus.keyboard.key_pressed(key as usize) {
            self.pc = self.pc.wrapping_add(2);
            self.instr_exec_time(82);
            return Ok(());
        }
        self.instr_exec_time(64);
        Ok(())
    }

    // E_A1 Skip next instruction if the key with the value of Vx is not
    // pressed; the same key-range fault as the positive test.
    fn sknp_vx(&mut self, bus: &DataBus, x: u8) -> (r: Result<(), Fault>)
        requires
            old(self).wf(),
            bus.wf(),
            x < 16,
        ensures
            (r is Err) == (old(self)@.reg[x as int] >= 16),
            r is Err ==> final(self)@ == old(self)@ && r == Err::<(), Fault>(Fault::OutOfBounds),
            r is Ok ==> ({
                let t = !bus@.keys[old(self)@.reg[x as int] as int];
                final(self)@ == CpuView {
                    pc: if t { pc_wrap(old(self)@.pc, 2) } else { old(self)@.pc },
                    cost: if t { 82u64 } else { 64u64 },
                    ..old(self)@
                }
            }),
    {
        let key = self.reg[x as usize];
        if key >= 16 {
            return Err(Fault::OutOfBounds);
        }
        if !bus.keyboard.key_pressed(key as usize) {
            self.pc = self.pc.wrapping_add(2);
            self.instr_exec_time(82);
            return Ok(());
        }
        self.instr_exec_time(64);
        Ok(())
    }

    // 0xF_07 Set Vx = delay timer value
    fn ld_vx_dt(&mut self, x: u8)
        requires
            old(self).wf(),
            x < 16,
        ensures
            (final(self)@ == CpuView {
                reg: old(self)@.reg.update(x as int, old(self)@.dt),
                cost: 45u64,
                ..old(self)@
            }),
    {
        self.reg[x as usize] = self.dt;
        self.instr_exec_time(45);
    }

    // 0xF_0A Wait for a key press, storing the key in Vx: the wait flag is
    // raised and the pending register recorded; the program counter stays on
    // this instruction until the host resolves the wait.
    fn ld_vx_k(&mut self, bus: &mut DataBus, x: u8)
        requires
            old(bus).wf(),
            x < 16,
        ensures
            (final(self)@ == CpuView { wait: true, ..old(self)@ }),
            final(bus).wf(),
            (final(bus)@ == BusView { key_reg: x, ..old(bus)@ }),
    {
        bus.keyboard.register = x;
        self.wait_for_input = true;
    }

    // 0xF_15 Set delay timer = Vx
    fn ld_dt_vx(&mut self, x: u8)
        requires
            old(self).wf(),
            x < 16,
        ensures
            (final(self)@ == CpuView { dt: old(self)@.reg[x as int], cost: 45u64, ..old(self)@ }),
    {
        self.dt = self.reg[x as usize];
        self.instr_exec_time(45);
    }

    // 0xF_18 Set sound timer = Vx
    fn ld_st_vx(&mut self, x: u8)
        requires
            old(self).wf(),
            x < 16,
        ensures
            (final(self)@ == CpuView { st: old(self)@.reg[x as int], cost: 45u64, ..old(self)@ }),
    {
        self.st = self.reg[x as usize];
        self.instr_exec_time(45);
    }

    // 0xF_1E Set I = I + Vx, wrapping, with no overflow flag.
    fn add_i_vx(&mut self, x: u8)
        requires
            old(self).wf(),
            x < 16,
        ensures
            (final(self)@ == CpuView {
                i: wrap_add16(old(self)@.i, old(self)@.reg[x as int] as u16),
                cost: 86u64,
                ..old(self)@
            }),
    {
        self.i = self.i.wrapping_add(self.reg[x as usize] as u16);
        self.instr_exec_time(86);
    }

    // 0xF_29 Set I = location of the 5-byte font sprite for digit Vx.
    fn ld_f_vx(&mut self, x: u8)
        requires
            old(self).wf(),
            x < 16,
        ensures
            (final(self)@ == CpuView {
                i: (old(self)@.reg[x as int] * 5) as u16,
                cost: 91u64,
                ..old(self)@
            }),
    {
        self.i = self.reg[x as usize] as u16 * 5;
        self.instr_exec_time(91);
    }

    // 0xF_33 Store the BCD digits of Vx at memory[I], [I+1] and [I+2];
    // writing past the end of memory is a fatal fault.
    fn ld_b_vx(&mut self, bus: &mut DataBus, x: u8) -> (r: Result<(), Fault>)
        requires
            old(self).wf(),
            old(bus).wf(),
            x < 16,
        ensures
            final(bus).wf(),
            (r is Err) == !(old(self)@.i + 2 < 4096),
            r is Err ==> final(self)@ == old(self)@ && final(bus)@ == old(bus)@
                && r == Err::<(), Fault>(Fault::OutOfBounds),
            r is Ok ==> ({
                let vx = old(self)@.reg[x as int];
                final(self)@ == (CpuView {
                    cost: ((bcd_h(vx) + bcd_t(vx) + bcd_u(vx)) * 73 + 364) as u64,
                    ..old(self)@
                }) && final(bus)@ == (BusView {
                    mem: old(bus)@.mem
                        .update(old(self)@.i as int, bcd_h(vx))
                        .update(old(self)@.i + 1, bcd_t(vx))
                        .update(old(self)@.i + 2, bcd_u(vx)),
                    ..old(bus)@
                })
            }),
    {
        if !((self.i as usize) + 2 < 4096) {
            return Err(Fault::OutOfBounds);
        }
        let v = self.reg[x as usize];
        let hundreds = v / 100;
        let tens = (v % 100) / 10;
        let units = v % 10;
        bus.ram.write_byte(self.i as usize, hundreds);
        bus.ram.write_byte(self.i as usize + 1, tens);
        bus.ram.write_byte(self.i as usize + 2, units);
        self.instr_exec_time((hundreds + tens + units) as u16 * 73 + 364);
        Ok(())
    }

    // 0xF_55 Store registers V0 through Vx in memory starting at I, leaving
    // I itself unmodified; that the index register does not advance settles
    // the documented ambiguity the newer way.
    fn ld_i_vx(&mut self, bus: &mut DataBus, x: u8) -> (r: Result<(), Fault>)
        requires
            old(self).wf(),
            old(bus).wf(),
            x < 16,
        ensures
            final(bus).wf(),
            (r is Err) == !(old(self)@.i + x < 4096),
            r is Err ==> final(self)@ == old(self)@ && final(bus)@ == old(bus)@
                && r == Err::<(), Fault>(Fault::OutOfBounds),
            r is Ok ==> final(self)@ == (CpuView { cost: (x * 64 + 64) as u64, ..old(self)@ })
                && final(bus)@ == (BusView {
                    mem: Seq::new(old(bus)@.mem.len(), |p: int|
                        if old(self)@.i <= p <= old(self)@.i + x { old(self)@.reg[p - old(self)@.i] } else { old(bus)@.mem[p] }),
                    ..old(bus)@
                }),
    {
        if !((self.i as usize) + (x as usize) < 4096) {
            return Err(Fault::OutOfBounds);
        }
        let base = self.i as usize;
        let mut k: usize = 0;
        while k <= x as usize
            invariant
                self@ == old(self)@,
                self.wf(),
                bus.wf(),
                base == self@.i as int,
                base + x < 4096,
                x < 16,
                k <= x + 1,
                bus@ == (BusView {
                    mem: Seq::new(old(bus)@.mem.len(), |p: int|
                        if base <= p < base + k { self@.reg[p - base] } else { old(bus)@.mem[p] }),
                    ..old(bus)@
                }),
            decreases x + 1 - k,
        {
            let ghost prev = bus@.mem;
            bus.ram.write_byte(base + k, self.reg[k]);
            proof {
                assert(bus@.mem =~= Seq::new(old(bus)@.mem.len(), |p: int|
                    if base <= p < base + k + 1 { self@.reg[p - base] } else { old(bus)@.mem[p] }));
            }
            k = k + 1;
        }
        self.instr_exec_time(x as u16 * 64 + 64);
        proof {
            assert(bus@.mem =~= Seq::new(old(bus)@.mem.len(), |p: int|
                if old(self)@.i <= p <= old(self)@.i + x { old(self)@.reg[p - old(self)@.i] } else { old(bus)@.mem[p] }));
        }
        Ok(())
    }

    // 0xF_65 Read registers V0 through Vx from memory starting at I, again
    // leaving I unmodified.
    fn ld_vx_i(&mut self, bus: &DataBus, x: u8) -> (r: Result<(), Fault>)
        requires
            old(self).wf(),
            bus.wf(),
            x < 16,
        ensures
            final(self).wf(),
            (r is Err) == !(old(self)@.i + x < 4096),
            r is Err ==> final(self)@ == old(self)@ && r == Err::<(), Fault>(Fault::OutOfBounds),
            r is Ok ==> final(self)@ == (CpuView {
                reg: Seq::new(16, |j: int|
                    if 0 <= j <= x { bus@.mem[old(self)@.i + j] } else { old(self)@.reg[j] }),
                cost: (x * 64 + 64) as u64,
                ..old(self)@
            }),
    {
        if !((self.i as usize) + (x as usize) < 4096) {
            return Err(Fault::OutOfBounds);
        }
        let base = self.i as usize;
        let mut k: usize = 0;
        while k <= x as usize
            invariant
                self.wf(),
                bus.wf(),
                base == self@.i as int,
                self@ == (CpuView {
                    reg: Seq::new(16, |j: int|
                        if 0 <= j < k { bus@.mem[base + j] } else { old(self)@.reg[j] }),
                    ..old(self)@
                }),
                base + x < 4096,
                x < 16,
                k <= x + 1,
            decreases x + 1 - k,
        {
            self.reg[k] = bus.ram.read_byte(base + k);
            proof {
                assert(self@.reg =~= Seq::new(16, |j: int|
                    if 0 <= j < k + 1 { bus@.mem[base + j] } else { old(self)@.reg[j] }));
            }
            k = k + 1;
        }
        self.instr_exec_time(x as u16 * 64 + 64);
        proof {
            assert(self@.reg =~= Seq::new(16, |j: int|
                if 0 <= j <= x { bus@.mem[old(self)@.i + j] } else { old(self)@.reg[j] }));
        }
        Ok(())
    }
}

} // verus!
