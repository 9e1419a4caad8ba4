//! The whole machine: execution core plus data bus, with the cycle operation
//! that paces instruction execution against a host-supplied clock and
//! decrements the two timers at 60 Hz.
//!
//! The host drives the machine by calling [`Chip8::exec_cycle`] as often as
//! it likes, passing a monotone timestamp in microseconds; the machine
//! decides internally whether an instruction is due and whether the timers
//! tick, as the spec functions [`cycle_model`] and [`cycle_fault`] say.

use crate::bus;
use crate::bus::BusView;
use crate::cpu;
use crate::cpu::{bus_step, cpu_step, step_fault, CpuView, Fault};
use vstd::prelude::*;

verus! {

/// The 60 Hz timer period, in microseconds: a tick happens once more than
/// this much simulated time has passed since the previous tick.
pub const TIMER_PERIOD_MICROS: u64 = 16666;

#[verifier::ext_equal]
pub ghost struct Chip8View {
    pub cpu: cpu::CpuView,
    pub bus: bus::BusView,
    pub timer_last: u64,
}

pub struct Chip8 {
    pub cpu: cpu::Cpu,
    pub bus: bus::DataBus,
    /// Timestamp in microseconds of the most recent 60 Hz timer tick.
    pub delay_timer: u64,
}

impl View for Chip8 {
    type V = Chip8View;

    open spec fn view(&self) -> Chip8View {
        Chip8View { cpu: self.cpu@, bus: self.bus@, timer_last: self.delay_timer }
    }
}

/// The big-endian 16-bit instruction word at the program counter.
pub open spec fn fetched_word(m: Chip8View) -> u16 {
    (m.bus.mem[m.cpu.pc as int] * 256 + m.bus.mem[m.cpu.pc as int + 1]) as u16
}

/// Whether a fetch at the program counter would run off the 4096-byte memory.
pub open spec fn fetch_fault(m: Chip8View) -> bool {
    m.cpu.pc + 1 >= 4096
}

/// Whether a cycle at time `now` executes an instruction: the core is not
/// waiting for a key and more simulated time has passed since the last
/// instruction than that instruction's recorded cost.
pub open spec fn instr_due(m: Chip8View, now: u64) -> bool {
    !m.cpu.wait && now > m.cpu.last_micros && now - m.cpu.last_micros > m.cpu.cost
}

/// On which machine states a cycle at time `now` is an unrecoverable fault.
pub open spec fn cycle_fault(m: Chip8View, now: u64) -> Option<Fault> {
    if instr_due(m, now) {
        if fetch_fault(m) {
            Some(Fault::OutOfBounds)
        } else {
            step_fault(m.cpu, fetched_word(m))
        }
    } else {
        None
    }
}

/// A timer value one tick later: decremented toward zero, never below it.
pub open spec fn dec1(v: u8) -> u8 {
    if v > 0 {
        (v - 1) as u8
    } else {
        0u8
    }
}

/// The instruction half of a cycle: if an instruction is due, the machine
/// steps by it and the pacing clock is reset to `now`; otherwise nothing
/// happens. `rb` is the byte the random generator handed back.
pub open spec fn instr_part(m: Chip8View, now: u64, rb: u8) -> Chip8View {
    if instr_due(m, now) {
        let ins = fetched_word(m);
        Chip8View {
            cpu: CpuView { last_micros: now, ..cpu_step(m.cpu, m.bus, ins, rb) },
            bus: bus_step(m.cpu, m.bus, ins),
            ..m
        }
    } else {
        m
    }
}

/// The timer half of a cycle: independently of instruction execution, once
/// more than a sixtieth of a second of simulated time has passed since the
/// last tick, both timers decrement by exactly one (never below zero) and
/// the timer clock is reset to `now`.
pub open spec fn timer_tick(m: Chip8View, now: u64) -> Chip8View {
    if now > m.timer_last && now - m.timer_last > TIMER_PERIOD_MICROS {
        Chip8View {
            cpu: CpuView { dt: dec1(m.cpu.dt), st: dec1(m.cpu.st), ..m.cpu },
            timer_last: now,
            ..m
        }
    } else {
        m
    }
}

/// One whole cycle at time `now`: the instruction half, then the timer half.
pub open spec fn cycle_model(m: Chip8View, now: u64, rb: u8) -> Chip8View {
    timer_tick(instr_part(m, now, rb), now)
}

/// Whether any of the 16 keys is pressed.
pub open spec fn any_pressed(keys: Seq<bool>) -> bool {
    exists|k: int| 0 <= k < 16 && keys[k]
}

/// The smallest pressed key index at or after `k`; 16 if none is pressed.
pub open spec fn first_pressed_from(keys: Seq<bool>, k: int) -> int
    decreases 16 - k,
{
    if k < 0 || k >= 16 {
        16
    } else if keys[k] {
        k
    } else {
        first_pressed_from(keys, k + 1)
    }
}

/// The smallest pressed key index; 16 if none is pressed.
pub open spec fn first_pressed(keys: Seq<bool>) -> int {
    first_pressed_from(keys, 0)
}

/// The timer half of a cycle decrements each timer by exactly one when
/// more than a sixtieth of a second of simulated time has elapsed since the
/// last tick — never below zero — and leaves both untouched otherwise,
/// independently of how many instructions executed in the interval.
pub proof fn lemma_timer_tick_exact(m: Chip8View, now: u64)
    ensures
        now > m.timer_last && now - m.timer_last > TIMER_PERIOD_MICROS ==> ({
            let t = timer_tick(m, now);
            (m.cpu.dt > 0 ==> t.cpu.dt == m.cpu.dt - 1) && (m.cpu.dt == 0 ==> t.cpu.dt == 0) && (
            m.cpu.st > 0 ==> t.cpu.st == m.cpu.st - 1) && (m.cpu.st == 0 ==> t.cpu.st == 0)
                && t.timer_last == now && t.cpu.pc == m.cpu.pc && t.cpu.reg == m.cpu.reg
                && t.bus == m.bus
        }),
        !(now > m.timer_last && now - m.timer_last > TIMER_PERIOD_MICROS) ==> timer_tick(m, now)
            == m,
{
}

/// While the core waits for a key, a cycle fetches and executes nothing:
/// the program counter, the registers and the whole bus stay exactly as
/// they were, the wait flag stays raised, no fault can arise, and only the
/// timers may tick.
pub proof fn lemma_wait_halts(m: Chip8View, now: u64, rb: u8)
    requires
        m.cpu.wait,
    ensures
        cycle_fault(m, now) is None,
        cycle_model(m, now, rb).cpu.pc == m.cpu.pc,
        cycle_model(m, now, rb).cpu.reg == m.cpu.reg,
        cycle_model(m, now, rb).cpu.wait,
        cycle_model(m, now, rb).bus == m.bus,
{
}

proof fn lemma_word_shift(b1: u8, b2: u8)
    by (bit_vector)
    ensures
        ((b1 as u16) << 8u16) | (b2 as u16) == b1 as u16 * 256 + b2 as u16,
{
}

impl Chip8 {
    pub open spec fn wf(self) -> bool {
        self.cpu.wf() && self.bus.wf()
    }

    pub fn new() -> (r: Chip8)
        ensures
            r.wf(),
            r@.cpu.pc == cpu::START_ADDRESS,
            r@.cpu.stack.len() == 0,
            forall|k: int| 0 <= k < 16 ==> r@.cpu.reg[k] == 0u8,
            r@.cpu.dt == 0u8,
            r@.cpu.st == 0u8,
            r@.cpu.i == 0u16,
            r@.cpu.cost == 0u64,
            r@.cpu.last_micros == 0u64,
            !r@.cpu.wait,
            forall|a: int| 0 <= a < 4096 ==> r@.bus.mem[a] == 0u8,
            forall|p: int| 0 <= p < 2048 ==> !r@.bus.fb[p],
            forall|k: int| 0 <= k < 16 ==> !r@.bus.keys[k],
            r@.timer_last == 0u64,
    {
        Chip8 { cpu: cpu::Cpu::new(), bus: bus::DataBus::new(), delay_timer: 0 }
    }

    /// Read the two bytes at the program counter and join them big-endian;
    /// a counter at or past the end of memory is a fatal fault.
    pub fn fetch_instruction(&self) -> (r: Result<u16, Fault>)
        requires
            self.wf(),
        ensures
            (r is Err) == fetch_fault(self@),
            r is Err ==> r == Err::<u16, Fault>(Fault::OutOfBounds),
            r is Ok ==> r == Ok::<u16, Fault>(fetched_word(self@)),
    {
        if (self.cpu.pc as usize) + 1 >= 4096 {
            return Err(Fault::OutOfBounds);
        }
        let byte1: u8 = self.bus.ram.read_byte(self.cpu.pc as usize);
        let byte2: u8 = self.bus.ram.read_byte(self.cpu.pc as usize + 1);
        proof {
            lemma_word_shift(byte1, byte2);
        }
        Ok((byte1 as u16) << 8u16 | byte2 as u16)
    }

    /// Run one cycle at time `now` (microseconds, monotone): execute at most
    /// one instruction if one is due, then give the 60 Hz timers their
    /// chance to tick. On a fault the machine is left exactly as it was.
    pub fn exec_cycle(&mut self, now: u64) -> (r: Result<(), Fault>)
        requires
            old(self).wf(),
        ensures
            final(self).wf(),
            (r is Err) == (cycle_fault(old(self)@, now) is Some),
            r is Err ==> final(self)@ == old(self)@ && cycle_fault(old(self)@, now) == Some(r->Err_0),
            r is Ok ==> exists|rb: u8|
                rb < 255 && final(self)@ == #[trigger] cycle_model(old(self)@, now, rb),
    {
        if !self.cpu.wait_for_input && now > self.cpu.instr_timer && now - self.cpu.instr_timer
            > self.cpu.instr_time {
            let instruction = self.fetch_instruction()?;
            match self.cpu.exec_instruction(&mut self.bus, instruction) {
                Ok(_) => {},
                Err(f) => {
                    return Err(f);
                },
            }
            self.cpu.instr_timer = now;
            proof {
                let rb = choose|rb: u8|
                    rb < 255 && self.cpu@ == (CpuView {
                        last_micros: now,
                        ..#[trigger] cpu_step(old(self)@.cpu, old(self)@.bus, instruction, rb)
                    });
                assert(self@ =~= instr_part(old(self)@, now, rb));
            }
        }
        self.dec_dt_st(now);
        proof {
            if instr_due(old(self)@, now) {
                let rb = choose|rb: u8|
                    rb < 255 && self@ == #[trigger] timer_tick(instr_part(old(self)@, now, rb), now);
                assert(self@ =~= cycle_model(old(self)@, now, rb));
            } else {
                assert(self@ =~= cycle_model(old(self)@, now, 0u8));
            }
        }
        Ok(())
    }

    /// Decrement the delay and sound timers at 60 Hz of simulated time,
    /// independently of how many instructions executed in the interval.
    fn dec_dt_st(&mut self, now: u64)
        ensures
            final(self)@ == timer_tick(old(self)@, now),
    {
        if now > self.delay_timer && now - self.delay_timer > TIMER_PERIOD_MICROS {
            if self.cpu.dt > 0 {
                self.cpu.dt = self.cpu.dt - 1;
            }
            if self.cpu.st > 0 {
                self.cpu.st = self.cpu.st - 1;
            }
            self.delay_timer = now;
        }
        proof {
            assert(self@ =~= timer_tick(old(self)@, now));
        }
    }

    /// Host interface for the wait-for-key handshake: while the core is
    /// waiting and some key is pressed, write the smallest pressed key index
    /// into the pending register, clear the wait flag, advance the program
    /// counter past the wait instruction and reset the pacing clock so the
    /// wait is not charged as instruction latency. Otherwise do nothing.
    pub fn resolve_key_wait(&mut self, now: u64)
        requires
            old(self).wf(),
        ensures
            final(self).wf(),
            old(self)@.cpu.wait && any_pressed(old(self)@.bus.keys) ==> final(self)@ == (Chip8View {
                cpu: CpuView {
                    reg: old(self)@.cpu.reg.update(
                        old(self)@.bus.key_reg as int,
                        first_pressed(old(self)@.bus.keys) as u8,
                    ),
                    pc: cpu::pc_wrap(old(self)@.cpu.pc, 2),
                    wait: false,
                    last_micros: now,
                    ..old(self)@.cpu
                },
                ..old(self)@
            }),
            !(old(self)@.cpu.wait && any_pressed(old(self)@.bus.keys)) ==> final(self)@ == old(self)@,
    {
        if !self.cpu.wait_for_input {
            return ;
        }
        let mut k: usize = 0;
        while k < 16
            invariant
                self@ == old(self)@,
                self.wf(),
                old(self)@.cpu.wait,
                k <= 16,
                forall|j: int| 0 <= j < k ==> !self@.bus.keys[j],
                first_pressed(self@.bus.keys) == first_pressed_from(self@.bus.keys, k as int),
            decreases 16 - k,
        {
            if self.bus.keyboard.key_pressed(k) {
                proof {
                    assert(first_pressed(self@.bus.keys) == k as int);
                    assert(any_pressed(self@.bus.keys));
                }
                let target = self.bus.keyboard.register as usize;
                self.cpu.reg[target] = k as u8;
                self.cpu.wait_for_input = false;
                self.cpu.pc = self.cpu.pc.wrapping_add(2);
                self.cpu.instr_timer = now;
                proof {
                    assert(self@ =~= (Chip8View {
                        cpu: CpuView {
                            reg: old(self)@.cpu.reg.update(
                                old(self)@.bus.key_reg as int,
                                first_pressed(old(self)@.bus.keys) as u8,
                            ),
                            pc: cpu::pc_wrap(old(self)@.cpu.pc, 2),
                            wait: false,
                            last_micros: now,
                            ..old(self)@.cpu
                        },
                        ..old(self)@
                    }));
                }
                return ;
            }
            k = k + 1;
        }
        proof {
            if any_pressed(self@.bus.keys) {
                let j = choose|j: int| 0 <= j < 16 && self@.bus.keys[j];
                assert(false);
            }
        }
    }

    /// Copy a byte image verbatim into memory starting at `offset`; the
    /// loader uses this for both the font table and the program image.
    pub fn load_mem(&mut self, rom: &Vec<u8>, offset: usize)
        requires
            old(self).wf(),
            offset + rom@.len() <= 4096,
        ensures
            final(self).wf(),
            final(self)@ == (Chip8View {
                bus: BusView {
                    mem: Seq::new(old(self)@.bus.mem.len(), |p: int|
                        if offset <= p < offset + rom@.len() { rom@[p - offset] } else { old(self)@.bus.mem[p] }),
                    ..old(self)@.bus
                },
                ..old(self)@
            }),
    {
        let mut k: usize = 0;
        while k < rom.len()
            invariant
                self.wf(),
                offset + rom@.len() <= 4096,
                k <= rom@.len(),
                self@ == (Chip8View {
                    bus: BusView {
                        mem: Seq::new(old(self)@.bus.mem.len(), |p: int|
                            if offset <= p < offset + k { rom@[p - offset] } else { old(self)@.bus.mem[p] }),
                        ..old(self)@.bus
                    },
                    ..old(self)@
                }),
            decreases rom@.len() - k,
        {
            self.bus.ram.write_byte(offset + k, rom[k]);
            proof {
                assert(self@.bus.mem =~= Seq::new(old(self)@.bus.mem.len(), |p: int|
                    if offset <= p < offset + k + 1 { rom@[p - offset] } else { old(self)@.bus.mem[p] }));
                assert(self@ =~= (Chip8View {
                    bus: BusView {
                        mem: Seq::new(old(self)@.bus.mem.len(), |p: int|
                            if offset <= p < offset + k + 1 { rom@[p - offset] } else { old(self)@.bus.mem[p] }),
                        ..old(self)@.bus
                    },
                    ..old(self)@
                }));
            }
            k = k + 1;
        }
        proof {
            assert(self@.bus.mem =~= Seq::new(old(self)@.bus.mem.len(), |p: int|
                if offset <= p < offset + rom@.len() { rom@[p - offset] } else { old(self)@.bus.mem[p] }));
            assert(self@ =~= (Chip8View {
                bus: BusView {
                    mem: Seq::new(old(self)@.bus.mem.len(), |p: int|
                        if offset <= p < offset + rom@.len() { rom@[p - offset] } else { old(self)@.bus.mem[p] }),
                    ..old(self)@.bus
                },
                ..old(self)@
            }));
        }
    }
}

} // verus!
