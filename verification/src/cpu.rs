//! The CPU: fetch, decode and execute over the CHIP-8 instruction set.

use vstd::prelude::*;

use crate::graphics::Graphics;
use crate::graphics::spec_draw;
use crate::input::Input;
use crate::interconnect::Interconnect;
use crate::memory::spec_word;

verus! {

/// A fatal fault: an access outside the fixed bounds of memory, stack or
/// program counter. It indicates a malformed program and ends interpretation.
#[derive(Clone, Copy, PartialEq, Eq, Structural, Debug)]
pub enum Fault {
    /// A memory, stack or program-counter access outside its fixed bounds.
    OutOfBounds,
}

/// The abstract state of the machine: the registers together with the
/// contents of memory and of the peripherals.
#[verifier::ext_equal]
pub ghost struct CpuState {
    /// Program counter.
    pub pc: u16,
    /// Call stack.
    pub stack: Seq<u16>,
    /// Stack pointer.
    pub sp: u8,
    /// General purpose registers.
    pub v: Seq<u8>,
    /// Address register.
    pub i: u16,
    /// Delay timer.
    pub dt: u8,
    /// Memory contents.
    pub mem: Seq<u8>,
    /// Display contents.
    pub screen: Seq<bool>,
    /// Key states.
    pub keys: Seq<bool>,
}

/// The fixed sizes of the machine: sixteen stack slots, sixteen registers,
/// 4096 bytes of memory, 2048 display cells, sixteen keys.
pub open spec fn spec_wf(s: CpuState) -> bool {
    &&& s.stack.len() == 16
    &&& s.v.len() == 16
    &&& s.mem.len() == 4096
    &&& s.screen.len() == 2048
    &&& s.keys.len() == 16
}

/// First nibble of an opcode.
pub open spec fn nib1(op: u16) -> u16 {
    (op & 0xF000) >> 12
}

/// Second nibble of an opcode.
pub open spec fn nib2(op: u16) -> u16 {
    (op & 0x0F00) >> 8
}

/// Third nibble of an opcode.
pub open spec fn nib3(op: u16) -> u16 {
    (op & 0x00F0) >> 4
}

/// Fourth nibble of an opcode.
pub open spec fn nib4(op: u16) -> u16 {
    op & 0x000F
}

/// Index of the register selected by the second nibble.
pub open spec fn op_x(op: u16) -> int {
    nib2(op) as int
}

/// Index of the register selected by the third nibble.
pub open spec fn op_y(op: u16) -> int {
    nib3(op) as int
}

/// The 12-bit address operand.
pub open spec fn op_nnn(op: u16) -> u16 {
    op & 0x0FFF
}

/// The 8-bit immediate operand.
pub open spec fn op_kk(op: u16) -> u8 {
    (op & 0x00FF) as u8
}

/// The 4-bit count operand.
pub open spec fn op_n(op: u16) -> u8 {
    (op & 0x000F) as u8
}

/// The four nibbles and the derived operands stay within their ranges.
proof fn lemma_decode_bounds(op: u16)
    ensures
        nib1(op) < 16,
        nib2(op) < 16,
        nib3(op) < 16,
        nib4(op) < 16,
        op_nnn(op) < 0x1000,
        op_n(op) < 16,
{
    assert((op & 0xF000) >> 12 < 16) by (bit_vector);
    assert((op & 0x0F00) >> 8 < 16) by (bit_vector);
    assert((op & 0x00F0) >> 4 < 16) by (bit_vector);
    assert(op & 0x000F < 16) by (bit_vector);
    assert(op & 0x0FFF < 0x1000) by (bit_vector);
}

/// Whether the opcode draws a random byte (`Cxkk`).
pub open spec fn spec_is_rnd(op: u16) -> bool {
    nib1(op) == 0xC
}

/// Whether the opcode suspends until a key press (`Fx0A`).
pub open spec fn spec_is_wait_key(op: u16) -> bool {
    nib1(op) == 0xF && nib3(op) == 0x0 && nib4(op) == 0xA
}

/// Whether the opcode's effect is a function of the machine state alone.
pub open spec fn spec_deterministic(op: u16) -> bool {
    !spec_is_rnd(op) && !spec_is_wait_key(op)
}

/// One delay-timer tick: decrement toward zero, saturating.
pub open spec fn spec_tick(s: CpuState) -> CpuState {
    if s.dt > 0 {
        CpuState { dt: (s.dt - 1) as u8, ..s }
    } else {
        s
    }
}

/// The conditions under which executing `op` in state `s` stays inside every
/// fixed bound; their violation is an `OutOfBounds` fault.
pub open spec fn spec_no_fault(s: CpuState, op: u16) -> bool {
    let x = op_x(op);
    let vx = s.v[x];
    let vy = s.v[op_y(op)];
    let kk = op_kk(op);
    let n = op_n(op);
    &&& s.pc + 2 <= 0xFFFF
    &&& (nib1(op) == 0x0 && nib2(op) == 0x0 && nib3(op) == 0xE && nib4(op) == 0xE ==> 1 <= s.sp
        <= 16)
    &&& (nib1(op) == 0x2 ==> s.sp < 16)
    &&& (nib1(op) == 0x3 && vx == kk ==> s.pc + 4 <= 0xFFFF)
    &&& (nib1(op) == 0x4 && vx != kk ==> s.pc + 4 <= 0xFFFF)
    &&& (nib1(op) == 0x5 && nib4(op) == 0x0 && vx == vy ==> s.pc + 4 <= 0xFFFF)
    &&& (nib1(op) == 0x9 && nib4(op) == 0x0 && vx != vy ==> s.pc + 4 <= 0xFFFF)
    &&& (nib1(op) == 0xD ==> s.i + n <= 4096)
    &&& (nib1(op) == 0xE && (nib3(op) == 0x9 && nib4(op) == 0xE || nib3(op) == 0xA && nib4(op)
        == 0x1) ==> vx < 16 && s.pc + 4 <= 0xFFFF)
    &&& (nib1(op) == 0xF && nib3(op) == 0x1 && nib4(op) == 0xE ==> s.i + vx <= 0xFFFF)
    &&& (nib1(op) == 0xF && nib3(op) == 0x3 && nib4(op) == 0x3 ==> s.i + 3 <= 4096)
    &&& (nib1(op) == 0xF && (nib3(op) == 0x5 || nib3(op) == 0x6) && nib4(op) == 0x5 ==> s.i + x
        + 1 <= 4096)
}

/// The effect of one opcode on the machine state, for every opcode whose
/// effect is a function of the state alone; the opcode table of the machine.
pub open spec fn spec_step(s: CpuState, op: u16) -> CpuState {
    let x = op_x(op);
    let y = op_y(op);
    let vx = s.v[x];
    let vy = s.v[y];
    let nnn = op_nnn(op);
    let kk = op_kk(op);
    let n = op_n(op);
    let pc2 = (s.pc + 2) as u16;
    let s2 = CpuState { pc: pc2, ..s };
    if nib1(op) == 0x0 && nib2(op) == 0x0 && nib3(op) == 0xE && nib4(op) == 0x0 {
        // CLS
        CpuState { screen: Seq::new(2048, |c: int| false), ..s2 }
    } else if nib1(op) == 0x0 && nib2(op) == 0x0 && nib3(op) == 0xE && nib4(op) == 0xE {
        // RET
        CpuState { sp: (s.sp - 1) as u8, pc: s.stack[s.sp - 1], ..s2 }
    } else if nib1(op) == 0x1 {
        // JP
        CpuState { pc: nnn, ..s2 }
    } else if nib1(op) == 0x2 {
        // CALL
        CpuState { stack: s.stack.update(s.sp as int, pc2), sp: (s.sp + 1) as u8, pc: nnn, ..s2 }
    } else if nib1(op) == 0x3 {
        // SE Vx KK
        CpuState {
            pc: if vx == kk {
                (pc2 + 2) as u16
            } else {
                pc2
            },
            ..s2
        }
    } else if nib1(op) == 0x4 {
        // SNE Vx KK
        CpuState {
            pc: if vx != kk {
                (pc2 + 2) as u16
            } else {
                pc2
            },
            ..s2
        }
    } else if nib1(op) == 0x5 && nib4(op) == 0x0 {
        // SE Vx Vy
        CpuState {
            pc: if vx == vy {
                (pc2 + 2) as u16
            } else {
                pc2
            },
            ..s2
        }
    } else if nib1(op) == 0x6 {
        // LD Vx
        CpuState { v: s.v.update(x, kk), ..s2 }
    } else if nib1(op) == 0x7 {
        // ADD Vx, byte
        CpuState { v: s.v.update(x, vstd::wrapping::u8_specs::wrapping_add(vx, kk)), ..s2 }
    } else if nib1(op) == 0x8 && nib4(op) == 0x0 {
        // LD Vx, Vy
        CpuState { v: s.v.update(x, vy), ..s2 }
    } else if nib1(op) == 0x8 && nib4(op) == 0x1 {
        // OR Vx, Vy
        CpuState { v: s.v.update(x, vx | vy), ..s2 }
    } else if nib1(op) == 0x8 && nib4(op) == 0x2 {
        // AND Vx, Vy
        CpuState { v: s.v.update(x, vx & vy), ..s2 }
    } else if nib1(op) == 0x8 && nib4(op) == 0x3 {
        // XOR Vx, Vy
        CpuState { v: s.v.update(x, vx ^ vy), ..s2 }
    } else if nib1(op) == 0x8 && nib4(op) == 0x4 {
        // ADD Vx, Vy: the 16-bit sum, with the carry in VF
        let flag: u8 = if vx + vy > 0xFF {
            1
        } else {
            0
        };
        let low: u8 = ((vx + vy) % 0x100) as u8;
        CpuState { v: s.v.update(0xF, flag).update(x, low), ..s2 }
    } else if nib1(op) == 0x8 && nib4(op) == 0x5 {
        // SUB Vx, Vy: two's-complement subtraction, VF set when the signed
        // result is negative
        let res = vstd::wrapping::u8_specs::wrapping_sub(vx, vy);
        let flag: u8 = if res >= 0x80 {
            1
        } else {
            0
        };
        CpuState { v: s.v.update(x, res).update(0xF, flag), ..s2 }
    } else if nib1(op) == 0x8 && nib4(op) == 0x6 {
        // SHR Vx
        let va = s.v.update(0xF, vx & 0x1);
        CpuState { v: va.update(x, va[x] >> 1), ..s2 }
    } else if nib1(op) == 0x8 && nib4(op) == 0x7 {
        // SUBN Vx, Vy: the same subtraction with the operands swapped
        let res = vstd::wrapping::u8_specs::wrapping_sub(vy, vx);
        let flag: u8 = if res >= 0x80 {
            1
        } else {
            0
        };
        CpuState { v: s.v.update(x, res).update(0xF, flag), ..s2 }
    } else if nib1(op) == 0x8 && nib4(op) == 0xE {
        // SHL Vx: VF takes the raw masked high bit, as the machine defines it
        let va = s.v.update(0xF, vx & 0x80);
        CpuState { v: va.update(x, va[x] << 1), ..s2 }
    } else if nib1(op) == 0x9 && nib4(op) == 0x0 {
        // SNE Vx Vy
        CpuState {
            pc: if vx != vy {
                (pc2 + 2) as u16
            } else {
                pc2
            },
            ..s2
        }
    } else if nib1(op) == 0xA {
        // LD I
        CpuState { i: nnn, ..s2 }
    } else if nib1(op) == 0xB {
        // JP V0
        CpuState { pc: (nnn + s.v[0]) as u16, ..s2 }
    } else if nib1(op) == 0xD {
        // DRW
        let sprite = s.mem.subrange(s.i as int, s.i + n);
        let d = spec_draw(s.screen, vx as int, vy as int, sprite);
        CpuState {
            screen: d.0,
            v: s.v.update(
                0xF,
                if d.1 {
                    1u8
                } else {
                    0u8
                },
            ),
            ..s2
        }
    } else if nib1(op) == 0xE && nib3(op) == 0x9 && nib4(op) == 0xE {
        // SKP Vx
        CpuState {
            pc: if s.keys[vx as int] {
                (pc2 + 2) as u16
            } else {
                pc2
            },
            ..s2
        }
    } else if nib1(op) == 0xE && nib3(op) == 0xA && nib4(op) == 0x1 {
        // SKNP Vx
        CpuState {
            pc: if s.keys[vx as int] {
                pc2
            } else {
                (pc2 + 2) as u16
            },
            ..s2
        }
    } else if nib1(op) == 0xF && nib3(op) == 0x0 && nib4(op) == 0x7 {
        // LD Vx, DT
        CpuState { v: s.v.update(x, s.dt), ..s2 }
    } else if nib1(op) == 0xF && nib3(op) == 0x1 && nib4(op) == 0x5 {
        // LD DT, Vx
        CpuState { dt: vx, ..s2 }
    } else if nib1(op) == 0xF && nib3(op) == 0x1 && nib4(op) == 0xE {
        // ADD I, Vx
        CpuState { i: (s.i + vx) as u16, ..s2 }
    } else if nib1(op) == 0xF && nib3(op) == 0x2 && nib4(op) == 0x9 {
        // LD F, Vx: the address of the built-in glyph for Vx
        CpuState { i: (vx * 5) as u16, ..s2 }
    } else if nib1(op) == 0xF && nib3(op) == 0x3 && nib4(op) == 0x3 {
        // LD B, Vx: the decimal digits of Vx
        CpuState {
            mem: s.mem.update(s.i as int, vx / 100).update(s.i + 1, (vx / 10) % 10).update(
                s.i + 2,
                (vx % 100) % 10,
            ),
            ..s2
        }
    } else if nib1(op) == 0xF && nib3(op) == 0x5 && nib4(op) == 0x5 {
        // LD [I], Vx: copy V0..Vx into memory at I
        CpuState {
            mem: Seq::new(
                4096,
                |a: int|
                    if s.i <= a < s.i + x + 1 {
                        s.v[a - s.i]
                    } else {
                        s.mem[a]
                    },
            ),
            ..s2
        }
    } else if nib1(op) == 0xF && nib3(op) == 0x6 && nib4(op) == 0x5 {
        // LD Vx, [I]: copy memory at I into V0..Vx
        CpuState {
            v: Seq::new(
                16,
                |r: int|
                    if 0 <= r < x + 1 {
                        s.mem[s.i + r]
                    } else {
                        s.v[r]
                    },
            ),
            ..s2
        }
    } else {
        // an unrecognized opcode is tolerated as a no-op
        s2
    }
}

/// What holds after a `Cxkk` opcode, whatever byte was drawn: `Vx` holds a
/// byte masked with `kk`, `pc` has advanced, and nothing else changed.
pub open spec fn spec_rnd_step(s: CpuState, f: CpuState, op: u16) -> bool {
    &&& f == CpuState { pc: (s.pc + 2) as u16, v: s.v.update(op_x(op), f.v[op_x(op)]), ..s }
    &&& f.v[op_x(op)] & op_kk(op) == f.v[op_x(op)]
}

/// What holds after an `Fx0A` opcode, whatever key arrived and however the
/// event source rewrote the key state meanwhile: `Vx` holds a key, `pc` has
/// advanced, and the rest of the machine is untouched.
pub open spec fn spec_wait_key_step(s: CpuState, f: CpuState, op: u16) -> bool {
    &&& f.v[op_x(op)] < 16
    &&& f.v == s.v.update(op_x(op), f.v[op_x(op)])
    &&& f.pc == (s.pc + 2) as u16
    &&& f.stack == s.stack
    &&& f.sp == s.sp
    &&& f.i == s.i
    &&& f.dt == s.dt
    &&& f.mem == s.mem
    &&& f.screen == s.screen
    &&& f.keys.len() == 16
}

/// Relies on rand::random: one uniformly drawn byte; nothing is assumed of
/// its value.
#[verifier::external_body]
fn random_byte() -> u8 {
    rand::random::<u8>()
}

/// A CHIP-8 CPU.
pub struct Cpu<T, U> where T: Input, U: Graphics {
    /// Interconnect allowing access to memory and peripherals.
    pub interconnect: Interconnect<T, U>,
    /// Program counter.
    pub pc: u16,
    /// Function call stack.
    pub stack: [u16; 16],
    /// Stack pointer.
    pub sp: u8,
    /// General purpose registers.
    pub v: [u8; 16],
    /// Address register.
    pub i: u16,
    /// Delay timer.
    pub dt: u8,
}

impl<T, U> Cpu<T, U> where T: Input, U: Graphics {
    /// The abstract state of the whole machine.
    pub open spec fn state(&self) -> CpuState {
        CpuState {
            pc: self.pc,
            stack: self.stack@,
            sp: self.sp,
            v: self.v@,
            i: self.i,
            dt: self.dt,
            mem: self.interconnect.memory@,
            screen: self.interconnect.graphics.pixels(),
            keys: self.interconnect.input.spec_keys(),
        }
    }

    /// The machine's fixed-size invariants.
    pub open spec fn wf(&self) -> bool {
        spec_wf(self.state())
    }

    /// Build a CPU around an interconnect, with the program counter at the
    /// reserved program offset and every register cleared.
    pub fn new(interconnect: Interconnect<T, U>) -> (cpu: Cpu<T, U>)
        ensures
            cpu.interconnect == interconnect,
            cpu.pc == 0x200,
            cpu.sp == 0,
            cpu.i == 0,
            cpu.dt == 0,
            forall|j: int| 0 <= j < 16 ==> cpu.stack@[j] == 0,
            forall|j: int| 0 <= j < 16 ==> cpu.v@[j] == 0,
    {
        Cpu { interconnect, pc: 0x200, stack: [0u16;16], sp: 0, v: [0u8;16], i: 0, dt: 0 }
    }

    /// One delay-timer tick: decrement toward zero, saturating.
    fn handle_timers(&mut self)
        ensures
            final(self).state() == spec_tick(old(self).state()),
    {
        if self.dt > 0 {
            self.dt = self.dt - 1;
        }
        proof {
            assert(self.state() =~= spec_tick(old(self).state()));
        }
    }

    /// Decode an opcode, advance the program counter, and apply the opcode's
    /// effect: the machine steps as `spec_step` says, except that `Cxkk`
    /// draws a byte nobody can predict and `Fx0A` suspends for a key.
    pub fn process_opcode(&mut self, opcode: u16)
        requires
            old(self).wf(),
            spec_no_fault(old(self).state(), opcode),
        ensures
            final(self).wf(),
            spec_deterministic(opcode) ==> final(self).state() == spec_step(
                old(self).state(),
                opcode,
            ),
            spec_is_rnd(opcode) ==> spec_rnd_step(old(self).state(), final(self).state(), opcode),
            spec_is_wait_key(opcode) ==> spec_wait_key_step(
                old(self).state(),
                final(self).state(),
                opcode,
            ),
    {
        proof {
            lemma_decode_bounds(opcode);
        }
        // get potential register values and parameters
        let x = ((opcode & 0x0F00) >> 8) as usize;
        let y = ((opcode & 0x00F0) >> 4) as usize;
        let vx = self.v[x];
        let vy = self.v[y];
        let nnn = opcode & 0x0FFF;
        let kk = (opcode & 0x00FF) as u8;
        let n = (opcode & 0x000F) as u8;

        // break the opcode into nibbles
        let op_1 = (opcode & 0xF000) >> 12;
        let op_2 = (opcode & 0x0F00) >> 8;
        let op_3 = (opcode & 0x00F0) >> 4;
        let op_4 = opcode & 0x000F;

        // increment the program counter
        self.pc = self.pc + 2;

        match (op_1, op_2, op_3, op_4) {
            // CLS
            (0, 0, 0xE, 0) => {
                self.interconnect.graphics.cls();
                proof {
                    assert(self.interconnect.graphics.pixels() =~= Seq::new(2048, |c: int| false));
                    assert(self.state() =~= spec_step(old(self).state(), opcode));
                }
            },
            // RET
            (0, 0, 0xE, 0xE) => {
                self.sp = self.sp - 1;
                self.pc = self.stack[self.sp as usize];
                proof {
                    assert(self.state() =~= spec_step(old(self).state(), opcode));
                }
            },
            // JP
            (0x1, _, _, _) => {
                self.pc = nnn;
                proof {
                    assert(self.state() =~= spec_step(old(self).state(), opcode));
                }
            },
            // CALL
            (0x2, _, _, _) => {
                self.stack[self.sp as usize] = self.pc;
                self.sp = self.sp + 1;
                self.pc = nnn;
                proof {
                    assert(self.state() =~= spec_step(old(self).state(), opcode));
                }
            },
            // SE Vx KK
            (0x3, _, _, _) => {
                self.pc = self.pc + if vx == kk {
                    2
                } else {
                    0
                };
                proof {
                    assert(self.state() =~= spec_step(old(self).state(), opcode));
                }
            },
            // SNE Vx KK
            (0x4, _, _, _) => {
                self.pc = self.pc + if vx != kk {
                    2
                } else {
                    0
                };
                proof {
                    assert(self.state() =~= spec_step(old(self).state(), opcode));
                }
            },
            // SE Vx Vy
            (0x5, _, _, 0x0) => {
                self.pc = self.pc + if vx == vy {
                    2
                } else {
                    0
                };
                proof {
                    assert(self.state() =~= spec_step(old(self).state(), opcode));
                }
            },
            // LD Vx
            (0x6, _, _, _) => {
                self.v[x] = kk;
                proof {
                    assert(self.state() =~= spec_step(old(self).state(), opcode));
                }
            },
            // ADD Vx, byte
            (0x7, _, _, _) => {
                self.v[x] = vx.wrapping_add(kk);
                proof {
                    assert(self.state() =~= spec_step(old(self).state(), opcode));
                }
            },
            // LD Vx, Vy
            (0x8, _, _, 0x0) => {
                self.v[x] = self.v[y];
                proof {
                    assert(self.state() =~= spec_step(old(self).state(), opcode));
                }
            },
            // OR Vx, Vy
            (0x8, _, _, 0x1) => {
                self.v[x] = self.v[x] | self.v[y];
                proof {
                    assert(self.state() =~= spec_step(old(self).state(), opcode));
                }
            },
            // AND Vx, Vy
            (0x8, _, _, 0x2) => {
                self.v[x] = self.v[x] & self.v[y];
                proof {
                    assert(self.state() =~= spec_step(old(self).state(), opcode));
                }
            },
            // XOR Vx, Vy
            (0x8, _, _, 0x3) => {
                self.v[x] = self.v[x] ^ self.v[y];
                proof {
                    assert(self.state() =~= spec_step(old(self).state(), opcode));
                }
            },
            // ADD Vx, Vy
            (0x8, _, _, 0x4) => {
                let res = self.v[x] as u16 + self.v[y] as u16;
                self.v[0xF] = if res > 0xFF {
                    1
                } else {
                    0
                };
                self.v[x] = (res & 0xFF) as u8;
                proof {
                    assert(res & 0xFF == res % 0x100) by (bit_vector);
                    assert(self.state() =~= spec_step(old(self).state(), opcode));
                }
            },
            // SUB Vx, Vy
            (0x8, _, _, 0x5) => {
                let res = vx.wrapping_sub(vy);
                self.v[x] = res;
                self.v[0xF] = if res >= 0x80 {
                    1
                } else {
                    0
                };
                proof {
                    assert(self.state() =~= spec_step(old(self).state(), opcode));
                }
            },
            // SHR Vx
            (0x8, _, _, 0x6) => {
                self.v[0xF] = self.v[x] & 0x1;
                let cur = self.v[x];
                self.v[x] = cur >> 1;
                proof {
                    assert(self.state() =~= spec_step(old(self).state(), opcode));
                }
            },
            // SUBN Vx, Vy
            (0x8, _, _, 0x7) => {
                let res = vy.wrapping_sub(vx);
                self.v[x] = res;
                self.v[0xF] = if res >= 0x80 {
                    1
                } else {
                    0
                };
                proof {
                    assert(self.state() =~= spec_step(old(self).state(), opcode));
                }
            },
            // SHL Vx
            (0x8, _, _, 0xE) => {
                self.v[0xF] = self.v[x] & 0x80;
                let cur = self.v[x];
                self.v[x] = cur << 1;
                proof {
                    assert(self.state() =~= spec_step(old(self).state(), opcode));
                }
            },
            // SNE Vx Vy
            (0x9, _, _, 0x0) => {
                self.pc = self.pc + if vx != vy {
                    2
                } else {
                    0
                };
                proof {
                    assert(self.state() =~= spec_step(old(self).state(), opcode));
                }
            },
            // LD I
            (0xA, _, _, _) => {
                self.i = nnn;
                proof {
                    assert(self.state() =~= spec_step(old(self).state(), opcode));
                }
            },
            // JP V0
            (0xB, _, _, _) => {
                self.pc = nnn + self.v[0] as u16;
                proof {
                    assert(self.state() =~= spec_step(old(self).state(), opcode));
                }
            },
            // RND
            (0xC, _, _, _) => {
                let r = random_byte();
                self.v[x] = r & kk;
                proof {
                    assert((r & kk) & kk == (r & kk)) by (bit_vector);
                    assert(self.v@ =~= old(self).v@.update(x as int, self.v@[x as int]));
                    assert(self.state() =~= CpuState {
                        pc: (old(self).state().pc + 2) as u16,
                        v: old(self).state().v.update(op_x(opcode), self.state().v[op_x(opcode)]),
                        ..old(self).state()
                    });
                }
            },
            // DRW
            (0xD, _, _, _) => {
                let sprite = self.interconnect.memory.get_slice(self.i as usize, n);
                let collision = self.interconnect.graphics.draw(vx as usize, vy as usize, sprite);
                self.v[0xF] = if collision {
                    1
                } else {
                    0
                };
                proof {
                    assert(self.state() =~= spec_step(old(self).state(), opcode));
                }
            },
            // SKP Vx
            (0xE, _, 0x9, 0xE) => {
                self.pc = self.pc + if self.interconnect.input.is_key_down(vx) {
                    2
                } else {
                    0
                };
                proof {
                    assert(self.state() =~= spec_step(old(self).state(), opcode));
                }
            },
            // SKNP Vx
            (0xE, _, 0xA, 0x1) => {
                self.pc = self.pc + if self.interconnect.input.is_key_down(vx) {
                    0
                } else {
                    2
                };
                proof {
                    assert(self.state() =~= spec_step(old(self).state(), opcode));
                }
            },
            // LD Vx, DT
            (0xF, _, 0x0, 0x7) => {
                self.v[x] = self.dt;
                proof {
                    assert(self.state() =~= spec_step(old(self).state(), opcode));
                }
            },
            // LD Vx, K
            (0xF, _, 0x0, 0xA) => {
                let key = self.interconnect.input.wait_input();
                self.v[x] = key;
                proof {
                    assert(self.v@ =~= old(self).v@.update(x as int, self.v@[x as int]));
                }
            },
            // LD DT, Vx
            (0xF, _, 0x1, 0x5) => {
                self.dt = self.v[x];
                proof {
                    assert(self.state() =~= spec_step(old(self).state(), opcode));
                }
            },
            // ADD I, Vx
            (0xF, _, 0x1, 0xE) => {
                self.i = self.i + self.v[x] as u16;
                proof {
                    assert(self.state() =~= spec_step(old(self).state(), opcode));
                }
            },
            // LD F, Vx
            (0xF, _, 0x2, 0x9) => {
                self.i = vx as u16 * 5;
                proof {
                    assert(self.state() =~= spec_step(old(self).state(), opcode));
                }
            },
            // LD B, Vx
            (0xF, _, 0x3, 0x3) => {
                self.interconnect.memory.write(self.i as usize, vx / 100);
                self.interconnect.memory.write(self.i as usize + 1, (vx / 10) % 10);
                self.interconnect.memory.write(self.i as usize + 2, (vx % 100) % 10);
                proof {
                    assert(self.state() =~= spec_step(old(self).state(), opcode));
                }
            },
            // LD [I], Vx
            (0xF, _, 0x5, 0x5) => {
                let base = self.i as usize;
                let mut idx: usize = 0;
                while idx < x + 1
                    invariant
                        x < 16,
                        x as int == op_x(opcode),
                        base == old(self).i as usize,
                        base + x + 1 <= 4096,
                        idx <= x + 1,
                        self.pc == (old(self).state().pc + 2) as u16,
                        self.stack@ == old(self).stack@,
                        self.sp == old(self).sp,
                        self.v@ == old(self).v@,
                        self.i == old(self).i,
                        self.dt == old(self).dt,
                        self.interconnect.graphics.pixels() == old(
                            self,
                        ).interconnect.graphics.pixels(),
                        self.interconnect.input.spec_keys() == old(
                            self,
                        ).interconnect.input.spec_keys(),
                        self.interconnect.memory@.len() == 4096,
                        forall|a: int|
                            0 <= a < 4096 && !(base <= a < base + idx)
                                ==> self.interconnect.memory@[a] == old(
                                self,
                            ).interconnect.memory@[a],
                        forall|a: int|
                            base <= a < base + idx ==> self.interconnect.memory@[a] == old(
                                self,
                            ).v@[a - base],
                    decreases x + 1 - idx,
                {
                    self.interconnect.memory.write(base + idx, self.v[idx]);
                    idx = idx + 1;
                }
                proof {
                    assert(self.state() =~= spec_step(old(self).state(), opcode));
                }
            },
            // LD Vx, [I]
            (0xF, _, 0x6, 0x5) => {
                let base = self.i as usize;
                let mut idx: usize = 0;
                while idx < x + 1
                    invariant
                        x < 16,
                        x as int == op_x(opcode),
                        base == old(self).i as usize,
                        base + x + 1 <= 4096,
                        idx <= x + 1,
                        self.pc == (old(self).state().pc + 2) as u16,
                        self.stack@ == old(self).stack@,
                        self.sp == old(self).sp,
                        self.i == old(self).i,
                        self.dt == old(self).dt,
                        self.interconnect.graphics.pixels() == old(
                            self,
                        ).interconnect.graphics.pixels(),
                        self.interconnect.input.spec_keys() == old(
                            self,
                        ).interconnect.input.spec_keys(),
                        self.interconnect.memory@ == old(self).interconnect.memory@,
                        self.v@.len() == 16,
                        forall|r: int|
                            0 <= r < idx ==> self.v@[r] == old(self).interconnect.memory@[base + r],
                        forall|r: int| idx <= r < 16 ==> self.v@[r] == old(self).v@[r],
                    decreases x + 1 - idx,
                {
                    let b = self.interconnect.memory.read(base + idx);
                    self.v[idx] = b;
                    idx = idx + 1;
                }
                proof {
                    assert(self.state() =~= spec_step(old(self).state(), opcode));
                }
            },
            (_, _, _, _) => {
                proof {
                    assert(self.state() =~= spec_step(old(self).state(), opcode));
                }
            },
        }
    }

    /// Whether executing `opcode` now would break a fixed bound.
    fn check_opcode(&self, opcode: u16) -> (ok: bool)
        requires
            self.wf(),
        ensures
            ok == spec_no_fault(self.state(), opcode),
    {
        proof {
            lemma_decode_bounds(opcode);
        }
        let x = ((opcode & 0x0F00) >> 8) as usize;
        let y = ((opcode & 0x00F0) >> 4) as usize;
        let vx = self.v[x];
        let vy = self.v[y];
        let kk = (opcode & 0x00FF) as u8;
        let n = (opcode & 0x000F) as u8;
        let op_1 = (opcode & 0xF000) >> 12;
        let op_2 = (opcode & 0x0F00) >> 8;
        let op_3 = (opcode & 0x00F0) >> 4;
        let op_4 = opcode & 0x000F;
        let pc_ok = self.pc <= 0xFFFD;
        let skip_ok = self.pc <= 0xFFFB;
        pc_ok && (!(op_1 == 0 && op_2 == 0 && op_3 == 0xE && op_4 == 0xE) || (1 <= self.sp
            && self.sp <= 16)) && (!(op_1 == 0x2) || self.sp < 16) && (!(op_1 == 0x3 && vx == kk)
            || skip_ok) && (!(op_1 == 0x4 && vx != kk) || skip_ok) && (!(op_1 == 0x5 && op_4 == 0x0
            && vx == vy) || skip_ok) && (!(op_1 == 0x9 && op_4 == 0x0 && vx != vy) || skip_ok) && (
        !(op_1 == 0xD) || self.i
            as usize + (n as usize) <= 4096) && (!(op_1 == 0xE && (op_3 == 0x9 && op_4 == 0xE
            || op_3 == 0xA && op_4 == 0x1)) || (vx < 16 && skip_ok)) && (!(op_1 == 0xF && op_3
            == 0x1 && op_4 == 0xE) || self.i as u32 + vx as u32 <= 0xFFFF) && (!(op_1 == 0xF
            && op_3 == 0x3 && op_4 == 0x3) || self.i as usize + 3 <= 4096) && (!(op_1 == 0xF && (
        op_3 == 0x5 || op_3 == 0x6) && op_4 == 0x5) || self.i as usize + x + 1 <= 4096)
    }

    /// Execute a single cycle of the program: tick the delay timer, fetch
    /// the word at `pc`, and execute it.
    pub fn execute_cycle(&mut self)
        requires
            old(self).wf(),
            old(self).state().pc + 1 < 4096,
            spec_no_fault(
                spec_tick(old(self).state()),
                spec_word(old(self).state().mem, old(self).state().pc as int),
            ),
        ensures
            final(self).wf(),
            ({
                let s = spec_tick(old(self).state());
                let w = spec_word(s.mem, s.pc as int);
                &&& (spec_deterministic(w) ==> final(self).state() == spec_step(s, w))
                &&& (spec_is_rnd(w) ==> spec_rnd_step(s, final(self).state(), w))
                &&& (spec_is_wait_key(w) ==> spec_wait_key_step(s, final(self).state(), w))
            }),
    {
        self.handle_timers();
        let opcode = self.interconnect.memory.read_word(self.pc as usize);
        self.process_opcode(opcode);
    }

    /// Execute a single cycle after checking every fixed bound, surfacing a
    /// fault instead of executing when one would be broken; on a fault the
    /// machine is left untouched.
    pub fn step(&mut self) -> (r: Result<(), Fault>)
        requires
            old(self).wf(),
        ensures
            final(self).wf(),
            match r {
                Ok(()) => ({
                    let s = spec_tick(old(self).state());
                    let w = spec_word(s.mem, s.pc as int);
                    &&& !spec_cycle_fault(old(self).state())
                    &&& (spec_deterministic(w) ==> final(self).state() == spec_step(s, w))
                    &&& (spec_is_rnd(w) ==> spec_rnd_step(s, final(self).state(), w))
                    &&& (spec_is_wait_key(w) ==> spec_wait_key_step(s, final(self).state(), w))
                }),
                Err(f) => {
                    &&& f == Fault::OutOfBounds
                    &&& spec_cycle_fault(old(self).state())
                    &&& *final(self) == *old(self)
                },
            },
    {
        if !(self.pc < 4095) {
            return Err(Fault::OutOfBounds);
        }
        let opcode = self.interconnect.memory.read_word(self.pc as usize);
        if !self.check_opcode(opcode) {
            return Err(Fault::OutOfBounds);
        }
        self.handle_timers();
        self.process_opcode(opcode);
        Ok(())
    }

}

/// A cycle started in state `s` breaks a fixed bound: the program counter
/// does not point at a word inside memory, or the fetched opcode's
/// preconditions fail.
pub open spec fn spec_cycle_fault(s: CpuState) -> bool {
    ||| s.pc + 1 >= 4096
    ||| !spec_no_fault(s, spec_word(s.mem, s.pc as int))
}

/// A call followed by a return restores the flow of control: `CALL nnn`
/// pushes the already-incremented program counter onto the stack, increments
/// the stack pointer and jumps to `nnn`; the next `RET` pops that slot, so
/// the program resumes right after the call with the stack pointer back at
/// its old value.
pub proof fn lemma_call_ret(s: CpuState, op_call: u16, op_ret: u16)
    requires
        spec_wf(s),
        nib1(op_call) == 0x2,
        nib1(op_ret) == 0x0,
        nib2(op_ret) == 0x0,
        nib3(op_ret) == 0xE,
        nib4(op_ret) == 0xE,
        s.sp < 16,
        s.pc + 2 <= 0xFFFF,
    ensures
        spec_step(s, op_call).pc == op_nnn(op_call),
        spec_step(s, op_call).sp == s.sp + 1,
        spec_step(s, op_call).stack[s.sp as int] == s.pc + 2,
        spec_step(spec_step(s, op_call), op_ret).pc == s.pc + 2,
        spec_step(spec_step(s, op_call), op_ret).sp == s.sp,
{
}

/// The skip family (`3xkk`, `4xkk`, `5xy0`, `9xy0`) advances the program
/// counter by four in total when its condition holds, and by two when it
/// does not.
pub proof fn lemma_skip_family(s: CpuState, op: u16)
    requires
        spec_wf(s),
        nib1(op) == 0x3 || nib1(op) == 0x4 || (nib1(op) == 0x5 && nib4(op) == 0x0) || (nib1(op)
            == 0x9 && nib4(op) == 0x0),
        s.pc + 4 <= 0xFFFF,
    ensures
        ({
            let vx = s.v[op_x(op)];
            let vy = s.v[op_y(op)];
            let kk = op_kk(op);
            let cond = if nib1(op) == 0x3 {
                vx == kk
            } else if nib1(op) == 0x4 {
                vx != kk
            } else if nib1(op) == 0x5 {
                vx == vy
            } else {
                vx != vy
            };
            spec_step(s, op).pc == s.pc + (if cond {
                4int
            } else {
                2int
            })
        }),
{
}

/// `8xy5` on a smaller `Vx` and a larger `Vy` wraps the difference into the
/// unsigned 8-bit range and sets `VF` to 1, for gaps within the signed 8-bit
/// range; `Vx` must not itself be the flags register, which the flag write
/// overwrites.
pub proof fn lemma_sub_wraps(s: CpuState, op: u16)
    requires
        spec_wf(s),
        nib1(op) == 0x8,
        nib4(op) == 0x5,
        op_x(op) != 0xF,
        s.v[op_x(op)] < s.v[op_y(op)],
        s.v[op_y(op)] - s.v[op_x(op)] <= 128,
    ensures
        spec_step(s, op).v[op_x(op)] == s.v[op_x(op)] - s.v[op_y(op)] + 256,
        spec_step(s, op).v[0xF] == 1,
{
    lemma_decode_bounds(op);
}

/// `Fx55` then `Fx65` with the same `x` and an unchanged `I` is a round
/// trip: every register comes back to its value before the store, and the
/// store touches no memory outside `I ..= I + x`.
pub proof fn lemma_store_load_roundtrip(s: CpuState, op_store: u16, op_load: u16)
    requires
        spec_wf(s),
        nib1(op_store) == 0xF,
        nib3(op_store) == 0x5,
        nib4(op_store) == 0x5,
        nib1(op_load) == 0xF,
        nib3(op_load) == 0x6,
        nib4(op_load) == 0x5,
        nib2(op_load) == nib2(op_store),
        s.i + op_x(op_store) + 1 <= 4096,
    ensures
        spec_step(spec_step(s, op_store), op_load).v == s.v,
        forall|a: int|
            0 <= a < 4096 && !(s.i <= a <= s.i + op_x(op_store)) ==> spec_step(s, op_store).mem[a]
                == s.mem[a],
{
    lemma_decode_bounds(op_store);
    let x = op_x(op_store);
    let t = spec_step(s, op_store);
    let u = spec_step(t, op_load);
    assert forall|r: int| 0 <= r < 16 implies u.v[r] == s.v[r] by {
        if 0 <= r < x + 1 {
            assert(t.mem[s.i + r] == s.v[r]);
        }
    }
    assert(u.v =~= s.v);
}

} // verus!
