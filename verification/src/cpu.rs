//! The machine state and the fetch/decode/execute engine: memory, registers,
//! stack, timers, the execution-state machine for the blocking key wait, and
//! the semantics of every opcode.

use vstd::prelude::*;

use crate::audio::AudioIntent;
use crate::audio::BeepingState;
use crate::display::Display;
use crate::display::DisplayView;
use crate::display::draw_collision;
use crate::display::draw_rows;
use crate::display::same_presentation;
use crate::input::Input;

verus! {

/// What the engine is doing between cycles: running normally, or parked on
/// the wait-for-key instruction until a key goes down and up again.
#[derive(Clone, Copy, PartialEq, Eq, Structural, Debug)]
pub enum CpuState {
    Running,
    WaitingForKey { register: u16 },
    WaitingForRelease { register: u16, key: u8 },
}

/// An out-of-range machine access that the engine refuses instead of
/// touching memory or the stack out of bounds.
#[derive(Clone, Copy, PartialEq, Eq, Structural, Debug)]
pub enum Chip8Error {
    /// A return was executed with an empty stack.
    StackUnderflow,
    /// A call was executed with sixteen calls already outstanding.
    StackOverflow,
    /// A memory transfer would run past the last memory cell, or the
    /// program counter no longer addresses two in-range cells.
    AddressOutOfRange,
    /// A key-skip opcode asked about a key numbered above 0xF.
    InvalidKey,
}

/// Mathematical model of the whole machine.
#[verifier::ext_equal]
pub ghost struct Machine {
    /// 4096 memory cells; the font lives at 0x000, programs at 0x200.
    pub memory: Seq<u8>,
    /// The sixteen general registers V0 through VF.
    pub registers: Seq<u8>,
    /// Sixteen return-address slots.
    pub stack: Seq<u16>,
    /// Number of return addresses on the stack.
    pub sp: u8,
    pub pc: u16,
    /// The index register I.
    pub i: u16,
    /// The delay timer.
    pub dt: u8,
    /// The sound timer.
    pub st: u8,
    /// The 32 video-memory rows.
    pub vram: Seq<u64>,
    pub draw_flag: bool,
    /// The sixteen key states.
    pub keys: Seq<bool>,
    pub state: CpuState,
    pub beeping: BeepingState,
}

impl Machine {
    pub open spec fn wf(self) -> bool {
        &&& self.memory.len() == 4096
        &&& self.registers.len() == 16
        &&& self.stack.len() == 16
        &&& self.sp <= 16
        &&& self.vram.len() == 32
        &&& self.keys.len() == 16
        &&& match self.state {
            CpuState::Running => true,
            CpuState::WaitingForKey { register } => register < 16,
            CpuState::WaitingForRelease { register, key } => register < 16 && key < 16,
        }
    }
}

/// The top four bits of an instruction word: its op group.
pub open spec fn op_of(code: u16) -> u16 {
    code >> 12u16
}

/// The low twelve bits: an address operand.
pub open spec fn nnn_of(code: u16) -> u16 {
    code & 0x0fff
}

/// The low byte: an immediate operand or a sub-op selector.
pub open spec fn kk_of(code: u16) -> u8 {
    (code & 0xff) as u8
}

/// The low four bits: a sub-op selector or a sprite height.
pub open spec fn nib_of(code: u16) -> u16 {
    code & 0xf
}

/// Bits 8 through 11: the first register operand.
pub open spec fn x_of(code: u16) -> u16 {
    (code >> 8u16) & 0xf
}

/// Bits 4 through 7: the second register operand.
pub open spec fn y_of(code: u16) -> u16 {
    (code >> 4u16) & 0xf
}

pub proof fn lemma_opcode_fields(code: u16)
    by (bit_vector)
    ensures
        op_of(code) <= 0xf,
        nnn_of(code) <= 0xfff,
        nib_of(code) <= 0xf,
        x_of(code) <= 0xf,
        y_of(code) <= 0xf,
{
}

/// The instruction word at the program counter: the two bytes at
/// `[PC, PC + 1]` combined big-endian.
pub open spec fn spec_fetch(m: Machine) -> u16 {
    (m.memory[m.pc as int] * 256 + m.memory[m.pc + 1]) as u16
}

/// `memory` with `registers[0 ..= x]` copied in starting at address `i`.
pub open spec fn store_regs(memory: Seq<u8>, registers: Seq<u8>, i: int, x: int) -> Seq<u8> {
    Seq::new(4096, |j: int|
        if i <= j <= i + x {
            registers[j - i]
        } else {
            memory[j]
        })
}

/// `registers` with slots `0 ..= x` replaced by `memory[i ..= i + x]`.
pub open spec fn load_regs(registers: Seq<u8>, memory: Seq<u8>, i: int, x: int) -> Seq<u8> {
    Seq::new(16, |j: int|
        if 0 <= j <= x {
            memory[i + j]
        } else {
            registers[j]
        })
}

/// The effect of one decoded instruction word on the machine: the result
/// (success, or the refused access) and the machine afterwards. `rnd` is the
/// byte the random source handed the random opcode; every other opcode
/// ignores it. The program counter is advanced by two before dispatch, so a
/// jump, call or return overwrites it and a skip adds two more; on an error
/// the machine is left exactly as it was.
pub open spec fn spec_decode(m: Machine, code: u16, rnd: u8) -> (Result<(), Chip8Error>, Machine) {
    let pc2 = (m.pc + 2) as u16;
    let nnn = nnn_of(code);
    let kk = kk_of(code);
    let nib = nib_of(code);
    let x = x_of(code) as int;
    let vx = m.registers[x];
    let vy = m.registers[y_of(code) as int];
    let op = op_of(code);
    if op == 0x0 {
        if kk == 0xE0 {
            (Ok(()), Machine { pc: pc2, vram: Seq::new(32, |r: int| 0u64), draw_flag: true, ..m })
        } else if kk == 0xEE {
            if m.sp == 0 {
                (Err(Chip8Error::StackUnderflow), m)
            } else {
                (Ok(()), Machine { sp: (m.sp - 1) as u8, pc: m.stack[m.sp - 1], ..m })
            }
        } else {
            (Ok(()), Machine { pc: pc2, ..m })
        }
    } else if op == 0x1 {
        (Ok(()), Machine { pc: nnn, ..m })
    } else if op == 0x2 {
        if m.sp >= 16 {
            (Err(Chip8Error::StackOverflow), m)
        } else {
            (Ok(()), Machine {
                stack: m.stack.update(m.sp as int, pc2),
                sp: (m.sp + 1) as u8,
                pc: nnn,
                ..m
            })
        }
    } else if op == 0x3 {
        (Ok(()), Machine { pc: if vx == kk { (pc2 + 2) as u16 } else { pc2 }, ..m })
    } else if op == 0x4 {
        (Ok(()), Machine { pc: if vx != kk { (pc2 + 2) as u16 } else { pc2 }, ..m })
    } else if op == 0x5 {
        if nib == 0x0 {
            (Ok(()), Machine { pc: if vx == vy { (pc2 + 2) as u16 } else { pc2 }, ..m })
        } else {
            (Ok(()), Machine { pc: pc2, ..m })
        }
    } else if op == 0x6 {
        (Ok(()), Machine { pc: pc2, registers: m.registers.update(x, kk), ..m })
    } else if op == 0x7 {
        (Ok(()), Machine {
            pc: pc2,
            registers: m.registers.update(x, ((vx + kk) % 256) as u8),
            ..m
        })
    } else if op == 0x8 {
        if nib == 0x0 {
            (Ok(()), Machine { pc: pc2, registers: m.registers.update(x, vy), ..m })
        } else if nib == 0x1 {
            (Ok(()), Machine {
                pc: pc2,
                registers: m.registers.update(x, vx | vy).update(0xf, 0u8),
                ..m
            })
        } else if nib == 0x2 {
            (Ok(()), Machine {
                pc: pc2,
                registers: m.registers.update(x, vx & vy).update(0xf, 0u8),
                ..m
            })
        } else if nib == 0x3 {
            (Ok(()), Machine {
                pc: pc2,
                registers: m.registers.update(x, vx ^ vy).update(0xf, 0u8),
                ..m
            })
        } else if nib == 0x4 {
            (Ok(()), Machine {
                pc: pc2,
                registers: m.registers
                    .update(x, ((vx + vy) % 256) as u8)
                    .update(0xf, if vx + vy > 255 { 1u8 } else { 0u8 }),
                ..m
            })
        } else if nib == 0x5 {
            (Ok(()), Machine {
                pc: pc2,
                registers: m.registers
                    .update(x, ((vx - vy + 256) % 256) as u8)
                    .update(0xf, if vx >= vy { 1u8 } else { 0u8 }),
                ..m
            })
        } else if nib == 0x6 {
            (Ok(()), Machine {
                pc: pc2,
                registers: m.registers.update(x, vy / 2).update(0xf, vy % 2),
                ..m
            })
        } else if nib == 0x7 {
            (Ok(()), Machine {
                pc: pc2,
                registers: m.registers
                    .update(x, ((vy - vx + 256) % 256) as u8)
                    .update(0xf, if vy >= vx { 1u8 } else { 0u8 }),
                ..m
            })
        } else if nib == 0xE {
            (Ok(()), Machine {
                pc: pc2,
                registers: m.registers
                    .update(x, ((vy * 2) % 256) as u8)
                    .update(0xf, vy / 128),
                ..m
            })
        } else {
            (Ok(()), Machine { pc: pc2, ..m })
        }
    } else if op == 0x9 {
        if nib == 0x0 {
            (Ok(()), Machine { pc: if vx != vy { (pc2 + 2) as u16 } else { pc2 }, ..m })
        } else {
            (Ok(()), Machine { pc: pc2, ..m })
        }
    } else if op == 0xA {
        (Ok(()), Machine { pc: pc2, i: nnn, ..m })
    } else if op == 0xB {
        (Ok(()), Machine { pc: (nnn + m.registers[0]) as u16, ..m })
    } else if op == 0xC {
        (Ok(()), Machine { pc: pc2, registers: m.registers.update(x, rnd & kk), ..m })
    } else if op == 0xD {
        if m.i + nib > 4096 {
            (Err(Chip8Error::AddressOutOfRange), m)
        } else {
            let sprite = m.memory.subrange(m.i as int, m.i + nib);
            (Ok(()), Machine {
                pc: pc2,
                vram: draw_rows(m.vram, vx % 64, vy % 32, sprite),
                draw_flag: true,
                registers: m.registers.update(
                    0xf,
                    if draw_collision(m.vram, vx % 64, vy % 32, sprite) { 1u8 } else { 0u8 },
                ),
                ..m
            })
        }
    } else if op == 0xE {
        if kk == 0x9E {
            if vx > 15 {
                (Err(Chip8Error::InvalidKey), m)
            } else {
                (Ok(()), Machine {
                    pc: if m.keys[vx as int] { (pc2 + 2) as u16 } else { pc2 },
                    ..m
                })
            }
        } else if kk == 0xA1 {
            if vx > 15 {
                (Err(Chip8Error::InvalidKey), m)
            } else {
                (Ok(()), Machine {
                    pc: if !m.keys[vx as int] { (pc2 + 2) as u16 } else { pc2 },
                    ..m
                })
            }
        } else {
            (Ok(()), Machine { pc: pc2, ..m })
        }
    } else if op == 0xF {
        if kk == 0x07 {
            (Ok(()), Machine { pc: pc2, registers: m.registers.update(x, m.dt), ..m })
        } else if kk == 0x0A {
            (Ok(()), Machine {
                pc: pc2,
                state: CpuState::WaitingForKey { register: x_of(code) },
                ..m
            })
        } else if kk == 0x15 {
            (Ok(()), Machine { pc: pc2, dt: vx, ..m })
        } else if kk == 0x18 {
            (Ok(()), Machine { pc: pc2, st: vx, ..m })
        } else if kk == 0x1E {
            (Ok(()), Machine { pc: pc2, i: ((m.i + vx) % 0x10000) as u16, ..m })
        } else if kk == 0x29 {
            (Ok(()), Machine { pc: pc2, i: (vx * 5) as u16, ..m })
        } else if kk == 0x33 {
            if m.i + 2 > 4095 {
                (Err(Chip8Error::AddressOutOfRange), m)
            } else {
                (Ok(()), Machine {
                    pc: pc2,
                    memory: m.memory
                        .update(m.i as int, vx / 100)
                        .update(m.i + 1, (vx % 100) / 10)
                        .update(m.i + 2, vx % 10),
                    ..m
                })
            }
        } else if kk == 0x55 {
            if m.i + x > 4095 {
                (Err(Chip8Error::AddressOutOfRange), m)
            } else {
                (Ok(()), Machine {
                    pc: pc2,
                    memory: store_regs(m.memory, m.registers, m.i as int, x),
                    i: (m.i + x + 1) as u16,
                    ..m
                })
            }
        } else if kk == 0x65 {
            if m.i + x > 4095 {
                (Err(Chip8Error::AddressOutOfRange), m)
            } else {
                (Ok(()), Machine {
                    pc: pc2,
                    registers: load_regs(m.registers, m.memory, m.i as int, x),
                    i: (m.i + x + 1) as u16,
                    ..m
                })
            }
        } else {
            (Ok(()), Machine { pc: pc2, ..m })
        }
    } else {
        (Ok(()), Machine { pc: pc2, ..m })
    }
}

/// The machine: memory, registers, stack, timers, video memory, keypad and
/// execution state, as one value.
pub struct Chip8 {
    memory: Vec<u8>,
    registers: Vec<u8>,
    stack: Vec<u16>,
    sp: u8,
    pc: u16,
    i: u16,
    dt: u8,
    st: u8,

    pub display: Display,
    pub input: Input,
    pub beeping_state: BeepingState,
    pub state: CpuState,
}

impl View for Chip8 {
    type V = Machine;

    closed spec fn view(&self) -> Machine {
        Machine {
            memory: self.memory@,
            registers: self.registers@,
            stack: self.stack@,
            sp: self.sp,
            pc: self.pc,
            i: self.i,
            dt: self.dt,
            st: self.st,
            vram: self.display@.rows,
            draw_flag: self.display@.dirty,
            keys: self.input@,
            state: self.state,
            beeping: self.beeping_state,
        }
    }
}

/// Relies on rand::random: draws a value from the thread-local generator.
/// Nothing is assumed of the byte that comes back.
#[verifier::external_body]
fn random_byte() -> u8 {
    rand::random::<u8>()
}

impl Chip8 {
    /// The machine model is well formed and the display's pixel buffer
    /// matches its dimensions. Constructors establish it, every method
    /// preserves it.
    pub closed spec fn wf(&self) -> bool {
        &&& self@.wf()
        &&& self.display.wf()
        &&& self.input.wf()
    }

    /// The display as the presenter sees it.
    pub closed spec fn screen(&self) -> DisplayView {
        self.display@
    }

    /// The register `reg` of V0 through VF.
    pub fn v(&self, reg: u16) -> (r: u8)
        requires
            self.wf(),
            reg < 16,
        ensures
            r == self@.registers[reg as int],
    {
        self.registers[reg as usize]
    }

    /// Write `value` into register `reg`.
    pub fn set_v(&mut self, reg: u16, value: u8)
        requires
            old(self).wf(),
            reg < 16,
        ensures
            final(self).wf(),
            (final(self)@ == Machine {
                registers: old(self)@.registers.update(reg as int, value),
                ..old(self)@
            }),
            same_presentation(final(self).screen(), old(self).screen()),
    {
        self.registers[reg as usize] = value;
    }

    /// Execute one already-fetched instruction word, with `rand_byte` as the
    /// value the random source supplied for the random opcode. The whole
    /// effect, including every error, is `spec_decode`.
    #[verifier::rlimit(100)]
    pub fn execute(&mut self, code: u16, rand_byte: u8) -> (r: Result<(), Chip8Error>)
        requires
            old(self).wf(),
            old(self)@.pc <= 4094,
        ensures
            final(self).wf(),
            r == spec_decode(old(self)@, code, rand_byte).0,
            final(self)@ == spec_decode(old(self)@, code, rand_byte).1,
            same_presentation(final(self).screen(), old(self).screen()),
    {
        proof {
            lemma_opcode_fields(code);
        }
        let ghost m0 = self@;
        let op = code >> 12u16;
        let nnn = code & 0x0fff;
        let kk = (code & 0xff) as u8;
        let nib = code & 0xf;
        let x = (code >> 8u16) & 0xf;
        let y = (code >> 4u16) & 0xf;
        let vx = self.v(x);
        let vy = self.v(y);
        let pc0 = self.pc;
        self.pc = self.pc + 2;

        match op {
            0x0 => match kk {
                0xE0 => {
                    self.display.clear_vram();
                    proof {
                        assert(self@.vram =~= spec_decode(m0, code, rand_byte).1.vram);
                    }
                }
                0xEE => {
                    if self.sp == 0 {
                        self.pc = pc0;
                        return Err(Chip8Error::StackUnderflow);
                    }
                    self.sp = self.sp - 1;
                    self.pc = self.stack[self.sp as usize];
                }
                _ => {}
            },
            0x1 => {
                self.pc = nnn;
            }
            0x2 => {
                if self.sp >= 16 {
                    self.pc = pc0;
                    return Err(Chip8Error::StackOverflow);
                }
                self.stack[self.sp as usize] = self.pc;
                self.pc = nnn;
                self.sp = self.sp + 1;
            }
            0x3 => {
                if vx == kk {
                    self.pc = self.pc + 2;
                }
            }
            0x4 => {
                if vx != kk {
                    self.pc = self.pc + 2;
                }
            }
            0x5 => {
                if nib == 0x0 && vx == vy {
                    self.pc = self.pc + 2;
                }
            }
            0x6 => {
                self.set_v(x, kk);
            }
            0x7 => {
                let sum = vx as u16 + kk as u16;
                self.set_v(x, (sum % 256) as u8);
            }
            0x8 => match nib {
                0x0 => {
                    self.set_v(x, vy);
                }
                0x1 => {
                    self.set_v(x, vx | vy);
                    self.set_v(0xf, 0);
                }
                0x2 => {
                    self.set_v(x, vx & vy);
                    self.set_v(0xf, 0);
                }
                0x3 => {
                    self.set_v(x, vx ^ vy);
                    self.set_v(0xf, 0);
                }
                0x4 => {
                    let sum = vx as u16 + vy as u16;
                    self.set_v(x, (sum % 256) as u8);
                    self.set_v(0xf, if sum > 255 { 1 } else { 0 });
                }
                0x5 => {
                    let diff = (vx as u16 + 256 - vy as u16) % 256;
                    self.set_v(x, diff as u8);
                    self.set_v(0xf, if vx >= vy { 1 } else { 0 });
                }
                0x6 => {
                    self.set_v(x, vy / 2);
                    self.set_v(0xf, vy % 2);
                }
                0x7 => {
                    let diff = (vy as u16 + 256 - vx as u16) % 256;
                    self.set_v(x, diff as u8);
                    self.set_v(0xf, if vy >= vx { 1 } else { 0 });
                }
                0xE => {
                    let doubled = vy as u16 * 2;
                    self.set_v(x, (doubled % 256) as u8);
                    self.set_v(0xf, vy / 128);
                }
                _ => {}
            },
            0x9 => {
                if nib == 0x0 && vx != vy {
                    self.pc = self.pc + 2;
                }
            }
            0xA => {
                self.i = nnn;
            }
            0xB => {
                let v0 = self.v(0);
                self.pc = nnn + v0 as u16;
            }
            0xC => {
                self.set_v(x, rand_byte & kk);
            }
            0xD => {
                let n = nib as usize;
                let start = self.i as usize;
                if start + n > 4096 {
                    self.pc = pc0;
                    return Err(Chip8Error::AddressOutOfRange);
                }
                let sprite = vstd::slice::slice_subrange(self.memory.as_slice(), start, start + n);
                let collision = self.display.draw_to_vram(vx, vy, sprite);
                self.set_v(0xf, if collision { 1 } else { 0 });
            }
            0xE => {
                if kk == 0x9E {
                    if vx > 15 {
                        self.pc = pc0;
                        return Err(Chip8Error::InvalidKey);
                    }
                    if self.input.is_key_pressed(vx) {
                        self.pc = self.pc + 2;
                    }
                } else if kk == 0xA1 {
                    if vx > 15 {
                        self.pc = pc0;
                        return Err(Chip8Error::InvalidKey);
                    }
                    if !self.input.is_key_pressed(vx) {
                        self.pc = self.pc + 2;
                    }
                }
            }
            0xF => {
                if kk == 0x07 {
                    self.set_v(x, self.dt);
                } else if kk == 0x0A {
                    self.state = CpuState::WaitingForKey { register: x };
                } else if kk == 0x15 {
                    self.dt = vx;
                } else if kk == 0x18 {
                    self.st = vx;
                } else if kk == 0x1E {
                    self.i = self.i.wrapping_add(vx as u16);
                } else if kk == 0x29 {
                    self.i = vx as u16 * 5;
                } else if kk == 0x33 {
                    let start = self.i as usize;
                    if start + 2 > 4095 {
                        self.pc = pc0;
                        return Err(Chip8Error::AddressOutOfRange);
                    }
                    self.memory[start] = vx / 100;
                    self.memory[start + 1] = (vx % 100) / 10;
                    self.memory[start + 2] = vx % 10;
                } else if kk == 0x55 {
                    let start = self.i as usize;
                    if start + x as usize > 4095 {
                        self.pc = pc0;
                        return Err(Chip8Error::AddressOutOfRange);
                    }
                    let ghost m1 = self@;
                    let ghost mem0 = self.memory@;
                    let ghost regs0 = self.registers@;
                    let mut k: usize = 0;
                    while k <= x as usize
                        invariant
                            x <= 15,
                            k <= x + 1,
                            start as int == m1.i as int,
                            start + x <= 4095,
                            self.memory@.len() == 4096,
                            regs0 == self.registers@,
                            regs0.len() == 16,
                            (self@ == Machine { memory: self.memory@, ..m1 }),
                            self.display == old(self).display,
                            self.input == old(self).input,
                            forall|j: int| 0 <= j < 4096 ==> self.memory@[j] == (
                                if start <= j < start + k {
                                    regs0[j - start]
                                } else {
                                    mem0[j]
                                }),
                        decreases x as int + 1 - k,
                    {
                        self.memory[start + k] = self.registers[k];
                        k = k + 1;
                    }
                    self.i = self.i + x + 1;
                    proof {
                        assert(self.memory@ =~= store_regs(mem0, regs0, start as int, x as int));
                    }
                } else if kk == 0x65 {
                    let start = self.i as usize;
                    if start + x as usize > 4095 {
                        self.pc = pc0;
                        return Err(Chip8Error::AddressOutOfRange);
                    }
                    let ghost m1 = self@;
                    let ghost mem0 = self.memory@;
                    let ghost regs0 = self.registers@;
                    let mut k: usize = 0;
                    while k <= x as usize
                        invariant
                            x <= 15,
                            k <= x + 1,
                            start as int == m1.i as int,
                            start + x <= 4095,
                            self.registers@.len() == 16,
                            mem0 == self.memory@,
                            mem0.len() == 4096,
                            (self@ == Machine { registers: self.registers@, ..m1 }),
                            self.display == old(self).display,
                            self.input == old(self).input,
                            forall|j: int| 0 <= j < 16 ==> self.registers@[j] == (
                                if 0 <= j < k {
                                    mem0[start + j]
                                } else {
                                    regs0[j]
                                }),
                        decreases x as int + 1 - k,
                    {
                        self.registers[k] = self.memory[start + k];
                        k = k + 1;
                    }
                    self.i = self.i + x + 1;
                    proof {
                        assert(self.registers@ =~= load_regs(regs0, mem0, start as int, x as int));
                    }
                }
            }
            _ => {}
        }
        proof {
            assert(self@ =~= spec_decode(m0, code, rand_byte).1);
        }
        Ok(())
    }

    /// Execute one instruction word, drawing the byte for the random opcode
    /// from the thread-local random source: the effect is `spec_decode` for
    /// the byte that came back, whatever it was.
    pub fn decode(&mut self, code: u16) -> (r: Result<(), Chip8Error>)
        requires
            old(self).wf(),
            old(self)@.pc <= 4094,
        ensures
            final(self).wf(),
            same_presentation(final(self).screen(), old(self).screen()),
            exists|b: u8|
                r == (#[trigger] spec_decode(old(self)@, code, b)).0
                    && final(self)@ == spec_decode(old(self)@, code, b).1,
    {
        let b = random_byte();
        self.execute(code, b)
    }

    /// Read the instruction word at the program counter; the machine is not
    /// touched, in particular the program counter does not advance. Fails
    /// exactly when the program counter no longer addresses two in-range
    /// memory cells.
    pub fn fetch(&self) -> (r: Result<u16, Chip8Error>)
        requires
            self.wf(),
        ensures
            r == (if self@.pc <= 4094 {
                Ok::<u16, Chip8Error>(spec_fetch(self@))
            } else {
                Err::<u16, Chip8Error>(Chip8Error::AddressOutOfRange)
            }),
    {
        if self.pc > 4094 {
            return Err(Chip8Error::AddressOutOfRange);
        }
        let high = self.memory[self.pc as usize] as u16;
        let low = self.memory[self.pc as usize + 1] as u16;
        Ok(high * 256 + low)
    }

    /// One 60 Hz timer tick: each timer that is above zero goes down by one
    /// and neither ever goes below zero, whatever the instruction rate. The
    /// returned intent reports the edges of the sound timer: the tone starts
    /// when ST is nonzero while stopped, and stops when ST has reached zero
    /// while sounding.
    pub fn update_timers(&mut self) -> (intent: AudioIntent)
        requires
            old(self).wf(),
        ensures
            final(self).wf(),
            same_presentation(final(self).screen(), old(self).screen()),
            (final(self)@ == Machine {
                dt: if old(self)@.dt > 0 { (old(self)@.dt - 1) as u8 } else { 0u8 },
                st: if old(self)@.st > 0 { (old(self)@.st - 1) as u8 } else { 0u8 },
                beeping: if old(self)@.st > 0 {
                    BeepingState::Beeping
                } else {
                    BeepingState::Stopped
                },
                ..old(self)@
            }),
            old(self)@.dt - 1 <= final(self)@.dt <= old(self)@.dt,
            old(self)@.st - 1 <= final(self)@.st <= old(self)@.st,
            intent == (match old(self)@.beeping {
                BeepingState::Stopped => if old(self)@.st > 0 {
                    AudioIntent::StartTone
                } else {
                    AudioIntent::Silent
                },
                BeepingState::Beeping => if old(self)@.st == 0 {
                    AudioIntent::StopTone
                } else {
                    AudioIntent::Silent
                },
            }),
    {
        let intent = match self.beeping_state {
            BeepingState::Stopped => {
                if self.st > 0 {
                    self.beeping_state = BeepingState::Beeping;
                    AudioIntent::StartTone
                } else {
                    AudioIntent::Silent
                }
            }
            BeepingState::Beeping => {
                if self.st == 0 {
                    self.beeping_state = BeepingState::Stopped;
                    AudioIntent::StopTone
                } else {
                    AudioIntent::Silent
                }
            }
        };
        if self.st > 0 {
            self.st = self.st - 1;
        }
        if self.dt > 0 {
            self.dt = self.dt - 1;
        }
        intent
    }

    /// Copy a program image verbatim into memory starting at 0x200; the rest
    /// of the machine is untouched.
    pub fn load_program(&mut self, instructions: &[u8])
        requires
            old(self).wf(),
            instructions@.len() <= 4096 - 0x200,
        ensures
            final(self).wf(),
            same_presentation(final(self).screen(), old(self).screen()),
            (final(self)@ == Machine { memory: final(self)@.memory, ..old(self)@ }),
            forall|j: int| 0x200 <= j < 0x200 + instructions@.len()
                ==> final(self)@.memory[j] == instructions@[j - 0x200],
            forall|j: int| (0 <= j < 0x200 || 0x200 + instructions@.len() <= j < 4096)
                ==> final(self)@.memory[j] == old(self)@.memory[j],
    {
        let ghost m1 = self@;
        let ghost mem0 = self.memory@;
        let mut k: usize = 0;
        while k < instructions.len()
            invariant
                instructions@.len() <= 3584,
                k <= instructions@.len(),
                self.memory@.len() == 4096,
                (self@ == Machine { memory: self.memory@, ..m1 }),
                self.display == old(self).display,
                self.input == old(self).input,
                forall|j: int| 0 <= j < 4096 ==> self.memory@[j] == (
                    if 0x200 <= j < 0x200 + k {
                        instructions@[j - 0x200]
                    } else {
                        mem0[j]
                    }),
            decreases instructions@.len() - k,
        {
            self.memory[0x200 + k] = instructions[k];
            k = k + 1;
        }
    }

    /// A machine at power-on: the font in the first 80 memory cells, the
    /// program image at 0x200, every register and timer zero, the program
    /// counter at 0x200, running.
    pub fn new(display: Display, input: Input, instructions: &[u8]) -> (r: Chip8)
        requires
            display.wf(),
            input.wf(),
            instructions@.len() <= 4096 - 0x200,
        ensures
            r.wf(),
            (r@ == Machine {
                memory: initial_memory(instructions@),
                registers: Seq::new(16, |j: int| 0u8),
                stack: Seq::new(16, |j: int| 0u16),
                sp: 0u8,
                pc: 0x200u16,
                i: 0u16,
                dt: 0u8,
                st: 0u8,
                vram: display@.rows,
                draw_flag: display@.dirty,
                keys: input@,
                state: CpuState::Running,
                beeping: BeepingState::Stopped,
            }),
            r.screen() == display@,
    {
        let font: [u8; 80] = [
            0xf0, 0x90, 0x90, 0x90, 0xf0,
            0x20, 0x60, 0x20, 0x20, 0x70,
            0xf0, 0x10, 0xf0, 0x80, 0xf0,
            0xf0, 0x10, 0xf0, 0x10, 0xf0,
            0x90, 0x90, 0xf0, 0x10, 0x10,
            0xf0, 0x80, 0xf0, 0x10, 0xf0,
            0xf0, 0x80, 0xf0, 0x90, 0xf0,
            0xf0, 0x10, 0x20, 0x40, 0x40,
            0xf0, 0x90, 0xf0, 0x90, 0xf0,
            0xf0, 0x90, 0xf0, 0x10, 0xf0,
            0xf0, 0x90, 0xf0, 0x90, 0x90,
            0xe0, 0x90, 0xe0, 0x90, 0xe0,
            0xf0, 0x80, 0x80, 0x80, 0xf0,
            0xe0, 0x90, 0x90, 0x90, 0xe0,
            0xf0, 0x80, 0xf0, 0x80, 0xf0,
            0xf0, 0x80, 0xf0, 0x80, 0x80,
        ];
        proof {
            assert(font@ =~= font_data());
        }
        let mut memory: Vec<u8> = vec![0u8; 4096];
        let mut k: usize = 0;
        while k < 80
            invariant
                memory@.len() == 4096,
                k <= 80,
                font@ == font_data(),
                forall|j: int| 0 <= j < k ==> memory@[j] == font_data()[j],
                forall|j: int| k <= j < 4096 ==> memory@[j] == 0u8,
            decreases 80 - k,
        {
            memory[k] = font[k];
            k = k + 1;
        }
        let mut chip = Chip8 {
            memory,
            registers: vec![0u8; 16],
            stack: vec![0u16; 16],
            sp: 0,
            pc: 0x200,
            i: 0,
            dt: 0,
            st: 0,
            display,
            input,
            beeping_state: BeepingState::Stopped,
            state: CpuState::Running,
        };
        chip.load_program(instructions);
        proof {
            assert(chip@.memory =~= initial_memory(instructions@));
            assert(chip@.registers =~= Seq::new(16, |j: int| 0u8));
            assert(chip@.stack =~= Seq::new(16, |j: int| 0u16));
        }
        chip
    }

    /// One frame-driver cycle. Running: fetch and execute one instruction.
    /// Waiting for a key: poll the keypad; when some key is down, write the
    /// lowest such key into the waiting register and wait for its release.
    /// Waiting for a release: once that key is up, write it again and resume;
    /// no instruction is fetched while waiting.
    pub fn cycle(&mut self) -> (r: Result<(), Chip8Error>)
        requires
            old(self).wf(),
        ensures
            final(self).wf(),
            same_presentation(final(self).screen(), old(self).screen()),
            match old(self)@.state {
                CpuState::Running => {
                    if old(self)@.pc <= 4094 {
                        exists|b: u8|
                            r == (#[trigger] spec_decode(old(self)@, spec_fetch(old(self)@), b)).0
                                && final(self)@ == spec_decode(
                                    old(self)@,
                                    spec_fetch(old(self)@),
                                    b,
                                ).1
                    } else {
                        r == Err::<(), Chip8Error>(Chip8Error::AddressOutOfRange)
                            && final(self)@ == old(self)@
                    }
                },
                CpuState::WaitingForKey { register } => {
                    &&& r == Ok::<(), Chip8Error>(())
                    &&& if exists|k: int| 0 <= k < 16 && old(self)@.keys[k] {
                        exists|k: u8|
                            k < 16 && old(self)@.keys[k as int]
                                && (forall|j: int| 0 <= j < k ==> !old(self)@.keys[j])
                                && final(self)@ == (Machine {
                                    registers: old(self)@.registers.update(register as int, k),
                                    state: CpuState::WaitingForRelease { register, key: k },
                                    ..old(self)@
                                })
                    } else {
                        final(self)@ == old(self)@
                    }
                },
                CpuState::WaitingForRelease { register, key } => {
                    &&& r == Ok::<(), Chip8Error>(())
                    &&& final(self)@ == (if old(self)@.keys[key as int] {
                        old(self)@
                    } else {
                        Machine {
                            registers: old(self)@.registers.update(register as int, key),
                            state: CpuState::Running,
                            ..old(self)@
                        }
                    })
                },
            },
    {
        match self.state {
            CpuState::Running => {
                let code = match self.fetch() {
                    Ok(c) => c,
                    Err(e) => {
                        return Err(e);
                    }
                };
                self.decode(code)
            }
            CpuState::WaitingForKey { register } => {
                if let Some(key) = self.input.get_any_pressed_key() {
                    self.set_v(register, key);
                    self.state = CpuState::WaitingForRelease { register, key };
                }
                Ok(())
            }
            CpuState::WaitingForRelease { register, key } => {
                if !self.input.is_key_pressed(key) {
                    self.set_v(register, key);
                    self.state = CpuState::Running;
                }
                Ok(())
            }
        }
    }

    pub fn pc(&self) -> (r: u16)
        ensures
            r == self@.pc,
    {
        self.pc
    }

    pub fn sp(&self) -> (r: u8)
        ensures
            r == self@.sp,
    {
        self.sp
    }

    pub fn i(&self) -> (r: u16)
        ensures
            r == self@.i,
    {
        self.i
    }

    pub fn dt(&self) -> (r: u8)
        ensures
            r == self@.dt,
    {
        self.dt
    }

    pub fn st(&self) -> (r: u8)
        ensures
            r == self@.st,
    {
        self.st
    }

    /// The memory cell at `addr`.
    pub fn mem(&self, addr: u16) -> (r: u8)
        requires
            self.wf(),
            addr < 4096,
        ensures
            r == self@.memory[addr as int],
    {
        self.memory[addr as usize]
    }
}

/// Whether `code` is a jump, call, return or conditional skip: the only
/// opcodes allowed to set or further adjust the program counter.
pub open spec fn is_control_flow(code: u16) -> bool {
    ||| op_of(code) == 0x1
    ||| op_of(code) == 0x2
    ||| op_of(code) == 0xB
    ||| (op_of(code) == 0x0 && kk_of(code) == 0xEE)
    ||| is_conditional_skip(code)
}

/// Whether `code` is one of the conditional-skip opcodes.
pub open spec fn is_conditional_skip(code: u16) -> bool {
    ||| op_of(code) == 0x3
    ||| op_of(code) == 0x4
    ||| (op_of(code) == 0x5 && nib_of(code) == 0x0)
    ||| (op_of(code) == 0x9 && nib_of(code) == 0x0)
    ||| (op_of(code) == 0xE && (kk_of(code) == 0x9E || kk_of(code) == 0xA1))
}

/// Every successfully executed opcode advances the program counter by
/// exactly two, unless it is a jump, call, return or conditional skip; a
/// conditional skip advances it by exactly two or four.
pub proof fn lemma_pc_advance(m: Machine, code: u16, rnd: u8)
    requires
        m.wf(),
        m.pc <= 4094,
        spec_decode(m, code, rnd).0 is Ok,
    ensures
        !is_control_flow(code) ==> spec_decode(m, code, rnd).1.pc == m.pc + 2,
        is_conditional_skip(code) ==> (spec_decode(m, code, rnd).1.pc == m.pc + 2
            || spec_decode(m, code, rnd).1.pc == m.pc + 4),
        op_of(code) == 0x1 ==> spec_decode(m, code, rnd).1.pc == nnn_of(code),
        op_of(code) == 0x2 ==> spec_decode(m, code, rnd).1.pc == nnn_of(code),
        op_of(code) == 0xB ==> spec_decode(m, code, rnd).1.pc
            == nnn_of(code) + m.registers[0],
        op_of(code) == 0x0 && kk_of(code) == 0xEE ==> spec_decode(m, code, rnd).1.pc
            == m.stack[m.sp - 1],
{
    lemma_opcode_fields(code);
}

/// Clearing the display zeroes every video-memory row: any read of video
/// memory after the clear opcode yields zero.
pub proof fn lemma_clear_screen(m: Machine, rnd: u8)
    requires
        m.wf(),
        m.pc <= 4094,
    ensures
        spec_decode(m, 0x00E0, rnd).0 is Ok,
        forall|r: int| 0 <= r < 32 ==> spec_decode(m, 0x00E0, rnd).1.vram[r] == 0,
{
    assert(op_of(0x00E0) == 0x0 && kk_of(0x00E0) == 0xE0) by (bit_vector);
}

/// Call then return: executing a call and then, at the called address, a
/// return brings the program counter to the instruction after the call and
/// restores the stack pointer; registers and memory are untouched.
pub proof fn lemma_call_return_round_trip(m: Machine, code: u16, rnd1: u8, rnd2: u8)
    requires
        m.wf(),
        m.pc <= 4094,
        op_of(code) == 0x2,
        m.sp < 16,
    ensures
        ({
            let called = spec_decode(m, code, rnd1).1;
            let returned = spec_decode(called, 0x00EE, rnd2);
            &&& spec_decode(m, code, rnd1).0 is Ok
            &&& called.pc == nnn_of(code)
            &&& returned.0 is Ok
            &&& returned.1.pc == m.pc + 2
            &&& returned.1.sp == m.sp
            &&& returned.1.registers == m.registers
            &&& returned.1.memory == m.memory
        }),
{
    assert(op_of(0x00EE) == 0x0 && kk_of(0x00EE) == 0xEE) by (bit_vector);
}

/// Store then load: a block store of V0 through Vx, the index register put
/// back by hand, and a block load reproduce the original registers; each of
/// the two transfers leaves the index register advanced by x + 1.
pub proof fn lemma_store_load_round_trip(
    m: Machine,
    code55: u16,
    code65: u16,
    x: u16,
    rnd1: u8,
    rnd2: u8,
)
    requires
        m.wf(),
        m.pc <= 4094,
        op_of(code55) == 0xF,
        kk_of(code55) == 0x55,
        x_of(code55) == x,
        op_of(code65) == 0xF,
        kk_of(code65) == 0x65,
        x_of(code65) == x,
        m.i + x <= 4095,
    ensures
        ({
            let stored = spec_decode(m, code55, rnd1).1;
            let reset = Machine { i: m.i, ..stored };
            let loaded = spec_decode(reset, code65, rnd2).1;
            &&& spec_decode(m, code55, rnd1).0 is Ok
            &&& stored.i == m.i + x + 1
            &&& spec_decode(reset, code65, rnd2).0 is Ok
            &&& loaded.i == m.i + x + 1
            &&& loaded.registers == m.registers
        }),
{
    lemma_opcode_fields(code55);
    let stored = spec_decode(m, code55, rnd1).1;
    let reset = Machine { i: m.i, ..stored };
    let loaded = spec_decode(reset, code65, rnd2).1;
    assert(stored.memory == store_regs(m.memory, m.registers, m.i as int, x as int));
    assert(loaded.registers == load_regs(stored.registers, stored.memory, m.i as int, x as int));
    assert forall|j: int| 0 <= j < 16 implies loaded.registers[j] == m.registers[j] by {
        if j <= x {
            assert(stored.memory[m.i + j] == m.registers[j]);
        }
    };
    assert(loaded.registers =~= m.registers);
}

/// The built-in font: sixteen glyphs of five bytes, one per hexadecimal
/// digit, stored from address 0.
pub open spec fn font_data() -> Seq<u8> {
    seq![
        0xf0u8, 0x90u8, 0x90u8, 0x90u8, 0xf0u8,
        0x20u8, 0x60u8, 0x20u8, 0x20u8, 0x70u8,
        0xf0u8, 0x10u8, 0xf0u8, 0x80u8, 0xf0u8,
        0xf0u8, 0x10u8, 0xf0u8, 0x10u8, 0xf0u8,
        0x90u8, 0x90u8, 0xf0u8, 0x10u8, 0x10u8,
        0xf0u8, 0x80u8, 0xf0u8, 0x10u8, 0xf0u8,
        0xf0u8, 0x80u8, 0xf0u8, 0x90u8, 0xf0u8,
        0xf0u8, 0x10u8, 0x20u8, 0x40u8, 0x40u8,
        0xf0u8, 0x90u8, 0xf0u8, 0x90u8, 0xf0u8,
        0xf0u8, 0x90u8, 0xf0u8, 0x10u8, 0xf0u8,
        0xf0u8, 0x90u8, 0xf0u8, 0x90u8, 0x90u8,
        0xe0u8, 0x90u8, 0xe0u8, 0x90u8, 0xe0u8,
        0xf0u8, 0x80u8, 0x80u8, 0x80u8, 0xf0u8,
        0xe0u8, 0x90u8, 0x90u8, 0x90u8, 0xe0u8,
        0xf0u8, 0x80u8, 0xf0u8, 0x80u8, 0xf0u8,
        0xf0u8, 0x80u8, 0xf0u8, 0x80u8, 0x80u8,
    ]
}

/// Memory at power-on: the font at address 0, the program image at 0x200,
/// zero everywhere else.
pub open spec fn initial_memory(program: Seq<u8>) -> Seq<u8> {
    Seq::new(4096, |j: int|
        if 0 <= j < 80 {
            font_data()[j]
        } else if 0x200 <= j < 0x200 + program.len() {
            program[j - 0x200]
        } else {
            0u8
        })
}

} // verus!
