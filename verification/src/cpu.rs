//! The executable machine.

use crate::decode::{decode, Decoded};
use crate::entropy::random_in_range;
use crate::fault::{Fault, LoadError};
use crate::fonts::{FONT_SET, GLYPH_SIZE};
use crate::machine::{
    decimal_digit, draws_random, lemma_at_fetch_wf, lemma_decimal_digits, lemma_lowest_pressed,
    lemma_rows_drawn_wf, lemma_step_wf, lowest_pressed, Machine,
};
use crate::{C8_HEIGHT, C8_WIDTH, OPCODE_SIZE};
use vstd::prelude::*;

verus! {

/// What an instruction asks of the program counter.
enum ProgramCounter {
    /// Go to the following instruction.
    Next,
    /// Skip the following instruction.
    Skip,
    /// Go to the given address.
    Jump(usize),
}

/// The keypad and the pending key read.
pub struct Input {
    /// Which of the sixteen keys are down.
    pub keys: [bool; 16],
    /// Whether `tick` is to read a key into `v[key_target]`.
    pub read_keys: bool,
    /// The register that a pending key read fills.
    pub key_target: usize,
}

impl Input {
    /// A keypad with no key down and no read pending.
    pub fn new() -> (input: Input)
        ensures
            input.keys@ == Seq::new(16, |k: int| false),
            !input.read_keys,
            input.key_target == 0,
    {
        Input { keys: [false; 16], read_keys: false, key_target: 0 }
    }

    /// The number of the lowest key that is down, if any is.
    pub fn lowest_pressed(&self) -> (key: Option<usize>)
        ensures
            (match key {
                Some(k) => lowest_pressed(self.keys@) == Some(k as int) && k < 16,
                None => lowest_pressed(self.keys@) is None,
            }),
    {
        let mut k: usize = 0;
        while k < 16 && !self.keys[k]
            invariant
                k <= 16,
                forall|j: int| 0 <= j < k ==> !self.keys@[j],
            decreases 16 - k,
        {
            k += 1;
        }
        if k < 16 {
            proof {
                lemma_lowest_pressed(self.keys@, k as int);
            }
            Some(k)
        } else {
            None
        }
    }
}

impl Default for Input {
    fn default() -> (input: Input)
        ensures
            input.keys@ == Seq::new(16, |k: int| false),
            !input.read_keys,
            input.key_target == 0,
    {
        Input::new()
    }
}

/// The machine: memory, registers, call stack, timers, framebuffer and
/// keypad.
pub struct Cpu {
    /// Memory. The font occupies its first bytes, a program the bytes from
    /// 0x200 on.
    pub memory: [u8; 4096],
    /// The general registers; `v[0xF]` doubles as the flag.
    pub v: [u8; 16],
    /// The index register.
    pub i: usize,
    /// The address of the next instruction.
    pub pc: usize,
    /// The framebuffer, by row and column; a lit pixel is 1.
    pub gfx: [[u8; C8_WIDTH]; C8_HEIGHT],
    /// Set whenever the framebuffer is written; cleared by whoever shows it.
    pub gfx_updated: bool,
    /// The delay timer.
    pub delay_timer: u8,
    /// The sound timer.
    pub sound_timer: u8,
    /// The call stack.
    pub stack: [usize; 16],
    /// The next free slot of the call stack.
    pub sp: usize,
    /// The keypad.
    pub input: Input,
}

impl View for Cpu {
    type V = Machine;

    open spec fn view(&self) -> Machine {
        Machine {
            memory: self.memory@,
            v: self.v@,
            i: self.i as int,
            pc: self.pc as int,
            gfx: Seq::new(32, |r: int| self.gfx[r]@),
            gfx_updated: self.gfx_updated,
            delay_timer: self.delay_timer,
            sound_timer: self.sound_timer,
            stack: Seq::new(16, |k: int| self.stack[k] as int),
            sp: self.sp as int,
            keys: self.input.keys@,
            read_keys: self.input.read_keys,
            key_target: self.input.key_target as int,
        }
    }
}

impl Cpu {
    /// The invariant of the machine; see [`Machine::wf`].
    pub open spec fn wf(&self) -> bool {
        self@.wf()
    }

    /// Every machine has the shape that the laws of the instruction set ask
    /// for.
    pub proof fn lemma_view_shaped(&self)
        ensures
            self@.shaped(),
    {
    }

    /// A machine as it is switched on: the font in memory, the program
    /// counter at 0x200, and everything else zero.
    pub fn new() -> (cpu: Cpu)
        ensures
            cpu@ == Machine::power_on(),
            cpu.wf(),
    {
        let mut cpu = Cpu {
            memory: [0; 4096],
            v: [0; 16],
            i: 0,
            pc: 0x200,
            gfx: [[0; C8_WIDTH]; C8_HEIGHT],
            gfx_updated: false,
            delay_timer: 0,
            sound_timer: 0,
            stack: [0; 16],
            sp: 0,
            input: Input::new(),
        };
        cpu.load_fonts();
        assert(cpu@.gfx =~~= Machine::power_on().gfx);
        cpu
    }

    /// Loads a program: copies `rom` into memory from address 0x200 on. A
    /// program that does not fit is refused, and the machine left as it
    /// was.
    pub fn load_rom(&mut self, rom: &[u8]) -> (r: Result<(), LoadError>)
        ensures
            (match r {
                Ok(()) => rom@.len() <= 4096 - 0x200 && final(self)@ == old(self)@.loaded(rom@),
                Err(error) => {
                    &&& rom@.len() > 4096 - 0x200
                    &&& final(self)@ == old(self)@
                    &&& error == LoadError::ProgramTooLarge
                },
            }),
            old(self).wf() ==> final(self).wf(),
    {
        if rom.len() > 4096 - 0x200 {
            return Err(LoadError::ProgramTooLarge);
        }
        for k in 0..rom.len()
            invariant
                rom@.len() <= 4096 - 0x200,
                self@ == (Machine {
                    memory: Seq::new(
                        4096,
                        |a: int|
                            if 0x200 <= a < 0x200 + k {
                                rom@[a - 0x200]
                            } else {
                                old(self)@.memory[a]
                            },
                    ),
                    ..old(self)@
                }),
        {
            self.memory[0x200 + k] = rom[k];
        }
        Ok(())
    }

    /// The instruction word at the program counter, high byte first.
    pub fn read_word(&self) -> (r: Result<u16, Fault>)
        ensures
            (match r {
                Ok(word) => self.pc <= 4094 && word == self@.fetched(),
                Err(fault) => self.pc > 4094 && fault == Fault::ProgramCounterOutOfRange,
            }),
    {
        if self.pc > 4094 {
            return Err(Fault::ProgramCounterOutOfRange);
        }
        let hi = self.memory[self.pc] as u16;
        let lo = self.memory[self.pc + 1] as u16;
        assert((hi << 8) | lo == hi * 0x100 + lo) by (bit_vector)
            requires
                hi < 0x100,
                lo < 0x100,
        ;
        Ok((hi << 8) | lo)
    }

    /// Runs the machine for one tick.
    ///
    /// A pending key read is served first: if a key is down, the lowest such
    /// key goes to the target register and the read is no longer pending.
    /// Then the delay timer counts down by one, stopping at zero; the sound
    /// timer is left to `Fx18` and to the driver. Then the instruction at the
    /// program counter is fetched and executed as by
    /// [`run_opcode`](Cpu::run_opcode).
    ///
    /// A fault ends the tick where it arises. A key read whose target is no
    /// register is found before anything changes; a program counter out of
    /// range or a faulting instruction, after the key read and the timer.
    pub fn tick(&mut self) -> (r: Result<(), Fault>)
        ensures
            r == old(self)@.tick_outcome(),
            exists|random: u8| final(self)@ == old(self)@.ticked(random),
            !draws_random(old(self)@.at_fetch().fetched()) ==> final(self)@ == old(
                self,
            )@.ticked(0),
            old(self).wf() ==> final(self).wf(),
    {
        if self.input.read_keys {
            match self.input.lowest_pressed() {
                Some(key) => {
                    if self.input.key_target >= 16 {
                        assert(self@ == old(self)@.ticked(0));
                        return Err(Fault::RegisterOutOfRange);
                    }
                    self.input.read_keys = false;
                    self.v[self.input.key_target] = key as u8;
                },
                None => {},
            }
        }
        self.delay_timer = if self.delay_timer > 0 {
            self.delay_timer - 1
        } else {
            0
        };
        proof {
            old(self).lemma_view_shaped();
            lemma_at_fetch_wf(old(self)@);
        }
        match self.read_word() {
            Ok(opcode) => {
                let ghost fetching = self@;
                let r = self.run_opcode(opcode);
                proof {
                    let random = choose|random: u8| self@ == fetching.step(opcode, random);
                    assert(self@ == old(self)@.ticked(random));
                }
                r
            },
            Err(fault) => {
                assert(self@ == old(self)@.ticked(0));
                Err(fault)
            },
        }
    }

    /// Executes instruction `opcode`, without fetching it.
    ///
    /// The instruction takes effect and the program counter moves on, as
    /// [`Machine::step`] says, unless the instruction faults: then the fault
    /// is returned and the machine is left as it was. Words outside the
    /// instruction set do nothing but move the program counter on. `Cxkk`
    /// draws a random byte; no other instruction does.
    pub fn run_opcode(&mut self, opcode: u16) -> (r: Result<(), Fault>)
        ensures
            r == old(self)@.outcome(opcode),
            exists|random: u8| final(self)@ == old(self)@.step(opcode, random),
            !draws_random(opcode) ==> final(self)@ == old(self)@.step(opcode, 0),
            old(self).wf() ==> final(self).wf(),
    {
        let random: u8 = if (opcode >> 12) == 0xC {
            random_in_range(0, 256) as u8
        } else {
            0
        };
        assert((opcode >> 12) == opcode / 0x1000) by (bit_vector);
        self.execute(opcode, random)
    }

    /// Executes instruction `opcode`, with `random` as the byte that `Cxkk`
    /// draws.
    ///
    /// The instruction takes effect and the program counter moves on, as
    /// [`Machine::step`] says, unless the instruction faults: then the fault
    /// is returned and the machine is left as it was.
    pub fn execute(&mut self, opcode: u16, random: u8) -> (r: Result<(), Fault>)
        ensures
            r == old(self)@.outcome(opcode),
            final(self)@ == old(self)@.step(opcode, random),
            old(self).wf() ==> final(self).wf(),
    {
        if self.pc > 4094 {
            return Err(Fault::ProgramCounterOutOfRange);
        }
        let Decoded { nibbles, nnn, kk, x, y, n } = decode(opcode);
        proof {
            old(self).lemma_view_shaped();
            lemma_step_wf(old(self)@, opcode, random);
            lemma_rows_drawn_wf(old(self)@.set_v(0xF, 0), x as int, y as int, n as nat);
        }
        let pc_change: Result<ProgramCounter, Fault> = match nibbles {
            (0x00, 0x00, 0x0E, 0x00) => Ok(self.op_00e0()),
            (0x00, 0x00, 0x0E, 0x0E) => self.op_00ee(),
            (0x01, _, _, _) => Ok(self.op_1nnn(nnn)),
            (0x02, _, _, _) => self.op_2nnn(nnn),
            (0x03, _, _, _) => Ok(self.op_3xkk(x, kk)),
            (0x04, _, _, _) => Ok(self.op_4xkk(x, kk)),
            (0x05, _, _, 0x00) => Ok(self.op_5xy0(x, y)),
            (0x06, _, _, _) => Ok(self.op_6xkk(x, kk)),
            (0x07, _, _, _) => Ok(self.op_7xkk(x, kk)),
            (0x08, _, _, 0x00) => Ok(self.op_8xy0(x, y)),
            (0x08, _, _, 0x01) => Ok(self.op_8xy1(x, y)),
            (0x08, _, _, 0x02) => Ok(self.op_8xy2(x, y)),
            (0x08, _, _, 0x03) => Ok(self.op_8xy3(x, y)),
            (0x08, _, _, 0x04) => Ok(self.op_8xy4(x, y)),
            (0x08, _, _, 0x05) => Ok(self.op_8xy5(x, y)),
            (0x08, _, _, 0x06) => Ok(self.op_8x06(x)),
            (0x08, _, _, 0x07) => Ok(self.op_8xy7(x, y)),
            (0x08, _, _, 0x0E) => Ok(self.op_8x0e(x)),
            (0x09, _, _, 0x00) => Ok(self.op_9xy0(x, y)),
            (0x0A, _, _, _) => Ok(self.op_annn(nnn)),
            (0x0B, _, _, _) => Ok(self.op_bnnn(nnn)),
            (0x0C, _, _, _) => Ok(self.op_cxkk(x, kk, random)),
            (0x0D, _, _, _) => self.op_dxyn(x, y, n),
            (0x0E, _, 0x09, 0x0E) => self.op_ex9e(x),
            (0x0E, _, 0x0A, 0x01) => self.op_exa1(x),
            (0x0F, _, 0x00, 0x07) => Ok(self.op_fx07(x)),
            (0x0F, _, 0x00, 0x0A) => Ok(self.op_fx0a(x)),
            (0x0F, _, 0x01, 0x05) => Ok(self.op_fx15(x)),
            (0x0F, _, 0x01, 0x08) => Ok(self.op_fx18(x)),
            (0x0F, _, 0x01, 0x0E) => Ok(self.op_fx1e(x)),
            (0x0F, _, 0x02, 0x09) => Ok(self.op_fx29(x)),
            (0x0F, _, 0x03, 0x03) => self.op_fx33(x),
            (0x0F, _, 0x05, 0x05) => self.op_fx55(x),
            (0x0F, _, 0x06, 0x05) => self.op_fx65(x),
            _ => Ok(ProgramCounter::Next),
        };
        match pc_change {
            Ok(ProgramCounter::Next) => {
                self.pc += OPCODE_SIZE;
                Ok(())
            },
            Ok(ProgramCounter::Skip) => {
                self.pc += OPCODE_SIZE * 2;
                Ok(())
            },
            Ok(ProgramCounter::Jump(p)) => {
                self.pc = p;
                Ok(())
            },
            Err(fault) => Err(fault),
        }
    }

    /// Copies the font to the start of memory.
    fn load_fonts(&mut self)
        ensures
            final(self)@ == old(self)@.with_font(),
    {
        for k in 0..80usize
            invariant
                self@ == (Machine {
                    memory: Seq::new(
                        4096,
                        |a: int|
                            if 0 <= a < k {
                                FONT_SET@[a]
                            } else {
                                old(self)@.memory[a]
                            },
                    ),
                    ..old(self)@
                }),
        {
            self.memory[k] = FONT_SET[k];
        }
    }

    /// `00E0`: clears the screen.
    fn op_00e0(&mut self) -> (pc: ProgramCounter)
        ensures
            final(self)@ == old(self)@.cleared(),
            pc == ProgramCounter::Next,
    {
        self.gfx = [[0; C8_WIDTH]; C8_HEIGHT];
        self.gfx_updated = true;
        assert(self@.gfx =~~= old(self)@.cleared().gfx);
        ProgramCounter::Next
    }

    /// `00EE`: returns from a subroutine, to the address last pushed.
    fn op_00ee(&mut self) -> (r: Result<ProgramCounter, Fault>)
        ensures
            (match r {
                Ok(pc) => {
                    &&& 0 < old(self).sp <= 16
                    &&& final(self)@ == old(self)@.returned()
                    &&& pc == ProgramCounter::Jump(old(self).stack[old(self).sp - 1])
                },
                Err(fault) => {
                    &&& final(self)@ == old(self)@
                    &&& old(self).sp == 0 || old(self).sp > 16
                    &&& fault == if old(self).sp == 0 {
                        Fault::StackUnderflow
                    } else {
                        Fault::StackOverflow
                    }
                },
            }),
    {
        if self.sp == 0 {
            return Err(Fault::StackUnderflow);
        }
        if self.sp > 16 {
            return Err(Fault::StackOverflow);
        }
        self.sp -= 1;
        Ok(ProgramCounter::Jump(self.stack[self.sp]))
    }

    /// `1nnn`: jumps to `nnn`.
    fn op_1nnn(&mut self, nnn: usize) -> (pc: ProgramCounter)
        ensures
            final(self)@ == old(self)@,
            pc == ProgramCounter::Jump(nnn),
    {
        ProgramCounter::Jump(nnn)
    }

    /// `2nnn`: calls the subroutine at `nnn`, pushing the address of the
    /// following instruction.
    fn op_2nnn(&mut self, nnn: usize) -> (r: Result<ProgramCounter, Fault>)
        requires
            old(self).pc <= 4094,
        ensures
            (match r {
                Ok(pc) => {
                    &&& old(self).sp < 16
                    &&& final(self)@ == old(self)@.called()
                    &&& pc == ProgramCounter::Jump(nnn)
                },
                Err(fault) => {
                    &&& final(self)@ == old(self)@
                    &&& old(self).sp >= 16
                    &&& fault == Fault::StackOverflow
                },
            }),
    {
        if self.sp >= 16 {
            return Err(Fault::StackOverflow);
        }
        self.stack[self.sp] = self.pc + OPCODE_SIZE;
        self.sp += 1;
        Ok(ProgramCounter::Jump(nnn))
    }

    /// `3xkk`: skips if `v[x]` equals `kk`.
    fn op_3xkk(&mut self, x: usize, kk: u8) -> (pc: ProgramCounter)
        requires
            x < 16,
        ensures
            final(self)@ == old(self)@,
            pc == (if old(self).v[x as int] == kk {
                ProgramCounter::Skip
            } else {
                ProgramCounter::Next
            }),
    {
        if self.v[x] == kk {
            return ProgramCounter::Skip;
        }
        ProgramCounter::Next
    }

    /// `4xkk`: skips if `v[x]` differs from `kk`.
    fn op_4xkk(&mut self, x: usize, kk: u8) -> (pc: ProgramCounter)
        requires
            x < 16,
        ensures
            final(self)@ == old(self)@,
            pc == (if old(self).v[x as int] != kk {
                ProgramCounter::Skip
            } else {
                ProgramCounter::Next
            }),
    {
        if self.v[x] != kk {
            return ProgramCounter::Skip;
        }
        ProgramCounter::Next
    }

    /// `5xy0`: skips if `v[x]` equals `v[y]`.
    fn op_5xy0(&mut self, x: usize, y: usize) -> (pc: ProgramCounter)
        requires
            x < 16,
            y < 16,
        ensures
            final(self)@ == old(self)@,
            pc == (if old(self).v[x as int] == old(self).v[y as int] {
                ProgramCounter::Skip
            } else {
                ProgramCounter::Next
            }),
    {
        if self.v[x] == self.v[y] {
            return ProgramCounter::Skip;
        }
        ProgramCounter::Next
    }

    /// `6xkk`: `v[x]` becomes `kk`.
    fn op_6xkk(&mut self, x: usize, kk: u8) -> (pc: ProgramCounter)
        requires
            x < 16,
        ensures
            final(self)@ == old(self)@.set_v(x as int, kk),
            pc == ProgramCounter::Next,
    {
        self.v[x] = kk;
        ProgramCounter::Next
    }

    /// `7xkk`: adds `kk` to `v[x]`, modulo 256. The flag is left alone.
    fn op_7xkk(&mut self, x: usize, kk: u8) -> (pc: ProgramCounter)
        requires
            x < 16,
        ensures
            final(self)@ == old(self)@.set_v(
                x as int,
                ((old(self).v[x as int] + kk) % 256) as u8,
            ),
            pc == ProgramCounter::Next,
    {
        let vx = self.v[x];
        self.v[x] = vx.wrapping_add(kk);
        ProgramCounter::Next
    }

    /// `8xy0`: `v[x]` becomes `v[y]`.
    fn op_8xy0(&mut self, x: usize, y: usize) -> (pc: ProgramCounter)
        requires
            x < 16,
            y < 16,
        ensures
            final(self)@ == old(self)@.set_v(x as int, old(self).v[y as int]),
            pc == ProgramCounter::Next,
    {
        self.v[x] = self.v[y];
        ProgramCounter::Next
    }

    /// `8xy1`: `v[x]` becomes `v[x]` or `v[y]`, bit by bit.
    fn op_8xy1(&mut self, x: usize, y: usize) -> (pc: ProgramCounter)
        requires
            x < 16,
            y < 16,
        ensures
            final(self)@ == old(self)@.set_v(
                x as int,
                old(self).v[x as int] | old(self).v[y as int],
            ),
            pc == ProgramCounter::Next,
    {
        self.v[x] |= self.v[y];
        ProgramCounter::Next
    }

    /// `8xy2`: `v[x]` becomes `v[x]` and `v[y]`, bit by bit.
    fn op_8xy2(&mut self, x: usize, y: usize) -> (pc: ProgramCounter)
        requires
            x < 16,
            y < 16,
        ensures
            final(self)@ == old(self)@.set_v(
                x as int,
                old(self).v[x as int] & old(self).v[y as int],
            ),
            pc == ProgramCounter::Next,
    {
        self.v[x] &= self.v[y];
        ProgramCounter::Next
    }

    /// `8xy3`: `v[x]` becomes `v[x]` exclusive-or `v[y]`, bit by bit.
    fn op_8xy3(&mut self, x: usize, y: usize) -> (pc: ProgramCounter)
        requires
            x < 16,
            y < 16,
        ensures
            final(self)@ == old(self)@.set_v(
                x as int,
                old(self).v[x as int] ^ old(self).v[y as int],
            ),
            pc == ProgramCounter::Next,
    {
        self.v[x] ^= self.v[y];
        ProgramCounter::Next
    }

    /// `8xy4`: adds `v[y]` to `v[x]`, modulo 256, and sets the flag to the
    /// carry.
    fn op_8xy4(&mut self, x: usize, y: usize) -> (pc: ProgramCounter)
        requires
            x < 16,
            y < 16,
        ensures
            final(self)@ == old(self)@.sum(x as int, y as int),
            pc == ProgramCounter::Next,
    {
        let vx = self.v[x];
        let vy = self.v[y];
        self.v[x] = vx.wrapping_add(vy);
        if vx > 255 - vy {
            self.v[0xf] = 1;
        } else {
            self.v[0xf] = 0;
        }
        ProgramCounter::Next
    }

    /// `8xy5`: subtracts `v[y]` from `v[x]`, modulo 256, and clears the flag
    /// if that borrowed, setting it if not.
    fn op_8xy5(&mut self, x: usize, y: usize) -> (pc: ProgramCounter)
        requires
            x < 16,
            y < 16,
        ensures
            final(self)@ == old(self)@.difference(x as int, y as int),
            pc == ProgramCounter::Next,
    {
        let vx = self.v[x];
        let vy = self.v[y];
        self.v[x] = vx.wrapping_sub(vy);
        if vx < vy {
            self.v[0xf] = 0;
        } else {
            self.v[0xf] = 1;
        }
        ProgramCounter::Next
    }

    /// `8xy6`: sets the flag to the lowest bit of `v[x]`, then shifts `v[x]`
    /// right by one.
    fn op_8x06(&mut self, x: usize) -> (pc: ProgramCounter)
        requires
            x < 16,
        ensures
            final(self)@ == old(self)@.halved(x as int),
            pc == ProgramCounter::Next,
    {
        let vx = self.v[x];
        assert(vx & 0b01 == vx % 2) by (bit_vector);
        self.v[0x0F] = vx & 0b01;
        let flagged = self.v[x];
        assert(flagged >> 1 == flagged / 2) by (bit_vector);
        self.v[x] = flagged >> 1;
        ProgramCounter::Next
    }

    /// `8xy7`: sets the flag if `v[y]` exceeds `v[x]`, clearing it if not,
    /// then `v[x]` becomes `v[y] - v[x]`, modulo 256.
    fn op_8xy7(&mut self, x: usize, y: usize) -> (pc: ProgramCounter)
        requires
            x < 16,
            y < 16,
        ensures
            final(self)@ == old(self)@.reverse_difference(x as int, y as int),
            pc == ProgramCounter::Next,
    {
        self.v[0x0F] = if self.v[y] > self.v[x] {
            1
        } else {
            0
        };
        self.v[x] = self.v[y].wrapping_sub(self.v[x]);
        ProgramCounter::Next
    }

    /// `8xyE`: sets the flag to the highest bit of `v[x]`, then shifts `v[x]`
    /// left by one.
    fn op_8x0e(&mut self, x: usize) -> (pc: ProgramCounter)
        requires
            x < 16,
        ensures
            final(self)@ == old(self)@.doubled(x as int),
            pc == ProgramCounter::Next,
    {
        let vx = self.v[x];
        assert((vx & 0b1000_0000) >> 7 == vx / 128) by (bit_vector);
        self.v[0x0F] = (vx & 0b1000_0000) >> 7;
        let flagged = self.v[x];
        assert(flagged << 1 == (flagged * 2) % 256) by (bit_vector);
        self.v[x] = flagged << 1;
        ProgramCounter::Next
    }

    /// `9xy0`: skips if `v[x]` differs from `v[y]`.
    fn op_9xy0(&mut self, x: usize, y: usize) -> (pc: ProgramCounter)
        requires
            x < 16,
            y < 16,
        ensures
            final(self)@ == old(self)@,
            pc == (if old(self).v[x as int] != old(self).v[y as int] {
                ProgramCounter::Skip
            } else {
                ProgramCounter::Next
            }),
    {
        if self.v[x] != self.v[y] {
            return ProgramCounter::Skip;
        }
        ProgramCounter::Next
    }

    /// `Annn`: the index register becomes `nnn`.
    fn op_annn(&mut self, nnn: usize) -> (pc: ProgramCounter)
        ensures
            final(self)@ == old(self)@.set_i(nnn as int),
            pc == ProgramCounter::Next,
    {
        self.i = nnn;
        ProgramCounter::Next
    }

    /// `Bnnn`: jumps to `nnn` plus `v[0]`.
    fn op_bnnn(&mut self, nnn: usize) -> (pc: ProgramCounter)
        requires
            nnn < 4096,
        ensures
            final(self)@ == old(self)@,
            pc == ProgramCounter::Jump((nnn + old(self).v[0]) as usize),
    {
        ProgramCounter::Jump(nnn + self.v[0] as usize)
    }

    /// `Cxkk`: `v[x]` becomes `kk` plus the random byte, modulo 256.
    fn op_cxkk(&mut self, x: usize, kk: u8, random: u8) -> (pc: ProgramCounter)
        requires
            x < 16,
        ensures
            final(self)@ == old(self)@.set_v(x as int, ((kk + random) % 256) as u8),
            pc == ProgramCounter::Next,
    {
        self.v[x] = kk.wrapping_add(random);
        ProgramCounter::Next
    }

    /// `Dxyn`: draws the `n`-row sprite at `i` at column `v[x]`, row `v[y]`,
    /// by exclusive or, wrapping at the screen's edges, and sets the flag if
    /// a lit pixel went off, clearing it if none did.
    fn op_dxyn(&mut self, x: usize, y: usize, n: usize) -> (r: Result<ProgramCounter, Fault>)
        requires
            x < 16,
            y < 16,
            n < 16,
        ensures
            (match r {
                Ok(pc) => {
                    &&& n == 0 || old(self).i + n <= 4096
                    &&& final(self)@ == old(self)@.drawn(x as int, y as int, n as int)
                    &&& pc == ProgramCounter::Next
                },
                Err(fault) => {
                    &&& final(self)@ == old(self)@
                    &&& n > 0 && old(self).i + n > 4096
                    &&& fault == Fault::MemoryOutOfRange
                },
            }),
    {
        if n > 0 && self.i > 4096 - n {
            return Err(Fault::MemoryOutOfRange);
        }
        self.v[0x0F] = 0;
        let ghost start = self@;
        for byte in 0..n
            invariant
                x < 16,
                y < 16,
                n == 0 || self.i + n <= 4096,
                self@ == start.rows_drawn(x as int, y as int, byte as nat),
        {
            let r = (self.v[y] as usize + byte) % C8_HEIGHT;
            let ghost above = self@;
            for bit in 0..8u8
                invariant
                    x < 16,
                    r < 32,
                    byte < n,
                    self.i + n <= 4096,
                    self@ == above.row_drawn(x as int, r as int, byte as int, bit as nat),
            {
                let c = (self.v[x] as usize + bit as usize) % C8_WIDTH;
                let color = (self.memory[self.i + byte] >> (7 - bit)) & 1;
                self.v[0x0F] |= color & self.gfx[r][c];
                self.gfx[r][c] ^= color;
            }
        }
        self.gfx_updated = true;
        Ok(ProgramCounter::Next)
    }

    /// `Ex9E`: skips if the key that `v[x]` names is down.
    fn op_ex9e(&mut self, x: usize) -> (r: Result<ProgramCounter, Fault>)
        requires
            x < 16,
        ensures
            final(self)@ == old(self)@,
            (match r {
                Ok(pc) => {
                    &&& old(self).v[x as int] < 16
                    &&& pc == if old(self).input.keys[old(self).v[x as int] as int] {
                        ProgramCounter::Skip
                    } else {
                        ProgramCounter::Next
                    }
                },
                Err(fault) => old(self).v[x as int] >= 16 && fault == Fault::KeyOutOfRange,
            }),
    {
        let key = self.v[x] as usize;
        if key >= 16 {
            return Err(Fault::KeyOutOfRange);
        }
        if self.input.keys[key] {
            return Ok(ProgramCounter::Skip);
        }
        Ok(ProgramCounter::Next)
    }

    /// `ExA1`: skips if the key that `v[x]` names is up.
    fn op_exa1(&mut self, x: usize) -> (r: Result<ProgramCounter, Fault>)
        requires
            x < 16,
        ensures
            final(self)@ == old(self)@,
            (match r {
                Ok(pc) => {
                    &&& old(self).v[x as int] < 16
                    &&& pc == if !old(self).input.keys[old(self).v[x as int] as int] {
                        ProgramCounter::Skip
                    } else {
                        ProgramCounter::Next
                    }
                },
                Err(fault) => old(self).v[x as int] >= 16 && fault == Fault::KeyOutOfRange,
            }),
    {
        let key = self.v[x] as usize;
        if key >= 16 {
            return Err(Fault::KeyOutOfRange);
        }
        if !self.input.keys[key] {
            return Ok(ProgramCounter::Skip);
        }
        Ok(ProgramCounter::Next)
    }

    /// `Fx07`: `v[x]` becomes the delay timer.
    fn op_fx07(&mut self, x: usize) -> (pc: ProgramCounter)
        requires
            x < 16,
        ensures
            final(self)@ == old(self)@.set_v(x as int, old(self).delay_timer),
            pc == ProgramCounter::Next,
    {
        self.v[x] = self.delay_timer;
        ProgramCounter::Next
    }

    /// `Fx0A`: asks for a key. The next key found down by `tick` goes to
    /// `v[x]`; instructions go on running meanwhile.
    fn op_fx0a(&mut self, x: usize) -> (pc: ProgramCounter)
        ensures
            final(self)@ == old(self)@.awaiting_key(x as int),
            pc == ProgramCounter::Next,
    {
        self.input.read_keys = true;
        self.input.key_target = x;
        ProgramCounter::Next
    }

    /// `Fx15`: the delay timer becomes `v[x]`.
    fn op_fx15(&mut self, x: usize) -> (pc: ProgramCounter)
        requires
            x < 16,
        ensures
            final(self)@ == (Machine { delay_timer: old(self).v[x as int], ..old(self)@ }),
            pc == ProgramCounter::Next,
    {
        self.delay_timer = self.v[x];
        ProgramCounter::Next
    }

    /// `Fx18`: the sound timer becomes `v[x]`.
    fn op_fx18(&mut self, x: usize) -> (pc: ProgramCounter)
        requires
            x < 16,
        ensures
            final(self)@ == (Machine { sound_timer: old(self).v[x as int], ..old(self)@ }),
            pc == ProgramCounter::Next,
    {
        self.sound_timer = self.v[x];
        ProgramCounter::Next
    }

    /// `Fx1E`: adds `v[x]` to the index register, which wraps at the end of
    /// memory.
    fn op_fx1e(&mut self, x: usize) -> (pc: ProgramCounter)
        requires
            x < 16,
        ensures
            final(self)@ == old(self)@.set_i((old(self).i + old(self).v[x as int]) % 4096),
            pc == ProgramCounter::Next,
    {
        self.i = (self.i % 4096 + self.v[x] as usize) % 4096;
        ProgramCounter::Next
    }

    /// `Fx29`: the index register becomes the address of the glyph of the
    /// digit in `v[x]`.
    fn op_fx29(&mut self, x: usize) -> (pc: ProgramCounter)
        requires
            x < 16,
        ensures
            final(self)@ == old(self)@.set_i(old(self).v[x as int] * 5),
            pc == ProgramCounter::Next,
    {
        self.i = (self.v[x] as usize) * GLYPH_SIZE;
        ProgramCounter::Next
    }

    /// `Fx33`: stores the three decimal digits of `v[x]` at `i`, `i + 1` and
    /// `i + 2`, hundreds first.
    fn op_fx33(&mut self, x: usize) -> (r: Result<ProgramCounter, Fault>)
        requires
            x < 16,
        ensures
            (match r {
                Ok(pc) => {
                    &&& old(self).i + 2 < 4096
                    &&& final(self)@ == old(self)@.bcd_stored(x as int)
                    &&& pc == ProgramCounter::Next
                },
                Err(fault) => {
                    &&& final(self)@ == old(self)@
                    &&& old(self).i + 2 >= 4096
                    &&& fault == Fault::MemoryOutOfRange
                },
            }),
    {
        if self.i > 4093 {
            return Err(Fault::MemoryOutOfRange);
        }
        let value = self.v[x];
        self.memory[self.i] = self.get_digit(value, 3);
        self.memory[self.i + 1] = self.get_digit(value, 2);
        self.memory[self.i + 2] = self.get_digit(value, 1);
        Ok(ProgramCounter::Next)
    }

    /// `Fx55`: stores `v[0]` to `v[x]` in memory from `i` on.
    fn op_fx55(&mut self, x: usize) -> (r: Result<ProgramCounter, Fault>)
        requires
            x < 16,
        ensures
            (match r {
                Ok(pc) => {
                    &&& old(self).i + x < 4096
                    &&& final(self)@ == old(self)@.registers_stored(x as int)
                    &&& pc == ProgramCounter::Next
                },
                Err(fault) => {
                    &&& final(self)@ == old(self)@
                    &&& old(self).i + x >= 4096
                    &&& fault == Fault::MemoryOutOfRange
                },
            }),
    {
        if self.i > 4095 - x {
            return Err(Fault::MemoryOutOfRange);
        }
        for l in 0..x + 1
            invariant
                x < 16,
                self.i + x < 4096,
                self@ == (Machine {
                    memory: Seq::new(
                        4096,
                        |a: int|
                            if self.i <= a < self.i + l {
                                old(self).v[a - self.i]
                            } else {
                                old(self).memory[a]
                            },
                    ),
                    ..old(self)@
                }),
        {
            self.memory[self.i + l] = self.v[l];
        }
        Ok(ProgramCounter::Next)
    }

    /// `Fx65`: fills `v[0]` to `v[x]` from memory from `i` on.
    fn op_fx65(&mut self, x: usize) -> (r: Result<ProgramCounter, Fault>)
        requires
            x < 16,
        ensures
            (match r {
                Ok(pc) => {
                    &&& old(self).i + x < 4096
                    &&& final(self)@ == old(self)@.registers_loaded(x as int)
                    &&& pc == ProgramCounter::Next
                },
                Err(fault) => {
                    &&& final(self)@ == old(self)@
                    &&& old(self).i + x >= 4096
                    &&& fault == Fault::MemoryOutOfRange
                },
            }),
    {
        if self.i > 4095 - x {
            return Err(Fault::MemoryOutOfRange);
        }
        for l in 0..x + 1
            invariant
                x < 16,
                self.i + x < 4096,
                self@ == (Machine {
                    v: Seq::new(
                        16,
                        |k: int|
                            if k < l {
                                old(self).memory[self.i + k]
                            } else {
                                old(self).v[k]
                            },
                    ),
                    ..old(self)@
                }),
        {
            self.v[l] = self.memory[self.i + l];
        }
        Ok(ProgramCounter::Next)
    }

    /// The digit of `number` at decimal place `digit`, counted from 1 at the
    /// ones; 0 where `number` has no such digit.
    pub fn get_digit(&self, number: u8, digit: usize) -> (d: u8)
        requires
            digit >= 1,
        ensures
            d == decimal_digit(number as int, digit as int),
    {
        proof {
            lemma_decimal_digits(number as int, digit as int);
        }
        if digit == 1 {
            number % 10
        } else if digit == 2 {
            (number / 10) % 10
        } else if digit == 3 {
            number / 100
        } else {
            0
        }
    }
}

impl Default for Cpu {
    fn default() -> (cpu: Cpu)
        ensures
            cpu@ == Machine::power_on(),
            cpu.wf(),
    {
        Cpu::new()
    }
}

} // verus!
