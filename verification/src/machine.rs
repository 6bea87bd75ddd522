//! The machine as a mathematical value, and what each instruction does to it.
//!
//! [`Machine`] is what a [`Cpu`](crate::Cpu) stands for: its view. The
//! functions here say, for every state and every instruction word, which
//! state comes next. The executable code in [`cpu`](crate::cpu) is proved to
//! compute exactly these functions.

use crate::decode::{family, kk_of, lemma_encode_decode, n_of, nibbles, nnn_of, x_of, y_of};
use crate::fault::Fault;
use crate::fonts::FONT_SET;
use vstd::arithmetic::div_mod::lemma_basic_div;
use vstd::arithmetic::power::{lemma_pow_increases, pow};
use vstd::prelude::*;

verus! {

/// The digit of `number` at decimal place `place`, counted from 1 at the
/// ones. Places beyond the highest digit hold 0.
pub open spec fn decimal_digit(number: int, place: int) -> int {
    (number / pow(10, (place - 1) as nat)) % 10
}

/// The decimal digits of a byte: its ones, tens and hundreds, and nothing
/// beyond.
pub proof fn lemma_decimal_digits(number: int, place: int)
    requires
        0 <= number < 256,
        1 <= place,
    ensures
        place == 1 ==> decimal_digit(number, place) == number % 10,
        place == 2 ==> decimal_digit(number, place) == (number / 10) % 10,
        place == 3 ==> decimal_digit(number, place) == number / 100,
        place > 3 ==> decimal_digit(number, place) == 0,
        0 <= decimal_digit(number, place) < 10,
{
    reveal_with_fuel(pow, 4);
    assert(pow(10, 0) == 1);
    assert(pow(10, 1) == 10);
    assert(pow(10, 2) == 100);
    assert(pow(10, 3) == 1000);
    if place > 3 {
        lemma_pow_increases(10, 3, (place - 1) as nat);
        lemma_basic_div(number, pow(10, (place - 1) as nat));
    }
}

/// The pixel of a sprite row at column `bit`, 0 being the leftmost column
/// and the most significant bit.
pub open spec fn sprite_bit(row: u8, bit: int) -> u8 {
    (row >> ((7 - bit) as u8)) & 1
}

/// The number of the lowest pressed key, if any key is pressed.
pub open spec fn lowest_pressed(keys: Seq<bool>) -> Option<int> {
    if exists|k: int| 0 <= k < keys.len() && keys[k] {
        Some(
            choose|k: int|
                0 <= k < keys.len() && keys[k] && forall|j: int| 0 <= j < k ==> !keys[j],
        )
    } else {
        None
    }
}

/// The lowest pressed key is the pressed key below which none is pressed.
pub proof fn lemma_lowest_pressed(keys: Seq<bool>, key: int)
    requires
        0 <= key < keys.len(),
        keys[key],
        forall|j: int| 0 <= j < key ==> !keys[j],
    ensures
        lowest_pressed(keys) == Some(key),
{
    let lowest = choose|k: int|
        0 <= k < keys.len() && keys[k] && forall|j: int| 0 <= j < k ==> !keys[j];
    if lowest < key {
        assert(!keys[lowest]);
    }
    if key < lowest {
        assert(!keys[key]);
    }
}

/// Whether instruction `opcode` draws a random byte: `Cxkk` does.
pub open spec fn draws_random(opcode: u16) -> bool {
    family(opcode) == 0xC
}

/// The state of a machine.
#[verifier::ext_equal]
pub struct Machine {
    /// The 4096 bytes of memory.
    pub memory: Seq<u8>,
    /// The sixteen general registers; `v[0xF]` doubles as the flag.
    pub v: Seq<u8>,
    /// The index register.
    pub i: int,
    /// The address of the next instruction.
    pub pc: int,
    /// The framebuffer: 32 rows of 64 pixels.
    pub gfx: Seq<Seq<u8>>,
    /// Whether the framebuffer was written since the flag was last cleared.
    pub gfx_updated: bool,
    /// The delay timer.
    pub delay_timer: u8,
    /// The sound timer.
    pub sound_timer: u8,
    /// The sixteen slots of the call stack.
    pub stack: Seq<int>,
    /// The next free slot of the call stack.
    pub sp: int,
    /// Which of the sixteen keys are down.
    pub keys: Seq<bool>,
    /// Whether a key read is pending.
    pub read_keys: bool,
    /// The register that a pending key read fills.
    pub key_target: int,
}

impl Machine {
    /// The sizes and signs that every machine state has.
    pub open spec fn shaped(self) -> bool {
        &&& self.memory.len() == 4096
        &&& self.v.len() == 16
        &&& self.gfx.len() == 32
        &&& forall|r: int| 0 <= r < 32 ==> (#[trigger] self.gfx[r]).len() == 64
        &&& self.stack.len() == 16
        &&& self.keys.len() == 16
        &&& 0 <= self.i
        &&& 0 <= self.pc
        &&& 0 <= self.sp
        &&& 0 <= self.key_target
        &&& forall|k: int| 0 <= k < 16 ==> 0 <= #[trigger] self.stack[k]
    }

    /// The invariant of the machine: the stack pointer stays within the
    /// stack, the index register within memory, the target of a key read
    /// is a register, and every pixel is 0 or 1.
    pub open spec fn wf(self) -> bool {
        &&& self.shaped()
        &&& self.sp <= 16
        &&& self.i < 4096
        &&& self.key_target < 16
        &&& forall|r: int, c: int|
            0 <= r < 32 && 0 <= c < 64 ==> #[trigger] self.gfx[r][c] <= 1
    }

    /// This state with the font at the start of memory.
    pub open spec fn with_font(self) -> Machine {
        Machine {
            memory: Seq::new(
                4096,
                |a: int|
                    if 0 <= a < 80 {
                        FONT_SET@[a]
                    } else {
                        self.memory[a]
                    },
            ),
            ..self
        }
    }

    /// The state of a machine as it is switched on: the font in memory, the
    /// program counter at 0x200, and everything else zero.
    pub open spec fn power_on() -> Machine {
        Machine {
            memory: Seq::new(
                4096,
                |a: int|
                    if 0 <= a < 80 {
                        FONT_SET@[a]
                    } else {
                        0u8
                    },
            ),
            v: Seq::new(16, |k: int| 0u8),
            i: 0,
            pc: 0x200,
            gfx: Seq::new(32, |r: int| Seq::new(64, |c: int| 0u8)),
            gfx_updated: false,
            delay_timer: 0,
            sound_timer: 0,
            stack: Seq::new(16, |k: int| 0int),
            sp: 0,
            keys: Seq::new(16, |k: int| false),
            read_keys: false,
            key_target: 0,
        }
    }

    /// This state with register `x` holding `value`.
    pub open spec fn set_v(self, x: int, value: u8) -> Machine {
        Machine { v: self.v.update(x, value), ..self }
    }

    /// This state with the index register holding `i`.
    pub open spec fn set_i(self, i: int) -> Machine {
        Machine { i, ..self }
    }

    /// This state with pixel (`r`, `c`) holding `value`.
    pub open spec fn set_pixel(self, r: int, c: int, value: u8) -> Machine {
        Machine { gfx: self.gfx.update(r, self.gfx[r].update(c, value)), ..self }
    }

    /// `00E0`: every pixel off, and the framebuffer marked as written.
    pub open spec fn cleared(self) -> Machine {
        Machine {
            gfx: Seq::new(32, |r: int| Seq::new(64, |c: int| 0u8)),
            gfx_updated: true,
            ..self
        }
    }

    /// `00EE`: the top slot of the stack is freed.
    pub open spec fn returned(self) -> Machine {
        Machine { sp: self.sp - 1, ..self }
    }

    /// `2nnn`: the address of the following instruction is pushed.
    pub open spec fn called(self) -> Machine {
        Machine { stack: self.stack.update(self.sp, self.pc + 2), sp: self.sp + 1, ..self }
    }

    /// `8xy4`: `v[x]` becomes the sum of `v[x]` and `v[y]` modulo 256, then
    /// `v[0xF]` becomes 1 if the sum exceeded 255 and 0 if not.
    pub open spec fn sum(self, x: int, y: int) -> Machine {
        let total = self.v[x] + self.v[y];
        self.set_v(x, (total % 256) as u8).set_v(
            0xF,
            if total > 255 {
                1
            } else {
                0
            },
        )
    }

    /// `8xy5`: `v[x]` becomes `v[x] - v[y]` modulo 256, then `v[0xF]` becomes
    /// 0 if the subtraction borrowed and 1 if not.
    pub open spec fn difference(self, x: int, y: int) -> Machine {
        let vx = self.v[x];
        let vy = self.v[y];
        self.set_v(x, ((vx - vy) % 256) as u8).set_v(
            0xF,
            if vx < vy {
                0
            } else {
                1
            },
        )
    }

    /// `8xy6`: `v[0xF]` becomes the lowest bit of `v[x]`, then `v[x]` is
    /// halved.
    pub open spec fn halved(self, x: int) -> Machine {
        let flagged = self.set_v(0xF, (self.v[x] % 2) as u8);
        flagged.set_v(x, (flagged.v[x] / 2) as u8)
    }

    /// `8xy7`: `v[0xF]` becomes 1 if `v[y]` exceeds `v[x]` and 0 if not, then
    /// `v[x]` becomes `v[y] - v[x]` modulo 256.
    pub open spec fn reverse_difference(self, x: int, y: int) -> Machine {
        let flagged = self.set_v(
            0xF,
            if self.v[y] > self.v[x] {
                1
            } else {
                0
            },
        );
        flagged.set_v(x, ((flagged.v[y] - flagged.v[x]) % 256) as u8)
    }

    /// `8xyE`: `v[0xF]` becomes the highest bit of `v[x]`, then `v[x]` is
    /// doubled modulo 256.
    pub open spec fn doubled(self, x: int) -> Machine {
        let flagged = self.set_v(0xF, (self.v[x] / 128) as u8);
        flagged.set_v(x, ((flagged.v[x] * 2) % 256) as u8)
    }

    /// One pixel of a sprite is drawn: the pixel in row `row`, column `bit`
    /// of the sprite at `i` is combined by exclusive or into the framebuffer
    /// in row `r`, at column `v[x] + bit` wrapped to the screen, and `v[0xF]`
    /// picks up whether that turned a lit pixel off.
    pub open spec fn plotted(self, x: int, r: int, row: int, bit: int) -> Machine {
        let c = (self.v[x] + bit) % 64;
        let color = sprite_bit(self.memory[self.i + row], bit);
        let before = self.gfx[r][c];
        self.set_v(0xF, self.v[0xF] | (color & before)).set_pixel(r, c, before ^ color)
    }

    /// The first `count` pixels of row `row` of a sprite are drawn, from the
    /// left, into row `r` of the framebuffer.
    pub open spec fn row_drawn(self, x: int, r: int, row: int, count: nat) -> Machine
        decreases count,
    {
        if count == 0 {
            self
        } else {
            self.row_drawn(x, r, row, (count - 1) as nat).plotted(x, r, row, count - 1)
        }
    }

    /// The first `rows` rows of a sprite are drawn, from the top. Row `row`
    /// goes to row `v[y] + row` of the framebuffer, wrapped to the screen.
    pub open spec fn rows_drawn(self, x: int, y: int, rows: nat) -> Machine
        decreases rows,
    {
        if rows == 0 {
            self
        } else {
            let above = self.rows_drawn(x, y, (rows - 1) as nat);
            above.row_drawn(x, (above.v[y] + rows - 1) % 32, rows - 1, 8)
        }
    }

    /// `Dxyn`: `v[0xF]` is reset, the `n` rows of the sprite at `i` are
    /// drawn, and the framebuffer is marked as written.
    ///
    /// The registers are read as the drawing goes: `v[y]` at the start of
    /// each row and `v[x]` at each pixel. That matters only where `x` or `y`
    /// is `0xF`, the flag that the drawing itself writes. For every other
    /// `x` and `y`, [`lemma_drawn`](crate::sprite::lemma_drawn) says what
    /// each pixel and the flag become.
    pub open spec fn drawn(self, x: int, y: int, n: int) -> Machine {
        Machine { gfx_updated: true, ..self.set_v(0xF, 0).rows_drawn(x, y, n as nat) }
    }

    /// `Fx0A`: a key read into register `x` becomes pending.
    pub open spec fn awaiting_key(self, x: int) -> Machine {
        Machine { read_keys: true, key_target: x, ..self }
    }

    /// `Fx33`: the hundreds, tens and ones of `v[x]` are stored at `i`,
    /// `i + 1` and `i + 2`.
    pub open spec fn bcd_stored(self, x: int) -> Machine {
        let value = self.v[x] as int;
        Machine {
            memory: self.memory.update(self.i, decimal_digit(value, 3) as u8).update(
                self.i + 1,
                decimal_digit(value, 2) as u8,
            ).update(self.i + 2, decimal_digit(value, 1) as u8),
            ..self
        }
    }

    /// `Fx55`: registers `v[0]` to `v[x]` are stored from `i` on.
    pub open spec fn registers_stored(self, x: int) -> Machine {
        Machine {
            memory: Seq::new(
                4096,
                |a: int|
                    if self.i <= a <= self.i + x {
                        self.v[a - self.i]
                    } else {
                        self.memory[a]
                    },
            ),
            ..self
        }
    }

    /// `Fx65`: registers `v[0]` to `v[x]` are filled from `i` on.
    pub open spec fn registers_loaded(self, x: int) -> Machine {
        Machine {
            v: Seq::new(
                16,
                |k: int|
                    if k <= x {
                        self.memory[self.i + k]
                    } else {
                        self.v[k]
                    },
            ),
            ..self
        }
    }

    /// What instruction `opcode` does to everything but the program counter.
    /// `random` is the byte that `Cxkk` adds to its literal; no other
    /// instruction reads it. Words outside the instruction set do nothing.
    pub open spec fn effect(self, opcode: u16, random: u8) -> Machine {
        let x = x_of(opcode);
        let y = y_of(opcode);
        let n = n_of(opcode);
        let kk = kk_of(opcode) as u8;
        let nnn = nnn_of(opcode);
        match nibbles(opcode) {
            (0x0, 0x0, 0xE, 0x0) => self.cleared(),
            (0x0, 0x0, 0xE, 0xE) => self.returned(),
            (0x2, _, _, _) => self.called(),
            (0x6, _, _, _) => self.set_v(x, kk),
            (0x7, _, _, _) => self.set_v(x, ((self.v[x] + kk) % 256) as u8),
            (0x8, _, _, 0x0) => self.set_v(x, self.v[y]),
            (0x8, _, _, 0x1) => self.set_v(x, self.v[x] | self.v[y]),
            (0x8, _, _, 0x2) => self.set_v(x, self.v[x] & self.v[y]),
            (0x8, _, _, 0x3) => self.set_v(x, self.v[x] ^ self.v[y]),
            (0x8, _, _, 0x4) => self.sum(x, y),
            (0x8, _, _, 0x5) => self.difference(x, y),
            (0x8, _, _, 0x6) => self.halved(x),
            (0x8, _, _, 0x7) => self.reverse_difference(x, y),
            (0x8, _, _, 0xE) => self.doubled(x),
            (0xA, _, _, _) => self.set_i(nnn),
            (0xC, _, _, _) => self.set_v(x, ((kk + random) % 256) as u8),
            (0xD, _, _, _) => self.drawn(x, y, n),
            (0xF, _, 0x0, 0x7) => self.set_v(x, self.delay_timer),
            (0xF, _, 0x0, 0xA) => self.awaiting_key(x),
            (0xF, _, 0x1, 0x5) => Machine { delay_timer: self.v[x], ..self },
            (0xF, _, 0x1, 0x8) => Machine { sound_timer: self.v[x], ..self },
            (0xF, _, 0x1, 0xE) => self.set_i((self.i + self.v[x]) % 4096),
            (0xF, _, 0x2, 0x9) => self.set_i(self.v[x] * 5),
            (0xF, _, 0x3, 0x3) => self.bcd_stored(x),
            (0xF, _, 0x5, 0x5) => self.registers_stored(x),
            (0xF, _, 0x6, 0x5) => self.registers_loaded(x),
            _ => self,
        }
    }

    /// Where the program counter points after instruction `opcode`: two
    /// bytes on, four bytes on for a skip that is taken, or at the target of
    /// a jump, call or return.
    pub open spec fn next_pc(self, opcode: u16) -> int {
        let x = x_of(opcode);
        let y = y_of(opcode);
        let n = n_of(opcode);
        let kk = kk_of(opcode);
        let nnn = nnn_of(opcode);
        let next = self.pc + 2;
        let skip = self.pc + 4;
        match nibbles(opcode) {
            (0x0, 0x0, 0xE, 0xE) => self.stack[self.sp - 1],
            (0x1, _, _, _) => nnn,
            (0x2, _, _, _) => nnn,
            (0x3, _, _, _) => if self.v[x] == kk {
                skip
            } else {
                next
            },
            (0x4, _, _, _) => if self.v[x] != kk {
                skip
            } else {
                next
            },
            (0x5, _, _, 0x0) => if self.v[x] == self.v[y] {
                skip
            } else {
                next
            },
            (0x9, _, _, 0x0) => if self.v[x] != self.v[y] {
                skip
            } else {
                next
            },
            (0xB, _, _, _) => nnn + self.v[0],
            (0xE, _, 0x9, 0xE) => if self.keys[self.v[x] as int] {
                skip
            } else {
                next
            },
            (0xE, _, 0xA, 0x1) => if !self.keys[self.v[x] as int] {
                skip
            } else {
                next
            },
            _ => next,
        }
    }

    /// The fault that instruction `opcode` raises in this state, if any.
    ///
    /// No instruction runs with the program counter beyond the last place
    /// from which an instruction can be fetched. A return needs a pending
    /// call, a call a free slot. Instructions that reach memory through the
    /// index register need every byte they touch to exist, and those that
    /// test a key need `v[x]` to name one.
    pub open spec fn fault(self, opcode: u16) -> Option<Fault> {
        let x = x_of(opcode);
        let y = y_of(opcode);
        let n = n_of(opcode);
        if self.pc > 4094 {
            Some(Fault::ProgramCounterOutOfRange)
        } else {
            match nibbles(opcode) {
                (0x0, 0x0, 0xE, 0xE) => if self.sp == 0 {
                    Some(Fault::StackUnderflow)
                } else if self.sp > 16 {
                    Some(Fault::StackOverflow)
                } else {
                    None
                },
                (0x2, _, _, _) => if self.sp >= 16 {
                    Some(Fault::StackOverflow)
                } else {
                    None
                },
                (0xD, _, _, _) => if n > 0 && self.i + n > 4096 {
                    Some(Fault::MemoryOutOfRange)
                } else {
                    None
                },
                (0xE, _, 0x9, 0xE) => if self.v[x] >= 16 {
                    Some(Fault::KeyOutOfRange)
                } else {
                    None
                },
                (0xE, _, 0xA, 0x1) => if self.v[x] >= 16 {
                    Some(Fault::KeyOutOfRange)
                } else {
                    None
                },
                (0xF, _, 0x3, 0x3) => if self.i + 2 >= 4096 {
                    Some(Fault::MemoryOutOfRange)
                } else {
                    None
                },
                (0xF, _, 0x5, 0x5) => if self.i + x >= 4096 {
                    Some(Fault::MemoryOutOfRange)
                } else {
                    None
                },
                (0xF, _, 0x6, 0x5) => if self.i + x >= 4096 {
                    Some(Fault::MemoryOutOfRange)
                } else {
                    None
                },
                _ => None,
            }
        }
    }

    /// What executing `opcode` reports: the fault, or success.
    pub open spec fn outcome(self, opcode: u16) -> Result<(), Fault> {
        match self.fault(opcode) {
            Some(fault) => Err(fault),
            None => Ok(()),
        }
    }

    /// The state after executing `opcode`: unchanged on a fault, and else
    /// the instruction's effect with the program counter moved on.
    pub open spec fn step(self, opcode: u16, random: u8) -> Machine {
        if self.fault(opcode) is Some {
            self
        } else {
            Machine { pc: self.next_pc(opcode), ..self.effect(opcode, random) }
        }
    }

    /// Whether a pending key read can be served but names no register.
    pub open spec fn latch_fault(self) -> bool {
        self.read_keys && lowest_pressed(self.keys) is Some && self.key_target >= 16
    }

    /// A pending key read is served: if a key is down, the lowest such key
    /// goes to the target register and the read is no longer pending.
    pub open spec fn key_delivered(self) -> Machine {
        if self.read_keys && lowest_pressed(self.keys) is Some {
            Machine {
                read_keys: false,
                v: self.v.update(self.key_target, lowest_pressed(self.keys).unwrap() as u8),
                ..self
            }
        } else {
            self
        }
    }

    /// The delay timer counts down by one, stopping at zero.
    pub open spec fn counted_down(self) -> Machine {
        Machine {
            delay_timer: if self.delay_timer > 0 {
                (self.delay_timer - 1) as u8
            } else {
                0
            },
            ..self
        }
    }

    /// The state in which a tick fetches its instruction: after the key read
    /// and the timer.
    pub open spec fn at_fetch(self) -> Machine {
        self.key_delivered().counted_down()
    }

    /// The instruction word at the program counter, high byte first.
    pub open spec fn fetched(self) -> u16 {
        (self.memory[self.pc] * 0x100 + self.memory[self.pc + 1]) as u16
    }

    /// The fault that a tick raises in this state, if any.
    pub open spec fn tick_fault(self) -> Option<Fault> {
        if self.latch_fault() {
            Some(Fault::RegisterOutOfRange)
        } else if self.pc > 4094 {
            Some(Fault::ProgramCounterOutOfRange)
        } else {
            self.at_fetch().fault(self.at_fetch().fetched())
        }
    }

    /// What a tick reports: the fault, or success.
    pub open spec fn tick_outcome(self) -> Result<(), Fault> {
        match self.tick_fault() {
            Some(fault) => Err(fault),
            None => Ok(()),
        }
    }

    /// The state after one tick. A pending key read that names no register
    /// stops the tick before anything changes. Otherwise the key read is
    /// served and the delay timer counts down, and then the instruction at
    /// the program counter is executed, unless it cannot be fetched or
    /// faults: then the tick ends there.
    pub open spec fn ticked(self, random: u8) -> Machine {
        if self.latch_fault() {
            self
        } else if self.pc > 4094 {
            self.at_fetch()
        } else {
            self.at_fetch().step(self.at_fetch().fetched(), random)
        }
    }

    /// The state after loading `program`: its bytes stand in memory from
    /// address 0x200 on, and nothing else has changed.
    pub open spec fn loaded(self, program: Seq<u8>) -> Machine {
        Machine {
            memory: Seq::new(
                4096,
                |a: int|
                    if 0x200 <= a < 0x200 + program.len() {
                        program[a - 0x200]
                    } else {
                        self.memory[a]
                    },
            ),
            ..self
        }
    }
}

/// Serving the key read and counting the timer down keep the machine's
/// shape and invariant, and leave the program counter alone.
pub proof fn lemma_at_fetch_wf(s: Machine)
    requires
        s.shaped(),
        !s.latch_fault(),
    ensures
        s.at_fetch().shaped(),
        s.at_fetch().pc == s.pc,
        s.wf() ==> s.at_fetch().wf(),
{
}

/// Drawing pixels keeps the machine's shape and invariant, and touches
/// nothing but the flag and the framebuffer.
pub proof fn lemma_row_drawn_wf(s: Machine, x: int, r: int, row: int, count: nat)
    requires
        s.shaped(),
        0 <= x < 16,
        0 <= r < 32,
    ensures
        s.row_drawn(x, r, row, count).shaped(),
        s.wf() ==> s.row_drawn(x, r, row, count).wf(),
        s.row_drawn(x, r, row, count) == (Machine {
            v: s.row_drawn(x, r, row, count).v,
            gfx: s.row_drawn(x, r, row, count).gfx,
            ..s
        }),
    decreases count,
{
    if count > 0 {
        let before = s.row_drawn(x, r, row, (count - 1) as nat);
        lemma_row_drawn_wf(s, x, r, row, (count - 1) as nat);
        let after = before.plotted(x, r, row, count - 1);
        let c = (before.v[x] + (count - 1)) % 64;
        let color = sprite_bit(before.memory[before.i + row], count - 1);
        let pixel = before.gfx[r][c];
        lemma_sprite_bit(before.memory[before.i + row], count - 1);
        assert(pixel <= 1 ==> pixel ^ color <= 1) by (bit_vector)
            requires
                color == color & 1,
        ;
        if s.wf() {
            assert forall|rr: int, cc: int| 0 <= rr < 32 && 0 <= cc < 64 implies #[trigger] after.gfx[rr][cc]
                <= 1 by {
                if rr != r || cc != c {
                    assert(after.gfx[rr][cc] == before.gfx[rr][cc]);
                }
            }
        }
    }
}

/// A sprite's pixel is 0 or 1.
pub proof fn lemma_sprite_bit(row: u8, bit: int)
    ensures
        sprite_bit(row, bit) <= 1,
        sprite_bit(row, bit) == sprite_bit(row, bit) & 1,
{
    let shift = (7 - bit) as u8;
    assert((row >> shift) & 1 <= 1) by (bit_vector);
    assert((row >> shift) & 1 == ((row >> shift) & 1) & 1) by (bit_vector);
}

/// Drawing rows keeps the machine's shape and invariant, and touches
/// nothing but the flag and the framebuffer.
pub proof fn lemma_rows_drawn_wf(s: Machine, x: int, y: int, rows: nat)
    requires
        s.shaped(),
        0 <= x < 16,
        0 <= y < 16,
    ensures
        s.rows_drawn(x, y, rows).shaped(),
        s.wf() ==> s.rows_drawn(x, y, rows).wf(),
        s.rows_drawn(x, y, rows) == (Machine {
            v: s.rows_drawn(x, y, rows).v,
            gfx: s.rows_drawn(x, y, rows).gfx,
            ..s
        }),
    decreases rows,
{
    if rows > 0 {
        let above = s.rows_drawn(x, y, (rows - 1) as nat);
        lemma_rows_drawn_wf(s, x, y, (rows - 1) as nat);
        lemma_row_drawn_wf(above, x, (above.v[y] + rows - 1) % 32, rows - 1, 8);
    }
}

/// Every instruction keeps the machine's shape and its invariant: the stack
/// pointer stays within the stack, the index register within memory, the
/// target of a key read is a register, and every pixel stays 0 or 1.
pub proof fn lemma_step_wf(s: Machine, opcode: u16, random: u8)
    requires
        s.shaped(),
    ensures
        s.step(opcode, random).shaped(),
        s.wf() ==> s.step(opcode, random).wf(),
{
    lemma_encode_decode(opcode);
    let x = x_of(opcode);
    let y = y_of(opcode);
    let n = n_of(opcode);
    if s.fault(opcode) is None {
        if family(opcode) == 0xD {
            lemma_rows_drawn_wf(s.set_v(0xF, 0), x, y, n as nat);
        }
    }
}

} // verus!
