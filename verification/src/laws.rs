//! Laws of the instruction set: what holds of the machine for every state
//! and every operand.

use crate::decode::{
    encode, lemma_decode_encode, lemma_encode_decode, lemma_word_nnn, lemma_word_xkk, word_nnn,
    word_xkk,
};
use crate::machine::{
    decimal_digit, draws_random, lemma_decimal_digits, lemma_sprite_bit, lemma_step_wf, sprite_bit,
    Machine,
};
use crate::sprite::{collides, hits, lemma_drawn, sprite_at, under_sprite};
use vstd::prelude::*;

verus! {

/// `6xkk` puts `kk` into `v[x]`, moves the program counter on by two, and
/// changes nothing else.
pub proof fn law_load_immediate(s: Machine, x: int, kk: u8, random: u8)
    requires
        s.shaped(),
        s.pc <= 4094,
        0 <= x < 16,
    ensures
        s.outcome(word_xkk(6, x, kk as int)) is Ok,
        s.step(word_xkk(6, x, kk as int), random) == (Machine {
            v: s.v.update(x, kk),
            pc: s.pc + 2,
            ..s
        }),
        s.step(word_xkk(6, x, kk as int), random).v[x] == kk,
{
    lemma_word_xkk(6, x, kk as int);
}

/// `7xkk` leaves in `v[x]` the sum of `v[x]` and `kk` modulo 256, moves the
/// program counter on by two, and changes nothing else: no flag is written.
pub proof fn law_add_immediate(s: Machine, x: int, kk: u8, random: u8)
    requires
        s.shaped(),
        s.pc <= 4094,
        0 <= x < 16,
    ensures
        s.outcome(word_xkk(7, x, kk as int)) is Ok,
        s.step(word_xkk(7, x, kk as int), random) == (Machine {
            v: s.v.update(x, ((s.v[x] + kk) % 256) as u8),
            pc: s.pc + 2,
            ..s
        }),
        s.step(word_xkk(7, x, kk as int), random).v[x] == (s.v[x] + kk) % 256,
{
    lemma_word_xkk(7, x, kk as int);
}

/// `8xy4` sets the flag to 1 exactly when the sum of its two operands
/// exceeds 255, and to 0 otherwise.
pub proof fn law_add_carry(s: Machine, x: int, y: int, random: u8)
    requires
        s.shaped(),
        s.pc <= 4094,
        0 <= x < 16,
        0 <= y < 16,
    ensures
        s.outcome(encode(8, x, y, 4)) is Ok,
        s.step(encode(8, x, y, 4), random).v[0xF] == 1 <==> s.v[x] + s.v[y] > 255,
        s.step(encode(8, x, y, 4), random).v[0xF] == 0 <==> s.v[x] + s.v[y] <= 255,
        x != 0xF ==> s.step(encode(8, x, y, 4), random).v[x] == (s.v[x] + s.v[y]) % 256,
{
    lemma_decode_encode(8, x, y, 4);
}

/// `8xy5` sets the flag to 0 exactly when the subtraction borrows, that is
/// when `v[x]` is less than `v[y]`, and to 1 otherwise.
pub proof fn law_subtract_borrow(s: Machine, x: int, y: int, random: u8)
    requires
        s.shaped(),
        s.pc <= 4094,
        0 <= x < 16,
        0 <= y < 16,
    ensures
        s.outcome(encode(8, x, y, 5)) is Ok,
        s.step(encode(8, x, y, 5), random).v[0xF] == 0 <==> s.v[x] < s.v[y],
        s.step(encode(8, x, y, 5), random).v[0xF] == 1 <==> s.v[x] >= s.v[y],
        x != 0xF ==> s.step(encode(8, x, y, 5), random).v[x] == (s.v[x] - s.v[y]) % 256,
{
    lemma_decode_encode(8, x, y, 5);
}

/// `Fx55` and a later `Fx65` with the same `x` and the same index register
/// bring `v[0]` to `v[x]` back to what they were before the `Fx55`,
/// whatever became of the registers in between, as long as the bytes
/// stored were not written.
pub proof fn law_store_then_load(s: Machine, later: Machine, x: int, random: u8)
    requires
        s.shaped(),
        later.shaped(),
        0 <= x < 16,
        s.pc <= 4094,
        later.pc <= 4094,
        s.i + x < 4096,
        later.i == s.i,
        forall|a: int|
            s.i <= a <= s.i + x ==> later.memory[a] == s.step(
                encode(0xF, x, 5, 5),
                random,
            ).memory[a],
    ensures
        s.outcome(encode(0xF, x, 5, 5)) is Ok,
        s.step(encode(0xF, x, 5, 5), random).v == s.v,
        later.outcome(encode(0xF, x, 6, 5)) is Ok,
        forall|k: int|
            0 <= k <= x ==> later.step(encode(0xF, x, 6, 5), random).v[k] == s.v[k],
{
    lemma_decode_encode(0xF, x, 5, 5);
    lemma_decode_encode(0xF, x, 6, 5);
    let stored = s.step(encode(0xF, x, 5, 5), random);
    assert forall|k: int| 0 <= k <= x implies later.step(encode(0xF, x, 6, 5), random).v[k]
        == s.v[k] by {
        assert(later.memory[s.i + k] == stored.memory[s.i + k]);
    }
}

/// Whether the pixel in row `row`, column `bit` of the sprite at `i` is set
/// and lies over an unlit pixel, for a sprite at column `left`, row `top`.
pub open spec fn lights(s: Machine, left: int, top: int, row: int, bit: int) -> bool {
    sprite_bit(s.memory[s.i + row], bit) == 1 && s.gfx[(top + row) % 32][(left + bit) % 64] == 0
}

/// Drawing a sprite twice at the same place leaves the framebuffer as it
/// was before the first drawing. The second drawing sets the flag to 1
/// exactly when the first lit a pixel, that is when a set pixel of the
/// sprite lay over an unlit pixel, and to 0 otherwise. This holds where
/// neither `x` nor `y` is the flag register.
pub proof fn law_draw_twice(s: Machine, x: int, y: int, n: int, random: u8)
    requires
        s.wf(),
        s.pc <= 4092,
        0 <= x < 15,
        0 <= y < 15,
        0 <= n < 16,
        n == 0 || s.i + n <= 4096,
    ensures
        ({
            let draw = encode(0xD, x, y, n);
            let once = s.step(draw, random);
            let twice = once.step(draw, random);
            &&& s.outcome(draw) is Ok
            &&& once.outcome(draw) is Ok
            &&& twice.gfx == s.gfx
            &&& twice.v[0xF] == 1 <==> exists|row: int, bit: int|
                0 <= row < n && 0 <= bit < 8 && #[trigger] lights(
                    s,
                    s.v[x] as int,
                    s.v[y] as int,
                    row,
                    bit,
                )
            &&& twice.v[0xF] <= 1
        }),
{
    let draw = encode(0xD, x, y, n);
    lemma_decode_encode(0xD, x, y, n);
    let left = s.v[x] as int;
    let top = s.v[y] as int;
    let once = s.step(draw, random);
    lemma_drawn(s, x, y, n);
    assert(once == Machine { pc: s.pc + 2, ..s.drawn(x, y, n) });
    let twice = once.step(draw, random);
    lemma_drawn(once, x, y, n);
    assert(twice == Machine { pc: s.pc + 4, ..once.drawn(x, y, n) });
    // What is combined twice with the same pixel is as it was.
    assert forall|r: int, c: int| 0 <= r < 32 && 0 <= c < 64 implies #[trigger] twice.gfx[r][c]
        == s.gfx[r][c] by {
        let pixel = s.gfx[r][c];
        let color = sprite_at(s, left, top, r, c);
        assert(sprite_at(once, left, top, r, c) == color);
        assert((pixel ^ color) ^ color == pixel) by (bit_vector);
    }
    assert(twice.gfx =~~= s.gfx);
    // The second drawing turns off exactly what the first lit.
    assert forall|row: int, bit: int| 0 <= row < n && 0 <= bit < 8 implies (#[trigger] hits(
        once,
        left,
        (top + row) % 32,
        row,
        bit,
    ) <==> lights(s, left, top, row, bit)) by {
        let r = (top + row) % 32;
        let c = (left + bit) % 64;
        assert((r - top) % 32 == row);
        assert((c - left) % 64 == bit);
        assert(under_sprite(left, top, n, r, c));
        let color = sprite_bit(s.memory[s.i + row], bit);
        let pixel = s.gfx[r][c];
        assert(once.gfx[r][c] == pixel ^ color);
        lemma_sprite_bit(s.memory[s.i + row], bit);
        assert((color & (pixel ^ color) == 1) <==> (color == 1 && pixel == 0)) by (bit_vector)
            requires
                color <= 1,
                pixel <= 1,
        ;
    }
    if collides(once, left, top, n) {
        let (a, b) = choose|a: int, b: int|
            0 <= a < n && 0 <= b < 8 && #[trigger] hits(once, left, (top + a) % 32, a, b);
        assert(lights(s, left, top, a, b));
    }
    if exists|row: int, bit: int|
        0 <= row < n && 0 <= bit < 8 && #[trigger] lights(s, left, top, row, bit) {
        let (a, b) = choose|a: int, b: int|
            0 <= a < n && 0 <= b < 8 && #[trigger] lights(s, left, top, a, b);
        assert(hits(once, left, (top + a) % 32, a, b));
    }
}

/// `2nnn` and a later `00EE` bring the program counter to the instruction
/// after the call and the stack pointer back to what it was before the
/// call, whatever ran in between, as long as the stack pointer is back where
/// the call left it and the slot that the call filled was not written.
pub proof fn law_call_then_return(s: Machine, later: Machine, nnn: int, random: u8)
    requires
        s.shaped(),
        later.shaped(),
        0 <= nnn < 4096,
        s.pc <= 4094,
        s.sp < 16,
        later.pc <= 4094,
        later.sp == s.step(word_nnn(2, nnn), random).sp,
        later.stack[s.sp] == s.step(word_nnn(2, nnn), random).stack[s.sp],
    ensures
        s.outcome(word_nnn(2, nnn)) is Ok,
        s.step(word_nnn(2, nnn), random).pc == nnn,
        s.step(word_nnn(2, nnn), random).sp == s.sp + 1,
        later.outcome(0x00EE) is Ok,
        later.step(0x00EE, random).pc == s.pc + 2,
        later.step(0x00EE, random).sp == s.sp,
{
    lemma_word_nnn(2, nnn);
    lemma_encode_decode(word_nnn(2, nnn));
    lemma_encode_decode(0x00EE);
}

/// The invariant of the machine holds from one tick to the next: the stack
/// pointer never exceeds 16, the index register stays within memory, the
/// target of a key read is a register, and every pixel is 0 or 1.
pub proof fn law_tick_keeps_invariant(s: Machine, random: u8)
    requires
        s.wf(),
    ensures
        s.ticked(random).wf(),
{
    if !s.latch_fault() && s.pc <= 4094 {
        lemma_step_wf(s.at_fetch(), s.at_fetch().fetched(), random);
    }
}

/// Only `Cxkk` reads the random byte: every other instruction does the same
/// whatever byte is handed in.
pub proof fn law_random_only_drawn(s: Machine, opcode: u16, random: u8, other: u8)
    requires
        !draws_random(opcode),
    ensures
        s.step(opcode, random) == s.step(opcode, other),
{
}

/// The three bytes that `Fx33` stores are decimal digits, and read as
/// hundreds, tens and ones they make `v[x]`.
pub proof fn law_bcd_recomposes(s: Machine, x: int, random: u8)
    requires
        s.shaped(),
        s.pc <= 4094,
        0 <= x < 16,
        s.i + 2 < 4096,
    ensures
        ({
            let stored = s.step(encode(0xF, x, 3, 3), random);
            &&& s.outcome(encode(0xF, x, 3, 3)) is Ok
            &&& stored.memory[s.i] < 10
            &&& stored.memory[s.i + 1] < 10
            &&& stored.memory[s.i + 2] < 10
            &&& stored.memory[s.i] * 100 + stored.memory[s.i + 1] * 10 + stored.memory[s.i + 2]
                == s.v[x]
        }),
{
    lemma_decode_encode(0xF, x, 3, 3);
    let value = s.v[x] as int;
    lemma_decimal_digits(value, 1);
    lemma_decimal_digits(value, 2);
    lemma_decimal_digits(value, 3);
    assert(decimal_digit(value, 3) * 100 + decimal_digit(value, 2) * 10 + decimal_digit(value, 1)
        == value);
}

} // verus!
