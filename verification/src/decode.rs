//! Splitting a 16-bit instruction word into its fields.
//!
//! An instruction is four 4-bit nibbles, most significant first. The first
//! names the instruction family; the others are read, depending on the
//! family, as register numbers `x` and `y`, a count `n`, a byte literal `kk`
//! or an address `nnn`.

use vstd::arithmetic::div_mod::lemma_fundamental_div_mod_converse;
use vstd::prelude::*;

verus! {

/// The most significant nibble: the instruction family.
pub open spec fn family(opcode: u16) -> int {
    opcode as int / 0x1000
}

/// The second nibble: register number `x`.
pub open spec fn x_of(opcode: u16) -> int {
    (opcode as int / 0x100) % 0x10
}

/// The third nibble: register number `y`.
pub open spec fn y_of(opcode: u16) -> int {
    (opcode as int / 0x10) % 0x10
}

/// The least significant nibble: count `n`.
pub open spec fn n_of(opcode: u16) -> int {
    opcode as int % 0x10
}

/// The low byte: literal `kk`.
pub open spec fn kk_of(opcode: u16) -> int {
    opcode as int % 0x100
}

/// The low twelve bits: address `nnn`.
pub open spec fn nnn_of(opcode: u16) -> int {
    opcode as int % 0x1000
}

/// The four nibbles, most significant first.
pub open spec fn nibbles(opcode: u16) -> (u8, u8, u8, u8) {
    (family(opcode) as u8, x_of(opcode) as u8, y_of(opcode) as u8, n_of(opcode) as u8)
}

/// The instruction word made of four nibbles, most significant first.
pub open spec fn encode(n0: int, n1: int, n2: int, n3: int) -> u16 {
    (n0 * 0x1000 + n1 * 0x100 + n2 * 0x10 + n3) as u16
}

/// The instruction word of family `f` with register `x` and literal `kk`.
pub open spec fn word_xkk(f: int, x: int, kk: int) -> u16 {
    (f * 0x1000 + x * 0x100 + kk) as u16
}

/// The instruction word of family `f` with address `nnn`.
pub open spec fn word_nnn(f: int, nnn: int) -> u16 {
    (f * 0x1000 + nnn) as u16
}

/// The fields of one instruction word.
#[derive(Clone, Copy, Debug, PartialEq, Eq)]
pub struct Decoded {
    /// The four nibbles, most significant first.
    pub nibbles: (u8, u8, u8, u8),
    /// The low twelve bits.
    pub nnn: usize,
    /// The low byte.
    pub kk: u8,
    /// The second nibble.
    pub x: usize,
    /// The third nibble.
    pub y: usize,
    /// The fourth nibble.
    pub n: usize,
}

/// Splits `opcode` into its fields. Every word decodes.
pub fn decode(opcode: u16) -> (d: Decoded)
    ensures
        d.nibbles == nibbles(opcode),
        d.nnn == nnn_of(opcode),
        d.kk == kk_of(opcode),
        d.x == x_of(opcode),
        d.y == y_of(opcode),
        d.n == n_of(opcode),
{
    let n0: u16 = (opcode & 0xF000) >> 12;
    let n1: u16 = (opcode & 0x0F00) >> 8;
    let n2: u16 = (opcode & 0x00F0) >> 4;
    let n3: u16 = opcode & 0x000F;
    let nnn: u16 = opcode & 0x0FFF;
    let kk: u16 = opcode & 0x00FF;
    assert((opcode & 0xF000) >> 12 == opcode / 0x1000) by (bit_vector);
    assert((opcode & 0x0F00) >> 8 == (opcode / 0x100) % 0x10) by (bit_vector);
    assert((opcode & 0x00F0) >> 4 == (opcode / 0x10) % 0x10) by (bit_vector);
    assert(opcode & 0x000F == opcode % 0x10) by (bit_vector);
    assert(opcode & 0x0FFF == opcode % 0x1000) by (bit_vector);
    assert(opcode & 0x00FF == opcode % 0x100) by (bit_vector);
    Decoded {
        nibbles: (n0 as u8, n1 as u8, n2 as u8, n3 as u8),
        nnn: nnn as usize,
        kk: kk as u8,
        x: n1 as usize,
        y: n2 as usize,
        n: n3 as usize,
    }
}

/// Decoding undoes encoding: the word made of four nibbles has those nibbles
/// as its fields, and every word is made of its own nibbles.
pub proof fn lemma_decode_encode(n0: int, n1: int, n2: int, n3: int)
    requires
        0 <= n0 < 16,
        0 <= n1 < 16,
        0 <= n2 < 16,
        0 <= n3 < 16,
    ensures
        family(encode(n0, n1, n2, n3)) == n0,
        x_of(encode(n0, n1, n2, n3)) == n1,
        y_of(encode(n0, n1, n2, n3)) == n2,
        n_of(encode(n0, n1, n2, n3)) == n3,
        kk_of(encode(n0, n1, n2, n3)) == n2 * 0x10 + n3,
        nnn_of(encode(n0, n1, n2, n3)) == n1 * 0x100 + n2 * 0x10 + n3,
{
    let word = n0 * 0x1000 + n1 * 0x100 + n2 * 0x10 + n3;
    lemma_fundamental_div_mod_converse(word, 0x1000, n0, n1 * 0x100 + n2 * 0x10 + n3);
    lemma_fundamental_div_mod_converse(word, 0x100, n0 * 0x10 + n1, n2 * 0x10 + n3);
    lemma_fundamental_div_mod_converse(word, 0x10, n0 * 0x100 + n1 * 0x10 + n2, n3);
    lemma_fundamental_div_mod_converse(n0 * 0x10 + n1, 0x10, n0, n1);
    lemma_fundamental_div_mod_converse(n0 * 0x100 + n1 * 0x10 + n2, 0x10, n0 * 0x10 + n1, n2);
}

/// Every word is the encoding of its own nibbles.
pub proof fn lemma_encode_decode(opcode: u16)
    by (bit_vector)
    ensures
        encode(family(opcode), x_of(opcode), y_of(opcode), n_of(opcode)) == opcode,
        0 <= family(opcode) < 16,
        0 <= x_of(opcode) < 16,
        0 <= y_of(opcode) < 16,
        0 <= n_of(opcode) < 16,
{
}

/// A word made of a family, a register and a literal has those as its
/// fields.
pub proof fn lemma_word_xkk(f: int, x: int, kk: int)
    requires
        0 <= f < 16,
        0 <= x < 16,
        0 <= kk < 256,
    ensures
        family(word_xkk(f, x, kk)) == f,
        x_of(word_xkk(f, x, kk)) == x,
        kk_of(word_xkk(f, x, kk)) == kk,
        word_xkk(f, x, kk) == encode(f, x, kk / 16, kk % 16),
{
    let word = f * 0x1000 + x * 0x100 + kk;
    lemma_fundamental_div_mod_converse(word, 0x1000, f, x * 0x100 + kk);
    lemma_fundamental_div_mod_converse(word, 0x100, f * 0x10 + x, kk);
    lemma_fundamental_div_mod_converse(f * 0x10 + x, 0x10, f, x);
}

/// A word made of a family and an address has those as its fields.
pub proof fn lemma_word_nnn(f: int, nnn: int)
    requires
        0 <= f < 16,
        0 <= nnn < 4096,
    ensures
        family(word_nnn(f, nnn)) == f,
        nnn_of(word_nnn(f, nnn)) == nnn,
{
    lemma_fundamental_div_mod_converse(f * 0x1000 + nnn, 0x1000, f, nnn);
}

} // verus!
