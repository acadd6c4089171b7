//! The piece accumulator: a multiplicative hash over the bytes since the last
//! cut, whose low bits choose one symbol of the signature alphabet.

use vstd::prelude::*;
use crate::wrap::{wrap_add, wrap_mul};

verus! {

/// The multiplier of the piece hash.
pub const PIECE_PRIME: u64 = 16777619;

/// The symbol at position `i` of the alphabet `A`-`Z`, `a`-`z`, `0`-`9`, `+`, `/`.
pub open spec fn alphabet_at(i: int) -> char {
    if 0 <= i < 26 {
        (65 + i) as u8 as char
    } else if 26 <= i < 52 {
        (97 + (i - 26)) as u8 as char
    } else if 52 <= i < 62 {
        (48 + (i - 52)) as u8 as char
    } else if i == 62 {
        '+'
    } else {
        '/'
    }
}

/// `c` is one of the 64 symbols of the alphabet.
pub open spec fn is_symbol(c: char) -> bool {
    exists|i: int| 0 <= i < 64 && c == alphabet_at(i)
}

/// The piece hash after one more byte: `h * 16777619 + b`, modulo 2^64.
pub open spec fn piece_step(h: u64, b: u8) -> u64 {
    wrap_add(wrap_mul(h, 16777619), b as u64)
}

/// The symbol that stands for a piece whose hash is `h`.
pub open spec fn symbol_of(h: u64) -> char {
    alphabet_at(((h % 256) % 64) as int)
}

/// The symbol of a piece is one of the alphabet.
pub proof fn lemma_symbol_of(h: u64)
    ensures
        is_symbol(symbol_of(h)),
{
    let i: int = ((h % 256) % 64) as int;
    assert(0 <= i && i < 64);
}

/// No symbol of the alphabet is the `:` that separates the fields of a
/// signature.
pub proof fn lemma_symbol_is_no_colon(c: char)
    requires
        is_symbol(c),
    ensures
        c != ':',
{
    let i = choose|i: int| 0 <= i < 64 && c == alphabet_at(i);
    assert(':' as u32 == 58);
    assert(c as u32 != 58);
}

/// The symbol for `x`: the one at position `x % 64` of the alphabet.
pub fn b64(x: u8) -> (c: char)
    ensures
        c == alphabet_at((x % 64) as int),
        is_symbol(c),
{
    let v: u8 = x % 64;
    assert(is_symbol(alphabet_at(v as int)));
    if v < 26 {
        (65 + v) as char
    } else if v < 52 {
        (97 + (v - 26)) as char
    } else if v < 62 {
        (48 + (v - 52)) as char
    } else if v == 62 {
        '+'
    } else {
        '/'
    }
}

/// The hash of the current piece.
#[derive(Clone, Copy, Debug)]
pub struct Simple {
    h: u64,
}

impl View for Simple {
    type V = u64;

    closed spec fn view(&self) -> u64 {
        self.h
    }
}

impl Simple {
    /// The accumulator of an empty piece.
    pub fn new() -> (s: Self)
        ensures
            s@ == 0,
    {
        Simple { h: 0 }
    }

    /// Mixes one byte into the piece.
    pub fn update(&mut self, b: u8)
        ensures
            final(self)@ == piece_step(old(self)@, b),
    {
        let m: u64 = self.h.wrapping_mul(PIECE_PRIME);
        self.h = m.wrapping_add(b as u64);
    }

    /// The symbol of the current piece, chosen by the low byte of its hash.
    pub fn c(&self) -> (c: char)
        ensures
            c == symbol_of(self@),
            is_symbol(c),
    {
        let h: u64 = self.h;
        assert(h & 0xff == h % 256) by (bit_vector);
        b64((self.h & 0xff) as u8)
    }
}

} // verus!
