//! One track of the signature: a rolling hash that decides where the stream
//! is cut, and a piece hash that turns each piece into one symbol.

use vstd::prelude::*;
use crate::block_size::SYMBOL_CAP;
use crate::piece::{is_symbol, lemma_symbol_of, piece_step, symbol_of, Simple};
use crate::rolling::{Rolling, RollingState};

verus! {

/// A track as a mathematical value: the rolling hash, the hash of the piece
/// that is open, and the symbols of the pieces that were cut so far.
pub struct TrackState {
    pub roll: RollingState,
    pub piece: u64,
    pub out: Seq<char>,
}

/// The first 64 symbols of `s`, or all of `s` where it has no more.
pub open spec fn capped(s: Seq<char>) -> Seq<char> {
    if s.len() > 64 {
        s.take(64)
    } else {
        s
    }
}

impl TrackState {
    /// The track before any byte.
    pub open spec fn start() -> TrackState {
        TrackState { roll: RollingState::empty(), piece: 0, out: Seq::empty() }
    }

    /// The track after one more byte. Both hashes take the byte; where the
    /// digest is then `block - 1` modulo `block`, the stream is cut: the
    /// piece's symbol is emitted and a new piece begins.
    pub open spec fn feed(self, b: u8, block: nat) -> TrackState {
        let roll = self.roll.push(b);
        let piece = piece_step(self.piece, b);
        if block > 0 && roll.digest() as nat % block == block - 1 {
            TrackState { roll, piece: 0, out: self.out.push(symbol_of(piece)) }
        } else {
            TrackState { roll, piece, out: self.out }
        }
    }

    /// The track after the bytes of `bytes`, in order.
    pub open spec fn feed_all(self, bytes: Seq<u8>, block: nat) -> TrackState
        decreases bytes.len(),
    {
        if bytes.len() == 0 {
            self
        } else {
            self.feed_all(bytes.drop_last(), block).feed(bytes.last(), block)
        }
    }

    /// What the track contributes to the signature when the stream ends here:
    /// the symbols emitted so far and one more for the open piece, cut to 64.
    pub open spec fn symbols(self) -> Seq<char> {
        capped(self.out.push(symbol_of(self.piece)))
    }
}

/// The symbols of the track with block size `block` over the whole of `bytes`.
pub open spec fn track_symbols(bytes: Seq<u8>, block: nat) -> Seq<char> {
    TrackState::start().feed_all(bytes, block).symbols()
}

/// Every element of `s` is a symbol of the alphabet.
pub open spec fn all_symbols(s: Seq<char>) -> bool {
    forall|i: int| 0 <= i < s.len() ==> is_symbol(#[trigger] s[i])
}

/// Feeding two runs of bytes one after the other is feeding their
/// concatenation: where the stream is split into chunks does not matter.
pub proof fn lemma_feed_all_concat(t: TrackState, x: Seq<u8>, y: Seq<u8>, block: nat)
    ensures
        t.feed_all(x + y, block) == t.feed_all(x, block).feed_all(y, block),
    decreases y.len(),
{
    if y.len() == 0 {
        assert(x + y =~= x);
    } else {
        assert((x + y).drop_last() =~= x + y.drop_last());
        lemma_feed_all_concat(t, x, y.drop_last(), block);
    }
}

/// A track emits symbols of the alphabet only, and ends with 1 to 64 of them.
pub proof fn lemma_track_symbols(bytes: Seq<u8>, block: nat)
    ensures
        all_symbols(TrackState::start().feed_all(bytes, block).out),
        all_symbols(track_symbols(bytes, block)),
        1 <= track_symbols(bytes, block).len() <= 64,
    decreases bytes.len(),
{
    let end = TrackState::start().feed_all(bytes, block);
    if bytes.len() > 0 {
        lemma_track_symbols(bytes.drop_last(), block);
        let before = TrackState::start().feed_all(bytes.drop_last(), block);
        let piece = piece_step(before.piece, bytes.last());
        lemma_symbol_of(piece);
        assert forall|i: int| 0 <= i < end.out.len() implies is_symbol(#[trigger] end.out[i]) by {
            if i < before.out.len() {
                assert(end.out[i] == before.out[i]);
            }
        }
    }
    lemma_symbol_of(end.piece);
    let all = end.out.push(symbol_of(end.piece));
    assert forall|i: int| 0 <= i < capped(all).len() implies is_symbol(
        #[trigger] capped(all)[i],
    ) by {
        if i < end.out.len() {
            assert(capped(all)[i] == end.out[i]);
        }
    }
}

/// One running track. It keeps no more than the 64 symbols that a signature
/// can hold, however many pieces the stream is cut into.
pub struct Track {
    roll: Rolling,
    piece: Simple,
    out: Vec<char>,
    block: u64,
    model: Ghost<TrackState>,
}

impl Track {
    /// The hashes and the kept symbols are those of the track's state.
    pub closed spec fn wf(&self) -> bool {
        &&& self.roll.wf()
        &&& self.block >= 1
        &&& self.roll.state() == self.model@.roll
        &&& self.piece@ == self.model@.piece
        &&& self.out@ == capped(self.model@.out)
        &&& all_symbols(self.out@)
    }

    /// The mathematical value of the track.
    pub closed spec fn state(&self) -> TrackState {
        self.model@
    }

    /// The block size that the track cuts by.
    pub closed spec fn block(&self) -> nat {
        self.block as nat
    }

    /// A track with block size `block` that has seen no byte.
    pub fn new(block: u64) -> (t: Track)
        requires
            block >= 1,
        ensures
            t.wf(),
            t.state() == TrackState::start(),
            t.block() == block,
    {
        Track {
            roll: Rolling::new(),
            piece: Simple::new(),
            out: Vec::new(),
            block,
            model: Ghost(TrackState::start()),
        }
    }

    /// Takes one more byte of the stream.
    pub fn feed(&mut self, b: u8)
        requires
            old(self).wf(),
        ensures
            final(self).wf(),
            final(self).block() == old(self).block(),
            final(self).state() == old(self).state().feed(b, old(self).block()),
    {
        let ghost before = self.model@;
        self.roll.roll(b);
        self.piece.update(b);
        if self.roll.digest() % self.block == self.block - 1 {
            let c: char = self.piece.c();
            if self.out.len() < SYMBOL_CAP {
                self.out.push(c);
            }
            self.piece = Simple::new();
            assert(self.out@ =~= capped(before.out.push(c)));
        }
        self.model = Ghost(before.feed(b, self.block as nat));
    }

    /// Ends the track: the symbols that it contributes to the signature.
    pub fn into_symbols(self) -> (symbols: Vec<char>)
        requires
            self.wf(),
        ensures
            symbols@ == self.state().symbols(),
            1 <= symbols@.len() <= 64,
            all_symbols(symbols@),
    {
        let c: char = self.piece.c();
        let mut symbols: Vec<char> = self.out;
        if symbols.len() < SYMBOL_CAP {
            symbols.push(c);
        }
        assert(symbols@ =~= self.model@.symbols());
        symbols
    }
}

} // verus!
