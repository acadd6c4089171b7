//! The signature of a byte stream: two tracks run over the same bytes, one at
//! the block size that fits the input's length and one at half of it.

use vstd::prelude::*;
use crate::block_size::{
    block_size_for, derive_bs, finer_block_size, finer_bs, is_power_of_two,
    lemma_block_size_exists,
};
use crate::compare::{lemma_score_same, score_of};
use crate::piece::{is_symbol, lemma_symbol_is_no_colon};
use crate::signature_text::{decimal, format_signature, lemma_parse_text_of, parse_spec, text_of};
use crate::track::{all_symbols, lemma_track_symbols, track_symbols, Track, TrackState};

verus! {

/// A signature: the symbols of the two tracks and the primary block size.
#[derive(Debug)]
pub struct Signature {
    pub first: Vec<char>,
    pub second: Vec<char>,
    pub block_size: u64,
}

/// The three fields of the signature of `bytes`, hashed as an input that was
/// announced to be `size` bytes long. An input announced as empty has the
/// fixed signature `3:3:1`, whatever the bytes.
pub open spec fn signature_fields(size: nat, bytes: Seq<u8>) -> (Seq<char>, Seq<char>, nat) {
    if size == 0 {
        (seq!['3'], seq!['3'], 1)
    } else {
        (
            track_symbols(bytes, block_size_for(size)),
            track_symbols(bytes, finer_block_size(block_size_for(size))),
            block_size_for(size),
        )
    }
}

/// The text of the signature of `bytes`, announced as `size` bytes long.
pub open spec fn signature_text(size: nat, bytes: Seq<u8>) -> Seq<char> {
    let fields = signature_fields(size, bytes);
    text_of(fields.0, fields.1, fields.2)
}

/// The signature of an input that is announced as empty is `3:3:1`.
pub proof fn lemma_empty_signature(bytes: Seq<u8>)
    ensures
        signature_text(0, bytes) == seq!['3', ':', '3', ':', '1'],
{
    assert(decimal(1) =~= seq!['1']);
    assert(signature_text(0, bytes) =~= seq!['3', ':', '3', ':', '1']);
}

/// The signature of any input is well formed: each track holds 1 to 64
/// symbols of the alphabet, and the block size is a power of two.
pub proof fn lemma_signature_well_formed(size: nat, bytes: Seq<u8>)
    ensures
        1 <= signature_fields(size, bytes).0.len() <= 64,
        1 <= signature_fields(size, bytes).1.len() <= 64,
        all_symbols(signature_fields(size, bytes).0),
        all_symbols(signature_fields(size, bytes).1),
        is_power_of_two(signature_fields(size, bytes).2),
        signature_fields(size, bytes).2 * 64 >= size,
{
    if size == 0 {
        assert('3' == crate::piece::alphabet_at(55));
    } else {
        lemma_block_size_exists(size);
        lemma_track_symbols(bytes, block_size_for(size));
        lemma_track_symbols(bytes, finer_block_size(block_size_for(size)));
    }
}

/// The text of a signature parses back into the signature's fields.
pub proof fn lemma_signature_parses(size: nat, bytes: Seq<u8>)
    requires
        size <= usize::MAX,
    ensures
        signature_fields(size, bytes).2 <= u64::MAX,
        parse_spec(signature_text(size, bytes)) == Some(
            (
                signature_fields(size, bytes).0,
                signature_fields(size, bytes).1,
                signature_fields(size, bytes).2 as u64,
            ),
        ),
{
    let fields = signature_fields(size, bytes);
    lemma_signature_well_formed(size, bytes);
    lemma_block_size_exists(size);
    assert forall|i: int| 0 <= i < fields.0.len() implies #[trigger] fields.0[i] != ':' by {
        lemma_symbol_is_no_colon(fields.0[i]);
    }
    assert forall|i: int| 0 <= i < fields.1.len() implies #[trigger] fields.1[i] != ':' by {
        lemma_symbol_is_no_colon(fields.1[i]);
    }
    lemma_parse_text_of(fields.0, fields.1, fields.2 as u64);
}

/// Two inputs with the same bytes, announced with the same length, have
/// signatures that score 100 against each other.
pub proof fn lemma_same_input_scores_100(size: nat, bytes: Seq<u8>)
    requires
        size <= usize::MAX,
    ensures
        score_of(signature_text(size, bytes), signature_text(size, bytes)) == 100,
{
    lemma_signature_parses(size, bytes);
    lemma_signature_well_formed(size, bytes);
    lemma_score_same(signature_text(size, bytes), signature_text(size, bytes));
}

impl Signature {
    /// Each track holds 1 to 64 symbols of the alphabet, and the block size is
    /// a power of two.
    pub open spec fn wf(&self) -> bool {
        &&& 1 <= self.first@.len() <= 64
        &&& 1 <= self.second@.len() <= 64
        &&& all_symbols(self.first@)
        &&& all_symbols(self.second@)
        &&& is_power_of_two(self.block_size as nat)
    }

    /// The three fields as mathematical values.
    pub open spec fn fields(&self) -> (Seq<char>, Seq<char>, nat) {
        (self.first@, self.second@, self.block_size as nat)
    }

    /// The signature as text: `first:second:block`.
    pub fn to_text(&self) -> (s: String)
        ensures
            s@ == text_of(self.first@, self.second@, self.block_size as nat),
    {
        format_signature(&self.first, &self.second, self.block_size)
    }
}

/// Computes a signature from a stream that arrives in chunks. The length of
/// the whole input is announced at the start and fixes the block sizes.
pub struct SignatureBuilder {
    size: usize,
    first: Track,
    second: Track,
    consumed: Ghost<Seq<u8>>,
}

impl SignatureBuilder {
    /// The two tracks have the block sizes that the announced length asks
    /// for, and each has seen exactly the bytes consumed so far.
    pub closed spec fn wf(&self) -> bool {
        &&& self.first.wf()
        &&& self.second.wf()
        &&& self.first.block() == block_size_for(self.size as nat)
        &&& self.second.block() == finer_block_size(self.first.block())
        &&& self.first.state() == TrackState::start().feed_all(self.consumed@, self.first.block())
        &&& self.second.state() == TrackState::start().feed_all(
            self.consumed@,
            self.second.block(),
        )
    }

    /// The length that was announced.
    pub closed spec fn size(&self) -> nat {
        self.size as nat
    }

    /// All bytes taken so far, in order.
    pub closed spec fn consumed(&self) -> Seq<u8> {
        self.consumed@
    }

    /// A builder for an input of `size` bytes, before any byte.
    pub fn new(size: usize) -> (b: SignatureBuilder)
        ensures
            b.wf(),
            b.size() == size,
            b.consumed() == Seq::<u8>::empty(),
    {
        let b1: u64 = derive_bs(size);
        let b2: u64 = finer_bs(b1);
        SignatureBuilder {
            size,
            first: Track::new(b1),
            second: Track::new(b2),
            consumed: Ghost(Seq::empty()),
        }
    }

    /// Takes the next chunk of the stream. Only the bytes and their order
    /// count, not where one chunk ends and the next begins.
    pub fn update(&mut self, chunk: &[u8])
        requires
            old(self).wf(),
        ensures
            final(self).wf(),
            final(self).size() == old(self).size(),
            final(self).consumed() == old(self).consumed() + chunk@,
    {
        let ghost before = self.consumed@;
        let mut k: usize = 0;
        assert(before + chunk@.take(0) =~= before);
        while k < chunk.len()
            invariant
                k <= chunk@.len(),
                self.wf(),
                self.size == old(self).size,
                self.consumed@ == before + chunk@.take(k as int),
            decreases chunk@.len() - k,
        {
            let b: u8 = chunk[k];
            let ghost seen = self.consumed@;
            self.first.feed(b);
            self.second.feed(b);
            self.consumed = Ghost(seen.push(b));
            proof {
                assert(seen.push(b).drop_last() =~= seen);
                assert(seen.push(b) =~= before + chunk@.take(k + 1));
            }
            k += 1;
        }
        assert(chunk@.take(chunk@.len() as int) =~= chunk@);
    }

    /// Ends the stream and gives the signature of the bytes consumed.
    pub fn finish(self) -> (sig: Signature)
        requires
            self.wf(),
        ensures
            sig.fields() == signature_fields(self.size(), self.consumed()),
            sig.wf(),
    {
        if self.size == 0 {
            let sig = Signature { first: vec!['3'], second: vec!['3'], block_size: 1 };
            assert(sig.first@ =~= seq!['3']);
            assert(sig.second@ =~= seq!['3']);
            assert(is_symbol('3')) by {
                assert('3' == crate::piece::alphabet_at(55));
            }
            return sig;
        }
        proof {
            lemma_block_size_exists(self.size as nat);
        }
        let block_size: u64 = derive_bs(self.size);
        let first: Vec<char> = self.first.into_symbols();
        let second: Vec<char> = self.second.into_symbols();
        Signature { first, second, block_size }
    }
}

/// The signature of `bytes` as text.
pub fn compute_signature(bytes: &[u8]) -> (s: String)
    ensures
        s@ == signature_text(bytes@.len(), bytes@),
        bytes@.len() == 0 ==> s@ == seq!['3', ':', '3', ':', '1'],
{
    proof {
        lemma_empty_signature(bytes@);
    }
    let mut builder = SignatureBuilder::new(bytes.len());
    builder.update(bytes);
    builder.finish().to_text()
}

} // verus!
