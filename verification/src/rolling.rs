//! The rolling window hash: a cheap digest that is updated byte by byte and
//! decides where the stream is cut into pieces.

use vstd::prelude::*;
use crate::wrap::{wrap_add, wrap_mul, wrap_sub};

verus! {

/// The number of trailing bytes that the window holds.
pub const WINDOW: usize = 7;

/// The rolling hash as a mathematical value: the bytes that the window holds,
/// oldest first, and the two sums kept over them.
pub struct RollingState {
    pub window: Seq<u8>,
    pub h1: u64,
    pub h2: u64,
}

impl RollingState {
    /// The state before any byte.
    pub open spec fn empty() -> RollingState {
        RollingState { window: Seq::empty(), h1: 0, h2: 0 }
    }

    /// The state after one more byte `b`. While the window fills, `b` is added
    /// to `h1` and the new `h1` to `h2`. Once it is full, the oldest byte
    /// leaves first: it is taken from `h1`, seven times from `h2`, and the
    /// reduced `h1` is added to `h2`.
    pub open spec fn push(self, b: u8) -> RollingState {
        if self.window.len() < 7 {
            let h1 = wrap_add(self.h1, b as u64);
            RollingState { window: self.window.push(b), h1, h2: wrap_add(self.h2, h1) }
        } else {
            let gone = self.window[0];
            let less = wrap_sub(self.h1, gone as u64);
            let h1 = wrap_add(less, b as u64);
            RollingState {
                window: self.window.drop_first().push(b),
                h1,
                h2: wrap_add(wrap_add(wrap_sub(self.h2, (7 * gone) as u64), less), h1),
            }
        }
    }

    /// The digest: `h2 + h1 * n` modulo 2^64, with `n` the bytes in the window.
    pub open spec fn digest(self) -> u64 {
        wrap_add(self.h2, wrap_mul(self.h1, self.window.len() as u64))
    }

    /// The state after the bytes of `bytes`, in order, starting from `self`.
    pub open spec fn push_all(self, bytes: Seq<u8>) -> RollingState
        decreases bytes.len(),
    {
        if bytes.len() == 0 {
            self
        } else {
            self.push_all(bytes.drop_last()).push(bytes.last())
        }
    }
}

/// The sum of the bytes of `s`.
pub open spec fn byte_sum(s: Seq<u8>) -> nat
    decreases s.len(),
{
    if s.len() == 0 {
        0
    } else {
        byte_sum(s.drop_last()) + s.last() as nat
    }
}

/// The last seven bytes of `bytes`, or all of them where there are fewer.
pub open spec fn tail_window(bytes: Seq<u8>) -> Seq<u8> {
    if bytes.len() <= 7 {
        bytes
    } else {
        bytes.subrange(bytes.len() - 7, bytes.len() as int)
    }
}

/// A sum is the first byte plus the sum of the rest, and each byte adds at
/// most 255.
pub proof fn lemma_byte_sum_front(s: Seq<u8>)
    ensures
        byte_sum(s) <= 255 * s.len(),
        s.len() > 0 ==> byte_sum(s) == s[0] + byte_sum(s.drop_first()),
    decreases s.len(),
{
    if s.len() == 1 {
        assert(s.drop_first() =~= Seq::<u8>::empty());
        assert(s.drop_last() =~= Seq::<u8>::empty());
    } else if s.len() > 1 {
        lemma_byte_sum_front(s.drop_last());
        assert(s.drop_last().drop_first() =~= s.drop_first().drop_last());
    }
}

/// After any stream the window holds exactly the last seven bytes of it (all
/// of them where there are fewer), and `h1` is the sum of the bytes held.
pub proof fn lemma_window_holds_the_tail(bytes: Seq<u8>)
    ensures
        RollingState::empty().push_all(bytes).window == tail_window(bytes),
        RollingState::empty().push_all(bytes).h1 == byte_sum(tail_window(bytes)),
    decreases bytes.len(),
{
    let after = RollingState::empty().push_all(bytes);
    if bytes.len() > 0 {
        let shorter = bytes.drop_last();
        let before = RollingState::empty().push_all(shorter);
        lemma_window_holds_the_tail(shorter);
        lemma_byte_sum_front(before.window);
        assert(after.window =~= tail_window(bytes));
        assert(after.window.drop_last() =~= if before.window.len() < 7 {
            before.window
        } else {
            before.window.drop_first()
        });
    } else {
        assert(after.window =~= tail_window(bytes));
    }
}

/// The rolling hash: a ring of the last seven bytes and the sums over them.
#[derive(Clone, Copy, Debug)]
pub struct Rolling {
    w: [u8; 7],
    h1: u64,
    h2: u64,
    n: usize,
    i: usize,
}

impl Rolling {
    /// The ring is within bounds, and while it fills the cursor is the count.
    pub closed spec fn wf(&self) -> bool {
        &&& self.n <= 7
        &&& self.i < 7
        &&& self.n < 7 ==> self.i == self.n
    }

    /// The bytes in the ring, oldest first.
    pub closed spec fn window(&self) -> Seq<u8> {
        Seq::new(self.n as nat, |k: int| self.w@[(self.i + 7 - self.n + k) % 7])
    }

    /// The mathematical value of the hash.
    pub closed spec fn state(&self) -> RollingState {
        RollingState { window: self.window(), h1: self.h1, h2: self.h2 }
    }

    /// The hash before any byte.
    pub fn new() -> (r: Self)
        ensures
            r.wf(),
            r.state() == RollingState::empty(),
    {
        let r = Rolling { w: [0; 7], h1: 0, h2: 0, n: 0, i: 0 };
        assert(r.window() =~= Seq::empty());
        r
    }

    /// Takes one more byte into the window.
    pub fn roll(&mut self, b: u8)
        requires
            old(self).wf(),
        ensures
            final(self).wf(),
            final(self).state() == old(self).state().push(b),
    {
        let ghost before = *self;
        if self.n < WINDOW {
            self.n += 1;
        } else {
            let gone: u8 = self.w[self.i];
            assert(gone == before.window()[0]);
            self.h1 = self.h1.wrapping_sub(gone as u64);
            self.h2 = self.h2.wrapping_sub(7 * (gone as u64)).wrapping_add(self.h1);
        }
        self.w[self.i] = b;
        self.i = (self.i + 1) % WINDOW;
        self.h1 = self.h1.wrapping_add(b as u64);
        self.h2 = self.h2.wrapping_add(self.h1);
        proof {
            Self::lemma_ring_step(before, *self, b);
        }
    }

    /// Writing `b` at the cursor and moving the cursor on drops the oldest
    /// byte of a full window and puts `b` at the end.
    proof fn lemma_ring_step(before: Rolling, after: Rolling, b: u8)
        requires
            before.wf(),
            after.w@ == before.w@.update(before.i as int, b),
            after.i == (before.i + 1) % 7,
            after.n == if before.n < 7 {
                before.n + 1
            } else {
                7
            },
        ensures
            after.window() == before.state().push(b).window,
    {
        let goal = before.state().push(b).window;
        assert(after.window().len() == goal.len());
        assert forall|k: int| 0 <= k < after.window().len() implies after.window()[k]
            == goal[k] by {
            if before.n < 7 {
                if k < before.n {
                    assert(before.window()[k] == before.w@[k]);
                }
            } else {
                if k < 6 {
                    assert(before.window()[k + 1] == before.w@[(before.i + k + 1) % 7]);
                }
            }
        }
        assert(after.window() =~= goal);
    }

    /// The digest of the window.
    pub fn digest(&self) -> (d: u64)
        requires
            self.wf(),
        ensures
            d == self.state().digest(),
    {
        assert(self.window().len() == self.n);
        self.h2.wrapping_add(self.h1.wrapping_mul(self.n as u64))
    }
}

} // verus!
