//! Read cursor of the crossfade buffer that overlays the tail of a stolen voice.
//!
//! The buffer holds `N` samples per channel. Adding a voice restarts reading at
//! the first sample; each block then reads as many of the remaining samples as
//! the block is long, and once all `N` have been read the buffer adds nothing
//! until the next voice is added.

use vstd::prelude::*;

verus! {

/// Where the next read from a crossfade buffer of `N` samples starts; `N` when
/// nothing is left to read.
#[derive(Copy, Clone, Debug)]
pub struct FadeCursor<const N: usize> {
    index: usize,
}

/// The smaller of two integers.
pub open spec fn min(a: int, b: int) -> int {
    if a <= b { a } else { b }
}

/// The cursor after a read of `len` samples from `pos` in a buffer of `n`.
pub open spec fn step(pos: int, len: int, n: int) -> int {
    pos + min(len, n - pos)
}

/// The cursor after reads of the given lengths, one after the other, from `pos`.
pub open spec fn cursor_after(pos: int, lens: Seq<nat>, n: int) -> int
    decreases lens.len(),
{
    if lens.len() == 0 {
        pos
    } else {
        cursor_after(step(pos, lens[0] as int, n), lens.drop_first(), n)
    }
}

/// The sum of a sequence of lengths.
pub open spec fn total(lens: Seq<nat>) -> nat
    decreases lens.len(),
{
    if lens.len() == 0 {
        0
    } else {
        lens[0] + total(lens.drop_first())
    }
}

impl<const N: usize> FadeCursor<N> {
    /// The position of the next sample to read.
    pub closed spec fn pos(&self) -> int {
        self.index as int
    }

    pub open spec fn wf(&self) -> bool {
        0 <= self.pos() <= N
    }

    /// A cursor with nothing left to read.
    pub fn new() -> (r: Self)
        ensures
            r.wf(),
            r.pos() == N,
    {
        FadeCursor { index: N }
    }

    /// The position of the next sample to read.
    pub fn index(&self) -> (r: usize)
        ensures
            r == self.pos(),
    {
        self.index
    }

    /// How many samples are left to read.
    pub fn remaining(&self) -> (r: usize)
        requires
            self.wf(),
        ensures
            r == N - self.pos(),
    {
        N - self.index
    }

    /// Starts reading a freshly added voice from the first sample. Returns where
    /// the cursor stood: the samples from there to `N` are the unread tail that
    /// the new content carries forward.
    pub fn restart(&mut self) -> (r: usize)
        requires
            old(self).wf(),
        ensures
            r == old(self).pos(),
            final(self).wf(),
            final(self).pos() == 0,
    {
        let r = self.index;
        self.index = 0;
        r
    }

    /// Reads up to `len` samples: returns the first position to read and how many
    /// samples to read, which is `len` capped by what is left.
    pub fn take(&mut self, len: usize) -> (r: (usize, usize))
        requires
            old(self).wf(),
        ensures
            r.0 == old(self).pos(),
            r.1 == min(len as int, N - old(self).pos()),
            final(self).wf(),
            final(self).pos() == step(old(self).pos(), len as int, N as int),
    {
        let start = self.index;
        let left = N - self.index;
        let count = if len < left { len } else { left };
        self.index = start + count;
        (start, count)
    }
}

/// Reads from a position within the buffer reach `N` exactly when the lengths
/// read add up to what was left, and stop there.
proof fn lemma_cursor_after(pos: int, lens: Seq<nat>, n: int)
    requires
        0 <= pos <= n,
    ensures
        cursor_after(pos, lens, n) == min(pos + total(lens), n),
    decreases lens.len(),
{
    if lens.len() > 0 {
        lemma_cursor_after(step(pos, lens[0] as int, n), lens.drop_first(), n);
    }
}

/// After a voice is added, a run of reads has consumed the smaller of the lengths
/// requested and `N`; once `N` samples have been read nothing is left, and every
/// further read has length zero.
pub proof fn lemma_fade_drains<const N: usize>(lens: Seq<nat>, more: nat)
    ensures
        cursor_after(0, lens, N as int) == min(total(lens) as int, N as int),
        total(lens) >= N ==> cursor_after(0, lens, N as int) == N,
        total(lens) >= N ==> min(more as int, N - cursor_after(0, lens, N as int)) == 0,
{
    lemma_cursor_after(0, lens, N as int);
}

} // verus!
