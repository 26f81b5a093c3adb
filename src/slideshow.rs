use vstd::prelude::*;

use crate::frame::FrameBuffer;

verus! {

/// Microseconds that each frame stays on screen.
pub const FRAME_INTERVAL_MICROS: usize = 3_000_000;

/// Why a slideshow could not start.
#[derive(Clone, Copy, Debug, PartialEq, Eq, Structural)]
pub enum SlideshowError {
    /// There is no frame to show.
    NoImages,
}

/// The position shown after `k` advances from the first frame of `n`.
pub open spec fn position_after(n: nat, k: nat) -> nat
    decreases k,
{
    if k == 0 {
        0
    } else {
        (position_after(n, (k - 1) as nat) + 1) % n
    }
}

/// A non-empty, ordered list of frames shown one after another, wrapping around.
pub struct Slideshow {
    frames: Vec<FrameBuffer>,
    next: usize,
}

impl Slideshow {
    /// The frames in the order they are shown.
    pub closed spec fn frames(&self) -> Seq<FrameBuffer> {
        self.frames@
    }

    /// Index of the frame that the next advance shows.
    pub closed spec fn position(&self) -> nat {
        self.next as nat
    }

    pub open spec fn wf(&self) -> bool {
        self.frames().len() > 0 && self.position() < self.frames().len()
    }

    /// Starts at the first frame; an empty list is refused.
    pub fn new(frames: Vec<FrameBuffer>) -> (r: Result<Slideshow, SlideshowError>)
        ensures
            r is Err <==> frames@.len() == 0,
            match r {
                Ok(s) => s.wf() && s.frames() == frames@ && s.position() == 0,
                Err(e) => e == SlideshowError::NoImages,
            },
    {
        if frames.len() == 0 {
            Err(SlideshowError::NoImages)
        } else {
            Ok(Slideshow { frames, next: 0 })
        }
    }

    pub fn len(&self) -> (r: usize)
        ensures
            r == self.frames().len(),
    {
        self.frames.len()
    }

    pub fn position_index(&self) -> (r: usize)
        ensures
            r == self.position(),
    {
        self.next
    }

    /// Returns the index of the frame to show now and moves on to the following one,
    /// back to the first after the last.
    pub fn advance(&mut self) -> (r: usize)
        requires
            old(self).wf(),
        ensures
            r == old(self).position(),
            final(self).wf(),
            final(self).frames() == old(self).frames(),
            final(self).position() == (old(self).position() + 1) % old(self).frames().len(),
    {
        let r = self.next;
        proof {
            assert(self.frames.len() == self.frames@.len());
        }
        if self.next + 1 == self.frames.len() {
            self.next = 0;
            proof {
                vstd::arithmetic::div_mod::lemma_mod_self_0(self.frames@.len() as int);
            }
        } else {
            self.next = self.next + 1;
            proof {
                vstd::arithmetic::div_mod::lemma_small_mod(self.next as nat, self.frames@.len());
            }
        }
        r
    }

    /// The frame at `i`.
    pub fn frame(&self, i: usize) -> (r: &FrameBuffer)
        requires
            i < self.frames().len(),
        ensures
            *r == self.frames()[i as int],
    {
        &self.frames[i]
    }

    /// The frame to show now; the slideshow moves on to the following one.
    pub fn next_frame(&mut self) -> (r: &FrameBuffer)
        requires
            old(self).wf(),
        ensures
            *r == old(self).frames()[old(self).position() as int],
            final(self).wf(),
            final(self).frames() == old(self).frames(),
            final(self).position() == (old(self).position() + 1) % old(self).frames().len(),
    {
        let i = self.advance();
        &self.frames[i]
    }
}

/// Starting from the first frame, the `k`-th advance shows frame `k mod n`: the frames come
/// in the order given, over and over.
pub proof fn lemma_cycle_order(n: nat, k: nat)
    requires
        n > 0,
    ensures
        position_after(n, k) == k % n,
    decreases k,
{
    if k > 0 {
        lemma_cycle_order(n, (k - 1) as nat);
        let p = ((k - 1) as int) % (n as int);
        let q = ((k - 1) as int) / (n as int);
        vstd::arithmetic::div_mod::lemma_fundamental_div_mod((k - 1) as int, n as int);
        if p + 1 < n {
            vstd::arithmetic::div_mod::lemma_small_mod((p + 1) as nat, n);
            vstd::arithmetic::div_mod::lemma_fundamental_div_mod_converse(k as int, n as int, q, p + 1);
        } else {
            vstd::arithmetic::div_mod::lemma_mod_self_0(n as int);
            assert(k == (q + 1) * n) by (nonlinear_arith)
                requires
                    (k - 1) as int == n * q + p,
                    p + 1 == n,
                    k > 0,
            ;
            vstd::arithmetic::div_mod::lemma_fundamental_div_mod_converse(k as int, n as int, q + 1, 0);
        }
    } else {
        vstd::arithmetic::div_mod::lemma_small_mod(0, n);
    }
}

} // verus!
