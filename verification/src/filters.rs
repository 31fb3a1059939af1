//! The rolling maximum over recent samples.
use vstd::prelude::*;

use crate::scalar::{Scalar, NEG_INFINITY};

verus! {

/// The largest number of a window, ignoring what is not a number; negative infinity when
/// there is none.
pub open spec fn maximum(window: Seq<Scalar>) -> Scalar
    decreases window.len(),
{
    if window.len() == 0 {
        Scalar { bits: NEG_INFINITY }
    } else {
        maximum(window.drop_last()).larger(window.last())
    }
}

/// A window in which nothing has been seen yet.
pub open spec fn unseen(len: nat) -> Seq<Scalar> {
    Seq::new(len, |i: int| Scalar { bits: NEG_INFINITY })
}

/// How long a window of the requested length is: at least one sample.
pub open spec fn window_len(len: usize) -> nat {
    if len == 0 {
        1
    } else {
        len as nat
    }
}

/// Rolling maximum over a fixed number of recent samples.
///
/// Used both for peak-hold (so reported intensity reflects the true impact peak rather
/// than whichever sample happened to cross the threshold first) and for the gyroscope
/// corroboration window.
#[derive(Debug)]
pub struct RollingMax {
    buf: Vec<Scalar>,
    idx: usize,
}

impl View for RollingMax {
    type V = Seq<Scalar>;

    /// The window, oldest sample first.
    closed spec fn view(&self) -> Seq<Scalar> {
        self.buf@.subrange(self.idx as int, self.buf@.len() as int) + self.buf@.subrange(
            0,
            self.idx as int,
        )
    }
}

impl RollingMax {
    /// The position of the oldest sample lies in the buffer.
    pub closed spec fn valid(self) -> bool {
        self.idx < self.buf@.len()
    }

    /// A window of `len` samples, or of one where `len` is zero.
    pub fn new(len: usize) -> (r: RollingMax)
        ensures
            r.valid(),
            r@ == unseen(window_len(len)),
            len > 0 ==> r@.len() == len,
            len == 0 ==> r@.len() == 1,
            forall|i: int| 0 <= i < r@.len() ==> (#[trigger] r@[i]).bits == 0xff80_0000,
    {
        let n: usize = if len == 0 {
            1
        } else {
            len
        };
        let mut buf: Vec<Scalar> = Vec::new();
        for i in 0..n
            invariant
                buf@ == unseen(i as nat),
        {
            buf.push(Scalar { bits: NEG_INFINITY });
            proof {
                assert(buf@ =~= unseen((i + 1) as nat));
            }
        }
        let r = RollingMax { buf, idx: 0 };
        proof {
            assert(r@ =~= r.buf@);
        }
        r
    }

    /// Takes in a sample; the oldest one leaves the window.
    pub fn push(&mut self, x: Scalar)
        requires
            old(self).valid(),
        ensures
            final(self).valid(),
            final(self)@ == old(self)@.drop_first().push(x),
    {
        let n: usize = self.buf.len();
        let at: usize = self.idx;
        self.buf.set(at, x);
        self.idx = if at + 1 == n {
            0
        } else {
            at + 1
        };
        proof {
            assert(self@ =~= old(self)@.drop_first().push(x));
        }
    }

    /// Largest value currently in the window.
    pub fn max(&self) -> (r: Scalar)
        requires
            self.valid(),
        ensures
            r == maximum(self@),
    {
        let n: usize = self.buf.len();
        let mut r: Scalar = Scalar { bits: NEG_INFINITY };
        let mut k: usize = 0;
        let mut at: usize = self.idx;
        while k < n
            invariant
                self.valid(),
                n == self.buf@.len(),
                n == self@.len(),
                k <= n,
                at < n,
                at == (if self.idx + k < n { self.idx + k } else { self.idx + k - n }),
                r == maximum(self@.take(k as int)),
            decreases n - k,
        {
            let x: Scalar = self.buf[at];
            proof {
                assert(x == self@[k as int]);
                assert(self@.take(k as int + 1).drop_last() =~= self@.take(k as int));
            }
            r = r.max(x);
            at = if at + 1 == n {
                0
            } else {
                at + 1
            };
            k = k + 1;
        }
        proof {
            assert(self@.take(n as int) =~= self@);
        }
        r
    }

    /// Forgets every sample.
    pub fn reset(&mut self)
        requires
            old(self).valid(),
        ensures
            final(self).valid(),
            final(self)@ == unseen(old(self)@.len()),
    {
        let n: usize = self.buf.len();
        *self = RollingMax::new(n);
    }
}

/// The maximum of a window is one of its samples or negative infinity, and no sample of
/// the window is above it.
pub proof fn maximum_bounds(window: Seq<Scalar>)
    ensures
        !maximum(window).nan(),
        maximum(window).bits == NEG_INFINITY || window.contains(maximum(window)),
        forall|i: int| 0 <= i < window.len() ==> !maximum(window).below(#[trigger] window[i]),
    decreases window.len(),
{
    if window.len() > 0 {
        let rest = window.drop_last();
        let m = maximum(rest);
        maximum_bounds(rest);
        if m.below(window.last()) {
            assert(window[window.len() - 1] == maximum(window));
        } else if m.bits != NEG_INFINITY {
            let k = choose|k: int| 0 <= k < rest.len() && rest[k] == m;
            assert(window[k] == m);
        }
        assert forall|i: int| 0 <= i < window.len() implies !maximum(window).below(
            #[trigger] window[i],
        ) by {
            if i < rest.len() {
                assert(rest[i] == window[i]);
            }
        }
    }
}

/// A window of `n` samples forgets: after `n` more samples it holds just those, whatever
/// it held before.
pub proof fn window_forgets(window: Seq<Scalar>, samples: Seq<Scalar>)
    requires
        samples.len() == window.len(),
    ensures
        after(window, samples) == samples,
{
    after_shifts(window, samples);
}

/// The window after it took in `samples`, in order.
pub open spec fn after(window: Seq<Scalar>, samples: Seq<Scalar>) -> Seq<Scalar>
    decreases samples.len(),
{
    if samples.len() == 0 {
        window
    } else {
        after(window, samples.drop_last()).drop_first().push(samples.last())
    }
}

proof fn after_shifts(window: Seq<Scalar>, samples: Seq<Scalar>)
    requires
        samples.len() <= window.len(),
    ensures
        after(window, samples) == window.skip(samples.len() as int) + samples,
    decreases samples.len(),
{
    if samples.len() == 0 {
        assert(window.skip(0) + samples =~= window);
    } else {
        after_shifts(window, samples.drop_last());
        assert(after(window, samples) =~= window.skip(samples.len() as int) + samples);
    }
}

/// A window is as long as it was asked to be, and one sample long where it was asked to hold
/// none.
pub proof fn a_window_holds_something(len: usize, n: nat, i: int)
    ensures
        len > 0 ==> window_len(len) == len,
        len == 0 ==> window_len(len) == 1,
        unseen(n).len() == n,
        0 <= i < n ==> unseen(n)[i].bits == 0xff80_0000,
{
}

/// A window slides: each sample pushes the oldest out, so that it always holds the latest.
pub proof fn a_window_slides(window: Seq<Scalar>, samples: Seq<Scalar>, x: Scalar)
    requires
        window.len() > 0,
    ensures
        after(window, Seq::<Scalar>::empty()) == window,
        after(window, samples.push(x)).last() == x,
        after(window, samples.push(x)).len() == after(window, samples).drop_first().len() + 1,
        after(window, samples.push(x)).drop_last() == after(window, samples).drop_first(),
{
    assert(samples.push(x).drop_last() =~= samples);
    assert(after(window, samples.push(x)).drop_last() =~= after(window, samples).drop_first());
}

} // verus!
