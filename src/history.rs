//! The rolling window of the most recent audio samples.
use vstd::prelude::*;

verus! {

/// The last `n` items of `s`, or all of `s` when it holds fewer.
pub open spec fn last_n<T>(s: Seq<T>, n: nat) -> Seq<T> {
    if s.len() <= n {
        s
    } else {
        s.subrange(s.len() - n, s.len() as int)
    }
}

/// The window does not depend on how the stream was cut into chunks: pushing
/// `a` and then `b` into a full window of `n` samples leaves the same window as
/// pushing `a + b` at once.
pub proof fn lemma_push_twice<T>(s: Seq<T>, a: Seq<T>, b: Seq<T>, n: nat)
    requires
        s.len() == n,
    ensures
        last_n(last_n(s + a, n) + b, n) == last_n(s + a + b, n),
{
    let t = s + a;
    let u = last_n(t, n);
    assert(u.len() == n);
    let lhs = last_n(u + b, n);
    let rhs = last_n(t + b, n);
    assert(lhs.len() == n && rhs.len() == n);
    assert forall|i: int| 0 <= i < n implies lhs[i] == rhs[i] by {
        if b.len() + i < n {
            assert(lhs[i] == u[b.len() + i]);
            assert(rhs[i] == t[t.len() - n + b.len() + i]);
        } else {
            assert(lhs[i] == b[b.len() + i - n]);
            assert(rhs[i] == b[b.len() + i - n]);
        }
    }
    assert(lhs =~= rhs);
    assert(s + a + b =~= t + b);
}

/// A fixed-capacity first-in first-out window over a stream of samples: it
/// always holds the `capacity` most recent ones, oldest first.
pub struct RollingHistory<T> {
    samples: Vec<T>,
}

impl<T: Copy> RollingHistory<T> {
    /// The samples held, oldest first.
    pub closed spec fn view(&self) -> Seq<T> {
        self.samples@
    }

    /// A window of `capacity` samples, each equal to `fill`.
    pub fn new(capacity: usize, fill: T) -> (r: RollingHistory<T>)
        ensures
            r.view() == Seq::new(capacity as nat, |i: int| fill),
    {
        let mut samples: Vec<T> = Vec::new();
        let mut i: usize = 0;
        while i < capacity
            invariant
                i <= capacity,
                samples@ == Seq::new(i as nat, |j: int| fill),
            decreases capacity - i,
        {
            samples.push(fill);
            proof {
                assert(samples@ =~= Seq::new((i + 1) as nat, |j: int| fill));
            }
            i = i + 1;
        }
        RollingHistory { samples }
    }

    /// The number of samples held; it never changes.
    pub fn capacity(&self) -> (r: usize)
        ensures
            r == self.view().len(),
    {
        self.samples.len()
    }

    /// The samples held, oldest first.
    pub fn samples(&self) -> (r: &Vec<T>)
        ensures
            r@ == self.view(),
    {
        &self.samples
    }

    /// Appends `chunk` and drops as many of the oldest samples, so that the
    /// window holds the `capacity` most recent samples of the stream.
    pub fn push(&mut self, chunk: &[T])
        ensures
            final(self).view() == last_n(old(self).view() + chunk@, old(self).view().len()),
    {
        let cap = self.samples.len();
        let n = chunk.len();
        let mut out: Vec<T> = Vec::new();
        let ghost all = self.samples@ + chunk@;
        // Keep the tail of the old samples that is not pushed out.
        if n < cap {
            let mut i: usize = n;
            while i < cap
                invariant
                    n <= i <= cap,
                    cap == self.samples.len(),
                    out@ == self.samples@.subrange(n as int, i as int),
                decreases cap - i,
            {
                out.push(self.samples[i]);
                proof {
                    assert(self.samples@.subrange(n as int, i + 1) =~= self.samples@.subrange(
                        n as int,
                        i as int,
                    ).push(self.samples@[i as int]));
                }
                i = i + 1;
            }
        }
        let first: usize = if n > cap {
            n - cap
        } else {
            0
        };
        let mut j: usize = first;
        while j < n
            invariant
                first <= j <= n,
                n == chunk@.len(),
                cap == self.samples.len(),
                first == (if n > cap {
                    n - cap
                } else {
                    0
                }),
                out@ == (if n < cap {
                    self.samples@.subrange(n as int, cap as int)
                } else {
                    Seq::<T>::empty()
                }) + chunk@.subrange(first as int, j as int),
            decreases n - j,
        {
            out.push(chunk[j]);
            proof {
                assert(chunk@.subrange(first as int, j + 1) =~= chunk@.subrange(
                    first as int,
                    j as int,
                ).push(chunk@[j as int]));
            }
            j = j + 1;
        }
        proof {
            if n < cap {
                assert(out@ =~= all.subrange(all.len() - cap, all.len() as int));
            } else {
                assert(out@ =~= all.subrange(all.len() - cap, all.len() as int));
            }
        }
        self.samples = out;
    }
}

} // verus!
