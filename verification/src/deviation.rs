//! The spread of a series about a centre: the square root of the mean of the
//! squared deviations, computed without overflow whatever the samples are.

use vstd::prelude::*;
use vstd::arithmetic::div_mod::{
    lemma_fundamental_div_mod, lemma_fundamental_div_mod_converse, lemma_mod_bound,
};
use crate::fixed::{clamp, int_sqrt, isqrt};

verus! {

/// The sum of the squares of the distances of the elements of `s` from
/// `center`.
pub open spec fn sum_sq_dev(s: Seq<i64>, center: int) -> int
    decreases s.len(),
{
    if s.len() == 0 {
        0
    } else {
        sum_sq_dev(s.drop_last(), center) + (s.last() - center) * (s.last() - center)
    }
}

/// The square root of the mean of `total` over `count` terms, both rounded
/// down, as a quantity.
pub open spec fn root_mean(total: int, count: int) -> int
    recommends
        total >= 0,
        count > 0,
{
    clamp(int_sqrt((total / count) as nat) as int)
}

/// The population standard deviation of `s` about `center`.
pub open spec fn spread_about(s: Seq<i64>, center: int) -> int
    recommends
        s.len() > 0,
{
    root_mean(sum_sq_dev(s, center), s.len() as int)
}

/// The largest distance between two `i64` values.
pub open spec fn max_distance() -> int {
    0xffff_ffff_ffff_ffff
}

/// Accumulates the squares of up to `size` deviations and keeps their mean as
/// a quotient and a remainder, so that no sum of squares is ever formed.
pub struct SquareAcc {
    count: u128,
    fed: u128,
    quot: u128,
    rem: u128,
}

impl SquareAcc {
    /// The sum of the squares taken in so far.
    pub closed spec fn total(&self) -> int {
        self.quot * self.count + self.rem
    }

    /// The number of squares taken in so far.
    pub closed spec fn terms(&self) -> nat {
        self.fed as nat
    }

    /// The number of squares that the mean is taken over.
    pub closed spec fn size(&self) -> nat {
        self.count as nat
    }

    pub closed spec fn wf(&self) -> bool {
        &&& 1 <= self.count <= 0x1_0000_0000_0000_0000
        &&& self.fed <= self.count
        &&& self.rem < self.count
        &&& self.total() <= self.fed * (max_distance() * max_distance())
    }

    /// An accumulator for the mean of `count` squares.
    pub fn new(count: usize) -> (acc: Self)
        requires
            count >= 1,
        ensures
            acc.wf(),
            acc.total() == 0,
            acc.terms() == 0,
            acc.size() == count,
    {
        let acc = SquareAcc { count: count as u128, fed: 0, quot: 0, rem: 0 };
        assert(acc.quot * acc.count + acc.rem == 0) by (nonlinear_arith)
            requires
                acc.quot == 0,
                acc.rem == 0,
        ;
        assert(acc.fed * (max_distance() * max_distance()) == 0) by (nonlinear_arith)
            requires
                acc.fed == 0,
        ;
        acc
    }

    /// Takes in the square of the deviation `dev`.
    pub fn feed(&mut self, dev: i128)
        requires
            old(self).wf(),
            old(self).terms() < old(self).size(),
            -max_distance() <= dev <= max_distance(),
        ensures
            final(self).wf(),
            final(self).total() == old(self).total() + dev * dev,
            final(self).terms() == old(self).terms() + 1,
            final(self).size() == old(self).size(),
    {
        let a: u128 = if dev < 0 {
            (-dev) as u128
        } else {
            dev as u128
        };
        let ghost m = max_distance() * max_distance();
        assert(a * a == dev * dev && a * a <= m && m < 0x1_0000_0000_0000_0000_0000_0000_0000_0000)
            by (nonlinear_arith)
            requires
                a == dev || a == -dev,
                0 <= a <= 0xffff_ffff_ffff_ffff,
                m == 0xffff_ffff_ffff_ffff * 0xffff_ffff_ffff_ffff,
        ;
        let t: u128 = a * a;
        let dq: u128 = t / self.count;
        let dr: u128 = t % self.count;
        let ghost n = self.count as int;
        let ghost q0 = self.quot as int;
        let ghost r0 = self.rem as int;
        let ghost k = self.fed as int;
        proof {
            lemma_fundamental_div_mod(t as int, n);
            lemma_mod_bound(t as int, n);
            assert(t == dq * n + dr) by (nonlinear_arith)
                requires
                    t == n * dq + dr,
            ;
            assert((q0 + dq) * n + (r0 + dr) == q0 * n + r0 + t && (q0 + dq + 1) * n + (r0 + dr - n)
                == q0 * n + r0 + t) by (nonlinear_arith)
                requires
                    t == dq * n + dr,
            ;
            assert(q0 * n + r0 + t <= n * m && (k + 1) * m == k * m + m) by (nonlinear_arith)
                requires
                    q0 * n + r0 <= k * m,
                    t <= m,
                    k + 1 <= n,
                    m >= 0,
            ;
            assert(q0 + dq <= m) by (nonlinear_arith)
                requires
                    (q0 + dq) * n + (r0 + dr) <= n * m,
                    r0 + dr >= 0,
                    n >= 1,
            ;
            if r0 + dr >= n {
                assert(q0 + dq + 1 <= m) by (nonlinear_arith)
                    requires
                        (q0 + dq + 1) * n + (r0 + dr - n) <= n * m,
                        r0 + dr - n >= 0,
                        n >= 1,
                ;
            }
        }
        let mut quot: u128 = self.quot + dq;
        let mut rem: u128 = self.rem + dr;
        if rem >= self.count {
            rem = rem - self.count;
            quot = quot + 1;
        }
        self.quot = quot;
        self.rem = rem;
        self.fed = self.fed + 1;
    }

    /// The mean of the squares taken in, rounded down.
    pub fn mean(&self) -> (q: u128)
        requires
            self.wf(),
        ensures
            q == self.total() / (self.size() as int),
    {
        proof {
            let n = self.count as int;
            assert(self.total() == self.quot * n + self.rem);
            lemma_fundamental_div_mod_converse(self.total(), n, self.quot as int, self.rem as int);
        }
        self.quot
    }

    /// The square root of the mean of the squares taken in.
    pub fn root(&self) -> (r: i64)
        requires
            self.wf(),
        ensures
            r == root_mean(self.total(), self.size() as int),
    {
        let root: u64 = isqrt(self.mean());
        if root > i64::MAX as u64 {
            i64::MAX
        } else {
            root as i64
        }
    }
}

} // verus!
