//! A number that stays below a limit: additions and subtractions wrap around it.

use vstd::prelude::*;
use vstd::arithmetic::div_mod::{
    lemma_add_mod_noop, lemma_mod_multiples_vanish, lemma_mod_self_0, lemma_small_mod,
};
use vstd::std_specs::ops::{AddSpecImpl, SubSpecImpl};
use std::ops::{Add, AddAssign, Deref, Sub, SubAssign};

verus! {

/// What `num + rhs` becomes under the limit.
pub open spec fn wrap_add(num: int, rhs: int, limit: int) -> int {
    (num + rhs) % limit
}

/// What `num - rhs` becomes under the limit. A value that is not below `rhs`
/// is only lowered; a smaller one wraps around the limit.
pub open spec fn wrap_sub(num: int, rhs: int, limit: int) -> int {
    if num >= rhs {
        num - rhs
    } else {
        (limit - (rhs - num) % limit) % limit
    }
}

/// Simulates modular arithmetic (used for the data pointer)
#[derive(Clone, Copy)]
pub struct Modular {
    pub limit: usize,
    pub num: usize,
}

impl View for Modular {
    type V = int;

    open spec fn view(&self) -> int {
        self.num as int
    }
}

impl Modular {
    /// The value with the given number under the given limit.
    pub open spec fn of(num: int, limit: int) -> Modular {
        Modular { limit: limit as usize, num: num as usize }
    }

    /// The number `num` under `limit`, taken as it is.
    pub fn from_value(num: usize, limit: usize) -> (r: Self)
        ensures
            r@ == num,
            r.limit == limit,
            r == Self::of(num as int, limit as int),
    {
        Self { limit, num }
    }

    /// Zero under `limit`.
    pub fn with_limit(limit: usize) -> (r: Self)
        ensures
            r@ == 0,
            r.limit == limit,
            r == Self::of(0, limit as int),
    {
        Self { limit, num: 0 }
    }

    /// Puts the number back to zero and keeps the limit.
    pub fn reset(&mut self)
        ensures
            final(self)@ == 0,
            final(self).limit == old(self).limit,
    {
        self.num = 0
    }

    /// The number itself.
    pub fn value(&self) -> (r: usize)
        ensures
            r == self@,
    {
        self.num
    }
}

impl AddSpecImpl<usize> for Modular {
    open spec fn obeys_add_spec() -> bool {
        true
    }

    open spec fn add_req(self, rhs: usize) -> bool {
        self.limit > 0
    }

    open spec fn add_spec(self, rhs: usize) -> Modular {
        Modular::of(wrap_add(self@, rhs as int, self.limit as int), self.limit as int)
    }
}

/// The sum under the limit. Nothing overflows on the way, whatever the two
/// numbers are.
impl Add<usize> for Modular {
    type Output = Modular;

    fn add(self, rhs: usize) -> (r: Modular)
        ensures
            r@ == wrap_add(self@, rhs as int, self.limit as int),
            r.limit == self.limit,
            r@ < self.limit,
    {
        let a: usize = self.num % self.limit;
        let b: usize = rhs % self.limit;
        proof {
            let l = self.limit as int;
            lemma_add_mod_noop(self.num as int, rhs as int, l);
            if a + b >= l {
                lemma_mod_multiples_vanish(-1, a + b, l);
                lemma_small_mod((a + b - l) as nat, l as nat);
            } else {
                lemma_small_mod((a + b) as nat, l as nat);
            }
        }
        let num: usize = if a >= self.limit - b {
            a - (self.limit - b)
        } else {
            a + b
        };
        Self { limit: self.limit, num }
    }
}

impl SubSpecImpl<usize> for Modular {
    open spec fn obeys_sub_spec() -> bool {
        true
    }

    open spec fn sub_req(self, rhs: usize) -> bool {
        self.limit > 0
    }

    open spec fn sub_spec(self, rhs: usize) -> Modular {
        Modular::of(wrap_sub(self@, rhs as int, self.limit as int), self.limit as int)
    }
}

/// The difference under the limit.
impl Sub<usize> for Modular {
    type Output = Modular;

    fn sub(self, rhs: usize) -> (r: Modular)
        ensures
            r@ == wrap_sub(self@, rhs as int, self.limit as int),
            r.limit == self.limit,
            self@ < self.limit ==> r@ < self.limit,
    {
        let num: usize = if self.num >= rhs {
            self.num - rhs
        } else {
            (self.limit - (rhs - self.num) % self.limit) % self.limit
        };
        Self { limit: self.limit, num }
    }
}

impl AddSpecImpl<&usize> for Modular {
    open spec fn obeys_add_spec() -> bool {
        true
    }

    open spec fn add_req(self, rhs: &usize) -> bool {
        self.limit > 0
    }

    open spec fn add_spec(self, rhs: &usize) -> Modular {
        Modular::of(wrap_add(self@, *rhs as int, self.limit as int), self.limit as int)
    }
}

impl Add<&usize> for Modular {
    type Output = Modular;

    fn add(self, rhs: &usize) -> (r: Modular) {
        self + *rhs
    }
}

impl AddSpecImpl<usize> for &Modular {
    open spec fn obeys_add_spec() -> bool {
        true
    }

    open spec fn add_req(self, rhs: usize) -> bool {
        self.limit > 0
    }

    open spec fn add_spec(self, rhs: usize) -> Modular {
        Modular::of(wrap_add(self@, rhs as int, self.limit as int), self.limit as int)
    }
}

impl Add<usize> for &Modular {
    type Output = Modular;

    fn add(self, rhs: usize) -> (r: Modular) {
        *self + rhs
    }
}

impl AddSpecImpl<&usize> for &Modular {
    open spec fn obeys_add_spec() -> bool {
        true
    }

    open spec fn add_req(self, rhs: &usize) -> bool {
        self.limit > 0
    }

    open spec fn add_spec(self, rhs: &usize) -> Modular {
        Modular::of(wrap_add(self@, *rhs as int, self.limit as int), self.limit as int)
    }
}

impl Add<&usize> for &Modular {
    type Output = Modular;

    fn add(self, rhs: &usize) -> (r: Modular) {
        *self + *rhs
    }
}

impl SubSpecImpl<&usize> for Modular {
    open spec fn obeys_sub_spec() -> bool {
        true
    }

    open spec fn sub_req(self, rhs: &usize) -> bool {
        self.limit > 0
    }

    open spec fn sub_spec(self, rhs: &usize) -> Modular {
        Modular::of(wrap_sub(self@, *rhs as int, self.limit as int), self.limit as int)
    }
}

impl Sub<&usize> for Modular {
    type Output = Modular;

    fn sub(self, rhs: &usize) -> (r: Modular) {
        self - *rhs
    }
}

impl SubSpecImpl<usize> for &Modular {
    open spec fn obeys_sub_spec() -> bool {
        true
    }

    open spec fn sub_req(self, rhs: usize) -> bool {
        self.limit > 0
    }

    open spec fn sub_spec(self, rhs: usize) -> Modular {
        Modular::of(wrap_sub(self@, rhs as int, self.limit as int), self.limit as int)
    }
}

impl Sub<usize> for &Modular {
    type Output = Modular;

    fn sub(self, rhs: usize) -> (r: Modular) {
        *self - rhs
    }
}

impl SubSpecImpl<&usize> for &Modular {
    open spec fn obeys_sub_spec() -> bool {
        true
    }

    open spec fn sub_req(self, rhs: &usize) -> bool {
        self.limit > 0
    }

    open spec fn sub_spec(self, rhs: &usize) -> Modular {
        Modular::of(wrap_sub(self@, *rhs as int, self.limit as int), self.limit as int)
    }
}

impl Sub<&usize> for &Modular {
    type Output = Modular;

    fn sub(self, rhs: &usize) -> (r: Modular) {
        *self - *rhs
    }
}

impl Deref for Modular {
    type Target = usize;

    fn deref(&self) -> (r: &usize)
        ensures
            *r == self@,
    {
        &self.num
    }
}

/// Adds in place, wrapping at the limit.
impl AddAssign<usize> for Modular {
    fn add_assign(&mut self, rhs: usize)
        requires
            old(self).limit > 0,
        ensures
            final(self)@ == wrap_add(old(self)@, rhs as int, old(self).limit as int),
            final(self).limit == old(self).limit,
    {
        *self = *self + rhs
    }
}

impl AddAssign<&usize> for Modular {
    fn add_assign(&mut self, rhs: &usize)
        requires
            old(self).limit > 0,
        ensures
            final(self)@ == wrap_add(old(self)@, *rhs as int, old(self).limit as int),
            final(self).limit == old(self).limit,
    {
        *self = *self + *rhs
    }
}

/// Subtracts in place, wrapping at the limit.
impl SubAssign<usize> for Modular {
    fn sub_assign(&mut self, rhs: usize)
        requires
            old(self).limit > 0,
        ensures
            final(self)@ == wrap_sub(old(self)@, rhs as int, old(self).limit as int),
            final(self).limit == old(self).limit,
    {
        *self = *self - rhs
    }
}

impl SubAssign<&usize> for Modular {
    fn sub_assign(&mut self, rhs: &usize)
        requires
            old(self).limit > 0,
        ensures
            final(self)@ == wrap_sub(old(self)@, *rhs as int, old(self).limit as int),
            final(self).limit == old(self).limit,
    {
        *self = *self - *rhs
    }
}

/// Under its limit a value wraps as the integers do: the sum and the
/// difference are those of the integers, reduced by the limit, and adding
/// what was taken away gives the value back.
pub proof fn lemma_wrapping_is_modular(num: int, rhs: int, limit: int)
    requires
        0 <= num < limit,
        0 <= rhs,
    ensures
        0 <= wrap_add(num, rhs, limit) < limit,
        0 <= wrap_sub(num, rhs, limit) < limit,
        wrap_sub(num, rhs, limit) == (num - rhs) % limit,
        wrap_add(wrap_sub(num, rhs, limit), rhs, limit) == num,
{
    vstd::arithmetic::div_mod::lemma_mod_bound(num + rhs, limit);
    vstd::arithmetic::div_mod::lemma_mod_bound(num - rhs, limit);
    if num >= rhs {
        lemma_small_mod((num - rhs) as nat, limit as nat);
        lemma_small_mod(num as nat, limit as nat);
    } else {
        let d = rhs - num;
        vstd::arithmetic::div_mod::lemma_mod_bound(d, limit);
        vstd::arithmetic::div_mod::lemma_fundamental_div_mod(d, limit);
        let q = d / limit;
        let m = d % limit;
        if m == 0 {
            lemma_mod_self_0(limit);
            lemma_mod_multiples_vanish(-q, 0, limit);
            lemma_small_mod(0, limit as nat);
            assert(-d == limit * (-q) + 0) by (nonlinear_arith)
                requires
                    d == limit * q + m,
                    m == 0,
            ;
            lemma_mod_multiples_vanish(q, num, limit);
            assert(0 + rhs == limit * q + num) by (nonlinear_arith)
                requires
                    d == limit * q + m,
                    m == 0,
                    d == rhs - num,
            ;
            lemma_small_mod(num as nat, limit as nat);
        } else {
            lemma_small_mod((limit - m) as nat, limit as nat);
            lemma_mod_multiples_vanish(-q - 1, limit - m, limit);
            assert(-d == limit * (-q - 1) + (limit - m)) by (nonlinear_arith)
                requires
                    d == limit * q + m,
            ;
            lemma_mod_multiples_vanish(q + 1, num, limit);
            assert((limit - m) + rhs == limit * (q + 1) + num) by (nonlinear_arith)
                requires
                    d == limit * q + m,
                    d == rhs - num,
            ;
            lemma_small_mod(num as nat, limit as nat);
        }
    }
}

} // verus!
