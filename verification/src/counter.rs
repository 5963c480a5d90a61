//! Counters from which references and process numbers are drawn.
use vstd::prelude::*;

verus! {

/// A source of numbers that goes up by one each time, and wraps around after the largest.
#[derive(Debug)]
pub struct Counter {
    next: u64,
}

/// The number that a counter which stands at `start` gives after `n` others.
pub open spec fn drawn_number(start: u64, n: int) -> u64 {
    ((start + n) % 0x1_0000_0000_0000_0000) as u64
}

impl Counter {
    /// The number that is drawn next.
    pub closed spec fn view(&self) -> u64 {
        self.next
    }

    /// A counter whose first number is `start`.
    pub fn new(start: u64) -> (r: Self)
        ensures
            r@ == start,
    {
        Counter { next: start }
    }

    /// Draws the next number.
    pub fn draw(&mut self) -> (r: u64)
        ensures
            r == old(self)@,
            final(self)@ == drawn_number(old(self)@, 1),
    {
        let n: u64 = self.next;
        self.next = n.wrapping_add(1);
        n
    }
}

/// Drawing `a` numbers and then `b` more is drawing `a + b`.
pub proof fn draws_add_up(start: u64, a: int, b: int)
    requires
        0 <= a,
        0 <= b,
    ensures
        drawn_number(drawn_number(start, a), b) == drawn_number(start, a + b),
        drawn_number(start, 0) == start,
{
    let m: int = 0x1_0000_0000_0000_0000;
    vstd::arithmetic::div_mod::lemma_add_mod_noop(start + a, b, m);
    assert(((start + a) % m + b) % m == (start + a + b) % m) by {
        vstd::arithmetic::div_mod::lemma_add_mod_noop(start + a, b, m);
        vstd::arithmetic::div_mod::lemma_add_mod_noop((start + a) % m, b, m);
        vstd::arithmetic::div_mod::lemma_mod_twice(start + a, m);
    }
}

/// Of the numbers drawn from one counter, no two of any 2^64 in a row are the same.
pub proof fn draws_are_unique(start: u64, i: int, j: int)
    requires
        0 <= i < j <= i + u64::MAX,
    ensures
        drawn_number(start, i) != drawn_number(start, j),
{
    let m: int = 0x1_0000_0000_0000_0000;
    if (start + i) % m == (start + j) % m {
        let q1 = (start + i) / m;
        let q2 = (start + j) / m;
        vstd::arithmetic::div_mod::lemma_fundamental_div_mod(start + i, m);
        vstd::arithmetic::div_mod::lemma_fundamental_div_mod(start + j, m);
        assert(j - i == m * q2 - m * q1);
        assert(m * q2 - m * q1 == m * (q2 - q1)) by (nonlinear_arith);
        assert(false) by (nonlinear_arith)
            requires
                j - i == m * (q2 - q1),
                0 < j - i < m,
                m > 0,
        ;
    }
}

/// A counter that has not wrapped around gives its start plus the numbers drawn before.
pub proof fn draws_count_up(start: u64, n: int)
    requires
        0 <= n,
        start + n <= u64::MAX,
    ensures
        drawn_number(start, n) == start + n,
{
}

} // verus!
