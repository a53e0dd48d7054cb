//! The calculator's settings and its integer operations.
use vstd::prelude::*;
use crate::error::{Error, ErrorView};

verus! {

/// The largest `n` whose factorial the calculator computes.
pub const MAX_FACTORIAL_ARG: u64 = 20;

/// `n!`.
pub open spec fn factorial_of(n: nat) -> nat
    decreases n,
{
    if n == 0 { 1 } else { n * factorial_of((n - 1) as nat) }
}

proof fn lemma_factorial_monotone(a: nat, b: nat)
    requires
        a <= b,
    ensures
        factorial_of(a) <= factorial_of(b),
    decreases b,
{
    if a < b {
        lemma_factorial_monotone(a, (b - 1) as nat);
        lemma_factorial_positive((b - 1) as nat);
        assert(factorial_of((b - 1) as nat) <= b * factorial_of((b - 1) as nat)) by (nonlinear_arith)
            requires b >= 1;
    }
}

proof fn lemma_factorial_positive(n: nat)
    ensures
        factorial_of(n) >= 1,
    decreases n,
{
    if n > 0 {
        lemma_factorial_positive((n - 1) as nat);
        assert(n * factorial_of((n - 1) as nat) >= 1) by (nonlinear_arith)
            requires n >= 1, factorial_of((n - 1) as nat) >= 1;
    }
}

proof fn lemma_factorial_fits()
    ensures
        factorial_of(20) == 2432902008176640000,
{
    reveal_with_fuel(factorial_of, 21);
}

/// A scientific calculator; its precision is the number of decimal places used when
/// results are shown.
pub struct Calculator {
    precision: u8,
}

impl Calculator {
    pub closed spec fn precision_spec(&self) -> u8 {
        self.precision
    }

    /// A calculator that shows ten decimal places.
    pub fn new() -> (r: Self)
        ensures
            r.precision_spec() == 10,
    {
        Calculator { precision: 10 }
    }

    pub fn set_precision(&mut self, precision: u8)
        ensures
            final(self).precision_spec() == precision,
    {
        self.precision = precision;
    }

    pub fn precision(&self) -> (r: u8)
        ensures
            r == self.precision_spec(),
    {
        self.precision
    }

    /// `n!`, for `n` up to 20; larger arguments fail with `FactorialTooLarge`.
    pub fn factorial(&self, n: u64) -> (r: Result<u64, Error>)
        ensures
            n > MAX_FACTORIAL_ARG ==> r is Err && r->Err_0@ == ErrorView::FactorialTooLarge,
            n <= MAX_FACTORIAL_ARG ==> r is Ok && r->Ok_0 as nat == factorial_of(n as nat),
    {
        if n > MAX_FACTORIAL_ARG {
            return Err(Error::FactorialTooLarge);
        }
        let mut acc: u64 = 1;
        let mut k: u64 = 0;
        while k < n
            invariant
                k <= n <= 20,
                acc as nat == factorial_of(k as nat),
            decreases n - k,
        {
            let ghost next = (k + 1) as nat;
            proof {
                lemma_factorial_fits();
                lemma_factorial_monotone(next, 20);
                assert(factorial_of(next) == next * factorial_of(k as nat));
                assert(acc * next == factorial_of(next)) by (nonlinear_arith)
                    requires
                        acc == factorial_of(k as nat),
                        factorial_of(next) == next * factorial_of(k as nat);
            }
            k = k + 1;
            acc = acc * k;
        }
        Ok(acc)
    }
}

impl Default for Calculator {
    fn default() -> (r: Self)
        ensures
            r.precision_spec() == 10,
    {
        Calculator::new()
    }
}

} // verus!
