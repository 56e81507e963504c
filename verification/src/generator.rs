//! The `MonthGenerator`: a stateful cursor over the two-directional sequence
//! of calendar months.

use crate::month::Month;
use vstd::prelude::*;

verus! {

/// The year/month pair one calendar month after `p`.
pub open spec fn month_after(p: (int, int)) -> (int, int) {
    if p.1 == 12 {
        (p.0 + 1, 1)
    } else {
        (p.0, p.1 + 1)
    }
}

/// The year/month pair one calendar month before `p`.
pub open spec fn month_before(p: (int, int)) -> (int, int) {
    if p.1 == 1 {
        (p.0 - 1, 12)
    } else {
        (p.0, p.1 - 1)
    }
}

/// One forward step of a cursor: the following month while its year still
/// fits in an `i32`, exhaustion otherwise; an exhausted cursor stays so.
pub open spec fn cursor_after(c: Option<(int, int)>) -> Option<(int, int)> {
    match c {
        Some(p) => {
            if month_after(p).0 <= i32::MAX as int {
                Some(month_after(p))
            } else {
                None
            }
        },
        None => None,
    }
}

/// One backward step of a cursor, mirroring [`cursor_after`].
pub open spec fn cursor_before(c: Option<(int, int)>) -> Option<(int, int)> {
    match c {
        Some(p) => {
            if month_before(p).0 >= i32::MIN as int {
                Some(month_before(p))
            } else {
                None
            }
        },
        None => None,
    }
}

/// The cursor after `k` forward steps.
pub open spec fn cursor_after_n(c: Option<(int, int)>, k: nat) -> Option<(int, int)>
    decreases k,
{
    if k == 0 {
        c
    } else {
        cursor_after(cursor_after_n(c, (k - 1) as nat))
    }
}

/// The cursor after `k` backward steps.
pub open spec fn cursor_before_n(c: Option<(int, int)>, k: nat) -> Option<(int, int)>
    decreases k,
{
    if k == 0 {
        c
    } else {
        cursor_before(cursor_before_n(c, (k - 1) as nat))
    }
}

/// Splitting `a + b` forward steps at `a` reaches the same cursor.
pub proof fn lemma_cursor_after_n_add(c: Option<(int, int)>, a: nat, b: nat)
    ensures
        cursor_after_n(c, a + b) == cursor_after_n(cursor_after_n(c, a), b),
    decreases b,
{
    if b > 0 {
        lemma_cursor_after_n_add(c, a, (b - 1) as nat);
    }
}

/// Splitting `a + b` backward steps at `a` reaches the same cursor.
pub proof fn lemma_cursor_before_n_add(c: Option<(int, int)>, a: nat, b: nat)
    ensures
        cursor_before_n(c, a + b) == cursor_before_n(cursor_before_n(c, a), b),
    decreases b,
{
    if b > 0 {
        lemma_cursor_before_n_add(c, a, (b - 1) as nat);
    }
}

/// Exhaustion is terminal: no number of steps, in either direction, restores
/// an exhausted cursor.
pub proof fn lemma_exhaustion_terminal(k: nat)
    ensures
        cursor_after_n(None, k) is None,
        cursor_before_n(None, k) is None,
    decreases k,
{
    if k > 0 {
        lemma_exhaustion_terminal((k - 1) as nat);
    }
}

/// A forward step from a valid month: months 1..=11 yield the next month of
/// the same year; December yields January of the following year.
pub proof fn lemma_forward_step(y: int, m: int)
    requires
        1 <= m <= 12,
    ensures
        m < 12 ==> month_after((y, m)) == (y, m + 1),
        m == 12 ==> month_after((y, m)) == (y + 1, 1int),
{
}

/// A backward step from a valid month: months 2..=12 yield the previous month
/// of the same year; January yields December of the preceding year.
pub proof fn lemma_backward_step(y: int, m: int)
    requires
        1 <= m <= 12,
    ensures
        m > 1 ==> month_before((y, m)) == (y, m - 1),
        m == 1 ==> month_before((y, m)) == (y - 1, 12int),
{
}

/// Forward and backward steps are inverses: stepping a month forward and then
/// backward, or backward and then forward, returns to the same month.
pub proof fn lemma_step_inverse(y: int, m: int)
    requires
        1 <= m <= 12,
    ensures
        month_before(month_after((y, m))) == (y, m),
        month_after(month_before((y, m))) == (y, m),
{
}

/// The inverse law lifted to the generator's cursor: whenever a step does not
/// exhaust the generator, the opposite step restores the cursor exactly.
pub proof fn lemma_cursor_step_inverse(c: Option<(int, int)>)
    requires
        c matches Some(p) ==> 1 <= p.1 <= 12 && i32::MIN as int <= p.0 <= i32::MAX as int,
    ensures
        cursor_after(c) is Some ==> cursor_before(cursor_after(c)) == c,
        cursor_before(c) is Some ==> cursor_after(cursor_before(c)) == c,
{
}

/// The sequence a generator produces is a function of its starting cursor
/// alone: two generators that start equal stay equal after any number of
/// steps, in either direction. A generator is replayed by constructing a new
/// one from the same start; there is no in-place reset.
pub proof fn lemma_reproducible(c1: Option<(int, int)>, c2: Option<(int, int)>, k: nat)
    requires
        c1 == c2,
    ensures
        cursor_after_n(c1, k) == cursor_after_n(c2, k),
        cursor_before_n(c1, k) == cursor_before_n(c2, k),
{
}

/// The year/month pair held by an optional month.
pub open spec fn pair_of(m: Option<Month>) -> Option<(int, int)> {
    match m {
        Some(x) => Some((x.year_int(), x.month_int())),
        None => None,
    }
}

/// A stateful cursor over the two-directional sequence of calendar months.
///
/// The cursor starts at the month the generator was built from. Each step
/// returns the month the cursor stood on and moves it one month forward or
/// backward. When a step would take the year outside the `i32` range the
/// cursor becomes exhausted, and exhaustion is terminal: no later step ever
/// produces a value again.
#[derive(Debug)]
pub struct MonthGenerator {
    month: Option<Month>,
}

impl MonthGenerator {
    /// The cursor: the month the next step will produce, or nothing once the
    /// generator is exhausted.
    pub closed spec fn cursor(self) -> Option<Month> {
        self.month
    }

    /// The cursor as a year/month pair.
    pub open spec fn cursor_pair(self) -> Option<(int, int)> {
        pair_of(self.cursor())
    }

    /// Builds a generator whose cursor stands on `start`.
    pub fn new(start: Month) -> (r: MonthGenerator)
        ensures
            r.cursor() == Some(start),
    {
        MonthGenerator { month: Some(start) }
    }

    /// Forward step: returns the month the cursor stands on and advances the
    /// cursor one month, rolling December over into January of the next year.
    pub fn next(&mut self) -> (r: Option<Month>)
        ensures
            r == old(self).cursor(),
            final(self).cursor_pair() == cursor_after(old(self).cursor_pair()),
    {
        let month = match self.month {
            Some(m) => m,
            None => {
                return None;
            },
        };

        let year = month.year();
        let month_number = month.month_number();
        let result = self.month;
        if month_number == 12 {
            if year == i32::MAX {
                self.month = None;
            } else {
                self.month = Month::new(year + 1, 1);
            }
        } else {
            self.month = Month::new(year, month_number + 1);
        }

        result
    }

    /// Backward step: returns the month the cursor stands on and moves the
    /// cursor one month back, rolling January over into December of the
    /// previous year.
    pub fn prev(&mut self) -> (r: Option<Month>)
        ensures
            r == old(self).cursor(),
            final(self).cursor_pair() == cursor_before(old(self).cursor_pair()),
    {
        let month = match self.month {
            Some(m) => m,
            None => {
                return None;
            },
        };

        let year = month.year();
        let month_number = month.month_number();
        let result = self.month;
        if month_number == 1 {
            if year == i32::MIN {
                self.month = None;
            } else {
                self.month = Month::new(year - 1, 12);
            }
        } else {
            self.month = Month::new(year, month_number - 1);
        }

        result
    }

    /// Takes `n + 1` forward steps and returns only the last month produced:
    /// the month `n` after the one the cursor stands on, or nothing if the
    /// generator exhausts on the way.
    pub fn nth(&mut self, n: usize) -> (r: Option<Month>)
        ensures
            pair_of(r) == cursor_after_n(old(self).cursor_pair(), n as nat),
            final(self).cursor_pair() == cursor_after_n(
                old(self).cursor_pair(),
                n as nat + 1,
            ),
    {
        let mut remaining: usize = n;
        loop
            invariant
                remaining <= n,
                self.cursor_pair() == cursor_after_n(
                    old(self).cursor_pair(),
                    (n - remaining) as nat,
                ),
            decreases remaining,
        {
            let ghost taken: nat = (n - remaining) as nat;
            match self.next() {
                Some(x) => {
                    if remaining == 0 {
                        proof {
                            assert(cursor_after_n(old(self).cursor_pair(), taken + 1)
                                == cursor_after(cursor_after_n(old(self).cursor_pair(), taken)));
                        }
                        return Some(x);
                    }
                },
                None => {
                    proof {
                        lemma_cursor_after_n_add(
                            old(self).cursor_pair(),
                            taken,
                            (n - taken) as nat,
                        );
                        lemma_cursor_after_n_add(
                            old(self).cursor_pair(),
                            taken,
                            (n as nat + 1 - taken) as nat,
                        );
                        lemma_exhaustion_terminal((n - taken) as nat);
                        lemma_exhaustion_terminal((n as nat + 1 - taken) as nat);
                    }
                    return None;
                },
            }
            proof {
                assert(cursor_after_n(old(self).cursor_pair(), taken + 1)
                    == cursor_after(cursor_after_n(old(self).cursor_pair(), taken)));
            }
            remaining -= 1;
        }
    }

    /// Takes `n + 1` backward steps and returns only the last month produced:
    /// the month `n` before the one the cursor stands on, or nothing if the
    /// generator exhausts on the way.
    pub fn nth_prev(&mut self, n: usize) -> (r: Option<Month>)
        ensures
            pair_of(r) == cursor_before_n(old(self).cursor_pair(), n as nat),
            final(self).cursor_pair() == cursor_before_n(
                old(self).cursor_pair(),
                n as nat + 1,
            ),
    {
        let mut remaining: usize = n;
        loop
            invariant
                remaining <= n,
                self.cursor_pair() == cursor_before_n(
                    old(self).cursor_pair(),
                    (n - remaining) as nat,
                ),
            decreases remaining,
        {
            let ghost taken: nat = (n - remaining) as nat;
            match self.prev() {
                Some(x) => {
                    if remaining == 0 {
                        proof {
                            assert(cursor_before_n(old(self).cursor_pair(), taken + 1)
                                == cursor_before(cursor_before_n(old(self).cursor_pair(), taken)));
                        }
                        return Some(x);
                    }
                },
                None => {
                    proof {
                        lemma_cursor_before_n_add(
                            old(self).cursor_pair(),
                            taken,
                            (n - taken) as nat,
                        );
                        lemma_cursor_before_n_add(
                            old(self).cursor_pair(),
                            taken,
                            (n as nat + 1 - taken) as nat,
                        );
                        lemma_exhaustion_terminal((n - taken) as nat);
                        lemma_exhaustion_terminal((n as nat + 1 - taken) as nat);
                    }
                    return None;
                },
            }
            proof {
                assert(cursor_before_n(old(self).cursor_pair(), taken + 1)
                    == cursor_before(cursor_before_n(old(self).cursor_pair(), taken)));
            }
            remaining -= 1;
        }
    }
}

} // verus!
