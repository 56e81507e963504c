//! The `Month` value type: a year paired with a month number in 1..=12.

use vstd::prelude::*;

verus! {

/// A calendar month: a year and a month number between 1 and 12.
///
/// Values are immutable, copied and compared by value. The only way to build
/// one is [`Month::new`], which rejects month numbers outside 1..=12, so every
/// `Month` in existence carries a month number in range.
#[derive(Clone, Copy, Debug, PartialEq, Eq, Structural)]
pub struct Month {
    year: i32,
    month_number: u8,
}

impl Month {
    /// The year, as a mathematical integer.
    pub closed spec fn year_int(self) -> int {
        self.year as int
    }

    /// The month number, as a mathematical integer.
    pub closed spec fn month_int(self) -> int {
        self.month_number as int
    }

    #[verifier::type_invariant]
    spec fn month_in_range(self) -> bool {
        1 <= self.month_number <= 12
    }

    /// Builds a month; yields no value exactly when `month_number` is outside
    /// 1..=12.
    pub fn new(year: i32, month_number: u8) -> (r: Option<Month>)
        ensures
            r is Some <==> 1 <= month_number <= 12,
            r matches Some(m) ==> m.year_int() == year as int && m.month_int()
                == month_number as int,
    {
        if 1 <= month_number && month_number <= 12 {
            Some(Month { year, month_number })
        } else {
            None
        }
    }

    /// The year this month lies in.
    pub fn year(&self) -> (r: i32)
        ensures
            r as int == self.year_int(),
    {
        self.year
    }

    /// The month number, always in 1..=12.
    pub fn month_number(&self) -> (r: u8)
        ensures
            r as int == self.month_int(),
            1 <= r <= 12,
    {
        proof {
            use_type_invariant(*self);
        }
        self.month_number
    }
}

} // verus!
