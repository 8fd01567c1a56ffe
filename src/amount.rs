//! Bounded monetary amounts with checked arithmetic.

use vstd::prelude::*;

verus! {

/// The largest magnitude an [`Amount`] may hold, in zatoshis.
pub const MAX_MONEY: i64 = 21_000_000 * 100_000_000;

/// Whether `v` lies in the range that an [`Amount`] can hold.
pub open spec fn in_range(v: int) -> bool {
    -MAX_MONEY <= v <= MAX_MONEY
}

/// A signed monetary value in `[-MAX_MONEY, MAX_MONEY]`.
#[derive(Clone, Copy, Debug, PartialEq, Eq)]
pub struct Amount {
    zats: i64,
}

impl View for Amount {
    type V = int;

    closed spec fn view(&self) -> int {
        self.zats as int
    }
}

impl Amount {
    #[verifier::type_invariant]
    spec fn bounded(self) -> bool {
        in_range(self.zats as int)
    }

    /// The amount zero.
    pub fn zero() -> (r: Amount)
        ensures
            r@ == 0,
    {
        Amount { zats: 0 }
    }

    /// The amount `v`, or `None` when `v` lies outside the valid range.
    pub fn from_i64(v: i64) -> (r: Option<Amount>)
        ensures
            r matches Some(a) <==> in_range(v as int),
            r matches Some(a) ==> a@ == v as int,
    {
        if -MAX_MONEY <= v && v <= MAX_MONEY {
            Some(Amount { zats: v })
        } else {
            None
        }
    }

    /// The value of this amount, which always lies in the valid range.
    pub fn to_i64(&self) -> (r: i64)
        ensures
            r as int == self@,
            in_range(r as int),
    {
        proof {
            use_type_invariant(self);
        }
        self.zats
    }

    /// Whether this amount is below zero.
    pub fn is_negative(&self) -> (r: bool)
        ensures
            r == (self@ < 0),
    {
        self.zats < 0
    }

    /// `self + other`, or `None` when the sum leaves the valid range.
    pub fn checked_add(&self, other: &Amount) -> (r: Option<Amount>)
        ensures
            r matches Some(a) <==> in_range(self@ + other@),
            r matches Some(a) ==> a@ == self@ + other@,
    {
        proof {
            use_type_invariant(self);
            use_type_invariant(other);
        }
        Amount::from_i64(self.zats + other.zats)
    }

    /// `self - other`, or `None` when the difference leaves the valid range.
    pub fn checked_sub(&self, other: &Amount) -> (r: Option<Amount>)
        ensures
            r matches Some(a) <==> in_range(self@ - other@),
            r matches Some(a) ==> a@ == self@ - other@,
    {
        proof {
            use_type_invariant(self);
            use_type_invariant(other);
        }
        Amount::from_i64(self.zats - other.zats)
    }
}

} // verus!
