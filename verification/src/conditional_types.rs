//! Self-validating wrapper types: a non-empty string and integers with a
//! lower bound, an upper bound, or both.
//!
//! Every value of one of these types was checked by its validating
//! constructor; downstream code never re-checks. The type invariants make
//! that knowledge available wherever a value is used.

use vstd::prelude::*;

verus! {

/// The failure of [`NonEmptyString::new`]: the input was empty.
#[derive(Debug, Clone, Copy, PartialEq, Eq, Structural)]
pub enum NonEmptyStringError {
    EmptyString,
}

/// The failure of a bounded-integer constructor, naming the violated bound.
#[derive(Debug, Clone, Copy, PartialEq, Eq, Structural)]
pub enum OutOfRangeError {
    BelowMin { min: u64 },
    AboveMax { max: u64 },
}

/// A string that is guaranteed non-empty.
#[derive(Debug)]
pub struct NonEmptyString(String);

impl View for NonEmptyString {
    type V = Seq<char>;

    closed spec fn view(&self) -> Seq<char> {
        self.0@
    }
}

impl DeepView for NonEmptyString {
    type V = Seq<char>;

    open spec fn deep_view(&self) -> Seq<char> {
        self.view()
    }
}

impl NonEmptyString {
    #[verifier::type_invariant]
    spec fn type_inv(self) -> bool {
        self.0@.len() > 0
    }

    /// The one validating constructor: fails exactly on the empty string.
    pub fn new(string: &str) -> (r: Result<Self, NonEmptyStringError>)
        ensures
            string@.len() == 0 ==> r == Err::<Self, _>(NonEmptyStringError::EmptyString),
            string@.len() > 0 ==> (r matches Ok(s) && s@ == string@),
    {
        if string.unicode_len() == 0 {
            Err(NonEmptyStringError::EmptyString)
        } else {
            Ok(NonEmptyString(String::from_str(string)))
        }
    }

    pub fn as_str(&self) -> (r: &str)
        ensures
            r@ == self@,
    {
        self.0.as_str()
    }

    /// A fresh value equal (as a sequence of characters) to this one.
    pub fn duplicate(&self) -> (r: Self)
        ensures
            r@ == self@,
    {
        proof {
            use_type_invariant(self);
        }
        NonEmptyString(self.0.clone())
    }

}

/// An integer guaranteed to be at least `MIN`.
#[derive(Debug, Clone, Copy)]
pub struct LowerBoundInt<const MIN: u64>(i64);

impl<const MIN: u64> View for LowerBoundInt<MIN> {
    type V = int;

    closed spec fn view(&self) -> int {
        self.0 as int
    }
}

impl<const MIN: u64> DeepView for LowerBoundInt<MIN> {
    type V = int;

    open spec fn deep_view(&self) -> int {
        self.view()
    }
}

impl<const MIN: u64> LowerBoundInt<MIN> {
    #[verifier::type_invariant]
    spec fn type_inv(self) -> bool {
        (self.0 as int) >= MIN as int
    }

    /// Succeeds exactly on values of at least `MIN`.
    pub fn new(val: i64) -> (r: Result<Self, OutOfRangeError>)
        ensures
            (val as int) >= MIN as int ==> (r matches Ok(v) && v@ == val as int),
            (val as int) < MIN as int ==> r == Err::<Self, _>((OutOfRangeError::BelowMin { min: MIN })),
    {
        if val >= 0 && val as u64 >= MIN {
            Ok(LowerBoundInt(val))
        } else {
            Err(OutOfRangeError::BelowMin { min: MIN })
        }
    }

    pub fn get(&self) -> (r: i64)
        ensures
            r as int == self@,
    {
        self.0
    }

}

/// An integer guaranteed to be at most `MAX`.
#[derive(Debug, Clone, Copy)]
pub struct UpperBoundInt<const MAX: u64>(i64);

impl<const MAX: u64> View for UpperBoundInt<MAX> {
    type V = int;

    closed spec fn view(&self) -> int {
        self.0 as int
    }
}

impl<const MAX: u64> DeepView for UpperBoundInt<MAX> {
    type V = int;

    open spec fn deep_view(&self) -> int {
        self.view()
    }
}

impl<const MAX: u64> UpperBoundInt<MAX> {
    #[verifier::type_invariant]
    spec fn type_inv(self) -> bool {
        (self.0 as int) <= MAX as int
    }

    /// Succeeds exactly on values of at most `MAX`.
    pub fn new(val: i64) -> (r: Result<Self, OutOfRangeError>)
        ensures
            (val as int) <= MAX as int ==> (r matches Ok(v) && v@ == val as int),
            (val as int) > MAX as int ==> r == Err::<Self, _>((OutOfRangeError::AboveMax { max: MAX })),
    {
        if val < 0 || val as u64 <= MAX {
            Ok(UpperBoundInt(val))
        } else {
            Err(OutOfRangeError::AboveMax { max: MAX })
        }
    }

    pub fn get(&self) -> (r: i64)
        ensures
            r as int == self@,
    {
        self.0
    }

}

/// An integer guaranteed to lie in the inclusive range `[MIN, MAX]`.
#[derive(Debug, Clone, Copy)]
pub struct BoundedInt<const MIN: u64, const MAX: u64>(i64);

impl<const MIN: u64, const MAX: u64> View for BoundedInt<MIN, MAX> {
    type V = int;

    closed spec fn view(&self) -> int {
        self.0 as int
    }
}

impl<const MIN: u64, const MAX: u64> DeepView for BoundedInt<MIN, MAX> {
    type V = int;

    open spec fn deep_view(&self) -> int {
        self.view()
    }
}

impl<const MIN: u64, const MAX: u64> BoundedInt<MIN, MAX> {
    #[verifier::type_invariant]
    spec fn type_inv(self) -> bool {
        MIN as int <= (self.0 as int) <= MAX as int
    }

    /// Succeeds exactly on values in `[MIN, MAX]`; each boundary value is
    /// accepted, and each value one beyond a boundary is rejected with the
    /// error naming that boundary.
    pub fn new(val: i64) -> (r: Result<Self, OutOfRangeError>)
        ensures
            MIN as int <= (val as int) <= MAX as int ==> (r matches Ok(v) && v@ == val as int),
            (val as int) < MIN as int ==> r == Err::<Self, _>((OutOfRangeError::BelowMin { min: MIN })),
            MIN as int <= val as int && (val as int) > MAX as int ==> r == Err::<Self, _>((OutOfRangeError::AboveMax { max: MAX })),
    {
        if val < 0 || (val as u64) < MIN {
            Err(OutOfRangeError::BelowMin { min: MIN })
        } else if val as u64 > MAX {
            Err(OutOfRangeError::AboveMax { max: MAX })
        } else {
            Ok(BoundedInt(val))
        }
    }

    pub fn get(&self) -> (r: i64)
        ensures
            r as int == self@,
    {
        self.0
    }

}

/// A domain identifier: validated like any other non-empty string.
pub type Symbol = NonEmptyString;

/// A display name.
pub type Name = NonEmptyString;

/// A free-form description.
pub type Description = NonEmptyString;

/// A headquarters waypoint symbol.
pub type Headquarters = NonEmptyString;

/// A server-issued identifier.
pub type Id = NonEmptyString;

/// An integer that is at least zero.
pub type NonNegative = LowerBoundInt<0>;

/// A non-empty string survives serialization: written as a JSON string node
/// and parsed back, it is unchanged.
pub proof fn lemma_non_empty_string_round_trip(s: Seq<char>)
    requires
        s.len() > 0,
    ensures
        crate::json::parse_json_spec(crate::json::ren(crate::json::JsonV::Str(s))) == Some(
            crate::json::JsonV::Str(s),
        ),
{
    crate::json::lemma_parse_render(crate::json::JsonV::Str(s));
}

} // verus!
