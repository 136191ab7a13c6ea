//! Metric and binary unit prefixes.

use vstd::prelude::*;

verus! {

/// A unit prefix: a power of ten (`Metric`) or a power of two (`Binary`).
///
/// `Metric(e)` stands for the factor `10^e`, `Binary(e)` for `2^e`.
#[derive(Debug, Clone, Copy, PartialEq, Eq, Hash, Structural)]
pub enum Prefix {
    Metric(i32),
    Binary(i32),
}

impl Prefix {
    /// The distinguished value for "no prefix": the factor one.
    pub open spec fn spec_none() -> Prefix {
        Prefix::Metric(0)
    }

    pub open spec fn spec_is_none(&self) -> bool {
        *self == Prefix::spec_none()
    }

    pub open spec fn spec_is_metric(&self) -> bool {
        self is Metric
    }

    pub open spec fn spec_is_binary(&self) -> bool {
        self is Binary
    }

    #[verifier::when_used_as_spec(spec_none)]
    pub fn none() -> (prefix: Prefix)
        ensures
            prefix == Prefix::spec_none(),
    {
        Prefix::Metric(0)
    }

    #[verifier::when_used_as_spec(spec_is_none)]
    pub fn is_none(&self) -> (answer: bool)
        ensures
            answer == self.spec_is_none(),
    {
        match self {
            Prefix::Metric(exponent) => *exponent == 0,
            Prefix::Binary(_) => false,
        }
    }

    #[verifier::when_used_as_spec(spec_is_metric)]
    pub fn is_metric(&self) -> (answer: bool)
        ensures
            answer == self.spec_is_metric(),
    {
        match self {
            Prefix::Metric(_) => true,
            Prefix::Binary(_) => false,
        }
    }

    #[verifier::when_used_as_spec(spec_is_binary)]
    pub fn is_binary(&self) -> (answer: bool)
        ensures
            answer == self.spec_is_binary(),
    {
        match self {
            Prefix::Metric(_) => false,
            Prefix::Binary(_) => true,
        }
    }

    pub fn milli() -> (prefix: Prefix)
        ensures
            prefix == Prefix::Metric(-3i32),
    {
        Prefix::Metric(-3)
    }

    pub fn kilo() -> (prefix: Prefix)
        ensures
            prefix == Prefix::Metric(3),
    {
        Prefix::Metric(3)
    }

    pub fn mega() -> (prefix: Prefix)
        ensures
            prefix == Prefix::Metric(6),
    {
        Prefix::Metric(6)
    }

    pub fn kibi() -> (prefix: Prefix)
        ensures
            prefix == Prefix::Binary(10),
    {
        Prefix::Binary(10)
    }

    pub fn mebi() -> (prefix: Prefix)
        ensures
            prefix == Prefix::Binary(20),
    {
        Prefix::Binary(20)
    }
}

} // verus!
