//! How many members a declared slot may hold.
use vstd::prelude::*;

verus! {

/// The cardinality a manifest declares for a slot.
#[derive(Debug, Clone, Copy, PartialEq, Eq, Structural)]
pub enum Cardinality {
    /// Exactly one member.
    One,
    /// At most one member; the vacant slot is written down explicitly.
    ZeroOrOne,
    /// At least one member.
    OneOrMore,
    /// Any number of members.
    ZeroOrMore,
}

impl Cardinality {
    /// Whether a set of `size` members satisfies this cardinality.
    pub open spec fn spec_admits(self, size: nat) -> bool {
        match self {
            Cardinality::One => size == 1,
            Cardinality::ZeroOrOne => size <= 1,
            Cardinality::OneOrMore => size >= 1,
            Cardinality::ZeroOrMore => true,
        }
    }

    /// Whether a set of `size` members satisfies this cardinality.
    pub fn admits(self, size: usize) -> (admitted: bool)
        ensures
            admitted == self.spec_admits(size as nat),
    {
        match self {
            Cardinality::One => size == 1,
            Cardinality::ZeroOrOne => size <= 1,
            Cardinality::OneOrMore => size >= 1,
            Cardinality::ZeroOrMore => true,
        }
    }

    /// Whether a slot with no entry at all stands for the empty set. Only
    /// `zero_or_more` does: a vacant `zero_or_one` slot has an explicit empty
    /// entry.
    pub fn allows_empty(self) -> (allowed: bool)
        ensures
            allowed == (self == Cardinality::ZeroOrMore),
    {
        match self {
            Cardinality::ZeroOrMore => true,
            _ => false,
        }
    }

    /// The manifest spelling of this cardinality.
    pub open spec fn spelling(self) -> Seq<char> {
        match self {
            Cardinality::One => "one"@,
            Cardinality::ZeroOrOne => "zero_or_one"@,
            Cardinality::OneOrMore => "one_or_more"@,
            Cardinality::ZeroOrMore => "zero_or_more"@,
        }
    }

    /// The manifest spelling of this cardinality.
    pub fn as_str(self) -> (text: &'static str)
        ensures
            text@ == self.spelling(),
    {
        match self {
            Cardinality::One => "one",
            Cardinality::ZeroOrOne => "zero_or_one",
            Cardinality::OneOrMore => "one_or_more",
            Cardinality::ZeroOrMore => "zero_or_more",
        }
    }
}

/// How many members each cardinality admits, and how it is spelled.
pub proof fn law_admitted_sizes(size: nat)
    ensures
        Cardinality::One.spec_admits(size) <==> size == 1,
        Cardinality::ZeroOrOne.spec_admits(size) <==> size == 0 || size == 1,
        Cardinality::OneOrMore.spec_admits(size) <==> size != 0,
        Cardinality::ZeroOrMore.spec_admits(size),
        Cardinality::One.spelling() == "one"@,
        Cardinality::ZeroOrOne.spelling() == "zero_or_one"@,
        Cardinality::OneOrMore.spelling() == "one_or_more"@,
        Cardinality::ZeroOrMore.spelling() == "zero_or_more"@,
{
}

} // verus!
