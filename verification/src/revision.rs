//! Revisions of the database, and how often inputs change.
use vstd::prelude::*;

verus! {

/// Identifies one revision of the database. Revisions are numbered upwards from
/// [`Revision::start`].
#[derive(Clone, Copy, Debug, PartialEq, Eq, Structural, Hash)]
pub struct Revision {
    pub generation: usize,
}

impl Revision {
    pub open spec fn spec_start() -> Revision {
        Revision { generation: 1 }
    }

    /// The first revision.
    #[verifier::when_used_as_spec(spec_start)]
    pub fn start() -> (revision: Revision)
        ensures
            revision == Revision::spec_start(),
    {
        Revision { generation: 1 }
    }

    /// Whether there is a revision after this one.
    pub open spec fn has_next(self) -> bool {
        self.generation < usize::MAX
    }

    pub open spec fn spec_next(self) -> Revision {
        Revision { generation: (self.generation + 1) as usize }
    }

    /// The revision after this one.
    pub fn next(self) -> (revision: Revision)
        requires
            self.has_next(),
        ensures
            revision == self.spec_next(),
            revision.generation == self.generation + 1,
    {
        Revision { generation: self.generation + 1 }
    }
}

/// How often a value is expected to change: the more durable, the less often.
#[derive(Clone, Copy, Debug, PartialEq, Eq, Structural, Hash)]
pub enum Durability {
    Low,
    Medium,
    High,
    NeverChange,
}

impl Durability {
    /// Values that change often.
    pub const LOW: Durability = Durability::Low;

    /// Values that change now and then.
    pub const MEDIUM: Durability = Durability::Medium;

    /// Values that rarely change.
    pub const HIGH: Durability = Durability::High;

    /// Values that never change.
    pub const NEVER_CHANGE: Durability = Durability::NeverChange;

    /// The number of durabilities of values that can change.
    pub const LEN: usize = 3;

    pub open spec fn position(self) -> usize {
        match self {
            Durability::Low => 0,
            Durability::Medium => 1,
            Durability::High => 2,
            Durability::NeverChange => 3,
        }
    }

    /// The position of the durability, counted upwards from the least durable.
    #[verifier::when_used_as_spec(position)]
    pub fn index(self) -> (index: usize)
        ensures
            index == self.position(),
    {
        match self {
            Durability::Low => 0,
            Durability::Medium => 1,
            Durability::High => 2,
            Durability::NeverChange => 3,
        }
    }
}

} // verus!
