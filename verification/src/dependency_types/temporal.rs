//! Temporal relations: which of two activities comes first, and how closely.

use vstd::prelude::*;

verus! {

/// How closely one activity follows the other.
#[derive(Debug, Clone, Copy, PartialEq, Eq, Hash)]
pub enum DependencyType {
    /// Immediate succession.
    Direct,
    /// Succession with other activities in between.
    Eventual,
}

/// Which of the two activities comes first.
#[derive(Debug, Clone, Copy, PartialEq, Eq, Hash)]
pub enum Direction {
    Forward,
    Backward,
}

/// A temporal relation between the activities `from` and `to`.
#[derive(Debug, Clone, PartialEq, Eq)]
pub struct TemporalDependency {
    pub from: String,
    pub to: String,
    pub dependency_type: DependencyType,
    pub direction: Direction,
}

impl TemporalDependency {
    pub fn new(from: &str, to: &str, dependency_type: DependencyType, direction: Direction) -> (dep: Self)
        ensures
            dep.from@ == from@,
            dep.to@ == to@,
            dep.dependency_type == dependency_type,
            dep.direction == direction,
    {
        TemporalDependency { from: from.to_owned(), to: to.to_owned(), dependency_type, direction }
    }
}

} // verus!
