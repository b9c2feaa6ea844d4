//! Existential relations: how the presence of one activity in a trace bears
//! on the presence of the other.

use vstd::prelude::*;

verus! {

/// The kind of correlation between the occurrences of two activities.
#[derive(Debug, Clone, Copy, PartialEq, Eq, Hash)]
pub enum DependencyType {
    /// Where one activity occurs, the other occurs too.
    Implication,
    /// Both occur or both are absent.
    Equivalence,
    /// Exactly one of the two occurs.
    NegatedEquivalence,
    /// The two never occur together.
    Nand,
    /// At least one of the two occurs.
    Or,
}

/// The direction in which an existential relation holds.
#[derive(Debug, Clone, Copy, PartialEq, Eq, Hash)]
pub enum Direction {
    Forward,
    Backward,
    Both,
}

/// An existential relation between the activities `from` and `to`.
#[derive(Debug, Clone, PartialEq, Eq)]
pub struct ExistentialDependency {
    pub from: String,
    pub to: String,
    pub dependency_type: DependencyType,
    pub direction: Direction,
}

impl ExistentialDependency {
    pub fn new(from: &str, to: &str, dependency_type: DependencyType, direction: Direction) -> (dep: Self)
        ensures
            dep.from@ == from@,
            dep.to@ == to@,
            dep.dependency_type == dependency_type,
            dep.direction == direction,
    {
        ExistentialDependency { from: from.to_owned(), to: to.to_owned(), dependency_type, direction }
    }
}

} // verus!
