//! What is known about one ordered pair of activities.

use crate::dependency_types::existential::DependencyType as ExistentialType;
use crate::dependency_types::existential::ExistentialDependency;
use crate::dependency_types::temporal::DependencyType as TemporalType;
use crate::dependency_types::temporal::TemporalDependency;
use vstd::prelude::*;

verus! {

/// The relations detected between the activities `from` and `to`. With both
/// relations absent the pair merely occurs.
#[derive(Debug, Clone, PartialEq, Eq)]
pub struct Dependency {
    pub from: String,
    pub to: String,
    pub temporal_dependency: Option<TemporalDependency>,
    pub existential_dependency: Option<ExistentialDependency>,
}

impl Dependency {
    /// The kind of the temporal relation, if there is one.
    pub open spec fn temporal_kind(&self) -> Option<TemporalType> {
        match self.temporal_dependency {
            Some(td) => Some(td.dependency_type),
            None => None,
        }
    }

    /// The kind of the existential relation, if there is one.
    pub open spec fn existential_kind(&self) -> Option<ExistentialType> {
        match self.existential_dependency {
            Some(ed) => Some(ed.dependency_type),
            None => None,
        }
    }

    pub fn new(
        from: String,
        to: String,
        temporal_dependency: Option<TemporalDependency>,
        existential_dependency: Option<ExistentialDependency>,
    ) -> (dep: Self)
        ensures
            dep.from == from,
            dep.to == to,
            dep.temporal_dependency == temporal_dependency,
            dep.existential_dependency == existential_dependency,
    {
        Dependency { from, to, temporal_dependency, existential_dependency }
    }

    /// The kind of the temporal relation, if there is one.
    pub fn temporal_type(&self) -> (kind: Option<TemporalType>)
        ensures
            kind == self.temporal_kind(),
    {
        match &self.temporal_dependency {
            Some(td) => Some(td.dependency_type),
            None => None,
        }
    }

    /// The kind of the existential relation, if there is one.
    pub fn existential_type(&self) -> (kind: Option<ExistentialType>)
        ensures
            kind == self.existential_kind(),
    {
        match &self.existential_dependency {
            Some(ed) => Some(ed.dependency_type),
            None => None,
        }
    }
}

} // verus!
