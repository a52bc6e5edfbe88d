//! Overriding one set of settings with another.

use vstd::prelude::*;

use crate::build_props::{merged_value, LanguageBuildProperties};
use crate::limits::{limits_merged, GradingLimits};
use crate::model::GradingOptions;

verus! {

/// Settings that a more specific set of the same kind overrides.
pub trait UpdatedWith: Sized {
    /// What the merge needs of the base settings.
    spec fn merge_ready(&self) -> bool;

    /// Whether `r` is these settings overridden by `other`.
    spec fn merged(&self, other: &Self, r: &Self) -> bool;

    fn updated_with(&self, other: &Self) -> (r: Self)
        requires
            self.merge_ready(),
        ensures
            self.merged(other, &r),
    ;
}

impl UpdatedWith for GradingLimits {
    open spec fn merge_ready(&self) -> bool {
        true
    }

    open spec fn merged(&self, other: &Self, r: &Self) -> bool {
        *r == limits_merged(*self, *other)
    }

    fn updated_with(&self, other: &Self) -> (r: Self) {
        GradingLimits::updated_with(self, other)
    }
}

impl UpdatedWith for LanguageBuildProperties {
    open spec fn merge_ready(&self) -> bool {
        self.wf()
    }

    open spec fn merged(&self, other: &Self, r: &Self) -> bool {
        &&& r.wf()
        &&& r.entries@.len() == self.entries@.len()
        &&& forall|i: int|
            0 <= i < r.entries@.len() ==> (#[trigger] r.entries@[i]).0@ == self.entries@[i].0@
                && r.entries@[i].1@ == merged_value(
                self.entries@[i].0@,
                self.entries@[i].1@,
                other.entries@,
            )
    }

    fn updated_with(&self, other: &Self) -> (r: Self) {
        LanguageBuildProperties::updated_with(self, other)
    }
}

impl UpdatedWith for GradingOptions {
    open spec fn merge_ready(&self) -> bool {
        true
    }

    open spec fn merged(&self, other: &Self, r: &Self) -> bool {
        &&& r.limits == match (self.limits, other.limits) {
            (Some(a), Some(b)) => Some(limits_merged(a, b)),
            (None, b) => b,
            (a, None) => a,
        }
        &&& r.executable_target == self.executable_target
        &&& r.build_system == self.build_system
    }

    fn updated_with(&self, other: &Self) -> (r: Self) {
        GradingOptions::updated_with(self, other)
    }
}

} // verus!
