//! Configuration of container elements.
use super::Modify;
use accesskit::Role;
use taffy::style::Style;
use vstd::prelude::*;

verus! {

#[verifier::external_type_specification]
#[verifier::external_body]
pub struct ExRole(Role);

#[verifier::external_type_specification]
#[verifier::external_body]
pub struct ExStyle(Style);

/// `Role::default()`: accesskit's default role (`Role::Unknown` in its
/// source). The role is opaque here, so nothing is stated of it.
pub assume_specification[ <Role as Default>::default ]() -> Role;

/// `Style::default()`: taffy's default style. Nothing is stated of it; the
/// configuration only carries it.
pub assume_specification[ <Style as Default>::default ]() -> Style;

/// What a container element is built with.
pub struct ContainerConfig {
    pub merge_descendants: bool,
    pub role: Role,
    pub style: Style,
}

impl Default for ContainerConfig {
    /// A configuration that does not merge descendants, with the default role
    /// and the default style.
    fn default() -> (r: Self)
        ensures
            !r.merge_descendants,
    {
        Self { merge_descendants: false, role: Role::default(), style: Style::default() }
    }
}

/// The modifier that makes a container merge the semantics of its
/// descendants into its own node.
pub struct MergeDescendants;

impl Modify<ContainerConfig> for MergeDescendants {
    fn modify(&mut self, value: &mut ContainerConfig)
        ensures
            final(value).merge_descendants,
            final(value).role == old(value).role,
            final(value).style == old(value).style,
    {
        value.merge_descendants = true;
    }
}

} // verus!
