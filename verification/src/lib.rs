//! A meta-package manager core: layered configuration of platforms, installers
//! and package layers, resolved into one validated model, and the ordered plan
//! of work that installs, updates or deletes a package against that model.

use crate::package::install::{package_values, steps_view, Action, Step, StepView};
use crate::package::{Package, Packages};
use vstd::prelude::*;

pub mod config;
pub mod error;
pub mod name;
pub mod package;
pub mod registry;
pub mod text;

verus! {

/// Settings shared by every install, update and delete.
#[derive(Clone, Copy, Debug, PartialEq, Eq)]
pub struct Options {
    /// When set, lifecycle scripts are located but never executed.
    pub dry_run: bool,
}

/// What can be installed, updated and deleted: a package, and a layer with
/// the packages that belong to it. Each action comes out as the plan of
/// its steps; `packages` are the packages known under the package root.
pub trait Installable {
    /// The steps that `action` on this item comes to.
    spec fn steps(&self, action: Action, packages: Seq<Package>, options: Options) -> Seq<StepView>;

    /// The steps of installing.
    fn install(&self, packages: &Packages, options: &Options) -> (r: Vec<Step>)
        ensures
            steps_view(r@) == self.steps(
                Action::Install,
                package_values(packages.entries()),
                *options,
            ),
    ;

    /// The steps of updating.
    fn update(&self, packages: &Packages, options: &Options) -> (r: Vec<Step>)
        ensures
            steps_view(r@) == self.steps(
                Action::Update,
                package_values(packages.entries()),
                *options,
            ),
    ;

    /// The steps of deleting.
    fn delete(&self, packages: &Packages, options: &Options) -> (r: Vec<Step>)
        ensures
            steps_view(r@) == self.steps(
                Action::Delete,
                package_values(packages.entries()),
                *options,
            ),
    ;
}

} // verus!
