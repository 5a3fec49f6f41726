//! Installers: the package managers that the configuration declares.

use crate::config::merge_sources;
use crate::error::ErrorKind;
use crate::name::Name;
use crate::registry::Registry;
use vstd::prelude::*;

verus! {

/// One package-manager integration: its command and the arguments for each action.
#[derive(Clone, Debug, PartialEq, Eq)]
pub struct Installer {
    pub name: Name,
    /// The platforms it applies to; empty means all.
    pub platforms: Vec<Name>,
    pub bootstrap: Option<String>,
    pub command: String,
    pub install_arguments: Vec<String>,
    pub update_arguments: Vec<String>,
    pub delete_arguments: Vec<String>,
    pub update_self_arguments: Vec<String>,
    pub requires: Vec<String>,
}

/// Installers by name.
pub type Installers = Registry<Installer>;

/// Merges the built-in installers with the user's: the user's entry replaces
/// the built-in one of the same key. Nothing else is checked here.
/// A source that is `None` could not be read against the schema.
pub fn load_config(default: Option<Installers>, user: Option<Installers>) -> (r: Result<
    Installers,
    ErrorKind,
>)
    ensures
        match r {
            Ok(installers) => default is Some && user is Some && installers@
                == default->0@.union_prefer_right(user->0@),
            Err(e) => (default is None || user is None) && e == ErrorKind::InvalidConfigFormat,
        },
{
    merge_sources(default, user)
}

} // verus!
