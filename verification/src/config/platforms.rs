//! Platforms: the operating systems that the configuration declares, and
//! the one that the process runs on.

use crate::config::merge_sources;
use crate::error::ErrorKind;
use crate::name::{valid_name, Name};
use crate::registry::{distinct_keys, lemma_map_of_entry, lemma_map_of_key, Registry};
use crate::text::same_text;
use vstd::prelude::*;

verus! {

/// A declared operating-system target.
#[derive(Clone, Debug, PartialEq, Eq)]
pub struct Platform {
    pub name: Name,
    pub system_installer: Option<Name>,
    pub app_installer: Option<Name>,
    pub determine_installer: Option<String>,
}

/// The platform that the process runs on, with the key it was found under.
#[derive(Clone, Debug, PartialEq, Eq)]
pub struct CurrentPlatform {
    pub target_os: Name,
    pub name: Name,
    pub system_installer: Option<Name>,
    pub app_installer: Option<Name>,
    pub determine_installer: Option<String>,
}

/// Platforms by the operating-system tag that each stands for.
pub type Platforms = Registry<Platform>;

/// The operating-system tags that the library knows.
pub open spec fn recognized_os(os: Seq<char>) -> bool {
    os == "linux"@ || os == "macos"@ || os == "windows"@
}

/// A platform can be used when it names its system installer or a way to determine one.
pub open spec fn usable(platform: Platform) -> bool {
    platform.system_installer is Some || platform.determine_installer is Some
}

/// Every platform of the mapping can be used.
pub open spec fn all_usable(platforms: Map<Seq<char>, Platform>) -> bool {
    forall|key: Seq<char>| platforms.contains_key(key) ==> usable(#[trigger] platforms[key])
}

/// The platforms that the two sources declare together, where both could be
/// read: the user's entry replaces the built-in one of the same key.
pub open spec fn declared_platforms(default: Option<Platforms>, user: Option<Platforms>) -> Map<
    Seq<char>,
    Platform,
> {
    default->0@.union_prefer_right(user->0@)
}

/// Why no platform registry comes out of the two sources, if none does.
pub open spec fn load_failure(default: Option<Platforms>, user: Option<Platforms>) -> Option<
    ErrorKind,
> {
    if default is None || user is None || !all_usable(declared_platforms(default, user)) {
        Some(ErrorKind::InvalidConfigFormat)
    } else {
        None
    }
}

/// Why no current platform comes out of the two sources and the tag `os`, if none does.
pub open spec fn current_failure(
    default: Option<Platforms>,
    user: Option<Platforms>,
    os: Seq<char>,
) -> Option<ErrorKind> {
    if load_failure(default, user) is Some {
        load_failure(default, user)
    } else if !recognized_os(os) || !valid_name(os) || !declared_platforms(
        default,
        user,
    ).contains_key(os) {
        Some(ErrorKind::UnsupportedPlatform)
    } else {
        None
    }
}

/// Whether `current` is the platform `platform` found under the key `os`.
pub open spec fn current_of(current: CurrentPlatform, platform: Platform, os: Seq<char>) -> bool {
    &&& current.target_os@ == os
    &&& current.name == platform.name
    &&& current.system_installer == platform.system_installer
    &&& current.app_installer == platform.app_installer
    &&& current.determine_installer == platform.determine_installer
}

/// The name under which the running operating system is looked up, given
/// the operating system's tag. Only `linux`, `macos` and `windows` are known.
pub fn current_name(os: &str) -> (r: Option<Name>)
    ensures
        match r {
            Some(name) => recognized_os(os@) && valid_name(os@) && name@ == os@,
            None => !recognized_os(os@) || !valid_name(os@),
        },
{
    if same_text(os, "linux") || same_text(os, "macos") || same_text(os, "windows") {
        match Name::from_str(os) {
            Ok(name) => Some(name),
            Err(_) => None,
        }
    } else {
        None
    }
}

fn check_usable(platforms: &Platforms) -> (r: bool)
    ensures
        r == all_usable(platforms@),
{
    let entries = platforms.as_entries();
    let mut i: usize = 0;
    while i < entries.len()
        invariant
            i <= entries@.len(),
            entries@ == platforms.entries(),
            distinct_keys(entries@),
            forall|j: int| 0 <= j < i ==> usable((#[trigger] entries@[j]).1),
        decreases entries@.len() - i,
    {
        let platform = &entries[i].1;
        if platform.system_installer.is_none() && platform.determine_installer.is_none() {
            proof {
                lemma_map_of_entry(entries@, i as int);
            }
            return false;
        }
        i = i + 1;
    }
    proof {
        assert forall|key: Seq<char>| platforms@.contains_key(key) implies usable(
            #[trigger] platforms@[key],
        ) by {
            lemma_map_of_key(entries@, key);
        }
    }
    true
}

/// Merges the built-in platforms with the user's and checks that each one
/// can be used. A source that is `None` could not be read against the schema.
pub fn load_config(default: Option<Platforms>, user: Option<Platforms>) -> (r: Result<
    Platforms,
    ErrorKind,
>)
    ensures
        match r {
            Ok(platforms) => load_failure(default, user) is None && platforms@
                == declared_platforms(default, user),
            Err(e) => load_failure(default, user) == Some(e),
        },
{
    let platforms = match merge_sources(default, user) {
        Ok(platforms) => platforms,
        Err(e) => { return Err(e); },
    };
    if check_usable(&platforms) {
        Ok(platforms)
    } else {
        Err(ErrorKind::InvalidConfigFormat)
    }
}

/// Finds the platform that the process runs on: the entry of the merged
/// registry under the name that belongs to the operating system's tag `os`.
pub fn get_current_platform_config(
    default: Option<Platforms>,
    user: Option<Platforms>,
    os: &str,
) -> (r: Result<CurrentPlatform, ErrorKind>)
    ensures
        match r {
            Ok(current) => current_failure(default, user, os@) is None && current_of(
                current,
                declared_platforms(default, user)[os@],
                os@,
            ),
            Err(e) => current_failure(default, user, os@) == Some(e),
        },
{
    let mut platforms = match load_config(default, user) {
        Ok(platforms) => platforms,
        Err(e) => { return Err(e); },
    };
    match current_name(os) {
        Some(name) => {
            match platforms.remove(&name) {
                Some(platform) => Ok(
                    CurrentPlatform {
                        target_os: name,
                        name: platform.name,
                        system_installer: platform.system_installer,
                        app_installer: platform.app_installer,
                        determine_installer: platform.determine_installer,
                    },
                ),
                None => Err(ErrorKind::UnsupportedPlatform),
            }
        },
        None => Err(ErrorKind::UnsupportedPlatform),
    }
}

} // verus!
