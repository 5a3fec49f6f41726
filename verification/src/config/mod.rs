//! The resolved configuration: the current platform, the installers that
//! apply to it, and the layer tree.

use crate::error::ErrorKind;
use crate::name::Name;
use crate::package::install::Action;
use crate::package::referents;
use crate::registry::{distinct_keys, has_key, lemma_push_entry, map_of, Registry};
use vstd::prelude::*;
use vstd::string::*;

pub mod installers;
pub mod layers;
pub mod platforms;

pub use installers::{Installer, Installers};
pub use layers::LayerKind;
pub use platforms::{CurrentPlatform, Platform, Platforms};

verus! {

/// The configuration sources, as far as each could be read: the built-in
/// definitions and the user's, for layers, platforms and installers.
/// A source that is `None` could not be read against its schema; a user
/// source that does not exist is an empty one.
#[derive(Debug)]
pub struct Sources {
    pub default_layers: Option<layers::Layers>,
    pub user_layers: Option<layers::Layers>,
    pub default_platforms: Option<Platforms>,
    pub user_platforms: Option<Platforms>,
    pub default_installers: Option<Installers>,
    pub user_installers: Option<Installers>,
}

/// Merges a built-in registry with the user's, as every keyed configuration
/// source is merged: the user's entry replaces the built-in one of the same
/// key. A source that is `None` could not be read against the schema.
pub fn merge_sources<V>(default: Option<Registry<V>>, user: Option<Registry<V>>) -> (r: Result<
    Registry<V>,
    ErrorKind,
>)
    ensures
        match r {
            Ok(merged) => default is Some && user is Some && merged@
                == default->0@.union_prefer_right(user->0@),
            Err(e) => (default is None || user is None) && e == ErrorKind::InvalidConfigFormat,
        },
{
    let mut merged = match default {
        Some(registry) => registry,
        None => { return Err(ErrorKind::InvalidConfigFormat); },
    };
    match user {
        Some(registry) => {
            merged.extend(registry);
            Ok(merged)
        },
        None => Err(ErrorKind::InvalidConfigFormat),
    }
}

/// The validated model: built once, read-only afterwards.
#[derive(Debug)]
pub struct Configuration {
    platform: CurrentPlatform,
    layers: Vec<LayerKind>,
    installers: Installers,
}

/// The outcome of loading the configuration.
pub type ConfigResult = Result<Configuration, ErrorKind>;

/// Whether `installer` applies to the platform keyed by `os`: it names no
/// platform at all, or names this one.
pub open spec fn supports(installer: Installer, os: Seq<char>) -> bool {
    installer.platforms@.len() == 0 || named(installer.platforms@, os)
}

/// The installers of `installers` that apply to the platform keyed by `os`.
pub open spec fn applicable(installers: Map<Seq<char>, Installer>, os: Seq<char>) -> Map<
    Seq<char>,
    Installer,
> {
    Map::new(
        |key: Seq<char>| installers.contains_key(key) && supports(installers[key], os),
        |key: Seq<char>| installers[key],
    )
}

/// The layer declarations of both sources, the built-in ones first.
pub open spec fn declared_layers(sources: Sources) -> Seq<layers::Layer> {
    sources.default_layers->0.layers@ + sources.user_layers->0.layers@
}

/// The platform entry that the tag `os` selects.
pub open spec fn selected_platform(sources: Sources, os: Seq<char>) -> Platform {
    platforms::declared_platforms(sources.default_platforms, sources.user_platforms)[os]
}

/// The installers that remain for the platform keyed by `os`: the merged
/// registry, without those that apply to other platforms only.
pub open spec fn available_installers(sources: Sources, os: Seq<char>) -> Map<
    Seq<char>,
    Installer,
> {
    applicable(sources.default_installers->0@.union_prefer_right(sources.user_installers->0@), os)
}

/// Whether an installer that a platform may name is among those available.
pub open spec fn installer_present(
    wanted: Option<Name>,
    available: Map<Seq<char>, Installer>,
) -> bool {
    wanted matches Some(name) ==> available.contains_key(name@)
}

/// Why no configuration comes out of `sources` on the operating system
/// tagged `os`, if none does. The stages are taken in order: layers, then
/// the current platform, then installers, then the platform's installers.
pub open spec fn configuration_failure(sources: Sources, os: Seq<char>) -> Option<ErrorKind> {
    if sources.default_layers is None || sources.user_layers is None {
        Some(ErrorKind::InvalidConfigFormat)
    } else if platforms::current_failure(sources.default_platforms, sources.user_platforms, os)
        is Some {
        platforms::current_failure(sources.default_platforms, sources.user_platforms, os)
    } else if sources.default_installers is None || sources.user_installers is None {
        Some(ErrorKind::InvalidConfigFormat)
    } else if !installer_present(
        selected_platform(sources, os).system_installer,
        available_installers(sources, os),
    ) || !installer_present(
        selected_platform(sources, os).app_installer,
        available_installers(sources, os),
    ) {
        Some(ErrorKind::MissingSystemInstaller)
    } else {
        None
    }
}

impl Configuration {
    /// The platform that the process runs on.
    pub closed spec fn current_platform(&self) -> CurrentPlatform {
        self.platform
    }

    /// The roots of the layer tree.
    pub closed spec fn layer_tree(&self) -> Seq<LayerKind> {
        self.layers@
    }

    /// The installers that apply to the current platform.
    pub closed spec fn installer_map(&self) -> Map<Seq<char>, Installer> {
        self.installers@
    }

    /// The platform that the process runs on.
    pub fn platform(&self) -> (r: &CurrentPlatform)
        ensures
            *r == self.current_platform(),
    {
        &self.platform
    }

    /// The roots of the layer tree, in the declared order.
    pub fn layers(&self) -> (r: &Vec<LayerKind>)
        ensures
            r@ == self.layer_tree(),
    {
        &self.layers
    }

    /// The installers that apply to the current platform, by name.
    pub fn installers(&self) -> (r: &Installers)
        ensures
            r@ == self.installer_map(),
    {
        &self.installers
    }

    /// The layers that a request for `action` on the layers named `names`
    /// reaches, in the order in which they are handled.
    pub fn select_layers(&self, action: Action, names: &Vec<Name>) -> (r: Vec<&LayerKind>)
        ensures
            referents(r@) == requested_layers(self.layer_tree(), action, names@),
    {
        let mut out: Vec<&LayerKind> = Vec::new();
        assert(referents(out@) =~= Seq::<LayerKind>::empty());
        match action {
            Action::Install => {
                let tree = &self.layers;
                let mut i: usize = 0;
                while i < tree.len()
                    invariant
                        i <= tree@.len(),
                        referents(out@) == layers_to_install(tree@.take(i as int), names@),
                    decreases tree@.len() - i,
                {
                    proof {
                        assert(tree@.take(i + 1).drop_last() =~= tree@.take(i as int));
                        assert(tree@.take(i + 1).last() == tree@[i as int]);
                    }
                    let ghost held = out@;
                    match &tree[i] {
                        LayerKind::Outer { name: _, sub_layers } => {
                            append_named(sub_layers, names, &mut out);
                        },
                        LayerKind::Inner { name } => {
                            proof {
                                let one = seq![tree@[i as int]];
                                assert(one =~= Seq::<LayerKind>::empty().push(tree@[i as int]));
                                Seq::<LayerKind>::empty().lemma_filter_push(
                                    tree@[i as int],
                                    with_name_in(names@),
                                );
                                assert(Seq::<LayerKind>::empty().filter(with_name_in(names@))
                                    =~= Seq::<LayerKind>::empty()) by {
                                    reveal(Seq::filter);
                                }
                            }
                            if names_contain(names, name) {
                                out.push(&tree[i]);
                                assert(referents(out@) =~= referents(held).push(tree@[i as int]));
                            } else {
                                assert(referents(out@) =~= referents(held) + Seq::<
                                    LayerKind,
                                >::empty());
                            }
                        },
                    }
                    i = i + 1;
                }
                assert(tree@.take(tree@.len() as int) =~= tree@);
            },
            _ => {
                append_named(&self.layers, names, &mut out);
                assert(referents(out@) =~= self.layers@.filter(with_name_in(names@)));
            },
        }
        out
    }
}

/// Whether `name` is one of `names`.
pub open spec fn named(names: Seq<Name>, name: Seq<char>) -> bool {
    exists|i: int| 0 <= i < names.len() && (#[trigger] names[i])@ == name
}

/// The layers whose name is one of `names`.
pub open spec fn with_name_in(names: Seq<Name>) -> spec_fn(LayerKind) -> bool {
    |layer: LayerKind| named(names, layer.name_spec()@)
}

/// The layers that a request to install the layers `names` reaches: of
/// each outer root its sub-layers of such a name, and each inner root of
/// such a name, in the order of the tree.
pub open spec fn layers_to_install(tree: Seq<LayerKind>, names: Seq<Name>) -> Seq<LayerKind>
    decreases tree.len(),
{
    if tree.len() == 0 {
        Seq::empty()
    } else {
        layers_to_install(tree.drop_last(), names) + match tree.last() {
            LayerKind::Outer { sub_layers, .. } => sub_layers@.filter(with_name_in(names)),
            LayerKind::Inner { .. } => seq![tree.last()].filter(with_name_in(names)),
        }
    }
}

/// The layers that a request for the action `action` on the layers `names`
/// reaches. To install looks under the outer roots; to update and to delete
/// take the roots themselves by their own names.
pub open spec fn requested_layers(tree: Seq<LayerKind>, action: Action, names: Seq<Name>) -> Seq<
    LayerKind,
> {
    match action {
        Action::Install => layers_to_install(tree, names),
        _ => tree.filter(with_name_in(names)),
    }
}

fn append_named<'a>(layers: &'a Vec<LayerKind>, names: &Vec<Name>, out: &mut Vec<&'a LayerKind>)
    ensures
        referents(final(out)@) == referents(old(out)@) + layers@.filter(with_name_in(names@)),
{
    let ghost start = referents(out@);
    let mut i: usize = 0;
    assert(layers@.take(0).filter(with_name_in(names@)) =~= Seq::<LayerKind>::empty()) by {
        reveal(Seq::filter);
    }
    assert(referents(out@) =~= start + layers@.take(0).filter(with_name_in(names@)));
    while i < layers.len()
        invariant
            i <= layers@.len(),
            referents(out@) == start + layers@.take(i as int).filter(with_name_in(names@)),
        decreases layers@.len() - i,
    {
        let layer = &layers[i];
        proof {
            assert(layers@.take(i + 1) =~= layers@.take(i as int).push(*layer));
            layers@.take(i as int).lemma_filter_push(*layer, with_name_in(names@));
        }
        let ghost held = out@;
        if names_contain(names, layer.name()) {
            out.push(layer);
            assert(referents(out@) =~= referents(held).push(*layer));
        }
        i = i + 1;
    }
    assert(layers@.take(layers@.len() as int) =~= layers@);
}

fn names_contain(names: &Vec<Name>, name: &Name) -> (r: bool)
    ensures
        r == named(names@, name@),
{
    let mut i: usize = 0;
    while i < names.len()
        invariant
            i <= names@.len(),
            forall|j: int| 0 <= j < i ==> (#[trigger] names@[j])@ != name@,
        decreases names@.len() - i,
    {
        if names[i] == *name {
            return true;
        }
        i = i + 1;
    }
    false
}

fn retain_applicable(installers: Installers, os: &Name) -> (r: Installers)
    ensures
        r@ == applicable(installers@, os@),
{
    let ghost all = installers.entries();
    let entries = installers.into_entries();
    let mut kept: Installers = Registry::new();
    assert(kept@ =~= applicable(map_of(all.take(0)), os@));
    for entry in it: entries
        invariant
            it.seq() == all,
            distinct_keys(all),
            kept@ == applicable(map_of(all.take(it.index() as int)), os@),
    {
        let ghost at = it.index() as int;
        let ghost before = map_of(all.take(at));
        let ghost held = kept@;
        let (key, installer) = entry;
        proof {
            assert(all.take(at + 1) =~= all.take(at).push(all[at]));
            assert(distinct_keys(all.take(at)));
            if has_key(all.take(at), key@) {
                let j = crate::registry::index_of(all.take(at), key@);
                assert(all.take(at)[j] == all[j]);
                assert(all[j].0@ != all[at].0@);
            }
            lemma_push_entry(all.take(at), key, installer);
        }
        if installer.platforms.len() == 0 || names_contain(&installer.platforms, os) {
            kept.insert(key, installer);
            assert(kept@ =~= applicable(before.insert(key@, installer), os@));
        } else {
            assert(held =~= applicable(before.insert(key@, installer), os@));
        }
    }
    assert(all.take(all.len() as int) =~= all);
    kept
}

fn check_installer(wanted: &Option<Name>, installers: &Installers) -> (r: bool)
    ensures
        r == installer_present(*wanted, installers@),
{
    match wanted {
        Some(name) => installers.contains_key(name),
        None => true,
    }
}

fn load_config(sources: Sources, os: &str) -> (r: ConfigResult)
    ensures
        match r {
            Ok(config) => {
                &&& configuration_failure(sources, os@) is None
                &&& layers::tree_of(config.layer_tree(), declared_layers(sources))
                &&& platforms::current_of(
                    config.current_platform(),
                    selected_platform(sources, os@),
                    os@,
                )
                &&& config.installer_map() == available_installers(sources, os@)
            },
            Err(e) => configuration_failure(sources, os@) == Some(e),
        },
{
    let layers = match layers::load_config(sources.default_layers, sources.user_layers) {
        Ok(layers) => layers,
        Err(e) => { return Err(e); },
    };
    let platform = match platforms::get_current_platform_config(
        sources.default_platforms,
        sources.user_platforms,
        os,
    ) {
        Ok(platform) => platform,
        Err(e) => { return Err(e); },
    };
    let installers = match installers::load_config(
        sources.default_installers,
        sources.user_installers,
    ) {
        Ok(installers) => installers,
        Err(e) => { return Err(e); },
    };
    let installers = retain_applicable(installers, &platform.target_os);
    if !check_installer(&platform.system_installer, &installers) {
        return Err(ErrorKind::MissingSystemInstaller);
    }
    if !check_installer(&platform.app_installer, &installers) {
        return Err(ErrorKind::MissingSystemInstaller);
    }
    Ok(Configuration { layers, platform, installers })
}

/// Resolves the configuration for the operating system tagged `os`: builds
/// the layer tree, finds the current platform, merges the installers and
/// keeps those that apply to the platform, then checks that the installers
/// which the platform names are among them.
pub fn current_configuration(sources: Sources, os: &str) -> (r: ConfigResult)
    ensures
        match r {
            Ok(config) => {
                &&& configuration_failure(sources, os@) is None
                &&& layers::tree_of(config.layer_tree(), declared_layers(sources))
                &&& platforms::current_of(
                    config.current_platform(),
                    selected_platform(sources, os@),
                    os@,
                )
                &&& config.installer_map() == available_installers(sources, os@)
            },
            Err(e) => configuration_failure(sources, os@) == Some(e),
        },
{
    load_config(sources, os)
}

/// Where the current platform names a system installer that is not among
/// the installers available on it, loading fails with `MissingSystemInstaller`,
/// provided that every source could be read and the platform was found.
pub proof fn lemma_missing_system_installer(sources: Sources, os: Seq<char>)
    requires
        sources.default_layers is Some,
        sources.user_layers is Some,
        sources.default_installers is Some,
        sources.user_installers is Some,
        platforms::current_failure(sources.default_platforms, sources.user_platforms, os) is None,
        selected_platform(sources, os).system_installer matches Some(name)
            && !available_installers(sources, os).contains_key(name@),
    ensures
        configuration_failure(sources, os) == Some(ErrorKind::MissingSystemInstaller),
{
}

/// Where some declared platform names neither a system installer nor a way
/// to determine one, loading fails with `InvalidConfigFormat`.
pub proof fn lemma_unusable_platform(sources: Sources, os: Seq<char>, key: Seq<char>)
    requires
        sources.default_platforms is Some,
        sources.user_platforms is Some,
        platforms::declared_platforms(
            sources.default_platforms,
            sources.user_platforms,
        ).contains_key(key),
        !platforms::usable(
            platforms::declared_platforms(sources.default_platforms, sources.user_platforms)[key],
        ),
    ensures
        configuration_failure(sources, os) == Some(ErrorKind::InvalidConfigFormat),
{
}

/// Where a user's configuration file is looked for.
#[derive(Clone, Debug, PartialEq, Eq)]
pub struct UserFilePath {
    /// The user's configuration directory.
    pub directory: String,
    /// The name of the file in it.
    pub file_name: String,
}

/// What was found at the place of a user's configuration file.
#[derive(Clone, Debug, PartialEq, Eq)]
pub enum UserFile {
    /// There is no configuration directory, or no such file in it.
    Absent,
    /// The file is there and could not be read.
    Unreadable,
    /// The text of the file.
    Content(String),
}

/// Calls `dirs::config_dir` and hands the directory on as text. The answer
/// depends on the environment, so nothing is claimed of it.
#[verifier::external_body]
fn config_dir() -> (r: Option<String>) {
    dirs::config_dir().map(|path| path.to_string_lossy().into_owned())
}

/// The place of the user's file for `base_name` under `directory`: the file
/// is named after `base_name`, with the extension `.toml`.
pub fn user_file_in(directory: Option<String>, base_name: &str) -> (r: Option<UserFilePath>)
    ensures
        match r {
            Some(path) => directory == Some(path.directory) && path.file_name@ == base_name@
                + ".toml"@,
            None => directory is None,
        },
{
    match directory {
        Some(directory) => {
            let mut file_name = String::from_str(base_name);
            file_name.append(".toml");
            Some(UserFilePath { directory, file_name })
        },
        None => None,
    }
}

/// The place of the user's file for `base_name`, if the user has a
/// configuration directory.
pub fn make_user_file_path(base_name: &str) -> (r: Option<UserFilePath>)
    ensures
        r matches Some(path) ==> path.file_name@ == base_name@ + ".toml"@,
{
    user_file_in(config_dir(), base_name)
}

/// The text of a user's configuration file, given what was found at its
/// place. A file that is not there is no error: the built-in definitions
/// then stand alone. One that cannot be read is an error.
pub fn config_from_user_file(found: UserFile) -> (r: Result<Option<String>, ErrorKind>)
    ensures
        match found {
            UserFile::Absent => r == Ok::<Option<String>, ErrorKind>(None),
            UserFile::Unreadable => r == Err::<Option<String>, ErrorKind>(
                ErrorKind::InvalidConfigFormat,
            ),
            UserFile::Content(text) => r == Ok::<Option<String>, ErrorKind>(Some(text)),
        },
{
    match found {
        UserFile::Absent => Ok(None),
        UserFile::Unreadable => Err(ErrorKind::InvalidConfigFormat),
        UserFile::Content(text) => Ok(Some(text)),
    }
}

} // verus!
