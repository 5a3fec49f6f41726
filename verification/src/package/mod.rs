//! Packages: what a manifest declares, and how manifests are checked
//! against the configuration and gathered by name.

use crate::config::layers::{
    find_from, find_layer, has_inner_from, has_layer_from, lemma_find_from_is_inner_by_name,
    lemma_inner_is_layer_from,
};
use crate::config::Configuration;
use crate::error::ErrorKind;
use crate::name::Name;
use crate::package::install::{install_action, package_steps, Action, Step, StepView};
use crate::registry::{put, Registry};
use crate::{Installable, Options};
use vstd::prelude::*;
use vstd::seq_lib::*;
use vstd::string::*;

pub mod inspect;
pub mod install;
pub mod priority;

pub use priority::InnerPackagePriority;

verus! {

/// The scripts that run around an action on a package. A path that is not
/// absolute is taken relative to the directory of the manifest.
#[derive(Clone, Debug, PartialEq, Eq)]
pub struct ScriptSet {
    pub before: Option<String>,
    pub after: Option<String>,
}

/// One unit of work within a package: a thing to install and the installer that does it.
#[derive(Clone, Debug, PartialEq, Eq)]
pub struct InnerPackage {
    pub name: Name,
    pub installer: Name,
    pub priority: InnerPackagePriority,
    pub is_app: bool,
    pub additional_arguments: Vec<String>,
    pub platforms: Vec<Name>,
}

/// A package as its manifest declares it, with the place of the manifest.
#[derive(Clone, Debug, PartialEq, Eq)]
pub struct Package {
    /// The path of the manifest file; set when the package is loaded.
    pub path: String,
    pub name: Name,
    pub layer: Name,
    pub packages: Vec<InnerPackage>,
    pub on_install: Option<ScriptSet>,
    pub on_update: Option<ScriptSet>,
    pub on_delete: Option<ScriptSet>,
    pub requires: Vec<String>,
}

/// Packages by name.
pub type Packages = Registry<Package>;

/// The name of the environment variable that holds the package root.
pub const DFPM_HOME: &'static str = "DFPM_HOME";

/// The name of the manifest file in a package's directory.
pub const PACKAGE_FILE: &'static str = "package.toml";

/// Where the manifest of a package lies under the package root.
#[derive(Clone, Debug, PartialEq, Eq)]
pub struct ManifestPath {
    /// The directory of the package, directly under the package root.
    pub directory: String,
    /// The name of the manifest file in that directory.
    pub file_name: String,
}

/// Whether `layer` names an inner layer of the configuration's layer tree.
pub open spec fn layer_resolves(config: Configuration, layer: Seq<char>) -> bool {
    find_from(config.layer_tree(), 0, layer) is Some
}

/// The package that a manifest declares, once the path of the manifest is set.
pub open spec fn with_path(manifest: Package, path: String) -> Package {
    Package { path, ..manifest }
}

/// Why the package of `manifest` does not load against `config`, if it does not.
pub open spec fn load_failure(config: Configuration, manifest: Package) -> Option<ErrorKind> {
    if layer_resolves(config, manifest.layer@) {
        None
    } else {
        Some(ErrorKind::InvalidLayerInPackage)
    }
}

/// Whether there is a package root: the setting that names it is set, and
/// a directory lies there.
pub open spec fn root_found(root: Option<String>, is_directory: bool) -> bool {
    root is Some && is_directory
}

/// Why no packages are gathered from `manifests`, if none are: there is no
/// package root, or one of the manifests does not fit the configuration.
pub open spec fn gather_failure(
    root: Option<String>,
    is_directory: bool,
    config: Configuration,
    manifests: Seq<(String, Package)>,
) -> Option<ErrorKind> {
    if !root_found(root, is_directory) {
        Some(ErrorKind::MissingPackageDir)
    } else if !all_resolve(config, manifests) {
        Some(ErrorKind::InvalidLayerInPackage)
    } else {
        None
    }
}

/// Whether every one of `manifests` names an inner layer of the configuration.
pub open spec fn all_resolve(config: Configuration, manifests: Seq<(String, Package)>) -> bool {
    forall|i: int|
        0 <= i < manifests.len() ==> layer_resolves(config, (#[trigger] manifests[i]).1.layer@)
}

/// The packages of `manifests` by name, each with the path it was found
/// at. Of two manifests with one name the later one stays.
pub open spec fn gathered(manifests: Seq<(String, Package)>) -> Map<Seq<char>, Package>
    decreases manifests.len(),
{
    if manifests.len() == 0 {
        Map::empty()
    } else {
        gathered(manifests.drop_last()).insert(
            manifests.last().1.name@,
            with_path(manifests.last().1, manifests.last().0),
        )
    }
}

/// The packages of `manifests` in the order in which the registry hands
/// them out: each name at the place of its first manifest, with the
/// package of its last.
pub open spec fn gathered_entries(manifests: Seq<(String, Package)>) -> Seq<(Name, Package)>
    decreases manifests.len(),
{
    if manifests.len() == 0 {
        Seq::empty()
    } else {
        put(
            gathered_entries(manifests.drop_last()),
            manifests.last().1.name,
            with_path(manifests.last().1, manifests.last().0),
        )
    }
}

impl Package {
    /// Checks the manifest `manifest`, found at `path`, against the
    /// configuration: its layer has to be an inner layer of the layer tree.
    /// The package that comes out holds `path`.
    pub fn load_from(path: String, manifest: Package, config: &Configuration) -> (r: Result<
        Package,
        ErrorKind,
    >)
        ensures
            match r {
                Ok(package) => load_failure(*config, manifest) is None && package == with_path(
                    manifest,
                    path,
                ),
                Err(e) => load_failure(*config, manifest) == Some(e),
            },
    {
        let mut package = manifest;
        package.path = path;
        match find_layer(config.layers(), &package.layer) {
            Some(layer) => {
                proof {
                    lemma_find_from_is_inner_by_name(config.layer_tree(), 0, package.layer@);
                }
                if layer.is_inner() {
                    Ok(package)
                } else {
                    Err(ErrorKind::InvalidLayerInPackage)
                }
            },
            None => Err(ErrorKind::InvalidLayerInPackage),
        }
    }

    /// Describes the package in words, with headings in bold where
    /// `colored` is set.
    pub fn inspect(&self, colored: bool) -> (r: String)
        ensures
            r@ == inspect::package_text(*self, colored),
    {
        inspect::inspect_package(self, colored)
    }

    /// Where the manifest of the package named `name` lies under the
    /// package root: in the directory of that name, in the file `package.toml`.
    pub fn manifest_path(name: &Name) -> (r: ManifestPath)
        ensures
            r.directory@ == name@,
            r.file_name@ == "package.toml"@,
    {
        ManifestPath { directory: name.to_string(), file_name: String::from_str(PACKAGE_FILE) }
    }

    /// Loads the package named `name`, given the package root as the
    /// setting names it, whether a directory lies there, and what was found
    /// at the place of the manifest: nothing, or the path and what the
    /// manifest declares. A missing package root comes first, a missing
    /// manifest second, a manifest that does not fit the configuration last.
    pub fn load(
        name: &Name,
        root: Option<String>,
        is_directory: bool,
        located: Option<(String, Package)>,
        config: &Configuration,
    ) -> (r: Result<Package, ErrorKind>)
        ensures
            !root_found(root, is_directory) ==> r == Err::<Package, ErrorKind>(
                ErrorKind::MissingPackageDir,
            ),
            root_found(root, is_directory) ==> match located {
                Some((path, manifest)) => match r {
                    Ok(package) => load_failure(*config, manifest) is None && package == with_path(
                        manifest,
                        path,
                    ),
                    Err(e) => load_failure(*config, manifest) == Some(e),
                },
                None => r == Err::<Package, ErrorKind>(ErrorKind::NoSuchPackage(*name)),
            },
    {
        match get_package_dir(root, is_directory) {
            Ok(_) => {},
            Err(e) => { return Err(e); },
        }
        match located {
            Some((path, manifest)) => Package::load_from(path, manifest, config),
            None => Err(ErrorKind::NoSuchPackage(name.clone())),
        }
    }
}

impl Installable for Package {
    /// A package is handled by itself, whatever other packages there are.
    open spec fn steps(&self, action: Action, packages: Seq<Package>, options: Options) -> Seq<
        StepView,
    > {
        package_steps(action, *self, options)
    }

    fn install(&self, _packages: &Packages, options: &Options) -> (r: Vec<Step>) {
        install_action(Action::Install, self, options)
    }

    fn update(&self, _packages: &Packages, options: &Options) -> (r: Vec<Step>) {
        install_action(Action::Update, self, options)
    }

    fn delete(&self, _packages: &Packages, options: &Options) -> (r: Vec<Step>) {
        install_action(Action::Delete, self, options)
    }
}

/// The package root, given the value of the setting that names it and
/// whether a directory lies there.
pub fn get_package_dir(root: Option<String>, is_directory: bool) -> (r: Result<String, ErrorKind>)
    ensures
        match root {
            Some(path) => if is_directory {
                r == Ok::<String, ErrorKind>(path)
            } else {
                r == Err::<String, ErrorKind>(ErrorKind::MissingPackageDir)
            },
            None => r == Err::<String, ErrorKind>(ErrorKind::MissingPackageDir),
        },
{
    match root {
        Some(path) => {
            if is_directory {
                Ok(path)
            } else {
                Err(ErrorKind::MissingPackageDir)
            }
        },
        None => Err(ErrorKind::MissingPackageDir),
    }
}

/// Loads every manifest of `manifests`, each given with its path, and
/// gathers the packages by name, given the package root as the setting
/// names it and whether a directory lies there. A missing package root
/// comes first; after that the first manifest that does not load ends the
/// work.
pub fn get_packages(
    root: Option<String>,
    is_directory: bool,
    manifests: Vec<(String, Package)>,
    config: &Configuration,
) -> (r: Result<Packages, ErrorKind>)
    ensures
        match r {
            Ok(packages) => gather_failure(root, is_directory, *config, manifests@) is None
                && packages@ == gathered(manifests@) && packages.entries() == gathered_entries(
                manifests@,
            ),
            Err(e) => gather_failure(root, is_directory, *config, manifests@) == Some(e),
        },
{
    match get_package_dir(root, is_directory) {
        Ok(_) => {},
        Err(e) => { return Err(e); },
    }
    let ghost all = manifests@;
    let mut packages: Packages = Registry::new();
    assert(all.take(0) =~= Seq::<(String, Package)>::empty());
    for found in it: manifests
        invariant
            it.seq() == all,
            root_found(root, is_directory),
            all_resolve(*config, all.take(it.index() as int)),
            packages@ == gathered(all.take(it.index() as int)),
            packages.entries() == gathered_entries(all.take(it.index() as int)),
    {
        let ghost at = it.index() as int;
        let (path, manifest) = found;
        proof {
            assert(all.take(at + 1).drop_last() =~= all.take(at));
            assert(all.take(at + 1).last() == all[at]);
        }
        match Package::load_from(path, manifest, config) {
            Ok(package) => {
                let key = package.name.clone();
                packages.insert(key, package);
                proof {
                    assert forall|i: int| 0 <= i < all.take(at + 1).len() implies layer_resolves(
                        *config,
                        (#[trigger] all.take(at + 1)[i]).1.layer@,
                    ) by {
                        if i < at {
                            assert(all.take(at)[i] == all[i]);
                        }
                    }
                }
            },
            Err(e) => {
                assert(!layer_resolves(*config, all[at].1.layer@));
                return Err(e);
            },
        }
    }
    assert(all.take(all.len() as int) =~= all);
    Ok(packages)
}

/// A package whose layer is the name of an outer layer, and of no inner
/// layer, does not load: it fails with `InvalidLayerInPackage`.
pub proof fn lemma_outer_layer_is_refused(config: Configuration, manifest: Package, i: int)
    requires
        0 <= i < config.layer_tree().len(),
        config.layer_tree()[i] is Outer,
        config.layer_tree()[i].name_spec()@ == manifest.layer@,
        !has_inner_from(config.layer_tree(), 0, manifest.layer@),
    ensures
        load_failure(config, manifest) == Some(ErrorKind::InvalidLayerInPackage),
{
    lemma_find_from_is_inner_by_name(config.layer_tree(), 0, manifest.layer@);
}

/// A package whose layer is the name of no layer at all does not load: it
/// fails with `InvalidLayerInPackage`.
pub proof fn lemma_unknown_layer_is_refused(config: Configuration, manifest: Package)
    requires
        !has_layer_from(config.layer_tree(), 0, manifest.layer@),
    ensures
        load_failure(config, manifest) == Some(ErrorKind::InvalidLayerInPackage),
{
    lemma_inner_is_layer_from(config.layer_tree(), 0, manifest.layer@);
    lemma_find_from_is_inner_by_name(config.layer_tree(), 0, manifest.layer@);
}

/// The inner packages that have the priority `priority`.
pub open spec fn has_priority(priority: InnerPackagePriority) -> spec_fn(InnerPackage) -> bool {
    |package: InnerPackage| package.priority == priority
}

/// The order of work within a package: from the highest priority to the
/// lowest, and within one priority in the declared order.
pub open spec fn by_priority(packages: Seq<InnerPackage>) -> Seq<InnerPackage> {
    packages.filter(has_priority(InnerPackagePriority::Highest)) + packages.filter(
        has_priority(InnerPackagePriority::Higher),
    ) + packages.filter(has_priority(InnerPackagePriority::Normal)) + packages.filter(
        has_priority(InnerPackagePriority::Lower),
    ) + packages.filter(has_priority(InnerPackagePriority::Lowest))
}

/// What a sequence of references refers to.
pub open spec fn referents<T>(refs: Seq<&T>) -> Seq<T> {
    refs.map_values(|r: &T| *r)
}

fn append_with_priority<'a>(
    packages: &'a Vec<InnerPackage>,
    priority: InnerPackagePriority,
    out: &mut Vec<&'a InnerPackage>,
)
    ensures
        referents(final(out)@) == referents(old(out)@) + packages@.filter(has_priority(priority)),
{
    let ghost start = referents(out@);
    let mut i: usize = 0;
    assert(packages@.take(0).filter(has_priority(priority)) =~= Seq::<InnerPackage>::empty()) by {
        reveal(Seq::filter);
    }
    assert(referents(out@) =~= start + packages@.take(0).filter(has_priority(priority)));
    while i < packages.len()
        invariant
            i <= packages@.len(),
            referents(out@) == start + packages@.take(i as int).filter(has_priority(priority)),
        decreases packages@.len() - i,
    {
        let package = &packages[i];
        proof {
            assert(packages@.take(i + 1) =~= packages@.take(i as int).push(packages@[i as int]));
            packages@.take(i as int).lemma_filter_push(packages@[i as int], has_priority(priority));
        }
        let ghost held = out@;
        if package.priority == priority {
            out.push(package);
            assert(referents(out@) =~= referents(held).push(*package));
        }
        i = i + 1;
    }
    assert(packages@.take(packages@.len() as int) =~= packages@);
}

/// The inner packages in the order in which they are handled.
pub fn ordered_by_priority<'a>(packages: &'a Vec<InnerPackage>) -> (r: Vec<&'a InnerPackage>)
    ensures
        referents(r@) == by_priority(packages@),
{
    let mut out: Vec<&'a InnerPackage> = Vec::new();
    assert(referents(out@) =~= Seq::<InnerPackage>::empty());
    append_with_priority(packages, InnerPackagePriority::Highest, &mut out);
    append_with_priority(packages, InnerPackagePriority::Higher, &mut out);
    append_with_priority(packages, InnerPackagePriority::Normal, &mut out);
    append_with_priority(packages, InnerPackagePriority::Lower, &mut out);
    append_with_priority(packages, InnerPackagePriority::Lowest, &mut out);
    assert(referents(out@) =~= by_priority(packages@));
    out
}

/// Every inner package that is kept for one priority has that priority.
proof fn lemma_filtered_priority(packages: Seq<InnerPackage>, priority: InnerPackagePriority)
    ensures
        forall|k: int|
            0 <= k < packages.filter(has_priority(priority)).len() ==> (#[trigger] packages.filter(
                has_priority(priority),
            )[k]).priority == priority,
{
    assert forall|k: int| 0 <= k < packages.filter(has_priority(priority)).len() implies (
    #[trigger] packages.filter(has_priority(priority))[k]).priority == priority by {
        packages.lemma_filter_pred(has_priority(priority), k);
    }
}

/// In the order of work no inner package comes before one of a higher priority.
pub proof fn lemma_by_priority_descends(packages: Seq<InnerPackage>, i: int, j: int)
    requires
        0 <= i <= j < by_priority(packages).len(),
    ensures
        by_priority(packages)[i].priority.rank_spec() >= by_priority(
            packages,
        )[j].priority.rank_spec(),
{
    lemma_filtered_priority(packages, InnerPackagePriority::Highest);
    lemma_filtered_priority(packages, InnerPackagePriority::Higher);
    lemma_filtered_priority(packages, InnerPackagePriority::Normal);
    lemma_filtered_priority(packages, InnerPackagePriority::Lower);
    lemma_filtered_priority(packages, InnerPackagePriority::Lowest);
}

/// Keeping one priority out of what was kept for another leaves nothing,
/// and out of what was kept for the same one leaves all of it.
proof fn lemma_filter_twice(
    packages: Seq<InnerPackage>,
    kept: InnerPackagePriority,
    asked: InnerPackagePriority,
)
    ensures
        packages.filter(has_priority(kept)).filter(has_priority(asked)) == if kept == asked {
            packages.filter(has_priority(asked))
        } else {
            Seq::<InnerPackage>::empty()
        },
    decreases packages.len(),
{
    if packages.len() == 0 {
        reveal(Seq::filter);
    } else {
        let rest = packages.drop_last();
        let last = packages.last();
        lemma_filter_twice(rest, kept, asked);
        assert(packages =~= rest.push(last));
        rest.lemma_filter_push(last, has_priority(kept));
        rest.lemma_filter_push(last, has_priority(asked));
        if last.priority == kept {
            rest.filter(has_priority(kept)).lemma_filter_push(last, has_priority(asked));
        }
    }
}

/// The order of work is stable: the inner packages of one priority come in
/// the order in which they were declared.
pub proof fn lemma_by_priority_keeps_declared_order(
    packages: Seq<InnerPackage>,
    priority: InnerPackagePriority,
)
    ensures
        by_priority(packages).filter(has_priority(priority)) == packages.filter(
            has_priority(priority),
        ),
{
    let asked = has_priority(priority);
    let a = packages.filter(has_priority(InnerPackagePriority::Highest));
    let b = packages.filter(has_priority(InnerPackagePriority::Higher));
    let c = packages.filter(has_priority(InnerPackagePriority::Normal));
    let d = packages.filter(has_priority(InnerPackagePriority::Lower));
    let e = packages.filter(has_priority(InnerPackagePriority::Lowest));
    Seq::filter_distributes_over_add(a + b + c + d, e, asked);
    Seq::filter_distributes_over_add(a + b + c, d, asked);
    Seq::filter_distributes_over_add(a + b, c, asked);
    Seq::filter_distributes_over_add(a, b, asked);
    lemma_filter_twice(packages, InnerPackagePriority::Highest, priority);
    lemma_filter_twice(packages, InnerPackagePriority::Higher, priority);
    lemma_filter_twice(packages, InnerPackagePriority::Normal, priority);
    lemma_filter_twice(packages, InnerPackagePriority::Lower, priority);
    lemma_filter_twice(packages, InnerPackagePriority::Lowest, priority);
    assert(by_priority(packages).filter(asked) =~= packages.filter(asked));
}

/// The order of work holds each declared inner package once: nothing is
/// lost and nothing is added.
pub proof fn lemma_by_priority_permutes(packages: Seq<InnerPackage>)
    ensures
        by_priority(packages).to_multiset() == packages.to_multiset(),
    decreases packages.len(),
{
    let a = packages.filter(has_priority(InnerPackagePriority::Highest));
    let b = packages.filter(has_priority(InnerPackagePriority::Higher));
    let c = packages.filter(has_priority(InnerPackagePriority::Normal));
    let d = packages.filter(has_priority(InnerPackagePriority::Lower));
    let e = packages.filter(has_priority(InnerPackagePriority::Lowest));
    lemma_multiset_commutative(a + b + c + d, e);
    lemma_multiset_commutative(a + b + c, d);
    lemma_multiset_commutative(a + b, c);
    lemma_multiset_commutative(a, b);
    if packages.len() == 0 {
        reveal(Seq::filter);
        assert(by_priority(packages) =~= packages);
    } else {
        let rest = packages.drop_last();
        let last = packages.last();
        lemma_by_priority_permutes(rest);
        assert(packages =~= rest.push(last));
        let a0 = rest.filter(has_priority(InnerPackagePriority::Highest));
        let b0 = rest.filter(has_priority(InnerPackagePriority::Higher));
        let c0 = rest.filter(has_priority(InnerPackagePriority::Normal));
        let d0 = rest.filter(has_priority(InnerPackagePriority::Lower));
        let e0 = rest.filter(has_priority(InnerPackagePriority::Lowest));
        lemma_multiset_commutative(a0 + b0 + c0 + d0, e0);
        lemma_multiset_commutative(a0 + b0 + c0, d0);
        lemma_multiset_commutative(a0 + b0, c0);
        lemma_multiset_commutative(a0, b0);
        rest.lemma_filter_push(last, has_priority(InnerPackagePriority::Highest));
        rest.lemma_filter_push(last, has_priority(InnerPackagePriority::Higher));
        rest.lemma_filter_push(last, has_priority(InnerPackagePriority::Normal));
        rest.lemma_filter_push(last, has_priority(InnerPackagePriority::Lower));
        rest.lemma_filter_push(last, has_priority(InnerPackagePriority::Lowest));
        to_multiset_build(a0, last);
        to_multiset_build(b0, last);
        to_multiset_build(c0, last);
        to_multiset_build(d0, last);
        to_multiset_build(e0, last);
        to_multiset_build(rest, last);
        assert(by_priority(packages).to_multiset() =~= by_priority(rest).to_multiset().insert(
            last,
        ));
    }
}

} // verus!
