//! The ordered plan of work for an action on a package, and the record of
//! how far the work has come.
//!
//! The library decides what is done and in which order. Running a script
//! and invoking an installer happen outside it: each is handed out as a
//! step, and its outcome is handed back.

use crate::error::ErrorKind;
use crate::name::Name;
use crate::config::LayerKind;
use crate::package::{
    by_priority, ordered_by_priority, referents, InnerPackage, Package, Packages, ScriptSet,
};
use crate::text::{clone_texts, texts};
use crate::Options;
use vstd::prelude::*;

verus! {

/// What is done to a package.
#[derive(Clone, Copy, Debug, PartialEq, Eq, Structural)]
pub enum Action {
    Install,
    Update,
    Delete,
}

/// One step of the work on a package.
#[derive(Debug, PartialEq, Eq)]
pub enum Step {
    /// Make sure that each of these commands is on the search path.
    CheckRequires { commands: Vec<String> },
    /// Run a lifecycle script of the package whose manifest lies at
    /// `base_path`; with `dry_run` the script is located and not executed.
    RunScript { base_path: String, script: String, dry_run: bool },
    /// Have the installer named `installer` apply `action` to `package`.
    InstallInner { action: Action, installer: Name, package: Name, additional_arguments: Vec<String> },
}

/// A step as plain data.
pub enum StepView {
    CheckRequires { commands: Seq<Seq<char>> },
    RunScript { base_path: Seq<char>, script: Seq<char>, dry_run: bool },
    InstallInner {
        action: Action,
        installer: Seq<char>,
        package: Seq<char>,
        additional_arguments: Seq<Seq<char>>,
    },
}

impl View for Step {
    type V = StepView;

    open spec fn view(&self) -> StepView {
        match *self {
            Step::CheckRequires { commands } => StepView::CheckRequires {
                commands: texts(commands@),
            },
            Step::RunScript { base_path, script, dry_run } => StepView::RunScript {
                base_path: base_path@,
                script: script@,
                dry_run,
            },
            Step::InstallInner {
                action,
                installer,
                package,
                additional_arguments,
            } => StepView::InstallInner {
                action,
                installer: installer@,
                package: package@,
                additional_arguments: texts(additional_arguments@),
            },
        }
    }
}

impl Clone for Step {
    fn clone(&self) -> (r: Self)
        ensures
            r@ == self@,
    {
        match self {
            Step::CheckRequires { commands } => Step::CheckRequires {
                commands: clone_texts(commands),
            },
            Step::RunScript { base_path, script, dry_run } => Step::RunScript {
                base_path: base_path.clone(),
                script: script.clone(),
                dry_run: *dry_run,
            },
            Step::InstallInner {
                action,
                installer,
                package,
                additional_arguments,
            } => Step::InstallInner {
                action: *action,
                installer: installer.clone(),
                package: package.clone(),
                additional_arguments: clone_texts(additional_arguments),
            },
        }
    }
}

/// The steps of a plan as plain data.
pub open spec fn steps_view(steps: Seq<Step>) -> Seq<StepView> {
    steps.map_values(|step: Step| step@)
}

/// The step that hands one inner package to its installer.
pub open spec fn inner_step(action: Action, package: InnerPackage) -> StepView {
    StepView::InstallInner {
        action,
        installer: package.installer@,
        package: package.name@,
        additional_arguments: texts(package.additional_arguments@),
    }
}

/// The steps for the inner packages: one each, from the highest priority to
/// the lowest, and within one priority in the declared order.
pub open spec fn inner_steps(action: Action, packages: Seq<InnerPackage>) -> Seq<StepView> {
    by_priority(packages).map_values(|package: InnerPackage| inner_step(action, package))
}

/// The step for a lifecycle script, if one is set.
pub open spec fn script_steps(base_path: Seq<char>, script: Option<String>, dry_run: bool) -> Seq<
    StepView,
> {
    match script {
        Some(path) => seq![StepView::RunScript { base_path, script: path@, dry_run }],
        None => Seq::empty(),
    }
}

/// The script that runs before the inner packages, if any.
pub open spec fn before_script(script_set: Option<ScriptSet>) -> Option<String> {
    match script_set {
        Some(scripts) => scripts.before,
        None => None,
    }
}

/// The script that runs after the inner packages, if any.
pub open spec fn after_script(script_set: Option<ScriptSet>) -> Option<String> {
    match script_set {
        Some(scripts) => scripts.after,
        None => None,
    }
}

/// The steps of an action once the required commands are known to be
/// there: the script that runs before, the inner packages by priority, the
/// script that runs after.
pub open spec fn action_steps(
    action: Action,
    base_path: Seq<char>,
    packages: Seq<InnerPackage>,
    script_set: Option<ScriptSet>,
    options: Options,
) -> Seq<StepView> {
    script_steps(base_path, before_script(script_set), options.dry_run) + inner_steps(
        action,
        packages,
    ) + script_steps(base_path, after_script(script_set), options.dry_run)
}

/// The scripts of `package` that belong to `action`.
pub open spec fn script_set_for(action: Action, package: Package) -> Option<ScriptSet> {
    match action {
        Action::Install => package.on_install,
        Action::Update => package.on_update,
        Action::Delete => package.on_delete,
    }
}

/// All the steps of an action on a package: first the check of the
/// commands that the package requires, then the steps of the action.
pub open spec fn package_steps(action: Action, package: Package, options: Options) -> Seq<
    StepView,
> {
    seq![StepView::CheckRequires { commands: texts(package.requires@) }] + action_steps(
        action,
        package.path@,
        package.packages@,
        script_set_for(action, package),
        options,
    )
}

/// The step that hands the inner package `package` to its installer. What
/// the installer then runs is not decided here.
pub fn install_inner_package(action: Action, package: &InnerPackage) -> (r: Step)
    ensures
        r@ == inner_step(action, *package),
{
    Step::InstallInner {
        action,
        installer: package.installer.clone(),
        package: package.name.clone(),
        additional_arguments: clone_texts(&package.additional_arguments),
    }
}

fn push_script(base_path: &String, script: &Option<String>, options: &Options, out: &mut Vec<Step>)
    ensures
        steps_view(final(out)@) == steps_view(old(out)@) + script_steps(
            base_path@,
            *script,
            options.dry_run,
        ),
{
    let ghost held = out@;
    match script {
        Some(path) => {
            out.push(
                Step::RunScript {
                    base_path: base_path.clone(),
                    script: path.clone(),
                    dry_run: options.dry_run,
                },
            );
            assert(steps_view(out@) =~= steps_view(held) + script_steps(
                base_path@,
                *script,
                options.dry_run,
            ));
        },
        None => {
            assert(steps_view(out@) =~= steps_view(held) + script_steps(
                base_path@,
                *script,
                options.dry_run,
            ));
        },
    }
}

/// The steps of `action` for the inner packages `packages` of the package
/// whose manifest lies at `base_path`, with the scripts of `script_set`
/// around them.
pub fn do_action(
    action: Action,
    base_path: &String,
    packages: &Vec<InnerPackage>,
    script_set: &Option<ScriptSet>,
    options: &Options,
) -> (r: Vec<Step>)
    ensures
        steps_view(r@) == action_steps(action, base_path@, packages@, *script_set, *options),
{
    let mut out: Vec<Step> = Vec::new();
    assert(steps_view(out@) =~= Seq::<StepView>::empty());
    match script_set {
        Some(scripts) => push_script(base_path, &scripts.before, options, &mut out),
        None => {},
    }
    assert(steps_view(out@) =~= script_steps(
        base_path@,
        before_script(*script_set),
        options.dry_run,
    ));
    let ghost first = steps_view(out@);
    let ordered = ordered_by_priority(packages);
    let mut i: usize = 0;
    while i < ordered.len()
        invariant
            i <= ordered@.len(),
            referents(ordered@) == by_priority(packages@),
            steps_view(out@) == first + inner_steps(action, packages@).take(i as int),
        decreases ordered@.len() - i,
    {
        let ghost held = out@;
        let step = install_inner_package(action, ordered[i]);
        out.push(step);
        proof {
            assert(referents(ordered@)[i as int] == *ordered@[i as int]);
            assert(steps_view(out@) =~= steps_view(held).push(step@));
            assert(inner_steps(action, packages@).take(i + 1) =~= inner_steps(
                action,
                packages@,
            ).take(i as int).push(step@));
        }
        i = i + 1;
    }
    assert(inner_steps(action, packages@).take(ordered@.len() as int) =~= inner_steps(
        action,
        packages@,
    ));
    match script_set {
        Some(scripts) => push_script(base_path, &scripts.after, options, &mut out),
        None => {},
    }
    assert(steps_view(out@) =~= action_steps(action, base_path@, packages@, *script_set, *options));
    out
}

/// All the steps of `action` on `package`, in the order in which they are
/// taken: the required commands are checked before anything else happens.
pub fn install_action(action: Action, package: &Package, options: &Options) -> (r: Vec<Step>)
    ensures
        steps_view(r@) == package_steps(action, *package, *options),
{
    let mut out: Vec<Step> = Vec::new();
    out.push(Step::CheckRequires { commands: clone_texts(&package.requires) });
    let mut rest = do_action(
        action,
        &package.path,
        &package.packages,
        match action {
            Action::Install => &package.on_install,
            Action::Update => &package.on_update,
            Action::Delete => &package.on_delete,
        },
        options,
    );
    let ghost head = out@;
    let ghost tail = rest@;
    out.append(&mut rest);
    assert(steps_view(out@) =~= steps_view(head) + steps_view(tail));
    assert(steps_view(out@) =~= package_steps(action, *package, *options));
    out
}

/// Calls `which::which` with `command` and hands the path it found on as
/// text, `None` where it reports an error. The answer depends on the search
/// path and on the files there, so nothing is claimed of it.
#[verifier::external_body]
fn command_path(command: &str) -> (r: Option<String>) {
    which::which(command).ok().map(|path| path.to_string_lossy().into_owned())
}

/// What the search for a required command comes to: its path where one
/// was found, `MissingRequiredCommand` where none was.
pub fn required_command(found: Option<String>) -> (r: Result<String, ErrorKind>)
    ensures
        match found {
            Some(path) => r == Ok::<String, ErrorKind>(path),
            None => r == Err::<String, ErrorKind>(ErrorKind::MissingRequiredCommand),
        },
{
    match found {
        Some(path) => Ok(path),
        None => Err(ErrorKind::MissingRequiredCommand),
    }
}

/// Whether every one of the lookups `found` came to a path.
pub open spec fn all_found(found: Seq<Option<String>>) -> bool {
    forall|i: int| 0 <= i < found.len() ==> (#[trigger] found[i]) is Some
}

/// Looks for each of `commands` on the search path, in order, and hands
/// back what each lookup came to: the path where one was found, `None`
/// where none was.
pub fn look_up(commands: &Vec<String>) -> (r: Vec<Option<String>>)
    ensures
        r@.len() == commands@.len(),
{
    let mut found: Vec<Option<String>> = Vec::new();
    let mut i: usize = 0;
    while i < commands.len()
        invariant
            i <= commands@.len(),
            found@.len() == i,
        decreases commands@.len() - i,
    {
        found.push(command_path(commands[i].as_str()));
        i = i + 1;
    }
    found
}

/// What the lookups of the required commands come to as a whole: the
/// check passes exactly when each command was found, and fails with
/// `MissingRequiredCommand` when one or more were not.
pub fn requires_outcome(found: &Vec<Option<String>>) -> (r: Result<(), ErrorKind>)
    ensures
        r is Ok <==> all_found(found@),
        r matches Err(e) ==> e == ErrorKind::MissingRequiredCommand,
{
    let mut i: usize = 0;
    while i < found.len()
        invariant
            i <= found@.len(),
            all_found(found@.take(i as int)),
        decreases found@.len() - i,
    {
        if found[i].is_none() {
            return Err(ErrorKind::MissingRequiredCommand);
        }
        proof {
            assert forall|j: int| 0 <= j < i + 1 implies (#[trigger] found@.take(i + 1)[j])
                is Some by {
                if j < i {
                    assert(found@.take(i as int)[j] == found@[j]);
                }
            }
        }
        i = i + 1;
    }
    assert(found@.take(found@.len() as int) =~= found@);
    Ok(())
}

/// Looks for each of `commands` on the search path and says what the
/// lookups come to: `Ok` when every command was found, otherwise
/// `MissingRequiredCommand`. With nothing required there is nothing to miss.
pub fn check_requires(commands: &Vec<String>) -> (r: Result<(), ErrorKind>)
    ensures
        commands@.len() == 0 ==> r is Ok,
        r matches Err(e) ==> e == ErrorKind::MissingRequiredCommand,
{
    let found = look_up(commands);
    requires_outcome(&found)
}

/// The command that runs lifecycle scripts: the shell `sh`.
pub fn shell_command() -> (r: &'static str)
    ensures
        r@ == "sh"@,
{
    "sh"
}

/// Looks for the shell that runs lifecycle scripts. No other error than
/// `MissingRequiredCommand` comes out.
pub fn find_shell() -> (r: Result<String, ErrorKind>)
    ensures
        r matches Err(e) ==> e == ErrorKind::MissingRequiredCommand,
{
    required_command(command_path(shell_command()))
}

/// Where a lifecycle script is looked for.
#[derive(Clone, Debug, PartialEq, Eq)]
pub struct ScriptLocation {
    /// The directory that the script's path is relative to; `None` where
    /// the path is taken as it is written.
    pub directory: Option<String>,
    /// The script's path as the manifest gives it.
    pub script: String,
}

/// Where the script `script` of a manifest is looked for: an absolute path
/// is taken as it is, any other relative to the directory of the manifest,
/// if the manifest's path has one.
pub fn script_location(
    script_is_absolute: bool,
    manifest_directory: Option<String>,
    script: String,
) -> (r: ScriptLocation)
    ensures
        r.script == script,
        r.directory == if script_is_absolute {
            None
        } else {
            manifest_directory
        },
{
    if script_is_absolute {
        ScriptLocation { directory: None, script }
    } else {
        ScriptLocation { directory: manifest_directory, script }
    }
}

/// A program to start, with its one argument.
#[derive(Clone, Debug, PartialEq, Eq)]
pub struct Invocation {
    pub program: String,
    pub argument: String,
}

/// How the script at `script` is run through the shell at `shell`: the
/// shell is started with the script's path as its only argument. On a dry
/// run nothing is started.
pub fn script_invocation(shell: String, script: String, dry_run: bool) -> (r: Option<Invocation>)
    ensures
        dry_run ==> r is None,
        !dry_run ==> r == Some(Invocation { program: shell, argument: script }),
{
    if dry_run {
        None
    } else {
        Some(Invocation { program: shell, argument: script })
    }
}

/// The progress of the work on a plan: which steps are done, and the
/// failure that ended the work, if one did.
#[derive(Debug)]
pub struct Run {
    steps: Vec<Step>,
    position: usize,
    failure: Option<ErrorKind>,
}

impl Run {
    #[verifier::type_invariant]
    spec fn well_formed(self) -> bool {
        self.position <= self.steps@.len()
    }

    /// The steps of the plan.
    pub closed spec fn plan(&self) -> Seq<StepView> {
        steps_view(self.steps@)
    }

    /// How many steps of the plan are done.
    pub closed spec fn done(&self) -> nat {
        self.position as nat
    }

    /// The failure that ended the work, if one did.
    pub closed spec fn failed(&self) -> Option<ErrorKind> {
        self.failure
    }

    /// Whether a check of required commands is the step that is due.
    pub open spec fn check_is_due(&self) -> bool {
        self.failed() is None && self.done() < self.plan().len() && self.plan()[self.done() as int]
            is CheckRequires
    }

    /// Whether a step of outside work is the step that is due.
    pub open spec fn work_is_due(&self) -> bool {
        self.failed() is None && self.done() < self.plan().len() && !(self.plan()[self.done() as int]
            is CheckRequires)
    }

    /// Whether the work ended at a check of required commands: the check
    /// is the step that was due, it names at least one command, and the
    /// failure is `MissingRequiredCommand`.
    pub open spec fn failed_at_check(&self) -> bool {
        &&& self.done() < self.plan().len()
        &&& self.plan()[self.done() as int] matches StepView::CheckRequires { commands }
        &&& commands.len() > 0
        &&& self.failed() == Some(ErrorKind::MissingRequiredCommand)
    }

    /// Starts the work on `steps`: nothing is done yet and nothing has failed.
    pub fn new(steps: Vec<Step>) -> (r: Run)
        ensures
            r.plan() == steps_view(steps@),
            r.done() == 0,
            r.failed() is None,
    {
        Run { steps, position: 0, failure: None }
    }

    /// Records the outcome of the check of required commands that is due:
    /// a check that passed is done, one that failed ends the work. Where no
    /// check is due nothing changes.
    pub fn record_check(&mut self, outcome: Result<(), ErrorKind>)
        ensures
            final(self).plan() == old(self).plan(),
            old(self).check_is_due() ==> match outcome {
                Ok(_) => final(self).done() == old(self).done() + 1 && final(self).failed() is None,
                Err(e) => final(self).done() == old(self).done() && final(self).failed() == Some(e),
            },
            !old(self).check_is_due() ==> final(self).done() == old(self).done() && final(self).failed() == old(self).failed(),
    {
        proof {
            use_type_invariant(&*self);
        }
        if self.failure.is_none() && self.position < self.steps.len() {
            if let Step::CheckRequires { commands: _ } = &self.steps[self.position] {
                match outcome {
                    Ok(_) => {
                        self.position = self.position + 1;
                    },
                    Err(e) => {
                        self.failure = Some(e);
                    },
                }
            }
        }
    }

    /// Makes the checks of required commands that are due, and hands out
    /// the step of outside work that comes next. `None` means that the work
    /// is over: every step is done, or a step has failed. Each check looks
    /// its commands up and records what `requires_outcome` makes of the
    /// lookups: a command that is not found ends the work before any later
    /// step, and a check that names no command cannot fail.
    pub fn next(&mut self) -> (r: Option<Step>)
        ensures
            final(self).plan() == old(self).plan(),
            old(self).failed() is Some ==> r is None && final(self).done() == old(self).done()
                && final(self).failed() == old(self).failed(),
            old(self).failed() is None ==> {
                &&& old(self).done() <= final(self).done() <= final(self).plan().len()
                &&& forall|k: int|
                    old(self).done() <= k < final(self).done() ==> #[trigger] final(self).plan()[k] is CheckRequires
                &&& match r {
                    Some(step) => final(self).work_is_due() && step@ == final(self).plan()[final(self).done() as int],
                    None => final(self).done() == final(self).plan().len() && final(self).failed()
                        is None || final(self).failed_at_check(),
                }
            },
    {
        proof {
            use_type_invariant(&*self);
        }
        if self.failure.is_some() {
            return None;
        }
        let ghost start = self.position;
        while self.position < self.steps.len()
            invariant
                self.plan() == old(self).plan(),
                old(self).failed() is None,
                start == old(self).done(),
                start <= self.position <= self.steps@.len(),
                self.failure is None,
                forall|k: int| start <= k < self.position ==> #[trigger] self.plan()[k] is CheckRequires,
            decreases self.steps@.len() - self.position,
        {
            match &self.steps[self.position] {
                Step::CheckRequires { commands } => {
                    let found = look_up(commands);
                    let outcome = requires_outcome(&found);
                    proof {
                        assert(self.plan()[self.position as int] == self.steps@[self.position as int]@);
                        assert(texts(commands@).len() == commands@.len());
                    }
                    if outcome.is_err() {
                        self.record_check(outcome);
                        return None;
                    }
                    self.record_check(outcome);
                },
                step => {
                    return Some(step.clone());
                },
            }
        }
        None
    }

    /// Records the outcome of the step of outside work that is due: a step
    /// that succeeded is done, one that failed ends the work, and no later
    /// step is handed out. Where no such step is due nothing changes.
    pub fn complete(&mut self, outcome: Result<(), ErrorKind>)
        ensures
            final(self).plan() == old(self).plan(),
            old(self).work_is_due() ==> match outcome {
                Ok(_) => final(self).done() == old(self).done() + 1 && final(self).failed() is None,
                Err(e) => final(self).done() == old(self).done() && final(self).failed() == Some(e),
            },
            !old(self).work_is_due() ==> final(self).done() == old(self).done() && final(self).failed() == old(self).failed(),
    {
        proof {
            use_type_invariant(&*self);
        }
        if self.failure.is_none() && self.position < self.steps.len() {
            if let Step::CheckRequires { commands: _ } = &self.steps[self.position] {
            } else {
                match outcome {
                    Ok(_) => {
                        self.position = self.position + 1;
                    },
                    Err(e) => {
                        self.failure = Some(e);
                    },
                }
            }
        }
    }

    /// Whether every step of the plan is done.
    pub fn is_done(&self) -> (r: bool)
        ensures
            r == (self.failed() is None && self.done() == self.plan().len()),
    {
        self.failure.is_none() && self.position == self.steps.len()
    }

    /// Ends the work: the failure that ended it, if one did.
    pub fn finish(self) -> (r: Result<(), ErrorKind>)
        ensures
            match self.failed() {
                Some(e) => r == Err::<(), ErrorKind>(e),
                None => r is Ok,
            },
    {
        match self.failure {
            Some(e) => Err(e),
            None => Ok(()),
        }
    }
}

/// The packages of a registry, in its iteration order.
pub open spec fn package_values(entries: Seq<(Name, Package)>) -> Seq<Package> {
    entries.map_values(|entry: (Name, Package)| entry.1)
}

/// The packages that belong to the layer named `layer`.
pub open spec fn in_layer(layer: Seq<char>) -> spec_fn(Package) -> bool {
    |package: Package| package.layer@ == layer
}

/// The packages of `packages` that belong to the layer named `layer`, in the same order.
pub open spec fn packages_of(packages: Seq<Package>, layer: Seq<char>) -> Seq<Package> {
    packages.filter(in_layer(layer))
}

/// The packages that belong to the inner layers among `children`: child by
/// child in the declared order, and for each child in the order of `packages`.
pub open spec fn children_targets(children: Seq<LayerKind>, packages: Seq<Package>) -> Seq<Package>
    decreases children.len(),
{
    if children.len() == 0 {
        Seq::empty()
    } else {
        children_targets(children.drop_last(), packages) + match children.last() {
            LayerKind::Inner { name } => packages_of(packages, name@),
            LayerKind::Outer { .. } => Seq::empty(),
        }
    }
}

/// The packages that `action` on `layer` reaches. Installing an outer
/// layer reaches the packages of its inner layers. Updating or deleting a
/// layer, outer or inner, reaches the packages whose layer is the layer's
/// own name, and so does installing an inner layer.
pub open spec fn targets(layer: LayerKind, action: Action, packages: Seq<Package>) -> Seq<Package> {
    match (action, layer) {
        (Action::Install, LayerKind::Outer { sub_layers, .. }) => children_targets(
            sub_layers@,
            packages,
        ),
        _ => packages_of(packages, layer.name_spec()@),
    }
}

/// The steps of `action` on each of `packages` in turn.
pub open spec fn plan_of(packages: Seq<Package>, action: Action, options: Options) -> Seq<StepView>
    decreases packages.len(),
{
    if packages.len() == 0 {
        Seq::empty()
    } else {
        plan_of(packages.drop_last(), action, options) + package_steps(
            action,
            packages.last(),
            options,
        )
    }
}

fn append_packages_of<'a>(packages: &'a Packages, layer: &Name, out: &mut Vec<&'a Package>)
    ensures
        referents(final(out)@) == referents(old(out)@) + packages_of(
            package_values(packages.entries()),
            layer@,
        ),
{
    let ghost start = referents(out@);
    let entries = packages.as_entries();
    let ghost values = package_values(entries@);
    let mut i: usize = 0;
    assert(values.take(0).filter(in_layer(layer@)) =~= Seq::<Package>::empty()) by {
        reveal(Seq::filter);
    }
    assert(referents(out@) =~= start + values.take(0).filter(in_layer(layer@)));
    while i < entries.len()
        invariant
            i <= entries@.len(),
            values == package_values(entries@),
            referents(out@) == start + values.take(i as int).filter(in_layer(layer@)),
        decreases entries@.len() - i,
    {
        let package = &entries[i].1;
        proof {
            assert(values.take(i + 1) =~= values.take(i as int).push(*package));
            values.take(i as int).lemma_filter_push(*package, in_layer(layer@));
        }
        let ghost held = out@;
        if package.layer == *layer {
            out.push(package);
            assert(referents(out@) =~= referents(held).push(*package));
        }
        i = i + 1;
    }
    assert(values.take(values.len() as int) =~= values);
}

/// The packages of `packages` that `action` on `layer` reaches, in the order
/// in which they are handled.
pub fn select_packages<'a>(layer: &LayerKind, action: Action, packages: &'a Packages) -> (r: Vec<
    &'a Package,
>)
    ensures
        referents(r@) == targets(*layer, action, package_values(packages.entries())),
{
    let mut out: Vec<&'a Package> = Vec::new();
    assert(referents(out@) =~= Seq::<Package>::empty());
    let ghost values = package_values(packages.entries());
    match (action, layer) {
        (Action::Install, LayerKind::Outer { name: _, sub_layers }) => {
            let mut i: usize = 0;
            while i < sub_layers.len()
                invariant
                    i <= sub_layers@.len(),
                    values == package_values(packages.entries()),
                    referents(out@) == children_targets(sub_layers@.take(i as int), values),
                decreases sub_layers@.len() - i,
            {
                proof {
                    assert(sub_layers@.take(i + 1).drop_last() =~= sub_layers@.take(i as int));
                    assert(sub_layers@.take(i + 1).last() == sub_layers@[i as int]);
                }
                match &sub_layers[i] {
                    LayerKind::Inner { name } => {
                        append_packages_of(packages, name, &mut out);
                    },
                    LayerKind::Outer { name: _, sub_layers: _ } => {
                        assert(referents(out@) + Seq::<Package>::empty() =~= referents(out@));
                    },
                }
                i = i + 1;
            }
            assert(sub_layers@.take(sub_layers@.len() as int) =~= sub_layers@);
        },
        _ => {
            append_packages_of(packages, layer.name(), &mut out);
            assert(referents(out@) =~= packages_of(values, layer.name_spec()@));
        },
    }
    out
}

/// The steps of `action` on each of `packages` in turn: all steps of one
/// package come before the first step of the next.
pub fn plan_for(packages: &Vec<&Package>, action: Action, options: &Options) -> (r: Vec<Step>)
    ensures
        steps_view(r@) == plan_of(referents(packages@), action, *options),
{
    let mut out: Vec<Step> = Vec::new();
    let ghost all = referents(packages@);
    assert(steps_view(out@) =~= plan_of(all.take(0), action, *options));
    let mut i: usize = 0;
    while i < packages.len()
        invariant
            i <= packages@.len(),
            all == referents(packages@),
            steps_view(out@) == plan_of(all.take(i as int), action, *options),
        decreases packages@.len() - i,
    {
        let ghost head = out@;
        let mut steps = install_action(action, packages[i], options);
        let ghost tail = steps@;
        out.append(&mut steps);
        proof {
            assert(all.take(i + 1).drop_last() =~= all.take(i as int));
            assert(all.take(i + 1).last() == *packages@[i as int]);
            assert(steps_view(out@) =~= steps_view(head) + steps_view(tail));
        }
        i = i + 1;
    }
    assert(all.take(all.len() as int) =~= all);
    out
}

} // verus!
