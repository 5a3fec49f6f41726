use dfpm::config::layers::LayerKind;
use dfpm::error::ErrorKind;
use dfpm::name::Name;
use dfpm::package::install::{
    check_requires, do_action, find_shell, install_action, install_inner_package, look_up,
    plan_for, required_command, requires_outcome, script_invocation, script_location,
    shell_command, Action, Invocation, Run, ScriptLocation, Step,
};
use dfpm::package::{InnerPackage, InnerPackagePriority, Package, Packages, ScriptSet};
use dfpm::registry::Registry;
use dfpm::{Installable, Options};

fn id(text: &str) -> Name {
    Name::from_str(text).unwrap()
}

fn unit(name: &str, installer: &str, priority: InnerPackagePriority, arguments: &[&str]) -> InnerPackage {
    InnerPackage {
        name: id(name),
        installer: id(installer),
        priority,
        is_app: false,
        additional_arguments: arguments.iter().map(|s| s.to_string()).collect(),
        platforms: vec![],
    }
}

fn sample_package() -> Package {
    Package {
        path: "/pkgs/rust/package.toml".to_string(),
        name: id("Rust"),
        layer: id("other-tools"),
        packages: vec![
            unit("rust-analyzer", "homebrew", InnerPackagePriority::Lower, &[]),
            unit("rustup", "homebrew", InnerPackagePriority::Highest, &["--quiet"]),
            unit("cargo-edit", "cargo", InnerPackagePriority::Normal, &[]),
        ],
        on_install: Some(ScriptSet {
            before: Some("before.sh".to_string()),
            after: Some("/abs/after.sh".to_string()),
        }),
        on_update: Some(ScriptSet { before: None, after: Some("updated.sh".to_string()) }),
        on_delete: None,
        requires: vec!["/bin/sh".to_string()],
    }
}

fn inner_step(action: Action, installer: &str, package: &str, arguments: &[&str]) -> Step {
    Step::InstallInner {
        action,
        installer: id(installer),
        package: id(package),
        additional_arguments: arguments.iter().map(|s| s.to_string()).collect(),
    }
}

fn script(path: &str, dry_run: bool) -> Step {
    Step::RunScript {
        base_path: "/pkgs/rust/package.toml".to_string(),
        script: path.to_string(),
        dry_run,
    }
}

const WET: Options = Options { dry_run: false };
const DRY: Options = Options { dry_run: true };

#[test]
fn install_plan_in_order() {
    let steps = install_action(Action::Install, &sample_package(), &WET);
    assert_eq!(
        steps,
        vec![
            Step::CheckRequires { commands: vec!["/bin/sh".to_string()] },
            script("before.sh", false),
            inner_step(Action::Install, "homebrew", "rustup", &["--quiet"]),
            inner_step(Action::Install, "cargo", "cargo-edit", &[]),
            inner_step(Action::Install, "homebrew", "rust-analyzer", &[]),
            script("/abs/after.sh", false),
        ]
    );
}

#[test]
fn update_plan_uses_update_scripts() {
    let steps = install_action(Action::Update, &sample_package(), &WET);
    assert_eq!(
        steps,
        vec![
            Step::CheckRequires { commands: vec!["/bin/sh".to_string()] },
            inner_step(Action::Update, "homebrew", "rustup", &["--quiet"]),
            inner_step(Action::Update, "cargo", "cargo-edit", &[]),
            inner_step(Action::Update, "homebrew", "rust-analyzer", &[]),
            script("updated.sh", false),
        ]
    );
}

#[test]
fn delete_plan_without_scripts() {
    let steps = install_action(Action::Delete, &sample_package(), &WET);
    assert_eq!(
        steps,
        vec![
            Step::CheckRequires { commands: vec!["/bin/sh".to_string()] },
            inner_step(Action::Delete, "homebrew", "rustup", &["--quiet"]),
            inner_step(Action::Delete, "cargo", "cargo-edit", &[]),
            inner_step(Action::Delete, "homebrew", "rust-analyzer", &[]),
        ]
    );
}

#[test]
fn orchestrator_processes_by_priority() {
    let packages = vec![
        unit("first-declared", "brew", InnerPackagePriority::Lower, &[]),
        unit("second-declared", "brew", InnerPackagePriority::Highest, &[]),
        unit("third-declared", "brew", InnerPackagePriority::Normal, &[]),
    ];
    let steps = do_action(Action::Install, &"p".to_string(), &packages, &None, &WET);
    assert_eq!(
        steps,
        vec![
            inner_step(Action::Install, "brew", "second-declared", &[]),
            inner_step(Action::Install, "brew", "third-declared", &[]),
            inner_step(Action::Install, "brew", "first-declared", &[]),
        ]
    );
}

#[test]
fn do_action_with_nothing_to_do() {
    let steps = do_action(Action::Delete, &"p".to_string(), &vec![], &None, &WET);
    assert!(steps.is_empty());
    let only_scripts = do_action(
        Action::Delete,
        &"/m/package.toml".to_string(),
        &vec![],
        &Some(ScriptSet { before: Some("a".to_string()), after: Some("b".to_string()) }),
        &DRY,
    );
    assert_eq!(
        only_scripts,
        vec![
            Step::RunScript {
                base_path: "/m/package.toml".to_string(),
                script: "a".to_string(),
                dry_run: true,
            },
            Step::RunScript {
                base_path: "/m/package.toml".to_string(),
                script: "b".to_string(),
                dry_run: true,
            },
        ]
    );
}

#[test]
fn install_inner_package_names_installer_and_arguments() {
    let step = install_inner_package(
        Action::Update,
        &unit("ripgrep", "cargo", InnerPackagePriority::Normal, &["--locked", "-q"]),
    );
    assert_eq!(step, inner_step(Action::Update, "cargo", "ripgrep", &["--locked", "-q"]));
}

#[test]
fn dry_run_skips_script_execution_only() {
    let steps = install_action(Action::Install, &sample_package(), &DRY);
    assert_eq!(
        steps,
        vec![
            Step::CheckRequires { commands: vec!["/bin/sh".to_string()] },
            script("before.sh", true),
            inner_step(Action::Install, "homebrew", "rustup", &["--quiet"]),
            inner_step(Action::Install, "cargo", "cargo-edit", &[]),
            inner_step(Action::Install, "homebrew", "rust-analyzer", &[]),
            script("/abs/after.sh", true),
        ]
    );
    assert_eq!(
        script_invocation("/bin/sh".to_string(), "/pkgs/rust/before.sh".to_string(), true),
        None
    );
    let mut run = Run::new(steps);
    let mut handed_out = 0;
    while let Some(step) = run.next() {
        if let Step::RunScript { base_path: _, script, dry_run } = &step {
            assert!(script_invocation("/bin/sh".to_string(), script.clone(), *dry_run).is_none());
        }
        handed_out += 1;
        run.complete(Ok(()));
    }
    assert_eq!(handed_out, 5);
    assert!(run.is_done());
    assert_eq!(run.finish(), Ok(()));
}

#[test]
fn script_invocation_runs_shell_with_script() {
    assert_eq!(
        script_invocation("/bin/sh".to_string(), "/pkgs/rust/before.sh".to_string(), false),
        Some(Invocation {
            program: "/bin/sh".to_string(),
            argument: "/pkgs/rust/before.sh".to_string(),
        })
    );
}

#[test]
fn missing_required_command_fails_before_any_script() {
    let mut package = sample_package();
    package.requires = vec!["nonexistent-cmd-xyz".to_string()];
    for action in [Action::Install, Action::Update, Action::Delete] {
        let mut run = Run::new(install_action(action, &package, &WET));
        assert_eq!(run.next(), None);
        assert!(!run.is_done());
        assert_eq!(run.next(), None);
        assert_eq!(run.finish(), Err(ErrorKind::MissingRequiredCommand));
    }
}

#[test]
fn check_requires_finds_and_misses() {
    assert_eq!(check_requires(&vec![]), Ok(()));
    assert_eq!(check_requires(&vec!["/bin/sh".to_string()]), Ok(()));
    assert_eq!(
        check_requires(&vec!["nonexistent-cmd-xyz".to_string()]),
        Err(ErrorKind::MissingRequiredCommand)
    );
    assert_eq!(
        check_requires(&vec!["/bin/sh".to_string(), "nonexistent-cmd-xyz".to_string()]),
        Err(ErrorKind::MissingRequiredCommand)
    );
}

#[test]
fn required_command_outcomes() {
    assert_eq!(required_command(Some("/usr/bin/git".to_string())), Ok("/usr/bin/git".to_string()));
    assert_eq!(required_command(None), Err(ErrorKind::MissingRequiredCommand));
}

#[test]
fn find_shell_gives_a_path_or_missing_command() {
    match find_shell() {
        Ok(path) => assert!(path.ends_with("sh")),
        Err(e) => assert_eq!(e, ErrorKind::MissingRequiredCommand),
    }
}

#[test]
fn script_location_rules() {
    assert_eq!(
        script_location(false, Some("/pkgs/rust".to_string()), "before.sh".to_string()),
        ScriptLocation {
            directory: Some("/pkgs/rust".to_string()),
            script: "before.sh".to_string(),
        }
    );
    assert_eq!(
        script_location(true, Some("/pkgs/rust".to_string()), "/abs/after.sh".to_string()),
        ScriptLocation { directory: None, script: "/abs/after.sh".to_string() }
    );
    assert_eq!(
        script_location(false, None, "before.sh".to_string()),
        ScriptLocation { directory: None, script: "before.sh".to_string() }
    );
}

#[test]
fn run_hands_out_steps_in_order() {
    let steps = install_action(Action::Install, &sample_package(), &WET);
    let mut run = Run::new(steps);
    assert_eq!(run.next(), Some(script("before.sh", false)));
    assert_eq!(run.next(), Some(script("before.sh", false)));
    run.complete(Ok(()));
    assert_eq!(
        run.next(),
        Some(inner_step(Action::Install, "homebrew", "rustup", &["--quiet"]))
    );
    run.complete(Ok(()));
    assert_eq!(run.next(), Some(inner_step(Action::Install, "cargo", "cargo-edit", &[])));
    run.complete(Ok(()));
    assert_eq!(
        run.next(),
        Some(inner_step(Action::Install, "homebrew", "rust-analyzer", &[]))
    );
    run.complete(Ok(()));
    assert_eq!(run.next(), Some(script("/abs/after.sh", false)));
    assert!(!run.is_done());
    run.complete(Ok(()));
    assert_eq!(run.next(), None);
    assert!(run.is_done());
    assert_eq!(run.finish(), Ok(()));
}

#[test]
fn run_stops_at_first_failure() {
    let steps = install_action(Action::Install, &sample_package(), &WET);
    let mut run = Run::new(steps);
    assert_eq!(run.next(), Some(script("before.sh", false)));
    run.complete(Err(ErrorKind::Io("no such file".to_string())));
    assert_eq!(run.next(), None);
    run.complete(Ok(()));
    assert_eq!(run.next(), None);
    assert!(!run.is_done());
    assert_eq!(run.finish(), Err(ErrorKind::Io("no such file".to_string())));
}

#[test]
fn run_of_empty_plan_is_done() {
    let mut run = Run::new(vec![]);
    assert!(run.is_done());
    assert_eq!(run.next(), None);
    run.complete(Err(ErrorKind::Io("ignored".to_string())));
    assert!(run.is_done());
    assert_eq!(run.finish(), Ok(()));
}

#[test]
fn run_record_check_only_applies_to_checks() {
    let mut run = Run::new(vec![
        Step::CheckRequires { commands: vec!["anything".to_string()] },
        script("s", false),
    ]);
    run.complete(Ok(()));
    run.record_check(Ok(()));
    assert_eq!(run.next(), Some(script("s", false)));
    run.record_check(Err(ErrorKind::MissingRequiredCommand));
    assert_eq!(run.next(), Some(script("s", false)));
    let mut failing = Run::new(vec![
        Step::CheckRequires { commands: vec!["anything".to_string()] },
        script("s", false),
    ]);
    failing.record_check(Err(ErrorKind::MissingRequiredCommand));
    assert_eq!(failing.next(), None);
    assert_eq!(failing.finish(), Err(ErrorKind::MissingRequiredCommand));
}

#[test]
fn step_clone_is_equal() {
    for step in install_action(Action::Install, &sample_package(), &DRY) {
        assert_eq!(step.clone(), step);
    }
}

fn packages_in_two_layers() -> Packages {
    let mut packages: Packages = Registry::new();
    let mut zsh = sample_package();
    zsh.name = id("Zsh");
    zsh.layer = id("shell");
    zsh.path = "/pkgs/zsh/package.toml".to_string();
    zsh.packages = vec![unit("zsh", "homebrew", InnerPackagePriority::Normal, &[])];
    zsh.on_install = None;
    zsh.requires = vec![];
    packages.insert(id("Rust"), sample_package());
    packages.insert(id("Zsh"), zsh);
    packages
}

#[test]
fn package_installable_matches_install_action() {
    let packages = packages_in_two_layers();
    let package = sample_package();
    assert_eq!(
        package.install(&packages, &WET),
        install_action(Action::Install, &package, &WET)
    );
    assert_eq!(
        package.update(&packages, &DRY),
        install_action(Action::Update, &package, &DRY)
    );
    assert_eq!(
        package.delete(&packages, &WET),
        install_action(Action::Delete, &package, &WET)
    );
}

#[test]
fn layer_install_plans_each_package_in_turn() {
    let packages = packages_in_two_layers();
    let system = LayerKind::Outer {
        name: id("system"),
        sub_layers: vec![
            LayerKind::Inner { name: id("shell") },
            LayerKind::Inner { name: id("other-tools") },
        ],
    };
    let steps = system.install(&packages, &WET);
    let mut expected = install_action(Action::Install, packages.get(&id("Zsh")).unwrap(), &WET);
    expected.extend(install_action(Action::Install, packages.get(&id("Rust")).unwrap(), &WET));
    assert_eq!(steps, expected);
    assert_eq!(steps.len(), 2 + 6);
    assert_eq!(steps[0], Step::CheckRequires { commands: vec![] });
    assert_eq!(steps[1], inner_step(Action::Install, "homebrew", "zsh", &[]));
}

#[test]
fn layer_update_and_delete_do_not_descend() {
    let packages = packages_in_two_layers();
    let system = LayerKind::Outer {
        name: id("system"),
        sub_layers: vec![LayerKind::Inner { name: id("shell") }],
    };
    assert!(system.update(&packages, &WET).is_empty());
    assert!(system.delete(&packages, &WET).is_empty());
    let shell = LayerKind::Inner { name: id("shell") };
    assert_eq!(
        shell.update(&packages, &WET),
        install_action(Action::Update, packages.get(&id("Zsh")).unwrap(), &WET)
    );
    assert_eq!(
        shell.delete(&packages, &WET),
        install_action(Action::Delete, packages.get(&id("Zsh")).unwrap(), &WET)
    );
}

#[test]
fn plan_for_concatenates() {
    let first = sample_package();
    let mut second = sample_package();
    second.name = id("Other");
    second.on_update = None;
    let steps = plan_for(&vec![&first, &second], Action::Update, &WET);
    let mut expected = install_action(Action::Update, &first, &WET);
    expected.extend(install_action(Action::Update, &second, &WET));
    assert_eq!(steps, expected);
    assert!(plan_for(&vec![], Action::Update, &WET).is_empty());
}

#[test]
fn requires_outcome_is_ok_exactly_when_all_are_found() {
    assert_eq!(requires_outcome(&vec![]), Ok(()));
    assert_eq!(requires_outcome(&vec![Some("/bin/sh".to_string())]), Ok(()));
    assert_eq!(
        requires_outcome(&vec![Some("/bin/sh".to_string()), Some("/usr/bin/git".to_string())]),
        Ok(())
    );
    assert_eq!(requires_outcome(&vec![None]), Err(ErrorKind::MissingRequiredCommand));
    assert_eq!(
        requires_outcome(&vec![Some("/bin/sh".to_string()), None]),
        Err(ErrorKind::MissingRequiredCommand)
    );
    assert_eq!(
        requires_outcome(&vec![None, Some("/bin/sh".to_string())]),
        Err(ErrorKind::MissingRequiredCommand)
    );
}

#[test]
fn look_up_answers_for_each_command() {
    assert!(look_up(&vec![]).is_empty());
    let found = look_up(&vec![
        "/bin/sh".to_string(),
        "nonexistent-cmd-xyz".to_string(),
        "/bin/sh".to_string(),
    ]);
    assert_eq!(found.len(), 3);
    assert!(found[0].is_some());
    assert_eq!(found[1], None);
    assert!(found[2].is_some());
    assert_eq!(requires_outcome(&found), Err(ErrorKind::MissingRequiredCommand));
}

#[test]
fn shell_command_is_sh() {
    assert_eq!(shell_command(), "sh");
}

#[test]
fn run_fails_only_at_a_check_that_names_a_command() {
    let mut run = Run::new(vec![
        Step::CheckRequires { commands: vec![] },
        Step::CheckRequires { commands: vec!["/bin/sh".to_string()] },
        script("first", false),
        Step::CheckRequires { commands: vec!["nonexistent-cmd-xyz".to_string()] },
        script("never", false),
    ]);
    assert_eq!(run.next(), Some(script("first", false)));
    run.complete(Ok(()));
    assert_eq!(run.next(), None);
    assert!(!run.is_done());
    assert_eq!(run.finish(), Err(ErrorKind::MissingRequiredCommand));
}
