use dfpm::config::installers::{self, Installer, Installers};
use dfpm::config::layers::{self, find_layer, Layer, LayerKind, Layers};
use dfpm::config::platforms::{self, current_name, CurrentPlatform, Platform, Platforms};
use dfpm::config::{
    config_from_user_file, current_configuration, make_user_file_path, merge_sources,
    user_file_in, Configuration, Sources, UserFile, UserFilePath,
};
use dfpm::error::ErrorKind;
use dfpm::name::Name;
use dfpm::package::install::Action;
use dfpm::registry::Registry;

fn n(text: &str) -> Name {
    Name::from_str(text).unwrap()
}

fn layer(name: &str, sub_layers: &[&str]) -> Layer {
    Layer {
        name: n(name),
        sub_layers: sub_layers.iter().map(|s| n(s)).collect(),
    }
}

fn built_in_layers() -> Layers {
    Layers {
        layers: vec![
            layer("bootstrap", &[]),
            layer(
                "system",
                &["package-managers", "shell", "fonts", "secure-tools", "other-tools"],
            ),
        ],
    }
}

fn no_layers() -> Layers {
    Layers { layers: vec![] }
}

fn platform(name: &str, system: Option<&str>, app: Option<&str>, determine: Option<&str>) -> Platform {
    Platform {
        name: n(name),
        system_installer: system.map(n),
        app_installer: app.map(n),
        determine_installer: determine.map(|s| s.to_string()),
    }
}

fn built_in_platforms() -> Platforms {
    let mut platforms: Platforms = Registry::new();
    platforms.insert(
        n("macos"),
        platform("macOS", Some("homebrew"), Some("homebrew-apps"), None),
    );
    platforms.insert(n("linux"), platform("Linux", None, None, Some("which-linux")));
    platforms
}

fn installer(name: &str, platforms: &[&str], command: &str) -> Installer {
    Installer {
        name: n(name),
        platforms: platforms.iter().map(|s| n(s)).collect(),
        bootstrap: None,
        command: command.to_string(),
        install_arguments: vec!["install".to_string()],
        update_arguments: vec!["upgrade".to_string()],
        delete_arguments: vec!["uninstall".to_string()],
        update_self_arguments: vec![],
        requires: vec![],
    }
}

fn built_in_installers() -> Installers {
    let mut all: Installers = Registry::new();
    all.insert(n("homebrew"), installer("Homebrew", &["macos"], "brew"));
    all.insert(n("homebrew-apps"), installer("Homebrew-Casks", &["macos"], "brew"));
    all.insert(n("apt"), installer("APT", &["linux"], "apt-get"));
    all.insert(n("cargo"), installer("Cargo", &[], "cargo"));
    all
}

fn built_in_sources() -> Sources {
    Sources {
        default_layers: Some(built_in_layers()),
        user_layers: Some(no_layers()),
        default_platforms: Some(built_in_platforms()),
        user_platforms: Some(Registry::new()),
        default_installers: Some(built_in_installers()),
        user_installers: Some(Registry::new()),
    }
}

fn error_of(result: Result<Configuration, ErrorKind>) -> ErrorKind {
    match result {
        Ok(_) => panic!("the configuration loaded"),
        Err(e) => e,
    }
}

#[test]
fn test_load_config() {
    let result = current_configuration(built_in_sources(), "linux");
    println!("{:#?}", result);
    assert!(result.is_ok());
    let config = result.as_ref().unwrap();
    println!("{:#?}", config);
}

#[test]
fn configuration_holds_what_was_resolved() {
    let config = current_configuration(built_in_sources(), "macos").unwrap();
    assert_eq!(
        config.platform(),
        &CurrentPlatform {
            target_os: n("macos"),
            name: n("macOS"),
            system_installer: Some(n("homebrew")),
            app_installer: Some(n("homebrew-apps")),
            determine_installer: None,
        }
    );
    let kept: Vec<&str> = config
        .installers()
        .as_entries()
        .iter()
        .map(|e| e.0.as_str())
        .collect();
    assert_eq!(kept, vec!["homebrew", "homebrew-apps", "cargo"]);
    assert_eq!(config.layers().len(), 2);
    assert_eq!(
        config.layers()[0],
        LayerKind::Outer { name: n("bootstrap"), sub_layers: vec![] }
    );
    assert_eq!(config.layers()[1].name(), &n("system"));
}

#[test]
fn installers_of_other_platforms_are_dropped() {
    let config = current_configuration(built_in_sources(), "linux").unwrap();
    let kept: Vec<&str> = config
        .installers()
        .as_entries()
        .iter()
        .map(|e| e.0.as_str())
        .collect();
    assert_eq!(kept, vec!["apt", "cargo"]);
    assert!(config.installers().contains_key(&n("cargo")));
    assert!(!config.installers().contains_key(&n("homebrew")));
}

#[test]
fn missing_system_installer() {
    let mut sources = built_in_sources();
    let mut installers: Installers = Registry::new();
    installers.insert(n("homebrew-apps"), installer("Homebrew-Casks", &[], "brew"));
    sources.default_installers = Some(installers);
    assert_eq!(
        error_of(current_configuration(sources, "macos")),
        ErrorKind::MissingSystemInstaller
    );
}

#[test]
fn system_installer_for_another_platform_is_missing() {
    let mut sources = built_in_sources();
    let mut installers: Installers = Registry::new();
    installers.insert(n("homebrew"), installer("Homebrew", &["linux"], "brew"));
    installers.insert(n("homebrew-apps"), installer("Homebrew-Casks", &[], "brew"));
    sources.default_installers = Some(installers);
    assert_eq!(
        error_of(current_configuration(sources, "macos")),
        ErrorKind::MissingSystemInstaller
    );
}

#[test]
fn missing_app_installer() {
    let mut sources = built_in_sources();
    let mut installers: Installers = Registry::new();
    installers.insert(n("homebrew"), installer("Homebrew", &[], "brew"));
    sources.default_installers = Some(installers);
    assert_eq!(
        error_of(current_configuration(sources, "macos")),
        ErrorKind::MissingSystemInstaller
    );
}

#[test]
fn platform_without_installer_is_invalid_format() {
    let mut sources = built_in_sources();
    let mut user: Platforms = Registry::new();
    user.insert(n("windows"), platform("Windows", None, Some("scoop"), None));
    sources.user_platforms = Some(user);
    assert_eq!(
        error_of(current_configuration(sources, "linux")),
        ErrorKind::InvalidConfigFormat
    );
}

#[test]
fn no_platform_with_installer_is_invalid_format() {
    let mut only: Platforms = Registry::new();
    only.insert(n("linux"), platform("Linux", None, None, None));
    only.insert(n("macos"), platform("macOS", None, None, None));
    let result = platforms::load_config(Some(only), Some(Registry::new()));
    assert_eq!(result.err(), Some(ErrorKind::InvalidConfigFormat));
}

#[test]
fn unreadable_source_is_invalid_format() {
    let mut sources = built_in_sources();
    sources.user_layers = None;
    assert_eq!(
        error_of(current_configuration(sources, "linux")),
        ErrorKind::InvalidConfigFormat
    );
    let mut sources = built_in_sources();
    sources.default_platforms = None;
    assert_eq!(
        error_of(current_configuration(sources, "linux")),
        ErrorKind::InvalidConfigFormat
    );
    let mut sources = built_in_sources();
    sources.user_installers = None;
    assert_eq!(
        error_of(current_configuration(sources, "linux")),
        ErrorKind::InvalidConfigFormat
    );
}

#[test]
fn unsupported_platform_comes_before_unreadable_installers() {
    let mut sources = built_in_sources();
    sources.default_installers = None;
    assert_eq!(
        error_of(current_configuration(sources, "windows")),
        ErrorKind::UnsupportedPlatform
    );
}

#[test]
fn unknown_operating_system_is_unsupported() {
    assert_eq!(
        error_of(current_configuration(built_in_sources(), "freebsd")),
        ErrorKind::UnsupportedPlatform
    );
    assert_eq!(
        error_of(current_configuration(built_in_sources(), "")),
        ErrorKind::UnsupportedPlatform
    );
}

#[test]
fn operating_system_without_entry_is_unsupported() {
    let result = platforms::get_current_platform_config(
        Some(built_in_platforms()),
        Some(Registry::new()),
        "windows",
    );
    assert_eq!(result, Err(ErrorKind::UnsupportedPlatform));
}

#[test]
fn current_name_knows_three_systems() {
    assert_eq!(current_name("linux"), Some(n("linux")));
    assert_eq!(current_name("macos"), Some(n("macos")));
    assert_eq!(current_name("windows"), Some(n("windows")));
    assert_eq!(current_name("Linux"), None);
    assert_eq!(current_name("freebsd"), None);
    assert_eq!(current_name(""), None);
    assert_eq!(current_name("linux "), None);
}

#[test]
fn user_platform_replaces_built_in() {
    let mut user: Platforms = Registry::new();
    user.insert(n("linux"), platform("My-Linux", Some("apt"), None, None));
    let merged = platforms::load_config(Some(built_in_platforms()), Some(user)).unwrap();
    assert_eq!(merged.len(), 2);
    assert_eq!(
        merged.get(&n("linux")),
        Some(&platform("My-Linux", Some("apt"), None, None))
    );
    assert_eq!(
        merged.get(&n("macos")),
        Some(&platform("macOS", Some("homebrew"), Some("homebrew-apps"), None))
    );
}

#[test]
fn current_platform_carries_its_key() {
    let current = platforms::get_current_platform_config(
        Some(built_in_platforms()),
        Some(Registry::new()),
        "linux",
    )
    .unwrap();
    assert_eq!(current.target_os, n("linux"));
    assert_eq!(current.name, n("Linux"));
    assert_eq!(current.system_installer, None);
    assert_eq!(current.app_installer, None);
    assert_eq!(current.determine_installer, Some("which-linux".to_string()));
}

#[test]
fn user_installer_replaces_built_in() {
    let mut user: Installers = Registry::new();
    user.insert(n("cargo"), installer("My-Cargo", &["linux"], "cargo-nightly"));
    user.insert(n("pip"), installer("Pip", &[], "pip"));
    let merged = installers::load_config(Some(built_in_installers()), Some(user)).unwrap();
    assert_eq!(merged.len(), 5);
    assert_eq!(merged.get(&n("cargo")).unwrap().command, "cargo-nightly");
    assert_eq!(merged.get(&n("apt")).unwrap().command, "apt-get");
    assert_eq!(merged.get(&n("pip")).unwrap().name, n("Pip"));
}

#[test]
fn installers_load_fails_on_unreadable_source() {
    assert_eq!(
        installers::load_config(None, Some(Registry::new())).err(),
        Some(ErrorKind::InvalidConfigFormat)
    );
    assert_eq!(
        installers::load_config(Some(built_in_installers()), None).err(),
        Some(ErrorKind::InvalidConfigFormat)
    );
    let merged: Result<Registry<u8>, ErrorKind> = merge_sources(None, None);
    assert_eq!(merged.err(), Some(ErrorKind::InvalidConfigFormat));
}

#[test]
fn layers_are_concatenated_and_built() {
    let user = Layers {
        layers: vec![layer("system", &["editors"]), layer("extras", &["games"])],
    };
    let tree = layers::load_config(Some(built_in_layers()), Some(user)).unwrap();
    assert_eq!(tree.len(), 4);
    assert_eq!(tree[0], LayerKind::Outer { name: n("bootstrap"), sub_layers: vec![] });
    assert_eq!(
        tree[1],
        LayerKind::Outer {
            name: n("system"),
            sub_layers: vec![
                LayerKind::Inner { name: n("package-managers") },
                LayerKind::Inner { name: n("shell") },
                LayerKind::Inner { name: n("fonts") },
                LayerKind::Inner { name: n("secure-tools") },
                LayerKind::Inner { name: n("other-tools") },
            ],
        }
    );
    assert_eq!(
        tree[2],
        LayerKind::Outer {
            name: n("system"),
            sub_layers: vec![LayerKind::Inner { name: n("editors") }],
        }
    );
    assert_eq!(
        tree[3],
        LayerKind::Outer {
            name: n("extras"),
            sub_layers: vec![LayerKind::Inner { name: n("games") }],
        }
    );
}

#[test]
fn layers_load_fails_on_unreadable_source() {
    assert_eq!(
        layers::load_config(None, Some(no_layers())).err(),
        Some(ErrorKind::InvalidConfigFormat)
    );
    assert_eq!(
        layers::load_config(Some(built_in_layers()), None).err(),
        Some(ErrorKind::InvalidConfigFormat)
    );
}

#[test]
fn find_returns_inner_layer_by_name() {
    let tree = layers::load_config(Some(built_in_layers()), Some(no_layers())).unwrap();
    let system = &tree[1];
    assert_eq!(system.find(&n("shell")), Some(&LayerKind::Inner { name: n("shell") }));
    assert_eq!(
        system.find(&n("other-tools")),
        Some(&LayerKind::Inner { name: n("other-tools") })
    );
    assert_eq!(system.find(&n("editors")), None);
    assert_eq!(tree[0].find(&n("shell")), None);
    let inner = LayerKind::Inner { name: n("fonts") };
    assert_eq!(inner.find(&n("fonts")), Some(&inner));
    assert_eq!(inner.find(&n("shell")), None);
}

#[test]
fn find_never_returns_an_outer_layer() {
    let tree = layers::load_config(Some(built_in_layers()), Some(no_layers())).unwrap();
    assert_eq!(tree[1].find(&n("system")), None);
    assert_eq!(find_layer(&tree, &n("system")), None);
    assert_eq!(find_layer(&tree, &n("bootstrap")), None);
}

#[test]
fn find_looks_at_any_depth() {
    let deep = LayerKind::Outer {
        name: n("top"),
        sub_layers: vec![
            LayerKind::Outer {
                name: n("middle"),
                sub_layers: vec![LayerKind::Inner { name: n("leaf") }],
            },
            LayerKind::Inner { name: n("other") },
        ],
    };
    assert_eq!(deep.find(&n("leaf")), Some(&LayerKind::Inner { name: n("leaf") }));
    assert_eq!(deep.find(&n("other")), Some(&LayerKind::Inner { name: n("other") }));
    assert_eq!(deep.find(&n("middle")), None);
    assert_eq!(deep.find(&n("absent")), None);
}

#[test]
fn find_layer_looks_through_the_roots() {
    let tree = layers::load_config(Some(built_in_layers()), Some(no_layers())).unwrap();
    assert_eq!(
        find_layer(&tree, &n("fonts")),
        Some(&LayerKind::Inner { name: n("fonts") })
    );
    assert_eq!(find_layer(&tree, &n("absent")), None);
    assert_eq!(find_layer(&vec![], &n("fonts")), None);
}

#[test]
fn layer_kind_predicates_and_name() {
    let outer = LayerKind::Outer { name: n("system"), sub_layers: vec![] };
    let inner = LayerKind::Inner { name: n("shell") };
    assert!(outer.is_outer());
    assert!(!outer.is_inner());
    assert!(inner.is_inner());
    assert!(!inner.is_outer());
    assert_eq!(outer.name(), &n("system"));
    assert_eq!(inner.name(), &n("shell"));
}

#[test]
fn select_layers_for_install_looks_under_outer_roots() {
    let config = current_configuration(built_in_sources(), "linux").unwrap();
    let names = vec![n("fonts"), n("system"), n("shell")];
    let selected = config.select_layers(Action::Install, &names);
    assert_eq!(
        selected,
        vec![
            &LayerKind::Inner { name: n("shell") },
            &LayerKind::Inner { name: n("fonts") },
        ]
    );
}

#[test]
fn select_layers_for_update_and_delete_takes_roots() {
    let config = current_configuration(built_in_sources(), "linux").unwrap();
    let names = vec![n("fonts"), n("system")];
    let selected = config.select_layers(Action::Update, &names);
    assert_eq!(selected.len(), 1);
    assert_eq!(selected[0].name(), &n("system"));
    assert!(selected[0].is_outer());
    let selected = config.select_layers(Action::Delete, &vec![n("shell")]);
    assert!(selected.is_empty());
}

#[test]
fn user_file_path_is_named_after_the_source() {
    assert_eq!(
        user_file_in(Some("/home/alice/.config".to_string()), "layers"),
        Some(UserFilePath {
            directory: "/home/alice/.config".to_string(),
            file_name: "layers.toml".to_string(),
        })
    );
    assert_eq!(user_file_in(None, "layers"), None);
    if let Some(path) = make_user_file_path("platforms") {
        assert_eq!(path.file_name, "platforms.toml");
        assert!(!path.directory.is_empty());
    }
}

#[test]
fn user_file_outcomes() {
    assert_eq!(config_from_user_file(UserFile::Absent), Ok(None));
    assert_eq!(
        config_from_user_file(UserFile::Unreadable),
        Err(ErrorKind::InvalidConfigFormat)
    );
    assert_eq!(
        config_from_user_file(UserFile::Content("a = 1".to_string())),
        Ok(Some("a = 1".to_string()))
    );
}

#[test]
fn layer_tree_clone_is_equal() {
    let tree = layers::load_config(Some(built_in_layers()), Some(no_layers())).unwrap();
    for root in &tree {
        assert_eq!(&root.clone(), root);
    }
    let inner = LayerKind::Inner { name: n("fonts") };
    assert_eq!(inner.clone(), inner);
}
