use dfpm::name::Name;
use dfpm::package::inspect::inspect_package;
use dfpm::package::{InnerPackage, InnerPackagePriority, Package, ScriptSet};

fn ident(text: &str) -> Name {
    Name::from_str(text).unwrap()
}

fn described() -> Package {
    Package {
        path: "/pkgs/rust/package.toml".to_string(),
        name: ident("Rust"),
        layer: ident("other-tools"),
        packages: vec![
            InnerPackage {
                name: ident("rust-analyzer"),
                installer: ident("homebrew"),
                priority: InnerPackagePriority::Lower,
                is_app: false,
                additional_arguments: vec![],
                platforms: vec![ident("macos"), ident("linux")],
            },
            InnerPackage {
                name: ident("rustup"),
                installer: ident("homebrew"),
                priority: InnerPackagePriority::Highest,
                is_app: false,
                additional_arguments: vec!["--quiet".to_string(), "say \"hi\"".to_string()],
                platforms: vec![],
            },
            InnerPackage {
                name: ident("cargo-edit"),
                installer: ident("cargo"),
                priority: InnerPackagePriority::Normal,
                is_app: true,
                additional_arguments: vec![],
                platforms: vec![],
            },
        ],
        on_install: Some(ScriptSet {
            before: Some("before.sh".to_string()),
            after: Some("after.sh".to_string()),
        }),
        on_update: Some(ScriptSet { before: None, after: Some("updated.sh".to_string()) }),
        on_delete: None,
        requires: vec!["git".to_string(), "curl".to_string()],
    }
}

#[test]
fn inspect_plain_text() {
    let expected = "File\n\
\t/pkgs/rust/package.toml\n\
Name\n\
\tRust, in layer other-tools\n\
Requires commands\n\
* git\n\
* curl\n\
On Install\n\
\tbefore packages, run script: before.sh\n\
\tafter packages, run script: after.sh\n\
On Update\n\
\tafter packages, run script: updated.sh\n\
Packages\n\
* rustup (homebrew)\n\
\x20 * additional_arguments: [\"--quiet\", \"say \\\"hi\\\"\"]\n\
\x20 * priority: Highest\n\
* cargo-edit (cargo)\n\
* rust-analyzer (homebrew)\n\
\x20 * priority: Lower\n\
\x20 * only for platforms: [Name(\"macos\"), Name(\"linux\")]\n\
\n";
    assert_eq!(inspect_package(&described(), false), expected);
    assert_eq!(described().inspect(false), expected);
}

#[test]
fn inspect_colored_headings_are_bold() {
    let text = described().inspect(true);
    assert!(text.starts_with("\x1b[1mFile\x1b[0m\n\t/pkgs/rust/package.toml\n"));
    assert!(text.contains("\x1b[1mName\x1b[0m\n\tRust, in layer other-tools\n"));
    assert!(text.contains("\x1b[1mRequires commands\x1b[0m\n* git\n"));
    assert!(text.contains("\x1b[1mOn Install\x1b[0m\n"));
    assert!(text.contains("\x1b[1mOn Update\x1b[0m\n"));
    assert!(!text.contains("On Delete"));
    assert!(text.contains("\x1b[1mPackages\x1b[0m\n* rustup (homebrew)\n"));
    assert_eq!(text.matches("\x1b[1m").count(), 6);
    assert_eq!(text.matches("\x1b[0m").count(), 6);
}

#[test]
fn inspect_minimal_package() {
    let package = Package {
        path: String::new(),
        name: ident("Empty"),
        layer: ident("shell"),
        packages: vec![],
        on_install: None,
        on_update: None,
        on_delete: Some(ScriptSet { before: None, after: None }),
        requires: vec![],
    };
    assert_eq!(
        package.inspect(false),
        "File\n\t\nName\n\tEmpty, in layer shell\nOn Delete\nPackages\n\n"
    );
    assert_eq!(
        package.inspect(true),
        "\x1b[1mFile\x1b[0m\n\t\n\x1b[1mName\x1b[0m\n\tEmpty, in layer shell\n\x1b[1mOn Delete\x1b[0m\n\x1b[1mPackages\x1b[0m\n\n"
    );
}
