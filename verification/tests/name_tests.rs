use dfpm::error::ErrorKind;
use dfpm::name::Name;

#[test]
fn name_round_trip() {
    for text in ["Rust", "a", "homebrew-apps", "x_1.2", "京都", "Zsh.plugins_v2-beta"] {
        let name = Name::from_str(text).unwrap();
        assert_eq!(name.to_string(), text);
        assert_eq!(name.as_str(), text);
        let again = Name::from_str(&name.to_string()).unwrap();
        assert_eq!(again, name);
    }
}

#[test]
fn name_parse_through_from_str_trait() {
    let name: Name = "package-managers".parse().unwrap();
    assert_eq!(name.as_str(), "package-managers");
    let failed: Result<Name, ErrorKind> = "".parse();
    assert_eq!(failed, Err(ErrorKind::InvalidName(String::new())));
}

#[test]
fn name_rejects_empty_text() {
    assert!(!Name::is_valid(""));
    assert_eq!(Name::from_str(""), Err(ErrorKind::InvalidName(String::new())));
}

#[test]
fn name_rejects_leading_digit() {
    assert!(!Name::is_valid("1abc"));
    assert_eq!(
        Name::from_str("1abc"),
        Err(ErrorKind::InvalidName("1abc".to_string()))
    );
}

#[test]
fn name_rejects_space() {
    assert!(!Name::is_valid("a b"));
    assert_eq!(
        Name::from_str("a b"),
        Err(ErrorKind::InvalidName("a b".to_string()))
    );
    assert!(!Name::is_valid(" ab"));
    assert!(!Name::is_valid("ab "));
}

#[test]
fn name_rejects_leading_punctuation() {
    assert!(!Name::is_valid("-abc"));
    assert!(!Name::is_valid("_abc"));
    assert!(!Name::is_valid(".abc"));
}

#[test]
fn name_accepts_digits_and_marks_after_first() {
    assert!(Name::is_valid("a1"));
    assert!(Name::is_valid("a-b_c.d"));
    assert!(Name::is_valid("a---"));
    assert!(Name::is_valid("Z"));
}

#[test]
fn name_rejects_other_symbols() {
    assert!(!Name::is_valid("a/b"));
    assert!(!Name::is_valid("a+b"));
    assert!(!Name::is_valid("a\tb"));
    assert!(!Name::is_valid("a💝"));
}

#[test]
fn name_is_case_sensitive_and_untrimmed() {
    let lower = Name::from_str("rust").unwrap();
    let upper = Name::from_str("Rust").unwrap();
    assert_ne!(lower, upper);
    assert!(Name::from_str(" rust").is_err());
}

#[test]
fn name_clone_is_equal() {
    let name = Name::from_str("shell").unwrap();
    assert_eq!(name.clone(), name);
}

#[test]
fn error_messages() {
    assert_eq!(
        ErrorKind::InvalidName("1x".to_string()).message(),
        "Invalid Name '1x', either empty or contains incorrect characters"
    );
    assert_eq!(
        ErrorKind::InvalidConfigFormat.message(),
        "Could not parse configuration file"
    );
    assert_eq!(
        ErrorKind::InvalidLayerInPackage.message(),
        "Package `layer` is either invalid, or is an outer layer"
    );
    assert_eq!(
        ErrorKind::MissingPackageDir.message(),
        "Either DFML_HOME note set, or no package directory found there"
    );
    assert_eq!(
        ErrorKind::NoSuchPackage(Name::from_str("Rust").unwrap()).message(),
        "No package found with the provided name 'Rust'"
    );
    assert_eq!(
        ErrorKind::UnsupportedPlatform.message(),
        "Current platform is unsupported (determined by target_os)"
    );
    assert_eq!(
        ErrorKind::SystemInstallerName.message(),
        "Installer may not use the name 'system'"
    );
    assert_eq!(
        ErrorKind::MissingSystemInstaller.message(),
        "No system installer present for current platform"
    );
    assert_eq!(
        ErrorKind::MissingRequiredCommand.message(),
        "A required command was not found"
    );
    assert_eq!(ErrorKind::Io("broken pipe".to_string()).message(), "broken pipe");
    assert_eq!(ErrorKind::Deserialize("bad key".to_string()).message(), "bad key");
    assert_eq!(ErrorKind::Environment("not set".to_string()).message(), "not set");
}
