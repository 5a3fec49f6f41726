//! The kinds of failure the library reports.

use crate::name::Name;
use vstd::prelude::*;
use vstd::string::*;

verus! {

/// What went wrong. Every operation returns either its value or one of these.
#[derive(Clone, Debug, PartialEq, Eq)]
pub enum ErrorKind {
    /// The text is empty or holds a character that a name may not hold.
    InvalidName(String),
    /// A configuration source could not be read against its schema, or a
    /// platform names neither a system installer nor a way to determine one.
    InvalidConfigFormat,
    /// A package names a layer that is missing or is an outer layer.
    InvalidLayerInPackage,
    /// The package root is not set or is not a directory.
    MissingPackageDir,
    /// No package manifest exists under the given name.
    NoSuchPackage(Name),
    /// The running operating system is unknown or has no platform entry.
    UnsupportedPlatform,
    /// An installer uses the reserved name `system`.
    SystemInstallerName,
    /// The current platform names an installer that is not available on it.
    MissingSystemInstaller,
    /// A command that a package requires is not on the search path.
    MissingRequiredCommand,
    /// A manifest could not be parsed; holds the parser's message.
    Deserialize(String),
    /// The environment could not be read; holds the underlying message.
    Environment(String),
    /// A file or process operation failed; holds the underlying message.
    Io(String),
}

impl ErrorKind {
    /// The message that tells the user what went wrong.
    pub open spec fn message_text(self) -> Seq<char> {
        match self {
            ErrorKind::InvalidName(text) => "Invalid Name '"@ + text@
                + "', either empty or contains incorrect characters"@,
            ErrorKind::InvalidConfigFormat => "Could not parse configuration file"@,
            ErrorKind::InvalidLayerInPackage =>
                "Package `layer` is either invalid, or is an outer layer"@,
            ErrorKind::MissingPackageDir =>
                "Either DFML_HOME note set, or no package directory found there"@,
            ErrorKind::NoSuchPackage(name) => "No package found with the provided name '"@ + name@
                + "'"@,
            ErrorKind::UnsupportedPlatform =>
                "Current platform is unsupported (determined by target_os)"@,
            ErrorKind::SystemInstallerName => "Installer may not use the name 'system'"@,
            ErrorKind::MissingSystemInstaller =>
                "No system installer present for current platform"@,
            ErrorKind::MissingRequiredCommand => "A required command was not found"@,
            ErrorKind::Deserialize(message) => message@,
            ErrorKind::Environment(message) => message@,
            ErrorKind::Io(message) => message@,
        }
    }

    /// The message that tells the user what went wrong.
    pub fn message(&self) -> (r: String)
        ensures
            r@ == self.message_text(),
    {
        match self {
            ErrorKind::InvalidName(text) => {
                let mut out = String::from_str("Invalid Name '");
                out.append(text.as_str());
                out.append("', either empty or contains incorrect characters");
                out
            },
            ErrorKind::InvalidConfigFormat => String::from_str(
                "Could not parse configuration file",
            ),
            ErrorKind::InvalidLayerInPackage => String::from_str(
                "Package `layer` is either invalid, or is an outer layer",
            ),
            ErrorKind::MissingPackageDir => String::from_str(
                "Either DFML_HOME note set, or no package directory found there",
            ),
            ErrorKind::NoSuchPackage(name) => {
                let mut out = String::from_str("No package found with the provided name '");
                out.append(name.as_str());
                out.append("'");
                out
            },
            ErrorKind::UnsupportedPlatform => String::from_str(
                "Current platform is unsupported (determined by target_os)",
            ),
            ErrorKind::SystemInstallerName => String::from_str(
                "Installer may not use the name 'system'",
            ),
            ErrorKind::MissingSystemInstaller => String::from_str(
                "No system installer present for current platform",
            ),
            ErrorKind::MissingRequiredCommand => String::from_str(
                "A required command was not found",
            ),
            ErrorKind::Deserialize(message) => message.clone(),
            ErrorKind::Environment(message) => message.clone(),
            ErrorKind::Io(message) => message.clone(),
        }
    }
}

} // verus!
