//! Description of a Qt installation: version, directories and tools.

use crate::text::{join_path, join_path_spec, str_eq};
use vstd::prelude::*;

verus! {

/// The platform whose naming conventions apply.
#[derive(Clone, Copy, Debug, PartialEq, Eq, Structural)]
pub enum Platform {
    /// Linux and other Unix systems but macOS
    Linux,
    /// macOS
    MacOs,
    /// Windows
    Windows,
}

impl Platform {
    /// The character between path components.
    pub open spec fn separator_spec(self) -> char {
        match self {
            Platform::Windows => '\\',
            _ => '/',
        }
    }

    /// The file name of the tool `name`.
    pub open spec fn executable_spec(self, name: Seq<char>) -> Seq<char> {
        match self {
            Platform::Windows => name + ".exe"@,
            _ => name,
        }
    }

    /// The character between path components.
    pub fn separator(&self) -> (result: char)
        ensures
            result == self.separator_spec(),
    {
        match self {
            Platform::Windows => '\\',
            _ => '/',
        }
    }

    /// The file name of the tool `name`: `name` itself, or `name.exe`
    /// under Windows.
    pub fn executable(&self, name: &str) -> (result: String)
        ensures
            result@ == self.executable_spec(name@),
    {
        match self {
            Platform::Windows => String::from_str(name).concat(".exe"),
            _ => String::from_str(name),
        }
    }
}

/// Qt major version
#[derive(Clone, Copy, Debug, PartialEq, Eq, Structural)]
pub enum MajorVersion {
    /// Qt 5
    Qt5,
}

impl MajorVersion {
    /// The name of the major version.
    pub open spec fn name_spec(self) -> Seq<char> {
        match self {
            MajorVersion::Qt5 => "Qt5"@,
        }
    }

    /// The name of the major version, `Qt5`.
    pub fn name(&self) -> (result: String)
        ensures
            result@ == self.name_spec(),
    {
        match self {
            MajorVersion::Qt5 => String::from_str("Qt5"),
        }
    }

    /// Reads a major version from its name: `Some` for exactly `Qt5`.
    pub fn from_str(version: &str) -> (result: Option<MajorVersion>)
        ensures
            result == (if version@ == "Qt5"@ {
                Some(MajorVersion::Qt5)
            } else {
                None
            }),
    {
        if str_eq(version, "Qt5") {
            Some(MajorVersion::Qt5)
        } else {
            None
        }
    }
}

/// The digits that library names carry for a major version.
pub open spec fn version_suffix_spec(version: MajorVersion) -> Seq<char> {
    match version {
        MajorVersion::Qt5 => "5"@,
    }
}

/// The name of the Qt library of module `lib`.
pub open spec fn lib_name_spec(platform: Platform, lib: Seq<char>, version: MajorVersion) -> Seq<
    char,
> {
    match platform {
        Platform::MacOs => "Qt"@ + lib,
        _ => "Qt"@ + version_suffix_spec(version) + lib,
    }
}

/// The file name of the Qt library of module `lib`.
pub open spec fn lib_file_spec(platform: Platform, lib: Seq<char>, version: MajorVersion) -> Seq<
    char,
> {
    match platform {
        Platform::MacOs => lib_name_spec(platform, lib, version) + ".framework"@,
        Platform::Linux => "lib"@ + lib_name_spec(platform, lib, version) + ".so"@,
        Platform::Windows => lib_name_spec(platform, lib, version) + ".lib"@,
    }
}

/// The digits that library names carry for a major version.
pub fn version_suffix(version: &MajorVersion) -> (result: &'static str)
    ensures
        result@ == version_suffix_spec(*version),
{
    match version {
        MajorVersion::Qt5 => "5",
    }
}

/// Platform-dependent Qt library name
///
/// The full name of a Qt library for a module name, as used in a link
/// flag: `Qt5Core` for `Core` under Linux and Windows, `QtCore` under
/// macOS.
pub fn lib_name(platform: Platform, lib: &str, version: &MajorVersion) -> (result: String)
    ensures
        result@ == lib_name_spec(platform, lib@, *version),
{
    match platform {
        Platform::MacOs => String::from_str("Qt").concat(lib),
        _ => String::from_str("Qt").concat(version_suffix(version)).concat(lib),
    }
}

/// Platform-dependent Qt library file
///
/// The file name of a Qt library for a module name: `libQt5Core.so` for
/// `Core` under Linux, `QtCore.framework` under macOS, `Qt5Core.lib`
/// under Windows.
pub fn lib_file(platform: Platform, lib: &str, version: &MajorVersion) -> (result: String)
    ensures
        result@ == lib_file_spec(platform, lib@, *version),
{
    let name = lib_name(platform, lib, version);
    match platform {
        Platform::MacOs => name.concat(".framework"),
        Platform::Linux => String::from_str("lib").concat(name.as_str()).concat(".so"),
        Platform::Windows => name.concat(".lib"),
    }
}

/// What a `QtInstall` holds, as plain values.
pub struct QtInstallView {
    /// Platform of the installation
    pub platform: Platform,
    /// Qt major version
    pub major_version: MajorVersion,
    /// Full Qt version
    pub version: Seq<char>,
    /// Path to `bin`
    pub bin_dir: Seq<char>,
    /// Path to `lib`
    pub lib_dir: Seq<char>,
    /// Path to `include`
    pub include_dir: Seq<char>,
}

impl QtInstallView {
    /// Path to `moc`: the tool's file name under `bin`.
    pub open spec fn moc(self) -> Seq<char> {
        join_path_spec(
            self.bin_dir,
            self.platform.executable_spec("moc"@),
            self.platform.separator_spec(),
        )
    }

    /// Path to `rcc`: the tool's file name under `bin`.
    pub open spec fn rcc(self) -> Seq<char> {
        join_path_spec(
            self.bin_dir,
            self.platform.executable_spec("rcc"@),
            self.platform.separator_spec(),
        )
    }

    /// Path to the library file of module `lib`, under `lib`.
    pub open spec fn lib_path(self, lib: Seq<char>) -> Seq<char> {
        join_path_spec(
            self.lib_dir,
            lib_file_spec(self.platform, lib, self.major_version),
            self.platform.separator_spec(),
        )
    }
}

/// Qt installation
///
/// Represents a Qt installation, with information about Qt version and
/// path to bin, lib and include directories.
#[derive(Debug)]
pub struct QtInstall {
    platform: Platform,
    major_version: MajorVersion,
    version: String,
    bin_dir: String,
    lib_dir: String,
    include_dir: String,
    moc: String,
    rcc: String,
}

impl View for QtInstall {
    type V = QtInstallView;

    closed spec fn view(&self) -> QtInstallView {
        QtInstallView {
            platform: self.platform,
            major_version: self.major_version,
            version: self.version@,
            bin_dir: self.bin_dir@,
            lib_dir: self.lib_dir@,
            include_dir: self.include_dir@,
        }
    }
}

impl Clone for QtInstall {
    fn clone(&self) -> (result: Self)
        ensures
            result@ == self@,
    {
        proof {
            use_type_invariant(self);
        }
        QtInstall {
            platform: self.platform,
            major_version: self.major_version,
            version: String::from_str(self.version.as_str()),
            bin_dir: String::from_str(self.bin_dir.as_str()),
            lib_dir: String::from_str(self.lib_dir.as_str()),
            include_dir: String::from_str(self.include_dir.as_str()),
            moc: String::from_str(self.moc.as_str()),
            rcc: String::from_str(self.rcc.as_str()),
        }
    }
}

impl QtInstall {
    /// The tool paths are those that follow from `bin`.
    #[verifier::type_invariant]
    spec fn tools_follow(self) -> bool {
        &&& self.moc@ == self@.moc()
        &&& self.rcc@ == self@.rcc()
    }

    /// New instance
    pub fn new(
        platform: Platform,
        major_version: MajorVersion,
        version: String,
        bin_dir: String,
        lib_dir: String,
        include_dir: String,
    ) -> (result: QtInstall)
        ensures
            result@ == (QtInstallView {
                platform,
                major_version,
                version: version@,
                bin_dir: bin_dir@,
                lib_dir: lib_dir@,
                include_dir: include_dir@,
            }),
    {
        let moc = join_path(
            bin_dir.as_str(),
            platform.executable("moc").as_str(),
            platform.separator(),
        );
        let rcc = join_path(
            bin_dir.as_str(),
            platform.executable("rcc").as_str(),
            platform.separator(),
        );
        QtInstall { platform, major_version, version, bin_dir, lib_dir, include_dir, moc, rcc }
    }

    /// Platform of the installation
    pub fn platform(&self) -> (result: Platform)
        ensures
            result == self@.platform,
    {
        self.platform
    }

    /// Qt major version
    pub fn major_version(&self) -> (result: &MajorVersion)
        ensures
            *result == self@.major_version,
    {
        &self.major_version
    }

    /// Qt version
    ///
    /// Returns the full Qt version, including major, minor and patch.
    pub fn version(&self) -> (result: &str)
        ensures
            result@ == self@.version,
    {
        self.version.as_str()
    }

    /// Path to `bin`
    pub fn bin_dir(&self) -> (result: &str)
        ensures
            result@ == self@.bin_dir,
    {
        self.bin_dir.as_str()
    }

    /// Path to `lib`
    pub fn lib_dir(&self) -> (result: &str)
        ensures
            result@ == self@.lib_dir,
    {
        self.lib_dir.as_str()
    }

    /// Path to `include`
    pub fn include_dir(&self) -> (result: &str)
        ensures
            result@ == self@.include_dir,
    {
        self.include_dir.as_str()
    }

    /// Path to `moc`
    pub fn moc(&self) -> (result: &str)
        ensures
            result@ == self@.moc(),
    {
        proof {
            use_type_invariant(self);
        }
        self.moc.as_str()
    }

    /// Path to `rcc`
    pub fn rcc(&self) -> (result: &str)
        ensures
            result@ == self@.rcc(),
    {
        proof {
            use_type_invariant(self);
        }
        self.rcc.as_str()
    }

    /// The name of the Qt library of `module` in this installation.
    pub fn lib_name(&self, module: &str) -> (result: String)
        ensures
            result@ == lib_name_spec(self@.platform, module@, self@.major_version),
    {
        lib_name(self.platform, module, &self.major_version)
    }

    /// Path to the library file of `module` in this installation.
    pub fn lib_path(&self, module: &str) -> (result: String)
        ensures
            result@ == self@.lib_path(module@),
    {
        let file = lib_file(self.platform, module, &self.major_version);
        join_path(self.lib_dir.as_str(), file.as_str(), self.platform.separator())
    }
}

} // verus!
