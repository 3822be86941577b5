//! Locating a Qt installation from what `qmake -query` reports.
//!
//! The outside world is reached through [`LocateSpi`]: the environment,
//! the run of `qmake` and the file system. Everything decided from what
//! they answer is decided here.

use crate::install::{MajorVersion, Platform, QtInstall, QtInstallView};
use crate::text::{
    chars_of, join_path, join_path_spec, starts_with, str_views, string_of, string_views,
};
use vstd::prelude::*;

verus! {

/// `qmake` invocation error
#[derive(Debug)]
pub enum QMakeError {
    /// `qmake` could not be run: not found, or not executable.
    RunError {
        /// Path to `qmake`
        qmake: String,
        /// Cause, as text
        error: String,
    },
    /// `qmake` returned with a failed status.
    ExecutionError {
        /// Path to `qmake`
        qmake: String,
        /// Content of stderr
        stderr: String,
    },
}

/// Error when locating Qt
#[derive(Debug)]
pub enum Error {
    /// `qmake` cannot be found by default: under Windows it is neither in
    /// the `PATH` nor in a known folder, and `QT_INSTALL_DIR` must be set.
    NoQmake,
    /// `qmake` failed.
    QMakeError {
        /// Path to `qmake`
        qmake: String,
        /// Cause
        error: QMakeError,
    },
    /// `qmake -query` gave information that could not be understood.
    QMakeIncorrectInfo {
        /// Path to `qmake`
        qmake: String,
    },
    /// The version of Qt that `qmake` reports is not supported.
    UnsupportedQt {
        /// Qt version
        version: String,
    },
    /// The Qt installation lacks a component.
    IncompleteQtInstall {
        /// Path to the missing component
        missing: String,
    },
}

/// The text of a `qmake` invocation error.
pub open spec fn qmake_error_message_spec(error: QMakeError) -> Seq<char> {
    match error {
        QMakeError::RunError { qmake, error } => "Could not run "@ + qmake@,
        QMakeError::ExecutionError { qmake, stderr } => qmake@ + " failed: "@ + stderr@,
    }
}

/// The text of a locating error.
pub open spec fn error_message_spec(error: Error) -> Seq<char> {
    match error {
        Error::NoQmake => "Unable to find `qmake` without QT_INSTALL_DIR"@,
        Error::QMakeError { qmake, error } => "Failed to run `"@ + qmake@ + "`"@,
        Error::QMakeIncorrectInfo { qmake } => "Could not find Qt with `"@ + qmake@
            + "`. Check `qmake -query`'s output"@,
        Error::UnsupportedQt { version } => "Unsupported Qt version "@ + version@,
        Error::IncompleteQtInstall { missing } => "Qt installation is incomplete. Missing "@
            + missing@,
    }
}

impl QMakeError {
    /// The error as a message for the user.
    pub fn message(&self) -> (result: String)
        ensures
            result@ == qmake_error_message_spec(*self),
    {
        match self {
            QMakeError::RunError { qmake, error } => String::from_str("Could not run ").concat(
                qmake.as_str(),
            ),
            QMakeError::ExecutionError { qmake, stderr } => {
                let mut text = String::from_str(qmake.as_str());
                text.append(" failed: ");
                text.append(stderr.as_str());
                text
            },
        }
    }
}

impl Error {
    /// The error as a message for the user.
    pub fn message(&self) -> (result: String)
        ensures
            result@ == error_message_spec(*self),
    {
        match self {
            Error::NoQmake => String::from_str("Unable to find `qmake` without QT_INSTALL_DIR"),
            Error::QMakeError { qmake, error } => {
                let mut text = String::from_str("Failed to run `");
                text.append(qmake.as_str());
                text.append("`");
                text
            },
            Error::QMakeIncorrectInfo { qmake } => {
                let mut text = String::from_str("Could not find Qt with `");
                text.append(qmake.as_str());
                text.append("`. Check `qmake -query`'s output");
                text
            },
            Error::UnsupportedQt { version } => String::from_str("Unsupported Qt version ").concat(
                version.as_str(),
            ),
            Error::IncompleteQtInstall { missing } => String::from_str(
                "Qt installation is incomplete. Missing ",
            ).concat(missing.as_str()),
        }
    }
}

/// Whether the character is whitespace: one of the characters with the
/// Unicode property `White_Space`.
pub open spec fn whitespace(c: char) -> bool {
    ||| '\u{9}' <= c && c <= '\u{d}'
    ||| c == ' '
    ||| c == '\u{85}'
    ||| c == '\u{a0}'
    ||| c == '\u{1680}'
    ||| '\u{2000}' <= c && c <= '\u{200a}'
    ||| c == '\u{2028}'
    ||| c == '\u{2029}'
    ||| c == '\u{202f}'
    ||| c == '\u{205f}'
    ||| c == '\u{3000}'
}

/// Whether the character is whitespace.
pub fn is_whitespace(c: char) -> (result: bool)
    ensures
        result == whitespace(c),
{
    ('\u{9}' <= c && c <= '\u{d}') || c == ' ' || c == '\u{85}' || c == '\u{a0}' || c
        == '\u{1680}' || ('\u{2000}' <= c && c <= '\u{200a}') || c == '\u{2028}' || c
        == '\u{2029}' || c == '\u{202f}' || c == '\u{205f}' || c == '\u{3000}'
}

/// The maximal runs of characters of `s` that are no whitespace, from
/// position `pos` on, after those in `acc`; `start` is where the run that
/// reaches `pos` began.
pub open spec fn words_from(s: Seq<char>, pos: int, start: int, acc: Seq<Seq<char>>) -> Seq<
    Seq<char>,
>
    decreases s.len() - pos,
{
    let closed = if start < pos {
        acc.push(s.subrange(start, pos))
    } else {
        acc
    };
    if pos >= s.len() {
        closed
    } else if whitespace(s[pos]) {
        words_from(s, pos + 1, pos + 1, closed)
    } else {
        words_from(s, pos + 1, start, acc)
    }
}

/// The words of `s`: its maximal runs of characters that are no
/// whitespace, in order.
pub open spec fn words(s: Seq<char>) -> Seq<Seq<char>> {
    words_from(s, 0, 0, Seq::empty())
}

/// Splits a text at whitespace.
pub fn split_whitespace(input: &str) -> (result: Vec<String>)
    ensures
        string_views(result@) == words(input@),
{
    let chars = chars_of(input);
    let mut result: Vec<String> = Vec::new();
    let mut start: usize = 0;
    let mut pos: usize = 0;
    proof {
        assert(string_views(result@) =~= Seq::<Seq<char>>::empty());
    }
    while pos < chars.len()
        invariant
            chars@ == input@,
            start <= pos <= chars.len(),
            forall|k: int| start <= k < pos ==> !whitespace(chars@[k]),
            words_from(chars@, pos as int, start as int, string_views(result@)) == words(input@),
        decreases chars.len() - pos,
    {
        let ghost before = string_views(result@);
        if is_whitespace(chars[pos]) {
            if start < pos {
                let word = string_of(&chars, start, pos);
                result.push(word);
                proof {
                    assert(string_views(result@) == before.push(
                        chars@.subrange(start as int, pos as int),
                    ));
                }
            }
            start = pos + 1;
        }
        pos += 1;
    }
    if start < pos {
        let ghost before = string_views(result@);
        let word = string_of(&chars, start, pos);
        result.push(word);
        proof {
            assert(string_views(result@) == before.push(chars@.subrange(start as int, pos as int)));
        }
    }
    result
}

/// The kind of an item of `qmake -query`.
#[derive(Clone, Copy, Debug, PartialEq, Eq, Structural)]
pub enum InfoKind {
    /// `QT_VERSION`
    Version,
    /// `QT_INSTALL_BINS`
    BinDir,
    /// `QT_INSTALL_LIBS`
    LibDir,
    /// `QT_INSTALL_HEADERS`
    IncludeDir,
}

/// An item of `qmake -query` that the locator reads.
#[derive(Debug)]
pub enum QtInfo {
    /// Full Qt version
    Version(String),
    /// Path to `bin`
    BinDir(String),
    /// Path to `lib`
    LibDir(String),
    /// Path to `include`
    IncludeDir(String),
}

/// A `QtInfo` as plain values.
pub struct QtInfoView {
    /// Which item
    pub kind: InfoKind,
    /// Its value
    pub value: Seq<char>,
}

impl View for QtInfo {
    type V = QtInfoView;

    open spec fn view(&self) -> QtInfoView {
        match self {
            QtInfo::Version(value) => QtInfoView { kind: InfoKind::Version, value: value@ },
            QtInfo::BinDir(value) => QtInfoView { kind: InfoKind::BinDir, value: value@ },
            QtInfo::LibDir(value) => QtInfoView { kind: InfoKind::LibDir, value: value@ },
            QtInfo::IncludeDir(value) => QtInfoView { kind: InfoKind::IncludeDir, value: value@ },
        }
    }
}

/// The views of a sequence of items.
pub open spec fn info_views(infos: Seq<QtInfo>) -> Seq<QtInfoView> {
    infos.map_values(|info: QtInfo| info@)
}

/// A value as the platform writes paths: under Windows every `/` becomes
/// a backslash.
pub open spec fn native_value(platform: Platform, value: Seq<char>) -> Seq<char> {
    match platform {
        Platform::Windows => value.map_values(
            |c: char|
                if c == '/' {
                    '\\'
                } else {
                    c
                },
        ),
        _ => value,
    }
}

/// What follows `prefix` in `input`, where `input` starts with it.
pub open spec fn read_prefixed_value_spec(
    platform: Platform,
    input: Seq<char>,
    prefix: Seq<char>,
) -> Option<Seq<char>> {
    if prefix.is_prefix_of(input) {
        Some(native_value(platform, input.subrange(prefix.len() as int, input.len() as int)))
    } else {
        None
    }
}

/// The item that a word of the query output holds, if any.
pub open spec fn read_item_spec(platform: Platform, input: Seq<char>) -> Option<QtInfoView> {
    if let Some(value) = read_prefixed_value_spec(platform, input, "QT_VERSION:"@) {
        Some(QtInfoView { kind: InfoKind::Version, value })
    } else if let Some(value) = read_prefixed_value_spec(platform, input, "QT_INSTALL_BINS:"@) {
        Some(QtInfoView { kind: InfoKind::BinDir, value })
    } else if let Some(value) = read_prefixed_value_spec(platform, input, "QT_INSTALL_LIBS:"@) {
        Some(QtInfoView { kind: InfoKind::LibDir, value })
    } else if let Some(value) = read_prefixed_value_spec(
        platform,
        input,
        "QT_INSTALL_HEADERS:"@,
    ) {
        Some(QtInfoView { kind: InfoKind::IncludeDir, value })
    } else {
        None
    }
}

/// The items held by the first `n` of `words`, in order.
pub open spec fn read_items_spec(platform: Platform, words: Seq<Seq<char>>, n: int) -> Seq<
    QtInfoView,
>
    decreases n,
{
    if n <= 0 {
        Seq::empty()
    } else {
        let before = read_items_spec(platform, words, n - 1);
        match read_item_spec(platform, words[n - 1]) {
            Some(info) => before.push(info),
            None => before,
        }
    }
}

/// The items of a query output.
pub open spec fn from_query_spec(platform: Platform, stdout: Seq<char>) -> Seq<QtInfoView> {
    read_items_spec(platform, words(stdout), words(stdout).len() as int)
}

/// The value of the first item of `kind` at or after position `from`.
pub open spec fn first_value_from(infos: Seq<QtInfoView>, kind: InfoKind, from: int) -> Option<
    Seq<char>,
>
    decreases infos.len() - from,
{
    if from < 0 || from >= infos.len() {
        None
    } else if infos[from].kind == kind {
        Some(infos[from].value)
    } else {
        first_value_from(infos, kind, from + 1)
    }
}

/// The value of the first item of `kind`.
pub open spec fn first_value(infos: Seq<QtInfoView>, kind: InfoKind) -> Option<Seq<char>> {
    first_value_from(infos, kind, 0)
}

impl QtInfo {
    /// The kind of the item.
    pub fn kind(&self) -> (result: InfoKind)
        ensures
            result == self@.kind,
    {
        match self {
            QtInfo::Version(_) => InfoKind::Version,
            QtInfo::BinDir(_) => InfoKind::BinDir,
            QtInfo::LibDir(_) => InfoKind::LibDir,
            QtInfo::IncludeDir(_) => InfoKind::IncludeDir,
        }
    }

    /// The value of the item.
    pub fn value(&self) -> (result: &str)
        ensures
            result@ == self@.value,
    {
        match self {
            QtInfo::Version(value) => value.as_str(),
            QtInfo::BinDir(value) => value.as_str(),
            QtInfo::LibDir(value) => value.as_str(),
            QtInfo::IncludeDir(value) => value.as_str(),
        }
    }

    /// The version, where the item is one.
    pub fn version(&self) -> (result: Option<&str>)
        ensures
            result is Some <==> self@.kind == InfoKind::Version,
            result is Some ==> result->0@ == self@.value,
    {
        match self {
            QtInfo::Version(version) => Some(version.as_str()),
            _ => None,
        }
    }

    /// The path to `bin`, where the item is one.
    pub fn bin_dir(&self) -> (result: Option<&str>)
        ensures
            result is Some <==> self@.kind == InfoKind::BinDir,
            result is Some ==> result->0@ == self@.value,
    {
        match self {
            QtInfo::BinDir(bin_dir) => Some(bin_dir.as_str()),
            _ => None,
        }
    }

    /// The path to `lib`, where the item is one.
    pub fn lib_dir(&self) -> (result: Option<&str>)
        ensures
            result is Some <==> self@.kind == InfoKind::LibDir,
            result is Some ==> result->0@ == self@.value,
    {
        match self {
            QtInfo::LibDir(lib_dir) => Some(lib_dir.as_str()),
            _ => None,
        }
    }

    /// The path to `include`, where the item is one.
    pub fn include_dir(&self) -> (result: Option<&str>)
        ensures
            result is Some <==> self@.kind == InfoKind::IncludeDir,
            result is Some ==> result->0@ == self@.value,
    {
        match self {
            QtInfo::IncludeDir(include_dir) => Some(include_dir.as_str()),
            _ => None,
        }
    }

    /// Reads what follows `prefix` in `input`: `None` where `input` does
    /// not start with `prefix`. Under Windows the value has backslashes in
    /// place of slashes.
    pub fn read_prefixed_value(platform: Platform, input: &str, prefix: &str) -> (result: Option<
        String,
    >)
        ensures
            match result {
                Some(value) => read_prefixed_value_spec(platform, input@, prefix@) == Some(value@),
                None => read_prefixed_value_spec(platform, input@, prefix@) is None,
            },
    {
        let chars = chars_of(input);
        let prefix_chars = chars_of(prefix);
        if !starts_with(&chars, &prefix_chars) {
            return None;
        }
        let from = prefix_chars.len();
        match platform {
            Platform::Windows => {
                let mut value = String::new();
                let mut i: usize = from;
                let ghost rest = chars@.subrange(from as int, chars.len() as int);
                while i < chars.len()
                    invariant
                        from <= i <= chars.len(),
                        rest == chars@.subrange(from as int, chars.len() as int),
                        value@ == native_value(platform, rest).subrange(0, i - from),
                        platform == Platform::Windows,
                    decreases chars.len() - i,
                {
                    let c = chars[i];
                    let mapped = if c == '/' {
                        '\\'
                    } else {
                        c
                    };
                    value.push(mapped);
                    i += 1;
                    proof {
                        let all = native_value(platform, rest);
                        assert(all.subrange(0, i - from) == all.subrange(0, i - from - 1).push(
                            all[i - from - 1],
                        ));
                    }
                }
                proof {
                    let all = native_value(platform, rest);
                    assert(all.subrange(0, all.len() as int) == all);
                }
                Some(value)
            },
            _ => Some(string_of(&chars, from, chars.len())),
        }
    }

    /// Reads one word of the query output.
    pub fn read_item(platform: Platform, input: &str) -> (result: Option<QtInfo>)
        ensures
            match result {
                Some(info) => read_item_spec(platform, input@) == Some(info@),
                None => read_item_spec(platform, input@) is None,
            },
    {
        if let Some(version) = QtInfo::read_prefixed_value(platform, input, "QT_VERSION:") {
            Some(QtInfo::Version(version))
        } else if let Some(bin_dir) = QtInfo::read_prefixed_value(
            platform,
            input,
            "QT_INSTALL_BINS:",
        ) {
            Some(QtInfo::BinDir(bin_dir))
        } else if let Some(lib_dir) = QtInfo::read_prefixed_value(
            platform,
            input,
            "QT_INSTALL_LIBS:",
        ) {
            Some(QtInfo::LibDir(lib_dir))
        } else if let Some(include_dir) = QtInfo::read_prefixed_value(
            platform,
            input,
            "QT_INSTALL_HEADERS:",
        ) {
            Some(QtInfo::IncludeDir(include_dir))
        } else {
            None
        }
    }

    /// Reads the items of a query output: one for each word that holds
    /// one, in the order of the words.
    pub fn from_query(platform: Platform, stdout: &str) -> (result: Vec<QtInfo>)
        ensures
            info_views(result@) == from_query_spec(platform, stdout@),
    {
        let parts = split_whitespace(stdout);
        let mut result: Vec<QtInfo> = Vec::new();
        let mut i: usize = 0;
        proof {
            assert(info_views(result@) =~= Seq::<QtInfoView>::empty());
        }
        while i < parts.len()
            invariant
                i <= parts.len(),
                string_views(parts@) == words(stdout@),
                info_views(result@) == read_items_spec(platform, words(stdout@), i as int),
            decreases parts.len() - i,
        {
            let ghost before = info_views(result@);
            proof {
                assert(string_views(parts@)[i as int] == parts@[i as int]@);
            }
            if let Some(info) = QtInfo::read_item(platform, parts[i].as_str()) {
                let ghost view = info@;
                result.push(info);
                proof {
                    assert(info_views(result@) == before.push(view));
                }
            }
            i += 1;
        }
        proof {
            assert(parts@.len() == string_views(parts@).len());
        }
        result
    }
}

/// The value of the first item of `kind` among `infos`.
pub fn find_value(infos: &Vec<QtInfo>, kind: InfoKind) -> (result: Option<&str>)
    ensures
        match result {
            Some(value) => first_value(info_views(infos@), kind) == Some(value@),
            None => first_value(info_views(infos@), kind) is None,
        },
{
    let mut i: usize = 0;
    while i < infos.len()
        invariant
            i <= infos.len(),
            first_value(info_views(infos@), kind) == first_value_from(
                info_views(infos@),
                kind,
                i as int,
            ),
        decreases infos.len() - i,
    {
        proof {
            assert(info_views(infos@)[i as int] == infos@[i as int]@);
        }
        if infos[i].kind() == kind {
            return Some(infos[i].value());
        }
        i += 1;
    }
    None
}

/// Where `qmake` is looked for: under `bin` of the directory that
/// `QT_INSTALL_DIR` names where it is set; else `qmake` from the `PATH`
/// under Linux, the usual directory under macOS, and nowhere under
/// Windows.
pub open spec fn qmake_path_spec(platform: Platform, qt_install_dir: Option<Seq<char>>) -> Option<
    Seq<char>,
> {
    let sep = platform.separator_spec();
    let exec = platform.executable_spec("qmake"@);
    match qt_install_dir {
        Some(dir) => Some(join_path_spec(join_path_spec(dir, "bin"@, sep), exec, sep)),
        None => match platform {
            Platform::Linux => Some(exec),
            Platform::MacOs => Some(join_path_spec("/usr/local/opt/qt/bin"@, exec, sep)),
            Platform::Windows => None,
        },
    }
}

/// The path to `qmake`, or `NoQmake` where there is no place to look for
/// it.
pub fn qmake_path(platform: Platform, qt_install_dir: Option<&str>) -> (result: Result<
    String,
    Error,
>)
    ensures
        match result {
            Ok(path) => qmake_path_spec(
                platform,
                match qt_install_dir {
                    Some(dir) => Some(dir@),
                    None => None,
                },
            ) == Some(path@),
            Err(error) => error is NoQmake && qt_install_dir is None && platform
                == Platform::Windows,
        },
{
    let sep = platform.separator();
    let exec = platform.executable("qmake");
    match qt_install_dir {
        Some(dir) => {
            let bin = join_path(dir, "bin", sep);
            Ok(join_path(bin.as_str(), exec.as_str(), sep))
        },
        None => match platform {
            Platform::Linux => Ok(exec),
            Platform::MacOs => Ok(join_path("/usr/local/opt/qt/bin", exec.as_str(), sep)),
            Platform::Windows => Err(Error::NoQmake),
        },
    }
}

/// The major version that a full version stands for: Qt 5 where it
/// starts with the digit 5.
pub open spec fn major_version_spec(version: Seq<char>) -> Option<MajorVersion> {
    if version.len() > 0 && version[0] == '5' {
        Some(MajorVersion::Qt5)
    } else {
        None
    }
}

/// The installation that the items of a query describe, where they hold
/// a version of Qt 5 and the three directories.
pub open spec fn install_spec(platform: Platform, infos: Seq<QtInfoView>) -> Option<
    QtInstallView,
> {
    let version = first_value(infos, InfoKind::Version);
    let bin_dir = first_value(infos, InfoKind::BinDir);
    let lib_dir = first_value(infos, InfoKind::LibDir);
    let include_dir = first_value(infos, InfoKind::IncludeDir);
    if version is Some && bin_dir is Some && lib_dir is Some && include_dir is Some
        && major_version_spec(version->0) is Some {
        Some(
            QtInstallView {
                platform,
                major_version: major_version_spec(version->0)->0,
                version: version->0,
                bin_dir: bin_dir->0,
                lib_dir: lib_dir->0,
                include_dir: include_dir->0,
            },
        )
    } else {
        None
    }
}

/// Whether the items hold a version and the three directories.
pub open spec fn complete_infos(infos: Seq<QtInfoView>) -> bool {
    &&& first_value(infos, InfoKind::Version) is Some
    &&& first_value(infos, InfoKind::BinDir) is Some
    &&& first_value(infos, InfoKind::LibDir) is Some
    &&& first_value(infos, InfoKind::IncludeDir) is Some
}

/// Builds the installation from the items of a query.
///
/// The first item of each kind counts. `QMakeIncorrectInfo`, with the
/// path to `qmake`, where one of the four is missing; `UnsupportedQt`,
/// with the version, where all are there and the version is not one of
/// Qt 5.
pub fn from_qt_infos(platform: Platform, infos: &Vec<QtInfo>, qmake: &str) -> (result: Result<
    QtInstall,
    Error,
>)
    ensures
        match result {
            Ok(install) => install_spec(platform, info_views(infos@)) == Some(install@),
            Err(Error::QMakeIncorrectInfo { qmake: path }) => path@ == qmake@ && !complete_infos(
                info_views(infos@),
            ),
            Err(Error::UnsupportedQt { version }) => complete_infos(info_views(infos@))
                && first_value(info_views(infos@), InfoKind::Version) == Some(version@)
                && major_version_spec(version@) is None,
            Err(_) => false,
        },
{
    let version = find_value(infos, InfoKind::Version);
    let bin_dir = find_value(infos, InfoKind::BinDir);
    let lib_dir = find_value(infos, InfoKind::LibDir);
    let include_dir = find_value(infos, InfoKind::IncludeDir);
    match (version, bin_dir, lib_dir, include_dir) {
        (Some(version), Some(bin_dir), Some(lib_dir), Some(include_dir)) => {
            let digits = chars_of(version);
            if digits.len() > 0 && digits[0] == '5' {
                Ok(
                    QtInstall::new(
                        platform,
                        MajorVersion::Qt5,
                        String::from_str(version),
                        String::from_str(bin_dir),
                        String::from_str(lib_dir),
                        String::from_str(include_dir),
                    ),
                )
            } else {
                Err(Error::UnsupportedQt { version: String::from_str(version) })
            }
        },
        _ => Err(Error::QMakeIncorrectInfo { qmake: String::from_str(qmake) }),
    }
}

/// The installation that a query output describes: `from_query`, then
/// `from_qt_infos`.
pub fn install_from_query(platform: Platform, stdout: &str, qmake: &str) -> (result: Result<
    QtInstall,
    Error,
>)
    ensures
        match result {
            Ok(install) => install_spec(platform, from_query_spec(platform, stdout@)) == Some(
                install@,
            ),
            Err(Error::QMakeIncorrectInfo { qmake: path }) => path@ == qmake@ && !complete_infos(
                from_query_spec(platform, stdout@),
            ),
            Err(Error::UnsupportedQt { version }) => complete_infos(
                from_query_spec(platform, stdout@),
            ) && first_value(from_query_spec(platform, stdout@), InfoKind::Version) == Some(
                version@,
            ) && major_version_spec(version@) is None,
            Err(_) => false,
        },
{
    let infos = QtInfo::from_query(platform, stdout);
    from_qt_infos(platform, &infos, qmake)
}

/// The paths that a complete installation has: `moc`, `rcc` and the
/// library file of each module, in this order.
pub open spec fn required_paths_spec(install: QtInstallView, modules: Seq<Seq<char>>) -> Seq<
    Seq<char>,
> {
    seq![install.moc(), install.rcc()] + modules.map_values(|m: Seq<char>| install.lib_path(m))
}

/// The paths whose presence makes `install` complete for `modules`.
pub fn required_paths(install: &QtInstall, modules: &[&str]) -> (result: Vec<String>)
    ensures
        string_views(result@) == required_paths_spec(install@, str_views(modules@)),
{
    let mut result: Vec<String> = Vec::new();
    result.push(String::from_str(install.moc()));
    result.push(String::from_str(install.rcc()));
    let mut i: usize = 0;
    while i < modules.len()
        invariant
            i <= modules.len(),
            result@.len() == i + 2,
            result@[0]@ == install@.moc(),
            result@[1]@ == install@.rcc(),
            forall|k: int| 0 <= k < i ==> (#[trigger] result@[k + 2])@ == install@.lib_path(modules@[k]@),
        decreases modules.len() - i,
    {
        let path = install.lib_path(modules[i]);
        result.push(path);
        i += 1;
    }
    proof {
        let head = seq![install@.moc(), install@.rcc()];
        let tail = str_views(modules@).map_values(|m: Seq<char>| install@.lib_path(m));
        let expected = required_paths_spec(install@, str_views(modules@));
        assert(expected == head + tail);
        assert(string_views(result@).len() == expected.len());
        assert forall|j: int| 0 <= j < expected.len() implies string_views(result@)[j]
            == expected[j] by {
            if j >= 2 {
                let k = j - 2;
                assert(result@[k + 2]@ == install@.lib_path(modules@[k]@));
                assert(expected[j] == tail[k]);
            } else {
                assert(expected[j] == head[j]);
            }
        }
        assert(string_views(result@) =~= expected);
    }
    result
}

/// What follows for a path from whether it is there: nothing where it
/// is, else `IncompleteQtInstall` with the path.
pub fn path_result(path: &str, present: bool) -> (result: Result<(), Error>)
    ensures
        match result {
            Ok(_) => present,
            Err(Error::IncompleteQtInstall { missing }) => !present && missing@ == path@,
            Err(_) => false,
        },
{
    if present {
        Ok(())
    } else {
        Err(Error::IncompleteQtInstall { missing: String::from_str(path) })
    }
}

/// Whether `path` is where `qmake` is looked for on `platform` for some
/// value of `QT_INSTALL_DIR`, set or not.
pub open spec fn is_qmake_path(platform: Platform, path: Seq<char>) -> bool {
    exists|dir: Option<Seq<char>>| qmake_path_spec(platform, dir) == Some(path)
}

/// What the locator asks of the outside world.
pub trait LocateSpi {
    /// The value of `QT_INSTALL_DIR`, where it is set.
    fn qt_install_dir(&self) -> Option<String>;

    /// The standard output of `qmake -query`, run at the given path.
    fn qmake_query(&self, qmake: &str) -> Result<String, QMakeError>;

    /// Whether the path exists.
    fn path_exists(&self, path: &str) -> bool;
}

/// Locates Qt through a [`LocateSpi`].
pub struct Locator<Spi: LocateSpi> {
    /// The platform whose conventions apply
    pub platform: Platform,
    /// The way to the outside world
    pub spi: Spi,
}

impl<Spi: LocateSpi> Locator<Spi> {
    /// A locator for `platform` that asks `spi`.
    pub fn new(platform: Platform, spi: Spi) -> (result: Self)
        ensures
            result.platform == platform,
            result.spi == spi,
    {
        Locator { platform, spi }
    }

    /// The path to `qmake`, from `QT_INSTALL_DIR` as the outside world
    /// gives it.
    ///
    /// Whatever the outside world gives, there is a path on every
    /// platform but Windows, and a path that is handed back is the one
    /// that [`qmake_path`] gives for the platform and some value of the
    /// variable. Under Windows there is none where the variable is not
    /// set: `NoQmake`.
    pub fn qmake_path(&self) -> (result: Result<String, Error>)
        ensures
            self.platform != Platform::Windows ==> result is Ok,
            match result {
                Ok(path) => is_qmake_path(self.platform, path@),
                Err(error) => error is NoQmake && self.platform == Platform::Windows,
            },
    {
        let dir = self.spi.qt_install_dir();
        match dir {
            Some(dir) => {
                let result = qmake_path(self.platform, Some(dir.as_str()));
                proof {
                    if result is Ok {
                        assert(qmake_path_spec(self.platform, Some(dir@)) == Some(
                            result->Ok_0@,
                        ));
                    }
                }
                result
            },
            None => {
                let result = qmake_path(self.platform, None);
                proof {
                    if result is Ok {
                        assert(qmake_path_spec(self.platform, None) == Some(result->Ok_0@));
                    }
                }
                result
            },
        }
    }

    /// Checks one path: asks the outside world whether it exists, and
    /// hands back what [`path_result`] makes of the answer, which is
    /// `IncompleteQtInstall` with the path where it does not exist.
    pub fn check_path(&self, path: &str) -> (result: Result<(), Error>)
        ensures
            match result {
                Ok(_) => true,
                Err(Error::IncompleteQtInstall { missing }) => missing@ == path@,
                Err(_) => false,
            },
    {
        let present = self.spi.path_exists(path);
        path_result(path, present)
    }

    /// Checks the library file of `module`: [`Locator::check_path`] on
    /// its path in the installation.
    pub fn check_lib(&self, qt_install: &QtInstall, module: &str) -> (result: Result<(), Error>)
        ensures
            match result {
                Ok(_) => true,
                Err(Error::IncompleteQtInstall { missing }) => missing@ == qt_install@.lib_path(
                    module@,
                ),
                Err(_) => false,
            },
    {
        let path = qt_install.lib_path(module);
        self.check_path(path.as_str())
    }

    /// Checks `moc`, `rcc` and the library file of each module, in this
    /// order, each with [`Locator::check_path`], and stops at the first
    /// that is missing. Whatever the outside world answers, a path that
    /// is reported is one of these.
    pub fn check_qt_install(&self, qt_install: &QtInstall, modules: &[&str]) -> (result: Result<
        (),
        Error,
    >)
        ensures
            match result {
                Ok(_) => true,
                Err(Error::IncompleteQtInstall { missing }) => required_paths_spec(
                    qt_install@,
                    str_views(modules@),
                ).contains(missing@),
                Err(_) => false,
            },
    {
        let paths = required_paths(qt_install, modules);
        let mut i: usize = 0;
        while i < paths.len()
            invariant
                i <= paths.len(),
                string_views(paths@) == required_paths_spec(qt_install@, str_views(modules@)),
            decreases paths.len() - i,
        {
            proof {
                assert(string_views(paths@)[i as int] == paths@[i as int]@);
            }
            match self.check_path(paths[i].as_str()) {
                Ok(_) => {},
                Err(error) => {
                    return Err(error);
                },
            }
            i += 1;
        }
        Ok(())
    }

    /// Locates the Qt installation and checks that it holds the tools
    /// and the libraries of `modules`.
    ///
    /// Whatever the outside world answers, an installation that is handed
    /// back is for this locator's platform.
    pub fn locate(&self, modules: &[&str]) -> (result: Result<QtInstall, Error>)
        ensures
            match result {
                Ok(install) => install@.platform == self.platform,
                Err(Error::NoQmake) => self.platform == Platform::Windows,
                Err(_) => true,
            },
    {
        let qmake = match self.qmake_path() {
            Ok(qmake) => qmake,
            Err(error) => {
                return Err(error);
            },
        };
        let stdout = match self.spi.qmake_query(qmake.as_str()) {
            Ok(stdout) => stdout,
            Err(error) => {
                return Err(Error::QMakeError { qmake, error });
            },
        };
        let qt_install = match install_from_query(self.platform, stdout.as_str(), qmake.as_str()) {
            Ok(qt_install) => qt_install,
            Err(error) => {
                return Err(error);
            },
        };
        match self.check_qt_install(&qt_install, modules) {
            Ok(_) => Ok(qt_install),
            Err(error) => Err(error),
        }
    }
}

/// Locate Qt installation
///
/// Locates a Qt installation that holds the given Qt modules, asking
/// `spi` for the environment, the run of `qmake` and the file system.
pub fn locate<Spi: LocateSpi>(platform: Platform, spi: Spi, modules: &[&str]) -> (result: Result<
    QtInstall,
    Error,
>)
    ensures
        match result {
            Ok(install) => install@.platform == platform,
            Err(Error::NoQmake) => platform == Platform::Windows,
            Err(_) => true,
        },
{
    let locator = Locator::new(platform, spi);
    locator.locate(modules)
}

} // verus!
