use qt_auto_binding::install::{MajorVersion, Platform};
use qt_auto_binding::locate::{
    find_value, from_qt_infos, install_from_query, is_whitespace, locate, path_result,
    qmake_path, required_paths, split_whitespace, Error, InfoKind, LocateSpi, Locator, QMakeError, QtInfo,
};
use std::collections::HashSet;

const QUERY_QT5_TEST: &str = "QT_SYSROOT:\nQT_INSTALL_PREFIX:/my\nQT_INSTALL_BINS:/my/bin\nQT_INSTALL_LIBS:/my/lib\nQT_INSTALL_HEADERS:/my/include\nQMAKE_VERSION:3.1\nQT_VERSION:5.11.1\n";

const QUERY_QT5_TEST_WIN: &str = "QT_SYSROOT:\nQT_INSTALL_PREFIX:c:/my\nQT_INSTALL_BINS:c:/my/bin\nQT_INSTALL_LIBS:c:/my/lib\nQT_INSTALL_HEADERS:c:/my/include\nQMAKE_VERSION:3.1\nQT_VERSION:5.11.1\n";

const QUERY_QT5_11_1: &str = "QT_SYSROOT:\nQT_INSTALL_PREFIX:/usr\nQT_INSTALL_ARCHDATA:/usr/lib64/qt5\nQT_INSTALL_DATA:/usr/share/qt5\nQT_INSTALL_DOCS:/usr/share/doc/qt5\nQT_INSTALL_HEADERS:/usr/include/qt5\nQT_INSTALL_LIBS:/usr/lib64\nQT_INSTALL_LIBEXECS:/usr/lib64/qt5/libexec\nQT_INSTALL_BINS:/usr/lib64/qt5/bin\nQMAKE_SPEC:linux-g++\nQMAKE_XSPEC:linux-g++\nQMAKE_VERSION:3.1\nQT_VERSION:5.11.1\n";

const QUERY_QT3_TEST: &str = "QT_INSTALL_PREFIX:/my\nQT_INSTALL_BINS:/my/bin\nQT_INSTALL_LIBS:/my/lib\nQT_INSTALL_HEADERS:/my/include\nQMAKE_VERSION:1.07a\nQT_VERSION:3.3.8\n";

const QUERY_QT_NO_VERSION: &str = "QT_INSTALL_PREFIX:/my\nQT_INSTALL_BINS:/my/bin\nQT_INSTALL_LIBS:/my/lib\nQT_INSTALL_HEADERS:/my/include\nQMAKE_VERSION:3.1\n";

const QUERY_QT_NO_LIB: &str = "QT_INSTALL_PREFIX:/my\nQT_INSTALL_BINS:/my/bin\nQT_INSTALL_HEADERS:/my/include\nQMAKE_VERSION:3.1\nQT_VERSION:5.11.1\n";

const QUERY_QT_NO_BIN: &str = "QT_INSTALL_PREFIX:/my\nQT_INSTALL_LIBS:/my/lib\nQT_INSTALL_HEADERS:/my/include\nQMAKE_VERSION:3.1\nQT_VERSION:5.11.1\n";

const QUERY_QT_NO_INCLUDE: &str = "QT_INSTALL_PREFIX:/my\nQT_INSTALL_BINS:/my/bin\nQT_INSTALL_LIBS:/my/lib\nQMAKE_VERSION:3.1\nQT_VERSION:5.11.1\n";

struct LocatorTestSpi<I, Q>
where
    I: Fn() -> Option<&'static str>,
    Q: Fn(&str) -> Result<&'static str, QMakeError>,
{
    qt_install_dir: I,
    qmake_query: Q,
    missing: HashSet<&'static str>,
}

impl<I, Q> LocatorTestSpi<I, Q>
where
    I: Fn() -> Option<&'static str>,
    Q: Fn(&str) -> Result<&'static str, QMakeError>,
{
    fn new(qt_install_dir: I, qmake_query: Q) -> Self {
        LocatorTestSpi {
            qt_install_dir,
            qmake_query,
            missing: HashSet::new(),
        }
    }

    fn add_missing(mut self, path: &'static str) -> Self {
        self.missing.insert(path);
        self
    }
}

impl<I, Q> LocateSpi for LocatorTestSpi<I, Q>
where
    I: Fn() -> Option<&'static str>,
    Q: Fn(&str) -> Result<&'static str, QMakeError>,
{
    fn qt_install_dir(&self) -> Option<String> {
        (self.qt_install_dir)().map(ToString::to_string)
    }

    fn qmake_query(&self, qmake: &str) -> Result<String, QMakeError> {
        (self.qmake_query)(qmake).map(|stdout| stdout.to_string())
    }

    fn path_exists(&self, path: &str) -> bool {
        let exists = !self.missing.contains(path);
        println!("Checking if {} exists: {}", path, exists);
        exists
    }
}

fn is_no_qmake(error: &Error) -> bool {
    matches!(error, Error::NoQmake)
}

fn is_qmake_error(error: &Error) -> bool {
    matches!(error, Error::QMakeError { .. })
}

fn is_qmake_incorrect_info(error: &Error) -> bool {
    matches!(error, Error::QMakeIncorrectInfo { .. })
}

fn is_unsupported_qt(error: &Error) -> bool {
    matches!(error, Error::UnsupportedQt { .. })
}

fn is_incomplete_qt_install(error: &Error) -> bool {
    matches!(error, Error::IncompleteQtInstall { .. })
}

#[test]
fn tests_test_read_prefixed_value() {
    assert_eq!(
        QtInfo::read_prefixed_value(Platform::Linux, "QT_VERSION:4.8.7", "QT_VERSION:"),
        Some("4.8.7".to_string())
    );
    assert_eq!(
        QtInfo::read_prefixed_value(Platform::Linux, "QMAKE_VERSION:2.01a", "QT_VERSION:"),
        None
    );
}

#[test]
fn mod_test_read_prefixed_value() {
    assert_eq!(
        QtInfo::read_prefixed_value(Platform::MacOs, "QT_VERSION:4.8.7", "QT_VERSION:").as_deref(),
        Some("4.8.7")
    );
    assert_eq!(
        QtInfo::read_prefixed_value(Platform::MacOs, "QMAKE_VERSION:2.01a", "QT_VERSION:")
            .as_deref(),
        None
    );
}

#[test]
fn tests_test_locate_fails_for_incorrect_qt_version() {
    let spi = LocatorTestSpi::new(|| Some("/my/qt/install"), |_| Ok(QUERY_QT3_TEST));

    let locator = Locator::new(Platform::Linux, spi);
    let err = locator.locate(&["Core"]).err().unwrap();
    assert!(is_unsupported_qt(&err));
    assert_eq!(err.message(), "Unsupported Qt version 3.3.8");
}

#[test]
fn tests_test_locate_fails_for_missing_version() {
    let spi = LocatorTestSpi::new(|| Some("/my/qt/install"), |_| Ok(QUERY_QT_NO_VERSION));

    let locator = Locator::new(Platform::Linux, spi);
    let err = locator.locate(&["Core"]).err().unwrap();
    assert!(is_qmake_incorrect_info(&err));
    assert_eq!(
        err.message(),
        "Could not find Qt with `/my/qt/install/bin/qmake`. Check `qmake -query`'s output"
    );
}

#[test]
fn tests_test_locate_fails_for_missing_lib() {
    let spi = LocatorTestSpi::new(|| Some("/my/qt/install"), |_| Ok(QUERY_QT_NO_LIB));

    let locator = Locator::new(Platform::Linux, spi);
    let err = locator.locate(&["Core"]).err().unwrap();
    assert!(is_qmake_incorrect_info(&err));
}

#[test]
fn tests_test_locate_fails_for_missing_bin() {
    let spi = LocatorTestSpi::new(|| Some("/my/qt/install"), |_| Ok(QUERY_QT_NO_BIN));

    let locator = Locator::new(Platform::Linux, spi);
    let err = locator.locate(&["Core"]).err().unwrap();
    assert!(is_qmake_incorrect_info(&err));
}

#[test]
fn tests_test_locate_fails_for_missing_include() {
    let spi = LocatorTestSpi::new(|| Some("/my/qt/install"), |_| Ok(QUERY_QT_NO_INCLUDE));

    let locator = Locator::new(Platform::Linux, spi);
    let err = locator.locate(&["Core"]).err().unwrap();
    assert!(is_qmake_incorrect_info(&err));
}

#[test]
fn tests_test_locate_fails_if_qmake_fails() {
    let spi = LocatorTestSpi::new(
        || Some("/my/qt/install"),
        |_| {
            Err(QMakeError::ExecutionError {
                qmake: "my_qmake".to_string(),
                stderr: "stderr".to_string(),
            })
        },
    );

    let locator = Locator::new(Platform::Linux, spi);
    let err = locator.locate(&["Core"]).err().unwrap();
    assert!(is_qmake_error(&err));
    assert_eq!(err.message(), "Failed to run `/my/qt/install/bin/qmake`");
    match err {
        Error::QMakeError { error, .. } => {
            assert_eq!(error.message(), "my_qmake failed: stderr")
        }
        _ => unreachable!(),
    }
}

#[test]
fn unix_test_read_path() {
    assert_eq!(
        QtInfo::read_prefixed_value(
            Platform::Linux,
            "QMAKE_INSTALL_BINS:/my/bin",
            "QMAKE_INSTALL_BINS:"
        ),
        Some("/my/bin".to_string())
    );
}

#[test]
fn unix_test_locate_qt5_use_install_dir() {
    let spi = LocatorTestSpi::new(
        || Some("/my/qt/install"),
        |qmake| {
            assert_eq!(qmake, "/my/qt/install/bin/qmake");
            Ok(QUERY_QT5_TEST)
        },
    );

    let locator = Locator::new(Platform::Linux, spi);
    locator.locate(&["Core"]).unwrap();
}

#[test]
fn test_locate_use_qt_install_dir() {
    let spi = LocatorTestSpi::new(
        || Some("/my/qt/install"),
        |qmake| {
            assert_eq!(qmake, "/my/qt/install/bin/qmake");
            Ok(QUERY_QT5_11_1)
        },
    );

    let locator = Locator::new(Platform::Linux, spi);
    locator.locate(&["Core"]).unwrap();
}

#[test]
fn unix_test_locate_fails_if_moc_is_not_present() {
    let spi = LocatorTestSpi::new(|| None, |_| Ok(QUERY_QT5_TEST)).add_missing("/my/bin/moc");

    let locator = Locator::new(Platform::Linux, spi);
    let err = locator.locate(&["Core"]).err().unwrap();
    assert!(is_incomplete_qt_install(&err));
    assert_eq!(
        err.message(),
        "Qt installation is incomplete. Missing /my/bin/moc"
    );
}

#[test]
fn unix_test_locate_fails_if_rcc_is_not_present() {
    let spi = LocatorTestSpi::new(|| None, |_| Ok(QUERY_QT5_TEST)).add_missing("/my/bin/rcc");

    let locator = Locator::new(Platform::Linux, spi);
    let err = locator.locate(&["Core"]).err().unwrap();
    assert!(is_incomplete_qt_install(&err));
    assert_eq!(
        err.message(),
        "Qt installation is incomplete. Missing /my/bin/rcc"
    );
}

#[test]
fn macos_test_locate_qt5_with_qmake_in_path() {
    let spi = LocatorTestSpi::new(
        || None,
        |qmake| {
            assert_eq!(qmake, "/usr/local/opt/qt/bin/qmake");
            Ok(QUERY_QT5_11_1)
        },
    );

    let locator = Locator::new(Platform::MacOs, spi);
    let qt_install = locator.locate(&["Core"]).unwrap();

    assert_eq!(qt_install.major_version(), &MajorVersion::Qt5);
    assert_eq!(qt_install.version(), "5.11.1");
    assert_eq!(qt_install.bin_dir(), "/usr/lib64/qt5/bin");
    assert_eq!(qt_install.lib_dir(), "/usr/lib64");
    assert_eq!(qt_install.include_dir(), "/usr/include/qt5");
    assert_eq!(qt_install.moc(), "/usr/lib64/qt5/bin/moc");
    assert_eq!(qt_install.lib_name("Core"), "QtCore");
}

#[test]
fn macos_test_locate_fails_if_qtcore_is_not_present() {
    let spi = LocatorTestSpi::new(|| None, |_| Ok(QUERY_QT5_TEST))
        .add_missing("/my/lib/QtCore.framework");

    let locator = Locator::new(Platform::MacOs, spi);
    let err = locator.locate(&["Core"]).err().unwrap();
    assert!(is_incomplete_qt_install(&err));
}

#[test]
fn mod_test_locate_qt5_with_qmake_in_path() {
    let spi = LocatorTestSpi::new(
        || None,
        |qmake| {
            assert_eq!(qmake, "qmake");
            Ok(QUERY_QT5_11_1)
        },
    );

    let locator = Locator::new(Platform::Linux, spi);
    let qt_install = locator.locate(&["Core"]).unwrap();

    assert_eq!(qt_install.major_version(), &MajorVersion::Qt5);
    assert_eq!(qt_install.version(), "5.11.1");
    assert_eq!(qt_install.bin_dir(), "/usr/lib64/qt5/bin");
    assert_eq!(qt_install.lib_dir(), "/usr/lib64");
    assert_eq!(qt_install.include_dir(), "/usr/include/qt5");
    assert_eq!(qt_install.moc(), "/usr/lib64/qt5/bin/moc");
    assert_eq!(qt_install.rcc(), "/usr/lib64/qt5/bin/rcc");
    assert_eq!(qt_install.lib_name("Core"), "Qt5Core");
}

#[test]
fn windows_test_read_path() {
    assert_eq!(
        QtInfo::read_prefixed_value(
            Platform::Windows,
            "QMAKE_INSTALL_BINS:c:/my/bin",
            "QMAKE_INSTALL_BINS:"
        ),
        Some("c:\\my\\bin".to_string())
    );
}

#[test]
fn windows_test_locate_qt5_fails_by_default() {
    let spi = LocatorTestSpi::new(|| None, |_| panic!("Should not be called"));

    let locator = Locator::new(Platform::Windows, spi);
    let err = locator.locate(&["Core"]).err().unwrap();
    assert!(is_no_qmake(&err));
    assert_eq!(
        err.message(),
        "Unable to find `qmake` without QT_INSTALL_DIR"
    );
}

#[test]
fn windows_test_locate_qt5_use_install_dir() {
    let spi = LocatorTestSpi::new(
        || Some("c:\\my\\qt\\install"),
        |qmake| {
            assert_eq!(qmake, "c:\\my\\qt\\install\\bin\\qmake.exe");
            Ok(QUERY_QT5_TEST_WIN)
        },
    );

    let locator = Locator::new(Platform::Windows, spi);
    locator.locate(&["Core"]).unwrap();
}

#[test]
fn windows_test_locate_fails_if_moc_is_not_present() {
    let spi = LocatorTestSpi::new(|| Some("c:\\my\\qt\\install"), |_| Ok(QUERY_QT5_TEST_WIN))
        .add_missing("c:\\my\\bin\\moc.exe");

    let locator = Locator::new(Platform::Windows, spi);
    let err = locator.locate(&["Core"]).err().unwrap();
    assert!(is_incomplete_qt_install(&err));
}

#[test]
fn windows_test_locate_fails_if_qtcore_is_not_present() {
    let spi = LocatorTestSpi::new(|| Some("c:\\my\\qt\\install"), |_| Ok(QUERY_QT5_TEST_WIN))
        .add_missing("c:\\my\\lib\\Qt5Core.lib");

    let locator = Locator::new(Platform::Windows, spi);
    let err = locator.locate(&["Core"]).err().unwrap();
    assert!(is_incomplete_qt_install(&err));
    assert_eq!(
        err.message(),
        "Qt installation is incomplete. Missing c:\\my\\lib\\Qt5Core.lib"
    );
}

#[test]
fn locate_checks_every_module_in_order() {
    let spi = LocatorTestSpi::new(|| None, |_| Ok(QUERY_QT5_TEST))
        .add_missing("/my/lib/libQt5Qml.so")
        .add_missing("/my/lib/libQt5Quick.so");
    let err = locate(Platform::Linux, spi, &["Core", "Qml", "Quick"])
        .err()
        .unwrap();
    assert_eq!(
        err.message(),
        "Qt installation is incomplete. Missing /my/lib/libQt5Qml.so"
    );
}

#[test]
fn split_whitespace_drops_every_kind_of_whitespace() {
    assert_eq!(
        split_whitespace("  a\tb\r\n\u{2003}c d  "),
        vec!["a".to_string(), "b".to_string(), "c".to_string(), "d".to_string()]
    );
    assert!(split_whitespace("").is_empty());
    assert!(split_whitespace(" \n ").is_empty());
    assert_eq!(split_whitespace("word"), vec!["word".to_string()]);
}

#[test]
fn from_query_keeps_known_items_in_order() {
    let infos = QtInfo::from_query(Platform::Linux, QUERY_QT5_TEST);
    assert_eq!(infos.len(), 4);
    assert_eq!(infos[0].bin_dir(), Some("/my/bin"));
    assert_eq!(infos[1].lib_dir(), Some("/my/lib"));
    assert_eq!(infos[2].include_dir(), Some("/my/include"));
    assert_eq!(infos[3].version(), Some("5.11.1"));
    assert_eq!(infos[3].bin_dir(), None);
    assert_eq!(infos[0].kind(), InfoKind::BinDir);
    assert_eq!(infos[0].value(), "/my/bin");
    assert_eq!(find_value(&infos, InfoKind::Version), Some("5.11.1"));
}

#[test]
fn first_item_of_a_kind_counts() {
    let infos = QtInfo::from_query(
        Platform::Linux,
        "QT_VERSION:5.1.0 QT_VERSION:5.2.0 QT_INSTALL_BINS:/a QT_INSTALL_LIBS:/b QT_INSTALL_HEADERS:/c",
    );
    let install = from_qt_infos(Platform::Linux, &infos, "qmake").unwrap();
    assert_eq!(install.version(), "5.1.0");
    assert_eq!(install.platform(), Platform::Linux);
    assert_eq!(install.lib_path("Gui"), "/b/libQt5Gui.so");
    assert_eq!(
        required_paths(&install, &["Core", "Gui"]),
        vec![
            "/a/moc".to_string(),
            "/a/rcc".to_string(),
            "/b/libQt5Core.so".to_string(),
            "/b/libQt5Gui.so".to_string()
        ]
    );
}

#[test]
fn install_from_query_reports_what_is_wrong() {
    let err = install_from_query(Platform::Linux, "", "qmake").err().unwrap();
    assert_eq!(
        err.message(),
        "Could not find Qt with `qmake`. Check `qmake -query`'s output"
    );
    let err = install_from_query(
        Platform::Linux,
        "QT_VERSION: QT_INSTALL_BINS:/a QT_INSTALL_LIBS:/b QT_INSTALL_HEADERS:/c",
        "qmake",
    )
    .err()
    .unwrap();
    assert_eq!(err.message(), "Unsupported Qt version ");
}

#[test]
fn qmake_path_follows_the_platform() {
    assert_eq!(qmake_path(Platform::Linux, None).unwrap(), "qmake");
    assert_eq!(
        qmake_path(Platform::MacOs, None).unwrap(),
        "/usr/local/opt/qt/bin/qmake"
    );
    assert!(matches!(
        qmake_path(Platform::Windows, None),
        Err(Error::NoQmake)
    ));
    assert_eq!(
        qmake_path(Platform::Linux, Some("/qt/")).unwrap(),
        "/qt/bin/qmake"
    );
    assert_eq!(
        qmake_path(Platform::Windows, Some("c:\\qt")).unwrap(),
        "c:\\qt\\bin\\qmake.exe"
    );
}

#[test]
fn run_error_message_names_qmake() {
    let error = QMakeError::RunError {
        qmake: "/bin/qmake".to_string(),
        error: "not found".to_string(),
    };
    assert_eq!(error.message(), "Could not run /bin/qmake");
}

#[test]
fn read_item_knows_four_prefixes() {
    assert!(matches!(
        QtInfo::read_item(Platform::Linux, "QT_VERSION:5.0"),
        Some(QtInfo::Version(_))
    ));
    assert!(matches!(
        QtInfo::read_item(Platform::Linux, "QT_INSTALL_BINS:/b"),
        Some(QtInfo::BinDir(_))
    ));
    assert!(matches!(
        QtInfo::read_item(Platform::Linux, "QT_INSTALL_LIBS:/b"),
        Some(QtInfo::LibDir(_))
    ));
    assert!(matches!(
        QtInfo::read_item(Platform::Linux, "QT_INSTALL_HEADERS:/b"),
        Some(QtInfo::IncludeDir(_))
    ));
    assert!(QtInfo::read_item(Platform::Linux, "QT_INSTALL_DOCS:/b").is_none());
    assert!(QtInfo::read_item(Platform::Linux, "QT_VERSION").is_none());
}

#[test]
fn whitespace_is_what_the_standard_library_says() {
    let mut code: u32 = 0;
    while code <= 0x10ffff {
        if let Some(c) = char::from_u32(code) {
            assert_eq!(is_whitespace(c), c.is_whitespace(), "{:x}", code);
        }
        code += 1;
    }
}

#[test]
fn path_result_follows_the_answer() {
    assert!(path_result("/my/bin/moc", true).is_ok());
    let error = path_result("/my/bin/moc", false).err().unwrap();
    assert_eq!(
        error.message(),
        "Qt installation is incomplete. Missing /my/bin/moc"
    );
    assert!(is_incomplete_qt_install(&error));
}

#[test]
fn locator_takes_the_path_from_the_variable() {
    let set = Locator::new(
        Platform::Linux,
        LocatorTestSpi::new(|| Some("/opt/qt"), |_| Ok("")),
    );
    assert_eq!(set.qmake_path().unwrap(), "/opt/qt/bin/qmake");
    let unset = Locator::new(Platform::Linux, LocatorTestSpi::new(|| None, |_| Ok("")));
    assert_eq!(unset.qmake_path().unwrap(), "qmake");
    let windows = Locator::new(Platform::Windows, LocatorTestSpi::new(|| None, |_| Ok("")));
    assert!(is_no_qmake(&windows.qmake_path().err().unwrap()));
    let missing = Locator::new(
        Platform::Linux,
        LocatorTestSpi::new(|| None, |_| Ok("")).add_missing("/a/b"),
    );
    assert!(missing.check_path("/a").is_ok());
    assert!(is_incomplete_qt_install(&missing.check_path("/a/b").err().unwrap()));
}
