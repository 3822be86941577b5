use qt_auto_binding::crawl::{
    scan_module, scan_source, Crawler, Error, ModuleFsReader, ModuleVisitor,
};
use qt_auto_binding::model::{Field, Object};
use qt_auto_binding::types::Type;
use std::collections::HashMap;

struct TestModuleFsReader {
    results: HashMap<(String, String), Option<String>>,
}

impl TestModuleFsReader {
    fn new() -> Self {
        TestModuleFsReader {
            results: HashMap::new(),
        }
    }

    fn with_result(mut self, path: &str, module: &str, result: &str) -> Self {
        self.results.insert(
            (path.to_string(), module.to_string()),
            Some(result.to_string()),
        );
        self
    }

    fn without_file(mut self, path: &str, module: &str) -> Self {
        self.results
            .insert((path.to_string(), module.to_string()), None);
        self
    }

    fn read(&self, path: &str, module: &str) -> Result<String, String> {
        let result = self
            .results
            .get(&(path.to_string(), module.to_string()))
            .unwrap();

        if let Some(result) = result {
            Ok(result.clone())
        } else {
            Err("Not found".to_string())
        }
    }
}

fn parse_with_visits(
    reader: &TestModuleFsReader,
    visits: &mut Vec<(String, String)>,
) -> Result<Vec<Object>, Error> {
    let mut crawler = Crawler::new("src", "lib");
    loop {
        let (path, module) = match crawler.next_module() {
            Some(next) => (next.path.clone(), next.module.clone()),
            None => break,
        };
        visits.push((path.clone(), module.clone()));
        let content = reader.read(&path, &module);
        crawler.visit(content)?;
    }
    crawler.finish()
}

fn parse(reader: TestModuleFsReader) -> Result<Vec<Object>, Error> {
    let mut visits = Vec::new();
    parse_with_visits(&reader, &mut visits)
}

fn pair(path: &str, module: &str) -> (String, String) {
    (path.to_string(), module.to_string())
}

#[test]
fn test_parse_recursively() {
    let lib = "mod a;\nmod b;";
    let mod_a = "mod a1;\nmod a2;";
    let mod_a1 = "";
    let mod_a2 = "";
    let mod_b = "mod internal {}";

    let reader = TestModuleFsReader::new()
        .with_result("src", "lib", lib)
        .with_result("src", "a", mod_a)
        .with_result("src/a", "a1", mod_a1)
        .with_result("src/a", "a2", mod_a2)
        .with_result("src", "b", mod_b);

    parse(reader).unwrap();
}

#[test]
fn test_parse_simple_qobjects() {
    let lib = "qobjects!{object MyObject{}}";
    let reader = TestModuleFsReader::new().with_result("src", "lib", lib);

    let results = parse(reader).unwrap();

    assert_eq!(
        results,
        vec![Object::new("MyObject".to_string(), vec![], None)]
    );
}

#[test]
#[should_panic]
fn test_parse_invalid_rust_code() {
    let lib = "fn main() {";
    let reader = TestModuleFsReader::new().with_result("src", "lib", lib);

    parse(reader).unwrap();
}

#[test]
#[should_panic]
fn test_parse_invalid_qt_binding() {
    let lib = "qobjects!{object MyObject}";
    let reader = TestModuleFsReader::new().with_result("src", "lib", lib);

    parse(reader).unwrap();
}

#[test]
#[should_panic]
fn test_parse_twice_the_same_name() {
    let lib = "qobjects!{object MyObject{}} qobjects!{object MyObject{}}";
    let reader = TestModuleFsReader::new().with_result("src", "lib", lib);

    parse(reader).unwrap();
}

#[test]
fn modules_are_visited_depth_first_in_declaration_order() {
    let reader = TestModuleFsReader::new()
        .with_result("src", "lib", "mod a;\nmod b;")
        .with_result("src", "a", "mod a1;\nmod a2;")
        .with_result("src/a", "a1", "")
        .with_result("src/a", "a2", "")
        .with_result("src", "b", "");
    let mut visits = Vec::new();
    parse_with_visits(&reader, &mut visits).unwrap();
    assert_eq!(
        visits,
        vec![
            pair("src", "lib"),
            pair("src", "a"),
            pair("src/a", "a1"),
            pair("src/a", "a2"),
            pair("src", "b"),
        ]
    );
}

#[test]
fn objects_come_in_discovery_order() {
    let reader = TestModuleFsReader::new()
        .with_result(
            "src",
            "lib",
            "qobjects! { object Root {} }\nmod a;\nmod b;\nqobjects! { object Last { fields { q: QObject } } }",
        )
        .with_result("src", "a", "mod a1; qobjects! { object A {} }")
        .with_result("src/a", "a1", "qobjects! { object A1 { fields { n: i32 } } }")
        .with_result("src", "b", "qobjects! { object B {} object B2 {} }");
    let objects = parse(reader).unwrap();
    let names: Vec<&str> = objects.iter().map(|object| object.name()).collect();
    assert_eq!(names, vec!["Root", "Last", "A", "A1", "B", "B2"]);
    assert_eq!(
        objects[3],
        Object::new(
            "A1".to_string(),
            vec![Field::new("n".to_string(), Type::I32)],
            None
        )
    );
    assert_eq!(objects[1].qobject_field_name(), Some("q"));
}

#[test]
fn duplicate_across_modules_names_the_first_collision() {
    let reader = TestModuleFsReader::new()
        .with_result("src", "lib", "mod a; mod b; qobjects! { object X {} object Y {} }")
        .with_result("src", "a", "qobjects! { object Z {} object Y {} }")
        .with_result("src", "b", "qobjects! { object X {} }");
    let error = parse(reader).err().unwrap();
    match &error {
        Error::DuplicatedObject { name } => assert_eq!(name, "Y"),
        other => panic!("{:?}", other),
    }
    assert_eq!(error.message(), "Duplicated object `Y`");

    let reader = TestModuleFsReader::new()
        .with_result("src", "lib", "mod a; mod b; qobjects! { object X {} object Y {} }")
        .with_result("src", "a", "qobjects! { object Z {} object Y2 {} }")
        .with_result("src", "b", "qobjects! { object X2 {} }");
    let objects = parse(reader).unwrap();
    let names: Vec<&str> = objects.iter().map(|object| object.name()).collect();
    assert_eq!(names, vec!["X", "Y", "Z", "Y2", "X2"]);
}

#[test]
fn missing_file_is_an_io_error_and_leaves_the_crawl() {
    let reader = TestModuleFsReader::new()
        .with_result("src", "lib", "mod gone;")
        .without_file("src", "gone");
    let error = parse(reader).err().unwrap();
    match &error {
        Error::IO { message, error } => {
            assert_eq!(message, "Failed to read module gone in src");
            assert_eq!(error, "Not found");
        }
        other => panic!("{:?}", other),
    }
    assert_eq!(error.message(), "Failed to read module gone in src");

    let mut crawler = Crawler::new("src", "lib");
    assert!(crawler.visit(Err("no".to_string())).is_err());
    let next = crawler.next_module().unwrap();
    assert_eq!((next.path.as_str(), next.module.as_str()), ("src", "lib"));
    assert!(matches!(
        crawler.visit(Ok("fn broken(".to_string())),
        Err(Error::Source)
    ));
    assert!(crawler.next_module().is_some());
    crawler.visit(Ok(String::new())).unwrap();
    assert!(crawler.next_module().is_none());
    assert_eq!(crawler.finish().unwrap(), vec![]);
}

#[test]
fn source_error_message() {
    assert_eq!(
        Error::Source.message(),
        "Cannot compile source code. Check Rust compilation issues"
    );
}

#[test]
fn child_paths_follow_the_two_conventions() {
    let crawler = Crawler::new("src", "lib");
    assert_eq!(crawler.create_new_path("src", "lib"), "src");
    assert_eq!(crawler.create_new_path("src", "a"), "src/a");
    assert_eq!(crawler.create_new_path("src/a", "b"), "src/a/b");
    assert_eq!(crawler.check().is_ok(), true);
    assert_eq!(ModuleFsReader::file_path("src", "a"), "src/a.rs");
    assert_eq!(ModuleFsReader::mod_path("src", "a"), "src/a/mod.rs");
}

#[test]
fn scan_finds_modules_without_body_and_descriptions() {
    let visitor = scan_module(
        r#"
        // mod commented;
        /* mod also_commented; */
        mod first;
        pub mod second;
        mod inline { mod hidden; qobjects! { object Hidden {} } }
        const TEXT: &str = "mod in_text; qobjects! { object InText {} }";
        const QUOTE: char = '"';
        const BRACE: char = '{';
        const ESCAPED: char = '\'';
        fn lifetime<'a>(x: &'a str) -> &'a str { x }
        other! { mod in_macro; qobjects! { object InMacro {} } }
        macro_rules! rule { () => { mod in_rule; } }
        path::qobjects! { object Qualified {} }
        qobjects! { object Found { fields { a: i32 } } }
        qobjects!(object Round {});
        fn check(a: bool) -> bool { a != (true) }
        mod third;
        "#,
    )
    .unwrap();
    assert_eq!(visitor.sub_modules, vec!["first", "second", "third"]);
    let names: Vec<&str> = visitor.objects.iter().map(|object| object.name()).collect();
    assert_eq!(names, vec!["Found", "Round"]);
    assert!(!visitor.has_error);
}

#[test]
fn scan_fails_on_a_description_with_diagnostics() {
    assert!(matches!(
        scan_module("qobjects! { object A { fields { a: bool } } }"),
        Err(Error::Source)
    ));
    assert!(matches!(
        scan_module("qobjects! { object A {} } qobjects! { object }"),
        Err(Error::Source)
    ));
    assert!(matches!(scan_module("struct"), Err(Error::Source)));
    let visitor = scan_module("").unwrap();
    assert!(visitor.sub_modules.is_empty());
    let fresh = ModuleVisitor::new();
    assert!(fresh.objects.is_empty() && !fresh.has_error);
}

#[test]
fn scan_passes_over_raw_strings() {
    let content = "const RAW: &str = r##\"mod in_raw; \"# qobjects! { object InRaw {} } \"##;\nconst BYTES: &[u8] = br\"mod in_bytes;\";\nconst PLAIN: &str = r\"\\\";\nmod found;";
    let visitor = scan_module(content).unwrap();
    assert_eq!(visitor.sub_modules, vec!["found"]);
    assert!(visitor.objects.is_empty());
}

#[test]
fn visit_without_pending_module_changes_nothing() {
    let mut crawler = Crawler::new("src", "lib");
    crawler
        .visit(Ok("qobjects! { object A {} }".to_string()))
        .unwrap();
    assert!(crawler.next_module().is_none());
    crawler
        .visit(Ok("mod late; qobjects! { object B {} }".to_string()))
        .unwrap();
    assert!(crawler.next_module().is_none());
    let objects = crawler.finish().unwrap();
    assert_eq!(objects, vec![Object::new("A".to_string(), vec![], None)]);
}

#[test]
fn scan_source_follows_the_answer() {
    assert!(matches!(
        scan_source("mod a;", false),
        Err(Error::Source)
    ));
    let visitor = scan_source("mod a; fn broken(", true).unwrap();
    assert_eq!(visitor.sub_modules, vec!["a"]);
    assert!(matches!(
        scan_source("const TEXT: &str = \"never ends;", true),
        Err(Error::Source)
    ));
}
