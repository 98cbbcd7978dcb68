use envim::config::{ConfigError, Dependency, DependencyMap, EnvimConfig, PluginManager, Workspace};
use envim::value::Value;

fn text(s: &str) -> Value {
    Value::Str(s.to_string())
}

fn record(entries: Vec<(&str, Value)>) -> Value {
    Value::Table(entries.into_iter().map(|(k, v)| (k.to_string(), v)).collect())
}

fn document(deps: Vec<Value>, manager: Value) -> Value {
    record(vec![(
        "workspace",
        record(vec![("dependencies", Value::Array(deps)), ("plugin_manager", manager)]),
    )])
}

fn version_of(map: &DependencyMap, name: &str) -> Option<Option<String>> {
    map.get(&name.to_string()).map(|d| d.version.clone())
}

fn workspace_entries(v: &Value) -> &Vec<(String, Value)> {
    match v {
        Value::Table(top) => match &top[0].1 {
            Value::Table(ws) => ws,
            _ => panic!("workspace is not a record"),
        },
        _ => panic!("document is not a record"),
    }
}

#[test]
fn bare_string_entry_has_no_version() {
    let d = Dependency::from_value(&text("owner/plugin")).unwrap();
    assert_eq!(d.name, "owner/plugin");
    assert_eq!(d.version, None);
}

#[test]
fn record_entry_keeps_name_and_version() {
    let v = record(vec![("name", text("owner/plugin2")), ("version", text("^1.0"))]);
    let d = Dependency::from_value(&v).unwrap();
    assert_eq!(d.name, "owner/plugin2");
    assert_eq!(d.version, Some("^1.0".to_string()));
}

#[test]
fn record_entry_without_version() {
    let d = Dependency::from_value(&record(vec![("name", text("a/b"))])).unwrap();
    assert_eq!(d.name, "a/b");
    assert_eq!(d.version, None);
}

#[test]
fn record_entry_ignores_extra_keys() {
    let v = record(vec![("lazy", Value::Other), ("name", text("a/b")), ("branch", text("main"))]);
    let d = Dependency::from_value(&v).unwrap();
    assert_eq!(d.name, "a/b");
    assert_eq!(d.version, None);
}

#[test]
fn record_entry_without_name_is_missing_field() {
    let v = record(vec![("version", text("1.0"))]);
    assert!(matches!(Dependency::from_value(&v), Err(ConfigError::MissingField)));
}

#[test]
fn non_string_non_record_entry_is_type_mismatch() {
    assert!(matches!(Dependency::from_value(&Value::Other), Err(ConfigError::TypeMismatch)));
    let arr = Value::Array(vec![text("a/b")]);
    assert!(matches!(Dependency::from_value(&arr), Err(ConfigError::TypeMismatch)));
}

#[test]
fn record_entry_with_non_string_fields_is_type_mismatch() {
    let v = record(vec![("name", Value::Other)]);
    assert!(matches!(Dependency::from_value(&v), Err(ConfigError::TypeMismatch)));
    let v = record(vec![("name", text("a/b")), ("version", Value::Other)]);
    assert!(matches!(Dependency::from_value(&v), Err(ConfigError::TypeMismatch)));
}

#[test]
fn record_form_of_dependency() {
    let d = Dependency { name: "x/y".to_string(), version: Some("2".to_string()) };
    match d.to_value() {
        Value::Table(entries) => {
            assert_eq!(entries.len(), 2);
            assert_eq!(entries[0].0, "name");
            assert!(matches!(&entries[0].1, Value::Str(s) if s == "x/y"));
            assert_eq!(entries[1].0, "version");
            assert!(matches!(&entries[1].1, Value::Str(s) if s == "2"));
        }
        _ => panic!("not a record"),
    }
    let bare = Dependency { name: "x/y".to_string(), version: None };
    assert!(matches!(bare.to_value(), Value::Table(e) if e.len() == 1));
}

#[test]
fn duplicate_names_last_write_wins() {
    let vals = vec![
        record(vec![("name", text("a/b")), ("version", text("1"))]),
        text("c/d"),
        record(vec![("name", text("a/b")), ("version", text("2"))]),
    ];
    let m = DependencyMap::from_values(&vals).unwrap();
    assert_eq!(m.len(), 2);
    assert_eq!(version_of(&m, "a/b"), Some(Some("2".to_string())));
    assert_eq!(version_of(&m, "c/d"), Some(None));
    assert_eq!(version_of(&m, "e/f"), None);
}

#[test]
fn first_failing_entry_aborts_the_set() {
    let vals = vec![text("a/b"), Value::Other, record(vec![("version", text("1"))])];
    assert!(matches!(DependencyMap::from_values(&vals), Err(ConfigError::TypeMismatch)));
}

#[test]
fn empty_dependency_list() {
    let m = DependencyMap::from_values(&vec![]).unwrap();
    assert_eq!(m.len(), 0);
    assert!(m.to_values().is_empty());
}

#[test]
fn insert_overwrites_by_name() {
    let mut m = DependencyMap::new();
    m.insert(Dependency { name: "a/b".to_string(), version: None });
    m.insert(Dependency { name: "c/d".to_string(), version: None });
    m.insert(Dependency { name: "a/b".to_string(), version: Some("3".to_string()) });
    assert_eq!(m.len(), 2);
    assert_eq!(version_of(&m, "a/b"), Some(Some("3".to_string())));
}

#[test]
fn manager_aliases() {
    assert_eq!(PluginManager::parse(&"lazy".to_string()), Ok(PluginManager::Lazy));
    assert_eq!(PluginManager::parse(&"lazynvim".to_string()), Ok(PluginManager::Lazy));
    assert_eq!(PluginManager::parse(&"Lazy".to_string()), Err(ConfigError::UnsupportedManager));
    assert_eq!(PluginManager::parse(&"packer".to_string()), Err(ConfigError::UnsupportedManager));
    assert_eq!(PluginManager::parse(&"".to_string()), Err(ConfigError::UnsupportedManager));
    assert_eq!(PluginManager::Lazy.name(), "lazy");
}

#[test]
fn example_duplicate_with_lazynvim() {
    let doc = document(
        vec![text("foo/bar"), record(vec![("name", text("foo/bar")), ("version", text("2.0"))])],
        text("lazynvim"),
    );
    let c = EnvimConfig::load(&doc).unwrap();
    assert_eq!(c.workspace.dependencies.len(), 1);
    assert_eq!(version_of(&c.workspace.dependencies, "foo/bar"), Some(Some("2.0".to_string())));
    assert_eq!(c.workspace.plugin_manager, PluginManager::Lazy);
    let saved = c.save();
    let ws = workspace_entries(&saved);
    assert_eq!(ws[1].0, "plugin_manager");
    assert!(matches!(&ws[1].1, Value::Str(s) if s == "lazy"));
}

#[test]
fn example_record_without_name_fails_load() {
    let doc = document(vec![record(vec![("version", text("1.0"))])], text("lazy"));
    assert!(matches!(EnvimConfig::load(&doc), Err(ConfigError::MissingField)));
}

#[test]
fn round_trip_keeps_dependencies() {
    let doc = document(
        vec![
            text("owner/plugin"),
            record(vec![("name", text("owner/plugin2")), ("version", text("^1.0"))]),
        ],
        text("lazynvim"),
    );
    let first = EnvimConfig::load(&doc).unwrap();
    let second = EnvimConfig::load(&first.save()).unwrap();
    let a = &first.workspace.dependencies;
    let b = &second.workspace.dependencies;
    assert_eq!(a.len(), b.len());
    for name in ["owner/plugin", "owner/plugin2"] {
        assert_eq!(version_of(a, name), version_of(b, name));
    }
    assert_eq!(second.workspace.plugin_manager, PluginManager::Lazy);
    let resaved = second.save();
    let ws = workspace_entries(&resaved);
    assert!(matches!(&ws[1].1, Value::Str(s) if s == "lazy"));
}

#[test]
fn saved_entries_are_records() {
    let doc = document(vec![text("a/b")], text("lazy"));
    let saved = EnvimConfig::load(&doc).unwrap().save();
    let ws = workspace_entries(&saved);
    assert_eq!(ws[0].0, "dependencies");
    match &ws[0].1 {
        Value::Array(vals) => {
            assert_eq!(vals.len(), 1);
            assert!(matches!(&vals[0], Value::Table(e) if e.len() == 1 && e[0].0 == "name"));
        }
        _ => panic!("dependencies is not a sequence"),
    }
}

#[test]
fn missing_workspace_is_missing_section() {
    let doc = record(vec![("other", text("x"))]);
    assert!(matches!(EnvimConfig::load(&doc), Err(ConfigError::MissingSection)));
}

#[test]
fn missing_plugin_manager_is_missing_section() {
    let doc = record(vec![("workspace", record(vec![("dependencies", Value::Array(vec![]))]))]);
    assert!(matches!(EnvimConfig::load(&doc), Err(ConfigError::MissingSection)));
    let doc = record(vec![("workspace", record(vec![("plugin_manager", text("lazy"))]))]);
    assert!(matches!(EnvimConfig::load(&doc), Err(ConfigError::MissingSection)));
}

#[test]
fn unsupported_manager_fails_load() {
    let doc = document(vec![text("a/b")], text("packer"));
    assert!(matches!(EnvimConfig::load(&doc), Err(ConfigError::UnsupportedManager)));
}

#[test]
fn wrong_shapes_in_document_are_type_mismatch() {
    assert!(matches!(EnvimConfig::load(&text("x")), Err(ConfigError::TypeMismatch)));
    let doc = record(vec![("workspace", text("x"))]);
    assert!(matches!(EnvimConfig::load(&doc), Err(ConfigError::TypeMismatch)));
    let doc = record(vec![(
        "workspace",
        record(vec![("dependencies", text("a/b")), ("plugin_manager", text("lazy"))]),
    )]);
    assert!(matches!(EnvimConfig::load(&doc), Err(ConfigError::TypeMismatch)));
    let doc = document(vec![], Value::Other);
    assert!(matches!(EnvimConfig::load(&doc), Err(ConfigError::TypeMismatch)));
}

#[test]
fn add_dependency_to_fresh_document() {
    let mut c = EnvimConfig::new(PluginManager::Lazy);
    c.add_dependency(Dependency { name: "a/b".to_string(), version: None });
    c.add_dependency(Dependency { name: "a/b".to_string(), version: Some("1".to_string()) });
    assert_eq!(c.workspace.dependencies.len(), 1);
    assert_eq!(version_of(&c.workspace.dependencies, "a/b"), Some(Some("1".to_string())));
}

#[test]
fn workspace_from_entries() {
    let entries = vec![
        ("plugin_manager".to_string(), text("lazy")),
        ("dependencies".to_string(), Value::Array(vec![text("a/b")])),
    ];
    let w = Workspace::from_entries(&entries).unwrap();
    assert_eq!(w.dependencies.len(), 1);
}

#[test]
fn empty_names_are_refused() {
    assert!(matches!(Dependency::from_value(&text("")), Err(ConfigError::MissingField)));
    let v = record(vec![("name", text(""))]);
    assert!(matches!(Dependency::from_value(&v), Err(ConfigError::MissingField)));
    let v = record(vec![("name", text("")), ("version", text("1.0"))]);
    assert!(matches!(Dependency::from_value(&v), Err(ConfigError::MissingField)));
    let doc = document(vec![text("a/b"), text("")], text("lazy"));
    assert!(matches!(EnvimConfig::load(&doc), Err(ConfigError::MissingField)));
}

#[test]
fn order_of_distinct_names_does_not_matter() {
    let a = record(vec![("name", text("a/b")), ("version", text("1"))]);
    let b = text("c/d");
    let a2 = record(vec![("name", text("a/b")), ("version", text("1"))]);
    let b2 = text("c/d");
    let m1 = DependencyMap::from_values(&vec![a, b]).unwrap();
    let m2 = DependencyMap::from_values(&vec![b2, a2]).unwrap();
    assert_eq!(m1.len(), m2.len());
    for name in ["a/b", "c/d"] {
        assert_eq!(version_of(&m1, name), version_of(&m2, name));
    }
}
