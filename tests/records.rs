use carp::cargoreader::{
    decode, encode, has_unique_dependencies, parse_cargo_file, write_dependencies, ManifestError,
};
use carp::dependency::{
    parse_dependency_value, transform_dependency_version, DecodeErrorKind, Dependency, RawToml,
};
use carp::manifest::{find_key, has_unique_keys, TomlValue};
use carp::version::{
    get_version_from_version_req, get_versions_from_str, version_req_str, ClauseOp,
    ConcreteVersion, VersionRequirement,
};

fn s(text: &str) -> String {
    text.to_string()
}

fn features(names: &[&str]) -> TomlValue {
    TomlValue::Other(toml::Value::Array(
        names.iter().map(|n| toml::Value::String(n.to_string())).collect(),
    ))
}

fn table(entries: Vec<(&str, TomlValue)>) -> TomlValue {
    TomlValue::Table(entries.into_iter().map(|(k, v)| (s(k), v)).collect())
}

fn pin_of_text(text: &str) -> Option<(u64, u64, u64)> {
    let (_, pin) = get_versions_from_str(text).expect("valid requirement");
    pin.map(|v| (v.major, v.minor, v.patch))
}

fn entries_of(v: &TomlValue) -> &Vec<(String, TomlValue)> {
    match v {
        TomlValue::Table(t) => t,
        _ => panic!("not a table"),
    }
}

fn str_of(v: &TomlValue) -> &str {
    match v {
        TomlValue::Str(s) => s.as_str(),
        _ => panic!("not a string"),
    }
}

#[test]
fn pins_exact_tilde_and_caret() {
    assert_eq!(pin_of_text("1.2.3"), Some((1, 2, 3)));
    assert_eq!(pin_of_text("^1.2.3"), Some((1, 2, 3)));
    assert_eq!(pin_of_text("~1.2.3"), Some((1, 2, 3)));
    assert_eq!(pin_of_text("=1.2.3"), Some((1, 2, 3)));
}

#[test]
fn no_pin_without_full_version_or_with_range() {
    assert_eq!(pin_of_text("1.2"), None);
    assert_eq!(pin_of_text("1"), None);
    assert_eq!(pin_of_text(">=1.2.3"), None);
    assert_eq!(pin_of_text("*"), None);
    assert_eq!(pin_of_text("1.2.*"), None);
}

#[test]
fn pin_comes_from_first_pinning_clause() {
    assert_eq!(pin_of_text(">=1.0.0, ^1.4, ~2.3.4, =5.6.7"), Some((2, 3, 4)));
    let req = VersionRequirement::parse(">=1.0.0, ^1.4").unwrap();
    assert!(get_version_from_version_req(&req).is_none());
}

#[test]
fn parse_reads_clauses() {
    let req = VersionRequirement::parse(">=1.2, <2.0.0-beta.1").unwrap();
    assert_eq!(req.clauses.len(), 2);
    assert_eq!(req.clauses[0].op, ClauseOp::GreaterEq);
    assert_eq!(req.clauses[0].major, 1);
    assert_eq!(req.clauses[0].minor, Some(2));
    assert_eq!(req.clauses[0].patch, None);
    assert_eq!(req.clauses[1].op, ClauseOp::Less);
    assert_eq!(req.clauses[1].pre, "beta.1");
    assert!(VersionRequirement::parse("not a version").is_err());
    let err = get_versions_from_str("1.x.y.z").err().unwrap();
    assert_eq!(err.text, "1.x.y.z");
}

#[test]
fn parse_reads_versions() {
    let v = ConcreteVersion::parse("1.5.0-rc.1+build.7").unwrap();
    assert_eq!((v.major, v.minor, v.patch), (1, 5, 0));
    assert_eq!(v.pre, "rc.1");
    assert_eq!(v.build, "build.7");
    assert!(ConcreteVersion::parse("1.5").is_err());
}

#[test]
fn same_version_ignores_build_metadata() {
    let a = ConcreteVersion::parse("1.0.0+a").unwrap();
    let b = ConcreteVersion::parse("1.0.0+b").unwrap();
    let c = ConcreteVersion::parse("1.0.0-rc.1").unwrap();
    assert!(a.same_as(&b));
    assert!(!a.same_as(&c));
    assert!(a.same_as(&ConcreteVersion::new(1, 0, 0)));
}

#[test]
fn matches_any_clause() {
    let v = ConcreteVersion::new(1, 5, 0);
    assert_eq!(VersionRequirement::parse("^1.0.0").unwrap().matches(&v), Some(true));
    assert_eq!(VersionRequirement::parse("~1.0.0").unwrap().matches(&v), Some(false));
    assert_eq!(VersionRequirement::parse("=1.0.0, >=1.2").unwrap().matches(&v), Some(true));
    assert_eq!(VersionRequirement::parse("*").unwrap().matches(&v), Some(true));
    let pre = ConcreteVersion::parse("1.5.0-rc.1").unwrap();
    assert_eq!(VersionRequirement::parse("*").unwrap().matches(&pre), Some(false));
    assert_eq!(VersionRequirement::parse(">=1.5.0-rc.0").unwrap().matches(&pre), Some(true));
    assert_eq!(VersionRequirement::parse(">=9.0.0, ^1.0").unwrap().matches(&v), Some(true));
    assert_eq!(VersionRequirement::parse("^0.9").unwrap().matches(&ConcreteVersion::new(1, 0, 0)), Some(false));
    assert_eq!(VersionRequirement::parse("^0.9").unwrap().matches(&ConcreteVersion::new(0, 9, 7)), Some(true));
}

#[test]
fn matching_reports_malformed_prerelease() {
    let v = ConcreteVersion { major: 1, minor: 0, patch: 0, pre: s("bad pre"), build: String::new() };
    assert_eq!(VersionRequirement::parse("^1.0.0").unwrap().matches(&v), None);
}

#[test]
fn version_req_str_drops_carets() {
    let req = VersionRequirement::parse("1.2.3").unwrap();
    assert_eq!(req.display, "^1.2.3");
    assert_eq!(version_req_str(&req), "1.2.3");
    let req = VersionRequirement::parse(">=1.0, ^2").unwrap();
    assert_eq!(version_req_str(&req), ">=1.0, 2");
}

#[test]
fn find_key_finds_first_entry() {
    let t = vec![(s("a"), TomlValue::Str(s("1"))), (s("version"), TomlValue::Str(s("2")))];
    assert_eq!(find_key(&t, "version"), Some(1));
    assert_eq!(find_key(&t, "b"), None);
}

#[test]
fn decode_string_entry() {
    let d = parse_dependency_value("foo", TomlValue::Str(s("1.0.0"))).unwrap();
    assert_eq!(d.name(), "foo");
    assert!(matches!(d.raw_toml_value(), RawToml::String(t) if t == "1.0.0"));
    let pin = d.version().as_ref().unwrap();
    assert_eq!((pin.major, pin.minor, pin.patch), (1, 0, 0));
    assert_eq!(d.version_req().display, "^1.0.0");
}

#[test]
fn decode_table_entry_keeps_all_keys() {
    let value = table(vec![("version", TomlValue::Str(s("0.9"))), ("features", features(&["x"]))]);
    let d = parse_dependency_value("bar", value).unwrap();
    assert!(d.version().is_none());
    match d.raw_toml_value() {
        RawToml::Table(t) => {
            assert_eq!(t.len(), 2);
            assert_eq!(t[0].0, "version");
            assert_eq!(t[1].0, "features");
        }
        _ => panic!("expected a table"),
    }
}

#[test]
fn decode_errors_name_the_dependency() {
    let e = parse_dependency_value("n", TomlValue::Other(toml::Value::Integer(3))).err().unwrap();
    assert_eq!(e.kind, DecodeErrorKind::NotStringOrTable);
    assert_eq!(e.name, "n");
    let e = parse_dependency_value("m", table(vec![("features", features(&[]))])).err().unwrap();
    assert_eq!(e.kind, DecodeErrorKind::MissingVersion);
    assert_eq!(e.name, "m");
    let e = parse_dependency_value("v", table(vec![("version", TomlValue::Other(toml::Value::Integer(1)))]))
        .err()
        .unwrap();
    assert_eq!(e.kind, DecodeErrorKind::VersionNotString);
    let e = parse_dependency_value("w", TomlValue::Str(s("one point two"))).err().unwrap();
    assert_eq!(e.kind, DecodeErrorKind::InvalidRequirement);
    let e = parse_dependency_value("x", table(vec![("version", TomlValue::Str(s("??")))])).err().unwrap();
    assert_eq!(e.kind, DecodeErrorKind::InvalidRequirement);
}

fn sample_table() -> Vec<(String, TomlValue)> {
    vec![
        (s("foo"), TomlValue::Str(s("1.0.0"))),
        (
            s("bar"),
            table(vec![
                ("version", TomlValue::Str(s("0.9"))),
                ("features", features(&["x"])),
                ("optional", TomlValue::Other(toml::Value::Boolean(true))),
            ]),
        ),
        (s("baz"), TomlValue::Str(s(">=0.3, <0.5"))),
    ]
}

#[test]
fn round_trip_keeps_table() {
    let records = decode(sample_table()).unwrap();
    let names: Vec<&str> = records.iter().map(|d| d.name().as_str()).collect();
    assert_eq!(names, vec!["foo", "bar", "baz"]);
    let out = encode(records);
    let expected = sample_table();
    assert_eq!(out.len(), expected.len());
    for (a, b) in out.iter().zip(expected.iter()) {
        assert_eq!(a.0, b.0);
        assert_eq!(format!("{:?}", a.1), format!("{:?}", b.1));
    }
}

#[test]
fn decode_fails_on_first_bad_entry() {
    let mut t = sample_table();
    t.insert(1, (s("bad1"), TomlValue::Other(toml::Value::Integer(1))));
    t.push((s("bad2"), table(vec![])));
    let e = decode(t).err().unwrap();
    assert_eq!(e.name, "bad1");
    assert_eq!(e.kind, DecodeErrorKind::NotStringOrTable);
}

#[test]
fn decode_empty_table() {
    let records = decode(Vec::new()).unwrap();
    assert!(records.is_empty());
    assert!(encode(records).is_empty());
}

fn bar_record() -> Dependency {
    parse_dependency_value(
        "bar",
        table(vec![("version", TomlValue::Str(s("1.0.0"))), ("features", features(&["x", "y"]))]),
    )
    .unwrap()
}

#[test]
fn update_table_keeps_other_keys() {
    let mut d = bar_record();
    transform_dependency_version("2.0.0", &mut d).unwrap();
    match d.raw_toml_value() {
        RawToml::Table(t) => {
            assert_eq!(t.len(), 2);
            assert_eq!(t[0].0, "version");
            assert_eq!(str_of(&t[0].1), "2.0.0");
            assert_eq!(t[1].0, "features");
            assert_eq!(format!("{:?}", t[1].1), format!("{:?}", features(&["x", "y"])));
        }
        _ => panic!("expected a table"),
    }
    let pin = d.version().as_ref().unwrap();
    assert_eq!((pin.major, pin.minor, pin.patch), (2, 0, 0));
    assert_eq!(d.version_req().display, "^2.0.0");
    assert_eq!(d.name(), "bar");
}

#[test]
fn update_string_declaration() {
    let mut d = parse_dependency_value("foo", TomlValue::Str(s("1.0.0"))).unwrap();
    transform_dependency_version(">=1.1", &mut d).unwrap();
    assert!(matches!(d.raw_toml_value(), RawToml::String(t) if t == ">=1.1"));
    assert!(d.version().is_none());
}

#[test]
fn update_with_bad_text_changes_nothing() {
    let mut d = bar_record();
    let e = transform_dependency_version("not-a-version", &mut d).err().unwrap();
    assert_eq!(e.text, "not-a-version");
    match d.raw_toml_value() {
        RawToml::Table(t) => assert_eq!(str_of(&t[0].1), "1.0.0"),
        _ => panic!("expected a table"),
    }
    assert_eq!(d.version().as_ref().unwrap().major, 1);
    assert_eq!(d.version_req().display, "^1.0.0");
}

fn document(deps: TomlValue) -> TomlValue {
    table(vec![
        ("package", table(vec![("name", TomlValue::Str(s("demo")))])),
        ("dependencies", deps),
        ("dev-dependencies", table(vec![])),
    ])
}

#[test]
fn parse_cargo_file_reads_dependency_table() {
    let doc = document(TomlValue::Table(sample_table()));
    let records = parse_cargo_file(doc).unwrap();
    assert_eq!(records.len(), 3);
    assert_eq!(records[2].name(), "baz");
}

#[test]
fn parse_cargo_file_errors() {
    let doc = table(vec![("package", table(vec![]))]);
    assert!(matches!(parse_cargo_file(doc), Err(ManifestError::MissingDependencies)));
    let doc = document(TomlValue::Str(s("1.0")));
    assert!(matches!(parse_cargo_file(doc), Err(ManifestError::DependenciesNotTable)));
    let doc = document(table(vec![("q", table(vec![]))]));
    match parse_cargo_file(doc) {
        Err(ManifestError::Entry(e)) => {
            assert_eq!(e.name, "q");
            assert_eq!(e.kind, DecodeErrorKind::MissingVersion);
        }
        _ => panic!("expected an entry error"),
    }
    assert!(matches!(parse_cargo_file(TomlValue::Str(s("x"))), Err(ManifestError::MissingDependencies)));
}

#[test]
fn write_dependencies_replaces_only_dependency_table() {
    let doc = document(TomlValue::Table(sample_table()));
    let mut records = parse_cargo_file(document(TomlValue::Table(sample_table()))).unwrap();
    records.remove(0);
    let new_doc = write_dependencies(doc, records).unwrap();
    let top = entries_of(&new_doc);
    assert_eq!(top.len(), 3);
    assert_eq!(top[0].0, "package");
    assert_eq!(top[1].0, "dependencies");
    assert_eq!(top[2].0, "dev-dependencies");
    let deps = entries_of(&top[1].1);
    let names: Vec<&str> = deps.iter().map(|e| e.0.as_str()).collect();
    assert_eq!(names, vec!["bar", "baz"]);
    let doc = table(vec![("dependencies", TomlValue::Str(s("1")))]);
    assert!(matches!(write_dependencies(doc, Vec::new()), Err(ManifestError::DependenciesNotTable)));
    assert!(matches!(write_dependencies(table(vec![]), Vec::new()), Err(ManifestError::MissingDependencies)));
}

#[test]
fn unique_key_checks() {
    assert!(has_unique_keys(&sample_table()));
    let mut t = sample_table();
    t.push((s("foo"), TomlValue::Str(s("2"))));
    assert!(!has_unique_keys(&t));
    assert!(has_unique_keys(&Vec::new()));
    assert!(has_unique_dependencies(&document(TomlValue::Table(sample_table()))));
    assert!(!has_unique_dependencies(&document(TomlValue::Table(t))));
    assert!(has_unique_dependencies(&TomlValue::Str(s("x"))));
}
