use carp::cratesio::{new_dependency, ReconcileErrorKind, RegistryPackage};
use carp::dependency::{parse_dependency_value, Dependency, RawToml};
use carp::manifest::TomlValue;
use carp::selection::{is_known, is_named, remove_dependency, select_dependencies};

fn s(text: &str) -> String {
    text.to_string()
}

fn records(names: &[&str]) -> Vec<Dependency> {
    names
        .iter()
        .map(|n| parse_dependency_value(n, TomlValue::Str(s("1.0.0"))).unwrap())
        .collect()
}

fn names_of(ds: &[Dependency]) -> Vec<String> {
    ds.iter().map(|d| d.name().clone()).collect()
}

#[test]
fn select_all_when_no_names() {
    let out = select_dependencies(records(&["a", "b"]), &Vec::new()).unwrap();
    assert_eq!(names_of(&out), vec![s("a"), s("b")]);
}

#[test]
fn select_named_in_manifest_order() {
    let out = select_dependencies(records(&["a", "b", "c"]), &vec![s("c"), s("a")]).unwrap();
    assert_eq!(names_of(&out), vec![s("a"), s("c")]);
}

#[test]
fn select_reports_unknown_names() {
    let err = select_dependencies(records(&["a", "b"]), &vec![s("x"), s("b"), s("y")]).err().unwrap();
    assert_eq!(err, vec![s("x"), s("y")]);
}

#[test]
fn name_lookups() {
    let ds = records(&["a", "b"]);
    assert!(is_known(&ds, &s("b")));
    assert!(!is_known(&ds, &s("z")));
    assert!(is_named(&vec![s("p"), s("q")], &s("q")));
    assert!(!is_named(&Vec::new(), &s("q")));
}

#[test]
fn remove_by_name() {
    let out = remove_dependency(records(&["a", "b", "c"]), &s("b")).unwrap();
    assert_eq!(names_of(&out), vec![s("a"), s("c")]);
    assert!(remove_dependency(records(&["a"]), &s("zz")).is_none());
}

#[test]
fn new_dependency_uses_latest_without_caret() {
    let p = RegistryPackage { name: s("rand"), versions: vec![s("0.8.5")], latest_stable: Some(s("0.8.5")) };
    let d = new_dependency("rand", &p).unwrap();
    assert_eq!(d.name(), "rand");
    assert!(matches!(d.raw_toml_value(), RawToml::String(t) if t == "0.8.5"));
    let v = d.version().as_ref().unwrap();
    assert_eq!((v.major, v.minor, v.patch), (0, 8, 5));
    let pre = RegistryPackage { name: s("r"), versions: vec![], latest_stable: Some(s("1.2.3-beta.1")) };
    let d = new_dependency("r", &pre).unwrap();
    assert!(matches!(d.raw_toml_value(), RawToml::String(t) if t == "1.2.3-beta.1"));
    let none = RegistryPackage { name: s("q"), versions: vec![], latest_stable: None };
    assert_eq!(new_dependency("q", &none).err().unwrap().kind, ReconcileErrorKind::NoStableVersion);
    let bad = RegistryPackage { name: s("b"), versions: vec![], latest_stable: Some(s("what?")) };
    assert_eq!(new_dependency("b", &bad).err().unwrap().kind, ReconcileErrorKind::MalformedRegistryVersion);
}
