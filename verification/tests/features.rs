use cargo_compile::package::PackageId;
use cargo_compile::resolve::{resolve_all_features, Resolve, ResolveNode};
use cargo_compile::text::{ends_with, StringSet};

fn strings(list: &[&str]) -> Vec<String> {
    list.iter().map(|s| s.to_string()).collect()
}

fn id(name: &str) -> PackageId {
    PackageId {
        name: name.to_string(),
        version: "1.0.0".to_string(),
        source: "registry".to_string(),
    }
}

fn node(name: &str, features: &[&str], deps: &[&str]) -> ResolveNode {
    ResolveNode {
        package_id: id(name),
        features: strings(features),
        deps: deps.iter().map(|d| id(d)).collect(),
    }
}

#[test]
fn features_of_dependencies_are_behind_their_names() {
    let resolve = Resolve {
        nodes: vec![
            node("app", &["default", "tls"], &["net", "log", "gone"]),
            node("net", &["tls", "async"], &["deep"]),
            node("log", &[], &[]),
            node("deep", &["hidden"], &[]),
        ],
    };
    let features = resolve_all_features(&resolve, &id("app"));
    let mut items = features.items().clone();
    items.sort();
    assert_eq!(items, ["default", "net/async", "net/tls", "tls"]);
}

#[test]
fn a_package_outside_the_graph_has_no_features() {
    let resolve = Resolve {
        nodes: vec![node("app", &["default"], &[])],
    };
    let mut other = id("app");
    other.version = "2.0.0".to_string();
    assert!(resolve_all_features(&resolve, &other).items().is_empty());
}

#[test]
fn a_feature_is_listed_once() {
    let resolve = Resolve {
        nodes: vec![
            node("app", &["x", "x", "dep/y"], &["dep", "dep"]),
            node("dep", &["y"], &[]),
        ],
    };
    let features = resolve_all_features(&resolve, &id("app"));
    assert_eq!(features.items().len(), 2);
    assert!(features.contains(&"dep/y".to_string()));
}

#[test]
fn sets_hold_what_was_put_in() {
    let mut set = StringSet::new();
    assert!(set.items().is_empty());
    assert!(set.insert("a".to_string()));
    assert!(!set.insert("a".to_string()));
    set.extend(&strings(&["b", "a", "c", "b"]));
    let mut items = set.items().clone();
    items.sort();
    assert_eq!(items, ["a", "b", "c"]);
    assert!(set.contains(&"c".to_string()));
    assert!(!set.contains(&"d".to_string()));
}

#[test]
fn suffixes_are_told() {
    assert!(ends_with("target.json", ".json"));
    assert!(ends_with(".json", ".json"));
    assert!(!ends_with("json", ".json"));
    assert!(!ends_with("target.jsonx", ".json"));
    assert!(ends_with("anything", ""));
}
