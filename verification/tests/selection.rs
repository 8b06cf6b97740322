use cargo_compile::distance::lev_distance;
use cargo_compile::filter::FilterRule;
use cargo_compile::mode::CompileMode;
use cargo_compile::package::{Package, PackageId};
use cargo_compile::select::{find_target, generate_default_targets, list_rule_targets};
use cargo_compile::target::{Target, TargetKind, TargetPredicate};

fn target(name: &str, kind: TargetKind) -> Target {
    Target {
        name: name.to_string(),
        kind,
        tested: false,
        benched: false,
        documented: false,
        doctested: false,
        for_host: false,
        required_features: None,
    }
}

fn package(targets: Vec<Target>) -> Package {
    Package {
        package_id: PackageId {
            name: "pkg".to_string(),
            version: "1.0.0".to_string(),
            source: "registry".to_string(),
        },
        manifest_path: "/pkg/Cargo.toml".to_string(),
        warnings: Vec::new(),
        targets,
    }
}

fn names(targets: &[&Target]) -> Vec<String> {
    targets.iter().map(|t| t.name.clone()).collect()
}

fn strings(list: &[&str]) -> Vec<String> {
    list.iter().map(|s| s.to_string()).collect()
}

fn some_targets() -> Vec<Target> {
    vec![
        Target {
            documented: true,
            doctested: true,
            tested: true,
            benched: true,
            ..target("pkg", TargetKind::Lib)
        },
        Target {
            documented: true,
            ..target("pkg", TargetKind::Bin)
        },
        Target {
            documented: true,
            tested: true,
            ..target("tool", TargetKind::Bin)
        },
        target("demo", TargetKind::ExampleBin),
        Target {
            tested: true,
            ..target("it", TargetKind::Test)
        },
        Target {
            benched: true,
            ..target("speed", TargetKind::Bench)
        },
        target("build-script", TargetKind::CustomBuild),
    ]
}

#[test]
fn modes_take_their_default_targets() {
    let targets = some_targets();
    let of = |mode| names(&generate_default_targets(&targets, mode));
    assert_eq!(of(CompileMode::Bench), ["pkg", "speed"]);
    assert_eq!(of(CompileMode::Test), ["pkg", "tool", "demo", "it"]);
    assert_eq!(of(CompileMode::Build), ["pkg", "pkg", "tool"]);
    assert_eq!(of(CompileMode::Check { test: true }), ["pkg", "pkg", "tool"]);
    assert_eq!(of(CompileMode::Doctest), ["pkg"]);
}

#[test]
fn doc_skips_a_bin_named_like_the_lib() {
    let targets = some_targets();
    let taken = generate_default_targets(&targets, CompileMode::Doc { deps: false });
    assert_eq!(names(&taken), ["pkg", "tool"]);
    assert_eq!(taken[0].kind, TargetKind::Lib);
}

#[test]
fn doctest_takes_the_first_doctested_lib() {
    let mut targets = some_targets();
    targets[0].doctested = false;
    assert!(generate_default_targets(&targets, CompileMode::Doctest).is_empty());
    targets.push(Target {
        doctested: true,
        ..target("second", TargetKind::Lib)
    });
    targets.push(Target {
        doctested: true,
        ..target("third", TargetKind::Lib)
    });
    let taken = generate_default_targets(&targets, CompileMode::Doctest);
    assert_eq!(names(&taken), ["second"]);
}

#[test]
fn a_named_target_is_found_and_required() {
    let pkg = package(some_targets());
    let (found, required) =
        find_target(&pkg, &"tool".to_string(), "bin", TargetPredicate::Bin).unwrap();
    assert_eq!(found.name, "tool");
    assert!(required);
}

#[test]
fn a_missing_target_brings_a_suggestion() {
    let pkg = package(some_targets());
    let error = find_target(&pkg, &"toll".to_string(), "bin", TargetPredicate::Bin).unwrap_err();
    assert_eq!(
        error.message(),
        "no bin target named `toll`\n\nDid you mean `tool`?"
    );
}

#[test]
fn a_suggestion_is_of_the_kind_asked_for() {
    let pkg = package(some_targets());
    let error =
        find_target(&pkg, &"tool".to_string(), "example", TargetPredicate::Example).unwrap_err();
    assert_eq!(error.message(), "no example target named `tool`");
}

#[test]
fn a_suggestion_is_the_first_of_the_closest() {
    let pkg = package(vec![
        target("abcd", TargetKind::Bin),
        target("abc1", TargetKind::Bin),
        target("abc2", TargetKind::Bin),
    ]);
    let error = find_target(&pkg, &"abc".to_string(), "bin", TargetPredicate::Bin).unwrap_err();
    assert_eq!(
        error.message(),
        "no bin target named `abc`\n\nDid you mean `abcd`?"
    );
    let error = find_target(&pkg, &"xbc2".to_string(), "bin", TargetPredicate::Bin).unwrap_err();
    assert_eq!(
        error.message(),
        "no bin target named `xbc2`\n\nDid you mean `abc2`?"
    );
}

#[test]
fn a_suggestion_is_at_most_three_edits_away() {
    let pkg = package(vec![target("abcdef", TargetKind::Test)]);
    let near = find_target(&pkg, &"abc".to_string(), "test", TargetPredicate::Test).unwrap_err();
    assert_eq!(
        near.message(),
        "no test target named `abc`\n\nDid you mean `abcdef`?"
    );
    let far = find_target(&pkg, &"ab".to_string(), "test", TargetPredicate::Test).unwrap_err();
    assert_eq!(far.message(), "no test target named `ab`");
}

#[test]
fn a_rule_for_all_lists_optional_targets() {
    let pkg = package(some_targets());
    let listed =
        list_rule_targets(&pkg, &FilterRule::All, "bin", TargetPredicate::Bin).unwrap();
    let flags: Vec<(&str, bool)> = listed.iter().map(|(t, r)| (t.name.as_str(), *r)).collect();
    assert_eq!(flags, [("pkg", false), ("tool", false)]);
    let tested =
        list_rule_targets(&pkg, &FilterRule::All, "test", TargetPredicate::Tested).unwrap();
    assert_eq!(tested.len(), 3);
    let benched =
        list_rule_targets(&pkg, &FilterRule::All, "bench", TargetPredicate::Benched).unwrap();
    assert_eq!(benched.len(), 2);
}

#[test]
fn a_rule_for_names_lists_required_targets() {
    let pkg = package(some_targets());
    let rule = FilterRule::Just(strings(&["tool", "pkg", "tool"]));
    let listed = list_rule_targets(&pkg, &rule, "bin", TargetPredicate::Bin).unwrap();
    let flags: Vec<(&str, bool)> = listed.iter().map(|(t, r)| (t.name.as_str(), *r)).collect();
    assert_eq!(flags, [("tool", true), ("pkg", true), ("tool", true)]);
}

#[test]
fn the_first_missing_name_counts() {
    let pkg = package(some_targets());
    let rule = FilterRule::Just(strings(&["it", "nonesuch", "otherwise"]));
    let error = list_rule_targets(&pkg, &rule, "test", TargetPredicate::Test).unwrap_err();
    assert_eq!(error.message(), "no test target named `nonesuch`");
}

#[test]
fn distances_are_edit_distances() {
    assert_eq!(lev_distance("", ""), 0);
    assert_eq!(lev_distance("", "abc"), 3);
    assert_eq!(lev_distance("abc", ""), 3);
    assert_eq!(lev_distance("kitten", "sitting"), 3);
    assert_eq!(lev_distance("sitting", "kitten"), 3);
    assert_eq!(lev_distance("flaw", "lawn"), 2);
    assert_eq!(lev_distance("same", "same"), 0);
    assert_eq!(lev_distance("na\u{ef}ve", "naive"), 1);
}
