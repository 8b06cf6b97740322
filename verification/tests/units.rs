use cargo_compile::error::{CompileError, Failure};
use cargo_compile::filter::{CompileFilter, FilterRule};
use cargo_compile::generate::generate_targets;
use cargo_compile::mode::{CompileMode, Kind, ProfileFor};
use cargo_compile::package::{Package, PackageId, Workspace};
use cargo_compile::resolve::{Resolve, ResolveNode};
use cargo_compile::target::{Target, TargetKind};
use cargo_compile::units::Unit;

fn strings(list: &[&str]) -> Vec<String> {
    list.iter().map(|s| s.to_string()).collect()
}

fn id(name: &str) -> PackageId {
    PackageId {
        name: name.to_string(),
        version: "1.0.0".to_string(),
        source: "path".to_string(),
    }
}

fn target(name: &str, kind: TargetKind) -> Target {
    Target {
        name: name.to_string(),
        kind,
        tested: kind != TargetKind::CustomBuild && kind != TargetKind::Bench,
        benched: kind == TargetKind::Lib || kind == TargetKind::Bench,
        documented: true,
        doctested: kind == TargetKind::Lib,
        for_host: false,
        required_features: None,
    }
}

fn needing(target: Target, features: &[&str]) -> Target {
    Target {
        required_features: Some(strings(features)),
        ..target
    }
}

fn package(name: &str, targets: Vec<Target>) -> Package {
    Package {
        package_id: id(name),
        manifest_path: format!("/{}/Cargo.toml", name),
        warnings: Vec::new(),
        targets,
    }
}

fn workspace(members: Vec<Package>) -> Workspace {
    Workspace {
        root: "/Cargo.toml".to_string(),
        is_virtual: false,
        require_optional_deps: false,
        members,
        default_members: Vec::new(),
        current: Err(Failure {
            reason: "none".to_string(),
            causes: Vec::new(),
        }),
    }
}

fn resolve() -> Resolve {
    Resolve {
        nodes: vec![
            ResolveNode {
                package_id: id("app"),
                features: strings(&["on"]),
                deps: vec![id("dep")],
            },
            ResolveNode {
                package_id: id("dep"),
                features: strings(&["fast"]),
                deps: Vec::new(),
            },
        ],
    }
}

fn default_filter() -> CompileFilter {
    CompileFilter::Default {
        required_features_filterable: true,
    }
}

fn none() -> FilterRule {
    FilterRule::Just(Vec::new())
}

fn just(names: &[&str]) -> FilterRule {
    FilterRule::Just(strings(names))
}

fn only(
    lib: bool,
    bins: FilterRule,
    examples: FilterRule,
    tests: FilterRule,
    benches: FilterRule,
) -> CompileFilter {
    CompileFilter::Only {
        all_targets: false,
        lib,
        bins,
        examples,
        tests,
        benches,
    }
}

fn all_targets() -> CompileFilter {
    CompileFilter::Only {
        all_targets: true,
        lib: true,
        bins: FilterRule::All,
        examples: FilterRule::All,
        tests: FilterRule::All,
        benches: FilterRule::All,
    }
}

fn generate<'a>(
    pkg: &'a Package,
    filter: &CompileFilter,
    mode: CompileMode,
) -> Result<Vec<Unit<'a>>, CompileError> {
    let ws = workspace(Vec::new());
    generate_targets(&ws, &[pkg], filter, Kind::Target, mode, &resolve(), false)
}

fn shape(units: &[Unit]) -> Vec<(String, TargetKind, CompileMode)> {
    units
        .iter()
        .map(|u| (u.target.name.clone(), u.target.kind, u.mode))
        .collect()
}

fn entry(name: &str, kind: TargetKind, mode: CompileMode) -> (String, TargetKind, CompileMode) {
    (name.to_string(), kind, mode)
}

fn app() -> Package {
    package(
        "app",
        vec![
            target("app", TargetKind::Lib),
            target("app", TargetKind::Bin),
            target("demo", TargetKind::ExampleBin),
            target("it", TargetKind::Test),
            target("speed", TargetKind::Bench),
            target("build-script", TargetKind::CustomBuild),
        ],
    )
}

#[test]
fn a_plain_build_takes_lib_and_bins() {
    let pkg = app();
    let units = generate(&pkg, &default_filter(), CompileMode::Build).unwrap();
    assert_eq!(
        shape(&units),
        [
            entry("app", TargetKind::Lib, CompileMode::Build),
            entry("app", TargetKind::Bin, CompileMode::Build),
        ]
    );
}

#[test]
fn a_plain_test_adds_the_lib_and_the_binaries() {
    let pkg = app();
    let units = generate(&pkg, &default_filter(), CompileMode::Test).unwrap();
    assert_eq!(
        shape(&units),
        [
            entry("app", TargetKind::Lib, CompileMode::Test),
            entry("app", TargetKind::Bin, CompileMode::Test),
            entry("demo", TargetKind::ExampleBin, CompileMode::Build),
            entry("it", TargetKind::Test, CompileMode::Test),
            // for doctests
            entry("app", TargetKind::Lib, CompileMode::Build),
            // for the integration test
            entry("app", TargetKind::Bin, CompileMode::Build),
        ]
    );
}

#[test]
fn no_integration_tests_need_no_binaries() {
    let pkg = package(
        "app",
        vec![target("app", TargetKind::Bin), target("tool", TargetKind::Bin)],
    );
    let units = generate(&pkg, &default_filter(), CompileMode::Test).unwrap();
    assert_eq!(units.len(), 2);
    assert!(units.iter().all(|u| u.mode == CompileMode::Test));
}

#[test]
fn benchmarks_become_tests_after_their_profile_is_known() {
    let pkg = app();
    let units = generate(&pkg, &default_filter(), CompileMode::Bench).unwrap();
    assert_eq!(
        shape(&units),
        [
            entry("app", TargetKind::Lib, CompileMode::Test),
            entry("speed", TargetKind::Bench, CompileMode::Test),
            entry("app", TargetKind::Bin, CompileMode::Build),
        ]
    );
    assert_eq!(units[0].profile.mode, CompileMode::Bench);
    assert_eq!(units[1].profile.mode, CompileMode::Bench);
    assert_eq!(units[2].profile.mode, CompileMode::Build);
}

#[test]
fn a_check_adds_no_binaries() {
    let pkg = app();
    let filter = only(false, none(), none(), just(&["it"]), just(&["speed"]));
    let units = generate(&pkg, &filter, CompileMode::Check { test: false }).unwrap();
    assert_eq!(
        shape(&units),
        [
            entry("it", TargetKind::Test, CompileMode::Check { test: true }),
            entry("speed", TargetKind::Bench, CompileMode::Check { test: true }),
        ]
    );
}

#[test]
fn a_build_of_a_named_test_tests_it() {
    let pkg = app();
    let filter = only(false, none(), none(), just(&["it"]), just(&["speed"]));
    let units = generate(&pkg, &filter, CompileMode::Build).unwrap();
    assert_eq!(
        shape(&units),
        [
            entry("it", TargetKind::Test, CompileMode::Test),
            entry("speed", TargetKind::Bench, CompileMode::Test),
            entry("app", TargetKind::Bin, CompileMode::Build),
        ]
    );
    assert_eq!(units[0].profile.mode, CompileMode::Test);
    assert_eq!(units[1].profile.mode, CompileMode::Bench);
}

#[test]
fn kinds_come_in_order() {
    let pkg = app();
    let filter = only(
        true,
        just(&["app"]),
        FilterRule::All,
        FilterRule::All,
        FilterRule::All,
    );
    let units = generate(&pkg, &filter, CompileMode::Build).unwrap();
    assert_eq!(
        shape(&units),
        [
            entry("app", TargetKind::Lib, CompileMode::Build),
            entry("app", TargetKind::Bin, CompileMode::Build),
            entry("demo", TargetKind::ExampleBin, CompileMode::Build),
            // all that a test run takes
            entry("app", TargetKind::Lib, CompileMode::Test),
            entry("app", TargetKind::Bin, CompileMode::Test),
            entry("demo", TargetKind::ExampleBin, CompileMode::Build),
            entry("it", TargetKind::Test, CompileMode::Test),
            // all that a benchmark run takes
            entry("app", TargetKind::Lib, CompileMode::Test),
            entry("speed", TargetKind::Bench, CompileMode::Test),
            entry("app", TargetKind::Bin, CompileMode::Build),
        ]
    );
}

#[test]
fn a_missing_lib_is_refused_unless_all_targets_are_asked_for() {
    let pkg = package("app", vec![target("app", TargetKind::Bin)]);
    let filter = only(true, none(), none(), none(), none());
    let error = generate(&pkg, &filter, CompileMode::Build).unwrap_err();
    assert_eq!(error, CompileError::NoLibrary);
    assert_eq!(error.message(), "no library targets found");
    let units = generate(&pkg, &all_targets(), CompileMode::Build).unwrap();
    assert_eq!(
        shape(&units),
        [
            entry("app", TargetKind::Bin, CompileMode::Build),
            entry("app", TargetKind::Bin, CompileMode::Test),
        ]
    );
}

#[test]
fn host_targets_are_built_for_the_host() {
    let mut pkg = app();
    pkg.targets[0].for_host = true;
    let units = generate(&pkg, &default_filter(), CompileMode::Build).unwrap();
    assert_eq!(units[0].kind, Kind::Host);
    assert_eq!(units[1].kind, Kind::Target);
}

#[test]
fn profiles_are_looked_up_by_package_and_purpose() {
    let pkg = app();
    let ws = workspace(vec![app()]);
    let no_ws = workspace(Vec::new());
    let resolve = resolve();
    let tested = generate_targets(
        &ws,
        &[&pkg],
        &default_filter(),
        Kind::Host,
        CompileMode::Test,
        &resolve,
        true,
    )
    .unwrap();
    for unit in &tested {
        assert_eq!(unit.profile.profile_for, ProfileFor::TestDependency);
        assert_eq!(unit.profile.pkg_name, "app");
        assert!(unit.profile.is_member);
        assert!(unit.profile.release);
    }
    let built = generate_targets(
        &no_ws,
        &[&pkg],
        &default_filter(),
        Kind::Host,
        CompileMode::Build,
        &resolve,
        false,
    )
    .unwrap();
    for unit in &built {
        assert_eq!(unit.profile.profile_for, ProfileFor::Any);
        assert!(!unit.profile.is_member);
        assert!(!unit.profile.release);
    }
}

#[test]
fn targets_without_their_features_are_skipped() {
    let pkg = package(
        "app",
        vec![
            needing(target("lib", TargetKind::Lib), &["off"]),
            needing(target("own", TargetKind::Bin), &["on"]),
            needing(target("dep", TargetKind::Bin), &["dep/fast", "on"]),
            needing(target("bare", TargetKind::Bin), &["fast"]),
            needing(target("off", TargetKind::Bin), &["on", "off"]),
        ],
    );
    let units = generate(&pkg, &default_filter(), CompileMode::Build).unwrap();
    let names: Vec<&str> = units.iter().map(|u| u.target.name.as_str()).collect();
    assert_eq!(names, ["lib", "own", "dep"]);
    let all = only(false, FilterRule::All, none(), none(), none());
    let units = generate(&pkg, &all, CompileMode::Build).unwrap();
    assert_eq!(units.len(), 2);
}

#[test]
fn a_named_target_without_its_features_is_refused() {
    let pkg = package(
        "app",
        vec![needing(target("off", TargetKind::Bin), &["on", "off", "dep/slow"])],
    );
    let filter = only(false, just(&["off"]), none(), none(), none());
    let error = generate(&pkg, &filter, CompileMode::Build).unwrap_err();
    assert_eq!(
        error.message(),
        "target `off` requires the features: `on`, `off`, `dep/slow`\n\
         Consider enabling them by passing e.g. `--features=\"on off dep/slow\"`"
    );
}

#[test]
fn default_targets_can_be_required_too() {
    let pkg = package("app", vec![needing(target("off", TargetKind::Bin), &["off"])]);
    let filter = CompileFilter::Default {
        required_features_filterable: false,
    };
    let error = generate(&pkg, &filter, CompileMode::Build).unwrap_err();
    assert_eq!(
        error,
        CompileError::FeaturesRequired {
            target: "off".to_string(),
            features: strings(&["off"]),
        }
    );
}

#[test]
fn binaries_for_tests_may_lack_features() {
    let pkg = package(
        "app",
        vec![
            needing(target("off", TargetKind::Bin), &["off"]),
            target("on", TargetKind::Bin),
            target("it", TargetKind::Test),
        ],
    );
    let filter = only(false, none(), none(), just(&["it"]), none());
    let units = generate(&pkg, &filter, CompileMode::Test).unwrap();
    assert_eq!(
        shape(&units),
        [
            entry("it", TargetKind::Test, CompileMode::Test),
            entry("on", TargetKind::Bin, CompileMode::Build),
        ]
    );
}

#[test]
fn packages_come_in_order_and_the_first_refusal_counts() {
    let a = app();
    let b = package("b", vec![target("b", TargetKind::Lib)]);
    let ws = workspace(Vec::new());
    let resolve = resolve();
    let units = generate_targets(
        &ws,
        &[&b, &a],
        &default_filter(),
        Kind::Host,
        CompileMode::Build,
        &resolve,
        false,
    )
    .unwrap();
    let names: Vec<&str> = units
        .iter()
        .map(|u| u.pkg.package_id.name.as_str())
        .collect();
    assert_eq!(names, ["b", "app", "app"]);

    let filter = only(false, just(&["app"]), just(&["dmo"]), none(), none());
    let error = generate_targets(
        &ws,
        &[&a, &b],
        &filter,
        Kind::Host,
        CompileMode::Build,
        &resolve,
        false,
    )
    .unwrap_err();
    assert_eq!(
        error.message(),
        "no example target named `dmo`\n\nDid you mean `demo`?"
    );
    let error = generate_targets(
        &ws,
        &[&b, &a],
        &filter,
        Kind::Host,
        CompileMode::Build,
        &resolve,
        false,
    )
    .unwrap_err();
    assert_eq!(error.message(), "no bin target named `app`");
}

#[test]
fn no_packages_give_no_units() {
    let ws = workspace(Vec::new());
    let units = generate_targets(
        &ws,
        &[],
        &default_filter(),
        Kind::Host,
        CompileMode::RunCustomBuild,
        &resolve(),
        false,
    )
    .unwrap();
    assert!(units.is_empty());
}

#[test]
fn dev_deps_are_needed_by_tests_and_examples() {
    let pkg = app();
    let filter = only(true, FilterRule::All, none(), none(), none());
    assert!(!filter.need_dev_deps(CompileMode::Build));
    let units = generate(&pkg, &filter, CompileMode::Build).unwrap();
    assert!(units.iter().all(|u| u.mode == CompileMode::Build));
    assert!(units.iter().all(|u| u.target.is_lib() || u.target.is_bin()));
    let filter = only(false, none(), FilterRule::All, none(), none());
    assert!(filter.need_dev_deps(CompileMode::Build));
    let units = generate(&pkg, &filter, CompileMode::Build).unwrap();
    assert!(units[0].target.is_example());
}

#[test]
fn all_targets_of_a_kind_are_built() {
    let pkg = package(
        "app",
        vec![
            target("a", TargetKind::Bin),
            needing(target("b", TargetKind::Bin), &["off"]),
            target("c", TargetKind::Bin),
        ],
    );
    let filter = only(false, FilterRule::All, none(), none(), none());
    let units = generate(&pkg, &filter, CompileMode::Doc { deps: true }).unwrap();
    assert_eq!(
        shape(&units),
        [
            entry("a", TargetKind::Bin, CompileMode::Doc { deps: true }),
            entry("c", TargetKind::Bin, CompileMode::Doc { deps: true }),
        ]
    );
}
