use cargo_compile::filter::{CompileFilter, FilterRule};
use cargo_compile::mode::CompileMode;
use cargo_compile::target::{Target, TargetKind};

fn strings(list: &[&str]) -> Vec<String> {
    list.iter().map(|s| s.to_string()).collect()
}

fn target(name: &str, kind: TargetKind) -> Target {
    Target {
        name: name.to_string(),
        kind,
        tested: false,
        benched: false,
        documented: false,
        doctested: false,
        for_host: false,
        required_features: None,
    }
}

fn only(bins: &[&str], examples: &[&str], tests: &[&str], benches: &[&str]) -> CompileFilter {
    CompileFilter::new(
        false,
        strings(bins),
        false,
        strings(tests),
        false,
        strings(examples),
        false,
        strings(benches),
        false,
        false,
    )
}

fn flagged(lib: bool, bins: bool, tests: bool, examples: bool, benches: bool, all: bool) -> CompileFilter {
    CompileFilter::new(
        lib,
        Vec::new(),
        bins,
        Vec::new(),
        tests,
        Vec::new(),
        examples,
        Vec::new(),
        benches,
        all,
    )
}

#[test]
fn rules_are_made_and_read_back() {
    let rule = FilterRule::new(strings(&["a", "b"]), false);
    assert_eq!(rule.try_collect(), Some(strings(&["a", "b"])));
    assert!(rule.is_specific());
    assert!(rule.matches(&target("b", TargetKind::Bin)));
    assert!(!rule.matches(&target("c", TargetKind::Bin)));

    let all = FilterRule::new(strings(&["a"]), true);
    assert_eq!(all.try_collect(), None);
    assert!(all.is_specific());
    assert!(all.matches(&target("c", TargetKind::Bin)));

    let none = FilterRule::new(Vec::new(), false);
    assert_eq!(none.try_collect(), Some(Vec::new()));
    assert!(!none.is_specific());
    assert!(!none.matches(&target("c", TargetKind::Bin)));
}

#[test]
fn no_flags_make_the_default_filter() {
    let filter = flagged(false, false, false, false, false, false);
    assert!(!filter.is_specific());
    assert!(matches!(
        filter,
        CompileFilter::Default {
            required_features_filterable: true
        }
    ));
}

#[test]
fn any_flag_makes_a_specific_filter() {
    assert!(flagged(true, false, false, false, false, false).is_specific());
    assert!(flagged(false, true, false, false, false, false).is_specific());
    assert!(flagged(false, false, true, false, false, false).is_specific());
    assert!(flagged(false, false, false, true, false, false).is_specific());
    assert!(flagged(false, false, false, false, true, false).is_specific());
    assert!(flagged(false, false, false, false, false, true).is_specific());
    assert!(only(&["a"], &[], &[], &[]).is_specific());
    assert!(only(&[], &["a"], &[], &[]).is_specific());
    assert!(only(&[], &[], &["a"], &[]).is_specific());
    assert!(only(&[], &[], &[], &["a"]).is_specific());
}

#[test]
fn names_go_to_the_rule_of_their_kind() {
    let filter = CompileFilter::new(
        true,
        strings(&["b"]),
        false,
        strings(&["t"]),
        false,
        strings(&["e"]),
        false,
        strings(&["n"]),
        false,
        false,
    );
    match filter {
        CompileFilter::Only {
            all_targets,
            lib,
            bins,
            examples,
            tests,
            benches,
        } => {
            assert!(!all_targets);
            assert!(lib);
            assert_eq!(bins.try_collect(), Some(strings(&["b"])));
            assert_eq!(examples.try_collect(), Some(strings(&["e"])));
            assert_eq!(tests.try_collect(), Some(strings(&["t"])));
            assert_eq!(benches.try_collect(), Some(strings(&["n"])));
        }
        CompileFilter::Default { .. } => panic!("a filter for names is not the default one"),
    }
}

#[test]
fn all_targets_overrides_names() {
    let filter = CompileFilter::new(
        false,
        strings(&["b"]),
        false,
        Vec::new(),
        false,
        Vec::new(),
        false,
        Vec::new(),
        false,
        true,
    );
    match &filter {
        CompileFilter::Only {
            all_targets,
            lib,
            bins,
            examples,
            tests,
            benches,
        } => {
            assert!(*all_targets && *lib);
            assert_eq!(bins.try_collect(), None);
            assert_eq!(examples.try_collect(), None);
            assert_eq!(tests.try_collect(), None);
            assert_eq!(benches.try_collect(), None);
        }
        CompileFilter::Default { .. } => panic!("all targets are not the default ones"),
    }
    assert!(filter.need_dev_deps(CompileMode::Build));
    assert!(filter.target_run(&target("x", TargetKind::Lib)));
    assert!(filter.target_run(&target("x", TargetKind::ExampleLib)));
    assert!(!filter.target_run(&target("x", TargetKind::CustomBuild)));
}

#[test]
fn tests_need_dev_deps() {
    let default = CompileFilter::Default {
        required_features_filterable: true,
    };
    assert!(default.need_dev_deps(CompileMode::Test));
    assert!(default.need_dev_deps(CompileMode::Doctest));
    assert!(default.need_dev_deps(CompileMode::Bench));
    assert!(!default.need_dev_deps(CompileMode::Build));
    assert!(!default.need_dev_deps(CompileMode::Doc { deps: true }));
    assert!(!default.need_dev_deps(CompileMode::Check { test: true }));
}

#[test]
fn examples_tests_and_benches_need_dev_deps() {
    assert!(!only(&["a"], &[], &[], &[]).need_dev_deps(CompileMode::Build));
    assert!(only(&[], &["a"], &[], &[]).need_dev_deps(CompileMode::Build));
    assert!(only(&[], &[], &["a"], &[]).need_dev_deps(CompileMode::Check { test: false }));
    assert!(only(&[], &[], &[], &["a"]).need_dev_deps(CompileMode::Doc { deps: false }));
}

#[test]
fn run_takes_what_its_rule_asks_for() {
    let filter = only(&["b"], &["e"], &["t"], &["n"]);
    assert!(filter.target_run(&target("b", TargetKind::Bin)));
    assert!(!filter.target_run(&target("e", TargetKind::Bin)));
    assert!(filter.target_run(&target("e", TargetKind::ExampleBin)));
    assert!(filter.target_run(&target("e", TargetKind::ExampleLib)));
    assert!(filter.target_run(&target("t", TargetKind::Test)));
    assert!(filter.target_run(&target("n", TargetKind::Bench)));
    assert!(!filter.target_run(&target("n", TargetKind::Test)));
    assert!(!filter.target_run(&target("b", TargetKind::Lib)));
    assert!(!filter.target_run(&target("b", TargetKind::CustomBuild)));
    let default = CompileFilter::Default {
        required_features_filterable: true,
    };
    assert!(default.target_run(&target("anything", TargetKind::CustomBuild)));
}
