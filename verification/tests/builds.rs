use cargo_compile::error::{CompileError, Failure};
use cargo_compile::filter::CompileFilter;
use cargo_compile::manifests::check_manifests;
use cargo_compile::mode::{CompileMode, Kind, MessageFormat};
use cargo_compile::options::{BuildFlags, CompileOptions};
use cargo_compile::package::{Package, PackageId, PackageIdSpec, Warning, Workspace};
use cargo_compile::packages::Packages;
use cargo_compile::resolve::Resolve;
use cargo_compile::session::{advance, begin, Action, Event, State, TargetPath};
use cargo_compile::target::{Target, TargetKind};
use std::path::PathBuf;

fn strings(list: &[&str]) -> Vec<String> {
    list.iter().map(|s| s.to_string()).collect()
}

fn id(name: &str) -> PackageId {
    PackageId {
        name: name.to_string(),
        version: "1.0.0".to_string(),
        source: "path".to_string(),
    }
}

fn spec(name: &str) -> PackageIdSpec {
    PackageIdSpec {
        name: name.to_string(),
        version: Some("1.0.0".to_string()),
        url: Some("path".to_string()),
    }
}

fn lib(name: &str) -> Target {
    Target {
        name: name.to_string(),
        kind: TargetKind::Lib,
        tested: true,
        benched: true,
        documented: true,
        doctested: true,
        for_host: false,
        required_features: None,
    }
}

fn warned(name: &str, warnings: &[(&str, bool)]) -> Package {
    Package {
        package_id: id(name),
        manifest_path: format!("/{}/Cargo.toml", name),
        warnings: warnings
            .iter()
            .map(|(message, is_critical)| Warning {
                message: message.to_string(),
                is_critical: *is_critical,
            })
            .collect(),
        targets: vec![lib(name)],
    }
}

fn workspace() -> Workspace {
    Workspace {
        root: "/Cargo.toml".to_string(),
        is_virtual: false,
        require_optional_deps: false,
        members: vec![warned("app", &[])],
        default_members: vec![id("app")],
        current: Ok(id("app")),
    }
}

fn failed(reason: &str, causes: &[&str]) -> Failure {
    Failure {
        reason: reason.to_string(),
        causes: strings(causes),
    }
}

fn empty_resolve() -> Resolve {
    Resolve { nodes: Vec::new() }
}

fn failure(step: (State, Action)) -> CompileError {
    assert!(matches!(step.0, State::Finished));
    match step.1 {
        Action::Fail(error) => error,
        other => panic!("the build goes on with {:?}", other),
    }
}

#[test]
fn default_options_ask_for_the_current_package() {
    let options = CompileOptions::default(&7u8, CompileMode::Doctest);
    assert_eq!(*options.config, 7);
    assert_eq!(options.jobs, None);
    assert_eq!(options.target, None);
    assert!(options.features.is_empty());
    assert!(!options.all_features && !options.no_default_features && !options.release);
    assert_eq!(options.spec, Packages::Packages(Vec::new()));
    assert!(matches!(
        options.filter,
        CompileFilter::Default {
            required_features_filterable: false
        }
    ));
    assert_eq!(options.mode, CompileMode::Doctest);
    assert_eq!(options.message_format, MessageFormat::Human);
    assert_eq!(options.target_rustdoc_args, None);
    assert_eq!(options.target_rustc_args, None);
    assert_eq!(options.export_dir, None);
}

#[test]
fn rustc_args_go_before_rustdoc_args() {
    let mut options = CompileOptions::default(&(), CompileMode::Build);
    assert_eq!(options.extra_args(), None);
    options.target_rustdoc_args = Some(strings(&["d"]));
    assert_eq!(options.extra_args(), Some(("rustdoc", &strings(&["d"]))));
    options.target_rustc_args = Some(strings(&["c"]));
    assert_eq!(options.extra_args(), Some(("rustc", &strings(&["c"]))));
}

#[test]
fn resolution_follows_from_the_options() {
    let mut ws = workspace();
    let mut options = CompileOptions::default(&(), CompileMode::Build);
    options.features = strings(&["a b", "c"]);
    options.no_default_features = true;
    let method = options.resolve_method(&ws);
    assert!(!method.dev_deps && !method.all_features && !method.uses_default_features);
    assert_eq!(*method.features, ["a b", "c"]);
    options.mode = CompileMode::Test;
    assert!(options.resolve_method(&ws).dev_deps);
    options.mode = CompileMode::RunCustomBuild;
    options.all_features = true;
    options.no_default_features = false;
    ws.require_optional_deps = true;
    let method = options.resolve_method(&ws);
    assert!(method.dev_deps && method.all_features && method.uses_default_features);
}

#[test]
fn flags_follow_from_the_options() {
    let mut options = CompileOptions::default(&(), CompileMode::Bench);
    options.release = true;
    options.message_format = MessageFormat::Json;
    assert_eq!(
        options.build_flags(),
        BuildFlags {
            release: true,
            test: true,
            json_messages: true
        }
    );
    let options = CompileOptions::default(&(), CompileMode::Check { test: true });
    assert_eq!(
        options.build_flags(),
        BuildFlags {
            release: false,
            test: false,
            json_messages: false
        }
    );
}

#[test]
fn warnings_are_reported_up_to_a_critical_one() {
    let members = vec![
        warned("a", &[("one", false), ("two", false)]),
        warned("b", &[]),
        warned("c", &[("three", false), ("bad", true), ("four", false)]),
        warned("d", &[("worse", true)]),
    ];
    let report = check_manifests(&members);
    assert_eq!(report.warnings, ["one", "two", "three"]);
    let error = report.failure.unwrap();
    assert_eq!(error.message(), "failed to parse manifest at `/c/Cargo.toml`");
    assert_eq!(error.causes(), ["bad"]);
}

#[test]
fn harmless_warnings_refuse_nothing() {
    let report = check_manifests(&vec![warned("a", &[("one", false)]), warned("b", &[])]);
    assert_eq!(report.warnings, ["one"]);
    assert_eq!(report.failure, None);
}

#[test]
fn a_build_runs_through_all_its_steps() {
    let ws = workspace();
    let pkg = warned("app", &[]);
    let mut options = CompileOptions::default(&(), CompileMode::Build);
    options.target = Some("board.json".to_string());
    options.jobs = Some(4);
    options.spec = Packages::Packages(strings(&["app"]));
    options.target_rustc_args = Some(strings(&["-v"]));
    options.export_dir = Some(PathBuf::from("/out"));

    let (state, action) = begin(&options);
    assert!(matches!(action, Action::CanonicalizeTarget(t) if t == "board.json"));

    let found = TargetPath::Found("/abs/board.json".to_string());
    let (state, action) = advance(&ws, &options, state, Event::TargetPath(found));
    match action {
        Action::LoadBuildConfig { jobs, target, flags } => {
            assert_eq!(jobs, Some(4));
            assert_eq!(target, Some("/abs/board.json".to_string()));
            assert_eq!(flags, options.build_flags());
        }
        other => panic!("{:?}", other),
    }

    let config = Event::BuildConfig {
        requested_target: Some("/abs/board.json".to_string()),
    };
    let (state, action) = advance(&ws, &options, state, config);
    assert!(matches!(action, Action::ParseSpecs(specs) if *specs == ["app"]));

    let (state, action) = advance(&ws, &options, state, Event::Specs(vec![Ok(spec("app"))]));
    match action {
        Action::Resolve { specs, method } => {
            assert_eq!(specs, [spec("app")]);
            assert!(method.uses_default_features && !method.dev_deps);
        }
        other => panic!("{:?}", other),
    }

    let resolved = Event::Resolved {
        resolve: empty_resolve(),
        package_ids: vec![id("app"), id("dep"), id("dep")],
    };
    let (state, action) = advance(&ws, &options, state, resolved);
    assert!(matches!(action, Action::FetchPackages { specs } if specs == [spec("app")]));

    let (state, action) = advance(&ws, &options, state, Event::Packages(vec![&pkg]));
    match action {
        Action::ValidateProfiles { package_names } => {
            assert_eq!(package_names.items().len(), 2);
            assert!(package_names.contains(&"app".to_string()));
            assert!(package_names.contains(&"dep".to_string()));
        }
        other => panic!("{:?}", other),
    }

    let (state, action) = advance(&ws, &options, state, Event::Validated);
    match action {
        Action::Build {
            units,
            extra_args,
            export_dir,
        } => {
            assert_eq!(units.len(), 1);
            assert_eq!(units[0].kind, Kind::Target);
            assert_eq!(units[0].target, &pkg.targets[0]);
            assert_eq!(extra_args, Some((units[0], &strings(&["-v"]))));
            assert_eq!(*export_dir, Some(PathBuf::from("/out")));
        }
        other => panic!("{:?}", other),
    }

    let (state, action) = advance(&ws, &options, state, Event::Built);
    assert!(matches!(state, State::Finished));
    assert!(matches!(action, Action::Done { to_doc_test } if to_doc_test == [&pkg]));
}

#[test]
fn a_build_of_members_reads_no_specs() {
    let ws = workspace();
    let mut options = CompileOptions::default(&(), CompileMode::Build);
    options.spec = Packages::All;
    options.target = Some("i686-unknown-linux-gnu".to_string());
    let (state, action) = begin(&options);
    match action {
        Action::LoadBuildConfig { target, .. } => {
            assert_eq!(target, Some("i686-unknown-linux-gnu".to_string()));
        }
        other => panic!("{:?}", other),
    }
    let config = Event::BuildConfig {
        requested_target: None,
    };
    let (state, action) = advance(&ws, &options, state, config);
    assert!(matches!(action, Action::Resolve { specs, .. } if specs == [spec("app")]));
    assert!(matches!(
        state,
        State::Resolve {
            kind: Kind::Host,
            ..
        }
    ));
}

#[test]
fn a_build_with_no_jobs_is_refused() {
    let ws = workspace();
    let mut options = CompileOptions::default(&(), CompileMode::Build);
    options.jobs = Some(0);
    let error = failure(begin(&options));
    assert_eq!(error, CompileError::NoJobs);
    assert_eq!(error.message(), "jobs must be at least 1");

    options.target = Some("board.json".to_string());
    let (state, action) = begin(&options);
    assert!(matches!(action, Action::CanonicalizeTarget(_)));
    let found = TargetPath::Found("/abs/board.json".to_string());
    let error = failure(advance(&ws, &options, state, Event::TargetPath(found)));
    assert_eq!(error, CompileError::NoJobs);
}

#[test]
fn a_target_file_must_be_there() {
    let ws = workspace();
    let mut options = CompileOptions::default(&(), CompileMode::Build);
    options.target = Some("a \"b\".json".to_string());
    let lost = TargetPath::Invalid(failed("not found", &["no disk", "no power"]));
    let step = advance(&ws, &options, begin(&options).0, Event::TargetPath(lost));
    let error = failure(step);
    assert_eq!(
        error.message(),
        "Target path \"a \\\"b\\\".json\" is not a valid file"
    );
    assert_eq!(error.causes(), ["not found", "no disk", "no power"]);

    let step = advance(
        &ws,
        &options,
        begin(&options).0,
        Event::TargetPath(TargetPath::NotUnicode),
    );
    assert_eq!(failure(step).message(), "Target path is not valid unicode");
}

#[test]
fn an_empty_selection_is_refused() {
    let mut ws = workspace();
    ws.default_members = Vec::new();
    let mut options = CompileOptions::default(&(), CompileMode::Build);
    options.spec = Packages::Default;
    let config = Event::BuildConfig {
        requested_target: None,
    };
    let error = failure(advance(&ws, &options, begin(&options).0, config));
    assert_eq!(error, CompileError::NoPackages);
}

#[test]
fn a_failure_elsewhere_is_passed_on() {
    let ws = workspace();
    let options = CompileOptions::default(&(), CompileMode::Build);
    let event = Event::Failed(failed("no registry", &["no network", "no cable"]));
    let error = failure(advance(&ws, &options, begin(&options).0, event));
    assert_eq!(error.message(), "no registry");
    assert_eq!(error.causes(), ["no network", "no cable"]);
}

#[test]
fn extra_arguments_need_one_unit() {
    let ws = workspace();
    let mut pkg = warned("app", &[]);
    pkg.targets.push(Target {
        kind: TargetKind::Bin,
        ..lib("tool")
    });
    let mut options = CompileOptions::default(&(), CompileMode::Build);
    options.target_rustdoc_args = Some(strings(&["--open"]));
    let state = State::Profiles {
        kind: Kind::Host,
        resolve: empty_resolve(),
        packages: vec![&pkg],
    };
    let error = failure(advance(&ws, &options, state, Event::Validated));
    assert_eq!(
        error.message(),
        "extra arguments to `rustdoc` can only be passed to one target, consider filtering\n\
         the package by passing e.g. `--lib` or `--bin NAME` to specify a single target"
    );
}

#[test]
fn units_that_cannot_be_told_refuse_the_build() {
    let ws = workspace();
    let pkg = warned("app", &[]);
    let mut options = CompileOptions::default(&(), CompileMode::Build);
    options.filter = CompileFilter::new(
        false,
        strings(&["tool"]),
        false,
        Vec::new(),
        false,
        Vec::new(),
        false,
        Vec::new(),
        false,
        false,
    );
    let state = State::Profiles {
        kind: Kind::Host,
        resolve: empty_resolve(),
        packages: vec![&pkg],
    };
    let error = failure(advance(&ws, &options, state, Event::Validated));
    assert_eq!(error.message(), "no bin target named `tool`");
}

#[test]
fn what_is_done_is_what_was_selected() {
    let mut ws = workspace();
    ws.members.push(warned("b", &[]));
    let (a, b) = (warned("app", &[]), warned("b", &[]));
    let mut options = CompileOptions::default(&(), CompileMode::Build);
    options.spec = Packages::All;
    let config = Event::BuildConfig {
        requested_target: None,
    };
    let (state, action) = advance(&ws, &options, begin(&options).0, config);
    let selected = [spec("app"), spec("b")];
    assert!(matches!(action, Action::Resolve { specs, .. } if specs == selected));
    let resolved = Event::Resolved {
        resolve: empty_resolve(),
        package_ids: Vec::new(),
    };
    let (state, action) = advance(&ws, &options, state, resolved);
    assert!(matches!(action, Action::FetchPackages { specs } if specs == selected));
    let (state, _) = advance(&ws, &options, state, Event::Packages(vec![&a, &b]));
    let (state, _) = advance(&ws, &options, state, Event::Validated);
    let (_, action) = advance(&ws, &options, state, Event::Built);
    assert!(matches!(action, Action::Done { to_doc_test } if to_doc_test == [&a, &b]));
}
