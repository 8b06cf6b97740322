use cargo_compile::error::{CompileError, Failure};
use cargo_compile::package::{Package, PackageId, PackageIdSpec, Workspace};
use cargo_compile::packages::Packages;

fn strings(list: &[&str]) -> Vec<String> {
    list.iter().map(|s| s.to_string()).collect()
}

fn failed(reason: &str, causes: &[&str]) -> Failure {
    Failure {
        reason: reason.to_string(),
        causes: strings(causes),
    }
}

fn id(name: &str) -> PackageId {
    PackageId {
        name: name.to_string(),
        version: "0.1.0".to_string(),
        source: format!("file:///{}", name),
    }
}

fn package(name: &str) -> Package {
    Package {
        package_id: id(name),
        manifest_path: format!("/ws/{}/Cargo.toml", name),
        warnings: Vec::new(),
        targets: Vec::new(),
    }
}

fn spec(name: &str) -> PackageIdSpec {
    PackageIdSpec {
        name: name.to_string(),
        version: Some("0.1.0".to_string()),
        url: Some(format!("file:///{}", name)),
    }
}

fn workspace(members: &[&str], defaults: &[&str]) -> Workspace {
    Workspace {
        root: "/ws/Cargo.toml".to_string(),
        is_virtual: false,
        require_optional_deps: false,
        members: members.iter().map(|m| package(m)).collect(),
        default_members: defaults.iter().map(|m| id(m)).collect(),
        current: Ok(id("current")),
    }
}

#[test]
fn flags_select_packages() {
    let none = Vec::new;
    assert_eq!(Packages::from_flags(false, none(), none()), Ok(Packages::Default));
    assert_eq!(
        Packages::from_flags(false, none(), strings(&["a"])),
        Ok(Packages::Packages(strings(&["a"])))
    );
    assert_eq!(Packages::from_flags(true, none(), none()), Ok(Packages::All));
    assert_eq!(Packages::from_flags(true, none(), strings(&["a"])), Ok(Packages::All));
    assert_eq!(
        Packages::from_flags(true, strings(&["b"]), strings(&["a"])),
        Ok(Packages::OptOut(strings(&["b"])))
    );
}

#[test]
fn exclude_needs_all() {
    let error = Packages::from_flags(false, strings(&["b"]), Vec::new()).unwrap_err();
    assert_eq!(error, CompileError::ExcludeWithoutAll);
    assert_eq!(error.message(), "--exclude can only be used together with --all");
    assert!(error.causes().is_empty());
}

#[test]
fn all_members_are_named() {
    let ws = workspace(&["a", "b"], &["b"]);
    let specs = Packages::All.into_package_id_specs(&ws, &Vec::new());
    assert_eq!(specs, Ok(vec![spec("a"), spec("b")]));
}

#[test]
fn default_members_are_named() {
    let ws = workspace(&["a", "b"], &["b"]);
    let specs = Packages::Default.into_package_id_specs(&ws, &Vec::new());
    assert_eq!(specs, Ok(vec![spec("b")]));
}

#[test]
fn excluded_members_are_left_out() {
    let ws = workspace(&["a", "b", "c"], &[]);
    let out = Packages::OptOut(strings(&["b", "no-such"]));
    assert_eq!(
        out.into_package_id_specs(&ws, &Vec::new()),
        Ok(vec![spec("a"), spec("c")])
    );
    let nothing = Packages::OptOut(Vec::new());
    assert_eq!(
        nothing.into_package_id_specs(&ws, &Vec::new()),
        Packages::All.into_package_id_specs(&ws, &Vec::new())
    );
}

#[test]
fn excluding_everything_leaves_nothing() {
    let ws = workspace(&["a"], &[]);
    let error = Packages::OptOut(strings(&["a"]))
        .into_package_id_specs(&ws, &Vec::new())
        .unwrap_err();
    assert_eq!(error, CompileError::NoPackages);
    assert_eq!(error.message(), "no packages to compile");
}

#[test]
fn empty_virtual_workspace_is_refused() {
    let mut ws = workspace(&[], &[]);
    ws.is_virtual = true;
    let error = Packages::All.into_package_id_specs(&ws, &Vec::new()).unwrap_err();
    assert_eq!(
        error.message(),
        "manifest path `/ws/Cargo.toml` contains no package: The manifest is virtual, \
         and the workspace has no members."
    );
}

#[test]
fn no_specs_name_the_current_package() {
    let mut ws = workspace(&["a"], &["a"]);
    let empty = Packages::Packages(Vec::new());
    assert_eq!(
        empty.into_package_id_specs(&ws, &Vec::new()),
        Ok(vec![spec("current")])
    );
    ws.current = Err(failed("manifest is virtual", &["no package section"]));
    let error = empty.into_package_id_specs(&ws, &Vec::new()).unwrap_err();
    assert_eq!(error.message(), "manifest is virtual");
    assert_eq!(error.causes(), ["no package section"]);
}

#[test]
fn given_specs_are_taken_as_they_read() {
    let ws = workspace(&["a"], &["a"]);
    let given = Packages::Packages(strings(&["x", "y"]));
    let parsed = vec![Ok(spec("x")), Ok(spec("y"))];
    assert_eq!(
        given.into_package_id_specs(&ws, &parsed),
        Ok(vec![spec("x"), spec("y")])
    );
}

#[test]
fn first_unreadable_spec_counts() {
    let ws = workspace(&["a"], &["a"]);
    let given = Packages::Packages(strings(&["x", "y", "z"]));
    let parsed = vec![
        Ok(spec("x")),
        Err(failed("first", &["empty name"])),
        Err(failed("second", &[])),
    ];
    let error = given.into_package_id_specs(&ws, &parsed).unwrap_err();
    assert_eq!(
        error,
        CompileError::Reported {
            failure: failed("first", &["empty name"])
        }
    );
    assert_eq!(error.message(), "first");
    assert_eq!(error.causes(), ["empty name"]);
}

#[test]
fn members_are_told_by_their_whole_id() {
    let ws = workspace(&["a"], &[]);
    assert!(ws.is_member(&package("a")));
    let mut other = package("a");
    other.package_id.version = "0.2.0".to_string();
    assert!(!ws.is_member(&other));
    let mut other = package("a");
    other.package_id.source = "elsewhere".to_string();
    assert!(!ws.is_member(&other));
    assert!(!ws.is_member(&package("b")));
}
