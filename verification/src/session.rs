//! The course of a build, as a state machine.
//!
//! A build needs things done that are not done here: a path looked up, the
//! configuration read, dependencies resolved, packages fetched, units run.
//! [`begin`] tells the first thing to do.  Whoever does it reports what came of
//! it as an [`Event`], and [`advance`] tells the next, until the build is done
//! or refused.

use crate::error::{text_of, CompileError, CompileErrorView, Failure};
use crate::generate::generate_targets;
use crate::mode::Kind;
use crate::options::{BuildFlags, CompileOptions, Method};
use crate::package::{Package, PackageId, PackageIdSpec, Workspace};
use crate::packages::Packages;
use crate::resolve::Resolve;
use crate::text::{ends_with, has_suffix, lemma_take_to_set, StringSet};
use crate::units::{BuildContext, Unit};
use std::path::PathBuf;
use vstd::pervasive::unreached;
use vstd::prelude::*;

verus! {

/// What came of looking up the file that describes the target platform.
#[derive(Debug)]
pub enum TargetPath {
    /// Its absolute path.
    Found(String),
    /// It cannot be found; why.
    Invalid(Failure),
    /// It was found, but its absolute path is no text.
    NotUnicode,
}

/// What was done.
#[derive(Debug)]
pub enum Event<'a> {
    /// The file that describes the target platform was looked up.
    TargetPath(TargetPath),
    /// The build configuration was read; the platform that it asks for.
    BuildConfig { requested_target: Option<String> },
    /// Each package specification was read, or why it cannot be.
    Specs(Vec<Result<PackageIdSpec, Failure>>),
    /// Dependencies were resolved; the packages that are in play.
    Resolved { resolve: Resolve, package_ids: Vec<PackageId> },
    /// The packages to build were fetched, one for each specification and in
    /// their order.
    Packages(Vec<&'a Package>),
    /// The profiles were found to be valid.
    Validated,
    /// The units were run.
    Built,
    /// It could not be done; why.
    Failed(Failure),
}

/// What the build waits for.
#[derive(Debug)]
pub enum State<'a> {
    TargetPath,
    BuildConfig,
    Specs { kind: Kind },
    Resolve { kind: Kind, specs: Vec<PackageIdSpec> },
    Packages {
        kind: Kind,
        specs: Vec<PackageIdSpec>,
        resolve: Resolve,
        package_ids: Vec<PackageId>,
    },
    Profiles { kind: Kind, resolve: Resolve, packages: Vec<&'a Package> },
    Build { packages: Vec<&'a Package> },
    /// Nothing: the build is done or refused.
    Finished,
}

/// What is to be done.
#[derive(Debug)]
pub enum Action<'a> {
    /// Look up the file that describes the target platform.
    CanonicalizeTarget(&'a String),
    /// Read the build configuration, for a number of jobs and a target
    /// platform, and set its flags.
    LoadBuildConfig { jobs: Option<u32>, target: Option<String>, flags: BuildFlags },
    /// Read package specifications.
    ParseSpecs(&'a Vec<String>),
    /// Resolve the dependencies of packages.
    Resolve { specs: Vec<PackageIdSpec>, method: Method<'a> },
    /// Fetch the package that each specification names.
    FetchPackages { specs: Vec<PackageIdSpec> },
    /// Check that the profiles mention no other packages.
    ValidateProfiles { package_names: StringSet },
    /// Run units, one of them with extra arguments if there are any.
    Build {
        units: Vec<Unit<'a>>,
        extra_args: Option<(Unit<'a>, &'a Vec<String>)>,
        export_dir: &'a Option<PathBuf>,
    },
    /// Nothing more: the build is done, and the documentation of these packages
    /// can be tested.
    Done { to_doc_test: Vec<&'a Package> },
    /// Nothing more: the build is refused.
    Fail(CompileError),
}

/// The names of packages.
pub open spec fn names_of(ids: Seq<PackageId>) -> Seq<Seq<char>> {
    Seq::new(ids.len(), |i: int| ids[i].name@)
}

/// The platform to build for, from the one that the configuration asks for.
pub open spec fn arch_kind(requested_target: Option<String>) -> Kind {
    if requested_target is Some {
        Kind::Target
    } else {
        Kind::Host
    }
}

/// Whether a target platform is described by a file.
pub open spec fn is_target_file(target: Option<String>) -> bool {
    target matches Some(target) && has_suffix(target@, ".json"@)
}

/// The build is refused.
pub open spec fn refused<'a>(error: CompileErrorView, next: State<'a>, action: Action<'a>) -> bool {
    next is Finished && (action matches Action::Fail(e) && e@ == error)
}

/// The build configuration is asked for, unless no jobs are allowed.
pub open spec fn config_asked<'a, C>(
    options: CompileOptions<'a, C>,
    target: Option<Seq<char>>,
    next: State<'a>,
    action: Action<'a>,
) -> bool {
    if options.jobs == Some(0u32) {
        refused(CompileErrorView::NoJobs, next, action)
    } else {
        &&& next is BuildConfig
        &&& action matches Action::LoadBuildConfig { jobs, target: platform, flags }
        &&& jobs == options.jobs
        &&& text_of(platform) == target
        &&& flags == options.flags()
    }
}

/// The resolution of the selected packages is asked for, unless nothing is
/// selected.
pub open spec fn resolution_asked<'a, C>(
    ws: Workspace,
    options: &'a CompileOptions<'a, C>,
    kind: Kind,
    parsed: Seq<Result<PackageIdSpec, Failure>>,
    next: State<'a>,
    action: Action<'a>,
) -> bool {
    match options.spec.selection(ws, parsed) {
        Err(error) => refused(error, next, action),
        Ok(selected) => {
            &&& next matches State::Resolve { kind: k, specs }
            &&& k == kind
            &&& specs@ == selected
            &&& action matches Action::Resolve { specs: asked, method }
            &&& asked@ == selected
            &&& method == options.method(ws)
        },
    }
}

/// The units are asked for, unless they cannot be told, or there are extra
/// arguments for one unit and not one unit.
pub open spec fn build_asked<'a, C>(
    ws: &Workspace,
    options: &'a CompileOptions<'a, C>,
    kind: Kind,
    resolve: Resolve,
    packages: Seq<&'a Package>,
    next: State<'a>,
    action: Action<'a>,
) -> bool {
    let ctx = BuildContext {
        ws,
        default_arch_kind: kind,
        mode: options.mode,
        release: options.release,
    };
    match ctx.units(packages, options.filter, resolve) {
        Err(error) => refused(error, next, action),
        Ok(generated) => match options.extra() {
            Some((tool, args)) if generated.len() != 1 => refused(
                CompileErrorView::ExtraArgsNeedOneTarget { tool },
                next,
                action,
            ),
            extra => {
                &&& next matches State::Build { packages: built }
                &&& built@ == packages
                &&& action matches Action::Build { units, extra_args, export_dir }
                &&& units@ == generated
                &&& *export_dir == options.export_dir
                &&& match extra {
                    Some((tool, args)) => extra_args == Some((generated[0], &args)),
                    None => extra_args is None,
                }
            },
        },
    }
}

/// How a build begins.
pub open spec fn begun<'a, C>(
    options: &'a CompileOptions<'a, C>,
    next: State<'a>,
    action: Action<'a>,
) -> bool {
    match options.target {
        Some(target) if is_target_file(options.target) => {
            &&& next is TargetPath
            &&& action == Action::CanonicalizeTarget(&target)
        },
        _ => config_asked(*options, text_of(options.target), next, action),
    }
}

/// Whether an event is what a state waits for, and the build can go on from
/// there.
pub open spec fn awaited<'a, C>(
    ws: Workspace,
    options: CompileOptions<'a, C>,
    state: State<'a>,
    event: Event<'a>,
) -> bool {
    match (state, event) {
        (State::TargetPath, Event::TargetPath(_)) => options.target is Some,
        (State::BuildConfig, Event::BuildConfig { .. }) => options.spec.unread().len() == 0
            && options.spec.selection(ws, Seq::empty()) is Ok ==> options.resolvable(ws),
        (State::Specs { .. }, Event::Specs(parsed)) => {
            &&& parsed@.len() == options.spec.unread().len()
            &&& options.spec.selection(ws, parsed@) is Ok ==> options.resolvable(ws)
        },
        (State::Resolve { .. }, Event::Resolved { .. }) => true,
        (State::Packages { specs, .. }, Event::Packages(packages)) => {
            &&& packages@.len() == specs@.len()
            &&& options.extra() is Some ==> packages@.len() == 1
        },
        (State::Profiles { packages, .. }, Event::Validated) => options.filter is Default
            && packages@.len() > 0 ==> !(options.mode is RunCustomBuild),
        (State::Build { .. }, Event::Built) => true,
        (state, Event::Failed(_)) => !(state is TargetPath || state is Specs || state is Finished),
        _ => false,
    }
}

/// How a build goes on.
pub open spec fn stepped<'a, C>(
    ws: &Workspace,
    options: &'a CompileOptions<'a, C>,
    state: State<'a>,
    event: Event<'a>,
    next: State<'a>,
    action: Action<'a>,
) -> bool {
    match (state, event) {
        (State::TargetPath, Event::TargetPath(TargetPath::Found(path))) => config_asked(
            *options,
            Some(path@),
            next,
            action,
        ),
        (State::TargetPath, Event::TargetPath(TargetPath::Invalid(failure))) => refused(
            CompileErrorView::TargetPathInvalid { target: options.target->0@, failure: failure@ },
            next,
            action,
        ),
        (State::TargetPath, Event::TargetPath(TargetPath::NotUnicode)) => refused(
            CompileErrorView::TargetPathNotUnicode,
            next,
            action,
        ),
        (State::BuildConfig, Event::BuildConfig { requested_target }) => match options.spec {
            Packages::Packages(specs) if specs@.len() > 0 => {
                &&& next == (State::Specs { kind: arch_kind(requested_target) })
                &&& action == Action::ParseSpecs(&specs)
            },
            _ => resolution_asked(
                *ws,
                options,
                arch_kind(requested_target),
                Seq::empty(),
                next,
                action,
            ),
        },
        (State::Specs { kind }, Event::Specs(parsed)) => resolution_asked(
            *ws,
            options,
            kind,
            parsed@,
            next,
            action,
        ),
        (State::Resolve { kind, specs }, Event::Resolved { resolve, package_ids }) => {
            &&& next == (State::Packages { kind, specs, resolve, package_ids })
            &&& action matches Action::FetchPackages { specs: asked }
            &&& asked@ == specs@
        },
        (State::Packages { kind, specs, resolve, package_ids }, Event::Packages(packages)) => {
            &&& next == (State::Profiles { kind, resolve, packages })
            &&& action matches Action::ValidateProfiles { package_names }
            &&& package_names.wf()
            &&& package_names@ == names_of(package_ids@).to_set()
        },
        (State::Profiles { kind, resolve, packages }, Event::Validated) => build_asked(
            ws,
            options,
            kind,
            resolve,
            packages@,
            next,
            action,
        ),
        (State::Build { packages }, Event::Built) => {
            &&& next is Finished
            &&& action == (Action::Done { to_doc_test: packages })
        },
        (_, Event::Failed(failure)) => refused(
            CompileErrorView::Reported { failure: failure@ },
            next,
            action,
        ),
        _ => false,
    }
}

/// Refuses the build.
fn refuse<'a>(error: CompileError) -> (res: (State<'a>, Action<'a>))
    ensures
        refused(error@, res.0, res.1),
{
    (State::Finished, Action::Fail(error))
}

/// Asks for the build configuration.
fn ask_config<'a, C>(options: &CompileOptions<'a, C>, target: Option<String>) -> (res: (
    State<'a>,
    Action<'a>,
))
    ensures
        config_asked(*options, text_of(target), res.0, res.1),
{
    if options.jobs == Some(0u32) {
        return refuse(CompileError::NoJobs);
    }
    let flags = options.build_flags();
    (State::BuildConfig, Action::LoadBuildConfig { jobs: options.jobs, target, flags })
}

/// Asks for the resolution of the selected packages.
fn ask_resolution<'a, C>(
    ws: &Workspace,
    options: &'a CompileOptions<'a, C>,
    kind: Kind,
    parsed: &Vec<Result<PackageIdSpec, Failure>>,
) -> (res: (State<'a>, Action<'a>))
    requires
        parsed@.len() == options.spec.unread().len(),
        options.spec.selection(*ws, parsed@) is Ok ==> options.resolvable(*ws),
    ensures
        resolution_asked(*ws, options, kind, parsed@, res.0, res.1),
{
    match options.spec.into_package_id_specs(ws, parsed) {
        Ok(specs) => {
            let method = options.resolve_method(ws);
            let asked = specs.clone();
            assert(asked@ =~= specs@);
            (State::Resolve { kind, specs }, Action::Resolve { specs: asked, method })
        },
        Err(error) => refuse(error),
    }
}

/// Asks for the units to be run.
fn ask_build<'a, C>(
    ws: &Workspace,
    options: &'a CompileOptions<'a, C>,
    kind: Kind,
    resolve: &Resolve,
    packages: Vec<&'a Package>,
) -> (res: (State<'a>, Action<'a>))
    requires
        options.filter is Default && packages@.len() > 0 ==> !(options.mode is RunCustomBuild),
    ensures
        build_asked(ws, options, kind, *resolve, packages@, res.0, res.1),
{
    let generated = generate_targets(
        ws,
        packages.as_slice(),
        &options.filter,
        kind,
        options.mode,
        resolve,
        options.release,
    );
    let units = match generated {
        Ok(units) => units,
        Err(error) => {
            return refuse(error);
        },
    };
    let extra_args = match options.extra_args() {
        Some((tool, args)) => {
            if units.len() != 1 {
                return refuse(CompileError::ExtraArgsNeedOneTarget { tool });
            }
            Some((units[0], args))
        },
        None => None,
    };
    let export_dir = &options.export_dir;
    (State::Build { packages }, Action::Build { units, extra_args, export_dir })
}

/// The names of packages, each once.
fn package_names(ids: &Vec<PackageId>) -> (names: StringSet)
    ensures
        names.wf(),
        names@ == names_of(ids@).to_set(),
{
    let ghost all = names_of(ids@);
    let mut names = StringSet::new();
    let mut i: usize = 0;
    assert(names@ =~= all.take(0).to_set());
    while i < ids.len()
        invariant
            i <= ids.len(),
            all == names_of(ids@),
            names.wf(),
            names@ == all.take(i as int).to_set(),
        decreases ids.len() - i,
    {
        names.insert(ids[i].name.clone());
        proof {
            lemma_take_to_set(all, i as int);
        }
        i += 1;
    }
    assert(all.take(all.len() as int) =~= all);
    names
}

/// How a build begins: what to wait for, and what to do.
pub fn begin<'a, C>(options: &'a CompileOptions<'a, C>) -> (res: (State<'a>, Action<'a>))
    ensures
        begun(options, res.0, res.1),
{
    match &options.target {
        Some(target) => {
            if ends_with(target.as_str(), ".json") {
                (State::TargetPath, Action::CanonicalizeTarget(target))
            } else {
                ask_config(options, Some(target.clone()))
            }
        },
        None => ask_config(options, None),
    }
}

/// How a build goes on after an event: what to wait for, and what to do.
pub fn advance<'a, C>(
    ws: &Workspace,
    options: &'a CompileOptions<'a, C>,
    state: State<'a>,
    event: Event<'a>,
) -> (res: (State<'a>, Action<'a>))
    requires
        awaited(*ws, *options, state, event),
    ensures
        stepped(ws, options, state, event, res.0, res.1),
{
    match (state, event) {
        (State::TargetPath, Event::TargetPath(found)) => match (found, &options.target) {
            (TargetPath::Found(path), _) => ask_config(options, Some(path)),
            (TargetPath::Invalid(failure), Some(target)) => refuse(
                CompileError::TargetPathInvalid { target: target.clone(), failure },
            ),
            (TargetPath::Invalid(_), None) => unreached(),
            (TargetPath::NotUnicode, _) => refuse(CompileError::TargetPathNotUnicode),
        },
        (State::BuildConfig, Event::BuildConfig { requested_target }) => {
            let kind = if requested_target.is_some() {
                Kind::Target
            } else {
                Kind::Host
            };
            match &options.spec {
                Packages::Packages(specs) if specs.len() > 0 => {
                    (State::Specs { kind }, Action::ParseSpecs(specs))
                },
                _ => {
                    let parsed: Vec<Result<PackageIdSpec, Failure>> = Vec::new();
                    ask_resolution(ws, options, kind, &parsed)
                },
            }
        },
        (State::Specs { kind }, Event::Specs(parsed)) => {
            ask_resolution(ws, options, kind, &parsed)
        },
        (State::Resolve { kind, specs }, Event::Resolved { resolve, package_ids }) => {
            let asked = specs.clone();
            assert(asked@ =~= specs@);
            (
                State::Packages { kind, specs, resolve, package_ids },
                Action::FetchPackages { specs: asked },
            )
        },
        (State::Packages { kind, resolve, package_ids, .. }, Event::Packages(packages)) => {
            let package_names = package_names(&package_ids);
            (
                State::Profiles { kind, resolve, packages },
                Action::ValidateProfiles { package_names },
            )
        },
        (State::Profiles { kind, resolve, packages }, Event::Validated) => {
            ask_build(ws, options, kind, &resolve, packages)
        },
        (State::Build { packages }, Event::Built) => {
            (State::Finished, Action::Done { to_doc_test: packages })
        },
        (_, Event::Failed(failure)) => refuse(CompileError::Reported { failure }),
        _ => unreached(),
    }
}

} // verus!
