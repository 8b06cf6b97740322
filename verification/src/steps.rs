//! What each step of a build comes to.

use crate::error::CompileErrorView;
use crate::mode::{CompileMode, Kind};
use crate::options::CompileOptions;
use crate::package::{Package, PackageIdSpec, Workspace};
use crate::packages::Packages;
use crate::session::{awaited, begun, names_of, stepped, Action, Event, State, TargetPath};
use crate::text::law_suffix_is_what_is_behind;
use crate::units::BuildContext;
use vstd::prelude::*;

verus! {

/// Whether a target platform is described by a file: its text is something with
/// `.json` behind it.
pub open spec fn names_a_file(target: Option<String>) -> bool {
    target matches Some(text) && exists|front: Seq<char>|
        text@ == #[trigger] (front + ".json"@)
}

/// Whether a step refuses the build for a reason.
pub open spec fn refuses<'a>(next: State<'a>, action: Action<'a>, error: CompileErrorView) -> bool {
    next is Finished && (action matches Action::Fail(e) && e@ == error)
}

/// Whether a step has the build configuration read, as the options say and for a
/// target platform.
pub open spec fn loads_config<'a, C>(
    options: CompileOptions<'a, C>,
    platform: Option<Seq<char>>,
    next: State<'a>,
    action: Action<'a>,
) -> bool {
    &&& next is BuildConfig
    &&& action matches Action::LoadBuildConfig { jobs, target, flags }
    &&& jobs == options.jobs
    &&& platform is None ==> target is None
    &&& platform matches Some(text) ==> (target matches Some(t) && t@ == text)
    &&& flags.release == options.release
    &&& flags.test <==> options.mode == CompileMode::Test || options.mode == CompileMode::Bench
    &&& flags.json_messages <==> options.message_format is Json
}

/// A build begins with looking up the file that describes the target platform if
/// one does, and otherwise with the configuration for the platform as it was
/// given, unless no jobs are allowed.
pub proof fn law_first_step<'a, C>(
    options: &'a CompileOptions<'a, C>,
    next: State<'a>,
    action: Action<'a>,
)
    requires
        begun(options, next, action),
    ensures
        names_a_file(options.target) ==> next is TargetPath && (
        action matches Action::CanonicalizeTarget(text) && options.target == Some(*text)),
        !names_a_file(options.target) && options.jobs == Some(0u32) ==> refuses(
            next,
            action,
            CompileErrorView::NoJobs,
        ),
        !names_a_file(options.target) && options.jobs != Some(0u32) ==> loads_config(
            *options,
            match options.target {
                Some(text) => Some(text@),
                None => None,
            },
            next,
            action,
        ),
{
    if let Some(text) = options.target {
        law_suffix_is_what_is_behind(text@, ".json"@);
    }
}

/// After the file that describes the target platform was looked up, the
/// configuration is read for its path, unless no jobs are allowed; where it could
/// not be, the build is refused for that.
pub proof fn law_step_after_target_path<'a, C>(
    ws: &Workspace,
    options: &'a CompileOptions<'a, C>,
    found: TargetPath,
    next: State<'a>,
    action: Action<'a>,
)
    requires
        options.target is Some,
        stepped(ws, options, State::TargetPath, Event::TargetPath(found), next, action),
    ensures
        match found {
            TargetPath::Found(path) => if options.jobs == Some(0u32) {
                refuses(next, action, CompileErrorView::NoJobs)
            } else {
                loads_config(*options, Some(path@), next, action)
            },
            TargetPath::Invalid(failure) => refuses(
                next,
                action,
                CompileErrorView::TargetPathInvalid {
                    target: options.target->0@,
                    failure: failure@,
                },
            ),
            TargetPath::NotUnicode => refuses(next, action, CompileErrorView::TargetPathNotUnicode),
        },
{
}

/// Whether a step has the selected packages resolved for a platform, with the
/// features that the options ask for, or refuses the build as the selection does.
pub open spec fn resolves_selection<'a, C>(
    ws: Workspace,
    options: &'a CompileOptions<'a, C>,
    selection: Result<Seq<PackageIdSpec>, CompileErrorView>,
    platform: Kind,
    next: State<'a>,
    action: Action<'a>,
) -> bool {
    match selection {
        Err(error) => refuses(next, action, error),
        Ok(selected) => {
            &&& next matches State::Resolve { kind, specs: kept }
            &&& kind == platform
            &&& kept@ == selected
            &&& action matches Action::Resolve { specs, method }
            &&& specs@ == selected
            &&& *method.features == options.features
            &&& method.all_features == options.all_features
            &&& method.uses_default_features != options.no_default_features
            &&& method.dev_deps <==> ws.require_optional_deps || options.filter.dev_deps_needed(
                options.mode,
            )
        },
    }
}

/// After the configuration was read, the build is for the target platform exactly
/// if the configuration asks for one.  Packages that are named are read first; any
/// other selection is resolved at once.
pub proof fn law_step_after_config<'a, C>(
    ws: &Workspace,
    options: &'a CompileOptions<'a, C>,
    requested_target: Option<String>,
    next: State<'a>,
    action: Action<'a>,
)
    requires
        stepped(
            ws,
            options,
            State::BuildConfig,
            Event::BuildConfig { requested_target },
            next,
            action,
        ),
    ensures
        ({
            let platform = if requested_target is Some {
                Kind::Target
            } else {
                Kind::Host
            };
            if let Packages::Packages(named) = options.spec {
                if named@.len() > 0 {
                    &&& next == (State::Specs { kind: platform })
                    &&& action == Action::ParseSpecs(&named)
                } else {
                    resolves_selection(
                        *ws,
                        options,
                        options.spec.selection(*ws, Seq::empty()),
                        platform,
                        next,
                        action,
                    )
                }
            } else {
                resolves_selection(
                    *ws,
                    options,
                    options.spec.selection(*ws, Seq::empty()),
                    platform,
                    next,
                    action,
                )
            }
        }),
{
}

/// After the packages that are named were read, what they read as is resolved, for
/// the platform that was settled before.
pub proof fn law_step_after_specs<'a, C>(
    ws: &Workspace,
    options: &'a CompileOptions<'a, C>,
    kind: Kind,
    parsed: Event<'a>,
    next: State<'a>,
    action: Action<'a>,
)
    requires
        parsed is Specs,
        stepped(ws, options, State::Specs { kind }, parsed, next, action),
    ensures
        resolves_selection(
            *ws,
            options,
            options.spec.selection(*ws, parsed->Specs_0@),
            kind,
            next,
            action,
        ),
{
}

/// After the resolution, the packages of the same specifications are fetched, and
/// nothing that is known is forgotten.
pub proof fn law_step_after_resolution<'a, C>(
    ws: &Workspace,
    options: &'a CompileOptions<'a, C>,
    state: State<'a>,
    event: Event<'a>,
    next: State<'a>,
    action: Action<'a>,
)
    requires
        state is Resolve,
        event is Resolved,
        stepped(ws, options, state, event, next, action),
    ensures
        action matches Action::FetchPackages { specs } && specs@ == state->Resolve_specs@,
        next matches State::Packages { kind, specs, resolve, package_ids } && {
            &&& kind == state->Resolve_kind
            &&& specs == state->Resolve_specs
            &&& resolve == event->resolve
            &&& package_ids == event->package_ids
        },
{
}

/// After packages were fetched, the profiles are checked against the names of all
/// packages that are in play, and no others; nothing that is known is forgotten.
pub proof fn law_step_after_fetching<'a, C>(
    ws: &Workspace,
    options: &'a CompileOptions<'a, C>,
    state: State<'a>,
    event: Event<'a>,
    next: State<'a>,
    action: Action<'a>,
    name: Seq<char>,
)
    requires
        state is Packages,
        event is Packages,
        stepped(ws, options, state, event, next, action),
    ensures
        action matches Action::ValidateProfiles { package_names } && package_names.wf() && (
        package_names@.contains(name) <==> exists|i: int|
            0 <= i < state->package_ids@.len() && (#[trigger] state->package_ids@[i]).name@ == name),
        next matches State::Profiles { kind, resolve, packages } && {
            &&& kind == state->Packages_kind
            &&& resolve == state->Packages_resolve
            &&& packages == event->Packages_0
        },
{
    let ids = state->package_ids@;
    let all = names_of(ids);
    if all.contains(name) {
        let i = choose|i: int| 0 <= i < all.len() && all[i] == name;
        assert(ids[i].name@ == name);
    }
    if exists|i: int| 0 <= i < ids.len() && (#[trigger] ids[i]).name@ == name {
        let i = choose|i: int| 0 <= i < ids.len() && (#[trigger] ids[i]).name@ == name;
        assert(all[i] == name);
    }
}

/// After the profiles were checked, the units of the fetched packages are run.
/// Extra arguments are for the one unit there is, those for `rustc` first; with
/// any other number of units they refuse the build.
pub proof fn law_step_after_profiles<'a, C>(
    ws: &Workspace,
    options: &'a CompileOptions<'a, C>,
    state: State<'a>,
    next: State<'a>,
    action: Action<'a>,
)
    requires
        state is Profiles,
        stepped(ws, options, state, Event::Validated, next, action),
    ensures
        ({
            let ctx = BuildContext {
                ws,
                default_arch_kind: state->Profiles_kind,
                mode: options.mode,
                release: options.release,
            };
            let packages = state->Profiles_packages;
            let rustc = options.target_rustc_args is Some;
            let rustdoc = options.target_rustdoc_args is Some;
            match ctx.units(packages@, options.filter, state->Profiles_resolve) {
                Err(error) => refuses(next, action, error),
                Ok(units) => if rustc && units.len() != 1 {
                    refuses(
                        next,
                        action,
                        CompileErrorView::ExtraArgsNeedOneTarget { tool: "rustc"@ },
                    )
                } else if rustdoc && units.len() != 1 {
                    refuses(
                        next,
                        action,
                        CompileErrorView::ExtraArgsNeedOneTarget { tool: "rustdoc"@ },
                    )
                } else {
                    &&& next matches State::Build { packages: built } && built@ == packages@
                    &&& action matches Action::Build { units: run, extra_args, export_dir }
                    &&& run@ == units
                    &&& *export_dir == options.export_dir
                    &&& !rustc && !rustdoc ==> extra_args is None
                    &&& rustc ==> (extra_args matches Some((unit, args)) && unit == units[0]
                        && *args == options.target_rustc_args->0)
                    &&& !rustc && rustdoc ==> (extra_args matches Some((unit, args)) && unit
                        == units[0] && *args == options.target_rustdoc_args->0)
                },
            }
        }),
{
}

/// After the units were run the build is done, and the documentation of exactly
/// the packages that were built can be tested.
pub proof fn law_step_after_building<'a, C>(
    ws: &Workspace,
    options: &'a CompileOptions<'a, C>,
    packages: Vec<&'a Package>,
    next: State<'a>,
    action: Action<'a>,
)
    requires
        stepped(ws, options, State::Build { packages }, Event::Built, next, action),
    ensures
        next is Finished,
        action matches Action::Done { to_doc_test } && to_doc_test@ == packages@,
{
}

/// A failure elsewhere refuses the build with all that is known of it.
pub proof fn law_step_after_failure<'a, C>(
    ws: &Workspace,
    options: &'a CompileOptions<'a, C>,
    state: State<'a>,
    event: Event<'a>,
    next: State<'a>,
    action: Action<'a>,
)
    requires
        event is Failed,
        stepped(ws, options, state, event, next, action),
    ensures
        refuses(next, action, CompileErrorView::Reported { failure: event->Failed_0@ }),
{
}

/// Every state but the last goes on with what it waits for, whatever that brings,
/// in every mode that a build can be asked for in; and what can fail may fail.
/// Packages are awaited one for each specification, and one alone where there are
/// extra arguments.
pub proof fn law_what_is_awaited<'a, C>(
    ws: Workspace,
    options: CompileOptions<'a, C>,
    state: State<'a>,
    event: Event<'a>,
)
    requires
        options.mode != CompileMode::RunCustomBuild,
    ensures
        state is TargetPath && options.target is Some && event is TargetPath ==> awaited(
            ws,
            options,
            state,
            event,
        ),
        state is BuildConfig && (event is BuildConfig || event is Failed) ==> awaited(
            ws,
            options,
            state,
            event,
        ),
        state is Specs && event is Specs && event->Specs_0@.len() == options.spec.unread().len()
            ==> awaited(ws, options, state, event),
        state is Resolve && (event is Resolved || event is Failed) ==> awaited(
            ws,
            options,
            state,
            event,
        ),
        state is Packages && event is Packages && event->Packages_0@.len()
            == state->Packages_specs@.len() && (event->Packages_0@.len() == 1
            || options.target_rustc_args is None && options.target_rustdoc_args is None) ==> awaited(
            ws,
            options,
            state,
            event,
        ),
        state is Packages && event is Failed ==> awaited(ws, options, state, event),
        state is Profiles && (event is Validated || event is Failed) ==> awaited(
            ws,
            options,
            state,
            event,
        ),
        state is Build && (event is Built || event is Failed) ==> awaited(
            ws,
            options,
            state,
            event,
        ),
{
}

/// What is to be read before packages can be selected is what was named, and
/// nothing where packages are not named.
pub proof fn law_only_names_are_read(packages: Packages)
    ensures
        packages matches Packages::Packages(named) ==> packages.unread() == named@,
        !(packages is Packages) ==> packages.unread().len() == 0,
{
}

} // verus!
