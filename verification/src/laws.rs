//! What holds of the units of a build as a whole.

use crate::error::CompileErrorView;
use crate::filter::{CompileFilter, FilterRule};
use crate::lists::{first_match, lemma_filter_members, lemma_match_holds, refs};
use crate::mode::{CompileMode, Kind, ProfileFor};
use crate::package::Package;
use crate::resolve::Resolve;
use crate::select::{
    default_pred, default_targets, kind_pred, missing_pred, named_pred, named_target, rule_targets,
};
use crate::target::{Target, TargetPredicate};
use crate::units::{
    accepted, bench_filter, bench_mode, blocked_pred, chain, doctested_lib_pred, lib_pred, ready,
    ready_pred, runs_binaries, test_filter, test_mode, unit_mode, BuildContext, Unit,
};
use vstd::prelude::*;

verus! {

/// The modes in which the targets of a build can be asked for.
pub open spec fn askable(mode: CompileMode, target_mode: CompileMode) -> bool {
    ||| target_mode == mode
    ||| target_mode == test_mode(mode)
    ||| target_mode == bench_mode(mode)
    ||| target_mode is Build && !(mode is Check)
}

/// Whether a unit is that of a target of a package, asked for in some mode.
pub open spec fn unit_of<'w, 'a>(ctx: BuildContext<'w>, pkg: &'a Package, unit: Unit<'a>) -> bool {
    exists|k: int, target_mode: CompileMode|
        0 <= k < pkg.targets@.len() && askable(ctx.mode, target_mode) && unit
            == #[trigger] ctx.unit(pkg, &pkg.targets@[k], target_mode)
}

/// Whether all proposals are units of a package.
pub open spec fn all_of<'w, 'a>(
    ctx: BuildContext<'w>,
    pkg: &'a Package,
    proposals: Seq<(Unit<'a>, bool)>,
) -> bool {
    forall|i: int| 0 <= i < proposals.len() ==> unit_of(ctx, pkg, #[trigger] proposals[i].0)
}

proof fn lemma_unit_of<'w, 'a>(
    ctx: BuildContext<'w>,
    pkg: &'a Package,
    target: &'a Target,
    target_mode: CompileMode,
)
    requires
        refs(pkg.targets@).contains(target),
        askable(ctx.mode, target_mode),
    ensures
        unit_of(ctx, pkg, ctx.unit(pkg, target, target_mode)),
{
    let all = refs::<Target>(pkg.targets@);
    let k = choose|k: int| 0 <= k < all.len() && all[k] == target;
    assert(ctx.unit(pkg, target, target_mode) == ctx.unit(pkg, &pkg.targets@[k], target_mode));
}

/// The targets that a rule gives are targets of the package.
proof fn lemma_rule_members(
    targets: Seq<Target>,
    rule: FilterRule,
    desc: Seq<char>,
    kind: TargetPredicate,
)
    ensures
        rule_targets(targets, rule, desc, kind) matches Ok(found) ==> forall|i: int|
            0 <= i < found.len() ==> refs(targets).contains((#[trigger] found[i]).0) && kind.holds(
                *found[i].0,
            ),
{
    let all = refs::<Target>(targets);
    match rule {
        FilterRule::All => {
            lemma_filter_members(all, kind_pred(kind));
            let taken = all.filter(kind_pred(kind));
            assert forall|i: int| 0 <= i < taken.len() implies all.contains(#[trigger] taken[i])
                && kind.holds(*taken[i]) by {
                assert(taken.contains(taken[i]));
            }
        },
        FilterRule::Just(names) => {
            lemma_match_holds(names@, missing_pred(targets, kind));
            if first_match(names@, missing_pred(targets, kind)) is None {
                assert forall|i: int| 0 <= i < names@.len() implies {
                    let t: &Target = (#[trigger] named_target(targets, kind, names@[i]@))->0;
                    refs(targets).contains(t) && kind.holds(*t)
                } by {
                    assert(!missing_pred(targets, kind)(names@[i]));
                    lemma_match_holds(all, named_pred(kind, names@[i]@));
                }
            }
        },
    }
}

proof fn lemma_rule_proposals<'w, 'a>(
    ctx: BuildContext<'w>,
    pkg: &'a Package,
    rule: FilterRule,
    desc: Seq<char>,
    kind: TargetPredicate,
    target_mode: CompileMode,
)
    requires
        askable(ctx.mode, target_mode),
    ensures
        ctx.rule_proposals(pkg, rule, desc, kind, target_mode) matches Ok(proposals) ==> all_of(
            ctx,
            pkg,
            proposals,
        ),
{
    lemma_rule_members(pkg.targets@, rule, desc, kind);
    if let Ok(targets) = rule_targets(pkg.targets@, rule, desc, kind) {
        let proposals = ctx.proposed(pkg, targets, target_mode);
        assert forall|i: int| 0 <= i < proposals.len() implies unit_of(
            ctx,
            pkg,
            #[trigger] proposals[i].0,
        ) by {
            assert(refs(pkg.targets@).contains(targets[i].0));
            lemma_unit_of(ctx, pkg, targets[i].0, target_mode);
        }
    }
}

/// All that is proposed for a package are units of the package.
proof fn lemma_proposals<'w, 'a>(ctx: BuildContext<'w>, pkg: &'a Package, filter: CompileFilter)
    ensures
        ctx.filter_proposals(pkg, filter) matches Ok(proposals) ==> all_of(ctx, pkg, proposals)
            && all_of(ctx, pkg, ctx.with_binaries(pkg, proposals)),
{
    let all = refs::<Target>(pkg.targets@);
    match filter {
        CompileFilter::Default { required_features_filterable } => {
            let taken = all.filter(default_pred(pkg.targets@, ctx.mode));
            let targets = default_targets(pkg.targets@, ctx.mode);
            lemma_filter_members(all, default_pred(pkg.targets@, ctx.mode));
            lemma_match_holds(all, doctested_lib_pred());
            let proposals = ctx.default_proposals(pkg, required_features_filterable);
            assert forall|i: int| 0 <= i < proposals.len() implies unit_of(
                ctx,
                pkg,
                #[trigger] proposals[i].0,
            ) by {
                if i < targets.len() {
                    assert(taken.contains(targets[i])) by {
                        assert(targets[i] == taken[i]);
                    }
                    lemma_unit_of(ctx, pkg, targets[i], ctx.mode);
                } else {
                    let t = first_match(all, doctested_lib_pred())->0;
                    lemma_unit_of(ctx, pkg, t, CompileMode::Build);
                }
            }
        },
        CompileFilter::Only { all_targets, lib, bins, examples, tests, benches } => {
            lemma_match_holds(all, lib_pred());
            let libs = ctx.lib_proposals(pkg, lib, all_targets);
            if let Ok(libs) = libs {
                assert forall|i: int| 0 <= i < libs.len() implies unit_of(
                    ctx,
                    pkg,
                    #[trigger] libs[i].0,
                ) by {
                    lemma_unit_of(ctx, pkg, first_match(all, lib_pred())->0, ctx.mode);
                }
            }
            lemma_rule_proposals(ctx, pkg, bins, "bin"@, TargetPredicate::Bin, ctx.mode);
            lemma_rule_proposals(
                ctx,
                pkg,
                examples,
                "example"@,
                TargetPredicate::Example,
                ctx.mode,
            );
            lemma_rule_proposals(
                ctx,
                pkg,
                tests,
                "test"@,
                test_filter(tests),
                test_mode(ctx.mode),
            );
            lemma_rule_proposals(
                ctx,
                pkg,
                benches,
                "bench"@,
                bench_filter(benches),
                bench_mode(ctx.mode),
            );
        },
    }
    if let Ok(proposals) = ctx.filter_proposals(pkg, filter) {
        assert(all_of(ctx, pkg, proposals));
        let bins = all.filter(kind_pred(TargetPredicate::Bin));
        lemma_filter_members(all, kind_pred(TargetPredicate::Bin));
        let full = ctx.with_binaries(pkg, proposals);
        assert forall|i: int| 0 <= i < full.len() implies unit_of(
            ctx,
            pkg,
            #[trigger] full[i].0,
        ) by {
            if i < proposals.len() {
                assert(full[i] == proposals[i]);
            } else {
                let t = bins[i - proposals.len()];
                assert(bins.contains(t));
                lemma_unit_of(ctx, pkg, t, CompileMode::Build);
            }
        }
    }
}

/// What is accepted of a list of proposals: the units that are ready.
proof fn lemma_accepted<'a>(proposals: Seq<(Unit<'a>, bool)>, features: Set<Seq<char>>)
    ensures
        accepted(proposals, features) is Ok <==> forall|i: int|
            0 <= i < proposals.len() && (#[trigger] proposals[i]).1 ==> ready(
                *proposals[i].0.target,
                features,
            ),
        accepted(proposals, features) matches Ok(units) ==> {
            &&& forall|u: Unit<'a>| #[trigger]
                units.contains(u) ==> ready(*u.target, features) && exists|i: int|
                    0 <= i < proposals.len() && (#[trigger] proposals[i]).0 == u
            &&& forall|i: int|
                0 <= i < proposals.len() && ready(
                    *(#[trigger] proposals[i]).0.target,
                    features,
                ) ==> units.contains(proposals[i].0)
        },
{
    let blocked = blocked_pred(features);
    let pred = ready_pred(features);
    lemma_match_holds(proposals, blocked);
    lemma_filter_members(proposals, pred);
    if first_match(proposals, blocked) is None {
        assert forall|i: int| 0 <= i < proposals.len() && (#[trigger] proposals[i]).1 implies ready(
            *proposals[i].0.target,
            features,
        ) by {
            assert(!blocked(proposals[i]));
        }
        let kept = proposals.filter(pred);
        let units = accepted(proposals, features)->Ok_0;
        assert forall|u: Unit<'a>| #[trigger] units.contains(u) implies ready(*u.target, features)
            && exists|i: int| 0 <= i < proposals.len() && (#[trigger] proposals[i]).0 == u by {
            let k = choose|k: int| 0 <= k < units.len() && units[k] == u;
            assert(kept.contains(kept[k]));
            let i = choose|i: int| 0 <= i < proposals.len() && proposals[i] == kept[k];
            assert(proposals[i].0 == u);
        }
        assert forall|i: int|
            0 <= i < proposals.len() && ready(
                *(#[trigger] proposals[i]).0.target,
                features,
            ) implies units.contains(proposals[i].0) by {
            assert(proposals.contains(proposals[i]));
            assert(kept.contains(proposals[i]));
            let k = choose|k: int| 0 <= k < kept.len() && kept[k] == proposals[i];
            assert(units[k] == proposals[i].0);
        }
    } else {
        let p = first_match(proposals, blocked)->0;
        let i = choose|i: int| 0 <= i < proposals.len() && proposals[i] == p;
        assert(proposals[i].1 && !ready(*proposals[i].0.target, features));
    }
}

/// The units of a build are those of its packages.
proof fn lemma_units_split<'w, 'a>(
    ctx: BuildContext<'w>,
    packages: Seq<&'a Package>,
    filter: CompileFilter,
    resolve: Resolve,
)
    ensures
        ctx.units(packages, filter, resolve) is Ok <==> forall|k: int|
            0 <= k < packages.len() ==> ctx.package_units(
                #[trigger] packages[k],
                filter,
                resolve,
            ) is Ok,
        ctx.units(packages, filter, resolve) matches Ok(units) ==> forall|u: Unit<'a>| #[trigger]
            units.contains(u) <==> exists|k: int|
                0 <= k < packages.len() && ctx.package_units(
                    #[trigger] packages[k],
                    filter,
                    resolve,
                )->Ok_0.contains(u),
    decreases packages.len(),
{
    if packages.len() > 0 {
        let front = packages.drop_last();
        lemma_units_split(ctx, front, filter, resolve);
        let n = packages.len() - 1;
        assert(packages[n] == packages.last());
        assert(forall|k: int| 0 <= k < n ==> front[k] == #[trigger] packages[k]);
        if forall|k: int|
            0 <= k < packages.len() ==> ctx.package_units(
                #[trigger] packages[k],
                filter,
                resolve,
            ) is Ok {
            assert forall|k: int| 0 <= k < front.len() implies ctx.package_units(
                #[trigger] front[k],
                filter,
                resolve,
            ) is Ok by {
                assert(front[k] == packages[k]);
            }
        }
        if let Ok(units) = ctx.units(packages, filter, resolve) {
            let first = ctx.units(front, filter, resolve)->Ok_0;
            let last = ctx.package_units(packages[n], filter, resolve)->Ok_0;
            assert(units == first + last);
            assert forall|k: int| 0 <= k < packages.len() implies ctx.package_units(
                #[trigger] packages[k],
                filter,
                resolve,
            ) is Ok by {
                if k < n {
                    assert(front[k] == packages[k]);
                }
            }
            assert forall|u: Unit<'a>| #[trigger] units.contains(u) <==> exists|k: int|
                0 <= k < packages.len() && ctx.package_units(
                    #[trigger] packages[k],
                    filter,
                    resolve,
                )->Ok_0.contains(u) by {
                if units.contains(u) {
                    let i = choose|i: int| 0 <= i < units.len() && units[i] == u;
                    if i < first.len() {
                        assert(first[i] == u);
                        assert(first.contains(u));
                        let k = choose|k: int|
                            0 <= k < front.len() && ctx.package_units(
                                #[trigger] front[k],
                                filter,
                                resolve,
                            )->Ok_0.contains(u);
                        assert(packages[k] == front[k]);
                    } else {
                        assert(last[i - first.len()] == u);
                    }
                }
                if exists|k: int|
                    0 <= k < packages.len() && ctx.package_units(
                        #[trigger] packages[k],
                        filter,
                        resolve,
                    )->Ok_0.contains(u) {
                    let k = choose|k: int|
                        0 <= k < packages.len() && ctx.package_units(
                            #[trigger] packages[k],
                            filter,
                            resolve,
                        )->Ok_0.contains(u);
                    if k < n {
                        assert(front[k] == packages[k]);
                        assert(first.contains(u));
                        let i = choose|i: int| 0 <= i < first.len() && first[i] == u;
                        assert(units[i] == u);
                    } else {
                        let i = choose|i: int| 0 <= i < last.len() && last[i] == u;
                        assert(units[first.len() + i] == u);
                    }
                }
            }
        }
    }
}

/// All that is proposed for a package.
spec fn proposed_for<'w, 'a>(
    ctx: BuildContext<'w>,
    pkg: &'a Package,
    filter: CompileFilter,
) -> Seq<(Unit<'a>, bool)> {
    ctx.with_binaries(pkg, ctx.filter_proposals(pkg, filter)->Ok_0)
}

/// What is known of a unit of a build: the package it came from.
proof fn lemma_origin<'w, 'a>(
    ctx: BuildContext<'w>,
    packages: Seq<&'a Package>,
    filter: CompileFilter,
    resolve: Resolve,
    unit: Unit<'a>,
) -> (k: int)
    requires
        ctx.units(packages, filter, resolve) is Ok,
        ctx.units(packages, filter, resolve)->Ok_0.contains(unit),
    ensures
        0 <= k < packages.len(),
        unit_of(ctx, packages[k], unit),
        unit.pkg == packages[k],
        ctx.filter_proposals(packages[k], filter) is Ok,
        ready(*unit.target, resolve.available_features(packages[k].package_id@)),
        exists|i: int|
            0 <= i < proposed_for(ctx, packages[k], filter).len() && (#[trigger] proposed_for(
                ctx,
                packages[k],
                filter,
            )[i]).0 == unit,
{
    lemma_units_split(ctx, packages, filter, resolve);
    let k = choose|k: int|
        0 <= k < packages.len() && ctx.package_units(
            #[trigger] packages[k],
            filter,
            resolve,
        )->Ok_0.contains(unit);
    let pkg = packages[k];
    assert(ctx.package_units(pkg, filter, resolve) is Ok);
    lemma_proposals(ctx, pkg, filter);
    let proposals = proposed_for(ctx, pkg, filter);
    lemma_accepted(proposals, resolve.available_features(pkg.package_id@));
    k
}

/// A proposal for a package of a build that is ready is a unit of the build.
proof fn lemma_kept<'w, 'a>(
    ctx: BuildContext<'w>,
    packages: Seq<&'a Package>,
    filter: CompileFilter,
    resolve: Resolve,
    k: int,
    i: int,
)
    requires
        ctx.units(packages, filter, resolve) is Ok,
        0 <= k < packages.len(),
        0 <= i < proposed_for(ctx, packages[k], filter).len(),
    ensures
        ctx.filter_proposals(packages[k], filter) is Ok,
        ({
            let p = proposed_for(ctx, packages[k], filter)[i];
            p.1 || ready(*p.0.target, resolve.available_features(packages[k].package_id@))
                ==> ctx.units(packages, filter, resolve)->Ok_0.contains(p.0)
        }),
{
    lemma_units_split(ctx, packages, filter, resolve);
    let pkg = packages[k];
    assert(ctx.package_units(pkg, filter, resolve) is Ok);
    let proposals = proposed_for(ctx, pkg, filter);
    lemma_accepted(proposals, resolve.available_features(pkg.package_id@));
    let p = proposals[i];
    if p.1 || ready(*p.0.target, resolve.available_features(pkg.package_id@)) {
        assert(ctx.package_units(pkg, filter, resolve)->Ok_0.contains(p.0));
    }
}

/// Every unit belongs to a package that is built, and is for one of its targets.
pub proof fn law_units_belong_to_packages<'w, 'a>(
    ctx: BuildContext<'w>,
    packages: Seq<&'a Package>,
    filter: CompileFilter,
    resolve: Resolve,
)
    ensures
        ctx.units(packages, filter, resolve) matches Ok(units) ==> forall|i: int|
            0 <= i < units.len() ==> packages.contains((#[trigger] units[i]).pkg) && refs(
                units[i].pkg.targets@,
            ).contains(units[i].target),
{
    if let Ok(units) = ctx.units(packages, filter, resolve) {
        assert forall|i: int| 0 <= i < units.len() implies packages.contains(
            (#[trigger] units[i]).pkg,
        ) && refs(units[i].pkg.targets@).contains(units[i].target) by {
            let u = units[i];
            let k = lemma_origin(ctx, packages, filter, resolve, u);
            let pkg = packages[k];
            let (j, m) = choose|j: int, m: CompileMode|
                0 <= j < pkg.targets@.len() && askable(ctx.mode, m) && u == #[trigger] ctx.unit(
                    pkg,
                    &pkg.targets@[j],
                    m,
                );
            assert(refs(pkg.targets@)[j] == u.target);
        }
    }
}

/// No unit holds the mode for benchmarks: it is only known to the profile that
/// the unit is built with.
pub proof fn law_no_bench_units<'w, 'a>(
    ctx: BuildContext<'w>,
    packages: Seq<&'a Package>,
    filter: CompileFilter,
    resolve: Resolve,
)
    ensures
        ctx.units(packages, filter, resolve) matches Ok(units) ==> forall|i: int|
            0 <= i < units.len() ==> {
                &&& !((#[trigger] units[i]).mode is Bench)
                &&& units[i].mode == unit_mode(units[i].profile.mode)
            },
{
    if let Ok(units) = ctx.units(packages, filter, resolve) {
        assert forall|i: int| 0 <= i < units.len() implies {
            &&& !((#[trigger] units[i]).mode is Bench)
            &&& units[i].mode == unit_mode(units[i].profile.mode)
        } by {
            let k = lemma_origin(ctx, packages, filter, resolve, units[i]);
        }
    }
}

/// Targets that run inside the compiler are built for the host, all others for
/// the platform that was asked for.
pub proof fn law_host_targets_built_for_host<'w, 'a>(
    ctx: BuildContext<'w>,
    packages: Seq<&'a Package>,
    filter: CompileFilter,
    resolve: Resolve,
)
    ensures
        ctx.units(packages, filter, resolve) matches Ok(units) ==> forall|i: int|
            0 <= i < units.len() ==> (#[trigger] units[i]).kind == if units[i].target.for_host {
                Kind::Host
            } else {
                ctx.default_arch_kind
            },
{
    if let Ok(units) = ctx.units(packages, filter, resolve) {
        assert forall|i: int| 0 <= i < units.len() implies (#[trigger] units[i]).kind
            == if units[i].target.for_host {
            Kind::Host
        } else {
            ctx.default_arch_kind
        } by {
            let k = lemma_origin(ctx, packages, filter, resolve, units[i]);
        }
    }
}

/// In a build for any kind of test, every profile is looked up as that of a
/// test or something that one depends on; in any other build none is.  All are
/// looked up for release or none, and each by the package of its unit.
pub proof fn law_one_kind_of_profile<'w, 'a>(
    ctx: BuildContext<'w>,
    packages: Seq<&'a Package>,
    filter: CompileFilter,
    resolve: Resolve,
)
    ensures
        ctx.units(packages, filter, resolve) matches Ok(units) ==> forall|i: int|
            0 <= i < units.len() ==> {
                let profile = (#[trigger] units[i]).profile;
                &&& profile.profile_for == if ctx.mode.any_test() {
                    ProfileFor::TestDependency
                } else {
                    ProfileFor::Any
                }
                &&& profile.release == ctx.release
                &&& profile.pkg_name == &units[i].pkg.package_id.name
                &&& profile.is_member == ctx.ws.has_member(units[i].pkg.package_id@)
            },
{
    if let Ok(units) = ctx.units(packages, filter, resolve) {
        assert forall|i: int| 0 <= i < units.len() implies {
            let profile = (#[trigger] units[i]).profile;
            &&& profile.profile_for == if ctx.mode.any_test() {
                ProfileFor::TestDependency
            } else {
                ProfileFor::Any
            }
            &&& profile.release == ctx.release
            &&& profile.pkg_name == &units[i].pkg.package_id.name
            &&& profile.is_member == ctx.ws.has_member(units[i].pkg.package_id@)
        } by {
            let k = lemma_origin(ctx, packages, filter, resolve, units[i]);
        }
    }
}

/// A test run builds examples as regular targets: it only verifies that they
/// compile.
pub proof fn law_examples_built_not_tested<'w, 'a>(
    ctx: BuildContext<'w>,
    packages: Seq<&'a Package>,
    filter: CompileFilter,
    resolve: Resolve,
)
    requires
        ctx.mode is Test,
    ensures
        ctx.units(packages, filter, resolve) matches Ok(units) ==> forall|i: int|
            0 <= i < units.len() && (#[trigger] units[i]).target.example() ==> units[i].mode
                is Build,
{
    if let Ok(units) = ctx.units(packages, filter, resolve) {
        assert forall|i: int|
            0 <= i < units.len() && (#[trigger] units[i]).target.example() implies units[i].mode
            is Build by {
            let k = lemma_origin(ctx, packages, filter, resolve, units[i]);
        }
    }
}

/// A check compiles nothing: all its units are checks.
pub proof fn law_check_only_checks<'w, 'a>(
    ctx: BuildContext<'w>,
    packages: Seq<&'a Package>,
    filter: CompileFilter,
    resolve: Resolve,
)
    requires
        ctx.mode is Check,
    ensures
        ctx.units(packages, filter, resolve) matches Ok(units) ==> forall|i: int|
            0 <= i < units.len() ==> (#[trigger] units[i]).mode is Check,
{
    if let Ok(units) = ctx.units(packages, filter, resolve) {
        assert forall|i: int| 0 <= i < units.len() implies (#[trigger] units[i]).mode is Check by {
            let k = lemma_origin(ctx, packages, filter, resolve, units[i]);
        }
    }
}

/// Only libraries are built without all the features that they require.
pub proof fn law_required_features_present<'w, 'a>(
    ctx: BuildContext<'w>,
    packages: Seq<&'a Package>,
    filter: CompileFilter,
    resolve: Resolve,
)
    ensures
        ctx.units(packages, filter, resolve) matches Ok(units) ==> forall|i: int, j: int|
            0 <= i < units.len() && !units[i].target.lib() && 0 <= j
                < units[i].target.required().len() ==> resolve.available_features(
                units[i].pkg.package_id@,
            ).contains(#[trigger] units[i].target.required()[j]),
{
    if let Ok(units) = ctx.units(packages, filter, resolve) {
        assert forall|i: int, j: int|
            0 <= i < units.len() && !units[i].target.lib() && 0 <= j
                < units[i].target.required().len() implies resolve.available_features(
            units[i].pkg.package_id@,
        ).contains(#[trigger] units[i].target.required()[j]) by {
            let k = lemma_origin(ctx, packages, filter, resolve, units[i]);
        }
    }
}

/// Whether there is a unit for a target of a package with a property and a name.
pub open spec fn built<'a>(
    units: Seq<Unit<'a>>,
    pkg: &'a Package,
    kind: TargetPredicate,
    name: Seq<char>,
) -> bool {
    exists|i: int|
        {
            &&& 0 <= i < units.len()
            &&& (#[trigger] units[i]).pkg == pkg
            &&& kind.holds(*units[i].target)
            &&& units[i].target.name@ == name
        }
}

/// Whether a list of proposals requires a unit for each target of a package that
/// a rule asks for by name.
spec fn requires_named<'a>(
    proposals: Seq<(Unit<'a>, bool)>,
    pkg: &'a Package,
    rule: FilterRule,
    kind: TargetPredicate,
) -> bool {
    rule matches FilterRule::Just(names) ==> forall|n: int|
        0 <= n < names@.len() ==> required_in(proposals, pkg, kind, #[trigger] names@[n]@)
}

spec fn required_in<'a>(
    proposals: Seq<(Unit<'a>, bool)>,
    pkg: &'a Package,
    kind: TargetPredicate,
    name: Seq<char>,
) -> bool {
    exists|i: int|
        {
            &&& 0 <= i < proposals.len()
            &&& (#[trigger] proposals[i]).1
            &&& proposals[i].0.pkg == pkg
            &&& kind.holds(*proposals[i].0.target)
            &&& proposals[i].0.target.name@ == name
        }
}

proof fn lemma_rule_requires<'w, 'a>(
    ctx: BuildContext<'w>,
    pkg: &'a Package,
    rule: FilterRule,
    desc: Seq<char>,
    kind: TargetPredicate,
    target_mode: CompileMode,
    before: Seq<(Unit<'a>, bool)>,
    after: Seq<(Unit<'a>, bool)>,
)
    requires
        ctx.rule_proposals(pkg, rule, desc, kind, target_mode) is Ok,
    ensures
        requires_named(
            before + ctx.rule_proposals(pkg, rule, desc, kind, target_mode)->Ok_0 + after,
            pkg,
            rule,
            kind,
        ),
{
    if let FilterRule::Just(names) = rule {
        let targets = rule_targets(pkg.targets@, rule, desc, kind)->Ok_0;
        let more = ctx.proposed(pkg, targets, target_mode);
        let all = before + more + after;
        lemma_match_holds(names@, missing_pred(pkg.targets@, kind));
        assert forall|n: int| 0 <= n < names@.len() implies required_in(
            all,
            pkg,
            kind,
            #[trigger] names@[n]@,
        ) by {
            assert(!missing_pred(pkg.targets@, kind)(names@[n]));
            lemma_match_holds(refs(pkg.targets@), named_pred(kind, names@[n]@));
            assert(targets[n] == (named_target(pkg.targets@, kind, names@[n]@)->0, true));
            assert(all[before.len() + n] == more[n]);
        }
    }
}

/// A target that is asked for by name is built for every package, or the build
/// is refused: it is never skipped.
pub proof fn law_named_targets_are_built<'w, 'a>(
    ctx: BuildContext<'w>,
    packages: Seq<&'a Package>,
    filter: CompileFilter,
    resolve: Resolve,
    k: int,
)
    requires
        ctx.units(packages, filter, resolve) is Ok,
        0 <= k < packages.len(),
    ensures
        filter matches CompileFilter::Only { bins: FilterRule::Just(names), .. } ==> forall|n: int|
            0 <= n < names@.len() ==> built(
                ctx.units(packages, filter, resolve)->Ok_0,
                packages[k],
                TargetPredicate::Bin,
                #[trigger] names@[n]@,
            ),
        filter matches CompileFilter::Only { examples: FilterRule::Just(names), .. } ==> forall|
            n: int,
        |
            0 <= n < names@.len() ==> built(
                ctx.units(packages, filter, resolve)->Ok_0,
                packages[k],
                TargetPredicate::Example,
                #[trigger] names@[n]@,
            ),
        filter matches CompileFilter::Only { tests: FilterRule::Just(names), .. } ==> forall|n: int|
            0 <= n < names@.len() ==> built(
                ctx.units(packages, filter, resolve)->Ok_0,
                packages[k],
                TargetPredicate::Test,
                #[trigger] names@[n]@,
            ),
        filter matches CompileFilter::Only { benches: FilterRule::Just(names), .. } ==> forall|
            n: int,
        |
            0 <= n < names@.len() ==> built(
                ctx.units(packages, filter, resolve)->Ok_0,
                packages[k],
                TargetPredicate::Bench,
                #[trigger] names@[n]@,
            ),
{
    if let CompileFilter::Only { all_targets, lib, bins, examples, tests, benches } = filter {
        let units = ctx.units(packages, filter, resolve)->Ok_0;
        let pkg = packages[k];
        lemma_units_split(ctx, packages, filter, resolve);
        assert(ctx.package_units(pkg, filter, resolve) is Ok);
        let p0 = ctx.lib_proposals(pkg, lib, all_targets)->Ok_0;
        let p1 = ctx.rule_proposals(pkg, bins, "bin"@, TargetPredicate::Bin, ctx.mode)->Ok_0;
        let p2 = ctx.rule_proposals(
            pkg,
            examples,
            "example"@,
            TargetPredicate::Example,
            ctx.mode,
        )->Ok_0;
        let p3 = ctx.rule_proposals(
            pkg,
            tests,
            "test"@,
            test_filter(tests),
            test_mode(ctx.mode),
        )->Ok_0;
        let p4 = ctx.rule_proposals(
            pkg,
            benches,
            "bench"@,
            bench_filter(benches),
            bench_mode(ctx.mode),
        )->Ok_0;
        let proposals = ctx.filter_proposals(pkg, filter)->Ok_0;
        let full = proposed_for(ctx, pkg, filter);
        assert(proposals =~= p0 + p1 + p2 + p3 + p4);
        let none = Seq::<(Unit<'a>, bool)>::empty();
        lemma_rule_requires(
            ctx,
            pkg,
            bins,
            "bin"@,
            TargetPredicate::Bin,
            ctx.mode,
            p0,
            p2 + p3 + p4,
        );
        assert(proposals =~= p0 + p1 + (p2 + p3 + p4));
        lemma_rule_requires(
            ctx,
            pkg,
            examples,
            "example"@,
            TargetPredicate::Example,
            ctx.mode,
            p0 + p1,
            p3 + p4,
        );
        assert(proposals =~= p0 + p1 + p2 + (p3 + p4));
        lemma_rule_requires(
            ctx,
            pkg,
            tests,
            "test"@,
            test_filter(tests),
            test_mode(ctx.mode),
            p0 + p1 + p2,
            p4,
        );
        lemma_rule_requires(
            ctx,
            pkg,
            benches,
            "bench"@,
            bench_filter(benches),
            bench_mode(ctx.mode),
            p0 + p1 + p2 + p3,
            none,
        );
        assert(proposals =~= p0 + p1 + p2 + p3 + p4 + none);
        assert forall|kind: TargetPredicate, name: Seq<char>| #[trigger]
            required_in(proposals, pkg, kind, name) implies built(units, pkg, kind, name) by {
            let i = choose|i: int|
                {
                    &&& 0 <= i < proposals.len()
                    &&& (#[trigger] proposals[i]).1
                    &&& proposals[i].0.pkg == pkg
                    &&& kind.holds(*proposals[i].0.target)
                    &&& proposals[i].0.target.name@ == name
                };
            assert(full[i] == proposals[i]);
            lemma_kept(ctx, packages, filter, resolve, k, i);
            let j = choose|j: int| 0 <= j < units.len() && units[j] == proposals[i].0;
            assert(units[j].pkg == pkg);
        }
    }
}

/// Whether a rule asks for a target by a name that no target with a property has.
pub open spec fn lacks_named(targets: Seq<Target>, rule: FilterRule, kind: TargetPredicate) -> bool {
    rule matches FilterRule::Just(names) && exists|n: int|
        0 <= n < names@.len() && named_target(targets, kind, #[trigger] names@[n]@) is None
}

/// A build that asks for a target by a name that one of its packages lacks is
/// refused.
pub proof fn law_missing_target_refused<'w, 'a>(
    ctx: BuildContext<'w>,
    packages: Seq<&'a Package>,
    filter: CompileFilter,
    resolve: Resolve,
    k: int,
)
    requires
        0 <= k < packages.len(),
        filter matches CompileFilter::Only { bins, examples, tests, benches, .. } && {
            ||| lacks_named(packages[k].targets@, bins, TargetPredicate::Bin)
            ||| lacks_named(packages[k].targets@, examples, TargetPredicate::Example)
            ||| lacks_named(packages[k].targets@, tests, TargetPredicate::Test)
            ||| lacks_named(packages[k].targets@, benches, TargetPredicate::Bench)
        },
    ensures
        ctx.units(packages, filter, resolve) is Err,
{
    if let CompileFilter::Only { all_targets, lib, bins, examples, tests, benches } = filter {
        let pkg = packages[k];
        let targets = pkg.targets@;
        lemma_units_split(ctx, packages, filter, resolve);
        assert(packages[k] == pkg);
        lemma_unnamed(targets, bins, "bin"@, TargetPredicate::Bin);
        lemma_unnamed(targets, examples, "example"@, TargetPredicate::Example);
        lemma_unnamed(targets, tests, "test"@, TargetPredicate::Test);
        lemma_unnamed(targets, benches, "bench"@, TargetPredicate::Bench);
        assert(ctx.filter_proposals(pkg, filter) is Err);
        assert(ctx.package_units(pkg, filter, resolve) is Err);
    }
}

proof fn lemma_unnamed(
    targets: Seq<Target>,
    rule: FilterRule,
    desc: Seq<char>,
    kind: TargetPredicate,
)
    ensures
        lacks_named(targets, rule, kind) ==> rule_targets(targets, rule, desc, kind) is Err,
{
    if let FilterRule::Just(names) = rule {
        if lacks_named(targets, rule, kind) {
            let n = choose|n: int|
                0 <= n < names@.len() && named_target(
                    targets,
                    kind,
                    #[trigger] names@[n]@,
                ) is None;
            assert(missing_pred(targets, kind)(names@[n]));
            lemma_match_holds(names@, missing_pred(targets, kind));
        }
    }
}

/// Where integration tests or benchmarks of a package are run, the binaries of
/// the package are built as well, save those that lack features.
pub proof fn law_tests_bring_binaries<'w, 'a>(
    ctx: BuildContext<'w>,
    packages: Seq<&'a Package>,
    filter: CompileFilter,
    resolve: Resolve,
    unit: Unit<'a>,
    t: int,
)
    requires
        !(ctx.mode is Check),
        ctx.units(packages, filter, resolve) is Ok,
        ctx.units(packages, filter, resolve)->Ok_0.contains(unit),
        runs_binaries(unit),
        0 <= t < unit.pkg.targets@.len(),
        unit.pkg.targets@[t].bin(),
        ready(unit.pkg.targets@[t], resolve.available_features(unit.pkg.package_id@)),
    ensures
        ctx.units(packages, filter, resolve)->Ok_0.contains(
            ctx.unit(unit.pkg, &unit.pkg.targets@[t], CompileMode::Build),
        ),
        ctx.unit(unit.pkg, &unit.pkg.targets@[t], CompileMode::Build).mode is Build,
{
    let k = lemma_origin(ctx, packages, filter, resolve, unit);
    let pkg = packages[k];
    let all = refs::<Target>(pkg.targets@);
    let proposals = ctx.filter_proposals(pkg, filter)->Ok_0;
    let full = proposed_for(ctx, pkg, filter);
    let bins = all.filter(kind_pred(TargetPredicate::Bin));
    lemma_filter_members(all, kind_pred(TargetPredicate::Bin));
    let i = choose|i: int| 0 <= i < full.len() && (#[trigger] full[i]).0 == unit;
    // A binary does not itself run binaries, so the unit was proposed.
    assert(i < proposals.len()) by {
        if i >= proposals.len() {
            let b = bins[i - proposals.len()];
            assert(bins.contains(b));
            assert(full[i].0 == ctx.unit(pkg, b, CompileMode::Build));
        }
    }
    assert(full[i] == proposals[i]);
    assert(runs_binaries(proposals[i].0));
    assert(all[t] == &pkg.targets@[t]);
    assert(bins.contains(all[t]));
    let j = choose|j: int| 0 <= j < bins.len() && bins[j] == all[t];
    assert(full[proposals.len() + j] == (ctx.unit(pkg, all[t], CompileMode::Build), false));
    lemma_kept(ctx, packages, filter, resolve, k, proposals.len() + j);
}

/// When nothing is specified for a test run, the library whose documentation is
/// tested is built, even if no tests are made of it.
pub proof fn law_test_builds_doctested_lib<'w, 'a>(
    ctx: BuildContext<'w>,
    packages: Seq<&'a Package>,
    filter: CompileFilter,
    resolve: Resolve,
    k: int,
)
    requires
        ctx.mode is Test,
        filter is Default,
        ctx.units(packages, filter, resolve) is Ok,
        0 <= k < packages.len(),
    ensures
        first_match(refs(packages[k].targets@), doctested_lib_pred()) matches Some(lib)
            ==> ctx.units(packages, filter, resolve)->Ok_0.contains(
            ctx.unit(packages[k], lib, CompileMode::Build),
        ),
{
    let pkg = packages[k];
    let all = refs::<Target>(pkg.targets@);
    if let Some(lib) = first_match(all, doctested_lib_pred()) {
        lemma_match_holds(all, doctested_lib_pred());
        let proposals = ctx.filter_proposals(pkg, filter)->Ok_0;
        let full = proposed_for(ctx, pkg, filter);
        let i = proposals.len() - 1;
        assert(full[i] == (ctx.unit(pkg, lib, CompileMode::Build), false));
        lemma_kept(ctx, packages, filter, resolve, k, i);
    }
}

/// Whether a filter asks for nothing that a package could lack: no target by its
/// name, and no library but among all targets.
pub open spec fn asks_for_no_more_than_there_is(filter: CompileFilter) -> bool {
    match filter {
        CompileFilter::Default { required_features_filterable } => required_features_filterable,
        CompileFilter::Only { all_targets, lib, bins, examples, tests, benches } => {
            &&& lib ==> all_targets
            &&& bins is All
            &&& examples is All
            &&& tests is All
            &&& benches is All
        },
    }
}

/// Whether none of the proposals must be built.
spec fn all_optional<'a>(proposals: Seq<(Unit<'a>, bool)>) -> bool {
    forall|i: int| 0 <= i < proposals.len() ==> !(#[trigger] proposals[i]).1
}

/// A rule for all targets of a kind requires none of them.
proof fn lemma_all_optional<'w, 'a>(
    ctx: BuildContext<'w>,
    pkg: &'a Package,
    rule: FilterRule,
    desc: Seq<char>,
    kind: TargetPredicate,
    target_mode: CompileMode,
    before: Result<Seq<(Unit<'a>, bool)>, CompileErrorView>,
)
    requires
        rule is All,
        before is Ok,
        all_optional(before->Ok_0),
    ensures
        ({
            let after = chain(before, ctx.rule_proposals(pkg, rule, desc, kind, target_mode));
            after is Ok && all_optional(after->Ok_0)
        }),
{
}

proof fn lemma_none_required<'w, 'a>(ctx: BuildContext<'w>, pkg: &'a Package, filter: CompileFilter)
    requires
        asks_for_no_more_than_there_is(filter),
    ensures
        ctx.filter_proposals(pkg, filter) is Ok,
        all_optional(ctx.filter_proposals(pkg, filter)->Ok_0),
{
    if let CompileFilter::Only { all_targets, lib, bins, examples, tests, benches } = filter {
        let p0 = ctx.lib_proposals(pkg, lib, all_targets);
        assert(all_optional(p0->Ok_0));
        lemma_all_optional(ctx, pkg, bins, "bin"@, TargetPredicate::Bin, ctx.mode, p0);
        let p1 = chain(
            p0,
            ctx.rule_proposals(pkg, bins, "bin"@, TargetPredicate::Bin, ctx.mode),
        );
        let example = TargetPredicate::Example;
        lemma_all_optional(ctx, pkg, examples, "example"@, example, ctx.mode, p1);
        let p2 = chain(p1, ctx.rule_proposals(pkg, examples, "example"@, example, ctx.mode));
        let m3 = test_mode(ctx.mode);
        lemma_all_optional(ctx, pkg, tests, "test"@, test_filter(tests), m3, p2);
        let p3 = chain(p2, ctx.rule_proposals(pkg, tests, "test"@, test_filter(tests), m3));
        let m4 = bench_mode(ctx.mode);
        lemma_all_optional(ctx, pkg, benches, "bench"@, bench_filter(benches), m4, p3);
    }
}

/// Targets that were not asked for by name are silently skipped if features are
/// missing: such a build is never refused.
pub proof fn law_unnamed_targets_never_refused<'w, 'a>(
    ctx: BuildContext<'w>,
    packages: Seq<&'a Package>,
    filter: CompileFilter,
    resolve: Resolve,
)
    requires
        asks_for_no_more_than_there_is(filter),
    ensures
        ctx.units(packages, filter, resolve) is Ok,
{
    lemma_units_split(ctx, packages, filter, resolve);
    assert forall|k: int| 0 <= k < packages.len() implies ctx.package_units(
        #[trigger] packages[k],
        filter,
        resolve,
    ) is Ok by {
        let pkg = packages[k];
        lemma_none_required(ctx, pkg, filter);
        assert(all_optional(proposed_for(ctx, pkg, filter)));
        lemma_accepted(
            proposed_for(ctx, pkg, filter),
            resolve.available_features(pkg.package_id@),
        );
    }
}

/// A build that asks for the library of a package that has none is refused,
/// unless it asks for all targets.
pub proof fn law_missing_lib_refused<'w, 'a>(
    ctx: BuildContext<'w>,
    packages: Seq<&'a Package>,
    filter: CompileFilter,
    resolve: Resolve,
    k: int,
)
    requires
        0 <= k < packages.len(),
        filter matches CompileFilter::Only { all_targets: false, lib: true, .. },
        forall|t: int|
            0 <= t < packages[k].targets@.len() ==> !(#[trigger] packages[k].targets@[t]).lib(),
    ensures
        ctx.units(packages, filter, resolve) is Err,
{
    let pkg = packages[k];
    let all = refs::<Target>(pkg.targets@);
    lemma_units_split(ctx, packages, filter, resolve);
    lemma_match_holds(all, lib_pred());
    if let Some(t) = first_match(all, lib_pred()) {
        let i = choose|i: int| 0 <= i < all.len() && all[i] == t;
        assert(!pkg.targets@[i].lib());
    }
    assert(ctx.package_units(packages[k], filter, resolve) is Err);
}

/// Whether a unit is among the proposals.
spec fn proposes<'a>(proposals: Seq<(Unit<'a>, bool)>, unit: Unit<'a>) -> bool {
    exists|i: int| 0 <= i < proposals.len() && (#[trigger] proposals[i]).0 == unit
}

/// Two lists of proposals propose together what they propose each.
proof fn lemma_chain_proposes<'a>(
    a: Result<Seq<(Unit<'a>, bool)>, CompileErrorView>,
    b: Result<Seq<(Unit<'a>, bool)>, CompileErrorView>,
)
    requires
        chain(a, b) is Ok,
    ensures
        a is Ok && b is Ok,
        forall|unit: Unit<'a>| #[trigger]
            proposes(chain(a, b)->Ok_0, unit) <==> proposes(a->Ok_0, unit) || proposes(
                b->Ok_0,
                unit,
            ),
{
    let x = a->Ok_0;
    let y = b->Ok_0;
    assert forall|unit: Unit<'a>| #[trigger] proposes(x + y, unit) <==> proposes(x, unit)
        || proposes(y, unit) by {
        if proposes(x + y, unit) {
            let i = choose|i: int| 0 <= i < (x + y).len() && (#[trigger] (x + y)[i]).0 == unit;
            if i < x.len() {
                assert(x[i].0 == unit);
            } else {
                assert(y[i - x.len()].0 == unit);
            }
        }
        if proposes(x, unit) {
            let i = choose|i: int| 0 <= i < x.len() && (#[trigger] x[i]).0 == unit;
            assert((x + y)[i].0 == unit);
        }
        if proposes(y, unit) {
            let i = choose|i: int| 0 <= i < y.len() && (#[trigger] y[i]).0 == unit;
            assert((x + y)[x.len() + i].0 == unit);
        }
    }
}

/// What a filter for some targets proposes.
proof fn lemma_only_proposes<'w, 'a>(
    ctx: BuildContext<'w>,
    pkg: &'a Package,
    filter: CompileFilter,
    unit: Unit<'a>,
)
    requires
        ctx.filter_proposals(pkg, filter) is Ok,
    ensures
        filter matches CompileFilter::Only { all_targets, lib, bins, examples, tests, benches } ==> {
            let p0 = ctx.lib_proposals(pkg, lib, all_targets);
            let p1 = ctx.rule_proposals(pkg, bins, "bin"@, TargetPredicate::Bin, ctx.mode);
            let p2 = ctx.rule_proposals(
                pkg,
                examples,
                "example"@,
                TargetPredicate::Example,
                ctx.mode,
            );
            let p3 = ctx.rule_proposals(
                pkg,
                tests,
                "test"@,
                test_filter(tests),
                test_mode(ctx.mode),
            );
            let p4 = ctx.rule_proposals(
                pkg,
                benches,
                "bench"@,
                bench_filter(benches),
                bench_mode(ctx.mode),
            );
            &&& p0 is Ok && p1 is Ok && p2 is Ok && p3 is Ok && p4 is Ok
            &&& proposes(ctx.filter_proposals(pkg, filter)->Ok_0, unit) <==> {
                ||| proposes(p0->Ok_0, unit)
                ||| proposes(p1->Ok_0, unit)
                ||| proposes(p2->Ok_0, unit)
                ||| proposes(p3->Ok_0, unit)
                ||| proposes(p4->Ok_0, unit)
            }
        },
{
    if let CompileFilter::Only { all_targets, lib, bins, examples, tests, benches } = filter {
        let p0 = ctx.lib_proposals(pkg, lib, all_targets);
        let p1 = ctx.rule_proposals(pkg, bins, "bin"@, TargetPredicate::Bin, ctx.mode);
        let p2 = ctx.rule_proposals(pkg, examples, "example"@, TargetPredicate::Example, ctx.mode);
        let p3 = ctx.rule_proposals(pkg, tests, "test"@, test_filter(tests), test_mode(ctx.mode));
        let p4 = ctx.rule_proposals(
            pkg,
            benches,
            "bench"@,
            bench_filter(benches),
            bench_mode(ctx.mode),
        );
        lemma_chain_proposes(chain(chain(chain(p0, p1), p2), p3), p4);
        lemma_chain_proposes(chain(chain(p0, p1), p2), p3);
        lemma_chain_proposes(chain(p0, p1), p2);
        lemma_chain_proposes(p0, p1);
    }
}

/// A rule for all targets of a kind proposes each of them.
proof fn lemma_all_proposes<'w, 'a>(
    ctx: BuildContext<'w>,
    pkg: &'a Package,
    desc: Seq<char>,
    kind: TargetPredicate,
    target_mode: CompileMode,
    t: int,
)
    requires
        0 <= t < pkg.targets@.len(),
        kind.holds(pkg.targets@[t]),
    ensures
        proposes(
            ctx.rule_proposals(pkg, FilterRule::All, desc, kind, target_mode)->Ok_0,
            ctx.unit(pkg, &pkg.targets@[t], target_mode),
        ),
{
    let all = refs::<Target>(pkg.targets@);
    let taken = all.filter(kind_pred(kind));
    lemma_filter_members(all, kind_pred(kind));
    assert(all[t] == &pkg.targets@[t]);
    assert(all.contains(all[t]));
    assert(taken.contains(all[t]));
    let i = choose|i: int| 0 <= i < taken.len() && taken[i] == all[t];
    let proposals = ctx.rule_proposals(pkg, FilterRule::All, desc, kind, target_mode)->Ok_0;
    assert(proposals[i].0 == ctx.unit(pkg, &pkg.targets@[t], target_mode));
}

/// The mode that a filter asks for a target in, where it asks for the target
/// without its name.
pub open spec fn asked_in(
    filter: CompileFilter,
    targets: Seq<Target>,
    target: Target,
    mode: CompileMode,
    target_mode: CompileMode,
) -> bool {
    match filter {
        CompileFilter::Default { .. } => {
            &&& default_targets(targets, mode).contains(&target)
            &&& target_mode == mode
        },
        CompileFilter::Only { lib, bins, examples, tests, benches, .. } => {
            ||| lib && first_match(refs(targets), lib_pred()) == Some(&target) && target_mode == mode
            ||| bins is All && target.bin() && target_mode == mode
            ||| examples is All && target.example() && target_mode == mode
            ||| tests is All && target.tested && target_mode == test_mode(mode)
            ||| benches is All && target.benched && target_mode == bench_mode(mode)
        },
    }
}

/// Nothing that was asked for is left out: a target that was asked for with all
/// of its kind, or because nothing was specified, is built if it has the
/// features that it requires.
pub proof fn law_ready_targets_are_built<'w, 'a>(
    ctx: BuildContext<'w>,
    packages: Seq<&'a Package>,
    filter: CompileFilter,
    resolve: Resolve,
    k: int,
    t: int,
    target_mode: CompileMode,
)
    requires
        ctx.units(packages, filter, resolve) is Ok,
        0 <= k < packages.len(),
        0 <= t < packages[k].targets@.len(),
        asked_in(filter, packages[k].targets@, packages[k].targets@[t], ctx.mode, target_mode),
        ready(packages[k].targets@[t], resolve.available_features(packages[k].package_id@)),
    ensures
        ctx.units(packages, filter, resolve)->Ok_0.contains(
            ctx.unit(packages[k], &packages[k].targets@[t], target_mode),
        ),
{
    let pkg = packages[k];
    let unit = ctx.unit(pkg, &pkg.targets@[t], target_mode);
    lemma_units_split(ctx, packages, filter, resolve);
    assert(ctx.package_units(packages[k], filter, resolve) is Ok);
    let proposals = ctx.filter_proposals(pkg, filter)->Ok_0;
    assert(proposes(proposals, unit)) by {
        match filter {
            CompileFilter::Default { required_features_filterable } => {
                let taken = default_targets(pkg.targets@, ctx.mode);
                let i = choose|i: int| 0 <= i < taken.len() && taken[i] == &pkg.targets@[t];
                assert(proposals[i].0 == unit);
            },
            CompileFilter::Only { all_targets, lib, bins, examples, tests, benches } => {
                lemma_only_proposes(ctx, pkg, filter, unit);
                let target = pkg.targets@[t];
                if lib && first_match(refs(pkg.targets@), lib_pred()) == Some(&target)
                    && target_mode == ctx.mode {
                    assert(ctx.lib_proposals(pkg, lib, all_targets)->Ok_0[0].0 == unit);
                } else if bins is All && target.bin() && target_mode == ctx.mode {
                    lemma_all_proposes(ctx, pkg, "bin"@, TargetPredicate::Bin, target_mode, t);
                } else if examples is All && target.example() && target_mode == ctx.mode {
                    let example = TargetPredicate::Example;
                    lemma_all_proposes(ctx, pkg, "example"@, example, target_mode, t);
                } else if tests is All && target.tested && target_mode == test_mode(ctx.mode) {
                    lemma_all_proposes(ctx, pkg, "test"@, TargetPredicate::Tested, target_mode, t);
                } else {
                    let benched = TargetPredicate::Benched;
                    lemma_all_proposes(ctx, pkg, "bench"@, benched, target_mode, t);
                }
            },
        }
    }
    let i = choose|i: int| 0 <= i < proposals.len() && (#[trigger] proposals[i]).0 == unit;
    assert(proposed_for(ctx, pkg, filter)[i] == proposals[i]);
    lemma_kept(ctx, packages, filter, resolve, k, i);
}

/// What is proposed without need for dev-dependencies.
proof fn lemma_plain_proposals<'w, 'a>(
    ctx: BuildContext<'w>,
    pkg: &'a Package,
    filter: CompileFilter,
    unit: Unit<'a>,
)
    requires
        !filter.dev_deps_needed(ctx.mode),
        filter is Default && ctx.mode is Doc ==> forall|t: int|
            0 <= t < pkg.targets@.len() && (#[trigger] pkg.targets@[t]).documented
                ==> pkg.targets@[t].lib() || pkg.targets@[t].bin(),
        ctx.filter_proposals(pkg, filter) is Ok,
        proposes(ctx.filter_proposals(pkg, filter)->Ok_0, unit),
    ensures
        unit.target.lib() || unit.target.bin(),
        unit.mode == ctx.mode,
{
    let all = refs::<Target>(pkg.targets@);
    match filter {
        CompileFilter::Default { required_features_filterable } => {
            let pred = default_pred(pkg.targets@, ctx.mode);
            let taken = default_targets(pkg.targets@, ctx.mode);
            lemma_filter_members(all, pred);
            let proposals = ctx.filter_proposals(pkg, filter)->Ok_0;
            let i = choose|i: int| 0 <= i < proposals.len() && (#[trigger] proposals[i]).0 == unit;
            assert(all.filter(pred).contains(taken[i]));
            let t = choose|t: int| 0 <= t < all.len() && all[t] == taken[i];
            assert(pkg.targets@[t] == *taken[i]);
        },
        CompileFilter::Only { all_targets, lib, bins, examples, tests, benches } => {
            lemma_only_proposes(ctx, pkg, filter, unit);
            lemma_match_holds(all, lib_pred());
            lemma_rule_members(pkg.targets@, bins, "bin"@, TargetPredicate::Bin);
        },
    }
}

/// Dev-dependencies are there where they can be needed: a build that is resolved
/// without them has no units but libraries and binaries, and all in its own
/// mode, so that none is a test.  When documentation is built and nothing is
/// specified, that is so if only libraries and binaries are documented.
pub proof fn law_dev_deps_cover_units<'w, 'a>(
    ctx: BuildContext<'w>,
    packages: Seq<&'a Package>,
    filter: CompileFilter,
    resolve: Resolve,
)
    requires
        !filter.dev_deps_needed(ctx.mode),
        filter is Default && ctx.mode is Doc ==> forall|k: int, t: int|
            0 <= k < packages.len() && 0 <= t < packages[k].targets@.len() && (
            #[trigger] packages[k].targets@[t]).documented ==> packages[k].targets@[t].lib()
                || packages[k].targets@[t].bin(),
    ensures
        ctx.units(packages, filter, resolve) matches Ok(units) ==> forall|i: int|
            0 <= i < units.len() ==> {
                &&& (#[trigger] units[i]).target.lib() || units[i].target.bin()
                &&& units[i].mode == ctx.mode
            },
{
    if let Ok(units) = ctx.units(packages, filter, resolve) {
        assert forall|i: int| 0 <= i < units.len() implies {
            &&& (#[trigger] units[i]).target.lib() || units[i].target.bin()
            &&& units[i].mode == ctx.mode
        } by {
            let k = lemma_origin(ctx, packages, filter, resolve, units[i]);
            let pkg = packages[k];
            let proposals = ctx.filter_proposals(pkg, filter)->Ok_0;
            assert forall|j: int| 0 <= j < proposals.len() implies {
                let u = (#[trigger] proposals[j]).0;
                &&& u.target.lib() || u.target.bin()
                &&& u.mode == ctx.mode
            } by {
                lemma_plain_proposals(ctx, pkg, filter, proposals[j].0);
            }
            assert(proposed_for(ctx, pkg, filter) == proposals);
        }
    }
}

/// A refusal is that of the first package that gives cause for one.
pub proof fn law_first_refusal_counts<'w, 'a>(
    ctx: BuildContext<'w>,
    packages: Seq<&'a Package>,
    filter: CompileFilter,
    resolve: Resolve,
) -> (k: int)
    requires
        ctx.units(packages, filter, resolve) is Err,
    ensures
        0 <= k < packages.len(),
        ctx.package_units(packages[k], filter, resolve) == ctx.units(packages, filter, resolve),
        forall|j: int|
            0 <= j < k ==> ctx.package_units(#[trigger] packages[j], filter, resolve) is Ok,
    decreases packages.len(),
{
    let front = packages.drop_last();
    if ctx.units(front, filter, resolve) is Err {
        let k = law_first_refusal_counts(ctx, front, filter, resolve);
        assert forall|j: int| 0 <= j < k implies ctx.package_units(
            #[trigger] packages[j],
            filter,
            resolve,
        ) is Ok by {
            assert(front[j] == packages[j]);
        }
        k
    } else {
        lemma_units_split(ctx, front, filter, resolve);
        assert forall|j: int| 0 <= j < front.len() implies ctx.package_units(
            #[trigger] packages[j],
            filter,
            resolve,
        ) is Ok by {
            assert(front[j] == packages[j]);
        }
        packages.len() - 1
    }
}

} // verus!
