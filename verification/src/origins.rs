//! What the units of a build come from: what is proposed, what is added and what
//! is left out, told by the kinds and marks of targets.

use crate::error::CompileErrorView;
use crate::filter::{CompileFilter, FilterRule};
use crate::lists::{ascending, first_match, law_filter_positions, law_first_match, refs};
use crate::mode::{CompileMode, Kind, ProfileFor};
use crate::package::{law_members_are_listed, same_package, Package};
use crate::resolve::Resolve;
use crate::select::{
    default_targets, first_named, follows_rule, kind_pred, law_default_targets,
    law_doctest_takes_the_first_lib, law_rule_gives_what_it_asks_for, rule_targets,
};
use crate::target::{Target, TargetKind, TargetPredicate};
use crate::text::texts;
use crate::units::{
    accepted, blocked_pred, doctested_lib_pred, lib_pred, ready, ready_pred, runs_binaries,
    BuildContext, Unit,
};
use vstd::prelude::*;

verus! {

/// Whether something in a mode is a test.
pub open spec fn tests(mode: CompileMode) -> bool {
    ||| mode == CompileMode::Test
    ||| mode == CompileMode::Bench
    ||| mode == CompileMode::Doctest
    ||| mode == (CompileMode::Check { test: true })
}

/// Whether a target is an integration test or a benchmark.
pub open spec fn test_or_bench(target: Target) -> bool {
    target.kind == TargetKind::Test || target.kind == TargetKind::Bench
}

/// Whether a target is an example.
pub open spec fn an_example(target: Target) -> bool {
    target.kind == TargetKind::ExampleBin || target.kind == TargetKind::ExampleLib
}

/// Every field of a unit follows from the package, the target, the mode it is
/// asked for in, and what all units have in common: examples are never tests,
/// integration tests and benchmarks are never merely built, and benchmarks
/// differ from tests in their profile alone.
pub proof fn law_unit_of_a_target<'w, 'a>(
    ctx: BuildContext<'w>,
    pkg: &'a Package,
    target: &'a Target,
    target_mode: CompileMode,
)
    ensures
        ({
            let unit = ctx.unit(pkg, target, target_mode);
            let as_is = unit.mode == target_mode && unit.profile.mode == target_mode;
            let as_test = unit.mode == CompileMode::Test && unit.profile.mode == CompileMode::Test;
            let as_bench = unit.mode == CompileMode::Test && unit.profile.mode
                == CompileMode::Bench;
            let as_build = unit.mode == CompileMode::Build && unit.profile.mode
                == CompileMode::Build;
            &&& unit.pkg == pkg
            &&& unit.target == target
            &&& target.for_host ==> unit.kind == Kind::Host
            &&& !target.for_host ==> unit.kind == ctx.default_arch_kind
            &&& unit.profile.pkg_name@ == pkg.package_id.name@
            &&& unit.profile.release == ctx.release
            &&& unit.profile.is_member <==> exists|i: int|
                0 <= i < ctx.ws.members@.len() && same_package(
                    (#[trigger] ctx.ws.members@[i]).package_id,
                    pkg.package_id,
                )
            &&& tests(ctx.mode) ==> unit.profile.profile_for == ProfileFor::TestDependency
            &&& !tests(ctx.mode) ==> unit.profile.profile_for == ProfileFor::Any
            &&& target_mode == CompileMode::Test ==> if an_example(*target) {
                as_build
            } else {
                as_test
            }
            &&& target_mode == CompileMode::Build ==> if target.kind == TargetKind::Test {
                as_test
            } else if target.kind == TargetKind::Bench {
                as_bench
            } else {
                as_build
            }
            &&& target_mode == CompileMode::Bench ==> as_bench
            &&& target_mode is Check || target_mode is Doc || target_mode is Doctest || target_mode
                is RunCustomBuild ==> as_is
        }),
{
    law_members_are_listed(*ctx.ws, *pkg);
}

/// The units of targets at some positions, all asked for in one mode and with
/// the same flag.
pub open spec fn units_at<'w, 'a>(
    ctx: BuildContext<'w>,
    pkg: &'a Package,
    at: Seq<int>,
    target_mode: CompileMode,
    required: bool,
) -> Seq<(Unit<'a>, bool)> {
    Seq::new(at.len(), |k: int| (ctx.unit(pkg, &pkg.targets@[at[k]], target_mode), required))
}

/// What is proposed when the user doesn't specify any targets: the targets that
/// the mode takes, and behind them, for a test run and no other, the first
/// library that has tests in its documentation, which need not have its features.
pub proof fn law_default_proposals<'w, 'a>(
    ctx: BuildContext<'w>,
    pkg: &'a Package,
    required_features_filterable: bool,
) -> (i: int)
    ensures
        ctx.filter_proposals(
            pkg,
            CompileFilter::Default { required_features_filterable },
        ) matches Ok(proposals) && {
            let taken = default_targets(pkg.targets@, ctx.mode);
            let targets = pkg.targets@;
            &&& forall|k: int|
                0 <= k < taken.len() ==> #[trigger] proposals[k] == (
                    ctx.unit(pkg, taken[k], ctx.mode),
                    !required_features_filterable,
                )
            &&& proposals.len() == taken.len() || proposals.len() == taken.len() + 1
            &&& proposals.len() == taken.len() <==> (ctx.mode != CompileMode::Test || forall|j: int|
                0 <= j < targets.len() ==> !((#[trigger] targets[j]).kind == TargetKind::Lib
                    && targets[j].doctested))
            &&& proposals.len() > taken.len() ==> {
                &&& 0 <= i < targets.len()
                &&& targets[i].kind == TargetKind::Lib && targets[i].doctested
                &&& forall|j: int|
                    0 <= j < i ==> !((#[trigger] targets[j]).kind == TargetKind::Lib
                        && targets[j].doctested)
                &&& proposals.last() == (ctx.unit(pkg, &targets[i], CompileMode::Build), false)
            }
        },
{
    let targets = pkg.targets@;
    let all = refs::<Target>(targets);
    let pred = doctested_lib_pred();
    let i = law_first_match(all, pred);
    if first_match(all, pred) is Some {
        assert(*all[i] == targets[i]);
        assert forall|j: int| 0 <= j < i implies !((#[trigger] targets[j]).kind == TargetKind::Lib
            && targets[j].doctested) by {
            assert(!pred(all[j]));
        }
    } else {
        assert forall|j: int| 0 <= j < targets.len() implies !((#[trigger] targets[j]).kind
            == TargetKind::Lib && targets[j].doctested) by {
            assert(!pred(all[j]));
        }
    }
    i
}

/// Whether positions among targets are that of the library, the first if there
/// are several, where one is asked for.
pub open spec fn follows_lib(targets: Seq<Target>, lib: bool, at: Seq<int>) -> bool {
    if lib && exists|i: int| 0 <= i < targets.len() && (#[trigger] targets[i]).kind
        == TargetKind::Lib {
        &&& at.len() == 1
        &&& 0 <= at[0] < targets.len()
        &&& targets[at[0]].kind == TargetKind::Lib
        &&& forall|j: int| 0 <= j < at[0] ==> (#[trigger] targets[j]).kind != TargetKind::Lib
    } else {
        at.len() == 0
    }
}

/// Where each group of proposals for targets that were asked for comes from.
pub struct Groups {
    pub lib: Seq<int>,
    pub bins: Seq<int>,
    pub examples: Seq<int>,
    pub tests: Seq<int>,
    pub benches: Seq<int>,
}

/// What is proposed where targets were asked for: the library, binaries,
/// examples, tests and benchmarks, in this order, each as its own rule asks.
/// With all tests, everything that is marked as tested is meant, and with all
/// benchmarks everything that is marked as benched.  Tests and benchmarks are
/// asked for as such by a build, and checked as tests by a check.  Targets are
/// required exactly if they were asked for by name.
pub proof fn law_only_proposals<'w, 'a>(
    ctx: BuildContext<'w>,
    pkg: &'a Package,
    all_targets: bool,
    lib: bool,
    bins: FilterRule,
    examples: FilterRule,
    tests: FilterRule,
    benches: FilterRule,
    test_mode: CompileMode,
    bench_mode: CompileMode,
) -> (groups: Groups)
    requires
        ctx.mode == CompileMode::Build ==> test_mode == CompileMode::Test && bench_mode
            == CompileMode::Bench,
        ctx.mode is Check ==> test_mode == (CompileMode::Check { test: true }) && bench_mode
            == test_mode,
        ctx.mode != CompileMode::Build && !(ctx.mode is Check) ==> test_mode == ctx.mode
            && bench_mode == ctx.mode,
    ensures
        ({
            let filter = CompileFilter::Only { all_targets, lib, bins, examples, tests, benches };
            let targets = pkg.targets@;
            let test_kind = if tests is All {
                TargetPredicate::Tested
            } else {
                TargetPredicate::Test
            };
            let bench_kind = if benches is All {
                TargetPredicate::Benched
            } else {
                TargetPredicate::Bench
            };
            let no_lib = lib && !all_targets && forall|i: int|
                0 <= i < targets.len() ==> (#[trigger] targets[i]).kind != TargetKind::Lib;
            let found_bins = rule_targets(targets, bins, "bin"@, TargetPredicate::Bin);
            let found_examples = rule_targets(
                targets,
                examples,
                "example"@,
                TargetPredicate::Example,
            );
            let found_tests = rule_targets(targets, tests, "test"@, test_kind);
            let found_benches = rule_targets(targets, benches, "bench"@, bench_kind);
            match ctx.filter_proposals(pkg, filter) {
                Ok(proposals) => {
                    &&& !no_lib
                    &&& follows_lib(targets, lib, groups.lib)
                    &&& follows_rule(targets, bins, TargetPredicate::Bin, groups.bins)
                    &&& follows_rule(targets, examples, TargetPredicate::Example, groups.examples)
                    &&& follows_rule(targets, tests, test_kind, groups.tests)
                    &&& follows_rule(targets, benches, bench_kind, groups.benches)
                    &&& proposals == units_at(ctx, pkg, groups.lib, ctx.mode, false) + units_at(
                        ctx,
                        pkg,
                        groups.bins,
                        ctx.mode,
                        bins is Just,
                    ) + units_at(ctx, pkg, groups.examples, ctx.mode, examples is Just) + units_at(
                        ctx,
                        pkg,
                        groups.tests,
                        test_mode,
                        tests is Just,
                    ) + units_at(ctx, pkg, groups.benches, bench_mode, benches is Just)
                },
                Err(error) => if no_lib {
                    error == CompileErrorView::NoLibrary
                } else if let Err(e) = found_bins {
                    error == e
                } else if let Err(e) = found_examples {
                    error == e
                } else if let Err(e) = found_tests {
                    error == e
                } else {
                    found_benches matches Err(e) && error == e
                },
            }
        }),
{
    let filter = CompileFilter::Only { all_targets, lib, bins, examples, tests, benches };
    let targets = pkg.targets@;
    let test_kind = if tests is All {
        TargetPredicate::Tested
    } else {
        TargetPredicate::Test
    };
    let bench_kind = if benches is All {
        TargetPredicate::Benched
    } else {
        TargetPredicate::Bench
    };
    let lib_at = lemma_lib_proposals(ctx, pkg, lib, all_targets);
    let bins_at = lemma_rule_proposals(ctx, pkg, bins, "bin"@, TargetPredicate::Bin, ctx.mode);
    let examples_at = lemma_rule_proposals(
        ctx,
        pkg,
        examples,
        "example"@,
        TargetPredicate::Example,
        ctx.mode,
    );
    let tests_at = lemma_rule_proposals(ctx, pkg, tests, "test"@, test_kind, test_mode);
    let benches_at = lemma_rule_proposals(ctx, pkg, benches, "bench"@, bench_kind, bench_mode);
    Groups {
        lib: lib_at,
        bins: bins_at,
        examples: examples_at,
        tests: tests_at,
        benches: benches_at,
    }
}

proof fn lemma_lib_proposals<'w, 'a>(
    ctx: BuildContext<'w>,
    pkg: &'a Package,
    lib: bool,
    all_targets: bool,
) -> (at: Seq<int>)
    ensures
        match ctx.lib_proposals(pkg, lib, all_targets) {
            Ok(proposals) => {
                &&& follows_lib(pkg.targets@, lib, at)
                &&& proposals == units_at(ctx, pkg, at, ctx.mode, false)
                &&& !(lib && !all_targets && forall|i: int|
                    0 <= i < pkg.targets@.len() ==> (#[trigger] pkg.targets@[i]).kind
                        != TargetKind::Lib)
            },
            Err(error) => {
                &&& error == CompileErrorView::NoLibrary
                &&& lib && !all_targets
                &&& forall|i: int|
                    0 <= i < pkg.targets@.len() ==> (#[trigger] pkg.targets@[i]).kind
                        != TargetKind::Lib
            },
        },
{
    let targets = pkg.targets@;
    let all = refs::<Target>(targets);
    let i = law_first_match(all, lib_pred());
    if first_match(all, lib_pred()) is Some {
        assert(*all[i] == targets[i]);
        assert forall|j: int| 0 <= j < i implies (#[trigger] targets[j]).kind != TargetKind::Lib by {
            assert(!lib_pred()(all[j]));
        }
    } else {
        assert forall|j: int| 0 <= j < targets.len() implies (#[trigger] targets[j]).kind
            != TargetKind::Lib by {
            assert(!lib_pred()(all[j]));
        }
    }
    let at = if lib && first_match(all, lib_pred()) is Some {
        seq![i]
    } else {
        Seq::empty()
    };
    if let Ok(proposals) = ctx.lib_proposals(pkg, lib, all_targets) {
        assert(proposals =~= units_at(ctx, pkg, at, ctx.mode, false));
    }
    at
}

proof fn lemma_rule_proposals<'w, 'a>(
    ctx: BuildContext<'w>,
    pkg: &'a Package,
    rule: FilterRule,
    desc: Seq<char>,
    kind: TargetPredicate,
    target_mode: CompileMode,
) -> (at: Seq<int>)
    ensures
        match ctx.rule_proposals(pkg, rule, desc, kind, target_mode) {
            Ok(proposals) => {
                &&& follows_rule(pkg.targets@, rule, kind, at)
                &&& proposals == units_at(ctx, pkg, at, target_mode, rule is Just)
                &&& rule_targets(pkg.targets@, rule, desc, kind) is Ok
            },
            Err(error) => rule_targets(pkg.targets@, rule, desc, kind) matches Err(e) && e == error,
        },
{
    let (at, n) = law_rule_gives_what_it_asks_for(pkg.targets@, rule, desc, kind);
    if let Ok(proposals) = ctx.rule_proposals(pkg, rule, desc, kind, target_mode) {
        assert(proposals =~= units_at(ctx, pkg, at, target_mode, rule is Just));
    }
    at
}

/// Whether a target can be built with some features: it is a library, or each
/// feature that it lists is among them.
pub open spec fn buildable(target: Target, features: Set<Seq<char>>) -> bool {
    target.kind == TargetKind::Lib || (target.required_features matches Some(required)
        ==> forall|j: int|
        0 <= j < required@.len() ==> features.contains((#[trigger] required@[j])@))
}

/// Whether an integration test or a benchmark is run by what is proposed, in a
/// mode that does more than check.
pub open spec fn needs_binaries(mode: CompileMode, proposals: Seq<(Unit, bool)>) -> bool {
    !(mode is Check) && exists|p: int|
        {
            &&& 0 <= p < proposals.len()
            &&& tests((#[trigger] proposals[p]).0.mode)
            &&& test_or_bench(*proposals[p].0.target)
        }
}

/// Whether positions among targets are those of all binaries, in their order.
pub open spec fn all_binaries(targets: Seq<Target>, at: Seq<int>) -> bool {
    &&& ascending(at, targets.len())
    &&& forall|i: int|
        0 <= i < targets.len() ==> (#[trigger] at.contains(i) <==> targets[i].kind
            == TargetKind::Bin)
}

/// How the units of a package come from what is proposed.
pub struct Steps {
    /// The binaries that are added behind the proposals.
    pub bins: Seq<int>,
    /// Which of all these are kept.
    pub kept: Seq<int>,
    /// Which of all these refuses the build, if it is refused.
    pub blocked: int,
}

/// The units of a package are its proposals, with all its binaries behind them
/// exactly where an integration test or a benchmark among the proposals runs
/// them, and without what lacks features; their order stays.  What is required
/// and lacks features refuses the build, the first of these first.
pub proof fn law_package_units<'w, 'a>(
    ctx: BuildContext<'w>,
    pkg: &'a Package,
    filter: CompileFilter,
    resolve: Resolve,
) -> (steps: Steps)
    ensures
        match ctx.filter_proposals(pkg, filter) {
            Err(error) => ctx.package_units(pkg, filter, resolve) == Err::<
                Seq<Unit<'a>>,
                CompileErrorView,
            >(error),
            Ok(proposals) => {
                let full = proposals + units_at(ctx, pkg, steps.bins, CompileMode::Build, false);
                let features = resolve.available_features(pkg.package_id@);
                &&& if needs_binaries(ctx.mode, proposals) {
                    all_binaries(pkg.targets@, steps.bins)
                } else {
                    steps.bins.len() == 0
                }
                &&& match ctx.package_units(pkg, filter, resolve) {
                    Ok(units) => {
                        &&& ascending(steps.kept, full.len())
                        &&& units.len() == steps.kept.len()
                        &&& forall|k: int|
                            0 <= k < units.len() ==> #[trigger] units[k] == full[steps.kept[k]].0
                        &&& forall|p: int|
                            0 <= p < full.len() ==> (#[trigger] steps.kept.contains(p)
                                <==> buildable(*full[p].0.target, features))
                        &&& forall|p: int|
                            0 <= p < full.len() && (#[trigger] full[p]).1 ==> buildable(
                                *full[p].0.target,
                                features,
                            )
                    },
                    Err(error) => {
                        let n = steps.blocked;
                        &&& 0 <= n < full.len()
                        &&& full[n].1 && !buildable(*full[n].0.target, features)
                        &&& forall|p: int|
                            0 <= p < n && (#[trigger] full[p]).1 ==> buildable(
                                *full[p].0.target,
                                features,
                            )
                        &&& full[n].0.target.required_features matches Some(required) && error == (
                        CompileErrorView::FeaturesRequired {
                            target: full[n].0.target.name@,
                            features: texts(required@),
                        })
                    },
                }
            },
        },
{
    let features = resolve.available_features(pkg.package_id@);
    if let Ok(proposals) = ctx.filter_proposals(pkg, filter) {
        let bins = lemma_binaries(ctx, pkg, proposals);
        let full = ctx.with_binaries(pkg, proposals);
        let kept = law_filter_positions(full, ready_pred(features));
        let n = law_first_match(full, blocked_pred(features));
        assert forall|p: int| 0 <= p < full.len() implies ready(
            *(#[trigger] full[p]).0.target,
            features,
        ) == buildable(*full[p].0.target, features) by {
            lemma_buildable(*full[p].0.target, features);
        }
        assert(full == proposals + units_at(ctx, pkg, bins, CompileMode::Build, false));
        if first_match(full, blocked_pred(features)) is Some {
            assert forall|p: int| 0 <= p < n && (#[trigger] full[p]).1 implies buildable(
                *full[p].0.target,
                features,
            ) by {
                assert(!blocked_pred(features)(full[p]));
            }
        } else {
            assert forall|p: int| 0 <= p < full.len() && (#[trigger] full[p]).1 implies buildable(
                *full[p].0.target,
                features,
            ) by {
                assert(!blocked_pred(features)(full[p]));
            }
            assert forall|p: int| 0 <= p < full.len() implies (#[trigger] kept.contains(p)
                <==> buildable(*full[p].0.target, features)) by {
                assert(ready_pred(features)(full[p]) == ready(*full[p].0.target, features));
            }
            let units = accepted(full, features)->Ok_0;
            assert forall|k: int| 0 <= k < units.len() implies #[trigger] units[k]
                == full[kept[k]].0 by {
                assert(full.filter(ready_pred(features))[k] == full[kept[k]]);
            }
        }
        Steps { bins, kept, blocked: n }
    } else {
        Steps { bins: Seq::empty(), kept: Seq::empty(), blocked: 0 }
    }
}

proof fn lemma_buildable(target: Target, features: Set<Seq<char>>)
    ensures
        ready(target, features) == buildable(target, features),
{
    if let Some(required) = target.required_features {
        assert(target.required() == texts(required@));
        if ready(target, features) && target.kind != TargetKind::Lib {
            assert forall|j: int| 0 <= j < required@.len() implies features.contains(
                (#[trigger] required@[j])@,
            ) by {
                assert(features.contains(target.required()[j]));
            }
        }
        if buildable(target, features) && target.kind != TargetKind::Lib {
            assert forall|j: int| 0 <= j < target.required().len() implies features.contains(
                #[trigger] target.required()[j],
            ) by {
                assert(features.contains(required@[j]@));
            }
        }
    }
}

proof fn lemma_binaries<'w, 'a>(
    ctx: BuildContext<'w>,
    pkg: &'a Package,
    proposals: Seq<(Unit<'a>, bool)>,
) -> (bins: Seq<int>)
    ensures
        if needs_binaries(ctx.mode, proposals) {
            all_binaries(pkg.targets@, bins)
        } else {
            bins.len() == 0
        },
        ctx.with_binaries(pkg, proposals) == proposals + units_at(
            ctx,
            pkg,
            bins,
            CompileMode::Build,
            false,
        ),
{
    let targets = pkg.targets@;
    let all = refs::<Target>(targets);
    let pred = kind_pred(TargetPredicate::Bin);
    let at = law_filter_positions(all, pred);
    assert forall|i: int| 0 <= i < targets.len() implies (#[trigger] at.contains(i)
        <==> targets[i].kind == TargetKind::Bin) by {
        assert(*all[i] == targets[i]);
    }
    assert forall|p: int| 0 <= p < proposals.len() implies runs_binaries(
        #[trigger] proposals[p].0,
    ) == (tests(proposals[p].0.mode) && test_or_bench(*proposals[p].0.target)) by {}
    if needs_binaries(ctx.mode, proposals) {
        let p = choose|p: int|
            {
                &&& 0 <= p < proposals.len()
                &&& tests((#[trigger] proposals[p]).0.mode)
                &&& test_or_bench(*proposals[p].0.target)
            };
        assert(runs_binaries(proposals[p].0));
        assert(ctx.with_binaries(pkg, proposals) =~= proposals + units_at(
            ctx,
            pkg,
            at,
            CompileMode::Build,
            false,
        )) by {
            assert forall|k: int| 0 <= k < at.len() implies all.filter(pred)[k]
                == &targets[#[trigger] at[k]] by {
                assert(all.filter(pred)[k] == all[at[k]]);
            }
        }
        at
    } else {
        if !(ctx.mode is Check) && exists|i: int|
            0 <= i < proposals.len() && runs_binaries(#[trigger] proposals[i].0) {
            let i = choose|i: int|
                0 <= i < proposals.len() && runs_binaries(#[trigger] proposals[i].0);
            assert(tests(proposals[i].0.mode) && test_or_bench(*proposals[i].0.target));
        }
        let none = Seq::<int>::empty();
        assert(ctx.with_binaries(pkg, proposals) =~= proposals + units_at(
            ctx,
            pkg,
            none,
            CompileMode::Build,
            false,
        ));
        none
    }
}

/// The units of two lists of packages are those of the first list and then those
/// of the second; a refusal of the first comes before one of the second.  Of one
/// package they are its own, and of none there are none.
pub proof fn law_packages_one_after_the_other<'w, 'a>(
    ctx: BuildContext<'w>,
    a: Seq<&'a Package>,
    b: Seq<&'a Package>,
    filter: CompileFilter,
    resolve: Resolve,
)
    ensures
        match (ctx.units(a, filter, resolve), ctx.units(b, filter, resolve)) {
            (Ok(x), Ok(y)) => ctx.units(a + b, filter, resolve) matches Ok(z) && z == x + y,
            (Err(error), _) => ctx.units(a + b, filter, resolve) matches Err(e) && e == error,
            (Ok(_), Err(error)) => ctx.units(a + b, filter, resolve) matches Err(e) && e == error,
        },
        a.len() == 0 ==> (ctx.units(a, filter, resolve) matches Ok(none) && none.len() == 0),
        a.len() == 1 ==> ctx.units(a, filter, resolve) == ctx.package_units(a[0], filter, resolve),
    decreases b.len(),
{
    reveal_with_fuel(BuildContext::units, 2);
    if a.len() == 1 {
        assert(a.drop_last() =~= Seq::<&'a Package>::empty());
        if let Ok(units) = ctx.package_units(a[0], filter, resolve) {
            assert(Seq::<Unit<'a>>::empty() + units =~= units);
        }
    }
    if b.len() == 0 {
        assert(a + b =~= a);
        if let Ok(units) = ctx.units(a, filter, resolve) {
            assert(units + Seq::<Unit<'a>>::empty() =~= units);
        }
    } else {
        let front = b.drop_last();
        assert((a + b).drop_last() =~= a + front);
        assert((a + b).last() == b.last());
        law_packages_one_after_the_other(ctx, a, front, filter, resolve);
        if let Ok(x) = ctx.units(a, filter, resolve) {
            if let Ok(y) = ctx.units(front, filter, resolve) {
                if let Ok(z) = ctx.package_units(b.last(), filter, resolve) {
                    assert(x + y + z =~= x + (y + z));
                }
            }
        }
    }
}

/// Whether a rule asks for a target by its name.
pub open spec fn listed(rule: FilterRule, target: Target) -> bool {
    rule matches FilterRule::Just(names) && exists|n: int|
        0 <= n < names@.len() && (#[trigger] names@[n])@ == target.name@
}

/// Whether a filter asks for a target: by default, as the library, by its name
/// among those of its kind, or with all of a kind.
pub open spec fn asks_for(
    filter: CompileFilter,
    mode: CompileMode,
    targets: Seq<Target>,
    target: Target,
) -> bool {
    match filter {
        CompileFilter::Default { .. } => {
            ||| {
                &&& mode is Build || mode is Check
                &&& target.kind == TargetKind::Lib || target.kind == TargetKind::Bin
            }
            ||| mode is Bench && target.benched
            ||| mode is Test && (target.tested || an_example(target))
            ||| {
                &&& mode is Doc && target.documented
                &&& target.kind == TargetKind::Bin ==> forall|j: int|
                    0 <= j < targets.len() && (#[trigger] targets[j]).kind == TargetKind::Lib
                        ==> targets[j].name@ != target.name@
            }
            ||| mode is Doctest && target.kind == TargetKind::Lib && target.doctested
        },
        CompileFilter::Only { lib, bins, examples, tests, benches, .. } => {
            ||| lib && target.kind == TargetKind::Lib
            ||| target.kind == TargetKind::Bin && (bins is All || listed(bins, target))
            ||| an_example(target) && (examples is All || listed(examples, target))
            ||| tests is All && target.tested
            ||| target.kind == TargetKind::Test && listed(tests, target)
            ||| benches is All && target.benched
            ||| target.kind == TargetKind::Bench && listed(benches, target)
        },
    }
}

/// Whether a target is the library whose documentation a default test run tests.
pub open spec fn doctested_by_default(
    filter: CompileFilter,
    mode: CompileMode,
    target: Target,
) -> bool {
    filter is Default && mode is Test && target.kind == TargetKind::Lib && target.doctested
}

/// All that is proposed for a package is for targets that are asked for, or for
/// the library that a default test run tests the documentation of.
pub proof fn law_proposals_are_asked_for<'w, 'a>(
    ctx: BuildContext<'w>,
    pkg: &'a Package,
    filter: CompileFilter,
    p: int,
) -> (i: int)
    requires
        !(filter is Default && ctx.mode is RunCustomBuild),
        ctx.filter_proposals(pkg, filter) is Ok,
        0 <= p < ctx.filter_proposals(pkg, filter)->Ok_0.len(),
    ensures
        ({
            let unit = ctx.filter_proposals(pkg, filter)->Ok_0[p].0;
            &&& unit.pkg == pkg
            &&& 0 <= i < pkg.targets@.len()
            &&& *unit.target == pkg.targets@[i]
            &&& asks_for(filter, ctx.mode, pkg.targets@, *unit.target) || doctested_by_default(
                filter,
                ctx.mode,
                *unit.target,
            )
        }),
{
    let targets = pkg.targets@;
    match filter {
        CompileFilter::Default { required_features_filterable } => {
            let taken = default_targets(targets, ctx.mode);
            let d = law_default_proposals(ctx, pkg, required_features_filterable);
            if p < taken.len() {
                if ctx.mode is Doctest {
                    law_doctest_takes_the_first_lib(targets)
                } else {
                    let at = law_default_targets(targets, ctx.mode);
                    assert(at.contains(at[p]));
                    at[p]
                }
            } else {
                d
            }
        },
        CompileFilter::Only { all_targets, lib, bins, examples, tests, benches } => {
            let test_mode = match ctx.mode {
                CompileMode::Build => CompileMode::Test,
                CompileMode::Check { .. } => CompileMode::Check { test: true },
                other => other,
            };
            let bench_mode = match ctx.mode {
                CompileMode::Build => CompileMode::Bench,
                CompileMode::Check { .. } => CompileMode::Check { test: true },
                other => other,
            };
            let g = law_only_proposals(
                ctx,
                pkg,
                all_targets,
                lib,
                bins,
                examples,
                tests,
                benches,
                test_mode,
                bench_mode,
            );
            let test_kind = if tests is All {
                TargetPredicate::Tested
            } else {
                TargetPredicate::Test
            };
            let bench_kind = if benches is All {
                TargetPredicate::Benched
            } else {
                TargetPredicate::Bench
            };
            let n1 = g.lib.len();
            let n2 = n1 + g.bins.len();
            let n3 = n2 + g.examples.len();
            let n4 = n3 + g.tests.len();
            if p < n1 {
                g.lib[p]
            } else if p < n2 {
                lemma_rule_at(targets, bins, TargetPredicate::Bin, g.bins, p - n1);
                g.bins[p - n1]
            } else if p < n3 {
                lemma_rule_at(targets, examples, TargetPredicate::Example, g.examples, p - n2);
                g.examples[p - n2]
            } else if p < n4 {
                lemma_rule_at(targets, tests, test_kind, g.tests, p - n3);
                g.tests[p - n3]
            } else {
                lemma_rule_at(targets, benches, bench_kind, g.benches, p - n4);
                g.benches[p - n4]
            }
        },
    }
}

proof fn lemma_rule_at(
    targets: Seq<Target>,
    rule: FilterRule,
    kind: TargetPredicate,
    at: Seq<int>,
    k: int,
)
    requires
        follows_rule(targets, rule, kind, at),
        0 <= k < at.len(),
    ensures
        0 <= at[k] < targets.len(),
        kind.holds(targets[at[k]]),
        rule is All || listed(rule, targets[at[k]]),
{
    match rule {
        FilterRule::All => {
            assert(at.contains(at[k]));
        },
        FilterRule::Just(names) => {
            assert(first_named(targets, kind, names@[k]@, at[k]));
            assert(names@[k]@ == targets[at[k]].name@);
        },
    }
}

/// Nothing is built that was not asked for: every unit of a build is for a target
/// that the filter asks for, or for the library that a default test run tests the
/// documentation of, or for a binary of a package of which some proposed unit is
/// in a test mode and for a target of kind `Test` or `Bench` that was asked for.
pub proof fn law_nothing_else_is_built<'w, 'a>(
    ctx: BuildContext<'w>,
    packages: Seq<&'a Package>,
    filter: CompileFilter,
    resolve: Resolve,
    u: int,
) -> (res: (int, int))
    requires
        !(filter is Default && ctx.mode is RunCustomBuild),
        ctx.units(packages, filter, resolve) is Ok,
        0 <= u < ctx.units(packages, filter, resolve)->Ok_0.len(),
    ensures
        ({
            let (k, i) = res;
            let unit = ctx.units(packages, filter, resolve)->Ok_0[u];
            let targets = packages[k].targets@;
            &&& 0 <= k < packages.len()
            &&& unit.pkg == packages[k]
            &&& 0 <= i < targets.len()
            &&& *unit.target == targets[i]
            &&& {
                ||| asks_for(filter, ctx.mode, targets, *unit.target)
                ||| doctested_by_default(filter, ctx.mode, *unit.target)
                ||| {
                    &&& unit.target.kind == TargetKind::Bin
                    &&& unit.mode == CompileMode::Build
                    &&& needs_binaries(
                        ctx.mode,
                        ctx.filter_proposals(packages[k], filter)->Ok_0,
                    )
                    &&& exists|j: int|
                        {
                            &&& 0 <= j < targets.len()
                            &&& test_or_bench(#[trigger] targets[j])
                            &&& asks_for(filter, ctx.mode, targets, targets[j])
                        }
                }
            }
        }),
    decreases packages.len(),
{
    let n = packages.len() - 1;
    let front = packages.drop_last();
    let pkg = packages[n];
    let before = ctx.units(front, filter, resolve)->Ok_0;
    if u < before.len() {
        let (k, i) = law_nothing_else_is_built(ctx, front, filter, resolve, u);
        assert(front[k] == packages[k]);
        (k, i)
    } else {
        let targets = pkg.targets@;
        let units = ctx.package_units(pkg, filter, resolve)->Ok_0;
        let s = law_package_units(ctx, pkg, filter, resolve);
        let proposals = ctx.filter_proposals(pkg, filter)->Ok_0;
        let full = proposals + units_at(ctx, pkg, s.bins, CompileMode::Build, false);
        let q = s.kept[u - before.len()];
        assert(units[u - before.len()] == full[q].0);
        if q < proposals.len() {
            let i = law_proposals_are_asked_for(ctx, pkg, filter, q);
            (n, i)
        } else {
            let i = s.bins[q - proposals.len()];
            assert(s.bins.contains(i));
            let p = choose|p: int|
                {
                    &&& 0 <= p < proposals.len()
                    &&& tests((#[trigger] proposals[p]).0.mode)
                    &&& test_or_bench(*proposals[p].0.target)
                };
            let j = law_proposals_are_asked_for(ctx, pkg, filter, p);
            assert(test_or_bench(targets[j]));
            (n, i)
        }
    }
}

/// Where no proposed unit of a package is for a target of kind `Test` or `Bench`,
/// the units of the package are some of what is proposed, in the same order.
pub proof fn law_only_proposals_without_tests<'w, 'a>(
    ctx: BuildContext<'w>,
    pkg: &'a Package,
    filter: CompileFilter,
    resolve: Resolve,
) -> (at: Seq<int>)
    requires
        ctx.filter_proposals(pkg, filter) matches Ok(proposals) && forall|p: int|
            0 <= p < proposals.len() ==> (#[trigger] proposals[p]).0.target.kind != TargetKind::Test
                && proposals[p].0.target.kind != TargetKind::Bench,
    ensures
        ctx.package_units(pkg, filter, resolve) matches Ok(units) ==> {
            let proposals = ctx.filter_proposals(pkg, filter)->Ok_0;
            &&& ascending(at, proposals.len())
            &&& units.len() == at.len()
            &&& forall|k: int| 0 <= k < units.len() ==> #[trigger] units[k] == proposals[at[k]].0
        },
{
    let s = law_package_units(ctx, pkg, filter, resolve);
    let proposals = ctx.filter_proposals(pkg, filter)->Ok_0;
    assert(proposals + units_at(ctx, pkg, s.bins, CompileMode::Build, false) =~= proposals);
    s.kept
}

} // verus!
