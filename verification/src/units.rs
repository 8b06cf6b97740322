//! Units of work, and which of them a build consists of.

use crate::error::CompileErrorView;
use crate::filter::{CompileFilter, FilterRule};
use crate::lists::{first_match, refs};
use crate::mode::{CompileMode, Kind, ProfileFor};
use crate::package::{Package, Workspace};
use crate::resolve::Resolve;
use crate::select::{default_targets, kind_pred, rule_targets};
use crate::target::{Target, TargetKind, TargetPredicate};
use vstd::prelude::*;

verus! {

/// What the profile of a unit is looked up by.
#[derive(Clone, Copy, PartialEq, Eq, Debug)]
pub struct ProfileRequest<'a> {
    pub pkg_name: &'a String,
    pub is_member: bool,
    pub profile_for: ProfileFor,
    pub mode: CompileMode,
    pub release: bool,
}

/// One piece of work: a target of a package, and how it is built.
#[derive(Clone, Copy, PartialEq, Eq, Debug)]
pub struct Unit<'a> {
    pub pkg: &'a Package,
    pub target: &'a Target,
    pub profile: ProfileRequest<'a>,
    pub kind: Kind,
    pub mode: CompileMode,
}

/// What all units of a build have in common.
#[derive(Clone, Copy, Debug)]
pub struct BuildContext<'w> {
    pub ws: &'w Workspace,
    pub default_arch_kind: Kind,
    pub mode: CompileMode,
    pub release: bool,
}

/// The mode in which the profile of a target is looked up, where the target is
/// asked for in `target_mode`.
pub open spec fn profile_mode(target: Target, target_mode: CompileMode) -> CompileMode {
    match target_mode {
        // Examples are included as regular binaries to verify that they compile.
        CompileMode::Test => if target.example() {
            CompileMode::Build
        } else {
            CompileMode::Test
        },
        CompileMode::Build => match target.kind {
            TargetKind::Test => CompileMode::Test,
            TargetKind::Bench => CompileMode::Bench,
            _ => CompileMode::Build,
        },
        _ => target_mode,
    }
}

/// The mode of a unit whose profile was looked up in `mode`: benchmarks are
/// built as tests are.
pub open spec fn unit_mode(mode: CompileMode) -> CompileMode {
    match mode {
        CompileMode::Bench => CompileMode::Test,
        _ => mode,
    }
}

/// The mode that integration tests are asked for in.
pub open spec fn test_mode(mode: CompileMode) -> CompileMode {
    match mode {
        CompileMode::Build => CompileMode::Test,
        CompileMode::Check { .. } => CompileMode::Check { test: true },
        _ => mode,
    }
}

/// The mode that benchmarks are asked for in.
pub open spec fn bench_mode(mode: CompileMode) -> CompileMode {
    match mode {
        CompileMode::Build => CompileMode::Bench,
        CompileMode::Check { .. } => CompileMode::Check { test: true },
        _ => mode,
    }
}

/// If `--tests` was specified, all targets that are marked as tested are asked
/// for.
pub open spec fn test_filter(tests: FilterRule) -> TargetPredicate {
    match tests {
        FilterRule::All => TargetPredicate::Tested,
        FilterRule::Just(_) => TargetPredicate::Test,
    }
}

/// If `--benches` was specified, all targets that are marked as benched are
/// asked for.
pub open spec fn bench_filter(benches: FilterRule) -> TargetPredicate {
    match benches {
        FilterRule::All => TargetPredicate::Benched,
        FilterRule::Just(_) => TargetPredicate::Bench,
    }
}

/// Two fallible lists, one after the other; the first failure counts.
pub open spec fn chain<A, E>(a: Result<Seq<A>, E>, b: Result<Seq<A>, E>) -> Result<Seq<A>, E> {
    match a {
        Ok(x) => match b {
            Ok(y) => Ok(x + y),
            Err(error) => Err(error),
        },
        Err(error) => Err(error),
    }
}

/// Which targets are libraries.
pub open spec fn lib_pred<'a>() -> spec_fn(&'a Target) -> bool {
    |t: &'a Target| t.lib()
}

/// Which targets are libraries with tests in their documentation.
pub open spec fn doctested_lib_pred<'a>() -> spec_fn(&'a Target) -> bool {
    |t: &'a Target| t.lib() && t.doctested
}

/// Whether a target can be built: libraries always can, others need all the
/// features that they require.
pub open spec fn ready(target: Target, features: Set<Seq<char>>) -> bool {
    target.lib() || forall|i: int|
        0 <= i < target.required().len() ==> features.contains(#[trigger] target.required()[i])
}

/// Which proposals can be built.
pub open spec fn ready_pred<'a>(features: Set<Seq<char>>) -> spec_fn((Unit<'a>, bool)) -> bool {
    |p: (Unit<'a>, bool)| ready(*p.0.target, features)
}

/// Which proposals must be built but cannot.
pub open spec fn blocked_pred<'a>(features: Set<Seq<char>>) -> spec_fn((Unit<'a>, bool)) -> bool {
    |p: (Unit<'a>, bool)| p.1 && !ready(*p.0.target, features)
}

/// The units that are left of a list of proposals.
///
/// The `bool` of a proposal indicates whether or not all required features
/// *must* be present.  If false, and the features are not available, it is
/// silently skipped.
pub open spec fn accepted<'a>(
    proposals: Seq<(Unit<'a>, bool)>,
    features: Set<Seq<char>>,
) -> Result<Seq<Unit<'a>>, CompileErrorView> {
    match first_match(proposals, blocked_pred(features)) {
        Some(p) => Err(
            CompileErrorView::FeaturesRequired {
                target: p.0.target.name@,
                features: p.0.target.required(),
            },
        ),
        None => {
            let kept = proposals.filter(ready_pred(features));
            Ok(Seq::new(kept.len(), |i: int| kept[i].0))
        },
    }
}

/// Whether a unit runs an integration test or a benchmark.
pub open spec fn runs_binaries(unit: Unit) -> bool {
    unit.mode.any_test() && (unit.target.test() || unit.target.bench())
}

impl<'w> BuildContext<'w> {
    /// The unit for a target that is asked for in `target_mode`.
    pub open spec fn unit<'a>(
        self,
        pkg: &'a Package,
        target: &'a Target,
        target_mode: CompileMode,
    ) -> Unit<'a> {
        Unit {
            pkg,
            target,
            profile: ProfileRequest {
                pkg_name: &pkg.package_id.name,
                is_member: self.ws.has_member(pkg.package_id@),
                profile_for: if self.mode.any_test() {
                    ProfileFor::TestDependency
                } else {
                    ProfileFor::Any
                },
                mode: profile_mode(*target, target_mode),
                release: self.release,
            },
            // Plugins or proc-macro should be built for the host.
            kind: if target.for_host {
                Kind::Host
            } else {
                self.default_arch_kind
            },
            mode: unit_mode(profile_mode(*target, target_mode)),
        }
    }

    /// The proposals for a list of targets, all asked for in `target_mode`.
    pub open spec fn proposed<'a>(
        self,
        pkg: &'a Package,
        targets: Seq<(&'a Target, bool)>,
        target_mode: CompileMode,
    ) -> Seq<(Unit<'a>, bool)> {
        Seq::new(
            targets.len(),
            |i: int| (self.unit(pkg, targets[i].0, target_mode), targets[i].1),
        )
    }

    /// The proposals for a list of targets, all asked for in `target_mode` and
    /// with the same flag.
    pub open spec fn proposed_alike<'a>(
        self,
        pkg: &'a Package,
        targets: Seq<&'a Target>,
        target_mode: CompileMode,
        required: bool,
    ) -> Seq<(Unit<'a>, bool)> {
        Seq::new(targets.len(), |i: int| (self.unit(pkg, targets[i], target_mode), required))
    }

    /// What is proposed when the user doesn't specify any targets.
    pub open spec fn default_proposals<'a>(
        self,
        pkg: &'a Package,
        required_features_filterable: bool,
    ) -> Seq<(Unit<'a>, bool)> {
        let taken = self.proposed_alike(
            pkg,
            default_targets(pkg.targets@, self.mode),
            self.mode,
            !required_features_filterable,
        );
        // The lib is required for doctests.
        match first_match(refs(pkg.targets@), doctested_lib_pred()) {
            Some(t) if self.mode is Test => taken.push(
                (self.unit(pkg, t, CompileMode::Build), false),
            ),
            _ => taken,
        }
    }

    /// What `--lib` proposes.
    pub open spec fn lib_proposals<'a>(
        self,
        pkg: &'a Package,
        lib: bool,
        all_targets: bool,
    ) -> Result<Seq<(Unit<'a>, bool)>, CompileErrorView> {
        if !lib {
            Ok(Seq::empty())
        } else {
            match first_match(refs(pkg.targets@), lib_pred()) {
                Some(t) => Ok(seq![(self.unit(pkg, t, self.mode), false)]),
                None => if all_targets {
                    Ok(Seq::empty())
                } else {
                    Err(CompileErrorView::NoLibrary)
                },
            }
        }
    }

    /// What a rule for targets of one kind proposes.
    pub open spec fn rule_proposals<'a>(
        self,
        pkg: &'a Package,
        rule: FilterRule,
        desc: Seq<char>,
        kind: TargetPredicate,
        target_mode: CompileMode,
    ) -> Result<Seq<(Unit<'a>, bool)>, CompileErrorView> {
        match rule_targets(pkg.targets@, rule, desc, kind) {
            Ok(targets) => Ok(self.proposed(pkg, targets, target_mode)),
            Err(error) => Err(error),
        }
    }

    /// What a filter proposes to build of a package.
    pub open spec fn filter_proposals<'a>(
        self,
        pkg: &'a Package,
        filter: CompileFilter,
    ) -> Result<Seq<(Unit<'a>, bool)>, CompileErrorView> {
        match filter {
            CompileFilter::Default { required_features_filterable } => Ok(
                self.default_proposals(pkg, required_features_filterable),
            ),
            CompileFilter::Only { all_targets, lib, bins, examples, tests, benches } => {
                let libs = self.lib_proposals(pkg, lib, all_targets);
                let bins = self.rule_proposals(
                    pkg,
                    bins,
                    "bin"@,
                    TargetPredicate::Bin,
                    self.mode,
                );
                let examples = self.rule_proposals(
                    pkg,
                    examples,
                    "example"@,
                    TargetPredicate::Example,
                    self.mode,
                );
                let tests = self.rule_proposals(
                    pkg,
                    tests,
                    "test"@,
                    test_filter(tests),
                    test_mode(self.mode),
                );
                let benches = self.rule_proposals(
                    pkg,
                    benches,
                    "bench"@,
                    bench_filter(benches),
                    bench_mode(self.mode),
                );
                chain(chain(chain(chain(libs, bins), examples), tests), benches)
            },
        }
    }

    /// The proposals with the binaries of the package, where integration tests
    /// or benchmarks among the proposals run them.
    pub open spec fn with_binaries<'a>(
        self,
        pkg: &'a Package,
        proposals: Seq<(Unit<'a>, bool)>,
    ) -> Seq<(Unit<'a>, bool)> {
        if !(self.mode is Check) && exists|i: int|
            0 <= i < proposals.len() && runs_binaries(#[trigger] proposals[i].0) {
            proposals + self.proposed_alike(
                pkg,
                refs(pkg.targets@).filter(kind_pred(TargetPredicate::Bin)),
                CompileMode::Build,
                false,
            )
        } else {
            proposals
        }
    }

    /// The units of one package.
    pub open spec fn package_units<'a>(
        self,
        pkg: &'a Package,
        filter: CompileFilter,
        resolve: Resolve,
    ) -> Result<Seq<Unit<'a>>, CompileErrorView> {
        match self.filter_proposals(pkg, filter) {
            Ok(proposals) => accepted(
                self.with_binaries(pkg, proposals),
                resolve.available_features(pkg.package_id@),
            ),
            Err(error) => Err(error),
        }
    }

    /// The units of all packages, in their order.
    pub open spec fn units<'a>(
        self,
        packages: Seq<&'a Package>,
        filter: CompileFilter,
        resolve: Resolve,
    ) -> Result<Seq<Unit<'a>>, CompileErrorView>
        decreases packages.len(),
    {
        if packages.len() == 0 {
            Ok(Seq::empty())
        } else {
            chain(
                self.units(packages.drop_last(), filter, resolve),
                self.package_units(packages.last(), filter, resolve),
            )
        }
    }
}

} // verus!
