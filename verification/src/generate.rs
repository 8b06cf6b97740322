//! Generating the units of a build.

use crate::error::{outcome, CompileError, CompileErrorView};
use crate::filter::{CompileFilter, FilterRule};
use crate::lists::{
    first_match, lemma_filter_start, lemma_filter_step, lemma_first_match, lemma_no_match, refs,
};
use crate::mode::{CompileMode, Kind, ProfileFor};
use crate::package::{Package, Workspace};
use crate::resolve::{resolve_all_features, Resolve};
use crate::select::{generate_default_targets, kind_pred, list_rule_targets};
use crate::target::{Target, TargetKind, TargetPredicate};
use crate::text::{copy_list, texts, StringSet};
use crate::units::{
    accepted, blocked_pred, doctested_lib_pred, lib_pred, ready, ready_pred, runs_binaries,
    BuildContext, ProfileRequest, Unit,
};
use vstd::prelude::*;

verus! {

impl<'w> BuildContext<'w> {
    /// The unit for a target that is asked for in `target_mode`.
    fn new_unit<'a>(
        &self,
        pkg: &'a Package,
        target: &'a Target,
        target_mode: CompileMode,
    ) -> (unit: Unit<'a>)
        ensures
            unit == self.unit(pkg, target, target_mode),
    {
        // NOTE: The `ProfileFor` here is subtle.  If you have a profile
        // with `panic` set, the `panic` flag is cleared for
        // tests/benchmarks and their dependencies.  If we left this
        // as an "Any" profile, then the lib would get compiled three
        // times (once with panic, once without, and once with
        // --test).
        //
        // This would cause a problem for doc tests, which would fail
        // because `rustdoc` would attempt to link with both libraries
        // at the same time. Also, it's probably not important (or
        // even desirable?) for rustdoc to link with a lib with
        // `panic` set.
        //
        // As a consequence, examples and binaries get compiled
        // without `panic` set.  This probably isn't a bad deal.
        //
        // Forcing the lib to be compiled three times during a test
        // run is probably also not desirable.
        let profile_for = if self.mode.is_any_test() {
            ProfileFor::TestDependency
        } else {
            ProfileFor::Any
        };
        let target_mode = match target_mode {
            CompileMode::Test => {
                if target.is_example() {
                    // Examples are included as regular binaries to verify
                    // that they compile.
                    CompileMode::Build
                } else {
                    CompileMode::Test
                }
            },
            CompileMode::Build => match target.kind {
                TargetKind::Test => CompileMode::Test,
                TargetKind::Bench => CompileMode::Bench,
                _ => CompileMode::Build,
            },
            _ => target_mode,
        };
        // Plugins or proc-macro should be built for the host.
        let kind = if target.for_host {
            Kind::Host
        } else {
            self.default_arch_kind
        };
        let profile = ProfileRequest {
            pkg_name: &pkg.package_id.name,
            is_member: self.ws.is_member(pkg),
            profile_for,
            mode: target_mode,
            release: self.release,
        };
        // Once the profile has been selected for benchmarks, we don't need to
        // distinguish between benches and tests. Switching the mode allows
        // de-duplication of units that are essentially identical.  For
        // example, building all targets for release creates the units
        // (lib profile:bench, mode:test) and (lib profile:bench, mode:bench)
        // and since these are the same, we want them to be de-duped later.
        let target_mode = match target_mode {
            CompileMode::Bench => CompileMode::Test,
            _ => target_mode,
        };
        Unit { pkg, target, profile, kind, mode: target_mode }
    }

    /// The proposals for a list of targets, all asked for in `target_mode` and
    /// with the same flag.
    fn propose_alike<'a>(
        &self,
        pkg: &'a Package,
        targets: &Vec<&'a Target>,
        target_mode: CompileMode,
        required: bool,
    ) -> (proposals: Vec<(Unit<'a>, bool)>)
        ensures
            proposals@ == self.proposed_alike(pkg, targets@, target_mode, required),
    {
        let mut proposals: Vec<(Unit<'a>, bool)> = Vec::new();
        let mut i: usize = 0;
        while i < targets.len()
            invariant
                i <= targets.len(),
                proposals@ =~= self.proposed_alike(pkg, targets@, target_mode, required).take(
                    i as int,
                ),
            decreases targets.len() - i,
        {
            proposals.push((self.new_unit(pkg, targets[i], target_mode), required));
            i += 1;
        }
        assert(proposals@ =~= self.proposed_alike(pkg, targets@, target_mode, required));
        proposals
    }

    /// What is proposed when the user doesn't specify any targets.
    fn propose_default<'a>(
        &self,
        pkg: &'a Package,
        required_features_filterable: bool,
    ) -> (proposals: Vec<(Unit<'a>, bool)>)
        requires
            !(self.mode is RunCustomBuild),
        ensures
            proposals@ == self.default_proposals(pkg, required_features_filterable),
    {
        let targets = generate_default_targets(pkg.targets.as_slice(), self.mode);
        let mut proposals = self.propose_alike(
            pkg,
            &targets,
            self.mode,
            !required_features_filterable,
        );
        if self.mode == CompileMode::Test {
            // Include the lib as it will be required for doctests.
            if let Some(t) = find_lib(&pkg.targets, true) {
                proposals.push((self.new_unit(pkg, t, CompileMode::Build), false));
            }
        }
        proposals
    }

    /// What `--lib` proposes.
    fn propose_lib<'a>(
        &self,
        pkg: &'a Package,
        lib: bool,
        all_targets: bool,
    ) -> (res: Result<Vec<(Unit<'a>, bool)>, CompileError>)
        ensures
            outcome(res) == self.lib_proposals(pkg, lib, all_targets),
    {
        let mut proposals: Vec<(Unit<'a>, bool)> = Vec::new();
        if lib {
            if let Some(target) = find_lib(&pkg.targets, false) {
                proposals.push((self.new_unit(pkg, target, self.mode), false));
            } else if !all_targets {
                return Err(CompileError::NoLibrary);
            }
        }
        assert(proposals@ =~= self.lib_proposals(pkg, lib, all_targets)->Ok_0);
        Ok(proposals)
    }

    /// Adds what a rule for targets of one kind proposes.
    fn propose_rule<'a>(
        &self,
        proposals: &mut Vec<(Unit<'a>, bool)>,
        pkg: &'a Package,
        rule: &FilterRule,
        desc: &'static str,
        kind: TargetPredicate,
        target_mode: CompileMode,
    ) -> (res: Result<(), CompileError>)
        ensures
            match self.rule_proposals(pkg, *rule, desc@, kind, target_mode) {
                Ok(more) => res is Ok && final(proposals)@ == old(proposals)@ + more,
                Err(error) => res matches Err(e) && e@ == error,
            },
    {
        let targets = list_rule_targets(pkg, rule, desc, kind)?;
        let ghost before = proposals@;
        let ghost more = self.proposed(pkg, targets@, target_mode);
        let mut i: usize = 0;
        while i < targets.len()
            invariant
                i <= targets.len(),
                more == self.proposed(pkg, targets@, target_mode),
                proposals@ =~= before + more.take(i as int),
            decreases targets.len() - i,
        {
            proposals.push((self.new_unit(pkg, targets[i].0, target_mode), targets[i].1));
            i += 1;
        }
        assert(more.take(more.len() as int) =~= more);
        Ok(())
    }

    /// What a filter proposes to build of a package.
    ///
    /// The `bool` value indicates whether or not all required features *must*
    /// be present. If false, and the features are not available, then it will
    /// be silently skipped.  Generally, targets specified by name (`--bin foo`)
    /// are required, all others can be silently skipped if features are
    /// missing.
    fn propose<'a>(&self, pkg: &'a Package, filter: &CompileFilter) -> (res: Result<
        Vec<(Unit<'a>, bool)>,
        CompileError,
    >)
        requires
            filter is Default ==> !(self.mode is RunCustomBuild),
        ensures
            outcome(res) == self.filter_proposals(pkg, *filter),
    {
        match filter {
            CompileFilter::Default { required_features_filterable } => Ok(
                self.propose_default(pkg, *required_features_filterable),
            ),
            CompileFilter::Only { all_targets, lib, bins, examples, tests, benches } => {
                let mut proposals = self.propose_lib(pkg, *lib, *all_targets)?;
                // If --tests was specified, add all targets that are marked as
                // tested.
                let test_filter = match tests {
                    FilterRule::All => TargetPredicate::Tested,
                    FilterRule::Just(_) => TargetPredicate::Test,
                };
                let test_mode = match self.mode {
                    CompileMode::Build => CompileMode::Test,
                    CompileMode::Check { .. } => CompileMode::Check { test: true },
                    _ => self.mode,
                };
                // If --benches was specified, add all targets that are marked as
                // benched.
                let bench_filter = match benches {
                    FilterRule::All => TargetPredicate::Benched,
                    FilterRule::Just(_) => TargetPredicate::Bench,
                };
                let bench_mode = match self.mode {
                    CompileMode::Build => CompileMode::Bench,
                    CompileMode::Check { .. } => CompileMode::Check { test: true },
                    _ => self.mode,
                };
                self.propose_rule(
                    &mut proposals,
                    pkg,
                    bins,
                    "bin",
                    TargetPredicate::Bin,
                    self.mode,
                )?;
                self.propose_rule(
                    &mut proposals,
                    pkg,
                    examples,
                    "example",
                    TargetPredicate::Example,
                    self.mode,
                )?;
                self.propose_rule(&mut proposals, pkg, tests, "test", test_filter, test_mode)?;
                self.propose_rule(&mut proposals, pkg, benches, "bench", bench_filter, bench_mode)?;
                Ok(proposals)
            },
        }
    }

    /// Adds the binaries of the package, where integration tests or benchmarks
    /// among the proposals run them.
    fn add_binaries<'a>(&self, pkg: &'a Package, proposals: &mut Vec<(Unit<'a>, bool)>)
        ensures
            final(proposals)@ == self.with_binaries(pkg, old(proposals)@),
    {
        // If any integration tests/benches are being run, make sure that
        // binaries are built as well.
        if self.mode.is_check() || !any_runs_binaries(proposals) {
            return;
        }
        let bins = find_binaries(&pkg.targets);
        let mut more = self.propose_alike(pkg, &bins, CompileMode::Build, false);
        proposals.append(&mut more);
    }

    /// The units of one package.
    fn generate_package_units<'a>(
        &self,
        pkg: &'a Package,
        filter: &CompileFilter,
        resolve: &Resolve,
    ) -> (res: Result<Vec<Unit<'a>>, CompileError>)
        requires
            filter is Default ==> !(self.mode is RunCustomBuild),
        ensures
            outcome(res) == self.package_units(pkg, *filter, *resolve),
    {
        let features = resolve_all_features(resolve, &pkg.package_id);
        let mut proposals = self.propose(pkg, filter)?;
        self.add_binaries(pkg, &mut proposals);
        accept(&proposals, &features)
    }
}

/// The first library, or the first one with tests in its documentation.
fn find_lib<'a>(targets: &'a Vec<Target>, doctested: bool) -> (res: Option<&'a Target>)
    ensures
        res == first_match(
            refs(targets@),
            if doctested {
                doctested_lib_pred()
            } else {
                lib_pred()
            },
        ),
{
    let ghost all = refs::<Target>(targets@);
    let ghost pred = if doctested {
        doctested_lib_pred()
    } else {
        lib_pred()
    };
    let mut i: usize = 0;
    while i < targets.len()
        invariant
            i <= targets.len(),
            all == refs::<Target>(targets@),
            pred == if doctested {
                doctested_lib_pred()
            } else {
                lib_pred()
            },
            forall|j: int| 0 <= j < i ==> !pred(#[trigger] all[j]),
        decreases targets.len() - i,
    {
        let t = &targets[i];
        assert(all[i as int] == t);
        if t.is_lib() && (!doctested || t.doctested) {
            proof {
                lemma_first_match(all, pred, i as int);
            }
            return Some(t);
        }
        i += 1;
    }
    proof {
        lemma_no_match(all, pred);
    }
    None
}

/// The binaries among targets.
fn find_binaries<'a>(targets: &'a Vec<Target>) -> (bins: Vec<&'a Target>)
    ensures
        bins@ == refs(targets@).filter(kind_pred(TargetPredicate::Bin)),
{
    let ghost all = refs::<Target>(targets@);
    let ghost pred = kind_pred(TargetPredicate::Bin);
    let mut bins: Vec<&'a Target> = Vec::new();
    let mut i: usize = 0;
    proof {
        lemma_filter_start(all, pred);
    }
    while i < targets.len()
        invariant
            i <= targets.len(),
            all == refs::<Target>(targets@),
            pred == kind_pred(TargetPredicate::Bin),
            bins@ == all.take(i as int).filter(pred),
        decreases targets.len() - i,
    {
        let t = &targets[i];
        proof {
            lemma_filter_step(all, pred, i as int);
            assert(all[i as int] == t);
        }
        if t.is_bin() {
            bins.push(t);
        }
        i += 1;
    }
    assert(all.take(all.len() as int) =~= all);
    bins
}

/// Whether any proposal runs an integration test or a benchmark.
fn any_runs_binaries<'a>(proposals: &Vec<(Unit<'a>, bool)>) -> (res: bool)
    ensures
        res == exists|i: int|
            0 <= i < proposals@.len() && runs_binaries(#[trigger] proposals@[i].0),
{
    let mut i: usize = 0;
    while i < proposals.len()
        invariant
            i <= proposals.len(),
            forall|j: int| 0 <= j < i ==> !runs_binaries(#[trigger] proposals@[j].0),
        decreases proposals.len() - i,
    {
        let unit = &proposals[i].0;
        if unit.mode.is_any_test() && (unit.target.is_test() || unit.target.is_bench()) {
            assert(runs_binaries(proposals@[i as int].0));
            return true;
        }
        i += 1;
    }
    false
}

/// Whether a target can be built with these features.
fn is_ready(target: &Target, features: &StringSet) -> (res: bool)
    ensures
        res == ready(*target, features@),
{
    if target.is_lib() {
        return true;
    }
    if let Some(required) = &target.required_features {
        let mut i: usize = 0;
        while i < required.len()
            invariant
                i <= required.len(),
                !target.lib(),
                target.required() == texts(required@),
                forall|j: int|
                    0 <= j < i ==> features@.contains(#[trigger] target.required()[j]),
            decreases required.len() - i,
        {
            if !features.contains(&required[i]) {
                assert(!features@.contains(target.required()[i as int]));
                return false;
            }
            i += 1;
        }
    }
    true
}

/// The units that are left of a list of proposals.
fn accept<'a>(proposals: &Vec<(Unit<'a>, bool)>, features: &StringSet) -> (res: Result<
    Vec<Unit<'a>>,
    CompileError,
>)
    ensures
        outcome(res) == accepted(proposals@, features@),
{
    let ghost blocked = blocked_pred(features@);
    let ghost pred = ready_pred(features@);
    let mut units: Vec<Unit<'a>> = Vec::new();
    let mut i: usize = 0;
    proof {
        lemma_filter_start(proposals@, pred);
    }
    // Only include targets that are libraries or have all required
    // features available.
    while i < proposals.len()
        invariant
            i <= proposals.len(),
            blocked == blocked_pred(features@),
            pred == ready_pred(features@),
            forall|j: int| 0 <= j < i ==> !blocked(#[trigger] proposals@[j]),
            units@ =~= Seq::new(
                proposals@.take(i as int).filter(pred).len(),
                |k: int| proposals@.take(i as int).filter(pred)[k].0,
            ),
        decreases proposals.len() - i,
    {
        let unit = proposals[i].0;
        let required = proposals[i].1;
        proof {
            lemma_filter_step(proposals@, pred, i as int);
        }
        if is_ready(unit.target, features) {
            units.push(unit);
        } else if required {
            proof {
                lemma_first_match(proposals@, blocked, i as int);
            }
            let features = match &unit.target.required_features {
                Some(features) => copy_list(features),
                None => Vec::new(),
            };
            assert(texts(features@) =~= unit.target.required());
            return Err(
                CompileError::FeaturesRequired { target: unit.target.name.clone(), features },
            );
        }
        // else, silently skip target.
        i += 1;
    }
    proof {
        lemma_no_match(proposals@, blocked);
        assert(proposals@.take(proposals@.len() as int) =~= proposals@);
    }
    Ok(units)
}

/// Generates all the base units for the packages the user has requested to
/// compile. Their dependencies are computed later.
pub fn generate_targets<'a>(
    ws: &Workspace,
    packages: &[&'a Package],
    filter: &CompileFilter,
    default_arch_kind: Kind,
    mode: CompileMode,
    resolve: &Resolve,
    release: bool,
) -> (res: Result<Vec<Unit<'a>>, CompileError>)
    requires
        filter is Default && packages@.len() > 0 ==> !(mode is RunCustomBuild),
    ensures
        outcome(res) == (BuildContext { ws, default_arch_kind, mode, release }).units(
            packages@,
            *filter,
            *resolve,
        ),
{
    let ctx = BuildContext { ws, default_arch_kind, mode, release };
    let mut units: Vec<Unit<'a>> = Vec::new();
    let mut i: usize = 0;
    while i < packages.len()
        invariant
            i <= packages.len(),
            ctx == (BuildContext { ws, default_arch_kind, mode, release }),
            filter is Default && packages@.len() > 0 ==> !(ctx.mode is RunCustomBuild),
            ctx.units(packages@.take(i as int), *filter, *resolve) == Ok::<
                Seq<Unit<'a>>,
                CompileErrorView,
            >(units@),
        decreases packages.len() - i,
    {
        proof {
            assert(packages@.take(i + 1).drop_last() =~= packages@.take(i as int));
            assert(packages@.take(i + 1).last() == packages@[i as int]);
        }
        match ctx.generate_package_units(packages[i], filter, resolve) {
            Ok(mut more) => {
                units.append(&mut more);
            },
            Err(error) => {
                proof {
                    lemma_first_failure(ctx, packages@, *filter, *resolve, i + 1);
                }
                return Err(error);
            },
        }
        i += 1;
    }
    assert(packages@.take(packages@.len() as int) =~= packages@);
    Ok(units)
}

/// A failure for the first packages is the failure for all.
proof fn lemma_first_failure<'w, 'a>(
    ctx: BuildContext<'w>,
    packages: Seq<&'a Package>,
    filter: CompileFilter,
    resolve: Resolve,
    n: int,
)
    requires
        0 <= n <= packages.len(),
        ctx.units(packages.take(n), filter, resolve) is Err,
    ensures
        ctx.units(packages, filter, resolve) == ctx.units(packages.take(n), filter, resolve),
    decreases packages.len(),
{
    if n == packages.len() {
        assert(packages.take(n) =~= packages);
    } else {
        assert(packages.drop_last().take(n) =~= packages.take(n));
        lemma_first_failure(ctx, packages.drop_last(), filter, resolve, n);
    }
}

} // verus!
