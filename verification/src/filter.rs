//! Which targets of the selected packages are built.

use crate::mode::CompileMode;
use crate::target::{Target, TargetKind};
use crate::text::{copy_list, list_contains, texts};
use vstd::prelude::*;

verus! {

/// Which targets of one kind are asked for.
#[derive(Debug)]
pub enum FilterRule {
    All,
    Just(Vec<String>),
}

impl FilterRule {
    /// Whether any target of the kind is asked for.
    pub open spec fn specific(self) -> bool {
        match self {
            FilterRule::All => true,
            FilterRule::Just(targets) => targets@.len() > 0,
        }
    }

    /// Whether the rule asks for a target with this name.
    pub open spec fn asks_for(self, name: Seq<char>) -> bool {
        match self {
            FilterRule::All => true,
            FilterRule::Just(targets) => texts(targets@).contains(name),
        }
    }

    pub fn new(targets: Vec<String>, all: bool) -> (rule: FilterRule)
        ensures
            rule == self::rule(targets, all),
    {
        if all {
            FilterRule::All
        } else {
            FilterRule::Just(targets)
        }
    }

    pub fn matches(&self, target: &Target) -> (res: bool)
        ensures
            res == self.asks_for(target.name@),
    {
        match self {
            FilterRule::All => true,
            FilterRule::Just(targets) => list_contains(targets, &target.name),
        }
    }

    pub fn is_specific(&self) -> (res: bool)
        ensures
            res == self.specific(),
    {
        match self {
            FilterRule::All => true,
            FilterRule::Just(targets) => targets.len() != 0,
        }
    }

    /// The names that are asked for, unless all targets are.
    pub fn try_collect(&self) -> (res: Option<Vec<String>>)
        ensures
            match *self {
                FilterRule::All => res is None,
                FilterRule::Just(targets) => res matches Some(names) && names@ == targets@,
            },
    {
        match self {
            FilterRule::All => None,
            FilterRule::Just(targets) => Some(copy_list(targets)),
        }
    }
}

/// Which targets are asked for.
#[derive(Debug)]
pub enum CompileFilter {
    Default {
        /// Flag whether targets can be safely skipped when required-features are not satisfied.
        required_features_filterable: bool,
    },
    Only {
        all_targets: bool,
        lib: bool,
        bins: FilterRule,
        examples: FilterRule,
        tests: FilterRule,
        benches: FilterRule,
    },
}

/// The rule that a list of names and a flag for all targets stand for.
pub open spec fn rule(targets: Vec<String>, all: bool) -> FilterRule {
    if all {
        FilterRule::All
    } else {
        FilterRule::Just(targets)
    }
}

impl CompileFilter {
    /// The rule that decides over targets of a kind, where there is one.
    pub open spec fn rule_for(self, kind: TargetKind) -> Option<FilterRule> {
        match self {
            CompileFilter::Default { .. } => None,
            CompileFilter::Only { all_targets, lib, bins, examples, tests, benches } => match kind {
                TargetKind::Bin => Some(bins),
                TargetKind::Test => Some(tests),
                TargetKind::Bench => Some(benches),
                TargetKind::ExampleBin | TargetKind::ExampleLib => Some(examples),
                TargetKind::Lib | TargetKind::CustomBuild => None,
            },
        }
    }

    /// Whether dev-dependencies are needed to build what is asked for.
    pub open spec fn dev_deps_needed(self, mode: CompileMode) -> bool {
        ||| mode is Test
        ||| mode is Doctest
        ||| mode is Bench
        ||| self matches CompileFilter::Only { examples, tests, benches, .. } && (
            examples.specific() || tests.specific() || benches.specific())
    }

    /// Whether `run` takes a target.
    pub open spec fn runs(self, target: Target) -> bool {
        match self {
            CompileFilter::Default { .. } => true,
            CompileFilter::Only { lib, .. } => match self.rule_for(target.kind) {
                Some(rule) => rule.asks_for(target.name@),
                None => target.kind is Lib && lib,
            },
        }
    }

    /// What the flags for targets of each kind ask for.
    pub open spec fn asked(
        lib_only: bool,
        bins: Vec<String>,
        all_bins: bool,
        tsts: Vec<String>,
        all_tsts: bool,
        exms: Vec<String>,
        all_exms: bool,
        bens: Vec<String>,
        all_bens: bool,
        all_targets: bool,
    ) -> CompileFilter {
        if all_targets {
            CompileFilter::Only {
                all_targets: true,
                lib: true,
                bins: FilterRule::All,
                examples: FilterRule::All,
                tests: FilterRule::All,
                benches: FilterRule::All,
            }
        } else if lib_only || rule(bins, all_bins).specific() || rule(tsts, all_tsts).specific()
            || rule(exms, all_exms).specific() || rule(bens, all_bens).specific() {
            CompileFilter::Only {
                all_targets: false,
                lib: lib_only,
                bins: rule(bins, all_bins),
                examples: rule(exms, all_exms),
                tests: rule(tsts, all_tsts),
                benches: rule(bens, all_bens),
            }
        } else {
            CompileFilter::Default { required_features_filterable: true }
        }
    }

    /// What the flags for targets of each kind ask for.
    pub fn new(
        lib_only: bool,
        bins: Vec<String>,
        all_bins: bool,
        tsts: Vec<String>,
        all_tsts: bool,
        exms: Vec<String>,
        all_exms: bool,
        bens: Vec<String>,
        all_bens: bool,
        all_targets: bool,
    ) -> (filter: CompileFilter)
        ensures
            filter == CompileFilter::asked(
                lib_only,
                bins,
                all_bins,
                tsts,
                all_tsts,
                exms,
                all_exms,
                bens,
                all_bens,
                all_targets,
            ),
    {
        let rule_bins = FilterRule::new(bins, all_bins);
        let rule_tsts = FilterRule::new(tsts, all_tsts);
        let rule_exms = FilterRule::new(exms, all_exms);
        let rule_bens = FilterRule::new(bens, all_bens);

        if all_targets {
            CompileFilter::Only {
                all_targets: true,
                lib: true,
                bins: FilterRule::All,
                examples: FilterRule::All,
                benches: FilterRule::All,
                tests: FilterRule::All,
            }
        } else if lib_only || rule_bins.is_specific() || rule_tsts.is_specific()
            || rule_exms.is_specific() || rule_bens.is_specific() {
            CompileFilter::Only {
                all_targets: false,
                lib: lib_only,
                bins: rule_bins,
                examples: rule_exms,
                benches: rule_bens,
                tests: rule_tsts,
            }
        } else {
            CompileFilter::Default { required_features_filterable: true }
        }
    }

    /// Whether dev-dependencies are needed to build what is asked for.
    pub fn need_dev_deps(&self, mode: CompileMode) -> (res: bool)
        requires
            !(mode is RunCustomBuild),
        ensures
            res == self.dev_deps_needed(mode),
    {
        match mode {
            CompileMode::Test | CompileMode::Doctest | CompileMode::Bench => true,
            _ => match self {
                CompileFilter::Default { .. } => false,
                CompileFilter::Only { examples, tests, benches, .. } => examples.is_specific()
                    || tests.is_specific() || benches.is_specific(),
            },
        }
    }

    // this selects targets for "run". for logic to select targets for
    // other commands, see `generate_targets` and `generate_default_targets`
    /// Whether `run` takes a target.
    pub fn target_run(&self, target: &Target) -> (res: bool)
        ensures
            res == self.runs(*target),
    {
        match self {
            CompileFilter::Default { .. } => true,
            CompileFilter::Only { lib, bins, examples, tests, benches, .. } => {
                let rule = match target.kind {
                    TargetKind::Bin => bins,
                    TargetKind::Test => tests,
                    TargetKind::Bench => benches,
                    TargetKind::ExampleBin | TargetKind::ExampleLib => examples,
                    TargetKind::Lib => return *lib,
                    TargetKind::CustomBuild => return false,
                };
                rule.matches(target)
            },
        }
    }

    /// Whether the user asked for any targets at all.
    pub fn is_specific(&self) -> (res: bool)
        ensures
            res == (self is Only),
    {
        match self {
            CompileFilter::Default { .. } => false,
            CompileFilter::Only { .. } => true,
        }
    }
}

/// A filter is specific exactly if one of the flags asks for something.
pub proof fn law_specific_if_asked(
    lib_only: bool,
    bins: Vec<String>,
    all_bins: bool,
    tsts: Vec<String>,
    all_tsts: bool,
    exms: Vec<String>,
    all_exms: bool,
    bens: Vec<String>,
    all_bens: bool,
    all_targets: bool,
)
    ensures
        CompileFilter::asked(
            lib_only,
            bins,
            all_bins,
            tsts,
            all_tsts,
            exms,
            all_exms,
            bens,
            all_bens,
            all_targets,
        ) is Only <==> {
            ||| all_targets
            ||| lib_only
            ||| all_bins
            ||| all_tsts
            ||| all_exms
            ||| all_bens
            ||| bins@.len() > 0
            ||| tsts@.len() > 0
            ||| exms@.len() > 0
            ||| bens@.len() > 0
        },
{
}

/// With `--all-targets`, whatever else is asked for, dev-dependencies are
/// always needed, and every target but a build script can be run.
pub proof fn law_all_targets_asks_for_all(
    lib_only: bool,
    bins: Vec<String>,
    all_bins: bool,
    tsts: Vec<String>,
    all_tsts: bool,
    exms: Vec<String>,
    all_exms: bool,
    bens: Vec<String>,
    all_bens: bool,
    mode: CompileMode,
    target: Target,
)
    ensures
        ({
            let filter = CompileFilter::asked(
                lib_only,
                bins,
                all_bins,
                tsts,
                all_tsts,
                exms,
                all_exms,
                bens,
                all_bens,
                true,
            );
            &&& filter.dev_deps_needed(mode)
            &&& filter.runs(target) <==> !(target.kind is CustomBuild)
        }),
{
}

/// `run` takes a binary or an example exactly if it was asked for by name or
/// with all of its kind, once anything was asked for.
pub proof fn law_run_takes_what_is_asked_for(filter: CompileFilter, target: Target)
    requires
        filter is Only,
        target.bin() || target.example(),
    ensures
        filter.runs(target) <==> (filter.rule_for(target.kind) matches Some(rule) && (rule is All
            || rule.asks_for(target.name@))),
{
}

/// A rule asks for all targets of a kind exactly if it is told to, and otherwise
/// for exactly those with a listed name; it is specific exactly if it asks for
/// any name.
pub proof fn law_rule_asks_for_its_names(targets: Vec<String>, all: bool, name: Seq<char>)
    ensures
        rule(targets, all) is All <==> all,
        rule(targets, all) matches FilterRule::Just(listed) ==> listed == targets,
        rule(targets, all).asks_for(name) <==> all || exists|i: int|
            0 <= i < targets@.len() && (#[trigger] targets@[i])@ == name,
        rule(targets, all).specific() <==> all || targets@.len() > 0,
{
    if !all {
        let names = texts(targets@);
        if names.contains(name) {
            let i = choose|i: int| 0 <= i < names.len() && names[i] == name;
            assert(targets@[i]@ == name);
        }
        if exists|i: int| 0 <= i < targets@.len() && (#[trigger] targets@[i])@ == name {
            let i = choose|i: int| 0 <= i < targets@.len() && (#[trigger] targets@[i])@ == name;
            assert(names[i] == name);
        }
    }
}

/// Each flag is minded for its own kind of targets and no other: the rule for a
/// kind is for all exactly if the flag for all of that kind was given, and
/// otherwise for the names that were given for that kind.
pub proof fn law_flags_of_each_kind(
    lib_only: bool,
    bins: Vec<String>,
    all_bins: bool,
    tsts: Vec<String>,
    all_tsts: bool,
    exms: Vec<String>,
    all_exms: bool,
    bens: Vec<String>,
    all_bens: bool,
)
    ensures
        CompileFilter::asked(
            lib_only,
            bins,
            all_bins,
            tsts,
            all_tsts,
            exms,
            all_exms,
            bens,
            all_bens,
            false,
        ) matches CompileFilter::Only {
            all_targets,
            lib,
            bins: rule_bins,
            examples: rule_exms,
            tests: rule_tsts,
            benches: rule_bens,
        } ==> {
            &&& !all_targets
            &&& lib == lib_only
            &&& rule_bins is All <==> all_bins
            &&& rule_bins matches FilterRule::Just(names) ==> names == bins
            &&& rule_tsts is All <==> all_tsts
            &&& rule_tsts matches FilterRule::Just(names) ==> names == tsts
            &&& rule_exms is All <==> all_exms
            &&& rule_exms matches FilterRule::Just(names) ==> names == exms
            &&& rule_bens is All <==> all_bens
            &&& rule_bens matches FilterRule::Just(names) ==> names == bens
        },
{
}

/// With `--all-targets`, the library and all targets of every kind are asked for,
/// whatever else is; with no flag at all, nothing is, and targets that lack
/// features can be skipped.
pub proof fn law_all_flags_or_none(
    lib_only: bool,
    bins: Vec<String>,
    all_bins: bool,
    tsts: Vec<String>,
    all_tsts: bool,
    exms: Vec<String>,
    all_exms: bool,
    bens: Vec<String>,
    all_bens: bool,
    all_targets: bool,
)
    ensures
        ({
            let filter = CompileFilter::asked(
                lib_only,
                bins,
                all_bins,
                tsts,
                all_tsts,
                exms,
                all_exms,
                bens,
                all_bens,
                all_targets,
            );
            &&& all_targets ==> (filter matches CompileFilter::Only {
                all_targets: all,
                lib,
                bins: rule_bins,
                examples: rule_exms,
                tests: rule_tsts,
                benches: rule_bens,
            } && all && lib && rule_bins is All && rule_exms is All && rule_tsts is All
                && rule_bens is All)
            &&& filter matches CompileFilter::Default { required_features_filterable }
                ==> required_features_filterable
        }),
{
}

/// Dev-dependencies are needed for everything that is a test, and otherwise
/// exactly if any example, test or benchmark is asked for, by its name or with
/// all of its kind; the library and binaries need none.
pub proof fn law_who_needs_dev_deps(
    mode: CompileMode,
    all_targets: bool,
    lib: bool,
    bins: FilterRule,
    examples: FilterRule,
    tests: FilterRule,
    benches: FilterRule,
    required_features_filterable: bool,
)
    ensures
        (CompileFilter::Default { required_features_filterable }).dev_deps_needed(mode) <==> mode
            == CompileMode::Test || mode == CompileMode::Doctest || mode == CompileMode::Bench,
        (CompileFilter::Only { all_targets, lib, bins, examples, tests, benches }).dev_deps_needed(
            mode,
        ) <==> {
            ||| mode == CompileMode::Test
            ||| mode == CompileMode::Doctest
            ||| mode == CompileMode::Bench
            ||| examples is All
            ||| tests is All
            ||| benches is All
            ||| examples matches FilterRule::Just(names) && names@.len() > 0
            ||| tests matches FilterRule::Just(names) && names@.len() > 0
            ||| benches matches FilterRule::Just(names) && names@.len() > 0
        },
{
}

/// `run` takes every target where nothing was asked for, and otherwise the
/// library if it was asked for, no build script, and each other target exactly
/// if the rule for its kind asks for its name.
pub proof fn law_run_minds_the_rule_of_the_kind(
    target: Target,
    all_targets: bool,
    lib: bool,
    bins: FilterRule,
    examples: FilterRule,
    tests: FilterRule,
    benches: FilterRule,
    required_features_filterable: bool,
)
    ensures
        (CompileFilter::Default { required_features_filterable }).runs(target),
        ({
            let runs = (CompileFilter::Only {
                all_targets,
                lib,
                bins,
                examples,
                tests,
                benches,
            }).runs(target);
            let name = target.name@;
            &&& target.kind == TargetKind::Lib ==> runs == lib
            &&& target.kind == TargetKind::CustomBuild ==> !runs
            &&& target.kind == TargetKind::Bin ==> runs == bins.asks_for(name)
            &&& target.kind == TargetKind::Test ==> runs == tests.asks_for(name)
            &&& target.kind == TargetKind::Bench ==> runs == benches.asks_for(name)
            &&& target.kind == TargetKind::ExampleBin ==> runs == examples.asks_for(name)
            &&& target.kind == TargetKind::ExampleLib ==> runs == examples.asks_for(name)
        }),
{
}

} // verus!
