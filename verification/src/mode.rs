//! Build modes and the platform a unit is built for.

use vstd::prelude::*;

verus! {

/// The general "mode" of what to do.
///
/// It is used for two purposes.  A command passes one in to tell the general
/// execution strategy, which influences the default targets selected.  A
/// [`Unit`](crate::units::Unit) holds one to tell what is being done with a
/// specific target.
#[derive(Clone, Copy, PartialEq, Eq, Hash, Debug, Structural)]
pub enum CompileMode {
    /// A target being built for a test.
    Test,
    /// Building a target with `rustc` (lib or bin).
    Build,
    /// Building a target with `rustc` to emit `rmeta` metadata only. If
    /// `test` is true, then it is also compiled with `--test` to check it like
    /// a test.
    Check { test: bool },
    /// Used to indicate benchmarks should be built.  Units never hold it: they
    /// hold `Test` instead, which is essentially the same (`--test` is passed
    /// to rustc) and allows some de-duplication of units.
    Bench,
    /// A target that will be documented with `rustdoc`.
    /// If `deps` is true, then it will also document all dependencies.
    Doc { deps: bool },
    /// A target that will be tested with `rustdoc`.
    Doctest,
    /// A marker for units that represent the execution of a `build.rs`
    /// script.
    RunCustomBuild,
}

/// The modes in the order in which [`CompileMode::all_modes`] lists them.
pub open spec fn mode_list() -> Seq<CompileMode> {
    seq![
        CompileMode::Test,
        CompileMode::Build,
        CompileMode::Check { test: true },
        CompileMode::Check { test: false },
        CompileMode::Bench,
        CompileMode::Doc { deps: true },
        CompileMode::Doc { deps: false },
        CompileMode::Doctest,
        CompileMode::RunCustomBuild,
    ]
}

impl CompileMode {
    /// Whether a unit in this mode is run as some kind of test.
    pub open spec fn any_test(self) -> bool {
        ||| self is Test
        ||| self is Bench
        ||| self is Doctest
        ||| self == (CompileMode::Check { test: true })
    }

    /// Returns true if the unit is being checked.
    pub fn is_check(&self) -> (res: bool)
        ensures
            res == (self is Check),
    {
        match *self {
            CompileMode::Check { .. } => true,
            _ => false,
        }
    }

    /// Returns true if this is a doc or doctest. Be careful using this.
    /// Although both run rustdoc, the dependencies for those two modes are
    /// very different.
    pub fn is_doc(&self) -> (res: bool)
        ensures
            res == (self is Doc || self is Doctest),
    {
        match *self {
            CompileMode::Doc { .. } | CompileMode::Doctest => true,
            _ => false,
        }
    }

    /// Returns true if this is any type of test (test, benchmark, doctest, or
    /// check-test).
    pub fn is_any_test(&self) -> (res: bool)
        ensures
            res == self.any_test(),
    {
        match *self {
            CompileMode::Test
            | CompileMode::Bench
            | CompileMode::Check { test: true }
            | CompileMode::Doctest => true,
            _ => false,
        }
    }

    /// Returns true if this is the *execution* of a `build.rs` script.
    pub fn is_run_custom_build(&self) -> (res: bool)
        ensures
            res == (self is RunCustomBuild),
    {
        *self == CompileMode::RunCustomBuild
    }

    /// List of all modes (used for computing all possible outputs when
    /// cleaning a package).
    pub fn all_modes() -> (modes: &'static [CompileMode])
        ensures
            modes@ == mode_list(),
    {
        let modes: &'static [CompileMode; 9] = &[
            CompileMode::Test,
            CompileMode::Build,
            CompileMode::Check { test: true },
            CompileMode::Check { test: false },
            CompileMode::Bench,
            CompileMode::Doc { deps: true },
            CompileMode::Doc { deps: false },
            CompileMode::Doctest,
            CompileMode::RunCustomBuild,
        ];
        modes
    }
}

/// How messages of the compiler are shown.
#[derive(Clone, Copy, PartialEq, Eq, Debug, Structural)]
pub enum MessageFormat {
    Human,
    Json,
}

/// The platform that a unit is built for.
#[derive(Clone, Copy, PartialEq, Eq, Hash, Debug, Structural)]
pub enum Kind {
    /// The platform that the compiler runs on.
    Host,
    /// The platform that was asked for.
    Target,
}

/// Why a profile is looked up.
#[derive(Clone, Copy, PartialEq, Eq, Debug, Structural)]
pub enum ProfileFor {
    /// A general profile, with no special treatment.
    Any,
    /// The profile of a test, a benchmark or something that one depends on.
    TestDependency,
}

/// The list of modes holds every mode, and none twice.
pub proof fn law_modes_listed_once(mode: CompileMode)
    ensures
        mode_list().contains(mode),
        mode_list().no_duplicates(),
{
    let modes = mode_list();
    assert(modes[0] is Test);
    assert(modes[1] is Build);
    assert(modes[2] == (CompileMode::Check { test: true }));
    assert(modes[3] == (CompileMode::Check { test: false }));
    assert(modes[4] is Bench);
    assert(modes[5] == (CompileMode::Doc { deps: true }));
    assert(modes[6] == (CompileMode::Doc { deps: false }));
    assert(modes[7] is Doctest);
    assert(modes[8] is RunCustomBuild);
}

/// Tests, benchmarks and doctests are tests, and so is a check exactly if it
/// checks like a test; building, documenting and running build scripts is not.
pub proof fn law_test_modes(test: bool, deps: bool)
    ensures
        CompileMode::Test.any_test(),
        CompileMode::Bench.any_test(),
        CompileMode::Doctest.any_test(),
        (CompileMode::Check { test }).any_test() <==> test,
        !CompileMode::Build.any_test(),
        !(CompileMode::Doc { deps }).any_test(),
        !CompileMode::RunCustomBuild.any_test(),
{
}

} // verus!
