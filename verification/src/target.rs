//! Targets of a package.

use crate::text::texts;
use vstd::prelude::*;

verus! {

/// What a target is built into.
#[derive(Clone, Copy, PartialEq, Eq, Hash, Debug, Structural)]
pub enum TargetKind {
    Lib,
    Bin,
    Test,
    Bench,
    ExampleLib,
    ExampleBin,
    CustomBuild,
}

/// One thing that can be built from a package.
#[derive(PartialEq, Eq, Debug)]
pub struct Target {
    pub name: String,
    pub kind: TargetKind,
    /// Whether it is marked as tested.
    pub tested: bool,
    /// Whether it is marked as benched.
    pub benched: bool,
    /// Whether it is documented.
    pub documented: bool,
    /// Whether the tests in its documentation are run.
    pub doctested: bool,
    /// Whether it runs inside the compiler (a plugin or procedural macro).
    pub for_host: bool,
    /// The features without which it is not built.
    pub required_features: Option<Vec<String>>,
}

impl Target {
    pub open spec fn lib(self) -> bool {
        self.kind is Lib
    }

    pub open spec fn bin(self) -> bool {
        self.kind is Bin
    }

    pub open spec fn example(self) -> bool {
        self.kind is ExampleBin || self.kind is ExampleLib
    }

    pub open spec fn test(self) -> bool {
        self.kind is Test
    }

    pub open spec fn bench(self) -> bool {
        self.kind is Bench
    }

    /// The features that the target requires.
    pub open spec fn required(self) -> Seq<Seq<char>> {
        match self.required_features {
            Some(features) => texts(features@),
            None => Seq::empty(),
        }
    }

    pub fn is_lib(&self) -> (res: bool)
        ensures
            res == self.lib(),
    {
        self.kind == TargetKind::Lib
    }

    pub fn is_bin(&self) -> (res: bool)
        ensures
            res == self.bin(),
    {
        self.kind == TargetKind::Bin
    }

    pub fn is_example(&self) -> (res: bool)
        ensures
            res == self.example(),
    {
        self.kind == TargetKind::ExampleBin || self.kind == TargetKind::ExampleLib
    }

    pub fn is_test(&self) -> (res: bool)
        ensures
            res == self.test(),
    {
        self.kind == TargetKind::Test
    }

    pub fn is_bench(&self) -> (res: bool)
        ensures
            res == self.bench(),
    {
        self.kind == TargetKind::Bench
    }
}

/// A property by which targets are selected.
#[derive(Clone, Copy, PartialEq, Eq, Debug, Structural)]
pub enum TargetPredicate {
    /// It is a binary.
    Bin,
    /// It is an example.
    Example,
    /// It is an integration test.
    Test,
    /// It is marked as tested.
    Tested,
    /// It is a benchmark.
    Bench,
    /// It is marked as benched.
    Benched,
}

impl TargetPredicate {
    pub open spec fn holds(self, target: Target) -> bool {
        match self {
            TargetPredicate::Bin => target.bin(),
            TargetPredicate::Example => target.example(),
            TargetPredicate::Test => target.test(),
            TargetPredicate::Tested => target.tested,
            TargetPredicate::Bench => target.bench(),
            TargetPredicate::Benched => target.benched,
        }
    }

    /// Whether a target has the property.
    pub fn accepts(&self, target: &Target) -> (res: bool)
        ensures
            res == self.holds(*target),
    {
        match *self {
            TargetPredicate::Bin => target.is_bin(),
            TargetPredicate::Example => target.is_example(),
            TargetPredicate::Test => target.is_test(),
            TargetPredicate::Tested => target.tested,
            TargetPredicate::Bench => target.is_bench(),
            TargetPredicate::Benched => target.benched,
        }
    }
}

/// What a target is follows from its kind alone, and it is one thing at most.
pub proof fn law_target_is_its_kind(target: Target)
    ensures
        target.lib() <==> target.kind == TargetKind::Lib,
        target.bin() <==> target.kind == TargetKind::Bin,
        target.test() <==> target.kind == TargetKind::Test,
        target.bench() <==> target.kind == TargetKind::Bench,
        target.example() <==> target.kind == TargetKind::ExampleLib || target.kind
            == TargetKind::ExampleBin,
{
}

/// Properties by which targets are selected look at the kind of a target or at
/// one of its marks, and at nothing else.
pub proof fn law_properties_of_targets(target: Target)
    ensures
        TargetPredicate::Bin.holds(target) <==> target.kind == TargetKind::Bin,
        TargetPredicate::Test.holds(target) <==> target.kind == TargetKind::Test,
        TargetPredicate::Bench.holds(target) <==> target.kind == TargetKind::Bench,
        TargetPredicate::Example.holds(target) <==> target.kind == TargetKind::ExampleLib
            || target.kind == TargetKind::ExampleBin,
        TargetPredicate::Tested.holds(target) == target.tested,
        TargetPredicate::Benched.holds(target) == target.benched,
{
}

/// A target requires each of its features, and none if it lists none.
pub proof fn law_required_features_listed(target: Target)
    ensures
        target.required_features is None ==> target.required().len() == 0,
        target.required_features matches Some(features) ==> {
            &&& target.required().len() == features@.len()
            &&& forall|i: int|
                0 <= i < features@.len() ==> #[trigger] target.required()[i] == features@[i]@
        },
{
}

} // verus!
