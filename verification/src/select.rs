//! Finding the targets of a package that are asked for.

use crate::distance::{edit_distance, lev_distance};
use crate::error::{outcome, CompileError, CompileErrorView};
use crate::filter::FilterRule;
use crate::lists::{
    ascending, first_match, law_filter_positions, law_first_match, lemma_filter_members, lemma_filter_start, lemma_filter_step, lemma_first_match,
    lemma_match_holds, lemma_no_match, refs,
};
use crate::mode::CompileMode;
use crate::package::Package;
use crate::target::{Target, TargetKind, TargetPredicate};
use vstd::prelude::*;

verus! {

/// Whether there is a library with a name.
pub open spec fn has_lib_named(targets: Seq<Target>, name: Seq<char>) -> bool {
    exists|i: int|
        0 <= i < targets.len() && (#[trigger] targets[i]).lib() && targets[i].name@ == name
}

/// Which targets a mode takes when the user doesn't specify any.
pub open spec fn default_pred<'a>(targets: Seq<Target>, mode: CompileMode) -> spec_fn(
    &'a Target,
) -> bool {
    |t: &'a Target|
        match mode {
            CompileMode::Bench => t.benched,
            CompileMode::Test => t.tested || t.example(),
            CompileMode::Build | CompileMode::Check { .. } => t.bin() || t.lib(),
            // lib and bins, but no bin with the same name as the lib
            CompileMode::Doc { .. } => t.documented && (!t.bin() || !has_lib_named(
                targets,
                t.name@,
            )),
            CompileMode::Doctest => t.lib() && t.doctested,
            CompileMode::RunCustomBuild => false,
        }
}

/// The targets that a mode takes when the user doesn't specify any.
pub open spec fn default_targets<'a>(targets: Seq<Target>, mode: CompileMode) -> Seq<&'a Target> {
    let taken = refs(targets).filter(default_pred(targets, mode));
    if mode is Doctest && taken.len() > 0 {
        taken.take(1)
    } else {
        taken
    }
}

/// Which targets have a property.
pub open spec fn kind_pred<'a>(kind: TargetPredicate) -> spec_fn(&'a Target) -> bool {
    |t: &'a Target| kind.holds(*t)
}

/// Which targets have a property and a name.
pub open spec fn named_pred<'a>(kind: TargetPredicate, name: Seq<char>) -> spec_fn(
    &'a Target,
) -> bool {
    |t: &'a Target| t.name@ == name && kind.holds(*t)
}

/// Which targets with a property have a name that is close to `name`, and as
/// close as any.
pub open spec fn closest_pred<'a>(
    targets: Seq<Target>,
    kind: TargetPredicate,
    name: Seq<char>,
) -> spec_fn(&'a Target) -> bool {
    |t: &'a Target|
        {
            &&& kind.holds(*t)
            &&& edit_distance(name, t.name@) < 4
            &&& forall|j: int|
                0 <= j < targets.len() && kind.holds(#[trigger] targets[j]) ==> edit_distance(
                    name,
                    t.name@,
                ) <= edit_distance(name, targets[j].name@)
        }
}

/// The target with a name.
pub open spec fn named_target<'a>(
    targets: Seq<Target>,
    kind: TargetPredicate,
    name: Seq<char>,
) -> Option<&'a Target> {
    first_match(refs(targets), named_pred(kind, name))
}

/// What is said of a name that no target has: which target may be meant, if any
/// is close.
pub open spec fn missing_target(
    targets: Seq<Target>,
    kind: TargetPredicate,
    desc: Seq<char>,
    name: Seq<char>,
) -> CompileErrorView {
    let suggestion = match first_match(refs(targets), closest_pred(targets, kind, name)) {
        Some(t) => Some(t.name@),
        None => None,
    };
    CompileErrorView::NoSuchTarget { desc, name, suggestion }
}

/// Which names no target has.
pub open spec fn missing_pred(targets: Seq<Target>, kind: TargetPredicate) -> spec_fn(
    String,
) -> bool {
    |name: String| named_target(targets, kind, name@) is None
}

/// The targets that a rule asks for, each with a flag that tells whether it was
/// asked for by name.
pub open spec fn rule_targets<'a>(
    targets: Seq<Target>,
    rule: FilterRule,
    desc: Seq<char>,
    kind: TargetPredicate,
) -> Result<Seq<(&'a Target, bool)>, CompileErrorView> {
    match rule {
        FilterRule::All => {
            let all = refs(targets).filter(kind_pred(kind));
            Ok(Seq::new(all.len(), |i: int| (all[i], false)))
        },
        FilterRule::Just(names) => match first_match(names@, missing_pred(targets, kind)) {
            Some(name) => Err(missing_target(targets, kind, desc, name@)),
            None => Ok(
                Seq::new(
                    names@.len(),
                    |i: int| (named_target(targets, kind, names@[i]@)->0, true),
                ),
            ),
        },
    }
}

/// Whether there is a library with a name.
fn any_lib_named(targets: &[Target], name: &String) -> (res: bool)
    ensures
        res == has_lib_named(targets@, name@),
{
    let mut i: usize = 0;
    while i < targets.len()
        invariant
            i <= targets.len(),
            forall|j: int|
                0 <= j < i ==> !((#[trigger] targets@[j]).lib() && targets@[j].name@ == name@),
        decreases targets.len() - i,
    {
        if targets[i].is_lib() && targets[i].name == *name {
            return true;
        }
        i += 1;
    }
    false
}

/// Given a list of all targets for a package, filters out only the targets
/// that are automatically included when the user doesn't specify any targets.
pub fn generate_default_targets<'a>(targets: &'a [Target], mode: CompileMode) -> (res: Vec<
    &'a Target,
>)
    requires
        !(mode is RunCustomBuild),
    ensures
        res@ == default_targets(targets@, mode),
{
    let ghost all = refs::<Target>(targets@);
    let ghost pred = default_pred(targets@, mode);
    let mut res: Vec<&'a Target> = Vec::new();
    let mut i: usize = 0;
    proof {
        lemma_filter_start(all, pred);
    }
    while i < targets.len()
        invariant
            i <= targets.len(),
            !(mode is RunCustomBuild),
            all == refs::<Target>(targets@),
            pred == default_pred(targets@, mode),
            res@ == all.take(i as int).filter(pred),
            mode is Doctest ==> forall|j: int| 0 <= j < i ==> !pred(#[trigger] all[j]),
        decreases targets.len() - i,
    {
        let t = &targets[i];
        let taken = match mode {
            CompileMode::Bench => t.benched,
            CompileMode::Test => t.tested || t.is_example(),
            CompileMode::Build | CompileMode::Check { .. } => t.is_bin() || t.is_lib(),
            CompileMode::Doc { .. } => {
                t.documented && (!t.is_bin() || !any_lib_named(targets, &t.name))
            },
            CompileMode::Doctest => t.is_lib() && t.doctested,
            CompileMode::RunCustomBuild => false,
        };
        proof {
            lemma_filter_step(all, pred, i as int);
            assert(all[i as int] == t);
            assert(taken == pred(all[i as int]));
        }
        if taken {
            res.push(t);
            if mode == CompileMode::Doctest {
                proof {
                    lemma_first_match(all, pred, i as int);
                    lemma_no_match(all.take(i as int), pred);
                    assert(res@ =~= default_targets(targets@, mode));
                }
                return res;
            }
        }
        i += 1;
    }
    proof {
        assert(all.take(all.len() as int) =~= all);
        if mode is Doctest {
            lemma_no_match(all, pred);
        }
    }
    res
}

/// The first of the targets with a property whose name is closest to a name, if
/// it is close.
fn suggest_target<'a>(targets: &'a Vec<Target>, target_name: &String, kind: TargetPredicate) -> (res:
    Option<&'a Target>)
    ensures
        res == first_match(refs(targets@), closest_pred(targets@, kind, target_name@)),
{
    let ghost all = refs::<Target>(targets@);
    let ghost name = target_name@;
    let mut best: Option<(usize, usize)> = None;
    let mut i: usize = 0;
    while i < targets.len()
        invariant
            i <= targets.len(),
            name == target_name@,
            match best {
                None => forall|j: int|
                    0 <= j < i && kind.holds(#[trigger] targets@[j]) ==> edit_distance(
                        name,
                        targets@[j].name@,
                    ) >= 4,
                Some((b, d)) => {
                    &&& b < i
                    &&& kind.holds(targets@[b as int])
                    &&& d == edit_distance(name, targets@[b as int].name@)
                    &&& d < 4
                    &&& forall|j: int|
                        0 <= j < i && kind.holds(#[trigger] targets@[j]) ==> d <= edit_distance(
                            name,
                            targets@[j].name@,
                        )
                    &&& forall|j: int|
                        0 <= j < b && kind.holds(#[trigger] targets@[j]) ==> d < edit_distance(
                            name,
                            targets@[j].name@,
                        )
                },
            },
        decreases targets.len() - i,
    {
        if kind.accepts(&targets[i]) {
            let distance = lev_distance(target_name.as_str(), targets[i].name.as_str());
            let closer = match best {
                None => distance < 4,
                Some((_, least)) => distance < least,
            };
            if closer {
                best = Some((i, distance));
            }
        }
        i += 1;
    }
    let ghost pred = closest_pred(targets@, kind, name);
    match best {
        None => {
            proof {
                assert forall|j: int| 0 <= j < all.len() implies !pred(all[j]) by {
                    assert(*all[j] == targets@[j]);
                }
                lemma_no_match(all, pred);
            }
            None
        },
        Some((b, _)) => {
            proof {
                assert(*all[b as int] == targets@[b as int]);
                assert forall|j: int| 0 <= j < b implies !pred(all[j]) by {
                    assert(*all[j] == targets@[j]);
                }
                lemma_first_match(all, pred, b as int);
            }
            Some(&targets[b])
        },
    }
}

/// Find the target for a specifically named target.
pub fn find_target<'a>(
    pkg: &'a Package,
    target_name: &String,
    target_desc: &'static str,
    is_expected_kind: TargetPredicate,
) -> (res: Result<(&'a Target, bool), CompileError>)
    ensures
        match named_target(pkg.targets@, is_expected_kind, target_name@) {
            Some(t) => res == Ok::<(&'a Target, bool), CompileError>((t, true)),
            None => res matches Err(error) && error@ == missing_target(
                pkg.targets@,
                is_expected_kind,
                target_desc@,
                target_name@,
            ),
        },
{
    let ghost all = refs::<Target>(pkg.targets@);
    let ghost pred = named_pred(is_expected_kind, target_name@);
    let mut i: usize = 0;
    while i < pkg.targets.len()
        invariant
            i <= pkg.targets.len(),
            all == refs::<Target>(pkg.targets@),
            pred == named_pred(is_expected_kind, target_name@),
            forall|j: int| 0 <= j < i ==> !pred(#[trigger] all[j]),
        decreases pkg.targets.len() - i,
    {
        let t = &pkg.targets[i];
        assert(all[i as int] == t);
        if t.name == *target_name && is_expected_kind.accepts(t) {
            proof {
                lemma_first_match(all, pred, i as int);
            }
            // When a target is specified by name, required features *must* be
            // available.
            return Ok((t, true));
        }
        i += 1;
    }
    proof {
        lemma_no_match(all, pred);
    }
    let suggestion = match suggest_target(&pkg.targets, target_name, is_expected_kind) {
        Some(t) => Some(t.name.clone()),
        None => None,
    };
    Err(CompileError::NoSuchTarget { desc: target_desc, name: target_name.clone(), suggestion })
}

/// Returns a list of targets based on command-line target selection flags.
/// The return value is a list of `(Target, bool)` pairs.  The `bool` value
/// indicates whether or not all required features *must* be present.
pub fn list_rule_targets<'a>(
    pkg: &'a Package,
    rule: &FilterRule,
    target_desc: &'static str,
    is_expected_kind: TargetPredicate,
) -> (res: Result<Vec<(&'a Target, bool)>, CompileError>)
    ensures
        outcome(res) == rule_targets(pkg.targets@, *rule, target_desc@, is_expected_kind),
{
    let mut res: Vec<(&'a Target, bool)> = Vec::new();
    match rule {
        FilterRule::All => {
            let ghost all = refs::<Target>(pkg.targets@);
            let ghost pred = kind_pred(is_expected_kind);
            let mut i: usize = 0;
            proof {
                lemma_filter_start(all, pred);
            }
            while i < pkg.targets.len()
                invariant
                    i <= pkg.targets.len(),
                    all == refs::<Target>(pkg.targets@),
                    pred == kind_pred(is_expected_kind),
                    res@ =~= Seq::new(
                        all.take(i as int).filter(pred).len(),
                        |k: int| (all.take(i as int).filter(pred)[k], false),
                    ),
                decreases pkg.targets.len() - i,
            {
                let t = &pkg.targets[i];
                proof {
                    lemma_filter_step(all, pred, i as int);
                    assert(all[i as int] == t);
                }
                if is_expected_kind.accepts(t) {
                    res.push((t, false));
                }
                i += 1;
            }
            assert(all.take(all.len() as int) =~= all);
        },
        FilterRule::Just(names) => {
            let ghost missing = missing_pred(pkg.targets@, is_expected_kind);
            let mut i: usize = 0;
            while i < names.len()
                invariant
                    i <= names.len(),
                    *rule == FilterRule::Just(*names),
                    missing == missing_pred(pkg.targets@, is_expected_kind),
                    forall|j: int| 0 <= j < i ==> !missing(#[trigger] names@[j]),
                    res.len() == i,
                    forall|j: int|
                        0 <= j < i ==> #[trigger] res@[j] == (
                            named_target(pkg.targets@, is_expected_kind, names@[j]@)->0,
                            true,
                        ),
                decreases names.len() - i,
            {
                match find_target(pkg, &names[i], target_desc, is_expected_kind) {
                    Ok(found) => {
                        res.push(found);
                    },
                    Err(error) => {
                        proof {
                            lemma_first_match(names@, missing, i as int);
                        }
                        return Err(error);
                    },
                }
                i += 1;
            }
            proof {
                lemma_no_match(names@, missing);
                assert(res@ =~= rule_targets(
                    pkg.targets@,
                    *rule,
                    target_desc@,
                    is_expected_kind,
                )->Ok_0);
            }
        },
    }
    Ok(res)
}

/// Among the targets that are documented by default there is no binary with the
/// name of a library of the package.
pub proof fn law_doc_skips_shadowed_bins(targets: Seq<Target>, mode: CompileMode, i: int)
    requires
        mode is Doc,
        0 <= i < default_targets(targets, mode).len(),
    ensures
        default_targets(targets, mode)[i].bin() ==> !has_lib_named(
            targets,
            default_targets(targets, mode)[i].name@,
        ),
{
    let all = refs::<Target>(targets);
    let pred = default_pred(targets, mode);
    lemma_filter_members(all, pred);
    assert(all.filter(pred).contains(default_targets(targets, mode)[i]));
}

/// The tests in the documentation are run of one library at most.
pub proof fn law_doctest_takes_one(targets: Seq<Target>)
    ensures
        default_targets(targets, CompileMode::Doctest).len() <= 1,
{
}

/// A target that is suggested in place of a missing one has the property that
/// was asked for, another name, and none with the property is closer; and where
/// any is close, one is suggested.
pub proof fn law_suggestion_is_closest(
    targets: Seq<Target>,
    kind: TargetPredicate,
    desc: Seq<char>,
    name: Seq<char>,
)
    requires
        named_target(targets, kind, name) is None,
    ensures
        missing_target(targets, kind, desc, name) matches CompileErrorView::NoSuchTarget {
            suggestion,
            ..
        } && match suggestion {
            Some(other) => {
                &&& other != name
                &&& edit_distance(name, other) < 4
                &&& exists|i: int|
                    0 <= i < targets.len() && kind.holds(#[trigger] targets[i]) && targets[i].name@
                        == other
                &&& forall|i: int|
                    0 <= i < targets.len() && kind.holds(#[trigger] targets[i]) ==> edit_distance(
                        name,
                        other,
                    ) <= edit_distance(name, targets[i].name@)
            },
            None => forall|i: int|
                0 <= i < targets.len() && kind.holds(#[trigger] targets[i]) ==> edit_distance(
                    name,
                    targets[i].name@,
                ) >= 4,
        },
{
    let all = refs::<Target>(targets);
    let pred = closest_pred(targets, kind, name);
    lemma_match_holds(all, pred);
    lemma_match_holds(all, named_pred(kind, name));
    match first_match(all, pred) {
        Some(t) => {
            let i = choose|i: int| 0 <= i < all.len() && all[i] == t;
            assert(targets[i] == *t);
            assert(!named_pred(kind, name)(all[i]));
        },
        None => {
            if exists|i: int|
                0 <= i < targets.len() && kind.holds(#[trigger] targets[i]) && edit_distance(
                    name,
                    targets[i].name@,
                ) < 4 {
                let i = choose|i: int|
                    0 <= i < targets.len() && kind.holds(#[trigger] targets[i]) && edit_distance(
                        name,
                        targets[i].name@,
                    ) < 4;
                let b = lemma_least_distance(targets, kind, name, i);
                assert(pred(all[b]));
            }
        },
    }
}

/// Some target with a property is as close to a name as any.
proof fn lemma_least_distance(
    targets: Seq<Target>,
    kind: TargetPredicate,
    name: Seq<char>,
    i: int,
) -> (b: int)
    requires
        0 <= i < targets.len(),
        kind.holds(targets[i]),
    ensures
        0 <= b < targets.len(),
        kind.holds(targets[b]),
        edit_distance(name, targets[b].name@) <= edit_distance(name, targets[i].name@),
        forall|j: int|
            0 <= j < targets.len() && kind.holds(#[trigger] targets[j]) ==> edit_distance(
                name,
                targets[b].name@,
            ) <= edit_distance(name, targets[j].name@),
    decreases edit_distance(name, targets[i].name@),
{
    if forall|j: int|
        0 <= j < targets.len() && kind.holds(#[trigger] targets[j]) ==> edit_distance(
            name,
            targets[i].name@,
        ) <= edit_distance(name, targets[j].name@) {
        i
    } else {
        let j = choose|j: int|
            0 <= j < targets.len() && kind.holds(#[trigger] targets[j]) && edit_distance(
                name,
                targets[j].name@,
            ) < edit_distance(name, targets[i].name@);
        lemma_least_distance(targets, kind, name, j)
    }
}

/// What a mode takes when the user doesn't specify any targets, as positions
/// among the targets of the package: they come in the order of the package, and
/// each target is taken or not for its kind and its marks alone.
pub proof fn law_default_targets(targets: Seq<Target>, mode: CompileMode) -> (at: Seq<int>)
    requires
        !(mode is Doctest),
        !(mode is RunCustomBuild),
    ensures
        ascending(at, targets.len()),
        default_targets(targets, mode).len() == at.len(),
        forall|k: int|
            0 <= k < at.len() ==> *(#[trigger] default_targets(targets, mode)[k]) == targets[at[k]],
        mode is Build || mode is Check ==> forall|i: int|
            0 <= i < targets.len() ==> (#[trigger] at.contains(i) <==> targets[i].kind
                == TargetKind::Lib || targets[i].kind == TargetKind::Bin),
        mode is Bench ==> forall|i: int|
            0 <= i < targets.len() ==> (#[trigger] at.contains(i) <==> targets[i].benched),
        mode is Test ==> forall|i: int|
            0 <= i < targets.len() ==> (#[trigger] at.contains(i) <==> targets[i].tested
                || targets[i].kind == TargetKind::ExampleBin || targets[i].kind
                == TargetKind::ExampleLib),
        mode is Doc ==> forall|i: int|
            0 <= i < targets.len() ==> (#[trigger] at.contains(i) <==> {
                &&& targets[i].documented
                &&& targets[i].kind == TargetKind::Bin ==> forall|j: int|
                    0 <= j < targets.len() && (#[trigger] targets[j]).kind == TargetKind::Lib
                        ==> targets[j].name@ != targets[i].name@
            }),
{
    let all = refs::<Target>(targets);
    let pred = default_pred(targets, mode);
    let at = law_filter_positions(all, pred);
    assert forall|i: int| 0 <= i < targets.len() implies (#[trigger] at.contains(i) <==> pred(
        &targets[i],
    )) by {
        assert(all[i] == &targets[i]);
    }
    at
}

/// A check takes exactly what a build takes, whether or not it checks like a
/// test.
pub proof fn law_check_takes_what_build_takes(targets: Seq<Target>, test: bool)
    ensures
        default_targets(targets, CompileMode::Check { test }) == default_targets(
            targets,
            CompileMode::Build,
        ),
{
    let check = law_default_targets(targets, CompileMode::Check { test });
    let build = law_default_targets(targets, CompileMode::Build);
    lemma_same_positions(check, build, targets.len());
    assert(default_targets(targets, CompileMode::Check { test }) =~= default_targets(
        targets,
        CompileMode::Build,
    ));
}

/// Positions in ascending order are determined by which they are.
proof fn lemma_same_positions(a: Seq<int>, b: Seq<int>, len: nat)
    requires
        ascending(a, len),
        ascending(b, len),
        forall|i: int| 0 <= i < len ==> (#[trigger] a.contains(i) <==> b.contains(i)),
    ensures
        a == b,
    decreases a.len(),
{
    if a.len() == 0 {
        if b.len() > 0 {
            assert(b.contains(b[0]));
            assert(a.contains(b[0]));
        }
        assert(a =~= b);
    } else {
        assert(a.contains(a.last()));
        assert(b.contains(a.last()));
        assert(b.contains(b.last()));
        assert(a.contains(b.last()));
        let i = choose|i: int| 0 <= i < b.len() && b[i] == a.last();
        let j = choose|j: int| 0 <= j < a.len() && a[j] == b.last();
        assert(a.last() == b.last());
        let x = a.drop_last();
        let y = b.drop_last();
        assert forall|i: int| 0 <= i < len implies (#[trigger] x.contains(i) <==> y.contains(i)) by {
            assert(a.contains(i) <==> b.contains(i));
            if x.contains(i) {
                let k = choose|k: int| 0 <= k < x.len() && x[k] == i;
                assert(a[k] == i);
                assert(a[k] < a[a.len() - 1]);
                assert(b.contains(i));
                let m = choose|m: int| 0 <= m < b.len() && b[m] == i;
                assert(y[m] == i);
            }
            if y.contains(i) {
                let k = choose|k: int| 0 <= k < y.len() && y[k] == i;
                assert(b[k] == i);
                assert(b[k] < b[b.len() - 1]);
                assert(a.contains(i));
                let m = choose|m: int| 0 <= m < a.len() && a[m] == i;
                assert(x[m] == i);
            }
        }
        lemma_same_positions(x, y, len);
        assert(a =~= x.push(a.last()));
        assert(b =~= y.push(b.last()));
    }
}

/// The tests in the documentation are run of the first library that has any, if
/// there is one.
pub proof fn law_doctest_takes_the_first_lib(targets: Seq<Target>) -> (i: int)
    ensures
        ({
            let taken = default_targets(targets, CompileMode::Doctest);
            if taken.len() > 0 {
                &&& taken.len() == 1
                &&& 0 <= i < targets.len()
                &&& *taken[0] == targets[i]
                &&& targets[i].kind == TargetKind::Lib && targets[i].doctested
                &&& forall|j: int|
                    0 <= j < i ==> !((#[trigger] targets[j]).kind == TargetKind::Lib
                        && targets[j].doctested)
            } else {
                forall|j: int|
                    0 <= j < targets.len() ==> !((#[trigger] targets[j]).kind == TargetKind::Lib
                        && targets[j].doctested)
            }
        }),
{
    let all = refs::<Target>(targets);
    let pred = default_pred(targets, CompileMode::Doctest);
    let i = law_first_match(all, pred);
    assert forall|j: int| 0 <= j < targets.len() implies (pred(#[trigger] all[j]) <==> (
    targets[j].kind == TargetKind::Lib && targets[j].doctested)) by {}
    if first_match(all, pred) is Some {
        assert forall|j: int| 0 <= j < i implies !((#[trigger] targets[j]).kind == TargetKind::Lib
            && targets[j].doctested) by {
            assert(!pred(all[j]));
        }
    } else {
        assert forall|j: int| 0 <= j < targets.len() implies !((#[trigger] targets[j]).kind
            == TargetKind::Lib && targets[j].doctested) by {
            assert(!pred(all[j]));
        }
    }
    i
}

/// Whether a target has a property and a name, and none before it has both.
pub open spec fn first_named(
    targets: Seq<Target>,
    kind: TargetPredicate,
    name: Seq<char>,
    i: int,
) -> bool {
    &&& 0 <= i < targets.len()
    &&& targets[i].name@ == name
    &&& kind.holds(targets[i])
    &&& forall|j: int|
        0 <= j < i ==> !((#[trigger] targets[j]).name@ == name && kind.holds(targets[j]))
}

/// Whether any target has a property and a name.
pub open spec fn has_named(targets: Seq<Target>, kind: TargetPredicate, name: Seq<char>) -> bool {
    exists|i: int| first_named(targets, kind, name, i)
}

/// A target that is asked for by name is the first that has the property and the
/// name, and it is missing exactly if none has both.
pub proof fn law_named_target_is_found(
    targets: Seq<Target>,
    kind: TargetPredicate,
    name: Seq<char>,
) -> (i: int)
    ensures
        match named_target(targets, kind, name) {
            Some(t) => first_named(targets, kind, name, i) && *t == targets[i],
            None => forall|j: int|
                0 <= j < targets.len() ==> !((#[trigger] targets[j]).name@ == name && kind.holds(
                    targets[j],
                )),
        },
{
    let all = refs::<Target>(targets);
    let pred = named_pred(kind, name);
    let i = law_first_match(all, pred);
    if first_match(all, pred) is Some {
        assert forall|j: int| 0 <= j < i implies !((#[trigger] targets[j]).name@ == name
            && kind.holds(targets[j])) by {
            assert(!pred(all[j]));
        }
    } else {
        assert forall|j: int| 0 <= j < targets.len() implies !((#[trigger] targets[j]).name@ == name
            && kind.holds(targets[j])) by {
            assert(!pred(all[j]));
        }
    }
    i
}

/// A missing target is told by what was asked for.  The target that is suggested
/// is the first of those with the property whose names are closest, and is less
/// than four edits away; where none is, nothing is suggested.
pub proof fn law_first_of_the_closest_is_suggested(
    targets: Seq<Target>,
    kind: TargetPredicate,
    desc: Seq<char>,
    name: Seq<char>,
) -> (i: int)
    ensures
        missing_target(targets, kind, desc, name) matches CompileErrorView::NoSuchTarget {
            desc: d,
            name: n,
            suggestion,
        } && d == desc && n == name && match suggestion {
            Some(other) => {
                &&& 0 <= i < targets.len()
                &&& targets[i].name@ == other
                &&& kind.holds(targets[i])
                &&& edit_distance(name, other) < 4
                &&& forall|j: int|
                    0 <= j < targets.len() && kind.holds(#[trigger] targets[j]) ==> edit_distance(
                        name,
                        other,
                    ) <= edit_distance(name, targets[j].name@)
                &&& forall|j: int|
                    0 <= j < i && kind.holds(#[trigger] targets[j]) ==> edit_distance(name, other)
                        < edit_distance(name, targets[j].name@)
            },
            None => forall|j: int|
                0 <= j < targets.len() && kind.holds(#[trigger] targets[j]) ==> edit_distance(
                    name,
                    targets[j].name@,
                ) >= 4,
        },
{
    let all = refs::<Target>(targets);
    let pred = closest_pred(targets, kind, name);
    let i = law_first_match(all, pred);
    if first_match(all, pred) is Some {
        let d = edit_distance(name, targets[i].name@);
        assert(*all[i] == targets[i]);
        assert forall|j: int| 0 <= j < i && kind.holds(#[trigger] targets[j]) implies d
            < edit_distance(name, targets[j].name@) by {
            assert(!pred(all[j]));
            assert(*all[j] == targets[j]);
        }
    } else if exists|j: int|
        0 <= j < targets.len() && kind.holds(#[trigger] targets[j]) && edit_distance(
            name,
            targets[j].name@,
        ) < 4 {
        let j = choose|j: int|
            0 <= j < targets.len() && kind.holds(#[trigger] targets[j]) && edit_distance(
                name,
                targets[j].name@,
            ) < 4;
        let b = lemma_least_distance(targets, kind, name, j);
        assert(*all[b] == targets[b]);
        assert(pred(all[b]));
    }
    i
}

/// Whether positions among targets are those that a rule asks for: all with a
/// property, in the order of the package, or for each name in turn the first with
/// the property and the name.
pub open spec fn follows_rule(
    targets: Seq<Target>,
    rule: FilterRule,
    kind: TargetPredicate,
    at: Seq<int>,
) -> bool {
    match rule {
        FilterRule::All => {
            &&& ascending(at, targets.len())
            &&& forall|i: int|
                0 <= i < targets.len() ==> (#[trigger] at.contains(i) <==> kind.holds(targets[i]))
        },
        FilterRule::Just(names) => {
            &&& at.len() == names@.len()
            &&& forall|n: int|
                0 <= n < names@.len() ==> first_named(targets, kind, names@[n]@, #[trigger] at[n])
        },
    }
}

/// A rule gives the targets that it asks for, required exactly if they were
/// asked for by name.  It is refused exactly for the first name that no target
/// with the property has.
pub proof fn law_rule_gives_what_it_asks_for(
    targets: Seq<Target>,
    rule: FilterRule,
    desc: Seq<char>,
    kind: TargetPredicate,
) -> (res: (Seq<int>, int))
    ensures
        match rule_targets(targets, rule, desc, kind) {
            Ok(found) => {
                let at = res.0;
                &&& follows_rule(targets, rule, kind, at)
                &&& found.len() == at.len()
                &&& forall|k: int|
                    0 <= k < found.len() ==> *(#[trigger] found[k]).0 == targets[at[k]]
                        && found[k].1 == (rule is Just)
            },
            Err(error) => {
                let n = res.1;
                &&& rule matches FilterRule::Just(names)
                &&& 0 <= n < names@.len()
                &&& forall|i: int|
                    0 <= i < targets.len() ==> !((#[trigger] targets[i]).name@ == names@[n]@
                        && kind.holds(targets[i]))
                &&& forall|m: int|
                    0 <= m < n ==> has_named(targets, kind, (#[trigger] names@[m])@)
                &&& error == missing_target(targets, kind, desc, names@[n]@)
            },
        },
{
    let all = refs::<Target>(targets);
    match rule {
        FilterRule::All => {
            let at = law_filter_positions(all, kind_pred(kind));
            assert forall|i: int| 0 <= i < targets.len() implies (#[trigger] at.contains(i)
                <==> kind.holds(targets[i])) by {
                assert(*all[i] == targets[i]);
            }
            let found = rule_targets(targets, rule, desc, kind)->Ok_0;
            assert forall|k: int| 0 <= k < found.len() implies *(#[trigger] found[k]).0
                == targets[at[k]] by {
                assert(all.filter(kind_pred(kind))[k] == all[at[k]]);
            }
            (at, 0)
        },
        FilterRule::Just(names) => {
            let missing = missing_pred(targets, kind);
            let n = law_first_match(names@, missing);
            let at = Seq::new(
                names@.len(),
                |m: int| choose|i: int| first_named(targets, kind, names@[m]@, i),
            );
            if first_match(names@, missing) is Some {
                law_named_target_is_found(targets, kind, names@[n]@);
                assert forall|m: int| 0 <= m < n implies has_named(
                    targets,
                    kind,
                    (#[trigger] names@[m])@,
                ) by {
                    assert(!missing(names@[m]));
                    let i = law_named_target_is_found(targets, kind, names@[m]@);
                    assert(first_named(targets, kind, names@[m]@, i));
                }
            } else {
                let found = rule_targets(targets, rule, desc, kind)->Ok_0;
                assert forall|m: int| 0 <= m < names@.len() implies first_named(
                    targets,
                    kind,
                    names@[m]@,
                    #[trigger] at[m],
                ) && *found[m].0 == targets[at[m]] by {
                    assert(!missing(names@[m]));
                    let i = law_named_target_is_found(targets, kind, names@[m]@);
                    assert(first_named(targets, kind, names@[m]@, i));
                    let c = choose|i: int| first_named(targets, kind, names@[m]@, i);
                    assert(at[m] == c);
                    assert(c == i);
                    assert(found[m] == (named_target(targets, kind, names@[m]@)->0, true));
                }
                assert forall|k: int| 0 <= k < found.len() implies *(#[trigger] found[k]).0
                    == targets[at[k]] by {
                    assert(first_named(targets, kind, names@[k]@, at[k]));
                }
            }
            (at, n)
        },
    }
}

} // verus!
