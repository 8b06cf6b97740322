//! Which packages of a workspace are built.

use crate::error::{outcome, CompileError, CompileErrorView, Failure};
use crate::lists::{
    ascending, first_match, law_filter_positions, law_first_match, lemma_filter_all, lemma_filter_members, lemma_filter_start, lemma_filter_step,
    lemma_first_match, lemma_no_match,
};
use crate::package::{Package, PackageId, PackageIdSpec, Workspace};
use crate::text::{list_contains, texts};
use vstd::prelude::*;

verus! {

/// A set of packages to build.
#[derive(Clone, PartialEq, Eq, Debug)]
pub enum Packages {
    /// The default members of the workspace.
    Default,
    /// All members of the workspace.
    All,
    /// All members of the workspace but those with these names.
    OptOut(Vec<String>),
    /// The packages that these specifications name, or the current package
    /// where there are none.
    Packages(Vec<String>),
}

/// The specifications that name packages.
pub open spec fn specs_naming(ids: Seq<PackageId>) -> Seq<PackageIdSpec> {
    Seq::new(ids.len(), |i: int| PackageIdSpec::naming(ids[i]))
}

/// The identifiers of packages.
pub open spec fn ids_of(packages: Seq<Package>) -> Seq<PackageId> {
    Seq::new(packages.len(), |i: int| packages[i].package_id)
}

/// Whether a specification names none of the packages that are left out.
pub open spec fn not_left_out(left_out: Seq<Seq<char>>) -> spec_fn(PackageIdSpec) -> bool {
    |spec: PackageIdSpec| !left_out.contains(spec.name@)
}

/// Whether a specification could not be read.
pub open spec fn unreadable() -> spec_fn(Result<PackageIdSpec, Failure>) -> bool {
    |spec: Result<PackageIdSpec, Failure>| spec is Err
}

/// The specifications that were read, or the first failure.
pub open spec fn all_read(parsed: Seq<Result<PackageIdSpec, Failure>>) -> Result<
    Seq<PackageIdSpec>,
    CompileErrorView,
> {
    match first_match(parsed, unreadable()) {
        Some(failure) => Err(CompileErrorView::Reported { failure: failure->Err_0@ }),
        None => Ok(Seq::new(parsed.len(), |i: int| parsed[i]->Ok_0)),
    }
}

impl Packages {
    /// The specifications to be read before the packages can be selected.
    pub open spec fn unread(self) -> Seq<String> {
        match self {
            Packages::Packages(packages) => packages@,
            _ => Seq::empty(),
        }
    }

    /// The specifications of the selected packages, were there no rule against
    /// an empty selection; `parsed` holds what [`Packages::unread`] reads as.
    pub open spec fn named(
        self,
        ws: Workspace,
        parsed: Seq<Result<PackageIdSpec, Failure>>,
    ) -> Result<Seq<PackageIdSpec>, CompileErrorView> {
        match self {
            Packages::All => Ok(specs_naming(ids_of(ws.members@))),
            Packages::OptOut(opt_out) => Ok(
                specs_naming(ids_of(ws.members@)).filter(not_left_out(texts(opt_out@))),
            ),
            Packages::Packages(packages) => if packages@.len() == 0 {
                match ws.current {
                    Ok(id) => Ok(seq![PackageIdSpec::naming(id)]),
                    Err(failure) => Err(CompileErrorView::Reported { failure: failure@ }),
                }
            } else {
                all_read(parsed)
            },
            Packages::Default => Ok(specs_naming(ws.default_members@)),
        }
    }

    /// The specifications of the selected packages, or why nothing is selected.
    pub open spec fn selection(
        self,
        ws: Workspace,
        parsed: Seq<Result<PackageIdSpec, Failure>>,
    ) -> Result<Seq<PackageIdSpec>, CompileErrorView> {
        match self.named(ws, parsed) {
            Ok(specs) => if specs.len() > 0 {
                Ok(specs)
            } else if ws.is_virtual {
                Err(CompileErrorView::VirtualManifest { root: ws.root@ })
            } else {
                Err(CompileErrorView::NoPackages)
            },
            Err(error) => Err(error),
        }
    }

    /// What the flags `--all`, `--exclude` and `--package` select.
    pub open spec fn flagged(all: bool, exclude: Vec<String>, package: Vec<String>) -> Result<
        Packages,
        CompileError,
    > {
        if exclude@.len() > 0 {
            if all {
                Ok(Packages::OptOut(exclude))
            } else {
                Err(CompileError::ExcludeWithoutAll)
            }
        } else if all {
            Ok(Packages::All)
        } else if package@.len() > 0 {
            Ok(Packages::Packages(package))
        } else {
            Ok(Packages::Default)
        }
    }

    /// What the flags `--all`, `--exclude` and `--package` select.
    pub fn from_flags(all: bool, exclude: Vec<String>, package: Vec<String>) -> (res: Result<
        Packages,
        CompileError,
    >)
        ensures
            res == Packages::flagged(all, exclude, package),
    {
        match (all, exclude.len(), package.len()) {
            (false, 0, 0) => Ok(Packages::Default),
            (false, 0, _) => Ok(Packages::Packages(package)),
            (false, _, _) => Err(CompileError::ExcludeWithoutAll),
            (true, 0, _) => Ok(Packages::All),
            (true, _, _) => Ok(Packages::OptOut(exclude)),
        }
    }

    /// The specifications of the selected packages.
    ///
    /// `parsed` holds, for each specification that was given as text, what it
    /// reads as, or why it cannot be read.
    pub fn into_package_id_specs(
        &self,
        ws: &Workspace,
        parsed: &Vec<Result<PackageIdSpec, Failure>>,
    ) -> (res: Result<Vec<PackageIdSpec>, CompileError>)
        requires
            parsed@.len() == self.unread().len(),
        ensures
            outcome(res) == self.selection(*ws, parsed@),
    {
        let specs = match self {
            Packages::All => member_specs(ws),
            Packages::OptOut(opt_out) => remaining_specs(ws, opt_out),
            Packages::Packages(packages) => {
                if packages.len() == 0 {
                    match &ws.current {
                        Ok(id) => vec![PackageIdSpec::from_package_id(id)],
                        Err(failure) => {
                            return Err(CompileError::Reported { failure: failure.clone() });
                        },
                    }
                } else {
                    read_specs(parsed)?
                }
            },
            Packages::Default => specs_of(&ws.default_members),
        };
        assert(self.named(*ws, parsed@)->Ok_0 =~= specs@);
        if specs.len() == 0 {
            if ws.is_virtual {
                return Err(CompileError::VirtualManifest { root: ws.root.clone() });
            }
            return Err(CompileError::NoPackages);
        }
        Ok(specs)
    }
}

/// The specifications that name packages.
fn specs_of(ids: &Vec<PackageId>) -> (specs: Vec<PackageIdSpec>)
    ensures
        specs@ == specs_naming(ids@),
{
    let mut specs: Vec<PackageIdSpec> = Vec::new();
    let mut i: usize = 0;
    while i < ids.len()
        invariant
            i <= ids.len(),
            specs@ =~= specs_naming(ids@).take(i as int),
        decreases ids.len() - i,
    {
        specs.push(PackageIdSpec::from_package_id(&ids[i]));
        i += 1;
    }
    assert(specs@ =~= specs_naming(ids@));
    specs
}

/// The specifications that name the members of a workspace.
fn member_specs(ws: &Workspace) -> (specs: Vec<PackageIdSpec>)
    ensures
        specs@ == specs_naming(ids_of(ws.members@)),
{
    let mut specs: Vec<PackageIdSpec> = Vec::new();
    let mut i: usize = 0;
    while i < ws.members.len()
        invariant
            i <= ws.members.len(),
            specs@ =~= specs_naming(ids_of(ws.members@)).take(i as int),
        decreases ws.members.len() - i,
    {
        specs.push(PackageIdSpec::from_package_id(&ws.members[i].package_id));
        i += 1;
    }
    assert(specs@ =~= specs_naming(ids_of(ws.members@)));
    specs
}

/// The specifications that name the members of a workspace but some.
fn remaining_specs(ws: &Workspace, opt_out: &Vec<String>) -> (specs: Vec<PackageIdSpec>)
    ensures
        specs@ == specs_naming(ids_of(ws.members@)).filter(not_left_out(texts(opt_out@))),
{
    let ghost named = specs_naming(ids_of(ws.members@));
    let ghost pred = not_left_out(texts(opt_out@));
    let mut specs: Vec<PackageIdSpec> = Vec::new();
    let mut i: usize = 0;
    proof {
        lemma_filter_start(named, pred);
    }
    while i < ws.members.len()
        invariant
            i <= ws.members.len(),
            named == specs_naming(ids_of(ws.members@)),
            pred == not_left_out(texts(opt_out@)),
            specs@ == named.take(i as int).filter(pred),
        decreases ws.members.len() - i,
    {
        let spec = PackageIdSpec::from_package_id(&ws.members[i].package_id);
        proof {
            lemma_filter_step(named, pred, i as int);
            assert(named[i as int] == spec);
        }
        if !list_contains(opt_out, &spec.name) {
            specs.push(spec);
        }
        i += 1;
    }
    assert(named.take(named.len() as int) =~= named);
    specs
}

/// The specifications that were read, or the first failure.
fn read_specs(parsed: &Vec<Result<PackageIdSpec, Failure>>) -> (res: Result<
    Vec<PackageIdSpec>,
    CompileError,
>)
    ensures
        outcome(res) == all_read(parsed@),
{
    let mut specs: Vec<PackageIdSpec> = Vec::new();
    let mut i: usize = 0;
    while i < parsed.len()
        invariant
            i <= parsed.len(),
            specs.len() == i,
            forall|j: int| 0 <= j < i ==> parsed@[j] == Ok::<PackageIdSpec, Failure>(specs@[j]),
        decreases parsed.len() - i,
    {
        match &parsed[i] {
            Ok(spec) => {
                specs.push(spec.clone());
            },
            Err(failure) => {
                proof {
                    lemma_first_match(parsed@, unreadable(), i as int);
                }
                return Err(CompileError::Reported { failure: failure.clone() });
            },
        }
        i += 1;
    }
    proof {
        lemma_no_match(parsed@, unreadable());
        assert(specs@ =~= all_read(parsed@)->Ok_0);
    }
    Ok(specs)
}

/// A selection of packages is never empty: an empty one is refused.
pub proof fn law_selection_not_empty(
    packages: Packages,
    ws: Workspace,
    parsed: Seq<Result<PackageIdSpec, Failure>>,
)
    ensures
        packages.selection(ws, parsed) matches Ok(specs) ==> specs.len() > 0,
{
}

/// Leaving packages out of all members leaves exactly the members that have
/// none of the names.
pub proof fn law_opt_out_leaves_the_rest(
    opt_out: Vec<String>,
    ws: Workspace,
    parsed: Seq<Result<PackageIdSpec, Failure>>,
    spec: PackageIdSpec,
)
    ensures
        Packages::OptOut(opt_out).named(ws, parsed)->Ok_0.contains(spec) <==> {
            &&& Packages::All.named(ws, parsed)->Ok_0.contains(spec)
            &&& !texts(opt_out@).contains(spec.name@)
        },
{
    lemma_filter_members(specs_naming(ids_of(ws.members@)), not_left_out(texts(opt_out@)));
}

/// Leaving nothing out selects what `--all` selects.
pub proof fn law_opt_out_of_nothing(
    opt_out: Vec<String>,
    ws: Workspace,
    parsed: Seq<Result<PackageIdSpec, Failure>>,
)
    requires
        opt_out@.len() == 0,
    ensures
        Packages::OptOut(opt_out).selection(ws, parsed) == Packages::All.selection(ws, parsed),
{
    lemma_filter_all(specs_naming(ids_of(ws.members@)), not_left_out(texts(opt_out@)));
}

/// Each flag is minded: packages can be excluded exactly from all, `--all` takes
/// no notice of packages that are named, and packages are named exactly if
/// nothing else is asked for.
pub proof fn law_flags_are_minded(all: bool, exclude: Vec<String>, package: Vec<String>)
    ensures
        Packages::flagged(all, exclude, package) is Err <==> !all && exclude@.len() > 0,
        Packages::flagged(all, exclude, package) matches Err(error)
            ==> error is ExcludeWithoutAll,
        Packages::flagged(all, exclude, package) matches Ok(packages) ==> {
            &&& packages is All <==> all && exclude@.len() == 0
            &&& packages is OptOut <==> all && exclude@.len() > 0
            &&& packages is Packages <==> !all && package@.len() > 0
            &&& packages is Default <==> !all && package@.len() == 0
            &&& packages matches Packages::OptOut(left_out) ==> left_out == exclude
            &&& packages matches Packages::Packages(named) ==> named == package
        },
{
}

/// Whether a specification has the name, version and source of a package.
pub open spec fn names(spec: PackageIdSpec, id: PackageId) -> bool {
    &&& spec.name@ == id.name@
    &&& spec.version matches Some(version) && version@ == id.version@
    &&& spec.url matches Some(url) && url@ == id.source@
}

/// With `--all`, every member of a workspace that has any is selected, in their
/// order.
pub proof fn law_all_members_are_selected(
    ws: Workspace,
    parsed: Seq<Result<PackageIdSpec, Failure>>,
)
    requires
        ws.members@.len() > 0,
    ensures
        Packages::All.selection(ws, parsed) matches Ok(specs) && {
            &&& specs.len() == ws.members@.len()
            &&& forall|i: int|
                0 <= i < specs.len() ==> names(#[trigger] specs[i], ws.members@[i].package_id)
        },
{
}

/// Where nothing is asked for, every default member is selected, in their order.
pub proof fn law_default_members_are_selected(
    ws: Workspace,
    parsed: Seq<Result<PackageIdSpec, Failure>>,
)
    requires
        ws.default_members@.len() > 0,
    ensures
        Packages::Default.selection(ws, parsed) matches Ok(specs) && {
            &&& specs.len() == ws.default_members@.len()
            &&& forall|i: int|
                0 <= i < specs.len() ==> names(#[trigger] specs[i], ws.default_members@[i])
        },
{
}

/// Where members are left out, every member that has none of the names is
/// selected, in their order, and no other.
pub proof fn law_remaining_members_are_selected(
    opt_out: Vec<String>,
    ws: Workspace,
    parsed: Seq<Result<PackageIdSpec, Failure>>,
) -> (at: Seq<int>)
    ensures
        ascending(at, ws.members@.len()),
        forall|i: int|
            0 <= i < ws.members@.len() ==> (#[trigger] at.contains(i) <==> forall|j: int|
                0 <= j < opt_out@.len() ==> (#[trigger] opt_out@[j])@
                    != ws.members@[i].package_id.name@),
        at.len() > 0 ==> (Packages::OptOut(opt_out).selection(ws, parsed) matches Ok(specs) && {
            &&& specs.len() == at.len()
            &&& forall|k: int|
                0 <= k < specs.len() ==> names(
                    #[trigger] specs[k],
                    ws.members@[at[k]].package_id,
                )
        }),
        at.len() == 0 ==> Packages::OptOut(opt_out).selection(ws, parsed) is Err,
{
    let all = specs_naming(ids_of(ws.members@));
    let left_out = texts(opt_out@);
    let pred = not_left_out(left_out);
    let at = law_filter_positions(all, pred);
    assert forall|i: int| 0 <= i < ws.members@.len() implies (#[trigger] at.contains(i)
        <==> forall|j: int|
        0 <= j < opt_out@.len() ==> (#[trigger] opt_out@[j])@ != ws.members@[i].package_id.name@) by {
        let name = ws.members@[i].package_id.name@;
        assert(all[i].name@ == name);
        assert(at.contains(i) <==> !left_out.contains(name));
        if exists|j: int| 0 <= j < opt_out@.len() && (#[trigger] opt_out@[j])@ == name {
            let j = choose|j: int| 0 <= j < opt_out@.len() && (#[trigger] opt_out@[j])@ == name;
            assert(left_out[j] == name);
        }
        if left_out.contains(name) {
            let j = choose|j: int| 0 <= j < left_out.len() && left_out[j] == name;
            assert(opt_out@[j]@ == name);
        }
    }
    at
}

/// Where packages are named, what each name reads as is selected, in their order;
/// the first that cannot be read refuses the build, with its whole failure.
pub proof fn law_named_packages_are_selected(
    packages: Vec<String>,
    ws: Workspace,
    parsed: Seq<Result<PackageIdSpec, Failure>>,
) -> (n: int)
    requires
        packages@.len() > 0,
        parsed.len() == packages@.len(),
    ensures
        match Packages::Packages(packages).selection(ws, parsed) {
            Ok(specs) => {
                &&& specs.len() == parsed.len()
                &&& forall|i: int|
                    0 <= i < parsed.len() ==> #[trigger] parsed[i] == Ok::<PackageIdSpec, Failure>(
                        specs[i],
                    )
            },
            Err(error) => {
                &&& 0 <= n < parsed.len()
                &&& parsed[n] matches Err(failure) && error == (CompileErrorView::Reported {
                    failure: failure@,
                })
                &&& forall|i: int| 0 <= i < n ==> (#[trigger] parsed[i]) is Ok
            },
        },
{
    let n = law_first_match(parsed, unreadable());
    if first_match(parsed, unreadable()) is Some {
        assert forall|i: int| 0 <= i < n implies (#[trigger] parsed[i]) is Ok by {
            assert(!unreadable()(parsed[i]));
        }
    } else {
        assert forall|i: int| 0 <= i < parsed.len() implies (#[trigger] parsed[i]) is Ok by {
            assert(!unreadable()(parsed[i]));
        }
    }
    n
}

/// Where no package is named, the current one is selected alone; where there is
/// none, the build is refused with the whole failure to tell it.
pub proof fn law_current_package_is_selected(
    packages: Vec<String>,
    ws: Workspace,
    parsed: Seq<Result<PackageIdSpec, Failure>>,
)
    requires
        packages@.len() == 0,
    ensures
        ws.current matches Ok(id) ==> (Packages::Packages(packages).selection(
            ws,
            parsed,
        ) matches Ok(specs) && specs.len() == 1 && names(specs[0], id)),
        ws.current matches Err(failure) ==> Packages::Packages(packages).selection(ws, parsed)
            == Err::<Seq<PackageIdSpec>, CompileErrorView>(
            CompileErrorView::Reported { failure: failure@ },
        ),
{
}

/// A workspace without members, or one that all members are left out of, has
/// nothing to select: the refusal names the root manifest exactly if it is
/// virtual.
pub proof fn law_nothing_to_select(
    packages: Packages,
    ws: Workspace,
    parsed: Seq<Result<PackageIdSpec, Failure>>,
)
    requires
        match packages {
            Packages::All => ws.members@.len() == 0,
            Packages::Default => ws.default_members@.len() == 0,
            Packages::OptOut(opt_out) => forall|i: int|
                0 <= i < ws.members@.len() ==> texts(opt_out@).contains(
                    (#[trigger] ws.members@[i]).package_id.name@,
                ),
            Packages::Packages(_) => false,
        },
    ensures
        packages.selection(ws, parsed) matches Err(error) && if ws.is_virtual {
            error == (CompileErrorView::VirtualManifest { root: ws.root@ })
        } else {
            error == CompileErrorView::NoPackages
        },
{
    if let Packages::OptOut(opt_out) = packages {
        let all = specs_naming(ids_of(ws.members@));
        let pred = not_left_out(texts(opt_out@));
        assert forall|i: int| 0 <= i < all.len() implies !pred(all[i]) by {
            assert(all[i].name@ == ws.members@[i].package_id.name@);
        }
        lemma_no_match(all, pred);
    }
}

} // verus!
