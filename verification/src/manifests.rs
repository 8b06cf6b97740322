//! The warnings in the manifests of a workspace.

use crate::error::{CompileError, CompileErrorView};
use crate::package::{Package, Warning};
use vstd::prelude::*;

verus! {

/// What the manifests of a workspace give to report.
#[derive(Debug)]
pub struct ManifestReport {
    /// The messages to warn with, in this order.
    pub warnings: Vec<String>,
    /// Why the build is refused after these warnings, if it is.
    pub failure: Option<CompileError>,
}

/// The warnings of packages in their order, each with the path of its manifest.
pub open spec fn all_warnings(packages: Seq<Package>) -> Seq<(Seq<char>, Warning)>
    decreases packages.len(),
{
    if packages.len() == 0 {
        Seq::empty()
    } else {
        let last = packages.last();
        all_warnings(packages.drop_last()) + Seq::new(
            last.warnings@.len(),
            |i: int| (last.manifest_path@, last.warnings@[i]),
        )
    }
}

/// Whether a warning is no obstacle, and is reported with a message.
pub open spec fn reported_as(warning: Warning, message: String) -> bool {
    !warning.is_critical && message@ == warning.message@
}

/// Whether a report warns of everything up to the first warning that is critical,
/// and refuses the build because of that one.
pub open spec fn reports(members: Seq<Package>, report: ManifestReport) -> bool {
    let all = all_warnings(members);
    let n = report.warnings@.len() as int;
    &&& n <= all.len()
    &&& forall|i: int| 0 <= i < n ==> reported_as(all[i].1, #[trigger] report.warnings@[i])
    &&& match report.failure {
        None => n == all.len(),
        Some(error) => {
            &&& n < all.len()
            &&& all[n].1.is_critical
            &&& error@ == (CompileErrorView::InvalidManifest {
                path: all[n].0,
                reason: all[n].1.message@,
            })
        },
    }
}

/// The warnings of the first packages come first.
proof fn lemma_warnings_prefix(packages: Seq<Package>, n: int)
    requires
        0 <= n <= packages.len(),
    ensures
        all_warnings(packages.take(n)).len() <= all_warnings(packages).len(),
        forall|i: int|
            0 <= i < all_warnings(packages.take(n)).len() ==> #[trigger] all_warnings(
                packages.take(n),
            )[i] == all_warnings(packages)[i],
    decreases packages.len(),
{
    if n == packages.len() {
        assert(packages.take(n) =~= packages);
    } else {
        assert(packages.drop_last().take(n) =~= packages.take(n));
        lemma_warnings_prefix(packages.drop_last(), n);
    }
}

/// The warnings in the manifests of packages, up to the first that is critical:
/// that one refuses the build.
pub fn check_manifests(members: &Vec<Package>) -> (report: ManifestReport)
    ensures
        reports(members@, report),
{
    let ghost all = all_warnings(members@);
    let mut warnings: Vec<String> = Vec::new();
    let mut i: usize = 0;
    while i < members.len()
        invariant
            i <= members.len(),
            all == all_warnings(members@),
            warnings.len() == all_warnings(members@.take(i as int)).len(),
            warnings.len() <= all.len(),
            forall|k: int|
                0 <= k < warnings@.len() ==> reported_as(all[k].1, #[trigger] warnings@[k]),
        decreases members.len() - i,
    {
        let member = &members[i];
        let ghost start = warnings@.len() as int;
        proof {
            assert(members@.take(i + 1).drop_last() =~= members@.take(i as int));
            assert(members@.take(i + 1).last() == *member);
            lemma_warnings_prefix(members@, i + 1);
            assert forall|j: int| 0 <= j < member.warnings@.len() implies #[trigger] all[start + j]
                == (member.manifest_path@, member.warnings@[j]) by {
                assert(all_warnings(members@.take(i + 1))[start + j] == all[start + j]);
            }
        }
        let mut j: usize = 0;
        while j < member.warnings.len()
            invariant
                j <= member.warnings.len(),
                warnings.len() == start + j,
                start + member.warnings@.len() <= all.len(),
                all == all_warnings(members@),
                forall|m: int|
                    0 <= m < member.warnings@.len() ==> #[trigger] all[start + m] == (
                        member.manifest_path@,
                        member.warnings@[m],
                    ),
                forall|k: int|
                    0 <= k < warnings@.len() ==> reported_as(all[k].1, #[trigger] warnings@[k]),
            decreases member.warnings.len() - j,
        {
            let warning = &member.warnings[j];
            assert(all[start + j] == (member.manifest_path@, *warning));
            if warning.is_critical {
                let failure = CompileError::InvalidManifest {
                    path: member.manifest_path.clone(),
                    reason: warning.message.clone(),
                };
                return ManifestReport { warnings, failure: Some(failure) };
            }
            warnings.push(warning.message.clone());
            j += 1;
        }
        i += 1;
    }
    assert(members@.take(members@.len() as int) =~= members@);
    ManifestReport { warnings, failure: None }
}

/// A build is refused for its manifests exactly if one of them gives a critical
/// warning.
pub proof fn law_critical_warnings_refuse(members: Seq<Package>, report: ManifestReport)
    requires
        reports(members, report),
    ensures
        report.failure is Some <==> exists|i: int|
            0 <= i < all_warnings(members).len() && (#[trigger] all_warnings(
                members,
            )[i]).1.is_critical,
{
    let all = all_warnings(members);
    if report.failure is None {
        assert forall|i: int| 0 <= i < all.len() implies !(#[trigger] all[i]).1.is_critical by {
            assert(reported_as(all[i].1, report.warnings@[i]));
        }
    } else {
        assert(all[report.warnings@.len() as int].1.is_critical);
    }
}

/// The warnings of two lists of packages are those of the first and then those of
/// the second; those of one package are all that its manifest gives, each with the
/// path of the manifest.
pub proof fn law_warnings_one_after_the_other(a: Seq<Package>, b: Seq<Package>)
    ensures
        all_warnings(a + b) == all_warnings(a) + all_warnings(b),
        a.len() == 0 ==> all_warnings(a).len() == 0,
        a.len() == 1 ==> {
            &&& all_warnings(a).len() == a[0].warnings@.len()
            &&& forall|i: int|
                0 <= i < a[0].warnings@.len() ==> #[trigger] all_warnings(a)[i] == (
                    a[0].manifest_path@,
                    a[0].warnings@[i],
                )
        },
    decreases b.len(),
{
    reveal_with_fuel(all_warnings, 2);
    if b.len() == 0 {
        assert(a + b =~= a);
        assert(all_warnings(a) + all_warnings(b) =~= all_warnings(a));
    } else {
        assert((a + b).drop_last() =~= a + b.drop_last());
        assert((a + b).last() == b.last());
        law_warnings_one_after_the_other(a, b.drop_last());
        assert(all_warnings(a + b) =~= all_warnings(a) + all_warnings(b));
    }
}

/// A report warns with the message of every warning before the first critical one,
/// in their order; the critical one refuses the build, by the path of its manifest
/// and with its message as the cause.
pub proof fn law_report_up_to_the_first_critical(members: Seq<Package>, report: ManifestReport)
    requires
        reports(members, report),
    ensures
        ({
            let all = all_warnings(members);
            let n = report.warnings@.len() as int;
            &&& n <= all.len()
            &&& forall|i: int|
                0 <= i < n ==> (#[trigger] report.warnings@[i])@ == all[i].1.message@
                    && !all[i].1.is_critical
            &&& report.failure is None ==> n == all.len()
            &&& report.failure matches Some(error) ==> {
                &&& n < all.len() && all[n].1.is_critical
                &&& error@ == (CompileErrorView::InvalidManifest {
                    path: all[n].0,
                    reason: all[n].1.message@,
                })
            }
        }),
{
    let all = all_warnings(members);
    assert forall|i: int| 0 <= i < report.warnings@.len() implies (
    #[trigger] report.warnings@[i])@ == all[i].1.message@ && !all[i].1.is_critical by {
        assert(reported_as(all[i].1, report.warnings@[i]));
    }
}

} // verus!
