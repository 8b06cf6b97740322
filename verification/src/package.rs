//! Packages, the specifications that name them, and the workspace they form.

use crate::error::Failure;
use crate::target::Target;
use vstd::prelude::*;

verus! {

/// Identifies a package.
#[derive(PartialEq, Eq, Hash, Debug)]
pub struct PackageId {
    pub name: String,
    pub version: String,
    /// The URL of the source that the package comes from.
    pub source: String,
}

/// What identifies a package: two identifiers with these contents are the same.
pub struct PackageIdView {
    pub name: Seq<char>,
    pub version: Seq<char>,
    pub source: Seq<char>,
}

impl View for PackageId {
    type V = PackageIdView;

    open spec fn view(&self) -> PackageIdView {
        PackageIdView { name: self.name@, version: self.version@, source: self.source@ }
    }
}

impl Clone for PackageId {
    fn clone(&self) -> (res: PackageId)
        ensures
            res == *self,
    {
        PackageId {
            name: self.name.clone(),
            version: self.version.clone(),
            source: self.source.clone(),
        }
    }
}

impl PackageId {
    /// Whether two identifiers name the same package.
    pub fn same(&self, other: &PackageId) -> (res: bool)
        ensures
            res == (self@ == other@),
    {
        self.name == other.name && self.version == other.version && self.source == other.source
    }
}

/// Names one package or several: a name, and what else is known.
#[derive(PartialEq, Eq, Debug)]
pub struct PackageIdSpec {
    pub name: String,
    pub version: Option<String>,
    pub url: Option<String>,
}

impl Clone for PackageIdSpec {
    fn clone(&self) -> (res: PackageIdSpec)
        ensures
            res == *self,
    {
        PackageIdSpec {
            name: self.name.clone(),
            version: match &self.version {
                Some(version) => Some(version.clone()),
                None => None,
            },
            url: match &self.url {
                Some(url) => Some(url.clone()),
                None => None,
            },
        }
    }
}

impl PackageIdSpec {
    /// The specification that names one package and says all that is known of it.
    pub open spec fn naming(id: PackageId) -> PackageIdSpec {
        PackageIdSpec { name: id.name, version: Some(id.version), url: Some(id.source) }
    }

    /// The specification that names one package and says all that is known of it.
    pub fn from_package_id(id: &PackageId) -> (spec: PackageIdSpec)
        ensures
            spec == PackageIdSpec::naming(*id),
    {
        PackageIdSpec {
            name: id.name.clone(),
            version: Some(id.version.clone()),
            url: Some(id.source.clone()),
        }
    }
}

/// A warning that came up while a manifest was read.
#[derive(PartialEq, Eq, Debug)]
pub struct Warning {
    pub message: String,
    /// Whether nothing can be built because of it.
    pub is_critical: bool,
}

/// A package: its manifest and what can be built from it.
#[derive(PartialEq, Eq, Debug)]
pub struct Package {
    pub package_id: PackageId,
    pub manifest_path: String,
    pub warnings: Vec<Warning>,
    pub targets: Vec<Target>,
}

/// The packages that are developed together.
#[derive(PartialEq, Eq, Debug)]
pub struct Workspace {
    /// The path of the root manifest.
    pub root: String,
    /// Whether the root manifest describes no package.
    pub is_virtual: bool,
    /// Whether optional dependencies must resolve too.
    pub require_optional_deps: bool,
    pub members: Vec<Package>,
    /// What is built when nothing is asked for.
    pub default_members: Vec<PackageId>,
    /// The package of the directory that the command was given in, or why there
    /// is none.
    pub current: Result<PackageId, Failure>,
}

impl Workspace {
    /// Whether a package is one of the workspace's members.
    pub open spec fn has_member(self, id: PackageIdView) -> bool {
        exists|i: int| 0 <= i < self.members@.len() && #[trigger] self.members@[i].package_id@ == id
    }

    /// Whether a package is one of the workspace's members.
    pub fn is_member(&self, pkg: &Package) -> (res: bool)
        ensures
            res == self.has_member(pkg.package_id@),
    {
        let mut i: usize = 0;
        while i < self.members.len()
            invariant
                i <= self.members.len(),
                forall|j: int|
                    0 <= j < i ==> #[trigger] self.members@[j].package_id@ != pkg.package_id@,
            decreases self.members.len() - i,
        {
            if self.members[i].package_id.same(&pkg.package_id) {
                return true;
            }
            i += 1;
        }
        false
    }
}

/// Whether two identifiers agree in name, version and source.
pub open spec fn same_package(a: PackageId, b: PackageId) -> bool {
    a.name@ == b.name@ && a.version@ == b.version@ && a.source@ == b.source@
}

/// Identifiers name the same package exactly if name, version and source agree.
pub proof fn law_packages_told_apart(a: PackageId, b: PackageId)
    ensures
        a@ == b@ <==> same_package(a, b),
{
}

/// The specification that names a package has its name, version and source.
pub proof fn law_spec_says_all(id: PackageId)
    ensures
        PackageIdSpec::naming(id).name@ == id.name@,
        PackageIdSpec::naming(id).version matches Some(version) && version@ == id.version@,
        PackageIdSpec::naming(id).url matches Some(url) && url@ == id.source@,
{
}

/// A package is a member exactly if a member agrees with it in name, version and
/// source.
pub proof fn law_members_are_listed(ws: Workspace, pkg: Package)
    ensures
        ws.has_member(pkg.package_id@) <==> exists|i: int|
            0 <= i < ws.members@.len() && same_package(
                (#[trigger] ws.members@[i]).package_id,
                pkg.package_id,
            ),
{
    if exists|i: int|
        0 <= i < ws.members@.len() && same_package(
            (#[trigger] ws.members@[i]).package_id,
            pkg.package_id,
        ) {
        let i = choose|i: int|
            0 <= i < ws.members@.len() && same_package(
                (#[trigger] ws.members@[i]).package_id,
                pkg.package_id,
            );
        assert(ws.members@[i].package_id@ == pkg.package_id@);
    }
}

} // verus!
