//! The resolved dependency graph and the features that it enables.

use crate::lists::{first_match, law_first_match, lemma_first_match, lemma_no_match};
use crate::package::{same_package, PackageId, PackageIdView};
use crate::text::{texts, StringSet};
use vstd::prelude::*;

verus! {

/// One package of the graph.
#[derive(PartialEq, Eq, Debug)]
pub struct ResolveNode {
    pub package_id: PackageId,
    /// The features that are enabled for the package.
    pub features: Vec<String>,
    /// The packages that it depends on.
    pub deps: Vec<PackageId>,
}

/// A dependency graph in which every version is chosen.
#[derive(PartialEq, Eq, Debug)]
pub struct Resolve {
    pub nodes: Vec<ResolveNode>,
}

/// Whether a node stands for a package.
pub open spec fn stands_for(id: PackageIdView) -> spec_fn(ResolveNode) -> bool {
    |node: ResolveNode| node.package_id@ == id
}

/// The name by which a package refers to a feature of one of its dependencies.
pub open spec fn dep_feature(dep: Seq<char>, feature: Seq<char>) -> Seq<char> {
    dep + "/"@ + feature
}

impl Resolve {
    /// The node of a package.
    pub open spec fn node_of(self, id: PackageIdView) -> Option<ResolveNode> {
        first_match(self.nodes@, stands_for(id))
    }

    /// The features enabled for a package; none where the graph lacks it.
    pub open spec fn features_of(self, id: PackageIdView) -> Set<Seq<char>> {
        match self.node_of(id) {
            Some(node) => texts(node.features@).to_set(),
            None => Set::empty(),
        }
    }

    /// The packages that a package depends on; none where the graph lacks it.
    pub open spec fn deps_of(self, id: PackageIdView) -> Seq<PackageId> {
        match self.node_of(id) {
            Some(node) => node.deps@,
            None => Seq::empty(),
        }
    }

    /// Whether a dependency `dep` gives `id` the feature name `feature`.
    pub open spec fn gives(self, dep: PackageId, feature: Seq<char>) -> bool {
        exists|f: Seq<char>|
            self.features_of(dep@).contains(f) && feature == #[trigger] dep_feature(dep.name@, f)
    }

    /// The features that the targets of a package can require: its own, and
    /// those of its dependencies behind their names.
    pub open spec fn available_features(self, id: PackageIdView) -> Set<Seq<char>> {
        self.features_of(id).union(
            Set::new(
                |feature: Seq<char>|
                    exists|i: int|
                        0 <= i < self.deps_of(id).len() && self.gives(
                            #[trigger] self.deps_of(id)[i],
                            feature,
                        ),
            ),
        )
    }

    /// The node of a package.
    fn node(&self, id: &PackageId) -> (res: Option<&ResolveNode>)
        ensures
            match res {
                Some(node) => self.node_of(id@) == Some(*node),
                None => self.node_of(id@) is None,
            },
    {
        let mut i: usize = 0;
        while i < self.nodes.len()
            invariant
                i <= self.nodes.len(),
                forall|j: int| 0 <= j < i ==> !stands_for(id@)(#[trigger] self.nodes@[j]),
            decreases self.nodes.len() - i,
        {
            if self.nodes[i].package_id.same(id) {
                proof {
                    lemma_first_match(self.nodes@, stands_for(id@), i as int);
                }
                return Some(&self.nodes[i]);
            }
            i += 1;
        }
        proof {
            lemma_no_match(self.nodes@, stands_for(id@));
        }
        None
    }
}

/// Puts the features of a dependency into a set, behind its name.
fn add_dep_features(set: &mut StringSet, resolve: &Resolve, dep: &PackageId)
    requires
        old(set).wf(),
    ensures
        final(set).wf(),
        forall|feature: Seq<char>| #[trigger]
            final(set)@.contains(feature) <==> old(set)@.contains(feature) || resolve.gives(
                *dep,
                feature,
            ),
{
    if let Some(node) = resolve.node(dep) {
        let ghost before = set@;
        let ghost parts = texts(node.features@);
        let mut i: usize = 0;
        while i < node.features.len()
            invariant
                i <= node.features.len(),
                parts == texts(node.features@),
                set.wf(),
                forall|feature: Seq<char>| #[trigger]
                    set@.contains(feature) <==> before.contains(feature) || exists|k: int|
                        0 <= k < i && feature == dep_feature(dep.name@, #[trigger] parts[k]),
            decreases node.features.len() - i,
        {
            let mut name = dep.name.clone();
            name.append("/");
            name.append(node.features[i].as_str());
            assert(name@ == dep_feature(dep.name@, parts[i as int]));
            set.insert(name);
            i += 1;
        }
        proof {
            assert forall|feature: Seq<char>| #[trigger]
                set@.contains(feature) <==> before.contains(feature) || resolve.gives(
                    *dep,
                    feature,
                ) by {
                if resolve.gives(*dep, feature) {
                    let f = choose|f: Seq<char>|
                        resolve.features_of(dep@).contains(f) && feature == #[trigger] dep_feature(
                            dep.name@,
                            f,
                        );
                    let k = choose|k: int| 0 <= k < parts.len() && parts[k] == f;
                    assert(feature == dep_feature(dep.name@, parts[k]));
                }
                if set@.contains(feature) && !before.contains(feature) {
                    let k = choose|k: int|
                        0 <= k < parts.len() && feature == dep_feature(
                            dep.name@,
                            #[trigger] parts[k],
                        );
                    assert(resolve.features_of(dep@).contains(parts[k]));
                }
            }
        }
    }
}

/// The features that the targets of a package can require.
///
/// Features enabled for dependencies are among them, so that targets can name
/// them in the `required-features` field when it is decided whether they are
/// built or skipped.
pub fn resolve_all_features(resolve_with_overrides: &Resolve, package_id: &PackageId) -> (features:
    StringSet)
    ensures
        features.wf(),
        features@ == resolve_with_overrides.available_features(package_id@),
{
    let mut features = StringSet::new();
    let own = resolve_with_overrides.node(package_id);
    if let Some(own) = own {
        let ghost id = package_id@;
        let ghost deps = resolve_with_overrides.deps_of(id);
        features.extend(&own.features);
        let mut i: usize = 0;
        while i < own.deps.len()
            invariant
                i <= own.deps.len(),
                own.deps@ == deps,
                features.wf(),
                forall|feature: Seq<char>| #[trigger]
                    features@.contains(feature) <==> {
                        ||| resolve_with_overrides.features_of(id).contains(feature)
                        ||| exists|k: int|
                            0 <= k < i && resolve_with_overrides.gives(
                                #[trigger] deps[k],
                                feature,
                            )
                    },
            decreases own.deps.len() - i,
        {
            let dep = &own.deps[i];
            let ghost before = features@;
            add_dep_features(&mut features, resolve_with_overrides, dep);
            proof {
                assert(deps[i as int] == *dep);
                assert forall|feature: Seq<char>| #[trigger]
                    features@.contains(feature) <==> {
                        ||| resolve_with_overrides.features_of(id).contains(feature)
                        ||| exists|k: int|
                            0 <= k < i + 1 && resolve_with_overrides.gives(
                                #[trigger] deps[k],
                                feature,
                            )
                    } by {
                    assert(features@.contains(feature) <==> before.contains(feature)
                        || resolve_with_overrides.gives(*dep, feature));
                }
            }
            i += 1;
        }
        assert(features@ =~= resolve_with_overrides.available_features(id));
    } else {
        assert(features@ =~= resolve_with_overrides.available_features(package_id@));
    }
    features
}

/// The targets of a package can require each of its own features by its name,
/// and each feature of a dependency behind the name of the dependency.
pub proof fn law_available_features(
    resolve: Resolve,
    id: PackageIdView,
    i: int,
    feature: Seq<char>,
)
    ensures
        resolve.features_of(id).contains(feature) ==> resolve.available_features(id).contains(
            feature,
        ),
        0 <= i < resolve.deps_of(id).len() && resolve.features_of(
            resolve.deps_of(id)[i]@,
        ).contains(feature) ==> resolve.available_features(id).contains(
            dep_feature(resolve.deps_of(id)[i].name@, feature),
        ),
{
    if 0 <= i < resolve.deps_of(id).len() && resolve.features_of(
        resolve.deps_of(id)[i]@,
    ).contains(feature) {
        let dep = resolve.deps_of(id)[i];
        assert(resolve.gives(dep, dep_feature(dep.name@, feature)));
    }
}

/// Whether a node of the graph is that of a package: it agrees with the package
/// in name, version and source, and none before it does.
pub open spec fn is_node_for(resolve: Resolve, id: PackageId, n: int) -> bool {
    &&& 0 <= n < resolve.nodes@.len()
    &&& same_package(resolve.nodes@[n].package_id, id)
    &&& forall|m: int|
        0 <= m < n ==> !same_package((#[trigger] resolve.nodes@[m]).package_id, id)
}

/// The node that the graph gives for a package.
proof fn lemma_node_for(resolve: Resolve, id: PackageId, n: int)
    requires
        is_node_for(resolve, id, n),
    ensures
        resolve.node_of(id@) == Some(resolve.nodes@[n]),
{
    lemma_first_match(resolve.nodes@, stands_for(id@), n);
}

/// Where the graph has a node for a package, the targets of the package can
/// require each feature of the node, and for every one of its dependencies each
/// feature of the dependency's node behind the dependency's name and a slash;
/// and nothing else.
pub proof fn law_features_of_every_dependency(
    resolve: Resolve,
    id: PackageId,
    n: int,
    feature: Seq<char>,
)
    requires
        is_node_for(resolve, id, n),
    ensures
        resolve.available_features(id@).contains(feature) <==> {
            ||| exists|j: int|
                0 <= j < resolve.nodes@[n].features@.len() && #[trigger] resolve.nodes@[n].features@[j]@
                    == feature
            ||| exists|k: int, m: int, j: int|
                {
                    &&& 0 <= k < resolve.nodes@[n].deps@.len()
                    &&& is_node_for(resolve, #[trigger] resolve.nodes@[n].deps@[k], m)
                    &&& 0 <= j < resolve.nodes@[m].features@.len()
                    &&& feature == resolve.nodes@[n].deps@[k].name@ + "/"@
                        + #[trigger] resolve.nodes@[m].features@[j]@
                }
        },
{
    lemma_node_for(resolve, id, n);
    let node = resolve.nodes@[n];
    let own = texts(node.features@);
    assert(resolve.features_of(id@) == own.to_set());
    assert(resolve.deps_of(id@) == node.deps@);
    if resolve.available_features(id@).contains(feature) {
        if own.contains(feature) {
            let j = choose|j: int| 0 <= j < own.len() && own[j] == feature;
            assert(node.features@[j]@ == feature);
        } else {
            let k = choose|k: int|
                0 <= k < node.deps@.len() && resolve.gives(#[trigger] node.deps@[k], feature);
            let dep = node.deps@[k];
            let f = choose|f: Seq<char>|
                resolve.features_of(dep@).contains(f) && feature == #[trigger] dep_feature(
                    dep.name@,
                    f,
                );
            let m = law_first_match(resolve.nodes@, stands_for(dep@));
            assert forall|l: int| 0 <= l < m implies !same_package(
                (#[trigger] resolve.nodes@[l]).package_id,
                dep,
            ) by {
                assert(!stands_for(dep@)(resolve.nodes@[l]));
            }
            assert(is_node_for(resolve, dep, m));
            let parts = texts(resolve.nodes@[m].features@);
            let j = choose|j: int| 0 <= j < parts.len() && parts[j] == f;
            assert(feature == dep.name@ + "/"@ + resolve.nodes@[m].features@[j]@);
        }
    }
    if exists|j: int| 0 <= j < node.features@.len() && #[trigger] node.features@[j]@ == feature {
        let j = choose|j: int|
            0 <= j < node.features@.len() && #[trigger] node.features@[j]@ == feature;
        assert(own[j] == feature);
    }
    if exists|k: int, m: int, j: int|
        {
            &&& 0 <= k < node.deps@.len()
            &&& is_node_for(resolve, #[trigger] node.deps@[k], m)
            &&& 0 <= j < resolve.nodes@[m].features@.len()
            &&& feature == node.deps@[k].name@ + "/"@ + #[trigger] resolve.nodes@[m].features@[j]@
        } {
        let (k, m, j) = choose|k: int, m: int, j: int|
            {
                &&& 0 <= k < node.deps@.len()
                &&& is_node_for(resolve, #[trigger] node.deps@[k], m)
                &&& 0 <= j < resolve.nodes@[m].features@.len()
                &&& feature == node.deps@[k].name@ + "/"@
                    + #[trigger] resolve.nodes@[m].features@[j]@
            };
        let dep = node.deps@[k];
        lemma_node_for(resolve, dep, m);
        let f = texts(resolve.nodes@[m].features@)[j];
        assert(resolve.features_of(dep@).contains(f));
        assert(feature == dep_feature(dep.name@, f));
        assert(resolve.gives(dep, feature));
        assert(resolve.gives(resolve.deps_of(id@)[k], feature));
    }
}

/// The targets of a package that the graph lacks can require nothing.
pub proof fn law_no_features_outside_the_graph(
    resolve: Resolve,
    id: PackageId,
    feature: Seq<char>,
)
    requires
        forall|m: int|
            0 <= m < resolve.nodes@.len() ==> !same_package(
                (#[trigger] resolve.nodes@[m]).package_id,
                id,
            ),
    ensures
        !resolve.available_features(id@).contains(feature),
{
    lemma_no_match(resolve.nodes@, stands_for(id@));
}

} // verus!
