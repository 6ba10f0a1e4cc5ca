//! Walking dependencies: tallying what is cached, describing dependencies
//! for display, and collecting every dependency reachable through
//! transitive dependencies without repeats.
use vstd::prelude::*;

use crate::config::dependency::{dependency_views, Dependency, DependencyView};
use crate::text::{concat, pad_right, pad_right_spec, spaces, spaces_spec};

verus! {

/// How many dependencies were found in the cache and how many were missing.
#[derive(Clone, Copy, Debug)]
pub struct Counter {
    pub hit: usize,
    pub miss: usize,
}

impl Counter {
    /// One dependency found.
    pub fn hit() -> (res: Counter)
        ensures
            res.hit == 1,
            res.miss == 0,
    {
        Counter { hit: 1, miss: 0 }
    }

    /// One dependency missing.
    pub fn miss() -> (res: Counter)
        ensures
            res.hit == 0,
            res.miss == 1,
    {
        Counter { hit: 0, miss: 1 }
    }

    /// No dependency counted.
    pub fn zero() -> (res: Counter)
        ensures
            res.hit == 0,
            res.miss == 0,
    {
        Counter { hit: 0, miss: 0 }
    }

    /// Adds another tally to this one.
    pub fn apply(&mut self, other: Counter)
        requires
            old(self).hit + other.hit <= usize::MAX,
            old(self).miss + other.miss <= usize::MAX,
        ensures
            final(self).hit == old(self).hit + other.hit,
            final(self).miss == old(self).miss + other.miss,
    {
        self.hit = self.hit + other.hit;
        self.miss = self.miss + other.miss;
    }

    /// The tally for one dependency: a hit when it is cached, else a miss.
    pub fn of(cached: bool) -> (res: Counter)
        ensures
            cached ==> res.hit == 1 && res.miss == 0,
            !cached ==> res.hit == 0 && res.miss == 1,
    {
        if cached {
            Counter::hit()
        } else {
            Counter::miss()
        }
    }
}

/// The label of a dependency in the dependency tree: `name:version status`.
pub open spec fn termtree_label(status: Seq<char>, d: DependencyView) -> Seq<char> {
    d.name + ":"@ + d.version + " "@ + status
}

/// The label of a dependency in the dependency tree.
pub fn termtree_display(status: &str, dep: &Dependency) -> (res: String)
    ensures
        res@ == termtree_label(status@, dep@),
{
    let a = concat(dep.name.as_str(), ":");
    let b = concat(a.as_str(), dep.version.as_str());
    let c = concat(b.as_str(), " ");
    concat(c.as_str(), status)
}

/// The status shown for a dependency: `[cached]` or `[missing]`.
pub open spec fn status_spec(cached: bool) -> Seq<char> {
    if cached {
        "[cached]"@
    } else {
        "[missing]"@
    }
}

/// The status shown for a dependency, given whether it is cached.
pub fn status(cached: bool) -> (res: &'static str)
    ensures
        res@ == status_spec(cached),
{
    if cached {
        "[cached]"
    } else {
        "[missing]"
    }
}

/// A line describing a dependency at a depth of the walk: a carriage
/// return, two spaces per level, the status padded to 14 characters, and
/// `name:version`.
pub open spec fn display_spec(status: Seq<char>, d: DependencyView, depth: nat) -> Seq<char> {
    "\r"@ + spaces_spec(2 * depth) + pad_right_spec(status, 14) + d.name + ":"@ + d.version
}

/// A line describing a dependency at a depth of the walk.
pub fn display(status: &str, dep: &Dependency, depth: usize) -> (res: String)
    requires
        depth <= usize::MAX / 2,
    ensures
        res@ == display_spec(status@, dep@, depth as nat),
{
    let indent = spaces(depth * 2);
    let padded = pad_right(status, 14);
    let a = concat("\r", indent.as_str());
    let b = concat(a.as_str(), padded.as_str());
    let c = concat(b.as_str(), dep.name.as_str());
    let d = concat(c.as_str(), ":");
    concat(d.as_str(), dep.version.as_str())
}

/// Whether a dependency equal to `d` is in the list.
pub fn contains_dependency(list: &Vec<Dependency>, d: &Dependency) -> (res: bool)
    ensures
        res == dependency_views(list@).contains(d@),
{
    let mut i: usize = 0;
    while i < list.len()
        invariant
            i <= list@.len(),
            forall|k: int| 0 <= k < i ==> dependency_views(list@)[k] != d@,
        decreases list@.len() - i,
    {
        if same_dependency(&list[i], d) {
            assert(dependency_views(list@)[i as int] == d@);
            return true;
        }
        i = i + 1;
    }
    false
}

/// Whether two dependencies are equal in every field.
pub fn same_dependency(a: &Dependency, b: &Dependency) -> (res: bool)
    ensures
        res == (a@ == b@),
{
    a.name == b.name && a.version == b.version && a.kind == b.kind && a.target_dir == b.target_dir
        && a.url == b.url && a.jar == b.jar && a.sources == b.sources && a.pom == b.pom && a.module
        == b.module
}

/// The list with every dependency of `ds` not yet in it added, in order.
pub open spec fn add_unseen(traversed: Seq<DependencyView>, ds: Seq<DependencyView>) -> Seq<DependencyView>
    decreases ds.len(),
{
    if ds.len() == 0 {
        traversed
    } else {
        let t = add_unseen(traversed, ds.drop_last());
        if t.contains(ds.last()) {
            t
        } else {
            t.push(ds.last())
        }
    }
}

/// The transitive dependencies, list after list, that are not in `traversed`.
pub open spec fn unseen_transitives(
    transitives: Seq<Seq<DependencyView>>,
    traversed: Seq<DependencyView>,
) -> Seq<DependencyView>
    decreases transitives.len(),
{
    if transitives.len() == 0 {
        Seq::empty()
    } else {
        unseen_transitives(transitives.drop_last(), traversed) + transitives.last().filter(
            |d: DependencyView| !traversed.contains(d),
        )
    }
}

/// No dependency occurs twice.
pub open spec fn no_repeats(s: Seq<DependencyView>) -> bool {
    forall|i: int, j: int| 0 <= i < j < s.len() ==> s[i] != s[j]
}

/// One level of the walk through transitive dependencies:
/// the dependencies of this level not yet
/// traversed are added to `traversed`, and the next level is what their
/// transitive dependencies (`transitives[i]` those of `dependencies[i]`)
/// hold that is not traversed. The walk ends with a level that is empty.
pub fn find_dependent_deps_step(
    dependencies: &Vec<Dependency>,
    traversed: Vec<Dependency>,
    transitives: &Vec<Vec<Dependency>>,
) -> (res: (Vec<Dependency>, Vec<Dependency>))
    requires
        transitives@.len() == dependencies@.len(),
    ensures
        dependency_views(res.0@) == add_unseen(dependency_views(traversed@), dependency_views(
            dependencies@,
        )),
        dependency_views(res.1@) == unseen_transitives(
            transitives@.map_values(|v: Vec<Dependency>| dependency_views(v@)),
            dependency_views(res.0@),
        ),
{
    let mut traversed = traversed;
    let ghost start = dependency_views(traversed@);
    let ghost dv = dependency_views(dependencies@);
    let mut i: usize = 0;
    while i < dependencies.len()
        invariant
            dv == dependency_views(dependencies@),
            i <= dependencies@.len(),
            dependency_views(traversed@) == add_unseen(start, dv.take(i as int)),
        decreases dependencies@.len() - i,
    {
        proof {
            assert(dv.take(i + 1).drop_last() =~= dv.take(i as int));
            assert(dv.take(i + 1).last() == dependencies@[i as int]@);
        }
        if !contains_dependency(&traversed, &dependencies[i]) {
            let ghost before = dependency_views(traversed@);
            traversed.push(dependencies[i].duplicate());
            proof {
                assert(dependency_views(traversed@) =~= before.push(dependencies@[i as int]@));
            }
        }
        i = i + 1;
    }
    proof {
        assert(dv.take(i as int) =~= dv);
    }
    let ghost tv = transitives@.map_values(|v: Vec<Dependency>| dependency_views(v@));
    let ghost seen = dependency_views(traversed@);
    let mut next: Vec<Dependency> = Vec::new();
    let mut j: usize = 0;
    while j < transitives.len()
        invariant
            tv == transitives@.map_values(|v: Vec<Dependency>| dependency_views(v@)),
            seen == dependency_views(traversed@),
            j <= transitives@.len(),
            dependency_views(next@) == unseen_transitives(tv.take(j as int), seen),
        decreases transitives@.len() - j,
    {
        let list = &transitives[j];
        let ghost base = dependency_views(next@);
        let ghost lv = dependency_views(list@);
        let mut k: usize = 0;
        while k < list.len()
            invariant
                lv == dependency_views(list@),
                seen == dependency_views(traversed@),
                k <= list@.len(),
                dependency_views(next@) == base + lv.take(k as int).filter(
                    |d: DependencyView| !seen.contains(d),
                ),
            decreases list@.len() - k,
        {
            proof {
                assert(lv.take(k + 1).drop_last() =~= lv.take(k as int));
                assert(lv.take(k + 1).last() == list@[k as int]@);
                reveal_with_fuel(Seq::<DependencyView>::filter, 1);
            }
            if !contains_dependency(&traversed, &list[k]) {
                let ghost before = dependency_views(next@);
                next.push(list[k].duplicate());
                proof {
                    assert(dependency_views(next@) =~= before.push(list@[k as int]@));
                }
            }
            k = k + 1;
            proof {
                assert(dependency_views(next@) =~= base + lv.take(k as int).filter(
                    |d: DependencyView| !seen.contains(d),
                ));
            }
        }
        proof {
            assert(lv.take(k as int) =~= lv);
            assert(tv.take(j + 1).drop_last() =~= tv.take(j as int));
            assert(tv.take(j + 1).last() == lv);
        }
        j = j + 1;
    }
    proof {
        assert(tv.take(j as int) =~= tv);
    }
    (traversed, next)
}

/// Adding unseen dependencies keeps a list without repeats, holds what it
/// held, and holds every added dependency.
pub proof fn lemma_add_unseen(traversed: Seq<DependencyView>, ds: Seq<DependencyView>)
    requires
        no_repeats(traversed),
    ensures
        no_repeats(add_unseen(traversed, ds)),
        forall|d: DependencyView| traversed.contains(d) ==> #[trigger] add_unseen(traversed, ds).contains(d),
        forall|d: DependencyView| ds.contains(d) ==> #[trigger] add_unseen(traversed, ds).contains(d),
        forall|d: DependencyView|
            #[trigger] add_unseen(traversed, ds).contains(d) ==> traversed.contains(d) || ds.contains(d),
    decreases ds.len(),
{
    if ds.len() > 0 {
        lemma_add_unseen(traversed, ds.drop_last());
        let t = add_unseen(traversed, ds.drop_last());
        assert forall|d: DependencyView| ds.contains(d) implies #[trigger] add_unseen(traversed, ds).contains(d) by {
            let k = choose|k: int| 0 <= k < ds.len() && ds[k] == d;
            if k < ds.len() - 1 {
                assert(ds.drop_last()[k] == d);
                assert(t.contains(d));
                if !t.contains(ds.last()) {
                    let m = choose|m: int| 0 <= m < t.len() && t[m] == d;
                    assert(t.push(ds.last())[m] == d);
                }
            } else {
                if !t.contains(ds.last()) {
                    assert(t.push(ds.last())[t.len() as int] == d);
                }
            }
        }
        assert forall|d: DependencyView| traversed.contains(d) implies #[trigger] add_unseen(traversed, ds).contains(d) by {
            assert(t.contains(d));
            if !t.contains(ds.last()) {
                let m = choose|m: int| 0 <= m < t.len() && t[m] == d;
                assert(t.push(ds.last())[m] == d);
            }
        }
        assert forall|d: DependencyView| #[trigger] add_unseen(traversed, ds).contains(d) implies traversed.contains(d)
            || ds.contains(d) by {
            if t.contains(d) {
                if ds.drop_last().contains(d) {
                    let k = choose|k: int| 0 <= k < ds.drop_last().len() && ds.drop_last()[k] == d;
                    assert(ds[k] == d);
                }
            } else {
                assert(d == ds.last());
                assert(ds[ds.len() - 1] == d);
            }
        }
    }
}

} // verus!
