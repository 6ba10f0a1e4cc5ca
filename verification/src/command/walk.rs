//! Walking the graph of dependencies depth first: the dependency tree with
//! its tally of cached dependencies, and every dependency reachable through
//! dependencies whose jar is present.
use vstd::prelude::*;

use crate::command::deps::{contains_dependency, no_repeats, termtree_display, termtree_label, Counter};
use crate::config::dependency::{dependency_views, Dependency, DependencyView};
use crate::console::{colored, Colorize};
use crate::text::{contains, contains_seq, join, join_spec, views};

verus! {

/// What is known of one dependency: its transitive dependencies, whether its
/// jar is present, and whether it is cached.
#[derive(Clone, Debug)]
pub struct DepNode {
    pub dep: Dependency,
    pub transitives: Vec<Dependency>,
    pub jar_exists: bool,
    pub cached: bool,
}

/// The mathematical value of a node.
pub struct DepNodeView {
    pub dep: DependencyView,
    pub transitives: Seq<DependencyView>,
    pub jar_exists: bool,
    pub cached: bool,
}

impl View for DepNode {
    type V = DepNodeView;

    open spec fn view(&self) -> DepNodeView {
        DepNodeView {
            dep: self.dep@,
            transitives: dependency_views(self.transitives@),
            jar_exists: self.jar_exists,
            cached: self.cached,
        }
    }
}

/// The views of the nodes of a graph.
pub open spec fn node_views(v: Seq<DepNode>) -> Seq<DepNodeView> {
    v.map_values(|n: DepNode| n@)
}

/// The index of the first node about `d`.
pub open spec fn node_of(g: Seq<DepNodeView>, d: DependencyView) -> Option<int>
    decreases g.len(),
{
    if g.len() == 0 {
        None
    } else if g.last().dep == d && node_of(g.drop_last(), d) is None {
        Some(g.len() - 1)
    } else {
        node_of(g.drop_last(), d)
    }
}

/// The transitive dependencies of `d` (none when the graph knows nothing of it).
pub open spec fn transitives_of(g: Seq<DepNodeView>, d: DependencyView) -> Seq<DependencyView> {
    match node_of(g, d) {
        Some(i) => g[i].transitives,
        None => Seq::empty(),
    }
}

/// Whether the jar of `d` is present (not when the graph knows nothing of it).
pub open spec fn jar_exists_of(g: Seq<DepNodeView>, d: DependencyView) -> bool {
    match node_of(g, d) {
        Some(i) => g[i].jar_exists,
        None => false,
    }
}

/// Whether `d` is cached (not when the graph knows nothing of it).
pub open spec fn cached_of(g: Seq<DepNodeView>, d: DependencyView) -> bool {
    match node_of(g, d) {
        Some(i) => g[i].cached,
        None => false,
    }
}

/// The first node about `d`.
pub fn find_node(g: &Vec<DepNode>, d: &Dependency) -> (res: Option<usize>)
    ensures
        match res {
            Some(i) => node_of(node_views(g@), d@) == Some(i as int) && i < g@.len(),
            None => node_of(node_views(g@), d@) is None,
        },
{
    let ghost gv = node_views(g@);
    let mut i: usize = 0;
    while i < g.len()
        invariant
            gv == node_views(g@),
            i <= g@.len(),
            node_of(gv.take(i as int), d@) is None,
        decreases g@.len() - i,
    {
        proof {
            assert(gv.take(i + 1).drop_last() =~= gv.take(i as int));
            assert(gv.take(i + 1).last() == g@[i as int]@);
        }
        if crate::command::deps::same_dependency(&g[i].dep, d) {
            proof {
                lemma_node_of_prefix(gv, d@, i as int + 1);
            }
            return Some(i);
        }
        i = i + 1;
    }
    proof {
        assert(gv.take(i as int) =~= gv);
    }
    None
}

/// The first node about `d` within a prefix is the first in the whole graph.
proof fn lemma_node_of_prefix(g: Seq<DepNodeView>, d: DependencyView, k: int)
    requires
        0 <= k <= g.len(),
        node_of(g.take(k), d) is Some,
    ensures
        node_of(g, d) == node_of(g.take(k), d),
    decreases g.len() - k,
{
    if k < g.len() {
        assert(g.take(k + 1).drop_last() =~= g.take(k));
        lemma_node_of_prefix(g, d, k + 1);
    } else {
        assert(g.take(k) =~= g);
    }
}

// ---------------------------------------------------------------------------
// Every dependency reachable through dependencies whose jar is present
// ---------------------------------------------------------------------------

/// The walk from `d` (`acc_transitive_unique`): when `d` was traversed
/// already nothing changes; otherwise `d` is added, and the walk goes on
/// from each of its transitive dependencies that was not traversed before
/// and whose jar is present, in order. Each level of nesting spends one unit
/// of `fuel`; without fuel the walk stops.
pub open spec fn reach(g: Seq<DepNodeView>, d: DependencyView, t: Seq<DependencyView>, fuel: nat) -> Seq<
    DependencyView,
>
    decreases fuel, 0nat,
{
    if t.contains(d) {
        t
    } else if fuel == 0 {
        t
    } else {
        let t2 = t.push(d);
        let next = transitives_of(g, d).filter(
            |e: DependencyView| !t2.contains(e) && jar_exists_of(g, e),
        );
        reach_all(g, next, t2, (fuel - 1) as nat)
    }
}

/// The walks from each of `ds`, in order, each starting from what the
/// previous ones traversed.
pub open spec fn reach_all(g: Seq<DepNodeView>, ds: Seq<DependencyView>, t: Seq<DependencyView>, fuel: nat) -> Seq<
    DependencyView,
>
    decreases fuel, ds.len(),
{
    if ds.len() == 0 {
        t
    } else {
        reach(g, ds.last(), reach_all(g, ds.drop_last(), t, fuel), fuel)
    }
}

/// The nesting the walk may reach in `g`: one level per node, and two more.
pub open spec fn walk_fuel(g: Seq<DepNodeView>) -> nat {
    (g.len() + 2) as nat
}

/// The transitive dependencies of `d` that are not in `t` and whose jar is
/// present, in order.
fn next_to_visit(g: &Vec<DepNode>, d: &Dependency, t: &Vec<Dependency>) -> (res: Vec<Dependency>)
    ensures
        dependency_views(res@) == transitives_of(node_views(g@), d@).filter(
            |e: DependencyView| !dependency_views(t@).contains(e) && jar_exists_of(node_views(g@), e),
        ),
{
    let ghost gv = node_views(g@);
    let ghost tv = dependency_views(t@);
    let mut res: Vec<Dependency> = Vec::new();
    match find_node(g, d) {
        None => {
            proof {
                assert(transitives_of(gv, d@) =~= Seq::<DependencyView>::empty());
                assert(dependency_views(res@) =~= Seq::<DependencyView>::empty());
                assert(Seq::<DependencyView>::empty().filter(
                    |e: DependencyView| !tv.contains(e) && jar_exists_of(gv, e),
                ) =~= Seq::<DependencyView>::empty());
            }
            res
        },
        Some(i) => {
            let list = &g[i].transitives;
            let ghost lv = dependency_views(list@);
            proof {
                assert(gv[i as int] == g@[i as int]@);
            }
            let mut k: usize = 0;
            while k < list.len()
                invariant
                    gv == node_views(g@),
                    tv == dependency_views(t@),
                    lv == dependency_views(list@),
                    k <= list@.len(),
                    dependency_views(res@) == lv.take(k as int).filter(
                        |e: DependencyView| !tv.contains(e) && jar_exists_of(gv, e),
                    ),
                decreases list@.len() - k,
            {
                let e = &list[k];
                proof {
                    assert(lv.take(k + 1).drop_last() =~= lv.take(k as int));
                    assert(lv.take(k + 1).last() == e@);
                    reveal_with_fuel(Seq::<DependencyView>::filter, 1);
                }
                let present = match find_node(g, e) {
                    Some(j) => {
                        proof {
                            assert(gv[j as int] == g@[j as int]@);
                        }
                        g[j].jar_exists
                    },
                    None => false,
                };
                if !contains_dependency(t, e) && present {
                    let ghost before = dependency_views(res@);
                    res.push(e.duplicate());
                    proof {
                        assert(dependency_views(res@) =~= before.push(e@));
                    }
                }
                k = k + 1;
            }
            proof {
                assert(lv.take(k as int) =~= lv);
            }
            res
        },
    }
}

/// The walk from `d` with the given fuel.
fn reach_exec(g: &Vec<DepNode>, d: &Dependency, t: Vec<Dependency>, fuel: usize) -> (res: Vec<Dependency>)
    ensures
        dependency_views(res@) == reach(node_views(g@), d@, dependency_views(t@), fuel as nat),
    decreases fuel, 0nat,
{
    if contains_dependency(&t, d) {
        return t;
    }
    if fuel == 0 {
        return t;
    }
    let mut t2 = t;
    let ghost before = dependency_views(t2@);
    t2.push(d.duplicate());
    proof {
        assert(dependency_views(t2@) =~= before.push(d@));
    }
    let next = next_to_visit(g, d, &t2);
    reach_all_exec(g, &next, t2, fuel - 1)
}

/// The walks from each of `ds`, in order, with the given fuel.
fn reach_all_exec(g: &Vec<DepNode>, ds: &Vec<Dependency>, t: Vec<Dependency>, fuel: usize) -> (res: Vec<
    Dependency,
>)
    ensures
        dependency_views(res@) == reach_all(node_views(g@), dependency_views(ds@), dependency_views(t@), fuel as nat),
    decreases fuel, ds@.len(),
{
    let ghost dv = dependency_views(ds@);
    let mut acc = t;
    let ghost start = dependency_views(acc@);
    let mut i: usize = 0;
    while i < ds.len()
        invariant
            dv == dependency_views(ds@),
            i <= ds@.len(),
            dependency_views(acc@) == reach_all(node_views(g@), dv.take(i as int), start, fuel as nat),
        decreases ds@.len() - i,
    {
        proof {
            assert(dv.take(i + 1).drop_last() =~= dv.take(i as int));
            assert(dv.take(i + 1).last() == ds@[i as int]@);
        }
        acc = reach_exec(g, &ds[i], acc, fuel);
        i = i + 1;
    }
    proof {
        assert(dv.take(i as int) =~= dv);
    }
    acc
}

/// Every dependency reachable from `dep` through dependencies whose jar is
/// present, added to `traversed` in the order a depth-first walk meets them.
/// The walk is given one level of nesting per node
/// of the graph, and two more, which is all it can use (see
/// `law_walk_fuel_suffices`).
pub fn acc_transitive_unique(g: &Vec<DepNode>, dep: &Dependency, traversed: Vec<Dependency>) -> (res: Vec<
    Dependency,
>)
    requires
        g@.len() < usize::MAX - 1,
    ensures
        dependency_views(res@) == reach(node_views(g@), dep@, dependency_views(traversed@), walk_fuel(node_views(g@))),
{
    reach_exec(g, dep, traversed, g.len() + 2)
}

/// The paths of the jars of `ds`, in order.
pub open spec fn jar_paths(ds: Seq<DependencyView>) -> Seq<Seq<char>> {
    ds.map_values(|d: DependencyView| crate::text::path_join_spec(d.target_dir, d.jar))
}

/// The jars of every dependency reachable from the manifest's dependencies,
/// walking from each in turn, joined with `:` (the classpath handed to the
/// Kotlin language server).
pub fn language_server_classpath(g: &Vec<DepNode>, deps: &Vec<Dependency>) -> (res: String)
    requires
        g@.len() < usize::MAX - 1,
    ensures
        res@ == join_spec(
            jar_paths(reach_all(node_views(g@), dependency_views(deps@), Seq::empty(), walk_fuel(node_views(g@)))),
            ":"@,
        ),
{
    let empty: Vec<Dependency> = Vec::new();
    proof {
        assert(dependency_views(empty@) =~= Seq::<DependencyView>::empty());
    }
    let all = reach_all_exec(g, deps, empty, g.len() + 2);
    let mut jars: Vec<String> = Vec::new();
    let mut i: usize = 0;
    while i < all.len()
        invariant
            i <= all@.len(),
            views(jars@) == dependency_views(all@).take(i as int).map_values(
                |d: DependencyView| crate::text::path_join_spec(d.target_dir, d.jar),
            ),
        decreases all@.len() - i,
    {
        let jar = all[i].jar_path();
        let ghost before = views(jars@);
        jars.push(jar);
        i = i + 1;
        proof {
            assert(views(jars@) =~= before.push(jar@));
            assert(dependency_views(all@).take(i as int) =~= dependency_views(all@).take(i - 1).push(all@[i - 1]@));
            assert(dependency_views(all@).take(i as int).map_values(
                |d: DependencyView| crate::text::path_join_spec(d.target_dir, d.jar),
            ) =~= dependency_views(all@).take(i - 1).map_values(
                |d: DependencyView| crate::text::path_join_spec(d.target_dir, d.jar),
            ).push(jar@));
        }
    }
    proof {
        assert(dependency_views(all@).take(i as int) =~= dependency_views(all@));
    }
    join(&jars, ":")
}

} // verus!
