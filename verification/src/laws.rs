//! Properties that hold across the library's operations: what the build
//! cache gives back, how package sets behave, how the walks through
//! dependencies grow what they traversed, and how fetching concludes.
use vstd::prelude::*;

use crate::cache::{cache_file_step, insert_step, Cache, Output};
use crate::command::dep_tree::{termtree_children, termtree_spec, TermtreeView};
use crate::command::deps::no_repeats;
use crate::command::walk::{jar_exists_of, node_of, reach, reach_all, transitives_of, walk_fuel, DepNodeView};
use crate::config::dependency::{pom_run, DependencyView, Kind};
use crate::config::manifest::{insert_keyed, keyed, KeyedView};
use crate::config::toml::TomlEntryView;
use crate::order::{lemma_lex_order_basic, lemma_lex_order_transitive, lex_order};
use crate::http::{combined, failures, fetch_conclusion, DownloadResult};
use crate::output::PartialConclusion;
use crate::package::{jar_path_of, lemma_package_order_basic, package_order, strictly_sorted, PackageView};
use crate::text::join_spec;

verus! {

// ---------------------------------------------------------------------------
// The build cache
// ---------------------------------------------------------------------------

/// After an insert, the cache holds the inserted output under its key (what
/// `contains_key` and `get` then report), and every other key is recorded
/// as it was before.
pub proof fn law_cache_get_after_insert(c0: Cache, key: u64, output: Output, c1: Cache, other: u64)
    requires
        insert_step(c0, key, output, c1),
    ensures
        c1.data.outputs@.contains_key(key),
        c1.data.outputs@[key] == output,
        other != key ==> c1.data.outputs@.contains_key(other) == c0.data.outputs@.contains_key(other),
        other != key && c0.data.outputs@.contains_key(other) ==> c1.data.outputs@[other]
            == c0.data.outputs@[other],
{
}

/// Caching the same file twice: the second time finds it cached and
/// changes nothing.
pub proof fn law_cache_file_idempotent(
    c0: Cache,
    c1: Cache,
    c2: Cache,
    key: u64,
    file: Seq<char>,
    r1: PartialConclusion,
    r2: PartialConclusion,
)
    requires
        cache_file_step(c0, key, file, c1, r1),
        cache_file_step(c1, key, file, c2, r2),
    ensures
        c1.data.outputs@.contains_key(key),
        r2 == PartialConclusion::CACHED,
        c2 == c1,
{
}

// ---------------------------------------------------------------------------
// Package sets
// ---------------------------------------------------------------------------

/// In a strictly sorted sequence, packages at different places differ.
proof fn lemma_sorted_distinct(s: Seq<PackageView>, i: int, j: int)
    requires
        strictly_sorted(s),
        0 <= i < j < s.len(),
    ensures
        s[i] != s[j],
{
    lemma_package_order_basic(s[i], s[j]);
}

/// Two strictly sorted package sequences that hold the same packages are
/// the same sequence: a package set does not depend on the order in which
/// its packages were added.
pub proof fn law_sorted_package_sets_equal(a: Seq<PackageView>, b: Seq<PackageView>)
    requires
        strictly_sorted(a),
        strictly_sorted(b),
        a.to_set() == b.to_set(),
    ensures
        a == b,
    decreases a.len(),
{
    if a.len() == 0 {
        if b.len() > 0 {
            assert(b.to_set().contains(b[0]));
            assert(!a.to_set().contains(b[0]));
        }
        assert(a =~= b);
    } else if b.len() == 0 {
        assert(a.to_set().contains(a[0]));
        assert(!b.to_set().contains(a[0]));
    } else {
        assert(a.to_set().contains(a[0]));
        assert(b.to_set().contains(b[0]));
        let i = choose|i: int| 0 <= i < a.len() && a[i] == b[0];
        let j = choose|j: int| 0 <= j < b.len() && b[j] == a[0];
        if i > 0 && j > 0 {
            assert(package_order(a[0], a[i]) < 0);
            assert(package_order(b[0], b[j]) < 0);
            lemma_package_order_basic(a[0], b[0]);
        }
        assert(a[0] == b[0]);
        let ta = a.drop_first();
        let tb = b.drop_first();
        assert forall|x: PackageView| ta.to_set().contains(x) implies tb.to_set().contains(x) by {
            let k = choose|k: int| 0 <= k < ta.len() && ta[k] == x;
            assert(a[k + 1] == x);
            lemma_sorted_distinct(a, 0, k + 1);
            assert(b.to_set().contains(x));
            let m = choose|m: int| 0 <= m < b.len() && b[m] == x;
            assert(m != 0);
            assert(tb[m - 1] == x);
        }
        assert forall|x: PackageView| tb.to_set().contains(x) implies ta.to_set().contains(x) by {
            let k = choose|k: int| 0 <= k < tb.len() && tb[k] == x;
            assert(b[k + 1] == x);
            lemma_sorted_distinct(b, 0, k + 1);
            assert(a.to_set().contains(x));
            let m = choose|m: int| 0 <= m < a.len() && a[m] == x;
            assert(m != 0);
            assert(ta[m - 1] == x);
        }
        assert(ta.to_set() =~= tb.to_set());
        law_sorted_package_sets_equal(ta, tb);
        assert(a =~= seq![a[0]] + ta);
        assert(b =~= seq![b[0]] + tb);
    }
}

/// In a strictly sorted sequence, artifacts at different places differ.
proof fn lemma_sorted_artifacts_distinct(s: Seq<crate::artifacts::DependencyView>, i: int, j: int)
    requires
        crate::artifacts::strictly_sorted(s),
        0 <= i < j < s.len(),
    ensures
        s[i] != s[j],
{
    crate::artifacts::lemma_dependency_order_basic(s[i], s[j]);
}

/// Two strictly sorted artifact sequences that hold the same artifacts are
/// the same sequence: an artifact set does not depend on the order in which
/// its artifacts were added.
pub proof fn law_sorted_artifact_sets_equal(a: Seq<crate::artifacts::DependencyView>, b: Seq<crate::artifacts::DependencyView>)
    requires
        crate::artifacts::strictly_sorted(a),
        crate::artifacts::strictly_sorted(b),
        a.to_set() == b.to_set(),
    ensures
        a == b,
    decreases a.len(),
{
    if a.len() == 0 {
        if b.len() > 0 {
            assert(b.to_set().contains(b[0]));
            assert(!a.to_set().contains(b[0]));
        }
        assert(a =~= b);
    } else if b.len() == 0 {
        assert(a.to_set().contains(a[0]));
        assert(!b.to_set().contains(a[0]));
    } else {
        assert(a.to_set().contains(a[0]));
        assert(b.to_set().contains(b[0]));
        let i = choose|i: int| 0 <= i < a.len() && a[i] == b[0];
        let j = choose|j: int| 0 <= j < b.len() && b[j] == a[0];
        if i > 0 && j > 0 {
            assert(crate::artifacts::dependency_order(a[0], a[i]) < 0);
            assert(crate::artifacts::dependency_order(b[0], b[j]) < 0);
            crate::artifacts::lemma_dependency_order_basic(a[0], b[0]);
        }
        assert(a[0] == b[0]);
        let ta = a.drop_first();
        let tb = b.drop_first();
        assert forall|x: crate::artifacts::DependencyView| ta.to_set().contains(x) implies tb.to_set().contains(x) by {
            let k = choose|k: int| 0 <= k < ta.len() && ta[k] == x;
            assert(a[k + 1] == x);
            lemma_sorted_artifacts_distinct(a, 0, k + 1);
            assert(b.to_set().contains(x));
            let m = choose|m: int| 0 <= m < b.len() && b[m] == x;
            assert(m != 0);
            assert(tb[m - 1] == x);
        }
        assert forall|x: crate::artifacts::DependencyView| tb.to_set().contains(x) implies ta.to_set().contains(x) by {
            let k = choose|k: int| 0 <= k < tb.len() && tb[k] == x;
            assert(b[k + 1] == x);
            lemma_sorted_artifacts_distinct(b, 0, k + 1);
            assert(a.to_set().contains(x));
            let m = choose|m: int| 0 <= m < a.len() && a[m] == x;
            assert(m != 0);
            assert(ta[m - 1] == x);
        }
        assert(ta.to_set() =~= tb.to_set());
        law_sorted_artifact_sets_equal(ta, tb);
        assert(a =~= seq![a[0]] + ta);
        assert(b =~= seq![b[0]] + tb);
    }
}

/// The paths of a classpath after adding `paths` to the paths `s` one at a
/// time, as `add_src` and `add_test` each add one.
pub open spec fn added_one_by_one(s: Set<Seq<char>>, paths: Seq<Seq<char>>) -> Set<Seq<char>>
    decreases paths.len(),
{
    if paths.len() == 0 {
        s
    } else {
        added_one_by_one(s, paths.drop_last()).insert(paths.last())
    }
}

/// Extending a classpath with paths (`extend_src`, `extend_test`, which add
/// `paths` as a set) holds the same paths as adding them one by one with
/// `add_src` or `add_test`.
pub proof fn law_extend_is_adding_each(s: Set<Seq<char>>, paths: Seq<Seq<char>>)
    ensures
        s + paths.to_set() == added_one_by_one(s, paths),
    decreases paths.len(),
{
    if paths.len() == 0 {
        assert(paths.to_set() =~= Set::<Seq<char>>::empty());
        assert(s + paths.to_set() =~= s);
    } else {
        law_extend_is_adding_each(s, paths.drop_last());
        paths.drop_last().lemma_push_to_set_commute(paths.last());
        assert(paths.drop_last().push(paths.last()) =~= paths);
        assert(s + paths.to_set() =~= (s + paths.drop_last().to_set()).insert(paths.last()));
    }
}

/// Joining parts that are not empty gives text that starts as the first part
/// does and ends as the last part does.
proof fn lemma_join_ends(parts: Seq<Seq<char>>, sep: Seq<char>)
    requires
        parts.len() > 0,
        forall|i: int| 0 <= i < parts.len() ==> #[trigger] parts[i].len() > 0,
    ensures
        join_spec(parts, sep).len() > 0,
        join_spec(parts, sep)[0] == parts[0][0],
        join_spec(parts, sep).last() == parts.last().last(),
    decreases parts.len(),
{
    if parts.len() > 1 {
        let init = parts.drop_last();
        assert forall|i: int| 0 <= i < init.len() implies #[trigger] init[i].len() > 0 by {
            assert(init[i] == parts[i]);
        }
        lemma_join_ends(init, sep);
        assert(init[0] == parts[0]);
        let j = join_spec(init, sep) + sep + parts.last();
        assert(join_spec(parts, sep) == j);
        assert(j[0] == join_spec(init, sep)[0]);
        assert(j.last() == parts.last()[parts.last().len() - 1]);
    }
}

/// The jar path of a package ends in `pkg.jar`, and starts with `:` only
/// where its location does.
proof fn lemma_jar_path_ends(location: Seq<char>)
    ensures
        jar_path_of(location).len() > 0,
        jar_path_of(location).last() == 'r',
        jar_path_of(location)[0] == ':' ==> location.len() > 0 && location[0] == ':',
{
    reveal_strlit("pkg.jar");
    let seg = "pkg.jar"@;
    assert(seg.len() == 7 && seg[0] == 'p' && seg[6] == 'r');
    let j = jar_path_of(location);
    if location.len() == 0 {
        assert(j == seg);
    } else if location.last() == '/' {
        assert(j == location + seg);
        assert(j[0] == location[0]);
        assert(j.last() == seg[6]);
    } else {
        assert(j == location + seq!['/'] + seg);
        assert(j[0] == location[0]);
        assert(j.last() == seg[6]);
    }
}

/// The classpath a package contributes (`Package::classpath`): empty
/// without transitive packages; otherwise it is not empty, never ends with
/// `:`, and starts with `:` only where the first package's location does.
pub proof fn law_classpath_colons(ts: Seq<PackageView>)
    ensures
        ts.len() == 0 ==> join_spec(ts.map_values(|p: PackageView| jar_path_of(p.location)), ":"@).len()
            == 0,
        ts.len() > 0 ==> join_spec(ts.map_values(|p: PackageView| jar_path_of(p.location)), ":"@).len()
            > 0 && join_spec(ts.map_values(|p: PackageView| jar_path_of(p.location)), ":"@).last()
            != ':',
        ts.len() > 0 && join_spec(ts.map_values(|p: PackageView| jar_path_of(p.location)), ":"@)[0]
            == ':' ==> ts[0].location.len() > 0 && ts[0].location[0] == ':',
{
    let parts = ts.map_values(|p: PackageView| jar_path_of(p.location));
    if ts.len() > 0 {
        assert forall|i: int| 0 <= i < parts.len() implies #[trigger] parts[i].len() > 0 by {
            lemma_jar_path_ends(ts[i].location);
        }
        lemma_join_ends(parts, ":"@);
        lemma_jar_path_ends(ts[0].location);
        lemma_jar_path_ends(ts.last().location);
        assert(parts.last() == jar_path_of(ts.last().location));
    }
}

// ---------------------------------------------------------------------------
// Walking dependencies
// ---------------------------------------------------------------------------

/// `r` starts with `t`.
pub open spec fn extends(t: Seq<DependencyView>, r: Seq<DependencyView>) -> bool {
    t.len() <= r.len() && r.take(t.len() as int) == t
}

/// Extending is transitive.
proof fn lemma_extends_transitive(a: Seq<DependencyView>, b: Seq<DependencyView>, c: Seq<DependencyView>)
    requires
        extends(a, b),
        extends(b, c),
    ensures
        extends(a, c),
{
    assert(c.take(a.len() as int) =~= c.take(b.len() as int).take(a.len() as int));
}

/// Adding a dependency that is not in a list without repeats keeps it
/// without repeats, and extends it.
proof fn lemma_push_new(t: Seq<DependencyView>, d: DependencyView)
    requires
        no_repeats(t),
        !t.contains(d),
    ensures
        no_repeats(t.push(d)),
        extends(t, t.push(d)),
        t.push(d).contains(d),
{
    let t2 = t.push(d);
    assert forall|i: int, j: int| 0 <= i < j < t2.len() implies t2[i] != t2[j] by {
        if j == t.len() {
            assert(t2[i] == t[i]);
        }
    }
    assert(t2.take(t.len() as int) =~= t);
    assert(t2[t.len() as int] == d);
}

/// The walk from `d` (`acc_transitive_unique`) only adds to what was
/// traversed, never adds a dependency twice, and, given fuel, holds `d`.
pub proof fn law_reach_extends(g: Seq<DepNodeView>, d: DependencyView, t: Seq<DependencyView>, fuel: nat)
    ensures
        extends(t, reach(g, d, t, fuel)),
        no_repeats(t) ==> no_repeats(reach(g, d, t, fuel)),
        fuel > 0 || t.contains(d) ==> reach(g, d, t, fuel).contains(d),
    decreases fuel, 0nat,
{
    assert(t.take(t.len() as int) =~= t);
    if t.contains(d) {
    } else if fuel == 0 {
    } else {
        let t2 = t.push(d);
        let next = crate::command::walk::transitives_of(g, d).filter(
            |e: DependencyView| !t2.contains(e) && crate::command::walk::jar_exists_of(g, e),
        );
        law_reach_all_extends(g, next, t2, (fuel - 1) as nat);
        assert(t2.take(t.len() as int) =~= t);
        lemma_extends_transitive(t, t2, reach(g, d, t, fuel));
        if no_repeats(t) {
            lemma_push_new(t, d);
        }
        let r = reach(g, d, t, fuel);
        assert(t2[t.len() as int] == d);
        assert(r.take(t2.len() as int)[t.len() as int] == d);
        assert(r[t.len() as int] == d);
    }
}

/// The walks from each of `ds` only add to what was traversed and never add
/// a dependency twice.
pub proof fn law_reach_all_extends(g: Seq<DepNodeView>, ds: Seq<DependencyView>, t: Seq<DependencyView>, fuel: nat)
    ensures
        extends(t, reach_all(g, ds, t, fuel)),
        no_repeats(t) ==> no_repeats(reach_all(g, ds, t, fuel)),
    decreases fuel, ds.len(),
{
    assert(t.take(t.len() as int) =~= t);
    if ds.len() > 0 {
        law_reach_all_extends(g, ds.drop_last(), t, fuel);
        let mid = reach_all(g, ds.drop_last(), t, fuel);
        law_reach_extends(g, ds.last(), mid, fuel);
        lemma_extends_transitive(t, mid, reach_all(g, ds, t, fuel));
    }
}

/// The dependencies the walk may enter: those of the graph whose jar is
/// present.
pub open spec fn walkable(g: Seq<DepNodeView>) -> Set<DependencyView> {
    Set::new(|e: DependencyView| jar_exists_of(g, e))
}

/// The dependencies the walk may still enter after traversing `t`.
pub open spec fn unvisited(g: Seq<DepNodeView>, t: Seq<DependencyView>) -> Set<DependencyView> {
    walkable(g).filter(|e: DependencyView| !t.contains(e))
}

/// The fuel the walk from `d` needs after traversing `t`: none when `d` was
/// traversed, else one level for `d` and one for each dependency it may
/// still enter, and one more when `d` itself is not one of those.
pub open spec fn fuel_needed(g: Seq<DepNodeView>, d: DependencyView, t: Seq<DependencyView>) -> int {
    if t.contains(d) {
        0
    } else if walkable(g).contains(d) {
        unvisited(g, t).len() + 1int
    } else {
        unvisited(g, t).len() + 2int
    }
}

/// The node the graph has for a dependency is about that dependency.
proof fn lemma_node_of_in(g: Seq<DepNodeView>, d: DependencyView)
    ensures
        node_of(g, d) matches Some(i) ==> 0 <= i < g.len() && g[i].dep == d,
    decreases g.len(),
{
    if g.len() > 0 {
        lemma_node_of_in(g.drop_last(), d);
    }
}

/// The dependencies the walk may enter are finitely many, at most one per
/// node of the graph.
proof fn lemma_walkable_finite(g: Seq<DepNodeView>)
    ensures
        walkable(g).finite(),
        walkable(g).len() <= g.len(),
{
    let deps = g.map_values(|n: DepNodeView| n.dep);
    assert forall|e: DependencyView| walkable(g).contains(e) implies deps.to_set().contains(e) by {
        lemma_node_of_in(g, e);
        let i = node_of(g, e)->0;
        assert(deps[i] == e);
    }
    vstd::seq_lib::seq_to_set_is_finite(deps);
    deps.lemma_cardinality_of_set();
    vstd::set_lib::lemma_len_subset(walkable(g), deps.to_set());
}

/// What the walk may still enter is finite, and shrinks as the traversed
/// dependencies grow.
proof fn lemma_unvisited_shrinks(g: Seq<DepNodeView>, t: Seq<DependencyView>, t2: Seq<DependencyView>)
    requires
        extends(t, t2),
    ensures
        unvisited(g, t).finite(),
        unvisited(g, t2).finite(),
        unvisited(g, t2).len() <= unvisited(g, t).len(),
{
    lemma_walkable_finite(g);
    walkable(g).lemma_len_filter(|e: DependencyView| !t.contains(e));
    assert forall|e: DependencyView| unvisited(g, t2).contains(e) implies unvisited(g, t).contains(e) by {
        if t.contains(e) {
            let k = choose|k: int| 0 <= k < t.len() && t[k] == e;
            assert(t2.take(t.len() as int)[k] == e);
            assert(t2[k] == e);
        }
    }
    vstd::set_lib::lemma_len_subset(unvisited(g, t2), unvisited(g, t));
}

/// Traversing `d` leaves `d` out of what the walk may still enter.
proof fn lemma_unvisited_push(g: Seq<DepNodeView>, t: Seq<DependencyView>, d: DependencyView)
    requires
        !t.contains(d),
    ensures
        unvisited(g, t.push(d)) == unvisited(g, t).remove(d),
        unvisited(g, t).finite(),
        unvisited(g, t).contains(d) <==> walkable(g).contains(d),
{
    lemma_walkable_finite(g);
    walkable(g).lemma_len_filter(|e: DependencyView| !t.contains(e));
    assert forall|e: DependencyView| unvisited(g, t.push(d)).contains(e) <==> unvisited(g, t).remove(d).contains(
        e,
    ) by {
        if t.push(d).contains(e) && e != d {
            let k = choose|k: int| 0 <= k < t.push(d).len() && t.push(d)[k] == e;
            assert(k < t.len());
            assert(t[k] == e);
        }
        if t.contains(e) {
            let k = choose|k: int| 0 <= k < t.len() && t[k] == e;
            assert(t.push(d)[k] == e);
        }
        if e == d {
            assert(t.push(d)[t.len() as int] == d);
        }
    }
    assert(unvisited(g, t.push(d)) =~= unvisited(g, t).remove(d));
}

/// With the fuel it needs, one more unit of fuel does not change the walk
/// from `d`.
proof fn lemma_reach_stable(g: Seq<DepNodeView>, d: DependencyView, t: Seq<DependencyView>, f: nat)
    requires
        f >= fuel_needed(g, d, t),
    ensures
        reach(g, d, t, f) == reach(g, d, t, f + 1),
    decreases f, 0nat,
{
    if !t.contains(d) {
        let t2 = t.push(d);
        let pred = |e: DependencyView| !t2.contains(e) && jar_exists_of(g, e);
        let next = transitives_of(g, d).filter(pred);
        lemma_unvisited_push(g, t, d);
        assert(t2.take(t2.len() as int) =~= t2);
        lemma_unvisited_shrinks(g, t2, t2);
        if walkable(g).contains(d) {
            vstd::set::axiom_set_remove_len(unvisited(g, t), d);
        } else {
            assert(unvisited(g, t).remove(d) =~= unvisited(g, t));
        }
        assert forall|i: int| 0 <= i < next.len() implies walkable(g).contains(#[trigger] next[i]) by {
            transitives_of(g, d).lemma_filter_pred(pred, i);
        }
        lemma_reach_all_stable(g, next, t2, (f - 1) as nat);
        assert(((f + 1) - 1) as nat == f);
    }
}

/// With one level of fuel for each dependency they may still enter, and one
/// more, one more unit of fuel does not change the walks from `ds`, all of
/// which the walk may enter.
proof fn lemma_reach_all_stable(g: Seq<DepNodeView>, ds: Seq<DependencyView>, t: Seq<DependencyView>, f: nat)
    requires
        forall|i: int| 0 <= i < ds.len() ==> walkable(g).contains(#[trigger] ds[i]),
        f >= unvisited(g, t).len() + 1,
    ensures
        reach_all(g, ds, t, f) == reach_all(g, ds, t, f + 1),
    decreases f, ds.len(),
{
    if ds.len() > 0 {
        assert forall|i: int| 0 <= i < ds.drop_last().len() implies walkable(g).contains(
            #[trigger] ds.drop_last()[i],
        ) by {
            assert(ds.drop_last()[i] == ds[i]);
        }
        lemma_reach_all_stable(g, ds.drop_last(), t, f);
        let mid = reach_all(g, ds.drop_last(), t, f);
        law_reach_all_extends(g, ds.drop_last(), t, f);
        lemma_unvisited_shrinks(g, t, mid);
        assert(walkable(g).contains(ds[ds.len() - 1]));
        lemma_reach_stable(g, ds.last(), mid, f);
    }
}

/// The walk from `d` (`acc_transitive_unique`) is given enough fuel: with
/// the fuel `walk_fuel` provides, or any more, it traverses the same
/// dependencies, so it never stops for want of fuel.
pub proof fn law_walk_fuel_suffices(g: Seq<DepNodeView>, d: DependencyView, t: Seq<DependencyView>, more: nat)
    ensures
        reach(g, d, t, walk_fuel(g)) == reach(g, d, t, walk_fuel(g) + more),
    decreases more,
{
    if more > 0 {
        law_walk_fuel_suffices(g, d, t, (more - 1) as nat);
        let f = (walk_fuel(g) + more - 1) as nat;
        lemma_walkable_finite(g);
        walkable(g).lemma_len_filter(|e: DependencyView| !t.contains(e));
        lemma_reach_stable(g, d, t, f);
        assert(f + 1 == walk_fuel(g) + more);
    }
}

/// The walks from each of `ds` (the classpath of the language server) are
/// given enough fuel as well.
pub proof fn law_walk_all_fuel_suffices(g: Seq<DepNodeView>, ds: Seq<DependencyView>, t: Seq<DependencyView>, more: nat)
    ensures
        reach_all(g, ds, t, walk_fuel(g)) == reach_all(g, ds, t, walk_fuel(g) + more),
    decreases more, ds.len(),
{
    if more > 0 {
        law_walk_all_fuel_suffices(g, ds, t, (more - 1) as nat);
        let f = (walk_fuel(g) + more - 1) as nat;
        lemma_reach_all_any_stable(g, ds, t, f);
        assert(f + 1 == walk_fuel(g) + more);
    }
}

/// With at least `walk_fuel`, one more unit of fuel does not change the walks
/// from any `ds`.
proof fn lemma_reach_all_any_stable(g: Seq<DepNodeView>, ds: Seq<DependencyView>, t: Seq<DependencyView>, f: nat)
    requires
        f >= walk_fuel(g),
    ensures
        reach_all(g, ds, t, f) == reach_all(g, ds, t, f + 1),
    decreases ds.len(),
{
    if ds.len() > 0 {
        lemma_reach_all_any_stable(g, ds.drop_last(), t, f);
        let mid = reach_all(g, ds.drop_last(), t, f);
        lemma_walkable_finite(g);
        walkable(g).lemma_len_filter(|e: DependencyView| !mid.contains(e));
        lemma_reach_stable(g, ds.last(), mid, f);
    }
}

/// The tree drawn from `d` (`build_termtree`) draws each dependency once:
/// what was drawn only grows, without repeats; there is one line per newly
/// drawn dependency, the root first at `depth`, every line between `depth`
/// and `limit`; and the tally counts each newly drawn dependency once.
pub proof fn law_termtree_draws_each_once(
    g: Seq<DepNodeView>,
    d: DependencyView,
    t: Seq<DependencyView>,
    depth: int,
    limit: int,
)
    requires
        no_repeats(t),
        0 <= depth <= limit,
    ensures
        termtree_spec(g, d, t, depth, limit) matches Some(r) ==> {
            &&& extends(t, r.traversed)
            &&& no_repeats(r.traversed)
            &&& r.lines.len() + t.len() == r.traversed.len()
            &&& r.hit + r.miss + t.len() == r.traversed.len()
            &&& r.lines.len() > 0 && r.lines[0].depth == depth
            &&& forall|i: int| 0 <= i < r.lines.len() ==> depth <= #[trigger] r.lines[i].depth <= limit
        },
    decreases limit - depth, 0int, 0int,
{
    if !t.contains(d) && !crate::command::dep_tree::is_bom(d) {
        let t1 = t.push(d);
        lemma_push_new(t, d);
        let cached = crate::command::walk::cached_of(g, d);
        let root = TermtreeView {
            lines: seq![
                crate::command::dep_tree::TreeLineView {
                    depth: depth as nat,
                    label: crate::command::dep_tree::dep_label(g, d),
                },
            ],
            traversed: t1,
            hit: if cached { 1nat } else { 0nat },
            miss: if cached { 0nat } else { 1nat },
        };
        if depth < limit {
            let next = crate::command::walk::transitives_of(g, d).filter(|e: DependencyView| !t1.contains(e));
            lemma_termtree_children(g, next, root, depth + 1, limit);
            let r = termtree_children(g, next, root, depth + 1, limit);
            lemma_extends_transitive(t, t1, r.traversed);
            assert(r.lines.take(1)[0] == r.lines[0]);
        }
    }
}

/// The trees drawn from each of `ds` below `acc` keep the same counts as
/// `law_termtree_draws_each_once`, and keep the lines of `acc` in front.
proof fn lemma_termtree_children(
    g: Seq<DepNodeView>,
    ds: Seq<DependencyView>,
    acc: TermtreeView,
    depth: int,
    limit: int,
)
    requires
        no_repeats(acc.traversed),
        0 < depth <= limit,
    ensures
        ({
            let r = termtree_children(g, ds, acc, depth, limit);
            &&& extends(acc.traversed, r.traversed)
            &&& no_repeats(r.traversed)
            &&& r.lines.len() - acc.lines.len() == r.traversed.len() - acc.traversed.len()
            &&& r.hit + r.miss - (acc.hit + acc.miss) == r.traversed.len() - acc.traversed.len()
            &&& acc.lines.len() <= r.lines.len()
            &&& r.lines.take(acc.lines.len() as int) == acc.lines
            &&& forall|i: int| acc.lines.len() <= i < r.lines.len() ==> depth <= #[trigger] r.lines[i].depth <= limit
        }),
    decreases limit - depth, 1int, ds.len() as int,
{
    let r = termtree_children(g, ds, acc, depth, limit);
    assert(acc.traversed.take(acc.traversed.len() as int) =~= acc.traversed);
    assert(acc.lines.take(acc.lines.len() as int) =~= acc.lines);
    if ds.len() > 0 {
        lemma_termtree_children(g, ds.drop_last(), acc, depth, limit);
        let before = termtree_children(g, ds.drop_last(), acc, depth, limit);
        law_termtree_draws_each_once(g, ds.last(), before.traversed, depth, limit);
        match termtree_spec(g, ds.last(), before.traversed, depth, limit) {
            Some(c) => {
                lemma_extends_transitive(acc.traversed, before.traversed, c.traversed);
                assert(r.lines =~= before.lines + c.lines);
                assert(r.lines.take(acc.lines.len() as int) =~= before.lines.take(acc.lines.len() as int));
                assert forall|i: int| acc.lines.len() <= i < r.lines.len() implies depth <= #[trigger] r.lines[i].depth
                    <= limit by {
                    if i < before.lines.len() {
                        assert(r.lines[i] == before.lines[i]);
                    } else {
                        assert(r.lines[i] == c.lines[i - before.lines.len()]);
                    }
                }
            },
            None => {},
        }
    }
}

/// How many of the dependencies `s` are cached in `g`.
pub open spec fn cached_count(g: Seq<DepNodeView>, s: Seq<DependencyView>) -> nat
    decreases s.len(),
{
    if s.len() == 0 {
        0
    } else {
        cached_count(g, s.drop_last()) + if crate::command::walk::cached_of(g, s.last()) {
            1nat
        } else {
            0nat
        }
    }
}

/// How many of the dependencies `s` are not cached in `g`.
pub open spec fn missing_count(g: Seq<DepNodeView>, s: Seq<DependencyView>) -> nat
    decreases s.len(),
{
    if s.len() == 0 {
        0
    } else {
        missing_count(g, s.drop_last()) + if crate::command::walk::cached_of(g, s.last()) {
            0nat
        } else {
            1nat
        }
    }
}

/// Counting over two parts adds the counts.
proof fn lemma_counts_add(g: Seq<DepNodeView>, a: Seq<DependencyView>, b: Seq<DependencyView>)
    ensures
        cached_count(g, a + b) == cached_count(g, a) + cached_count(g, b),
        missing_count(g, a + b) == missing_count(g, a) + missing_count(g, b),
    decreases b.len(),
{
    if b.len() == 0 {
        assert(a + b =~= a);
    } else {
        lemma_counts_add(g, a, b.drop_last());
        assert((a + b).drop_last() =~= a + b.drop_last());
        assert((a + b).last() == b.last());
    }
}

/// What a walk added after `t`, when it extends `t`.
proof fn lemma_added_split(t: Seq<DependencyView>, m: Seq<DependencyView>, r: Seq<DependencyView>)
    requires
        extends(t, m),
        extends(m, r),
    ensures
        r.skip(t.len() as int) == m.skip(t.len() as int) + r.skip(m.len() as int),
{
    assert forall|k: int| 0 <= k < m.len() implies r[k] == m[k] by {
        assert(r.take(m.len() as int)[k] == r[k]);
    }
    assert(r.skip(t.len() as int) =~= m.skip(t.len() as int) + r.skip(m.len() as int));
}

/// The tally of the tree drawn from `d` (`build_termtree`, and the counter
/// `deps` prints): its hits are the newly drawn dependencies that are
/// cached, its misses those that are not.
pub proof fn law_termtree_tally(
    g: Seq<DepNodeView>,
    d: DependencyView,
    t: Seq<DependencyView>,
    depth: int,
    limit: int,
)
    requires
        no_repeats(t),
        0 <= depth <= limit,
    ensures
        termtree_spec(g, d, t, depth, limit) matches Some(r) ==> r.hit == cached_count(
            g,
            r.traversed.skip(t.len() as int),
        ) && r.miss == missing_count(g, r.traversed.skip(t.len() as int)),
    decreases limit - depth, 0int, 0int,
{
    if !t.contains(d) && !crate::command::dep_tree::is_bom(d) {
        let t1 = t.push(d);
        lemma_push_new(t, d);
        let cached = crate::command::walk::cached_of(g, d);
        let root = TermtreeView {
            lines: seq![
                crate::command::dep_tree::TreeLineView {
                    depth: depth as nat,
                    label: crate::command::dep_tree::dep_label(g, d),
                },
            ],
            traversed: t1,
            hit: if cached { 1nat } else { 0nat },
            miss: if cached { 0nat } else { 1nat },
        };
        assert(t1.skip(t.len() as int) =~= seq![d]);
        assert(seq![d].drop_last() =~= Seq::<DependencyView>::empty());
        assert(seq![d].last() == d);
        assert(cached_count(g, Seq::<DependencyView>::empty()) == 0);
        assert(missing_count(g, Seq::<DependencyView>::empty()) == 0);
        assert(cached_count(g, seq![d]) == root.hit);
        assert(missing_count(g, seq![d]) == root.miss);
        let r = termtree_spec(g, d, t, depth, limit)->0;
        if depth < limit {
            let next = crate::command::walk::transitives_of(g, d).filter(|e: DependencyView| !t1.contains(e));
            lemma_termtree_children(g, next, root, depth + 1, limit);
            lemma_termtree_children_tally(g, next, root, depth + 1, limit);
            assert(r == termtree_children(g, next, root, depth + 1, limit));
            lemma_added_split(t, t1, r.traversed);
            lemma_counts_add(g, seq![d], r.traversed.skip(t1.len() as int));
        } else {
            assert(r == root);
        }
    }
}

/// The trees drawn from each of `ds` below `acc` add to its tally the
/// cached and the not cached dependencies they newly draw.
proof fn lemma_termtree_children_tally(
    g: Seq<DepNodeView>,
    ds: Seq<DependencyView>,
    acc: TermtreeView,
    depth: int,
    limit: int,
)
    requires
        no_repeats(acc.traversed),
        0 < depth <= limit,
    ensures
        ({
            let r = termtree_children(g, ds, acc, depth, limit);
            &&& r.hit == acc.hit + cached_count(g, r.traversed.skip(acc.traversed.len() as int))
            &&& r.miss == acc.miss + missing_count(g, r.traversed.skip(acc.traversed.len() as int))
        }),
    decreases limit - depth, 1int, ds.len() as int,
{
    let r = termtree_children(g, ds, acc, depth, limit);
    if ds.len() == 0 {
        assert(r.traversed.skip(acc.traversed.len() as int) =~= Seq::<DependencyView>::empty());
    } else {
        lemma_termtree_children(g, ds.drop_last(), acc, depth, limit);
        lemma_termtree_children_tally(g, ds.drop_last(), acc, depth, limit);
        let before = termtree_children(g, ds.drop_last(), acc, depth, limit);
        law_termtree_draws_each_once(g, ds.last(), before.traversed, depth, limit);
        law_termtree_tally(g, ds.last(), before.traversed, depth, limit);
        match termtree_spec(g, ds.last(), before.traversed, depth, limit) {
            Some(c) => {
                lemma_added_split(acc.traversed, before.traversed, c.traversed);
                lemma_counts_add(
                    g,
                    before.traversed.skip(acc.traversed.len() as int),
                    c.traversed.skip(before.traversed.len() as int),
                );
            },
            None => {},
        }
    }
}

/// Each dependency of `r` from position `base` on is one of `roots`, or has
/// its jar present and is a transitive dependency of one at a position from
/// `base` on before it.
pub open spec fn grown_from(
    g: Seq<DepNodeView>,
    base: int,
    r: Seq<DependencyView>,
    roots: Seq<DependencyView>,
) -> bool {
    forall|k: int|
        base <= k < r.len() ==> roots.contains(#[trigger] r[k]) || (jar_exists_of(g, r[k]) && exists|
            j: int,
        |
            base <= j < k && transitives_of(g, #[trigger] r[j]).contains(r[k]))
}

/// The walk from `d` adds `d` and then only dependencies that grow from it.
proof fn lemma_reach_grows(g: Seq<DepNodeView>, d: DependencyView, t: Seq<DependencyView>, fuel: nat)
    ensures
        grown_from(g, t.len() as int, reach(g, d, t, fuel), seq![d]),
    decreases fuel, 0nat,
{
    if !t.contains(d) && fuel > 0 {
        let t2 = t.push(d);
        let next = transitives_of(g, d).filter(|e: DependencyView| !t2.contains(e) && jar_exists_of(g, e));
        let r = reach(g, d, t, fuel);
        lemma_reach_all_grows(g, next, t2, (fuel - 1) as nat);
        law_reach_all_extends(g, next, t2, (fuel - 1) as nat);
        assert(r == reach_all(g, next, t2, (fuel - 1) as nat));
        assert(r.take(t2.len() as int)[t.len() as int] == d);
        assert(r[t.len() as int] == d);
        assert forall|k: int| t.len() <= k < r.len() implies seq![d].contains(#[trigger] r[k]) || (
        jar_exists_of(g, r[k]) && exists|j: int|
            t.len() <= j < k && transitives_of(g, #[trigger] r[j]).contains(r[k])) by {
            if k == t.len() {
                assert(seq![d][0] == r[k]);
            } else {
                assert(t2.len() <= k);
                if next.contains(r[k]) {
                    let i = choose|i: int| 0 <= i < next.len() && next[i] == r[k];
                    transitives_of(g, d).lemma_filter_pred(
                        |e: DependencyView| !t2.contains(e) && jar_exists_of(g, e),
                        i,
                    );
                    transitives_of(g, d).lemma_filter_contains_rev(
                        |e: DependencyView| !t2.contains(e) && jar_exists_of(g, e),
                        r[k],
                    );
                    let j = t.len() as int;
                    assert(transitives_of(g, r[j]).contains(r[k]));
                } else {
                    let j = choose|j: int| t2.len() <= j < k && transitives_of(g, #[trigger] r[j]).contains(r[k]);
                    assert(t.len() <= j < k);
                }
            }
        }
    }
}

/// The walks from each of `ds` add only dependencies that grow from them.
proof fn lemma_reach_all_grows(g: Seq<DepNodeView>, ds: Seq<DependencyView>, t: Seq<DependencyView>, fuel: nat)
    ensures
        grown_from(g, t.len() as int, reach_all(g, ds, t, fuel), ds),
    decreases fuel, ds.len(),
{
    if ds.len() > 0 {
        let mid = reach_all(g, ds.drop_last(), t, fuel);
        let r = reach_all(g, ds, t, fuel);
        lemma_reach_all_grows(g, ds.drop_last(), t, fuel);
        lemma_reach_grows(g, ds.last(), mid, fuel);
        law_reach_all_extends(g, ds.drop_last(), t, fuel);
        law_reach_extends(g, ds.last(), mid, fuel);
        assert(r == reach(g, ds.last(), mid, fuel));
        assert forall|k: int| t.len() <= k < r.len() implies ds.contains(#[trigger] r[k]) || (
        jar_exists_of(g, r[k]) && exists|j: int|
            t.len() <= j < k && transitives_of(g, #[trigger] r[j]).contains(r[k])) by {
            if k < mid.len() {
                assert(r[k] == r.take(mid.len() as int)[k]);
                assert(r[k] == mid[k]);
                if ds.drop_last().contains(mid[k]) {
                    let i = choose|i: int| 0 <= i < ds.drop_last().len() && ds.drop_last()[i] == mid[k];
                    assert(ds[i] == r[k]);
                } else {
                    let j = choose|j: int| t.len() <= j < k && transitives_of(g, #[trigger] mid[j]).contains(mid[k]);
                    assert(r[j] == r.take(mid.len() as int)[j]);
                    assert(r[j] == mid[j]);
                }
            } else {
                if seq![ds.last()].contains(r[k]) {
                    assert(seq![ds.last()][0] == r[k]);
                    assert(ds[ds.len() - 1] == r[k]);
                } else {
                    let j = choose|j: int| mid.len() <= j < k && transitives_of(g, #[trigger] r[j]).contains(r[k]);
                    assert(t.len() <= j < k);
                }
            }
        }
    }
}

/// The walk from `d` over what was traversed, `t`, without repeats
/// (`acc_transitive_unique`): when `d` was traversed nothing is added;
/// otherwise `d` comes right after `t`, and every dependency added after it
/// has its jar present and is a transitive dependency of one added before
/// it. Nothing is added twice, and walking again from `d` over the result
/// adds nothing.
pub proof fn law_walk_from(g: Seq<DepNodeView>, d: DependencyView, t: Seq<DependencyView>)
    requires
        no_repeats(t),
    ensures
        t.contains(d) ==> reach(g, d, t, walk_fuel(g)) == t,
        !t.contains(d) ==> reach(g, d, t, walk_fuel(g)).take(t.len() + 1int) == t.push(d),
        forall|k: int|
            t.len() < k < reach(g, d, t, walk_fuel(g)).len() ==> jar_exists_of(
                g,
                #[trigger] reach(g, d, t, walk_fuel(g))[k],
            ) && exists|j: int|
                t.len() <= j < k && transitives_of(g, reach(g, d, t, walk_fuel(g))[j]).contains(
                    reach(g, d, t, walk_fuel(g))[k],
                ),
        no_repeats(reach(g, d, t, walk_fuel(g))),
        reach(g, d, reach(g, d, t, walk_fuel(g)), walk_fuel(g)) == reach(g, d, t, walk_fuel(g)),
{
    let f = walk_fuel(g);
    let r = reach(g, d, t, f);
    law_reach_extends(g, d, t, f);
    lemma_reach_grows(g, d, t, f);
    if !t.contains(d) {
        assert(r.len() > t.len() && r[t.len() as int] == d) by {
            assert(r.contains(d));
            let i = choose|i: int| 0 <= i < r.len() && r[i] == d;
            if i < t.len() {
                assert(r.take(t.len() as int)[i] == d);
                assert(t.contains(d));
            }
            assert(i >= t.len());
            // `d` is the first thing the walk adds
            let t2 = t.push(d);
            let next = transitives_of(g, d).filter(|e: DependencyView| !t2.contains(e) && jar_exists_of(g, e));
            law_reach_all_extends(g, next, t2, (f - 1) as nat);
            assert(r.take(t2.len() as int)[t.len() as int] == d);
        }
        assert(r.take(t.len() + 1int) =~= t.push(d)) by {
            assert(r.take(t.len() + 1int).len() == t.push(d).len());
            assert forall|k: int| 0 <= k < t.len() + 1int implies r.take(t.len() + 1int)[k] == t.push(d)[k] by {
                if k < t.len() {
                    assert(r.take(t.len() as int)[k] == t[k]);
                }
            }
        }
    }
    assert forall|k: int| t.len() < k < r.len() implies jar_exists_of(g, #[trigger] r[k]) && exists|j: int|
        t.len() <= j < k && transitives_of(g, r[j]).contains(r[k]) by {
        if seq![d].contains(r[k]) {
            assert(seq![d][0] == r[k]);
            if t.contains(d) {
                assert(r == t);
            } else {
                assert(r[t.len() as int] == d);
                assert(no_repeats(r));
                assert(r[t.len() as int] != r[k]);
            }
        }
    }
    assert(r.contains(d));
}

// ---------------------------------------------------------------------------
// Fetching
// ---------------------------------------------------------------------------

/// A failure is recorded exactly when some outcome failed.
proof fn lemma_failures_nonempty(results: Seq<DownloadResult>)
    ensures
        failures(results).len() > 0 <==> exists|i: int| 0 <= i < results.len() && results[i] is Failed,
    decreases results.len(),
{
    if results.len() > 0 {
        lemma_failures_nonempty(results.drop_last());
        if exists|i: int| 0 <= i < results.drop_last().len() && results.drop_last()[i] is Failed {
            let i = choose|i: int| 0 <= i < results.drop_last().len() && results.drop_last()[i] is Failed;
            assert(results[i] is Failed);
        }
        if exists|i: int| 0 <= i < results.len() && results[i] is Failed {
            let i = choose|i: int| 0 <= i < results.len() && results[i] is Failed;
            if i < results.len() - 1 {
                assert(results.drop_last()[i] is Failed);
            }
        }
    }
}

/// Fetching fails exactly when some download failed, and then every failure
/// is reported; it succeeds when something was downloaded and nothing
/// failed; otherwise everything was cached.
pub proof fn law_fetch_fails_iff_a_download_failed(results: Seq<DownloadResult>)
    ensures
        fetch_conclusion(results) == PartialConclusion::FAILED <==> failures(results).len() > 0,
        fetch_conclusion(results) == PartialConclusion::CACHED <==> forall|i: int|
            0 <= i < results.len() ==> #[trigger] results[i] is Exist,
{
    lemma_failures_nonempty(results);
    if fetch_conclusion(results) == PartialConclusion::CACHED {
        assert forall|i: int| 0 <= i < results.len() implies #[trigger] results[i] is Exist by {
            assert(!(results[i] is Failed));
            assert(!(results[i] is Downloaded));
        }
    }
    if forall|i: int| 0 <= i < results.len() ==> #[trigger] results[i] is Exist {
        if exists|i: int| 0 <= i < results.len() && results[i] is Failed {
            let i = choose|i: int| 0 <= i < results.len() && results[i] is Failed;
            assert(results[i] is Exist);
        }
        if exists|i: int| 0 <= i < results.len() && results[i] is Downloaded {
            let i = choose|i: int| 0 <= i < results.len() && results[i] is Downloaded;
            assert(results[i] is Exist);
        }
    }
}

/// A repository serves a package (no further repository is tried) exactly
/// when the combined outcome of its jar and descriptor is no failure.
pub proof fn law_served_iff_not_failed(jar: DownloadResult, pom: DownloadResult)
    ensures
        (!(jar is Failed) && !(pom is Failed)) <==> !(combined(jar, pom) is Failed),
{
}

// ---------------------------------------------------------------------------
// Reading manifests and descriptors
// ---------------------------------------------------------------------------

/// What an `import` line imports from: the text after `import `, up to its
/// last dot.
pub open spec fn import_target(l: Seq<char>) -> Seq<char> {
    crate::text::replace_after_last_spec(crate::text::replace_spec(l, "import "@, Seq::empty()), "."@)
}

/// Reading a header (`HeaderKt::parse`): every `import` line adds what it
/// imports, in order, whether or not a `package` line came before it, and
/// leaves the package as it was; a header made only of `import` lines gives
/// exactly their imports.
pub proof fn law_header_keeps_every_import(
    ls: Seq<Seq<char>>,
    package: Seq<char>,
    imports: Seq<Seq<char>>,
)
    requires
        forall|i: int| 0 <= i < ls.len() ==> crate::text::is_prefix_of("import "@, #[trigger] ls[i]),
    ensures
        crate::command::header::scan_header(ls, package, imports) == (
            package,
            imports + ls.map_values(|l: Seq<char>| import_target(l)),
        ),
    decreases ls.len(),
{
    reveal_strlit("import ");
    reveal_strlit("package ");
    if ls.len() == 0 {
        assert(imports + ls.map_values(|l: Seq<char>| import_target(l)) =~= imports);
    } else {
        let l = ls[0];
        assert(crate::text::is_prefix_of("import "@, l));
        assert(l.take(7)[0] == 'i');
        assert(!crate::text::is_prefix_of("package "@, l)) by {
            if crate::text::is_prefix_of("package "@, l) {
                assert(l.take(8)[0] == 'p');
                assert(l[0] == 'p');
                assert(l[0] == 'i');
            }
        }
        let rest = ls.skip(1);
        assert forall|i: int| 0 <= i < rest.len() implies crate::text::is_prefix_of("import "@, #[trigger] rest[i]) by {
            assert(rest[i] == ls[i + 1]);
        }
        let imports2 = imports.push(crate::command::header::imported_package(l));
        law_header_keeps_every_import(rest, package, imports2);
        assert(imports2 + rest.map_values(|x: Seq<char>| import_target(x)) =~= imports + ls.map_values(
            |x: Seq<char>| import_target(x),
        ));
    }
}

/// A line of the configuration: the label padded to 26 characters, then the
/// value.
pub open spec fn config_line(label: Seq<char>, value: Seq<char>) -> Seq<char> {
    crate::text::pad_right_spec(label, 26) + value + "\n"@
}

/// Text that holds `b` between `a` and `c` holds `b`.
proof fn lemma_contains_middle(a: Seq<char>, b: Seq<char>, c: Seq<char>)
    ensures
        crate::text::contains_seq(a + b + c, b),
{
    assert((a + b + c).subrange(a.len() as int, a.len() + b.len() as int) =~= b);
    assert(crate::text::occurs_at(a + b + c, b, a.len() as int));
}

/// The project as the `config` command shows it (`Project::display`): each
/// line shows, after its label, the setting that label names: the project's
/// directory, its sources, its tests, its main file with the class it
/// compiles to, and each output location.
pub proof fn law_project_display_shows_each_setting(p: crate::config::project::Project)
    ensures
        ({
            let text = crate::config::manifest::project_display_spec(p);
            &&& crate::text::contains_seq(text, config_line("project.path"@, p.path@))
            &&& crate::text::contains_seq(text, config_line("project.src"@, p.src@))
            &&& crate::text::contains_seq(text, config_line("project.test"@, p.test@))
            &&& crate::text::contains_seq(
                text,
                config_line(
                    "project.main"@,
                    p.main@ + " ("@ + crate::text::replace_spec(p.main@, ".kt"@, "Kt"@) + ")"@,
                ),
            )
            &&& crate::text::contains_seq(text, config_line("project.out.path"@, p.out.path@))
            &&& crate::text::contains_seq(text, config_line("project.out.cache"@, p.out.cache@))
            &&& crate::text::contains_seq(text, config_line("project.out.src"@, p.out.src@))
            &&& crate::text::contains_seq(text, config_line("project.out.test"@, p.out.test@))
            &&& crate::text::contains_seq(text, config_line("project.out.test-report"@, p.out.test_report@))
            &&& crate::text::contains_seq(text, config_line("project.out.jar"@, p.out.jar@))
        }),
{
    let l0 = config_line("project.path"@, p.path@);
    let l1 = config_line("project.src"@, p.src@);
    let l2 = config_line("project.test"@, p.test@);
    let l3 = config_line(
        "project.main"@,
        p.main@ + " ("@ + crate::text::replace_spec(p.main@, ".kt"@, "Kt"@) + ")"@,
    );
    let o = p.out;
    let o0 = config_line("project.out.path"@, o.path@);
    let o1 = config_line("project.out.cache"@, o.cache@);
    let o2 = config_line("project.out.src"@, o.src@);
    let o3 = config_line("project.out.test"@, o.test@);
    let o4 = config_line("project.out.test-report"@, o.test_report@);
    let o5 = config_line("project.out.jar"@, o.jar@);
    let text = crate::config::manifest::project_display_spec(p);
    assert(text =~= l0 + l1 + l2 + l3 + o0 + o1 + o2 + o3 + o4 + o5);
    let s1 = Seq::<Seq<char>>::empty().push(l0);
    assert(s1.drop_last() =~= Seq::<Seq<char>>::empty());
    assert(joined_lines(Seq::<Seq<char>>::empty()) == Seq::<char>::empty());
    assert(s1.last() == l0);
    assert(joined_lines(s1) =~= l0);
    let s2 = s1.push(l1);
    assert(s2.drop_last() == s1);
    assert(s2.last() == l1);
    assert(joined_lines(s2) == joined_lines(s1) + l1);
    let s3 = s2.push(l2);
    assert(s3.drop_last() == s2);
    assert(s3.last() == l2);
    assert(joined_lines(s3) == joined_lines(s2) + l2);
    let s4 = s3.push(l3);
    assert(s4.drop_last() == s3);
    assert(s4.last() == l3);
    assert(joined_lines(s4) == joined_lines(s3) + l3);
    let s5 = s4.push(o0);
    assert(s5.drop_last() == s4);
    assert(s5.last() == o0);
    assert(joined_lines(s5) == joined_lines(s4) + o0);
    let s6 = s5.push(o1);
    assert(s6.drop_last() == s5);
    assert(s6.last() == o1);
    assert(joined_lines(s6) == joined_lines(s5) + o1);
    let s7 = s6.push(o2);
    assert(s7.drop_last() == s6);
    assert(s7.last() == o2);
    assert(joined_lines(s7) == joined_lines(s6) + o2);
    let s8 = s7.push(o3);
    assert(s8.drop_last() == s7);
    assert(s8.last() == o3);
    assert(joined_lines(s8) == joined_lines(s7) + o3);
    let s9 = s8.push(o4);
    assert(s9.drop_last() == s8);
    assert(s9.last() == o4);
    assert(joined_lines(s9) == joined_lines(s8) + o4);
    let ls = s9.push(o5);
    assert(ls.drop_last() == s9);
    assert(ls.last() == o5);
    assert(joined_lines(ls) == joined_lines(s9) + o5);
    assert(joined_lines(ls) == text);
    lemma_joined_lines_hold_each(ls);
    assert(ls[0] == l0 && ls[1] == l1 && ls[2] == l2 && ls[3] == l3 && ls[4] == o0);
    assert(ls[5] == o1 && ls[6] == o2 && ls[7] == o3 && ls[8] == o4 && ls[9] == o5);
}

/// The lines one after the other.
pub open spec fn joined_lines(ls: Seq<Seq<char>>) -> Seq<char>
    decreases ls.len(),
{
    if ls.len() == 0 {
        Seq::empty()
    } else {
        joined_lines(ls.drop_last()) + ls.last()
    }
}

/// The lines one after the other hold each of the lines.
proof fn lemma_joined_lines_hold_each(ls: Seq<Seq<char>>)
    ensures
        forall|i: int| 0 <= i < ls.len() ==> crate::text::contains_seq(joined_lines(ls), #[trigger] ls[i]),
    decreases ls.len(),
{
    if ls.len() > 0 {
        let init = ls.drop_last();
        lemma_joined_lines_hold_each(init);
        let whole = joined_lines(ls);
        let prefix = joined_lines(init);
        assert forall|i: int| 0 <= i < ls.len() implies crate::text::contains_seq(whole, #[trigger] ls[i]) by {
            if i < init.len() {
                assert(init[i] == ls[i]);
                let k = choose|k: int| crate::text::occurs_at(prefix, ls[i], k);
                assert(whole.subrange(k, k + ls[i].len()) =~= prefix.subrange(k, k + ls[i].len()));
                assert(crate::text::occurs_at(whole, ls[i], k));
            } else {
                lemma_contains_middle(prefix, ls.last(), Seq::empty());
                assert(prefix + ls.last() + Seq::<char>::empty() =~= whole);
            }
        }
    }
}

/// The version one Gradle constraint names: a single version, or the last of
/// a non-empty list.
pub open spec fn gradle_named_version(k: Option<crate::gradle::VersionKind>) -> Option<Seq<char>> {
    match k {
        Some(crate::gradle::VersionKind::Single(v)) => Some(v@),
        Some(crate::gradle::VersionKind::Array(vs)) => if vs@.len() > 0 {
            Some(vs@[vs@.len() - 1]@)
        } else {
            None
        },
        None => None,
    }
}

/// The version a Gradle dependency resolves to: the first of `requires`,
/// `prefers` and `strictly` that names one.
pub open spec fn gradle_resolved_version(v: crate::gradle::Version) -> Option<Seq<char>> {
    if gradle_named_version(v.requires) is Some {
        gradle_named_version(v.requires)
    } else if gradle_named_version(v.prefers) is Some {
        gradle_named_version(v.prefers)
    } else {
        gradle_named_version(v.strictly)
    }
}

/// The package a Gradle dependency `d` resolving to `v` is, fetched into
/// `cache`; Gradle dependencies are for compilation.
pub open spec fn gradle_package(d: crate::gradle::Dep, v: Seq<char>, cache: Seq<char>) -> PackageView {
    maven_package(d.group@, d.module@, v, crate::package::PackageKind::Compile, cache)
}

/// Every dependency of a list that names a version gives its package, and
/// the list gives packages exactly when each of them names one.
proof fn lemma_deps_packages_hold_each(ds: Seq<crate::gradle::Dep>, cache: Seq<char>)
    ensures
        crate::gradle::deps_packages(ds, cache) is Some <==> forall|j: int|
            0 <= j < ds.len() ==> gradle_resolved_version(#[trigger] ds[j].version) is Some,
        crate::gradle::deps_packages(ds, cache) matches Some(ps) ==> ps.len() == ds.len() && forall|j: int|
            0 <= j < ds.len() ==> ps.contains(
                gradle_package(#[trigger] ds[j], gradle_resolved_version(ds[j].version)->0, cache),
            ),
    decreases ds.len(),
{
    if ds.len() > 0 {
        let init = ds.drop_last();
        lemma_deps_packages_hold_each(init, cache);
        let last = ds.last();
        assert(crate::gradle::dep_version(last.version) == gradle_resolved_version(last.version));
        if crate::gradle::deps_packages(ds, cache) is Some {
            assert forall|j: int| 0 <= j < ds.len() implies gradle_resolved_version(#[trigger] ds[j].version) is Some by {
                if j < init.len() {
                    assert(init[j] == ds[j]);
                }
            }
        }
        if forall|j: int| 0 <= j < ds.len() ==> gradle_resolved_version(#[trigger] ds[j].version) is Some {
            assert forall|j: int| 0 <= j < init.len() implies gradle_resolved_version(#[trigger] init[j].version) is Some by {
                assert(init[j] == ds[j]);
            }
            assert(gradle_resolved_version(ds[ds.len() - 1].version) is Some);
        }
        match crate::gradle::deps_packages(ds, cache) {
            Some(ps) => {
                let prefix = crate::gradle::deps_packages(init, cache)->0;
                let v = crate::gradle::dep_version(last.version)->0;
                assert(ps == prefix.push(crate::gradle::dep_view(last, v, cache)));
                assert forall|j: int| 0 <= j < ds.len() implies ps.contains(
                    gradle_package(#[trigger] ds[j], gradle_resolved_version(ds[j].version)->0, cache),
                ) by {
                    if j < init.len() {
                        assert(init[j] == ds[j]);
                        let x = gradle_package(ds[j], gradle_resolved_version(ds[j].version)->0, cache);
                        let k = choose|k: int| 0 <= k < prefix.len() && prefix[k] == x;
                        assert(ps[k] == x);
                    } else {
                        assert(ps[prefix.len() as int] == gradle_package(ds[j], gradle_resolved_version(ds[j].version)->0, cache));
                    }
                }
            },
            None => {},
        }
    }
}

/// The dependencies a variant declares (none when it declares no list).
pub open spec fn variant_deps(v: crate::gradle::Variant) -> Seq<crate::gradle::Dep> {
    match v.dependencies {
        Some(ds) => ds@,
        None => Seq::empty(),
    }
}

/// Every dependency of every variant that names a version gives its package,
/// and the variants give packages exactly when each dependency names one.
proof fn lemma_variants_packages_hold_each(vs: Seq<crate::gradle::Variant>, cache: Seq<char>)
    ensures
        crate::gradle::variants_packages(vs, cache) is Some <==> forall|i: int, j: int|
            0 <= i < vs.len() && 0 <= j < variant_deps(vs[i]).len() ==> gradle_resolved_version(
                #[trigger] variant_deps(vs[i])[j].version,
            ) is Some,
        crate::gradle::variants_packages(vs, cache) matches Some(ps) ==> forall|i: int, j: int|
            0 <= i < vs.len() && 0 <= j < variant_deps(vs[i]).len() ==> ps.contains(
                gradle_package(
                    #[trigger] variant_deps(vs[i])[j],
                    gradle_resolved_version(variant_deps(vs[i])[j].version)->0,
                    cache,
                ),
            ),
    decreases vs.len(),
{
    if vs.len() > 0 {
        let init = vs.drop_last();
        lemma_variants_packages_hold_each(init, cache);
        let lastv = vs.last();
        let lds = variant_deps(lastv);
        lemma_deps_packages_hold_each(lds, cache);
        let last_pkgs = match lastv.dependencies {
            Some(ds) => crate::gradle::deps_packages(ds@, cache),
            None => Some(Seq::empty()),
        };
        assert(last_pkgs == crate::gradle::deps_packages(lds, cache));
        if crate::gradle::variants_packages(vs, cache) is Some {
            let ps = crate::gradle::variants_packages(vs, cache)->0;
            let a = crate::gradle::variants_packages(init, cache)->0;
            let b = last_pkgs->0;
            assert(ps == a + b);
            assert forall|i: int, j: int|
                0 <= i < vs.len() && 0 <= j < variant_deps(vs[i]).len() implies gradle_resolved_version(
                    #[trigger] variant_deps(vs[i])[j].version,
                ) is Some && ps.contains(
                    gradle_package(
                        variant_deps(vs[i])[j],
                        gradle_resolved_version(variant_deps(vs[i])[j].version)->0,
                        cache,
                    ),
                ) by {
                let x = gradle_package(
                    variant_deps(vs[i])[j],
                    gradle_resolved_version(variant_deps(vs[i])[j].version)->0,
                    cache,
                );
                if i < init.len() {
                    assert(init[i] == vs[i]);
                    assert(variant_deps(init[i])[j] == variant_deps(vs[i])[j]);
                    let k = choose|k: int| 0 <= k < a.len() && a[k] == x;
                    assert(ps[k] == x);
                } else {
                    assert(vs[i] == lastv);
                    assert(lds[j] == variant_deps(vs[i])[j]);
                    let k = choose|k: int| 0 <= k < b.len() && b[k] == x;
                    assert(ps[a.len() + k] == x);
                }
            }
        }
        if forall|i: int, j: int|
            0 <= i < vs.len() && 0 <= j < variant_deps(vs[i]).len() ==> gradle_resolved_version(
                #[trigger] variant_deps(vs[i])[j].version,
            ) is Some {
            assert forall|i: int, j: int|
                0 <= i < init.len() && 0 <= j < variant_deps(init[i]).len() implies gradle_resolved_version(
                    #[trigger] variant_deps(init[i])[j].version,
                ) is Some by {
                assert(init[i] == vs[i]);
                assert(variant_deps(vs[i])[j] == variant_deps(init[i])[j]);
            }
            assert forall|j: int| 0 <= j < lds.len() implies gradle_resolved_version(#[trigger] lds[j].version) is Some by {
                assert(vs[vs.len() - 1] == lastv);
                assert(variant_deps(vs[vs.len() - 1])[j] == lds[j]);
            }
        }
    }
}

/// A Gradle module descriptor's packages (`GradleParser::parse`,
/// `descriptor_packages`): the component's own package, and the package of
/// every dependency of every variant, whatever its place in the variant's
/// list, with the version the first of `requires`, `prefers` and `strictly`
/// names; the descriptor gives packages exactly when every dependency names
/// a version.
pub proof fn law_gradle_names_every_dependency(d: crate::gradle::Descriptor, cache: Seq<char>)
    ensures
        crate::gradle::named_packages(d, cache) is Some <==> forall|i: int, j: int|
            0 <= i < d.variants@.len() && 0 <= j < variant_deps(d.variants@[i]).len() ==> gradle_resolved_version(
                #[trigger] variant_deps(d.variants@[i])[j].version,
            ) is Some,
        crate::gradle::named_packages(d, cache) matches Some(named) ==> {
            &&& (d.component matches Some(c) ==> named.contains(
                maven_package(c.group@, c.module@, c.version@, crate::package::PackageKind::Compile, cache),
            ))
            &&& forall|i: int, j: int|
                0 <= i < d.variants@.len() && 0 <= j < variant_deps(d.variants@[i]).len() ==> named.contains(
                    gradle_package(
                        #[trigger] variant_deps(d.variants@[i])[j],
                        gradle_resolved_version(variant_deps(d.variants@[i])[j].version)->0,
                        cache,
                    ),
                )
        },
{
    lemma_variants_packages_hold_each(d.variants@, cache);
    match crate::gradle::named_packages(d, cache) {
        Some(named) => {
            let own: Seq<PackageView> = match d.component {
                Some(c) => seq![crate::gradle::component_view(c, cache)],
                None => Seq::empty(),
            };
            let ps = crate::gradle::variants_packages(d.variants@, cache)->0;
            assert(named == own + ps);
            match d.component {
                Some(c) => {
                    assert(named[0] == crate::gradle::component_view(c, cache));
                },
                None => {},
            }
            assert forall|i: int, j: int|
                0 <= i < d.variants@.len() && 0 <= j < variant_deps(d.variants@[i]).len() implies named.contains(
                    gradle_package(
                        #[trigger] variant_deps(d.variants@[i])[j],
                        gradle_resolved_version(variant_deps(d.variants@[i])[j].version)->0,
                        cache,
                    ),
                ) by {
                let x = gradle_package(
                    variant_deps(d.variants@[i])[j],
                    gradle_resolved_version(variant_deps(d.variants@[i])[j].version)->0,
                    cache,
                );
                let k = choose|k: int| 0 <= k < ps.len() && ps[k] == x;
                assert(named[own.len() + k] == x);
            }
        },
        None => {},
    }
}

/// The version a Maven artifact declaring `v` ends up with: a `${name}`
/// reference to a declared property is replaced by that property's value
/// (the last declaration of the name wins); any other version stands.
pub open spec fn maven_resolved_version(props: Seq<(Seq<char>, Seq<char>)>, v: Seq<char>) -> Seq<char> {
    if crate::text::contains_seq(v, "${"@) {
        match crate::maven::lookup_spec(props, crate::maven::property_reference(v)) {
            Some(x) => x,
            None => v,
        }
    } else {
        v
    }
}

/// The package a Maven artifact with group `g`, id `a` and version `v` is
/// once fetched into `cache`, of kind `kind`.
pub open spec fn maven_package(g: Seq<char>, a: Seq<char>, v: Seq<char>, kind: crate::package::PackageKind, cache: Seq<char>) -> PackageView {
    PackageView {
        name: a,
        namespace: Some(g),
        version: v,
        kind,
        location: crate::package::package_location(cache, a, Some(g), v),
    }
}

/// Every artifact of `arts` with a version and a scope of kind `kind` gives
/// its package, with its version resolved against `props`.
proof fn lemma_selected_holds_each(
    arts: Seq<crate::maven::ArtifactView>,
    props: Seq<(Seq<char>, Seq<char>)>,
    kind: crate::package::PackageKind,
    cache: Seq<char>,
)
    ensures
        forall|i: int|
            0 <= i < arts.len() && #[trigger] arts[i].version is Some && crate::maven::scope_kind(arts[i].scope)
                == kind ==> crate::maven::selected(arts, props, kind, cache).contains(
                maven_package(arts[i].group, arts[i].artifact, maven_resolved_version(props, arts[i].version->0), kind, cache),
            ),
    decreases arts.len(),
{
    if arts.len() > 0 {
        let init = arts.drop_last();
        lemma_selected_holds_each(init, props, kind, cache);
        let prefix = crate::maven::selected(init, props, kind, cache);
        let whole = crate::maven::selected(arts, props, kind, cache);
        assert forall|i: int|
            0 <= i < arts.len() && #[trigger] arts[i].version is Some && crate::maven::scope_kind(arts[i].scope)
                == kind implies whole.contains(
                maven_package(arts[i].group, arts[i].artifact, maven_resolved_version(props, arts[i].version->0), kind, cache),
            ) by {
            let p = maven_package(arts[i].group, arts[i].artifact, maven_resolved_version(props, arts[i].version->0), kind, cache);
            if i < init.len() {
                assert(init[i] == arts[i]);
                let k = choose|k: int| 0 <= k < prefix.len() && prefix[k] == p;
                let a = crate::maven::interpolate_spec(arts.last(), props);
                if a.version is Some && crate::maven::scope_kind(a.scope) == kind {
                    assert(whole == prefix.push(crate::maven::artifact_package(a, cache)));
                    assert(whole[k] == p);
                } else {
                    assert(whole == prefix);
                }
            } else {
                let a = crate::maven::interpolate_spec(arts.last(), props);
                assert(arts[i] == arts.last());
                assert(a.scope == arts[i].scope);
                assert(a.version is Some);
                assert(crate::maven::artifact_package(a, cache) == p);
                assert(whole == prefix.push(p));
                assert(whole[prefix.len() as int] == p);
            }
        }
    }
}

/// A POM's packages (`MavenParser::parse`, `parse_pom`): every artifact
/// under `<dependencies>` and every artifact under `<dependencyManagement>`
/// that has a version and a scope of the kind asked for gives its package,
/// and a `${name}` version is replaced by the value of the property `name`
/// declared under `<properties>` in both parts alike.
pub proof fn law_pom_interpolates_all_artifacts(
    doc: Seq<crate::xml::XmlNodeView>,
    kind: crate::package::PackageKind,
    cache: Seq<char>,
    p: int,
    props: Seq<(Seq<char>, Seq<char>)>,
    deps: Seq<crate::maven::ArtifactView>,
    managed: Seq<crate::maven::ArtifactView>,
)
    requires
        doc.len() > 0,
        crate::xml::child_element(doc, doc[0].id, "project"@) == Some(p),
        crate::maven::props_of(doc, doc[p].id) == Some(props),
        crate::maven::deps_of(doc, doc[p].id) == Some(deps),
        crate::maven::managed_of(doc, doc[p].id) == Some(managed),
    ensures
        crate::maven::pom_packages(doc, kind, cache) is Some,
        forall|i: int|
            0 <= i < deps.len() && #[trigger] deps[i].version is Some && crate::maven::scope_kind(deps[i].scope)
                == kind ==> crate::maven::pom_packages(doc, kind, cache)->0.contains(
                maven_package(deps[i].group, deps[i].artifact, maven_resolved_version(props, deps[i].version->0), kind, cache),
            ),
        forall|i: int|
            0 <= i < managed.len() && #[trigger] managed[i].version is Some && crate::maven::scope_kind(
                managed[i].scope,
            ) == kind ==> crate::maven::pom_packages(doc, kind, cache)->0.contains(
                maven_package(managed[i].group, managed[i].artifact, maven_resolved_version(props, managed[i].version->0), kind, cache),
            ),
{
    lemma_selected_holds_each(deps, props, kind, cache);
    lemma_selected_holds_each(managed, props, kind, cache);
    let a = crate::maven::selected(deps, props, kind, cache);
    let b = crate::maven::selected(managed, props, kind, cache);
    assert(crate::maven::pom_packages(doc, kind, cache) == Some(a + b));
    assert forall|x: PackageView| a.contains(x) implies (a + b).contains(x) by {
        let k = choose|k: int| 0 <= k < a.len() && a[k] == x;
        assert((a + b)[k] == x);
    }
    assert forall|x: PackageView| b.contains(x) implies (a + b).contains(x) by {
        let k = choose|k: int| 0 <= k < b.len() && b[k] == x;
        assert((a + b)[a.len() + k] == x);
    }
}


/// The dependencies a POM names (`transitives`) are all of the kind asked
/// for: a test dependency brings in test dependencies.
pub proof fn law_transitives_keep_kind(events: Seq<crate::config::dependency::PomEventView>, kind: Kind, cache: Seq<char>)
    ensures
        forall|i: int|
            0 <= i < pom_run(events, kind, cache).deps.len() ==> #[trigger] pom_run(events, kind, cache).deps[i].kind
                == kind,
    decreases events.len(),
{
    if events.len() > 0 {
        law_transitives_keep_kind(events.drop_last(), kind, cache);
    }
}

/// The names of keyed values, in order.
pub open spec fn key_names(m: Seq<KeyedView>) -> Seq<Seq<char>> {
    m.map_values(|p: KeyedView| p.0)
}

/// The names are in strictly increasing order, so none repeats.
pub open spec fn keys_sorted(m: Seq<KeyedView>) -> bool {
    forall|i: int, j: int| 0 <= i < j < m.len() ==> lex_order(m[i].0, m[j].0) < 0
}

/// Putting a value under a name keeps the names sorted, adds the name, and
/// keeps every other name with its value.
proof fn lemma_insert_keyed_sorted(m: Seq<KeyedView>, k: Seq<char>, v: Option<Seq<char>>)
    requires
        keys_sorted(m),
    ensures
        keys_sorted(insert_keyed(m, k, v)),
        forall|x: Seq<char>| #![trigger key_names(insert_keyed(m, k, v)).contains(x)]
            key_names(insert_keyed(m, k, v)).contains(x) <==> (x == k || key_names(m).contains(x)),
    decreases m.len(),
{
    let r = insert_keyed(m, k, v);
    if m.len() == 0 {
        assert(key_names(r) =~= seq![k]);
        assert forall|x: Seq<char>| key_names(r).contains(x) <==> (x == k || key_names(m).contains(x)) by {
            if x == k {
                assert(key_names(r)[0] == k);
            }
        }
    } else if m[0].0 == k {
        assert(key_names(r) =~= key_names(m));
        assert forall|i: int, j: int| 0 <= i < j < r.len() implies lex_order(r[i].0, r[j].0) < 0 by {
            assert(r[i].0 == m[i].0);
            assert(r[j].0 == m[j].0);
        }
        assert(key_names(m)[0] == k);
        assert forall|x: Seq<char>| key_names(r).contains(x) <==> (x == k || key_names(m).contains(x)) by {
            if x == k {
                assert(key_names(r)[0] == k);
            }
        }
    } else if lex_order(k, m[0].0) < 0 {
        assert(r =~= seq![(k, v)] + m);
        assert forall|i: int, j: int| 0 <= i < j < r.len() implies lex_order(r[i].0, r[j].0) < 0 by {
            if i == 0 {
                if j > 1 {
                    lemma_lex_order_transitive(k, m[0].0, m[j - 1].0);
                }
            }
        }
        assert(key_names(r) =~= seq![k] + key_names(m));
        assert forall|x: Seq<char>| key_names(r).contains(x) <==> (x == k || key_names(m).contains(x)) by {
            if x == k {
                assert(key_names(r)[0] == k);
            } else if key_names(m).contains(x) {
                let q = choose|q: int| 0 <= q < key_names(m).len() && key_names(m)[q] == x;
                assert(key_names(r)[q + 1] == x);
            }
            if key_names(r).contains(x) && x != k {
                let q = choose|q: int| 0 <= q < key_names(r).len() && key_names(r)[q] == x;
                assert(q > 0);
                assert(key_names(m)[q - 1] == x);
            }
        }
    } else {
        let rest = m.skip(1);
        assert forall|i: int, j: int| 0 <= i < j < rest.len() implies lex_order(rest[i].0, rest[j].0) < 0 by {
            assert(rest[i] == m[i + 1]);
            assert(rest[j] == m[j + 1]);
        }
        lemma_insert_keyed_sorted(rest, k, v);
        let tail = insert_keyed(rest, k, v);
        assert(r =~= seq![m[0]] + tail);
        lemma_lex_order_basic(k, m[0].0);
        assert forall|i: int, j: int| 0 <= i < j < r.len() implies lex_order(r[i].0, r[j].0) < 0 by {
            if i == 0 {
                let x = tail[j - 1].0;
                assert(key_names(tail)[j - 1] == x);
                assert(key_names(tail).contains(x));
                if x == k {
                } else {
                    let q = choose|q: int| 0 <= q < key_names(rest).len() && key_names(rest)[q] == x;
                    assert(rest[q] == m[q + 1]);
                    assert(lex_order(m[0].0, m[q + 1].0) < 0);
                }
            } else {
                assert(r[i] == tail[i - 1]);
                assert(r[j] == tail[j - 1]);
            }
        }
        assert(key_names(r) =~= seq![m[0].0] + key_names(tail));
        assert(key_names(m) =~= seq![m[0].0] + key_names(rest));
        assert forall|x: Seq<char>| key_names(r).contains(x) <==> (x == k || key_names(m).contains(
            x,
        )) by {
            if key_names(r).contains(x) {
                let q = choose|q: int| 0 <= q < key_names(r).len() && key_names(r)[q] == x;
                if q > 0 {
                    assert(key_names(tail)[q - 1] == x);
                    assert(key_names(tail).contains(x));
                    if x != k {
                        let q2 = choose|q2: int| 0 <= q2 < key_names(rest).len() && key_names(rest)[q2]
                            == x;
                        assert(key_names(m)[q2 + 1] == x);
                    }
                } else {
                    assert(key_names(m)[0] == x);
                }
            }
            if x == k {
                assert(key_names(tail).contains(k));
                let q = choose|q: int| 0 <= q < key_names(tail).len() && key_names(tail)[q] == k;
                assert(key_names(r)[q + 1] == k);
            } else if key_names(m).contains(x) {
                let q = choose|q: int| 0 <= q < key_names(m).len() && key_names(m)[q] == x;
                if q == 0 {
                    assert(key_names(r)[0] == x);
                } else {
                    assert(key_names(rest)[q - 1] == x);
                    assert(key_names(rest).contains(x));
                    assert(key_names(tail).contains(x));
                    let q2 = choose|q2: int| 0 <= q2 < key_names(tail).len() && key_names(tail)[q2] == x;
                    assert(key_names(r)[q2 + 1] == x);
                }
            }
        }
    }
}

/// The values of a dependency table come out under their dotted names in
/// strictly increasing order of the names, each name once, and every name of
/// the table is there.
pub proof fn law_keyed_sorted_unique(es: Seq<TomlEntryView>)
    ensures
        keys_sorted(keyed(es)),
        forall|x: Seq<char>| #![trigger key_names(keyed(es)).contains(x)]
            key_names(keyed(es)).contains(x) <==> exists|i: int|
                0 <= i < es.len() && x == crate::text::join_spec(#[trigger] es[i].keys, "."@),
    decreases es.len(),
{
    if es.len() > 0 {
        law_keyed_sorted_unique(es.drop_last());
        let k = crate::text::join_spec(es.last().keys, "."@);
        lemma_insert_keyed_sorted(keyed(es.drop_last()), k, es.last().value);
        assert forall|x: Seq<char>| #![trigger key_names(keyed(es)).contains(x)]
            key_names(keyed(es)).contains(x) <==> exists|i: int|
                0 <= i < es.len() && x == crate::text::join_spec(#[trigger] es[i].keys, "."@) by {
            if key_names(keyed(es)).contains(x) && x != k {
                let i = choose|i: int| 0 <= i < es.drop_last().len() && x == crate::text::join_spec(
                    #[trigger] es.drop_last()[i].keys,
                    "."@,
                );
                assert(es[i] == es.drop_last()[i]);
            }
            if x == k {
                assert(es[es.len() - 1] == es.last());
            }
            if exists|i: int| 0 <= i < es.len() && x == crate::text::join_spec(#[trigger] es[i].keys, "."@) {
                let i = choose|i: int| 0 <= i < es.len() && x == crate::text::join_spec(#[trigger] es[i].keys, "."@);
                if i < es.len() - 1 {
                    assert(es.drop_last()[i] == es[i]);
                }
            }
        }
    }
}

} // verus!
