//! The dependency tree that the `deps` command prints: each dependency with
//! the dependencies it brings in below it, every dependency shown once, and
//! the tally of dependencies found in the cache and missing from it.
use vstd::prelude::*;

use crate::command::deps::{contains_dependency, termtree_display, termtree_label, Counter};
use crate::command::walk::{cached_of, find_node, node_views, transitives_of, DepNode, DepNodeView};
use crate::config::dependency::{dependency_views, Dependency, DependencyView};
use crate::console::{colored, Colorize};
use crate::output::{BuildkOutput, PartialConclusion};
use crate::text::{contains, contains_seq};

verus! {

/// One line of the tree: a label at a depth below the root.
#[derive(Clone, Debug)]
pub struct TreeLine {
    pub depth: usize,
    pub label: String,
}

/// The mathematical value of a line of the tree.
pub struct TreeLineView {
    pub depth: nat,
    pub label: Seq<char>,
}

impl View for TreeLine {
    type V = TreeLineView;

    open spec fn view(&self) -> TreeLineView {
        TreeLineView { depth: self.depth as nat, label: self.label@ }
    }
}

/// The views of the lines of a tree.
pub open spec fn tree_line_views(s: Seq<TreeLine>) -> Seq<TreeLineView> {
    s.map_values(|l: TreeLine| l@)
}

/// Why no tree is drawn for a dependency.
#[derive(Clone, Copy, Debug, PartialEq, Eq, Structural)]
pub enum TermtreeError {
    /// The dependency was drawn already.
    AlreadyProcessed,
    /// The dependency is a bill of materials, which is not supported yet.
    BomNotSupported,
}

/// A drawn tree: its lines (each node followed by the lines of its
/// children, in order), the dependencies drawn so far, and the tally.
#[derive(Debug)]
pub struct Termtree {
    pub lines: Vec<TreeLine>,
    pub traversed: Vec<Dependency>,
    pub counter: Counter,
}

/// The mathematical value of a drawn tree.
pub struct TermtreeView {
    pub lines: Seq<TreeLineView>,
    pub traversed: Seq<DependencyView>,
    pub hit: nat,
    pub miss: nat,
}

impl View for Termtree {
    type V = TermtreeView;

    open spec fn view(&self) -> TermtreeView {
        TermtreeView {
            lines: tree_line_views(self.lines@),
            traversed: dependency_views(self.traversed@),
            hit: self.counter.hit as nat,
            miss: self.counter.miss as nat,
        }
    }
}

/// The mark of a dependency in the tree: a green check mark when it is
/// cached, a red warning sign and a space when it is not.
pub open spec fn termtree_status_spec(cached: bool) -> Seq<char> {
    if cached {
        colored("\x1b[32m"@, "\u{f00c}"@)
    } else {
        colored("\x1b[31m"@, "\u{f071} "@)
    }
}

/// The mark of a dependency in the tree, given whether it
/// is cached.
pub fn termtree_status(cached: bool) -> (res: String)
    ensures
        res@ == termtree_status_spec(cached),
{
    if cached {
        "\u{f00c}".to_green()
    } else {
        "\u{f071} ".to_red()
    }
}

/// The label of `d` in the tree drawn from the graph `g`.
pub open spec fn dep_label(g: Seq<DepNodeView>, d: DependencyView) -> Seq<char> {
    termtree_label(termtree_status_spec(cached_of(g, d)), d)
}

/// Whether `d` is a bill of materials: its name holds `-bom`.
pub open spec fn is_bom(d: DependencyView) -> bool {
    contains_seq(d.name, "-bom"@)
}

/// The tree drawn from `d` at `depth` (`build_termtree`), given the
/// dependencies `t` drawn already: none when `d` was drawn already or is a
/// bill of materials. Otherwise `d` is added to what was drawn and counted
/// as a hit or a miss; below `limit`, each of its transitive dependencies
/// that was not drawn before is drawn in turn one level deeper, and those
/// that cannot be drawn are left out.
pub open spec fn termtree_spec(
    g: Seq<DepNodeView>,
    d: DependencyView,
    t: Seq<DependencyView>,
    depth: int,
    limit: int,
) -> Option<TermtreeView>
    decreases limit - depth, 0int, 0int,
{
    if t.contains(d) {
        None
    } else if is_bom(d) {
        None
    } else {
        let t1 = t.push(d);
        let cached = cached_of(g, d);
        let root = TermtreeView {
            lines: seq![TreeLineView { depth: depth as nat, label: dep_label(g, d) }],
            traversed: t1,
            hit: if cached { 1nat } else { 0nat },
            miss: if cached { 0nat } else { 1nat },
        };
        if depth < limit {
            let next = transitives_of(g, d).filter(|e: DependencyView| !t1.contains(e));
            Some(termtree_children(g, next, root, depth + 1, limit))
        } else {
            Some(root)
        }
    }
}

/// The trees drawn from each of `ds` at `depth`, in order, added below
/// `acc`: each starts from what the previous ones drew, and one that cannot
/// be drawn changes nothing.
pub open spec fn termtree_children(
    g: Seq<DepNodeView>,
    ds: Seq<DependencyView>,
    acc: TermtreeView,
    depth: int,
    limit: int,
) -> TermtreeView
    decreases limit - depth, 1int, ds.len() as int,
{
    if ds.len() == 0 {
        acc
    } else {
        let before = termtree_children(g, ds.drop_last(), acc, depth, limit);
        match termtree_spec(g, ds.last(), before.traversed, depth, limit) {
            Some(r) => TermtreeView {
                lines: before.lines + r.lines,
                traversed: r.traversed,
                hit: before.hit + r.hit,
                miss: before.miss + r.miss,
            },
            None => before,
        }
    }
}

/// A copy of a list of dependencies.
fn copy_dependencies(v: &Vec<Dependency>) -> (res: Vec<Dependency>)
    ensures
        dependency_views(res@) == dependency_views(v@),
{
    let mut res: Vec<Dependency> = Vec::new();
    let mut i: usize = 0;
    while i < v.len()
        invariant
            i <= v@.len(),
            dependency_views(res@) == dependency_views(v@).take(i as int),
        decreases v@.len() - i,
    {
        let ghost before = dependency_views(res@);
        res.push(v[i].duplicate());
        proof {
            assert(dependency_views(res@) =~= before.push(v@[i as int]@));
            assert(dependency_views(v@).take(i + 1) =~= dependency_views(v@).take(i as int).push(v@[i as int]@));
        }
        i = i + 1;
    }
    proof {
        assert(dependency_views(v@).take(i as int) =~= dependency_views(v@));
    }
    res
}

/// The transitive dependencies of `d` that are not in `t`, in order.
fn unseen_transitives_of(g: &Vec<DepNode>, d: &Dependency, t: &Vec<Dependency>) -> (res: Vec<Dependency>)
    ensures
        dependency_views(res@) == transitives_of(node_views(g@), d@).filter(
            |e: DependencyView| !dependency_views(t@).contains(e),
        ),
{
    let ghost gv = node_views(g@);
    let ghost tv = dependency_views(t@);
    let mut res: Vec<Dependency> = Vec::new();
    match find_node(g, d) {
        None => {
            proof {
                assert(transitives_of(gv, d@) =~= Seq::<DependencyView>::empty());
                assert(dependency_views(res@) =~= Seq::<DependencyView>::empty());
                assert(Seq::<DependencyView>::empty().filter(|e: DependencyView| !tv.contains(e))
                    =~= Seq::<DependencyView>::empty());
            }
            res
        },
        Some(i) => {
            let list = &g[i].transitives;
            let ghost lv = dependency_views(list@);
            proof {
                assert(gv[i as int] == g@[i as int]@);
            }
            let mut k: usize = 0;
            while k < list.len()
                invariant
                    tv == dependency_views(t@),
                    lv == dependency_views(list@),
                    k <= list@.len(),
                    dependency_views(res@) == lv.take(k as int).filter(|e: DependencyView| !tv.contains(e)),
                decreases list@.len() - k,
            {
                let e = &list[k];
                proof {
                    assert(lv.take(k + 1).drop_last() =~= lv.take(k as int));
                    assert(lv.take(k + 1).last() == e@);
                    reveal_with_fuel(Seq::<DependencyView>::filter, 1);
                }
                if !contains_dependency(t, e) {
                    let ghost before = dependency_views(res@);
                    res.push(e.duplicate());
                    proof {
                        assert(dependency_views(res@) =~= before.push(e@));
                    }
                }
                k = k + 1;
            }
            proof {
                assert(lv.take(k as int) =~= lv);
            }
            res
        },
    }
}

/// Whether `d` is cached according to the graph.
fn is_cached_in(g: &Vec<DepNode>, d: &Dependency) -> (res: bool)
    ensures
        res == cached_of(node_views(g@), d@),
{
    match find_node(g, d) {
        Some(j) => {
            proof {
                assert(node_views(g@)[j as int] == g@[j as int]@);
            }
            g[j].cached
        },
        None => false,
    }
}

/// The tree of `dep` and the dependencies it brings in, drawn from the graph
/// `g` at `depth` and down to `limit`, given the
/// dependencies `traversed` drawn already. What it returns is
/// `termtree_spec`; the tally counts each dependency it drew once.
pub fn build_termtree(
    g: &Vec<DepNode>,
    dep: &Dependency,
    traversed: Vec<Dependency>,
    depth: usize,
    limit: usize,
) -> (res: Result<Termtree, TermtreeError>)
    ensures
        match res {
            Ok(tree) => {
                &&& termtree_spec(node_views(g@), dep@, dependency_views(traversed@), depth as int, limit as int)
                    == Some(tree@)
                &&& tree@.hit + tree@.miss + traversed@.len() == tree@.traversed.len()
            },
            Err(e) => {
                &&& termtree_spec(node_views(g@), dep@, dependency_views(traversed@), depth as int, limit as int)
                    is None
                &&& (e == TermtreeError::AlreadyProcessed <==> dependency_views(traversed@).contains(dep@))
            },
        },
    decreases limit - depth,
{
    let ghost gv = node_views(g@);
    let ghost tv = dependency_views(traversed@);
    if contains_dependency(&traversed, dep) {
        return Err(TermtreeError::AlreadyProcessed);
    }
    proof {
        reveal_strlit("-bom");
    }
    if contains(dep.name.as_str(), "-bom") {
        return Err(TermtreeError::BomNotSupported);
    }
    let mut t1 = traversed;
    t1.push(dep.duplicate());
    proof {
        assert(dependency_views(t1@) =~= tv.push(dep@));
    }
    let cached = is_cached_in(g, dep);
    let status = termtree_status(cached);
    let label = termtree_display(status.as_str(), dep);
    let mut lines: Vec<TreeLine> = Vec::new();
    lines.push(TreeLine { depth, label });
    let counter = Counter::of(cached);
    let ghost root = TermtreeView {
        lines: seq![TreeLineView { depth: depth as nat, label: dep_label(gv, dep@) }],
        traversed: tv.push(dep@),
        hit: if cached { 1nat } else { 0nat },
        miss: if cached { 0nat } else { 1nat },
    };
    proof {
        assert(tree_line_views(lines@) =~= root.lines);
    }
    if depth >= limit {
        let tree = Termtree { lines, traversed: t1, counter };
        proof {
            assert(tree@ == root);
        }
        return Ok(tree);
    }
    let next = unseen_transitives_of(g, dep, &t1);
    let ghost nv = dependency_views(next@);
    let mut acc = Termtree { lines, traversed: t1, counter };
    proof {
        assert(acc@ == root);
        assert(termtree_children(gv, nv.take(0), root, depth + 1, limit as int) == root);
    }
    let mut i: usize = 0;
    while i < next.len()
        invariant
            gv == node_views(g@),
            tv == dependency_views(traversed@),
            nv == dependency_views(next@),
            depth < limit,
            i <= next@.len(),
            acc@ == termtree_children(gv, nv.take(i as int), root, depth + 1, limit as int),
            acc@.hit + acc@.miss + tv.len() == acc@.traversed.len(),
        decreases next@.len() - i,
    {
        proof {
            assert(nv.take(i + 1).drop_last() =~= nv.take(i as int));
            assert(nv.take(i + 1).last() == next@[i as int]@);
        }
        let trav = copy_dependencies(&acc.traversed);
        match build_termtree(g, &next[i], trav, depth + 1, limit) {
            Ok(child) => {
                let ghost before = acc@;
                let ghost cv = child@;
                let _n = child.traversed.len();
                let mut child_lines = child.lines;
                acc.lines.append(&mut child_lines);
                acc.traversed = child.traversed;
                acc.counter.apply(child.counter);
                proof {
                    assert(tree_line_views(acc.lines@) =~= before.lines + cv.lines);
                }
            },
            Err(_) => {},
        }
        i = i + 1;
    }
    proof {
        assert(nv.take(i as int) =~= nv);
    }
    Ok(acc)
}

/// The trees of each of `ds`, in order, drawn from the top with `limit`
/// (the `deps` command): each starts from what the previous ones drew. None
/// when one of them cannot be drawn, which the command does not handle.
pub open spec fn deps_forest_spec(g: Seq<DepNodeView>, ds: Seq<DependencyView>, limit: int) -> Option<
    TermtreeView,
>
    decreases ds.len(),
{
    if ds.len() == 0 {
        Some(TermtreeView { lines: Seq::empty(), traversed: Seq::empty(), hit: 0, miss: 0 })
    } else {
        match deps_forest_spec(g, ds.drop_last(), limit) {
            None => None,
            Some(acc) => match termtree_spec(g, ds.last(), acc.traversed, 0, limit) {
                None => None,
                Some(r) => Some(
                    TermtreeView {
                        lines: acc.lines + r.lines,
                        traversed: r.traversed,
                        hit: acc.hit + r.hit,
                        miss: acc.miss + r.miss,
                    },
                ),
            },
        }
    }
}

/// The depth to which the `deps` command draws: the one given, or 999.
pub open spec fn deps_limit(limit: Option<usize>) -> int {
    match limit {
        Some(l) => l as int,
        None => 999,
    }
}

/// The trees of the manifest's dependencies `deps`, drawn from the graph
/// `g` one after the other down to `limit` (999 when none is given), with
/// their lines one after the other and the tally of all of them; `None`
/// when a dependency of the manifest cannot be drawn (it was drawn already
/// below an earlier one, or is a bill of materials).
pub fn deps_forest(g: &Vec<DepNode>, deps: &Vec<Dependency>, limit: Option<usize>) -> (res: Option<Termtree>)
    ensures
        match res {
            Some(f) => deps_forest_spec(node_views(g@), dependency_views(deps@), deps_limit(limit)) == Some(f@),
            None => deps_forest_spec(node_views(g@), dependency_views(deps@), deps_limit(limit)) is None,
        },
{
    let lim: usize = match limit {
        Some(l) => l,
        None => 999,
    };
    let ghost gv = node_views(g@);
    let ghost dv = dependency_views(deps@);
    let mut acc = Termtree { lines: Vec::new(), traversed: Vec::new(), counter: Counter::zero() };
    proof {
        assert(acc@.lines =~= Seq::<TreeLineView>::empty());
        assert(acc@.traversed =~= Seq::<DependencyView>::empty());
        assert(deps_forest_spec(gv, dv.take(0), lim as int) == Some(acc@));
    }
    let mut i: usize = 0;
    while i < deps.len()
        invariant
            gv == node_views(g@),
            dv == dependency_views(deps@),
            lim as int == deps_limit(limit),
            i <= deps@.len(),
            deps_forest_spec(gv, dv.take(i as int), lim as int) == Some(acc@),
            acc@.hit + acc@.miss == acc@.traversed.len(),
        decreases deps@.len() - i,
    {
        proof {
            assert(dv.take(i + 1).drop_last() =~= dv.take(i as int));
            assert(dv.take(i + 1).last() == deps@[i as int]@);
        }
        let trav = copy_dependencies(&acc.traversed);
        match build_termtree(g, &deps[i], trav, 0, lim) {
            Ok(tree) => {
                let ghost before = acc@;
                let ghost tw = tree@;
                let _n = tree.traversed.len();
                let mut tree_lines = tree.lines;
                acc.lines.append(&mut tree_lines);
                acc.traversed = tree.traversed;
                acc.counter.apply(tree.counter);
                proof {
                    assert(tree_line_views(acc.lines@) =~= before.lines + tw.lines);
                }
            },
            Err(_) => {
                proof {
                    assert(deps_forest_spec(gv, dv.take(i + 1), lim as int) is None);
                    lemma_forest_stays_none(gv, dv, i as int + 1, lim as int);
                    assert(dv.take(dv.len() as int) =~= dv);
                }
                return None;
            },
        }
        i = i + 1;
    }
    proof {
        assert(dv.take(i as int) =~= dv);
    }
    Some(acc)
}

/// Once a dependency cannot be drawn, no longer list of them can.
proof fn lemma_forest_stays_none(g: Seq<DepNodeView>, ds: Seq<DependencyView>, k: int, limit: int)
    requires
        0 <= k <= ds.len(),
        deps_forest_spec(g, ds.take(k), limit) is None,
    ensures
        deps_forest_spec(g, ds.take(ds.len() as int), limit) is None,
    decreases ds.len() - k,
{
    if k < ds.len() {
        assert(ds.take(k + 1).drop_last() =~= ds.take(k));
        lemma_forest_stays_none(g, ds, k + 1, limit);
    }
}

/// The line after the trees: the number of dependencies found in the cache
/// and the number missing, each only when it is not zero, and nothing at all
/// when the manifest has no dependency.
pub open spec fn deps_summary_spec(n_deps: nat, hit: nat, miss: nat) -> Seq<char> {
    if n_deps == 0 {
        Seq::empty()
    } else {
        (if hit > 0 {
            "found "@ + termtree_status_spec(true) + " "@ + crate::text::decimal_spec(hit)
        } else {
            Seq::empty()
        }) + (if miss > 0 {
            " miss "@ + termtree_status_spec(false) + " "@ + crate::text::decimal_spec(miss)
        } else {
            Seq::empty()
        }) + "\n"@
    }
}

/// The line the `deps` command prints after the trees of the manifest's
/// `n_deps` dependencies.
pub fn deps_summary(n_deps: usize, counter: Counter) -> (res: String)
    ensures
        res@ == deps_summary_spec(n_deps as nat, counter.hit as nat, counter.miss as nat),
{
    if n_deps == 0 {
        return String::new();
    }
    let mut res = String::new();
    if counter.hit > 0 {
        let mark = termtree_status(true);
        let a = crate::text::concat("found ", mark.as_str());
        let b = crate::text::concat(a.as_str(), " ");
        let n = crate::text::decimal(counter.hit);
        res = crate::text::concat(b.as_str(), n.as_str());
    }
    let ghost found = res@;
    if counter.miss > 0 {
        let mark = termtree_status(false);
        let a = crate::text::concat(" miss ", mark.as_str());
        let b = crate::text::concat(a.as_str(), " ");
        let n = crate::text::decimal(counter.miss);
        let c = crate::text::concat(b.as_str(), n.as_str());
        res = crate::text::concat(res.as_str(), c.as_str());
    }
    proof {
        reveal_strlit("found ");
        reveal_strlit(" miss ");
        reveal_strlit(" ");
    }
    crate::text::concat(res.as_str(), "\n")
}

/// The outcome of the `deps` command, given how writing the classpath for
/// the language server went: named `deps` and concluded a success either
/// way; a failure to write the classpath leaves its message on standard
/// error.
pub fn deps_output(classpath: Result<(), String>) -> (res: BuildkOutput)
    ensures
        res.name@ == "deps"@,
        res.conclusion == Some(PartialConclusion::SUCCESS),
        res.status == 0,
        res.stdout is None,
        match classpath {
            Ok(()) => res.stderr is None,
            Err(e) => res.stderr == Some(e),
        },
{
    let mut output = BuildkOutput::new("deps");
    match classpath {
        Ok(()) => output.conclude(PartialConclusion::SUCCESS),
        Err(err) => {
            output.conclude(PartialConclusion::FAILED);
            output.set_stderr(err);
        },
    }
    output.conclude(PartialConclusion::SUCCESS);
    output
}

} // verus!
