//! The build tree: the project's Kotlin files ordered so that every file
//! comes after the files whose package it imports.
use vstd::prelude::*;

use crate::command::header::HeaderKt;
use crate::config::dependency::last_segment;
use crate::output::{BuildkOutput, PartialConclusion};
use crate::text::{chars_of, concat, owned, string_of_range, views};

verus! {

/// The edges of the import graph of `hs`, in the order the graph library
/// connects vertices: for each `i`, then each `j`, an edge from `i` to `j`
/// when file `j` imports the package of file `i` (itself included).
pub open spec fn import_edges_spec(hs: Seq<HeaderKt>) -> Seq<(usize, usize)> {
    edges_upto(hs, hs.len() as int)
}

/// The edges from the first `i` vertices.
pub open spec fn edges_upto(hs: Seq<HeaderKt>, i: int) -> Seq<(usize, usize)>
    decreases i,
{
    if i <= 0 {
        Seq::empty()
    } else {
        edges_upto(hs, i - 1) + edges_from(hs, i - 1, hs.len() as int)
    }
}

/// The edges from vertex `i` to the first `j` vertices.
pub open spec fn edges_from(hs: Seq<HeaderKt>, i: int, j: int) -> Seq<(usize, usize)>
    decreases j,
{
    if j <= 0 {
        Seq::empty()
    } else if views(hs[j - 1].imports@).contains(hs[i].package@) {
        edges_from(hs, i, j - 1).push((i as usize, (j - 1) as usize))
    } else {
        edges_from(hs, i, j - 1)
    }
}

/// `order` lists the vertices `0..n` once each, and every edge goes from an
/// earlier vertex to a later one.
pub open spec fn is_topological_order(n: nat, edges: Seq<(usize, usize)>, order: Seq<usize>) -> bool {
    &&& order.len() == n
    &&& forall|v: usize| v < n ==> #[trigger] order.contains(v)
    &&& forall|a: int| 0 <= a < order.len() ==> #[trigger] order[a] < n
    &&& forall|a: int, b: int| 0 <= a < b < order.len() ==> order[a] != order[b]
    &&& forall|k: int, a: int, b: int|
        #![trigger edges[k], order[a], order[b]]
        0 <= k < edges.len() && 0 <= a < order.len() && 0 <= b < order.len() && order[a]
            == edges[k].0 && order[b] == edges[k].1 ==> a < b
}

/// The edges lead from a vertex back to itself: some walk along them starts
/// and ends at the same vertex.
pub open spec fn has_cycle(edges: Seq<(usize, usize)>) -> bool {
    exists|w: Seq<usize>|
        w.len() >= 2 && w[0] == w.last() && forall|i: int|
            0 <= i < w.len() - 1 ==> #[trigger] edges.contains((w[i], w[i + 1]))
}

/// The order in which `gryf`'s topological sort reports the vertices `0..n`
/// of the directed graph with `edges`, or `None` when it reports a cycle.
pub uninterp spec fn gryf_topological_order(n: nat, edges: Seq<(usize, usize)>) -> Option<Seq<usize>>;

/// Sorts the directed graph with vertices `0..n` and `edges` topologically
/// with `gryf` (`TopoSort::on(..).run()`, which is Kahn's algorithm, collected
/// into a `Result`). The contract claims that the result is
/// `gryf_topological_order` of the arguments; that a result lists the
/// vertices in an order in which every edge goes forward, as the crate
/// documents; and that no result means the graph has a cycle, which is the
/// only error the crate reports. Which of the orders it picks is left
/// unsaid, as the crate leaves it.
#[verifier::external_body]
fn topological_order(n: usize, edges: &Vec<(usize, usize)>) -> (res: Option<Vec<usize>>)
    requires
        forall|k: int| 0 <= k < edges@.len() ==> #[trigger] edges@[k].0 < n && edges@[k].1 < n,
    ensures
        res matches Some(o) ==> gryf_topological_order(n as nat, edges@) == Some(o@),
        res is None ==> gryf_topological_order(n as nat, edges@) is None,
        res matches Some(o) ==> is_topological_order(n as nat, edges@, o@),
        res is None ==> has_cycle(edges@),
{
    let mut graph = gryf::Graph::<usize, (), gryf::core::marker::Directed>::new_directed();
    let mut ids = Vec::with_capacity(n);
    for i in 0..n {
        ids.push(graph.add_vertex(i));
    }
    for (from, to) in edges.iter() {
        graph.add_edge(ids[*from], ids[*to], ());
    }
    let sorted = gryf::algo::TopoSort::on(&graph).run().collect::<Result<Vec<_>, _>>();
    sorted.ok().map(|order| order.into_iter().map(|v| graph[v]).collect())
}

/// The edges of the import graph of `headers`.
pub fn import_edges(headers: &Vec<HeaderKt>) -> (res: Vec<(usize, usize)>)
    ensures
        res@ == import_edges_spec(headers@),
        forall|k: int| 0 <= k < res@.len() ==> #[trigger] res@[k].0 < headers@.len() && res@[k].1
            < headers@.len(),
{
    let n = headers.len();
    let mut res: Vec<(usize, usize)> = Vec::new();
    let mut i: usize = 0;
    while i < n
        invariant
            n == headers@.len(),
            i <= n,
            res@ == edges_upto(headers@, i as int),
            forall|k: int| 0 <= k < res@.len() ==> #[trigger] res@[k].0 < n && res@[k].1 < n,
        decreases n - i,
    {
        let ghost base = res@;
        let mut j: usize = 0;
        while j < n
            invariant
                n == headers@.len(),
                i < n,
                j <= n,
                res@ == base + edges_from(headers@, i as int, j as int),
                forall|k: int| 0 <= k < res@.len() ==> #[trigger] res@[k].0 < n && res@[k].1 < n,
            decreases n - j,
        {
            if headers[j].has_dependency(&headers[i]) {
                res.push((i, j));
            }
            j = j + 1;
            proof {
                assert(res@ =~= base + edges_from(headers@, i as int, j as int));
            }
        }
        i = i + 1;
    }
    res
}

/// The files of `headers` in build order: every file
/// after the files whose package it imports, in the order `gryf` reports;
/// `None` when the imports form a cycle.
pub fn sort_by_imports(headers: &Vec<HeaderKt>) -> (res: Option<Vec<String>>)
    ensures
        match gryf_topological_order(headers@.len() as nat, import_edges_spec(headers@)) {
            Some(order) => res matches Some(files) && views(files@) == order.map_values(
                |v: usize| headers@[v as int].file@,
            ),
            None => res is None,
        },
        res matches Some(files) ==> exists|order: Seq<usize>|
            is_topological_order(headers@.len() as nat, import_edges_spec(headers@), order)
                && views(files@) == order.map_values(|v: usize| headers@[v as int].file@),
        res is None ==> has_cycle(import_edges_spec(headers@)),
{
    let edges = import_edges(headers);
    match topological_order(headers.len(), &edges) {
        Some(order) => {
            let mut files: Vec<String> = Vec::new();
            let mut k: usize = 0;
            while k < order.len()
                invariant
                    k <= order@.len(),
                    is_topological_order(headers@.len() as nat, edges@, order@),
                    views(files@) == order@.take(k as int).map_values(|v: usize| headers@[v as int].file@),
                decreases order@.len() - k,
            {
                let v = order[k];
                proof {
                    assert(order@.len() == headers@.len());
                }
                let f = owned(headers[v].file.as_str());
                let ghost before = views(files@);
                files.push(f);
                proof {
                    assert(views(files@) =~= before.push(f@));
                    assert(order@.take(k + 1).map_values(|v: usize| headers@[v as int].file@)
                        =~= order@.take(k as int).map_values(|v: usize| headers@[v as int].file@).push(f@));
                }
                k = k + 1;
            }
            proof {
                assert(order@.take(k as int) =~= order@);
            }
            Some(files)
        },
        None => None,
    }
}

/// The file name of a path: the text after its last `/`.
pub open spec fn file_name_spec(path: Seq<char>) -> Seq<char> {
    last_segment(path)
}

/// Whether a path names a Kotlin file: its file name has the extension `kt`
/// (a dot that does not start the name, followed by `kt` and nothing else).
pub open spec fn is_kotlin_file_spec(path: Seq<char>) -> bool {
    let name = file_name_spec(path);
    exists|i: int|
        0 < i < name.len() && #[trigger] name[i] == '.' && name.skip(i + 1) == "kt"@ && forall|k: int|
            i < k < name.len() ==> name[k] != '.'
}

/// The file name of a path (`Path::file_name` on the paths the listing of a
/// directory gives): the text after its last `/`.
pub fn file_name(path: &str) -> (res: String)
    ensures
        res@ == file_name_spec(path@),
{
    proof {
        reveal_strlit("/");
        crate::text::lemma_last_occurrence(path@, "/"@);
    }
    let v = chars_of(path);
    let mut i: usize = v.len();
    while i > 0
        invariant
            v@ == path@,
            i <= v@.len(),
            forall|k: int| i <= k < v@.len() ==> v@[k] != '/',
        ensures
            i <= v@.len(),
            forall|k: int| i <= k < v@.len() ==> v@[k] != '/',
            i > 0 ==> v@[i - 1] == '/',
        decreases i,
    {
        if v[i - 1] == '/' {
            break;
        }
        i = i - 1;
    }
    proof {
        if i > 0 {
            assert(crate::text::occurs_at(path@, "/"@, i - 1)) by {
                assert(path@.subrange(i - 1, i as int) =~= "/"@);
            }
            match crate::text::last_occurrence(path@, "/"@) {
                Some(j) => {
                    if j > i - 1 {
                        assert(path@.subrange(j, j + 1)[0] == '/');
                        assert(v@[j] == '/');
                    }
                    if j < i - 1 {
                        assert(false);
                    }
                },
                None => {},
            }
            assert(path@.skip(i as int) =~= v@.subrange(i as int, v@.len() as int));
        } else {
            match crate::text::last_occurrence(path@, "/"@) {
                Some(j) => {
                    assert(path@.subrange(j, j + 1)[0] == '/');
                    assert(v@[j] == '/');
                },
                None => {},
            }
            assert(path@ =~= v@.subrange(0, v@.len() as int));
        }
    }
    string_of_range(&v, i, v.len())
}

/// Whether a path names a Kotlin file (its extension is `kt`).
pub fn is_kotlin_file(path: &str) -> (res: bool)
    ensures
        res == is_kotlin_file_spec(path@),
{
    let name = file_name(path);
    let v = chars_of(name.as_str());
    let n = v.len();
    let mut i: usize = n;
    while i > 0
        invariant
            v@ == file_name_spec(path@),
            n == v@.len(),
            i <= n,
            forall|k: int| i <= k < n ==> v@[k] != '.',
        ensures
            i <= n,
            forall|k: int| i <= k < n ==> v@[k] != '.',
            i > 0 ==> v@[i - 1] == '.',
        decreases i,
    {
        if v[i - 1] == '.' {
            break;
        }
        i = i - 1;
    }
    proof {
        reveal_strlit("kt");
    }
    if i >= 2 && n - i == 2 && v[i] == 'k' && v[i + 1] == 't' {
        proof {
            let d = (i - 1) as int;
            assert(v@.skip(d + 1) =~= "kt"@);
            assert(v@[d] == '.');
        }
        true
    } else {
        proof {
            let name_v = v@;
            assert forall|d: int|
                0 < d < name_v.len() && #[trigger] name_v[d] == '.' && name_v.skip(d + 1) == "kt"@
                    implies exists|k: int| d < k < name_v.len() && name_v[k] == '.' by {
                if d + 1 < i {
                    assert(name_v[i - 1] == '.');
                } else if d + 1 > i {
                    assert(name_v[d] != '.');
                } else {
                    assert(name_v.skip(d + 1).len() == 2);
                    assert(name_v.skip(d + 1)[0] == 'k');
                    assert(name_v.skip(d + 1)[1] == 't');
                }
            }
        }
        false
    }
}

/// The outcome of the `tree` command: with the files in
/// build order it concludes a success that lists their file names, one per
/// line; with a cycle it concludes a failure that says so.
pub fn tree_output(sorted: &Option<Vec<String>>) -> (res: BuildkOutput)
    ensures
        res.name@ == "tree"@,
        res.status == 0,
        match sorted {
            Some(files) => {
                &&& res.conclusion == Some(PartialConclusion::SUCCESS)
                &&& res.stdout matches Some(out) && out@ == listing(views(files@))
                &&& res.stderr is None
            },
            None => {
                &&& res.conclusion == Some(PartialConclusion::FAILED)
                &&& res.stdout matches Some(out) && out@ == "cyclic dependency detected"@
                &&& res.stderr matches Some(err) && err@ == "graph contains cycle"@
            },
        },
{
    let mut output = BuildkOutput::new("tree");
    match sorted {
        Some(files) => {
            let mut text = String::new();
            let mut k: usize = 0;
            while k < files.len()
                invariant
                    k <= files@.len(),
                    text@ == listing(views(files@).take(k as int)),
                decreases files@.len() - k,
            {
                let name = file_name(files[k].as_str());
                let line = concat(name.as_str(), "\n");
                text = concat(text.as_str(), line.as_str());
                proof {
                    assert(views(files@).take(k + 1).drop_last() =~= views(files@).take(k as int));
                    assert(views(files@).take(k + 1).last() == files@[k as int]@);
                }
                k = k + 1;
            }
            proof {
                assert(views(files@).take(k as int) =~= views(files@));
            }
            output.set_stdout(text);
            output.conclude(PartialConclusion::SUCCESS);
        },
        None => {
            output.set_stdout(owned("cyclic dependency detected"));
            output.set_stderr(owned("graph contains cycle"));
            output.conclude(PartialConclusion::FAILED);
        },
    }
    output
}

/// The file names of `paths`, each followed by a line feed.
pub open spec fn listing(paths: Seq<Seq<char>>) -> Seq<char>
    decreases paths.len(),
{
    if paths.len() == 0 {
        Seq::empty()
    } else {
        listing(paths.drop_last()) + file_name_spec(paths.last()) + "\n"@
    }
}

} // verus!
