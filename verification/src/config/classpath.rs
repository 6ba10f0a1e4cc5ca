//! The classpath: the paths the sources and the tests are compiled and run
//! with, each held once.
use vstd::prelude::*;

use crate::text::{str_eq, views};

verus! {

/// The classpaths of the sources and of the tests, each without repeats.
#[derive(Clone, Debug)]
pub struct Classpath {
    src: Vec<String>,
    test: Vec<String>,
}

/// The paths hold no path twice.
pub open spec fn no_repeats(s: Seq<Seq<char>>) -> bool {
    forall|i: int, j: int| 0 <= i < j < s.len() ==> s[i] != s[j]
}

impl Classpath {
    /// The paths of the sources, as a set.
    pub closed spec fn src_set(&self) -> Set<Seq<char>> {
        views(self.src@).to_set()
    }

    /// The paths of the tests, as a set.
    pub closed spec fn test_set(&self) -> Set<Seq<char>> {
        views(self.test@).to_set()
    }

    /// Neither classpath holds a path twice.
    pub closed spec fn wf(&self) -> bool {
        no_repeats(views(self.src@)) && no_repeats(views(self.test@))
    }

    /// Empty classpaths.
    pub fn new() -> (res: Classpath)
        ensures
            res.wf(),
            res.src_set() == Set::<Seq<char>>::empty(),
            res.test_set() == Set::<Seq<char>>::empty(),
    {
        let res = Classpath { src: Vec::new(), test: Vec::new() };
        assert(views(res.src@) =~= Seq::<Seq<char>>::empty());
        assert(views(res.test@) =~= Seq::<Seq<char>>::empty());
        res
    }

    /// Adds a path to the sources' classpath.
    pub fn add_src(&mut self, path: &str)
        requires
            old(self).wf(),
        ensures
            final(self).wf(),
            final(self).src_set() == old(self).src_set().insert(path@),
            final(self).test_set() == old(self).test_set(),
    {
        add_path(&mut self.src, path);
    }

    /// Adds a path to the tests' classpath.
    pub fn add_test(&mut self, path: &str)
        requires
            old(self).wf(),
        ensures
            final(self).wf(),
            final(self).test_set() == old(self).test_set().insert(path@),
            final(self).src_set() == old(self).src_set(),
    {
        add_path(&mut self.test, path);
    }

    /// Adds paths to the sources' classpath.
    pub fn extend_src(&mut self, paths: &Vec<String>)
        requires
            old(self).wf(),
        ensures
            final(self).wf(),
            final(self).src_set() == old(self).src_set() + views(paths@).to_set(),
            final(self).test_set() == old(self).test_set(),
    {
        extend_paths(&mut self.src, paths);
    }

    /// Adds paths to the tests' classpath.
    pub fn extend_test(&mut self, paths: &Vec<String>)
        requires
            old(self).wf(),
        ensures
            final(self).wf(),
            final(self).test_set() == old(self).test_set() + views(paths@).to_set(),
            final(self).src_set() == old(self).src_set(),
    {
        extend_paths(&mut self.test, paths);
    }

    /// The paths of the sources, each once.
    pub fn get_src(&self) -> (res: Vec<String>)
        requires
            self.wf(),
        ensures
            views(res@).to_set() == self.src_set(),
            no_repeats(views(res@)),
    {
        copy_paths(&self.src)
    }

    /// The paths of the tests, each once.
    pub fn get_test(&self) -> (res: Vec<String>)
        requires
            self.wf(),
        ensures
            views(res@).to_set() == self.test_set(),
            no_repeats(views(res@)),
    {
        copy_paths(&self.test)
    }
}

/// Whether `path` is among the paths.
fn has_path(v: &Vec<String>, path: &str) -> (res: bool)
    ensures
        res == views(v@).contains(path@),
{
    let mut i: usize = 0;
    while i < v.len()
        invariant
            i <= v@.len(),
            forall|k: int| 0 <= k < i ==> views(v@)[k] != path@,
        decreases v@.len() - i,
    {
        if str_eq(v[i].as_str(), path) {
            assert(views(v@)[i as int] == path@);
            return true;
        }
        i = i + 1;
    }
    false
}

/// Adds a path unless it is there already.
fn add_path(v: &mut Vec<String>, path: &str)
    requires
        no_repeats(views(old(v)@)),
    ensures
        no_repeats(views(final(v)@)),
        views(final(v)@).to_set() == views(old(v)@).to_set().insert(path@),
{
    if has_path(v, path) {
        proof {
            assert(views(v@).to_set().insert(path@) =~= views(v@).to_set());
        }
        return;
    }
    let ghost before = views(v@);
    v.push(crate::text::owned(path));
    proof {
        assert(views(v@) =~= before.push(path@));
        before.lemma_push_to_set_commute(path@);
    }
}

/// Adds each of the paths unless it is there already.
fn extend_paths(v: &mut Vec<String>, paths: &Vec<String>)
    requires
        no_repeats(views(old(v)@)),
    ensures
        no_repeats(views(final(v)@)),
        views(final(v)@).to_set() == views(old(v)@).to_set() + views(paths@).to_set(),
{
    let ghost start = views(v@).to_set();
    let mut i: usize = 0;
    while i < paths.len()
        invariant
            i <= paths@.len(),
            no_repeats(views(v@)),
            views(v@).to_set() == start + views(paths@).take(i as int).to_set(),
        decreases paths@.len() - i,
    {
        add_path(v, paths[i].as_str());
        i = i + 1;
        proof {
            let t = views(paths@).take(i as int);
            assert(t =~= views(paths@).take(i - 1).push(paths@[i - 1]@));
            views(paths@).take(i - 1).lemma_push_to_set_commute(paths@[i - 1]@);
            assert(views(v@).to_set() =~= start + t.to_set());
        }
    }
    assert(views(paths@).take(i as int) =~= views(paths@));
}

/// Copies of the paths.
fn copy_paths(v: &Vec<String>) -> (res: Vec<String>)
    ensures
        views(res@) == views(v@),
{
    let mut res: Vec<String> = Vec::new();
    let mut i: usize = 0;
    while i < v.len()
        invariant
            i <= v@.len(),
            res@ == v@.take(i as int),
        decreases v@.len() - i,
    {
        res.push(v[i].clone());
        i = i + 1;
        assert(res@ =~= v@.take(i as int));
    }
    assert(v@.take(i as int) =~= v@);
    res
}

} // verus!
