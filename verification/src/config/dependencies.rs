//! The dependencies a manifest declares under `[dependencies]` and
//! `[test-dependencies]`.
use vstd::prelude::*;

use crate::config::section::{section_of, Section};
use crate::config::toml::{entry_views, section_views, TomlEntry, TomlEntryView, TomlSection, TomlSectionView};
use crate::package::opt_view;
use crate::text::{join, join_spec, str_eq, views};

verus! {

/// Whether a dependency is needed by the program or only by its tests.
#[allow(non_camel_case_types)]
#[derive(Clone, Copy, Debug, PartialEq, Eq, Structural)]
pub enum Kind {
    PRODUCTION,
    TEST,
}

/// A declared dependency: a dotted name and a version.
#[derive(Clone, Debug)]
pub struct Dependency {
    pub name: String,
    pub version: String,
    pub kind: Kind,
    pub path: Option<String>,
    pub url: Option<String>,
}

/// The mathematical value of a declared dependency.
pub struct DependencyView {
    pub name: Seq<char>,
    pub version: Seq<char>,
    pub kind: Kind,
    pub path: Option<Seq<char>>,
    pub url: Option<Seq<char>>,
}

impl View for Dependency {
    type V = DependencyView;

    open spec fn view(&self) -> DependencyView {
        DependencyView {
            name: self.name@,
            version: self.version@,
            kind: self.kind,
            path: opt_view(self.path),
            url: opt_view(self.url),
        }
    }
}

/// The views of a list of dependencies.
pub open spec fn dependency_views(v: Seq<Dependency>) -> Seq<DependencyView> {
    v.map_values(|d: Dependency| d@)
}

/// The dependency a string entry declares: its dotted key names it, its
/// value is the version.
pub open spec fn declared(kind: Kind, e: TomlEntryView) -> DependencyView {
    DependencyView { name: join_spec(e.keys, "."@), version: e.value->0, kind, path: None, url: None }
}

/// Two entries of the table start with the same key: the table then nests
/// more than one value under that key, which is not a dependency declaration.
pub open spec fn shares_first_key(es: Seq<TomlEntryView>) -> bool {
    exists|i: int, j: int|
        0 <= i < j < es.len() && es[i].keys.len() > 0 && es[j].keys.len() > 0 && #[trigger] es[i].keys[0]
            == #[trigger] es[j].keys[0]
}

/// The dependencies the string entries of a table declare, in order.
pub open spec fn table_deps(es: Seq<TomlEntryView>, kind: Kind) -> Seq<DependencyView>
    decreases es.len(),
{
    if es.len() == 0 {
        Seq::empty()
    } else {
        let prefix = table_deps(es.drop_last(), kind);
        if es.last().value is Some {
            prefix.push(declared(kind, es.last()))
        } else {
            prefix
        }
    }
}

/// The dependencies a section declares: none unless it is a dependency
/// section holding a table; `None` when that table nests several values
/// under one key.
pub open spec fn section_deps(s: TomlSectionView) -> Option<Seq<DependencyView>> {
    let kind = if section_of(s.name) == Some(Section::TestDependencies) {
        Kind::TEST
    } else {
        Kind::PRODUCTION
    };
    if section_of(s.name) == Some(Section::Dependencies) || section_of(s.name) == Some(
        Section::TestDependencies,
    ) {
        match s.entries {
            Some(es) => if shares_first_key(es) {
                None
            } else {
                Some(table_deps(es, kind))
            },
            None => Some(Seq::empty()),
        }
    } else {
        Some(Seq::empty())
    }
}

/// The dependencies the sections declare, section by section.
pub open spec fn manifest_deps(ss: Seq<TomlSectionView>) -> Option<Seq<DependencyView>>
    decreases ss.len(),
{
    if ss.len() == 0 {
        Some(Seq::empty())
    } else {
        match (manifest_deps(ss.drop_last()), section_deps(ss.last())) {
            (Some(a), Some(b)) => Some(a + b),
            _ => None,
        }
    }
}

impl Dependency {
    /// A dependency of the given kind, name and version, with no path or url.
    pub fn new(kind: Kind, name: &str, version: &str) -> (res: Dependency)
        ensures
            res@ == (DependencyView { name: name@, version: version@, kind, path: None, url: None }),
    {
        Dependency {
            name: crate::text::owned(name),
            version: crate::text::owned(version),
            kind,
            path: None,
            url: None,
        }
    }
}

/// Whether two entries of the table start with the same key.
pub fn has_shared_first_key(entries: &Vec<TomlEntry>) -> (res: bool)
    ensures
        res == shares_first_key(entry_views(entries@)),
{
    let ghost es = entry_views(entries@);
    let mut j: usize = 0;
    while j < entries.len()
        invariant
            es == entry_views(entries@),
            j <= entries@.len(),
            forall|a: int, b: int|
                0 <= a < b < j ==> !(es[a].keys.len() > 0 && es[b].keys.len() > 0 && #[trigger] es[a].keys[0]
                    == #[trigger] es[b].keys[0]),
        decreases entries@.len() - j,
    {
        let mut i: usize = 0;
        while i < j
            invariant
                es == entry_views(entries@),
                i <= j < entries@.len(),
                forall|a: int, b: int|
                    0 <= a < b < j ==> !(es[a].keys.len() > 0 && es[b].keys.len() > 0 && #[trigger] es[a].keys[0]
                        == #[trigger] es[b].keys[0]),
                forall|a: int|
                    0 <= a < i ==> !(es[a].keys.len() > 0 && es[j as int].keys.len() > 0 && #[trigger] es[a].keys[0]
                        == es[j as int].keys[0]),
            decreases j - i,
        {
            let ki = &entries[i].keys;
            let kj = &entries[j].keys;
            proof {
                assert(es[i as int].keys == views(ki@));
                assert(es[j as int].keys == views(kj@));
            }
            if ki.len() > 0 && kj.len() > 0 && str_eq(ki[0].as_str(), kj[0].as_str()) {
                proof {
                    assert(es[i as int].keys[0] == es[j as int].keys[0]);
                }
                return true;
            }
            i = i + 1;
        }
        j = j + 1;
    }
    false
}

/// The dependencies the string entries of a table declare, in order.
fn table_dependencies(entries: &Vec<TomlEntry>, kind: Kind) -> (res: Vec<Dependency>)
    ensures
        dependency_views(res@) == table_deps(entry_views(entries@), kind),
{
    let ghost es = entry_views(entries@);
    let mut res: Vec<Dependency> = Vec::new();
    let mut i: usize = 0;
    while i < entries.len()
        invariant
            es == entry_views(entries@),
            i <= entries@.len(),
            dependency_views(res@) == table_deps(es.take(i as int), kind),
        decreases entries@.len() - i,
    {
        let e = &entries[i];
        proof {
            assert(es.take(i + 1).drop_last() =~= es.take(i as int));
            assert(es.take(i + 1).last() == e@);
        }
        match &e.value {
            Some(v) => {
                let name = join(&e.keys, ".");
                let d = Dependency::new(kind, name.as_str(), v.as_str());
                let ghost before = res@;
                res.push(d);
                proof {
                    assert(dependency_views(res@) =~= dependency_views(before).push(d@));
                }
            },
            None => {},
        }
        i = i + 1;
    }
    proof {
        assert(es.take(i as int) =~= es);
    }
    res
}

/// The dependencies the manifest's sections declare, in order;
/// `None` where a dependency table nests more than one
/// value under one key.
pub fn dependencies(sections: &Vec<TomlSection>) -> (res: Option<Vec<Dependency>>)
    ensures
        match res {
            Some(v) => manifest_deps(section_views(sections@)) == Some(dependency_views(v@)),
            None => manifest_deps(section_views(sections@)) is None,
        },
{
    let ghost ss = section_views(sections@);
    let mut res: Vec<Dependency> = Vec::new();
    let mut i: usize = 0;
    while i < sections.len()
        invariant
            ss == section_views(sections@),
            i <= sections@.len(),
            manifest_deps(ss.take(i as int)) == Some(dependency_views(res@)),
        decreases sections@.len() - i,
    {
        let s = &sections[i];
        proof {
            assert(ss.take(i + 1).drop_last() =~= ss.take(i as int));
            assert(ss.take(i + 1).last() == s@);
        }
        let section = Section::parse(s.name.as_str());
        let kind = match section {
            Some(Section::TestDependencies) => Kind::TEST,
            _ => Kind::PRODUCTION,
        };
        let wanted = match section {
            Some(Section::Dependencies) => true,
            Some(Section::TestDependencies) => true,
            _ => false,
        };
        if wanted {
            match &s.entries {
                Some(es) => {
                    if has_shared_first_key(es) {
                        proof {
                            assert(section_deps(ss[i as int]) is None);
                            assert(manifest_deps(ss.take(i + 1)) is None);
                            lemma_manifest_deps_none_extends(ss, i + 1, ss.len() as int);
                            assert(ss.take(ss.len() as int) =~= ss);
                        }
                        return None;
                    }
                    let found = table_dependencies(es, kind);
                    let ghost before = res@;
                    let mut k: usize = 0;
                    while k < found.len()
                        invariant
                            k <= found@.len(),
                            res@ == before + found@.take(k as int),
                        decreases found@.len() - k,
                    {
                        res.push(found[k].clone_dependency());
                        k = k + 1;
                        assert(res@ =~= before + found@.take(k as int));
                    }
                    proof {
                        assert(found@.take(k as int) =~= found@);
                        assert(dependency_views(res@) =~= dependency_views(before) + dependency_views(
                            found@,
                        ));
                    }
                },
                None => {},
            }
        }
        i = i + 1;
    }
    proof {
        assert(ss.take(i as int) =~= ss);
    }
    Some(res)
}

/// Once the sections of a prefix declare no valid dependencies, neither do
/// the sections of any longer prefix.
proof fn lemma_manifest_deps_none_extends(ss: Seq<TomlSectionView>, k: int, n: int)
    requires
        0 <= k <= n <= ss.len(),
        manifest_deps(ss.take(k)) is None,
    ensures
        manifest_deps(ss.take(n)) is None,
    decreases n - k,
{
    if k < n {
        lemma_manifest_deps_none_extends(ss, k, n - 1);
        assert(ss.take(n).drop_last() =~= ss.take(n - 1));
    }
}

impl Dependency {
    /// The dependency as the configuration shows it:
    /// `dependency` or `test-dependency`, then `name:version`.
    pub fn display(&self) -> (res: String)
        ensures
            res@ == crate::config::manifest::setting_line(
                match self.kind {
                    Kind::PRODUCTION => "dependency"@,
                    Kind::TEST => "test-dependency"@,
                },
                self.name@ + ":"@ + self.version@,
            ),
    {
        let a = crate::text::concat(self.name.as_str(), ":");
        let b = crate::text::concat(a.as_str(), self.version.as_str());
        let name = match self.kind {
            Kind::PRODUCTION => "dependency",
            Kind::TEST => "test-dependency",
        };
        let padded = crate::text::pad_right(name, 26);
        let line = crate::text::concat(padded.as_str(), b.as_str());
        crate::text::concat(line.as_str(), "\n")
    }

    /// A copy of the dependency.
    pub fn clone_dependency(&self) -> (res: Dependency)
        ensures
            res == *self,
    {
        Dependency {
            name: self.name.clone(),
            version: self.version.clone(),
            kind: self.kind,
            path: match &self.path {
                Some(p) => Some(p.clone()),
                None => None,
            },
            url: match &self.url {
                Some(u) => Some(u.clone()),
                None => None,
            },
        }
    }
}

} // verus!
