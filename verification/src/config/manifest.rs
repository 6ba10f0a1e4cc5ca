//! The manifest as a whole: its project, its modules and its resolved
//! dependencies, the tool's configuration around it, and how they are shown.
use vstd::prelude::*;

use crate::config::classpath::Classpath;
use crate::config::dependency::{dependency_views, new_dependency, Dependency, DependencyView, Kind};
use crate::config::project::{project, project_at, project_entries, resolved_path, is_absolute, entry_value, Project, ProjectOutput};
use crate::config::section::{section_of, Section};
use crate::config::toml::{entry_views, section_views, TomlEntry, TomlEntryView, TomlSection, TomlSectionView};
use crate::order::{compare_str, lemma_lex_order_basic, lex_order};
use crate::package::{opt_view, package_location, package_views, Package, PackageKind, PackageView};
use crate::text::{concat, join, join_spec, owned, pad_right, pad_right_spec, replace_spec, rsplit_once, rsplit_once_spec, views};

verus! {

// ---------------------------------------------------------------------------
// Dependency tables, keyed and sorted
// ---------------------------------------------------------------------------

/// A value of a dependency table under its dotted name.
pub type KeyedView = (Seq<char>, Option<Seq<char>>);

/// `m` with `v` under the key `k`: replacing the value of an equal key, or
/// inserted before the first greater key (`BTreeMap::insert`).
pub open spec fn insert_keyed(m: Seq<KeyedView>, k: Seq<char>, v: Option<Seq<char>>) -> Seq<KeyedView>
    decreases m.len(),
{
    if m.len() == 0 {
        seq![(k, v)]
    } else if m[0].0 == k {
        seq![(k, v)] + m.skip(1)
    } else if lex_order(k, m[0].0) < 0 {
        seq![(k, v)] + m
    } else {
        seq![m[0]] + insert_keyed(m.skip(1), k, v)
    }
}

/// The values of a dependency table under their dotted names, in the order
/// of the names, the last value kept for a name given twice.
pub open spec fn keyed(es: Seq<TomlEntryView>) -> Seq<KeyedView>
    decreases es.len(),
{
    if es.len() == 0 {
        Seq::empty()
    } else {
        insert_keyed(keyed(es.drop_last()), join_spec(es.last().keys, "."@), es.last().value)
    }
}

/// The dependencies of kind `kind` the keyed values declare, in order: those
/// whose value is a string and whose name resolves (`from_toml`).
pub open spec fn keyed_deps(m: Seq<KeyedView>, kind: Kind, cache: Seq<char>) -> Seq<DependencyView>
    decreases m.len(),
{
    if m.len() == 0 {
        Seq::empty()
    } else {
        let prefix = keyed_deps(m.drop_last(), kind, cache);
        match m.last().1 {
            Some(v) => match new_dependency(kind, m.last().0, v, cache) {
                Some(d) => prefix.push(d),
                None => prefix,
            },
            None => prefix,
        }
    }
}

/// The dependencies a section declares: a `[dependencies]` table's for the
/// sources, a `[test-dependencies]` table's for the tests, none otherwise.
pub open spec fn section_rich_deps(s: TomlSectionView, cache: Seq<char>) -> Seq<DependencyView> {
    match (section_of(s.name), s.entries) {
        (Some(Section::Dependencies), Some(es)) => keyed_deps(keyed(es), Kind::Source, cache),
        (Some(Section::TestDependencies), Some(es)) => keyed_deps(keyed(es), Kind::Test, cache),
        _ => Seq::empty(),
    }
}

/// The dependencies the manifest's sections declare, section after section.
pub open spec fn manifest_rich_deps(ss: Seq<TomlSectionView>, cache: Seq<char>) -> Seq<DependencyView>
    decreases ss.len(),
{
    if ss.len() == 0 {
        Seq::empty()
    } else {
        manifest_rich_deps(ss.drop_last(), cache) + section_rich_deps(ss.last(), cache)
    }
}

/// The views of keyed values.
pub open spec fn keyed_views(v: Seq<(String, Option<String>)>) -> Seq<KeyedView> {
    v.map_values(|p: (String, Option<String>)| (p.0@, opt_view(p.1)))
}

/// Inserting past keys that are smaller than `k` keeps them in front.
proof fn lemma_insert_keyed_skip(m: Seq<KeyedView>, k: Seq<char>, v: Option<Seq<char>>, i: int)
    requires
        0 <= i <= m.len(),
        forall|j: int| 0 <= j < i ==> lex_order(#[trigger] m[j].0, k) < 0,
    ensures
        insert_keyed(m, k, v) == m.take(i) + insert_keyed(m.skip(i), k, v),
    decreases i,
{
    if i == 0 {
        assert(m.skip(0) =~= m);
        assert(m.take(0) + insert_keyed(m, k, v) =~= insert_keyed(m, k, v));
    } else {
        lemma_lex_order_basic(m[0].0, k);
        assert(m[0].0 != k);
        assert(lex_order(k, m[0].0) > 0);
        let t = m.skip(1);
        assert forall|j: int| 0 <= j < i - 1 implies lex_order(#[trigger] t[j].0, k) < 0 by {
            assert(t[j] == m[j + 1]);
        }
        lemma_insert_keyed_skip(t, k, v, i - 1);
        assert(t.skip(i - 1) =~= m.skip(i));
        assert(seq![m[0]] + t.take(i - 1) =~= m.take(i));
        assert(seq![m[0]] + (t.take(i - 1) + insert_keyed(m.skip(i), k, v)) =~= m.take(i) + insert_keyed(
            m.skip(i),
            k,
            v,
        ));
    }
}

/// Puts `v` under the key `k` (`BTreeMap::insert`).
fn insert_entry(m: &mut Vec<(String, Option<String>)>, k: String, v: Option<String>)
    ensures
        keyed_views(final(m)@) == insert_keyed(keyed_views(old(m)@), k@, opt_view(v)),
{
    let ghost mv = keyed_views(m@);
    let mut i: usize = 0;
    while i < m.len()
        invariant
            mv == keyed_views(m@),
            i <= m@.len(),
            forall|j: int| 0 <= j < i ==> lex_order(#[trigger] mv[j].0, k@) < 0,
        ensures
            mv == keyed_views(m@),
            i <= m@.len(),
            forall|j: int| 0 <= j < i ==> lex_order(#[trigger] mv[j].0, k@) < 0,
            i < m@.len() ==> lex_order(mv[i as int].0, k@) >= 0,
        decreases m@.len() - i,
    {
        let c = compare_str(m[i].0.as_str(), k.as_str());
        proof {
            assert(mv[i as int].0 == m@[i as int].0@);
        }
        if c >= 0 {
            break;
        }
        i = i + 1;
    }
    proof {
        lemma_insert_keyed_skip(mv, k@, opt_view(v), i as int);
    }
    let ghost rest = mv.skip(i as int);
    if i < m.len() && crate::text::str_eq(m[i].0.as_str(), k.as_str()) {
        proof {
            assert(rest[0] == mv[i as int]);
            assert(rest[0].0 == k@);
        }
        m.set(i, (k, v));
        proof {
            assert(keyed_views(m@) =~= mv.take(i as int) + (seq![(k@, opt_view(v))] + rest.skip(1)));
        }
    } else {
        proof {
            if i < mv.len() {
                assert(rest[0] == mv[i as int]);
                lemma_lex_order_basic(mv[i as int].0, k@);
                assert(lex_order(k@, rest[0].0) < 0);
            } else {
                assert(rest.len() == 0);
            }
        }
        let ghost kv = (k@, opt_view(v));
        m.insert(i, (k, v));
        proof {
            assert(keyed_views(m@) =~= mv.take(i as int) + (seq![kv] + rest));
        }
    }
}

/// The values of a dependency table under their dotted names, sorted.
fn keyed_entries(es: &Vec<TomlEntry>) -> (res: Vec<(String, Option<String>)>)
    ensures
        keyed_views(res@) == keyed(entry_views(es@)),
{
    let ghost ev = entry_views(es@);
    let mut res: Vec<(String, Option<String>)> = Vec::new();
    let mut i: usize = 0;
    proof {
        assert(keyed_views(res@) =~= Seq::<KeyedView>::empty());
        assert(ev.take(0) =~= Seq::<TomlEntryView>::empty());
    }
    while i < es.len()
        invariant
            ev == entry_views(es@),
            i <= es@.len(),
            keyed_views(res@) == keyed(ev.take(i as int)),
        decreases es@.len() - i,
    {
        let e = &es[i];
        let name = join(&e.keys, ".");
        let value = match &e.value {
            Some(s) => Some(s.clone()),
            None => None,
        };
        proof {
            assert(ev.take(i + 1).drop_last() =~= ev.take(i as int));
            assert(ev.take(i + 1).last() == e@);
        }
        insert_entry(&mut res, name, value);
        i = i + 1;
    }
    proof {
        assert(ev.take(i as int) =~= ev);
    }
    res
}

/// The dependencies of kind `kind`, cached under `cache`, that a dependency
/// table declares, in the order of their names.
pub fn table_rich_deps(es: &Vec<TomlEntry>, kind: Kind, cache: &str) -> (res: Vec<Dependency>)
    ensures
        dependency_views(res@) == keyed_deps(keyed(entry_views(es@)), kind, cache@),
{
    let m = keyed_entries(es);
    let ghost mv = keyed_views(m@);
    let mut res: Vec<Dependency> = Vec::new();
    let mut i: usize = 0;
    while i < m.len()
        invariant
            mv == keyed_views(m@),
            i <= m@.len(),
            dependency_views(res@) == keyed_deps(mv.take(i as int), kind, cache@),
        decreases m@.len() - i,
    {
        proof {
            assert(mv.take(i + 1).drop_last() =~= mv.take(i as int));
            assert(mv.take(i + 1).last() == (m@[i as int].0@, opt_view(m@[i as int].1)));
        }
        let ghost before = dependency_views(res@);
        match &m[i].1 {
            Some(v) => match Dependency::new(kind, m[i].0.as_str(), v.as_str(), cache) {
                Some(d) => {
                    res.push(d);
                    proof {
                        assert(dependency_views(res@) =~= before.push(res@.last()@));
                    }
                },
                None => {},
            },
            None => {},
        }
        i = i + 1;
    }
    proof {
        assert(mv.take(i as int) =~= mv);
    }
    res
}

/// The dependencies the manifest's sections declare (`dependencies`), cached
/// under `cache`: each dependency table's in turn, sorted by name within it.
pub fn manifest_dependencies(sections: &Vec<TomlSection>, cache: &str) -> (res: Vec<Dependency>)
    ensures
        dependency_views(res@) == manifest_rich_deps(section_views(sections@), cache@),
{
    let ghost ss = section_views(sections@);
    let mut res: Vec<Dependency> = Vec::new();
    let mut i: usize = 0;
    while i < sections.len()
        invariant
            ss == section_views(sections@),
            i <= sections@.len(),
            dependency_views(res@) == manifest_rich_deps(ss.take(i as int), cache@),
        decreases sections@.len() - i,
    {
        let s = &sections[i];
        proof {
            assert(ss.take(i + 1).drop_last() =~= ss.take(i as int));
            assert(ss.take(i + 1).last() == s@);
        }
        let kind = match Section::parse(s.name.as_str()) {
            Some(Section::Dependencies) => Some(Kind::Source),
            Some(Section::TestDependencies) => Some(Kind::Test),
            _ => None,
        };
        let ghost before = dependency_views(res@);
        match (kind, &s.entries) {
            (Some(k), Some(es)) => {
                let mut found = table_rich_deps(es, k, cache);
                res.append(&mut found);
                proof {
                    assert(dependency_views(res@) =~= before + section_rich_deps(s@, cache@));
                }
            },
            _ => {
                proof {
                    assert(section_rich_deps(s@, cache@) =~= Seq::<DependencyView>::empty());
                    assert(dependency_views(res@) =~= before + section_rich_deps(s@, cache@));
                }
            },
        }
        i = i + 1;
    }
    proof {
        assert(ss.take(i as int) =~= ss);
    }
    res
}

// ---------------------------------------------------------------------------
// The manifest and the configuration
// ---------------------------------------------------------------------------

/// A module of the project: its directory and its dependencies.
#[derive(Clone, Debug)]
pub struct Module {
    pub path: String,
    pub dependencies: Vec<crate::config::dependencies::Dependency>,
}

/// The package a declared dependency names, of kind `kind` and stored under
/// `cache`: the dependency's name up to its last dot is the namespace, the
/// rest the package's name; `None` for a name without a dot.
pub open spec fn dependency_package(d: DependencyView, kind: PackageKind, cache: Seq<char>) -> Option<
    PackageView,
> {
    match rsplit_once_spec(d.name, '.') {
        Some((namespace, name)) => Some(
            PackageView {
                name,
                namespace: Some(namespace),
                version: d.version,
                kind,
                location: package_location(cache, name, Some(namespace), d.version),
            },
        ),
        None => None,
    }
}

/// The packages of the dependencies of kind `of`, in order, each of kind
/// `kind` and stored under `cache`; dependencies whose name has no dot name
/// no package.
pub open spec fn packages_of(ds: Seq<DependencyView>, of: Kind, kind: PackageKind, cache: Seq<char>) -> Seq<
    PackageView,
>
    decreases ds.len(),
{
    if ds.len() == 0 {
        Seq::empty()
    } else {
        let rest = packages_of(ds.drop_last(), of, kind, cache);
        if ds.last().kind == of {
            match dependency_package(ds.last(), kind, cache) {
                Some(p) => rest.push(p),
                None => rest,
            }
        } else {
            rest
        }
    }
}

/// The manifest: the project, its modules and its dependencies.
#[derive(Debug)]
pub struct Manifest {
    pub project: Project,
    pub modules: Vec<Module>,
    pub dependencies: Vec<Dependency>,
}

impl Manifest {
    /// The packages of the dependencies of kind `of` (the packages the
    /// project compiles or tests against), each of kind `kind` and stored
    /// under `cache`.
    pub fn packages(&self, of: Kind, kind: PackageKind, cache: &str) -> (res: Vec<Package>)
        ensures
            package_views(res@) == packages_of(dependency_views(self.dependencies@), of, kind, cache@),
    {
        let ds = &self.dependencies;
        let mut res: Vec<Package> = Vec::new();
        let mut i: usize = 0;
        while i < ds.len()
            invariant
                i <= ds@.len(),
                package_views(res@) == packages_of(dependency_views(ds@).take(i as int), of, kind, cache@),
            decreases ds@.len() - i,
        {
            proof {
                assert(dependency_views(ds@).take(i + 1).drop_last() =~= dependency_views(ds@).take(i as int));
                assert(dependency_views(ds@).take(i + 1).last() == ds@[i as int]@);
            }
            let d = &ds[i];
            if d.kind == of {
                match rsplit_once(d.name.as_str(), '.') {
                    Some((namespace, name)) => {
                        let p = Package::new_in(cache, name, Some(namespace), d.version.clone(), kind);
                        let ghost before = package_views(res@);
                        res.push(p);
                        proof {
                            assert(package_views(res@) =~= before.push(p@));
                        }
                    },
                    None => {},
                }
            }
            i = i + 1;
        }
        proof {
            assert(dependency_views(ds@).take(i as int) =~= dependency_views(ds@));
        }
        res
    }

    /// The manifest the sections of `buildk.toml` describe: the project
    /// they set (the default project in `cwd` without one), no modules, and
    /// the dependencies they declare, cached under `cache`. `is_dir` tells
    /// whether the project path the settings name is a directory.
    pub fn from_sections(sections: &Vec<TomlSection>, cwd: &str, is_dir: bool, cache: &str) -> (res: Manifest)
        ensures
            match project_entries(section_views(sections@)) {
                Some(es) => {
                    let path = resolved_path(entry_value(es, "path"@), entry_value(es, "relative-path"@), cwd@);
                    if is_dir && is_absolute(path) {
                        project_at(
                            path,
                            match entry_value(es, "main"@) {
                                Some(m) => m,
                                None => "Main.kt"@,
                            },
                            res.project,
                        )
                    } else {
                        project_at(cwd@, "Main.kt"@, res.project)
                    }
                },
                None => project_at(cwd@, "Main.kt"@, res.project),
            },
            res.modules@.len() == 0,
            dependency_views(res.dependencies@) == manifest_rich_deps(section_views(sections@), cache@),
    {
        let p = match project(sections, cwd, is_dir) {
            Some(p) => p,
            None => Project::default_in(cwd),
        };
        Manifest { project: p, modules: Vec::new(), dependencies: manifest_dependencies(sections, cache) }
    }
}

/// The tool's configuration: its home directory (`$HOME/.buildk`), the
/// manifest, and the classpath.
#[derive(Debug)]
pub struct Config {
    pub home: String,
    pub manifest: Manifest,
    pub classpath: Classpath,
}

// ---------------------------------------------------------------------------
// Showing the configuration
// ---------------------------------------------------------------------------

/// A line of the configuration: the name padded to 26 characters, then the
/// value.
pub open spec fn setting_line(name: Seq<char>, value: Seq<char>) -> Seq<char> {
    pad_right_spec(name, 26) + value + "\n"@
}

/// A line of the configuration.
fn setting(name: &str, value: &str) -> (res: String)
    ensures
        res@ == setting_line(name@, value@),
{
    let a = pad_right(name, 26);
    let b = concat(a.as_str(), value);
    concat(b.as_str(), "\n")
}

/// How the output locations are shown.
pub open spec fn output_display_spec(o: ProjectOutput) -> Seq<char> {
    setting_line("project.out.path"@, o.path@) + setting_line("project.out.cache"@, o.cache@) + setting_line(
        "project.out.src"@,
        o.src@,
    ) + setting_line("project.out.test"@, o.test@) + setting_line("project.out.test-report"@, o.test_report@)
        + setting_line("project.out.jar"@, o.jar@)
}

/// How the project is shown: its directories, its main file with the class
/// it compiles to, and its output locations.
pub open spec fn project_display_spec(p: Project) -> Seq<char> {
    setting_line("project.path"@, p.path@) + setting_line("project.src"@, p.src@) + setting_line(
        "project.test"@,
        p.test@,
    ) + setting_line(
        "project.main"@,
        p.main@ + " ("@ + replace_spec(p.main@, ".kt"@, "Kt"@) + ")"@,
    ) + output_display_spec(p.out)
}

/// How a dependency is shown: `dependency` or `test-dependency`, then
/// `name:version`.
pub open spec fn dependency_display_spec(d: DependencyView) -> Seq<char> {
    setting_line(
        match d.kind {
            Kind::Source => "dependency"@,
            Kind::Test => "test-dependency"@,
        },
        d.name + ":"@ + d.version,
    )
}

/// How the dependencies are shown, one line each.
pub open spec fn dependencies_display_spec(ds: Seq<DependencyView>) -> Seq<char>
    decreases ds.len(),
{
    if ds.len() == 0 {
        Seq::empty()
    } else {
        dependencies_display_spec(ds.drop_last()) + dependency_display_spec(ds.last())
    }
}

/// How the manifest is shown, given where Kotlin is installed.
pub open spec fn manifest_display_spec(m: Manifest, kotlin_home: Seq<char>) -> Seq<char> {
    project_display_spec(m.project) + setting_line("kotlin.path"@, kotlin_home) + dependencies_display_spec(
        dependency_views(m.dependencies@),
    )
}

impl ProjectOutput {
    /// The output locations as the configuration shows them.
    pub fn display(&self) -> (res: String)
        ensures
            res@ == output_display_spec(*self),
    {
        let a = setting("project.out.path", self.path.as_str());
        let b = setting("project.out.cache", self.cache.as_str());
        let c = setting("project.out.src", self.src.as_str());
        let d = setting("project.out.test", self.test.as_str());
        let e = setting("project.out.test-report", self.test_report.as_str());
        let f = setting("project.out.jar", self.jar.as_str());
        let ab = concat(a.as_str(), b.as_str());
        let abc = concat(ab.as_str(), c.as_str());
        let abcd = concat(abc.as_str(), d.as_str());
        let abcde = concat(abcd.as_str(), e.as_str());
        concat(abcde.as_str(), f.as_str())
    }
}

impl Project {
    /// The project as the configuration shows it.
    pub fn display(&self) -> (res: String)
        ensures
            res@ == project_display_spec(*self),
    {
        let a = setting("project.path", self.path.as_str());
        let b = setting("project.src", self.src.as_str());
        let c = setting("project.test", self.test.as_str());
        let class = self.compiled_main_file();
        let m1 = concat(self.main.as_str(), " (");
        let m2 = concat(m1.as_str(), class.as_str());
        let m3 = concat(m2.as_str(), ")");
        let d = setting("project.main", m3.as_str());
        let o = self.out.display();
        let ab = concat(a.as_str(), b.as_str());
        let abc = concat(ab.as_str(), c.as_str());
        let abcd = concat(abc.as_str(), d.as_str());
        concat(abcd.as_str(), o.as_str())
    }
}

impl Dependency {
    /// The dependency as the configuration shows it.
    pub fn display(&self) -> (res: String)
        ensures
            res@ == dependency_display_spec(self@),
    {
        let a = concat(self.name.as_str(), ":");
        let b = concat(a.as_str(), self.version.as_str());
        match self.kind {
            Kind::Source => setting("dependency", b.as_str()),
            Kind::Test => setting("test-dependency", b.as_str()),
        }
    }
}

/// The dependencies as the configuration shows them.
fn dependencies_display(ds: &Vec<Dependency>) -> (res: String)
    ensures
        res@ == dependencies_display_spec(dependency_views(ds@)),
{
    let ghost dv = dependency_views(ds@);
    let mut res = String::new();
    let mut i: usize = 0;
    while i < ds.len()
        invariant
            dv == dependency_views(ds@),
            i <= ds@.len(),
            res@ == dependencies_display_spec(dv.take(i as int)),
        decreases ds@.len() - i,
    {
        proof {
            assert(dv.take(i + 1).drop_last() =~= dv.take(i as int));
            assert(dv.take(i + 1).last() == ds@[i as int]@);
        }
        let line = ds[i].display();
        res = concat(res.as_str(), line.as_str());
        i = i + 1;
    }
    proof {
        assert(dv.take(i as int) =~= dv);
    }
    res
}

impl Manifest {
    /// The manifest as the configuration shows it, given
    /// where Kotlin is installed.
    pub fn display(&self, kotlin_home: &str) -> (res: String)
        ensures
            res@ == manifest_display_spec(*self, kotlin_home@),
    {
        let p = self.project.display();
        let k = setting("kotlin.path", kotlin_home);
        let d = dependencies_display(&self.dependencies);
        let pk = concat(p.as_str(), k.as_str());
        concat(pk.as_str(), d.as_str())
    }
}

impl Config {
    /// The configuration as the `config` command shows it,
    /// given where Kotlin is installed.
    pub fn display(&self, kotlin_home: &str) -> (res: String)
        ensures
            res@ == setting_line("buildk.home:"@, self.home@) + manifest_display_spec(
                self.manifest,
                kotlin_home@,
            ),
    {
        let h = setting("buildk.home:", self.home.as_str());
        let m = self.manifest.display(kotlin_home);
        concat(h.as_str(), m.as_str())
    }
}

impl crate::config::layout::Kotlin {
    /// The Kotlin installation as the configuration shows it.
    pub fn display(&self) -> (res: String)
        ensures
            res@ == setting_line("kotlin.path:"@, self.path@),
    {
        setting("kotlin.path:", self.path.as_str())
    }
}

} // verus!
