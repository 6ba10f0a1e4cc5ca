//! Artifacts named by their group, artifact id and version, as Gradle and
//! Maven descriptors declare them, gathered into ordered sets without
//! repeats.
use vstd::prelude::*;

use crate::gradle::{Component, Dep, Descriptor, Variant, Version, VersionKind};
use crate::maven::{
    artifact_views, deps_of, interpolate, interpolate_spec, managed_of, parse_deps, parse_managed_deps,
    parse_props, props_of, property_views, Artifact, ArtifactView,
};
use crate::order::{compare_str, lemma_lex_order_basic, lemma_lex_order_transitive, lex_order};
use crate::text::{owned, str_eq};
use crate::xml::{child_element, find_child, node_views, parse_xml, xml_document, XmlNode, XmlNodeView};

verus! {

/// Whether an artifact is needed to compile and run, or only for tests.
#[derive(Clone, Copy, Debug, PartialEq, Eq, Structural)]
pub enum Kind {
    Compile,
    Test,
}

/// An artifact: its group, its id, its version, and its kind.
#[derive(Clone, Debug)]
pub struct Dependency {
    pub group: String,
    pub artifact: String,
    pub version: String,
    pub kind: Kind,
}

/// The mathematical value of an artifact.
pub struct DependencyView {
    pub group: Seq<char>,
    pub artifact: Seq<char>,
    pub version: Seq<char>,
    pub kind: Kind,
}

impl View for Dependency {
    type V = DependencyView;

    open spec fn view(&self) -> DependencyView {
        DependencyView { group: self.group@, artifact: self.artifact@, version: self.version@, kind: self.kind }
    }
}

/// The views of a sequence of artifacts.
pub open spec fn dependency_views(v: Seq<Dependency>) -> Seq<DependencyView> {
    v.map_values(|d: Dependency| d@)
}

/// The order artifacts are kept in: by group, id and version, each compared
/// lexicographically, then compile before test (the derived order).
pub open spec fn dependency_order(a: DependencyView, b: DependencyView) -> int {
    if lex_order(a.group, b.group) != 0 {
        lex_order(a.group, b.group)
    } else if lex_order(a.artifact, b.artifact) != 0 {
        lex_order(a.artifact, b.artifact)
    } else if lex_order(a.version, b.version) != 0 {
        lex_order(a.version, b.version)
    } else if a.kind == b.kind {
        0
    } else if a.kind == Kind::Compile {
        -1
    } else {
        1
    }
}

/// The artifacts are in strictly increasing order, so none repeats.
pub open spec fn strictly_sorted(s: Seq<DependencyView>) -> bool {
    forall|i: int, j: int| 0 <= i < j < s.len() ==> dependency_order(s[i], s[j]) < 0
}

/// `dependency_order` is -1, 0 or 1, zero exactly on equal artifacts, and
/// flips sign when its arguments are swapped.
pub proof fn lemma_dependency_order_basic(a: DependencyView, b: DependencyView)
    ensures
        dependency_order(a, b) == 0 || dependency_order(a, b) == 1 || dependency_order(a, b) == -1,
        dependency_order(a, b) == 0 <==> a == b,
        dependency_order(a, b) == -dependency_order(b, a),
{
    lemma_lex_order_basic(a.group, b.group);
    lemma_lex_order_basic(a.artifact, b.artifact);
    lemma_lex_order_basic(a.version, b.version);
}

/// `dependency_order` orders transitively.
pub proof fn lemma_dependency_order_transitive(a: DependencyView, b: DependencyView, c: DependencyView)
    requires
        dependency_order(a, b) < 0,
        dependency_order(b, c) < 0,
    ensures
        dependency_order(a, c) < 0,
{
    lemma_lex_order_basic(a.group, b.group);
    lemma_lex_order_basic(b.group, c.group);
    lemma_lex_order_basic(a.group, c.group);
    lemma_lex_order_basic(a.artifact, b.artifact);
    lemma_lex_order_basic(b.artifact, c.artifact);
    lemma_lex_order_basic(a.artifact, c.artifact);
    lemma_lex_order_basic(a.version, b.version);
    lemma_lex_order_basic(b.version, c.version);
    lemma_lex_order_basic(a.version, c.version);
    if lex_order(a.group, b.group) < 0 && lex_order(b.group, c.group) < 0 {
        lemma_lex_order_transitive(a.group, b.group, c.group);
    }
    if lex_order(a.artifact, b.artifact) < 0 && lex_order(b.artifact, c.artifact) < 0 {
        lemma_lex_order_transitive(a.artifact, b.artifact, c.artifact);
    }
    if lex_order(a.version, b.version) < 0 && lex_order(b.version, c.version) < 0 {
        lemma_lex_order_transitive(a.version, b.version, c.version);
    }
}

impl Dependency {
    /// The artifact `group:artifact:version` of kind `kind`.
    pub fn new(group: String, artifact: String, version: String, kind: Kind) -> (res: Dependency)
        ensures
            res.group == group,
            res.artifact == artifact,
            res.version == version,
            res.kind == kind,
    {
        Dependency { group, artifact, version, kind }
    }

    /// Compares two artifacts in the order they are kept in.
    pub fn compare(&self, other: &Dependency) -> (res: i8)
        ensures
            res as int == dependency_order(self@, other@),
    {
        let c = compare_str(self.group.as_str(), other.group.as_str());
        if c != 0 {
            return c;
        }
        let c = compare_str(self.artifact.as_str(), other.artifact.as_str());
        if c != 0 {
            return c;
        }
        let c = compare_str(self.version.as_str(), other.version.as_str());
        if c != 0 {
            return c;
        }
        if self.kind == other.kind {
            0
        } else if self.kind == Kind::Compile {
            -1
        } else {
            1
        }
    }
}

/// Adds an artifact to a strictly sorted set of artifacts, keeping it
/// strictly sorted (`BTreeSet::insert`).
pub fn insert_sorted(set: &mut Vec<Dependency>, d: Dependency)
    requires
        strictly_sorted(dependency_views(old(set)@)),
    ensures
        strictly_sorted(dependency_views(final(set)@)),
        dependency_views(final(set)@).to_set() == dependency_views(old(set)@).to_set().insert(d@),
{
    let ghost old_views = dependency_views(set@);
    let mut i: usize = 0;
    while i < set.len()
        invariant
            old_views == dependency_views(set@),
            strictly_sorted(old_views),
            i <= set@.len(),
            forall|k: int| 0 <= k < i ==> dependency_order(old_views[k], d@) < 0,
        ensures
            i <= set@.len(),
            old_views == dependency_views(set@),
            forall|k: int| 0 <= k < i ==> dependency_order(old_views[k], d@) < 0,
            i < set@.len() ==> dependency_order(old_views[i as int], d@) > 0,
        decreases set@.len() - i,
    {
        let c = set[i].compare(&d);
        if c == 0 {
            proof {
                lemma_dependency_order_basic(set@[i as int]@, d@);
                assert(old_views[i as int] == d@);
                assert(old_views.to_set().insert(d@) =~= old_views.to_set());
            }
            return;
        }
        if c > 0 {
            break;
        }
        i = i + 1;
    }
    let ghost idx = i as int;
    set.insert(i, d);
    proof {
        let nv = dependency_views(set@);
        assert(nv =~= old_views.take(idx).push(d@) + old_views.skip(idx));
        assert forall|a: int, b: int| 0 <= a < b < nv.len() implies dependency_order(nv[a], nv[b]) < 0 by {
            if b < idx {
                assert(nv[a] == old_views[a] && nv[b] == old_views[b]);
            } else if b == idx {
                assert(nv[a] == old_views[a]);
            } else if a == idx {
                assert(nv[b] == old_views[b - 1]);
                lemma_dependency_order_basic(old_views[idx], d@);
                if b - 1 > idx {
                    lemma_dependency_order_basic(old_views[idx], old_views[b - 1]);
                    lemma_dependency_order_transitive(d@, old_views[idx], old_views[b - 1]);
                }
            } else if a < idx {
                assert(nv[a] == old_views[a]);
                assert(nv[b] == old_views[b - 1]);
            } else {
                assert(nv[a] == old_views[a - 1]);
                assert(nv[b] == old_views[b - 1]);
            }
        }
        assert forall|x: DependencyView| nv.to_set().contains(x) <==> old_views.to_set().insert(
            d@,
        ).contains(x) by {
            if nv.contains(x) {
                let k = choose|k: int| 0 <= k < nv.len() && nv[k] == x;
                if k < idx {
                    assert(old_views[k] == x);
                } else if k > idx {
                    assert(old_views[k - 1] == x);
                }
            }
            if old_views.contains(x) {
                let k = choose|k: int| 0 <= k < old_views.len() && old_views[k] == x;
                if k < idx {
                    assert(nv[k] == x);
                } else {
                    assert(nv[k + 1] == x);
                }
            }
            if x == d@ {
                assert(nv[idx] == x);
            }
        }
        assert(nv.to_set() =~= old_views.to_set().insert(d@));
    }
}

/// The artifacts of a list gathered into a strictly sorted set.
fn set_of(list: Vec<Dependency>) -> (res: Vec<Dependency>)
    ensures
        strictly_sorted(dependency_views(res@)),
        dependency_views(res@).to_set() == dependency_views(list@).to_set(),
{
    let ghost lv = dependency_views(list@);
    let mut set: Vec<Dependency> = Vec::new();
    let mut i: usize = 0;
    proof {
        assert(dependency_views(set@).to_set() =~= lv.take(0).to_set());
    }
    while i < list.len()
        invariant
            lv == dependency_views(list@),
            i <= list@.len(),
            strictly_sorted(dependency_views(set@)),
            dependency_views(set@).to_set() == lv.take(i as int).to_set(),
        decreases list@.len() - i,
    {
        let d = list[i].clone_dependency();
        insert_sorted(&mut set, d);
        proof {
            assert(lv.take(i + 1) =~= lv.take(i as int).push(list@[i as int]@));
            lv.take(i as int).lemma_push_to_set_commute(list@[i as int]@);
        }
        i = i + 1;
    }
    proof {
        assert(lv.take(i as int) =~= lv);
    }
    set
}

impl Dependency {
    /// A copy of the artifact.
    pub fn clone_dependency(&self) -> (res: Dependency)
        ensures
            res == *self,
    {
        Dependency {
            group: self.group.clone(),
            artifact: self.artifact.clone(),
            version: self.version.clone(),
            kind: self.kind,
        }
    }
}

// ---------------------------------------------------------------------------
// Maven scopes
// ---------------------------------------------------------------------------

/// The scope of a dependency in a Maven descriptor.
#[derive(Clone, Copy, Debug, PartialEq, Eq, Structural)]
pub enum Scope {
    /// Available at compile time and at run time (the default).
    Compile,
    /// Available at compile time only, but still required at run time.
    Provided,
    /// Only available at run time.
    Runtime,
    /// Only available when compiling and running tests.
    Test,
    /// Required at compile time and run time, but not part of the project.
    System,
}

/// The scope a text names; the default, compile, for any other text.
pub open spec fn scope_of(s: Seq<char>) -> Scope {
    if s == "compile"@ {
        Scope::Compile
    } else if s == "provided"@ {
        Scope::Provided
    } else if s == "runtime"@ {
        Scope::Runtime
    } else if s == "test"@ {
        Scope::Test
    } else if s == "system"@ {
        Scope::System
    } else {
        Scope::Compile
    }
}

/// The kind of artifact a scope makes: test for the test scope, compile for
/// every other.
pub open spec fn scope_kind(s: Scope) -> Kind {
    match s {
        Scope::Test => Kind::Test,
        _ => Kind::Compile,
    }
}

impl Scope {
    /// The scope a text names.
    pub fn from_text(s: &str) -> (res: Scope)
        ensures
            res == scope_of(s@),
    {
        if str_eq(s, "compile") {
            Scope::Compile
        } else if str_eq(s, "provided") {
            Scope::Provided
        } else if str_eq(s, "runtime") {
            Scope::Runtime
        } else if str_eq(s, "test") {
            Scope::Test
        } else if str_eq(s, "system") {
            Scope::System
        } else {
            Scope::Compile
        }
    }

    /// The kind of artifact the scope makes.
    pub fn kind(self) -> (res: Kind)
        ensures
            res == scope_kind(self),
    {
        match self {
            Scope::Test => Kind::Test,
            _ => Kind::Compile,
        }
    }

    /// The scope as text: `runtime` for the runtime scope,
    /// `compile` for every other.
    pub fn text(self) -> (res: String)
        ensures
            res@ == (if self == Scope::Runtime {
                "runtime"@
            } else {
                "compile"@
            }),
    {
        match self {
            Scope::Runtime => owned("runtime"),
            _ => owned("compile"),
        }
    }
}

impl Default for Scope {
    fn default() -> (res: Scope)
        ensures
            res == Scope::Compile,
    {
        Scope::Compile
    }
}

// ---------------------------------------------------------------------------
// Gradle module descriptors
// ---------------------------------------------------------------------------

/// The version of a dependency (`String::from(Version)`): what `requires`
/// names when it names one version; else what `prefers` names, the first of
/// a list; none otherwise.
pub open spec fn first_version(v: Version) -> Option<Seq<char>> {
    match v.requires {
        Some(VersionKind::Single(s)) => Some(s@),
        _ => match v.prefers {
            Some(VersionKind::Single(s)) => Some(s@),
            Some(VersionKind::Array(vs)) => if vs@.len() > 0 {
                Some(vs@[0]@)
            } else {
                None
            },
            None => None,
        },
    }
}

/// The version of a dependency.
fn version_of(v: &Version) -> (res: Option<String>)
    ensures
        match res {
            Some(s) => first_version(*v) == Some(s@),
            None => first_version(*v) is None,
        },
{
    if let Some(VersionKind::Single(s)) = &v.requires {
        return Some(s.clone());
    }
    match &v.prefers {
        Some(VersionKind::Single(s)) => Some(s.clone()),
        Some(VersionKind::Array(vs)) => {
            if vs.len() > 0 {
                Some(vs[0].clone())
            } else {
                None
            }
        },
        None => None,
    }
}

/// The artifacts a list of Gradle dependencies names, all for compiling, or
/// `None` when one names no version.
pub open spec fn gradle_deps_named(ds: Seq<Dep>) -> Option<Seq<DependencyView>>
    decreases ds.len(),
{
    if ds.len() == 0 {
        Some(Seq::empty())
    } else {
        match (gradle_deps_named(ds.drop_last()), first_version(ds.last().version)) {
            (Some(prefix), Some(v)) => Some(
                prefix.push(
                    DependencyView { group: ds.last().group@, artifact: ds.last().module@, version: v, kind: Kind::Compile },
                ),
            ),
            _ => None,
        }
    }
}

/// The artifacts the dependencies of the variants name, variant by variant.
pub open spec fn gradle_variants_named(vs: Seq<Variant>) -> Option<Seq<DependencyView>>
    decreases vs.len(),
{
    if vs.len() == 0 {
        Some(Seq::empty())
    } else {
        let last = match vs.last().dependencies {
            Some(ds) => gradle_deps_named(ds@),
            None => Some(Seq::empty()),
        };
        match (gradle_variants_named(vs.drop_last()), last) {
            (Some(a), Some(b)) => Some(a + b),
            _ => None,
        }
    }
}

/// The artifacts a Gradle descriptor names, in order: its component, then
/// the dependencies of its variants. `None` when a dependency names no
/// version.
pub open spec fn gradle_named(d: Descriptor) -> Option<Seq<DependencyView>> {
    let own: Seq<DependencyView> = match d.component {
        Some(c) => seq![DependencyView { group: c.group@, artifact: c.module@, version: c.version@, kind: Kind::Compile }],
        None => Seq::empty(),
    };
    match gradle_variants_named(d.variants@) {
        Some(ds) => Some(own + ds),
        None => None,
    }
}

/// The artifacts of the dependencies in order, or `None` at the first
/// without a version.
fn gradle_deps_list(ds: &Vec<Dep>, list: &mut Vec<Dependency>) -> (ok: bool)
    ensures
        ok <==> gradle_deps_named(ds@) is Some,
        ok ==> dependency_views(final(list)@) == dependency_views(old(list)@) + gradle_deps_named(ds@)->0,
    decreases ds@.len(),
{
    let ghost start = dependency_views(list@);
    let mut j: usize = 0;
    while j < ds.len()
        invariant
            j <= ds@.len(),
            gradle_deps_named(ds@.take(j as int)) matches Some(named) && dependency_views(list@) == start + named,
        decreases ds@.len() - j,
    {
        let dep = &ds[j];
        proof {
            assert(ds@.take(j + 1).drop_last() =~= ds@.take(j as int));
            assert(ds@.take(j + 1).last() == *dep);
        }
        match version_of(&dep.version) {
            Some(v) => {
                let ghost before = dependency_views(list@);
                let d = Dependency::new(dep.group.clone(), dep.module.clone(), v, Kind::Compile);
                list.push(d);
                proof {
                    assert(dependency_views(list@) =~= before.push(d@));
                }
            },
            None => {
                proof {
                    assert(gradle_deps_named(ds@.take(j + 1)) is None);
                    lemma_gradle_deps_none(ds@, j + 1);
                }
                return false;
            },
        }
        j = j + 1;
    }
    proof {
        assert(ds@.take(j as int) =~= ds@);
    }
    true
}

/// Once a prefix of the dependencies names no version, the whole list does not.
proof fn lemma_gradle_deps_none(ds: Seq<Dep>, k: int)
    requires
        0 <= k <= ds.len(),
        gradle_deps_named(ds.take(k)) is None,
    ensures
        gradle_deps_named(ds) is None,
    decreases ds.len() - k,
{
    if k < ds.len() {
        assert(ds.take(k + 1).drop_last() =~= ds.take(k));
        lemma_gradle_deps_none(ds, k + 1);
    } else {
        assert(ds.take(k) =~= ds);
    }
}

/// Once a prefix of the variants names no version, all of them do not.
proof fn lemma_gradle_variants_none(vs: Seq<Variant>, k: int)
    requires
        0 <= k <= vs.len(),
        gradle_variants_named(vs.take(k)) is None,
    ensures
        gradle_variants_named(vs) is None,
    decreases vs.len() - k,
{
    if k < vs.len() {
        assert(vs.take(k + 1).drop_last() =~= vs.take(k));
        lemma_gradle_variants_none(vs, k + 1);
    } else {
        assert(vs.take(k) =~= vs);
    }
}

/// The set of artifacts a Gradle descriptor names,
/// strictly sorted; `None` where a
/// dependency names no version.
pub fn gradle_dependencies(d: &Descriptor) -> (res: Option<Vec<Dependency>>)
    ensures
        match res {
            Some(set) => gradle_named(*d) matches Some(named) && strictly_sorted(dependency_views(set@))
                && dependency_views(set@).to_set() == named.to_set(),
            None => gradle_named(*d) is None,
        },
{
    let mut list: Vec<Dependency> = Vec::new();
    match &d.component {
        Some(c) => {
            list.push(Dependency::new(c.group.clone(), c.module.clone(), c.version.clone(), Kind::Compile));
        },
        None => {},
    }
    let ghost own = dependency_views(list@);
    proof {
        assert(own =~= match d.component {
            Some(c) => seq![DependencyView { group: c.group@, artifact: c.module@, version: c.version@, kind: Kind::Compile }],
            None => Seq::<DependencyView>::empty(),
        });
    }
    let mut i: usize = 0;
    while i < d.variants.len()
        invariant
            i <= d.variants@.len(),
            own == match d.component {
                Some(c) => seq![DependencyView { group: c.group@, artifact: c.module@, version: c.version@, kind: Kind::Compile }],
                None => Seq::<DependencyView>::empty(),
            },
            gradle_variants_named(d.variants@.take(i as int)) matches Some(vn) && dependency_views(list@) == own + vn,
        decreases d.variants@.len() - i,
    {
        let variant = &d.variants[i];
        proof {
            assert(d.variants@.take(i + 1).drop_last() =~= d.variants@.take(i as int));
            assert(d.variants@.take(i + 1).last() == *variant);
        }
        match &variant.dependencies {
            Some(ds) => {
                let ghost before = dependency_views(list@);
                if !gradle_deps_list(ds, &mut list) {
                    proof {
                        assert(gradle_variants_named(d.variants@.take(i + 1)) is None);
                        lemma_gradle_variants_none(d.variants@, i + 1);
                    }
                    return None;
                }
                proof {
                    assert(dependency_views(list@) =~= own + gradle_variants_named(d.variants@.take(i + 1))->0);
                }
            },
            None => {
                proof {
                    assert(dependency_views(list@) =~= own + gradle_variants_named(d.variants@.take(i + 1))->0);
                }
            },
        }
        i = i + 1;
    }
    proof {
        assert(d.variants@.take(i as int) =~= d.variants@);
    }
    Some(set_of(list))
}

/// Reads Gradle module descriptors into sets of artifacts.
pub struct GradleParser;

impl GradleParser {
    /// The set of artifacts a read descriptor names. Only format 1.1 is
    /// understood: any other format yields no artifacts. `None` where a
    /// dependency names no version.
    pub fn parse(d: &Descriptor) -> (res: Option<Vec<Dependency>>)
        ensures
            d.format_version@ != "1.1"@ ==> (res matches Some(s) && s@.len() == 0),
            d.format_version@ == "1.1"@ ==> match res {
                Some(set) => gradle_named(*d) matches Some(named) && strictly_sorted(dependency_views(set@))
                    && dependency_views(set@).to_set() == named.to_set(),
                None => gradle_named(*d) is None,
            },
    {
        if !str_eq(d.format_version.as_str(), "1.1") {
            return Some(Vec::new());
        }
        gradle_dependencies(d)
    }
}

// ---------------------------------------------------------------------------
// Maven descriptors
// ---------------------------------------------------------------------------

/// The artifact a Maven artifact with a version is: its kind by its scope.
pub open spec fn maven_artifact(a: ArtifactView) -> DependencyView {
    DependencyView { group: a.group, artifact: a.artifact, version: a.version->0, kind: scope_kind(scope_of(a.scope)) }
}

/// The artifacts among `arts`, once interpolated, that have a version.
pub open spec fn versioned(arts: Seq<ArtifactView>, props: Seq<(Seq<char>, Seq<char>)>) -> Seq<DependencyView>
    decreases arts.len(),
{
    if arts.len() == 0 {
        Seq::empty()
    } else {
        let prefix = versioned(arts.drop_last(), props);
        let a = interpolate_spec(arts.last(), props);
        if a.version is Some {
            prefix.push(maven_artifact(a))
        } else {
            prefix
        }
    }
}

/// The artifacts a Maven descriptor names: its dependencies and its managed
/// dependencies that have a version. `None` when the document has no
/// `<project>`, a property does not resolve, or a dependency lacks a group or
/// artifact id.
pub open spec fn maven_named(doc: Seq<XmlNodeView>) -> Option<Seq<DependencyView>> {
    if doc.len() == 0 {
        None
    } else {
        match child_element(doc, doc[0].id, "project"@) {
            None => None,
            Some(p) => {
                let project = doc[p].id;
                match (props_of(doc, project), deps_of(doc, project), managed_of(doc, project)) {
                    (Some(props), Some(deps), Some(managed)) => Some(
                        versioned(deps, props) + versioned(managed, props),
                    ),
                    _ => None,
                }
            },
        }
    }
}

/// Appends the artifacts of `arts` that have a version once interpolated.
fn push_versioned(list: &mut Vec<Dependency>, arts: &Vec<Artifact>, props: &Vec<(String, String)>)
    ensures
        dependency_views(final(list)@) == dependency_views(old(list)@) + versioned(
            artifact_views(arts@),
            property_views(props@),
        ),
{
    let ghost start = dependency_views(list@);
    let ghost av = artifact_views(arts@);
    let ghost pv = property_views(props@);
    let interpolated = interpolate(arts, props);
    let mut i: usize = 0;
    while i < interpolated.len()
        invariant
            av == artifact_views(arts@),
            pv == property_views(props@),
            interpolated@.len() == arts@.len(),
            forall|k: int|
                0 <= k < arts@.len() ==> #[trigger] interpolated@[k]@ == interpolate_spec(arts@[k]@, pv),
            i <= interpolated@.len(),
            dependency_views(list@) == start + versioned(av.take(i as int), pv),
        decreases interpolated@.len() - i,
    {
        proof {
            assert(av.take(i + 1).drop_last() =~= av.take(i as int));
            assert(av.take(i + 1).last() == arts@[i as int]@);
            assert(interpolated@[i as int]@ == interpolate_spec(arts@[i as int]@, pv));
        }
        let a = &interpolated[i];
        match &a.version {
            Some(v) => {
                let kind = Scope::from_text(a.scope.as_str()).kind();
                let d = Dependency::new(a.group.clone(), a.artifact.clone(), v.clone(), kind);
                let ghost before = dependency_views(list@);
                list.push(d);
                proof {
                    assert(dependency_views(list@) =~= before.push(d@));
                }
            },
            None => {},
        }
        i = i + 1;
    }
    proof {
        assert(av.take(i as int) =~= av);
    }
}

/// Reads Maven descriptors (POM files) into sets of artifacts.
pub struct MavenParser;

impl MavenParser {
    /// The set of artifacts the text of a descriptor names, strictly
    /// sorted; `None` when the text is not XML or the descriptor is not
    /// understood (see `maven_named`).
    pub fn parse(text: &str) -> (res: Option<Vec<Dependency>>)
        ensures
            match res {
                Some(set) => xml_document(text@) matches Some(doc) && maven_named(doc) matches Some(named)
                    && strictly_sorted(dependency_views(set@)) && dependency_views(set@).to_set()
                    == named.to_set(),
                None => xml_document(text@) is None || (xml_document(text@) matches Some(doc) && maven_named(
                    doc,
                ) is None),
            },
    {
        let doc = match parse_xml(text) {
            Some(doc) => doc,
            None => {
                return None;
            },
        };
        if doc.len() == 0 {
            return None;
        }
        proof {
            assert(node_views(doc@)[0] == doc@[0]@);
        }
        let project = match find_child(&doc, doc[0].id, "project", true) {
            None => {
                return None;
            },
            Some(p) => doc[p].id,
        };
        let props = match parse_props(&doc, project) {
            Some(p) => p,
            None => {
                return None;
            },
        };
        let deps = match parse_deps(&doc, project) {
            Some(d) => d,
            None => {
                return None;
            },
        };
        let managed = match parse_managed_deps(&doc, project) {
            Some(m) => m,
            None => {
                return None;
            },
        };
        let mut list: Vec<Dependency> = Vec::new();
        push_versioned(&mut list, &deps, &props);
        push_versioned(&mut list, &managed, &props);
        proof {
            assert(dependency_views(list@) =~= versioned(artifact_views(deps@), property_views(props@)) + versioned(
                artifact_views(managed@),
                property_views(props@),
            ));
        }
        Some(set_of(list))
    }
}

} // verus!
