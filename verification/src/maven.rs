//! Maven descriptors (POM files): their properties, the artifacts they
//! depend on, `${...}` interpolation of versions, and the set of packages of
//! one kind that a descriptor names.
use vstd::prelude::*;

use crate::package::{
    insert_sorted, opt_view, package_location, package_views, strictly_sorted, Package,
    PackageKind, PackageView,
};
use crate::text::{
    contains, contains_seq, owned, remove_surrounding, remove_surrounding_spec, str_eq,
    substr_after, substr_after_spec,
};
use crate::xml::{
    child_element, child_text, find_child, find_child_from, find_child_text, node_views,
    parse_xml, xml_document, XmlNode, XmlNodeView,
};

verus! {

/// A dependency as a Maven descriptor declares it; the version may be a
/// `${property}` reference or missing.
#[derive(Clone, Debug)]
pub struct Artifact {
    pub group: String,
    pub artifact: String,
    pub version: Option<String>,
    pub scope: String,
}

/// The mathematical value of an artifact.
pub struct ArtifactView {
    pub group: Seq<char>,
    pub artifact: Seq<char>,
    pub version: Option<Seq<char>>,
    pub scope: Seq<char>,
}

impl View for Artifact {
    type V = ArtifactView;

    open spec fn view(&self) -> ArtifactView {
        ArtifactView {
            group: self.group@,
            artifact: self.artifact@,
            version: opt_view(self.version),
            scope: self.scope@,
        }
    }
}

/// The views of a list of artifacts.
pub open spec fn artifact_views(v: Seq<Artifact>) -> Seq<ArtifactView> {
    v.map_values(|a: Artifact| a@)
}

/// The views of a list of properties.
pub open spec fn property_views(v: Seq<(String, String)>) -> Seq<(Seq<char>, Seq<char>)> {
    v.map_values(|p: (String, String)| (p.0@, p.1@))
}

/// The kind of package a Maven scope makes: `test` is for tests, `provided`
/// and `runtime` are for run time, everything else for compilation.
pub open spec fn scope_kind(scope: Seq<char>) -> PackageKind {
    if scope == "test"@ {
        PackageKind::Test
    } else if scope == "provided"@ || scope == "runtime"@ {
        PackageKind::Runtime
    } else {
        PackageKind::Compile
    }
}

/// The property a `${name}` reference names: the text after the first `$`
/// without its surrounding braces.
pub open spec fn property_reference(v: Seq<char>) -> Seq<char> {
    remove_surrounding_spec(substr_after_spec(v, '$'), '{', '}')
}

/// Resolves a property value within the `<properties>` node `props`: a value
/// holding `${` refers to the child of `props` named by the reference and
/// resolves to what that child's text resolves to; a value without `${`, or
/// one whose reference names no child, stands for itself. `None` when a
/// referenced child has no text, or when more than `fuel` references are
/// followed.
pub open spec fn resolve_spec(doc: Seq<XmlNodeView>, props: usize, value: Seq<char>, fuel: nat) -> Option<
    Seq<char>,
>
    decreases fuel,
{
    if !contains_seq(value, "${"@) {
        Some(value)
    } else {
        match find_child_from(doc, props, property_reference(value), false, 0) {
            None => Some(value),
            Some(j) => match doc[j].text {
                None => None,
                Some(t) => if fuel == 0 {
                    None
                } else {
                    resolve_spec(doc, props, t, (fuel - 1) as nat)
                },
            },
        }
    }
}

/// The number of references resolution may follow in `doc`: one per node.
/// (A longer chain of references must revisit a node, and then never ends.)
pub open spec fn resolution_fuel(doc: Seq<XmlNodeView>) -> nat {
    doc.len()
}

/// The properties among the first `n` nodes: every child element of the
/// `<properties>` node `props` that has text, as its tag and resolved value,
/// in document order; `None` when a value does not resolve.
pub open spec fn props_upto(doc: Seq<XmlNodeView>, props: usize, n: int) -> Option<
    Seq<(Seq<char>, Seq<char>)>,
>
    decreases n,
{
    if n <= 0 {
        Some(Seq::empty())
    } else {
        match props_upto(doc, props, n - 1) {
            None => None,
            Some(acc) => {
                let x = doc[n - 1];
                if x.parent == Some(props) && x.element && x.text is Some {
                    match resolve_spec(doc, props, x.text->0, resolution_fuel(doc)) {
                        Some(v) => Some(acc.push((x.tag, v))),
                        None => None,
                    }
                } else {
                    Some(acc)
                }
            },
        }
    }
}

/// The properties declared under the node `node` (none without a
/// `<properties>` child).
pub open spec fn props_of(doc: Seq<XmlNodeView>, node: usize) -> Option<Seq<(Seq<char>, Seq<char>)>> {
    match child_element(doc, node, "properties"@) {
        None => Some(Seq::empty()),
        Some(j) => props_upto(doc, doc[j].id, doc.len() as int),
    }
}

/// The value of the last property named `key` (later declarations win).
pub open spec fn lookup_spec(props: Seq<(Seq<char>, Seq<char>)>, key: Seq<char>) -> Option<Seq<char>>
    decreases props.len(),
{
    if props.len() == 0 {
        None
    } else if props.last().0 == key {
        Some(props.last().1)
    } else {
        lookup_spec(props.drop_last(), key)
    }
}

/// The artifact with a `${...}` version replaced by the property it names,
/// where that property is declared.
pub open spec fn interpolate_spec(a: ArtifactView, props: Seq<(Seq<char>, Seq<char>)>) -> ArtifactView {
    match a.version {
        Some(v) => if contains_seq(v, "${"@) {
            match lookup_spec(props, property_reference(v)) {
                Some(x) => ArtifactView { version: Some(x), ..a },
                None => a,
            }
        } else {
            a
        },
        None => a,
    }
}

/// The artifact a `<dependency>` node declares; `None` without a group or
/// an artifact id. The scope defaults to `compile`.
pub open spec fn artifact_of(doc: Seq<XmlNodeView>, node: usize) -> Option<ArtifactView> {
    match (child_text(doc, node, "groupId"@), child_text(doc, node, "artifactId"@)) {
        (Some(g), Some(a)) => Some(
            ArtifactView {
                group: g,
                artifact: a,
                version: child_text(doc, node, "version"@),
                scope: match child_text(doc, node, "scope"@) {
                    Some(s) => s,
                    None => "compile"@,
                },
            },
        ),
        _ => None,
    }
}

/// The artifacts declared by the `<dependency>` children of the node `deps`
/// among the first `n` nodes, in document order.
pub open spec fn artifacts_upto(doc: Seq<XmlNodeView>, deps: usize, n: int) -> Option<Seq<ArtifactView>>
    decreases n,
{
    if n <= 0 {
        Some(Seq::empty())
    } else {
        match artifacts_upto(doc, deps, n - 1) {
            None => None,
            Some(acc) => {
                let x = doc[n - 1];
                if x.parent == Some(deps) && x.element && x.tag == "dependency"@ {
                    match artifact_of(doc, x.id) {
                        Some(a) => Some(acc.push(a)),
                        None => None,
                    }
                } else {
                    Some(acc)
                }
            },
        }
    }
}

/// The artifacts declared in the `<dependencies>` child of the node `node`.
pub open spec fn deps_of(doc: Seq<XmlNodeView>, node: usize) -> Option<Seq<ArtifactView>> {
    match child_element(doc, node, "dependencies"@) {
        None => Some(Seq::empty()),
        Some(j) => artifacts_upto(doc, doc[j].id, doc.len() as int),
    }
}

/// The artifacts declared under `<dependencyManagement>` in the node `node`.
pub open spec fn managed_of(doc: Seq<XmlNodeView>, node: usize) -> Option<Seq<ArtifactView>> {
    match child_element(doc, node, "dependencyManagement"@) {
        None => Some(Seq::empty()),
        Some(j) => deps_of(doc, doc[j].id),
    }
}

/// The package an artifact with a version is.
pub open spec fn artifact_package(a: ArtifactView, cache: Seq<char>) -> PackageView {
    PackageView {
        name: a.artifact,
        namespace: Some(a.group),
        version: a.version->0,
        kind: scope_kind(a.scope),
        location: package_location(cache, a.artifact, Some(a.group), a.version->0),
    }
}

/// The packages of kind `kind` among the artifacts, once interpolated:
/// those with a version and a scope of that kind.
pub open spec fn selected(
    arts: Seq<ArtifactView>,
    props: Seq<(Seq<char>, Seq<char>)>,
    kind: PackageKind,
    cache: Seq<char>,
) -> Seq<PackageView>
    decreases arts.len(),
{
    if arts.len() == 0 {
        Seq::empty()
    } else {
        let prefix = selected(arts.drop_last(), props, kind, cache);
        let a = interpolate_spec(arts.last(), props);
        if a.version is Some && scope_kind(a.scope) == kind {
            prefix.push(artifact_package(a, cache))
        } else {
            prefix
        }
    }
}

/// The packages of kind `kind` that a descriptor names: its dependencies and
/// its managed dependencies. `None` when the document has no `<project>`,
/// a property does not resolve, or a dependency lacks a group or artifact id.
pub open spec fn pom_packages(doc: Seq<XmlNodeView>, kind: PackageKind, cache: Seq<char>) -> Option<
    Seq<PackageView>,
> {
    if doc.len() == 0 {
        None
    } else {
        match child_element(doc, doc[0].id, "project"@) {
            None => None,
            Some(p) => {
                let project = doc[p].id;
                match (props_of(doc, project), deps_of(doc, project), managed_of(doc, project)) {
                    (Some(props), Some(deps), Some(managed)) => Some(
                        selected(deps, props, kind, cache) + selected(managed, props, kind, cache),
                    ),
                    _ => None,
                }
            },
        }
    }
}

/// The kind of package a Maven scope makes.
pub fn kind_of_scope(scope: &str) -> (res: PackageKind)
    ensures
        res == scope_kind(scope@),
{
    if str_eq(scope, "test") {
        PackageKind::Test
    } else if str_eq(scope, "provided") || str_eq(scope, "runtime") {
        PackageKind::Runtime
    } else {
        PackageKind::Compile
    }
}

/// The property a `${name}` reference names.
pub fn reference_of(value: &str) -> (res: String)
    ensures
        res@ == property_reference(value@),
{
    let after = substr_after(value, '$');
    remove_surrounding(after.as_str(), '{', '}')
}

/// Resolves a property value within the `<properties>` node `props`
/// (following references, at most one per node).
pub fn resolve_property(doc: &Vec<XmlNode>, props: usize, start: String) -> (res: Option<String>)
    ensures
        opt_view(res) == resolve_spec(
            node_views(doc@),
            props,
            start@,
            resolution_fuel(node_views(doc@)),
        ),
{
    let ghost d = node_views(doc@);
    let mut value = start;
    let mut fuel: usize = doc.len();
    assert(d.len() == doc@.len());
    let ghost target = resolve_spec(d, props, value@, resolution_fuel(d));
    loop
        invariant
            d == node_views(doc@),
            target == resolve_spec(d, props, value@, fuel as nat),
            target == resolve_spec(d, props, start@, resolution_fuel(d)),
        decreases fuel,
    {
        if !contains(value.as_str(), "${") {
            return Some(value);
        }
        let reference = reference_of(value.as_str());
        match find_child(doc, props, reference.as_str(), false) {
            None => {
                return Some(value);
            },
            Some(j) => {
                proof {
                    assert(d[j as int] == doc@[j as int]@);
                }
                match &doc[j].text {
                    None => {
                        return None;
                    },
                    Some(t) => {
                        if fuel == 0 {
                            return None;
                        }
                        value = t.clone();
                        fuel = fuel - 1;
                    },
                }
            },
        }
    }
}

/// The properties declared under the `<properties>` child of `node`;
/// `None` when a value does not resolve.
pub fn parse_props(doc: &Vec<XmlNode>, node: usize) -> (res: Option<Vec<(String, String)>>)
    ensures
        match res {
            Some(v) => props_of(node_views(doc@), node) == Some(property_views(v@)),
            None => props_of(node_views(doc@), node) is None,
        },
{
    let ghost d = node_views(doc@);
    let props = match find_child(doc, node, "properties", true) {
        None => {
            return Some(Vec::new());
        },
        Some(j) => {
            proof {
                assert(d[j as int] == doc@[j as int]@);
            }
            doc[j].id
        },
    };
    assert(d.len() == doc@.len());
    let mut res: Vec<(String, String)> = Vec::new();
    let mut i: usize = 0;
    while i < doc.len()
        invariant
            d == node_views(doc@),
            d.len() == doc@.len(),
            props_of(d, node) == props_upto(d, props, d.len() as int),
            i <= doc@.len(),
            props_upto(d, props, i as int) == Some(property_views(res@)),
        decreases doc@.len() - i,
    {
        let x = &doc[i];
        proof {
            assert(d[i as int] == doc@[i as int]@);
        }
        if x.parent == Some(props) && x.element && x.text.is_some() {
            let text = match &x.text {
                Some(t) => t.clone(),
                None => String::new(),
            };
            match resolve_property(doc, props, text) {
                Some(v) => {
                    let ghost before = res@;
                    res.push((x.tag.clone(), v));
                    proof {
                        assert(property_views(res@) =~= property_views(before).push((x.tag@, v@)));
                    }
                },
                None => {
                    proof {
                        assert(props_upto(d, props, i as int + 1) is None);
                        lemma_props_none_extends(d, props, i as int + 1, d.len() as int);
                    }
                    return None;
                },
            }
        }
        i = i + 1;
    }
    Some(res)
}

/// Once the properties among a prefix fail to resolve, so do they among any
/// longer prefix.
proof fn lemma_props_none_extends(doc: Seq<XmlNodeView>, props: usize, k: int, n: int)
    requires
        0 <= k <= n,
        props_upto(doc, props, k) is None,
    ensures
        props_upto(doc, props, n) is None,
    decreases n - k,
{
    if k < n {
        lemma_props_none_extends(doc, props, k, n - 1);
    }
}

/// Once the artifacts among a prefix fail to parse, so do they among any
/// longer prefix.
proof fn lemma_artifacts_none_extends(doc: Seq<XmlNodeView>, deps: usize, k: int, n: int)
    requires
        0 <= k <= n,
        artifacts_upto(doc, deps, k) is None,
    ensures
        artifacts_upto(doc, deps, n) is None,
    decreases n - k,
{
    if k < n {
        lemma_artifacts_none_extends(doc, deps, k, n - 1);
    }
}

/// The value of the last property named `key`.
pub fn lookup(props: &Vec<(String, String)>, key: &str) -> (res: Option<String>)
    ensures
        opt_view(res) == lookup_spec(property_views(props@), key@),
{
    let ghost pv = property_views(props@);
    let mut i: usize = props.len();
    assert(pv.take(i as int) =~= pv);
    while i > 0
        invariant
            pv == property_views(props@),
            i <= props@.len(),
            lookup_spec(pv, key@) == lookup_spec(pv.take(i as int), key@),
        decreases i,
    {
        proof {
            assert(pv.take(i as int).last() == (props@[i - 1].0@, props@[i - 1].1@));
            assert(pv.take(i as int).drop_last() =~= pv.take(i - 1));
        }
        if str_eq(props[i - 1].0.as_str(), key) {
            return Some(props[i - 1].1.clone());
        }
        i = i - 1;
    }
    None
}

impl Artifact {
    /// The artifact with a `${...}` version replaced by the property it
    /// names, where that property is declared.
    pub fn interpolate(&self, props: &Vec<(String, String)>) -> (res: Artifact)
        ensures
            res@ == interpolate_spec(self@, property_views(props@)),
    {
        let copy = Artifact {
            group: self.group.clone(),
            artifact: self.artifact.clone(),
            version: match &self.version {
                Some(v) => Some(v.clone()),
                None => None,
            },
            scope: self.scope.clone(),
        };
        match &self.version {
            Some(v) => {
                if contains(v.as_str(), "${") {
                    let property = reference_of(v.as_str());
                    match lookup(props, property.as_str()) {
                        Some(x) => Artifact { version: Some(x), ..copy },
                        None => copy,
                    }
                } else {
                    copy
                }
            },
            None => copy,
        }
    }
}

/// The artifacts with their versions interpolated.
pub fn interpolate(artifacts: &Vec<Artifact>, props: &Vec<(String, String)>) -> (res: Vec<Artifact>)
    ensures
        res@.len() == artifacts@.len(),
        forall|i: int|
            0 <= i < artifacts@.len() ==> #[trigger] res@[i]@ == interpolate_spec(
                artifacts@[i]@,
                property_views(props@),
            ),
{
    let mut res: Vec<Artifact> = Vec::new();
    let mut i: usize = 0;
    while i < artifacts.len()
        invariant
            i <= artifacts@.len(),
            res@.len() == i,
            forall|k: int|
                0 <= k < i ==> #[trigger] res@[k]@ == interpolate_spec(
                    artifacts@[k]@,
                    property_views(props@),
                ),
        decreases artifacts@.len() - i,
    {
        res.push(artifacts[i].interpolate(props));
        i = i + 1;
    }
    res
}

/// The artifact the `<dependency>` node `node` declares;
/// `None` without a group or artifact id.
pub fn parse_artifact(doc: &Vec<XmlNode>, node: usize) -> (res: Option<Artifact>)
    ensures
        match res {
            Some(a) => artifact_of(node_views(doc@), node) == Some(a@),
            None => artifact_of(node_views(doc@), node) is None,
        },
{
    let group = find_child_text(doc, node, "groupId");
    let artifact = find_child_text(doc, node, "artifactId");
    match (group, artifact) {
        (Some(g), Some(a)) => {
            let version = find_child_text(doc, node, "version");
            let scope = match find_child_text(doc, node, "scope") {
                Some(s) => s,
                None => owned("compile"),
            };
            Some(Artifact { group: g, artifact: a, version, scope })
        },
        _ => None,
    }
}

/// The artifacts declared in the `<dependencies>` child of `node`;
/// `None` when one lacks a group or artifact id.
pub fn parse_deps(doc: &Vec<XmlNode>, node: usize) -> (res: Option<Vec<Artifact>>)
    ensures
        match res {
            Some(v) => deps_of(node_views(doc@), node) == Some(artifact_views(v@)),
            None => deps_of(node_views(doc@), node) is None,
        },
{
    let ghost d = node_views(doc@);
    let deps = match find_child(doc, node, "dependencies", true) {
        None => {
            return Some(Vec::new());
        },
        Some(j) => {
            proof {
                assert(d[j as int] == doc@[j as int]@);
            }
            doc[j].id
        },
    };
    assert(d.len() == doc@.len());
    let mut res: Vec<Artifact> = Vec::new();
    let mut i: usize = 0;
    while i < doc.len()
        invariant
            d == node_views(doc@),
            d.len() == doc@.len(),
            deps_of(d, node) == artifacts_upto(d, deps, d.len() as int),
            i <= doc@.len(),
            artifacts_upto(d, deps, i as int) == Some(artifact_views(res@)),
        decreases doc@.len() - i,
    {
        let x = &doc[i];
        proof {
            assert(d[i as int] == doc@[i as int]@);
        }
        if x.parent == Some(deps) && x.element && str_eq(x.tag.as_str(), "dependency") {
            match parse_artifact(doc, x.id) {
                Some(a) => {
                    let ghost before = res@;
                    res.push(a);
                    proof {
                        assert(artifact_views(res@) =~= artifact_views(before).push(a@));
                    }
                },
                None => {
                    proof {
                        assert(artifacts_upto(d, deps, i as int + 1) is None);
                        lemma_artifacts_none_extends(d, deps, i as int + 1, d.len() as int);
                    }
                    return None;
                },
            }
        }
        i = i + 1;
    }
    Some(res)
}

/// The artifacts declared under `<dependencyManagement>` in `node`.
pub fn parse_managed_deps(doc: &Vec<XmlNode>, node: usize) -> (res: Option<Vec<Artifact>>)
    ensures
        match res {
            Some(v) => managed_of(node_views(doc@), node) == Some(artifact_views(v@)),
            None => managed_of(node_views(doc@), node) is None,
        },
{
    match find_child(doc, node, "dependencyManagement", true) {
        None => Some(Vec::new()),
        Some(j) => parse_deps(doc, doc[j].id),
    }
}

/// Adds to `set` the packages of kind `kind` among the artifacts, once
/// interpolated.
fn add_selected(
    set: &mut Vec<Package>,
    arts: &Vec<Artifact>,
    props: &Vec<(String, String)>,
    kind: PackageKind,
    cache: &str,
)
    requires
        strictly_sorted(package_views(old(set)@)),
    ensures
        strictly_sorted(package_views(final(set)@)),
        package_views(final(set)@).to_set() == package_views(old(set)@).to_set() + selected(
            artifact_views(arts@),
            property_views(props@),
            kind,
            cache@,
        ).to_set(),
{
    let ghost start = package_views(set@).to_set();
    let ghost av = artifact_views(arts@);
    let ghost pv = property_views(props@);
    let mut i: usize = 0;
    while i < arts.len()
        invariant
            i <= arts@.len(),
            av == artifact_views(arts@),
            pv == property_views(props@),
            strictly_sorted(package_views(set@)),
            package_views(set@).to_set() == start + selected(av.take(i as int), pv, kind, cache@).to_set(),
        decreases arts@.len() - i,
    {
        let a = arts[i].interpolate(props);
        let ghost prev = selected(av.take(i as int), pv, kind, cache@);
        proof {
            assert(av.take(i + 1).drop_last() =~= av.take(i as int));
            assert(av.take(i + 1).last() == arts@[i as int]@);
        }
        let k = kind_of_scope(a.scope.as_str());
        match &a.version {
            Some(v) => {
                if k == kind {
                    let p = Package::new_in(cache, a.artifact.clone(), Some(a.group.clone()), v.clone(), k);
                    let ghost ppv = p@;
                    insert_sorted(set, p);
                    proof {
                        assert(ppv == artifact_package(a@, cache@));
                        prev.lemma_push_to_set_commute(ppv);
                        assert(package_views(set@).to_set() =~= start + selected(
                            av.take(i + 1),
                            pv,
                            kind,
                            cache@,
                        ).to_set());
                    }
                }
            },
            None => {},
        }
        i = i + 1;
    }
    proof {
        assert(av.take(i as int) =~= av);
    }
}

/// The set of packages of kind `kind` that a parsed descriptor names
/// (what `MavenParser::parse` reads from a parsed document), strictly sorted; `None` when
/// the document has no `<project>`, a property does not resolve, or a
/// dependency lacks a group or artifact id.
pub fn parse_pom(doc: &Vec<XmlNode>, kind: PackageKind, cache: &str) -> (res: Option<Vec<Package>>)
    ensures
        match res {
            Some(set) => pom_packages(node_views(doc@), kind, cache@) matches Some(named)
                && strictly_sorted(package_views(set@)) && package_views(set@).to_set()
                == named.to_set(),
            None => pom_packages(node_views(doc@), kind, cache@) is None,
        },
{
    if doc.len() == 0 {
        return None;
    }
    proof {
        assert(node_views(doc@)[0] == doc@[0]@);
    }
    let project = match find_child(doc, doc[0].id, "project", true) {
        None => {
            return None;
        },
        Some(p) => doc[p].id,
    };
    let props = match parse_props(doc, project) {
        Some(p) => p,
        None => {
            return None;
        },
    };
    let deps = match parse_deps(doc, project) {
        Some(d) => d,
        None => {
            return None;
        },
    };
    let managed = match parse_managed_deps(doc, project) {
        Some(m) => m,
        None => {
            return None;
        },
    };
    let mut set: Vec<Package> = Vec::new();
    proof {
        assert(package_views(set@).to_set() =~= Set::<PackageView>::empty());
    }
    add_selected(&mut set, &deps, &props, kind, cache);
    add_selected(&mut set, &managed, &props, kind, cache);
    proof {
        let a = selected(artifact_views(deps@), property_views(props@), kind, cache@);
        let b = selected(artifact_views(managed@), property_views(props@), kind, cache@);
        vstd::seq_lib::seq_to_set_distributes_over_add(a, b);
        assert(package_views(set@).to_set() =~= (a + b).to_set());
    }
    Some(set)
}

/// Reads Maven descriptors (POM files).
pub struct MavenParser;

impl MavenParser {
    /// The set of packages of kind `kind` that the text of a descriptor
    /// names, strictly sorted; `None` when the text is not XML or the
    /// descriptor is not understood (see `parse_pom`).
    pub fn parse(text: &str, kind: PackageKind, cache: &str) -> (res: Option<Vec<Package>>)
        ensures
            match res {
                Some(set) => xml_document(text@) matches Some(doc) && pom_packages(doc, kind, cache@) matches Some(named)
                    && strictly_sorted(package_views(set@)) && package_views(set@).to_set()
                    == named.to_set(),
                None => xml_document(text@) is None || (xml_document(text@) matches Some(doc)
                    && pom_packages(doc, kind, cache@) is None),
            },
    {
        match parse_xml(text) {
            Some(doc) => parse_pom(&doc, kind, cache),
            None => None,
        }
    }
}

} // verus!
