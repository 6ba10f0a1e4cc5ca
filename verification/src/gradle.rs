//! Gradle module metadata (format 1.1): the packages a `.module` descriptor
//! names, and the versions its dependencies ask for.
use vstd::prelude::*;

use crate::package::{
    insert_sorted, package_location, package_views, strictly_sorted, Package, PackageKind,
    PackageView,
};
use crate::text::str_eq;

verus! {

/// A version constraint: one version (or range) or a list of them.
#[derive(Clone, Debug)]
pub enum VersionKind {
    Single(String),
    Array(Vec<String>),
}

/// The version constraints of a dependency.
#[derive(Clone, Debug)]
pub struct Version {
    pub requires: Option<VersionKind>,
    pub prefers: Option<VersionKind>,
    pub strictly: Option<VersionKind>,
    pub rejects: Option<VersionKind>,
}

/// A dependency of a variant.
#[derive(Clone, Debug)]
pub struct Dep {
    pub group: String,
    pub module: String,
    pub version: Version,
}

/// The component a descriptor describes.
#[derive(Clone, Debug)]
pub struct Component {
    pub group: String,
    pub module: String,
    pub version: String,
}

/// A variant of the component, with its dependencies.
#[derive(Clone, Debug)]
pub struct Variant {
    pub name: String,
    pub dependencies: Option<Vec<Dep>>,
}

/// A Gradle module descriptor, as far as packages are concerned.
#[derive(Clone, Debug)]
pub struct Descriptor {
    pub format_version: String,
    pub component: Option<Component>,
    pub variants: Vec<Variant>,
}

/// The variant a Gradle dependency is declared for.
#[derive(Clone, Copy, Debug, PartialEq, Eq, Structural)]
pub enum GradleVariant {
    Implementation,
    TestImplementation,
    Api,
    Runtime,
}

/// A package as a Gradle descriptor describes it.
#[derive(Clone, Debug)]
pub struct GradlePackage {
    pub group: String,
    pub module: String,
    pub version: String,
    pub versions: Vec<String>,
    pub variant: GradleVariant,
    pub location: String,
}

/// The version a constraint names: a single one, or the last of a list.
pub open spec fn picked(k: Option<VersionKind>) -> Option<Seq<char>> {
    match k {
        Some(VersionKind::Single(v)) => Some(v@),
        Some(VersionKind::Array(vs)) => if vs@.len() > 0 {
            Some(vs@.last()@)
        } else {
            None
        },
        None => None,
    }
}

/// The version a dependency resolves to: what `requires` names, else what
/// `prefers` names, else what `strictly` names; none when none names one.
pub open spec fn dep_version(v: Version) -> Option<Seq<char>> {
    if picked(v.requires) is Some {
        picked(v.requires)
    } else if picked(v.prefers) is Some {
        picked(v.prefers)
    } else {
        picked(v.strictly)
    }
}

/// The list a constraint holds, if it is a list.
pub open spec fn listed(k: Option<VersionKind>) -> Option<Seq<Seq<char>>> {
    match k {
        Some(VersionKind::Array(vs)) => Some(vs@.map_values(|s: String| s@)),
        _ => None,
    }
}

/// The candidate versions of a dependency: the first list among `requires`,
/// `prefers` and `strictly`, or none.
pub open spec fn dep_versions(v: Version) -> Seq<Seq<char>> {
    if listed(v.requires) is Some {
        listed(v.requires)->0
    } else if listed(v.prefers) is Some {
        listed(v.prefers)->0
    } else if listed(v.strictly) is Some {
        listed(v.strictly)->0
    } else {
        Seq::empty()
    }
}

/// The packages a descriptor names, in order: the component, then the
/// dependencies of each variant. `None` when a dependency names no version.
pub open spec fn named_packages(d: Descriptor, cache: Seq<char>) -> Option<Seq<PackageView>> {
    let own: Seq<PackageView> = match d.component {
        Some(c) => seq![component_view(c, cache)],
        None => Seq::empty(),
    };
    match variants_packages(d.variants@, cache) {
        Some(deps) => Some(own + deps),
        None => None,
    }
}

/// The package a component is.
pub open spec fn component_view(c: Component, cache: Seq<char>) -> PackageView {
    PackageView {
        name: c.module@,
        namespace: Some(c.group@),
        version: c.version@,
        kind: PackageKind::Compile,
        location: package_location(cache, c.module@, Some(c.group@), c.version@),
    }
}

/// The package a dependency resolving to `version` is.
pub open spec fn dep_view(d: Dep, version: Seq<char>, cache: Seq<char>) -> PackageView {
    PackageView {
        name: d.module@,
        namespace: Some(d.group@),
        version,
        kind: PackageKind::Compile,
        location: package_location(cache, d.module@, Some(d.group@), version),
    }
}

/// The packages a list of dependencies names, or `None` when one names no
/// version.
pub open spec fn deps_packages(ds: Seq<Dep>, cache: Seq<char>) -> Option<Seq<PackageView>>
    decreases ds.len(),
{
    if ds.len() == 0 {
        Some(Seq::empty())
    } else {
        match (deps_packages(ds.drop_last(), cache), dep_version(ds.last().version)) {
            (Some(prefix), Some(v)) => Some(prefix.push(dep_view(ds.last(), v, cache))),
            _ => None,
        }
    }
}

/// The packages the dependencies of the variants name, variant by variant.
pub open spec fn variants_packages(vs: Seq<Variant>, cache: Seq<char>) -> Option<Seq<PackageView>>
    decreases vs.len(),
{
    if vs.len() == 0 {
        Some(Seq::empty())
    } else {
        let last = match vs.last().dependencies {
            Some(ds) => deps_packages(ds@, cache),
            None => Some(Seq::empty()),
        };
        match (variants_packages(vs.drop_last(), cache), last) {
            (Some(a), Some(b)) => Some(a + b),
            _ => None,
        }
    }
}

/// The version named by one constraint.
fn pick(k: &Option<VersionKind>) -> (res: Option<String>)
    ensures
        match res {
            Some(s) => picked(*k) == Some(s@),
            None => picked(*k) is None,
        },
{
    match k {
        Some(VersionKind::Single(v)) => Some(v.clone()),
        Some(VersionKind::Array(vs)) => {
            if vs.len() > 0 {
                Some(vs[vs.len() - 1].clone())
            } else {
                None
            }
        },
        None => None,
    }
}

impl Dep {
    /// The version the dependency resolves to, where a constraint names
    /// one: the first of `requires`, `prefers` and `strictly` that does (a
    /// list names its last version).
    fn resolved_version(&self) -> (res: Option<String>)
        ensures
            match res {
                Some(s) => dep_version(self.version) == Some(s@),
                None => dep_version(self.version) is None,
            },
    {
        let r = pick(&self.version.requires);
        if r.is_some() {
            return r;
        }
        let p = pick(&self.version.prefers);
        if p.is_some() {
            return p;
        }
        pick(&self.version.strictly)
    }

    /// The version the dependency resolves to: the first of `requires`,
    /// `prefers` and `strictly` that names one (a list names its last
    /// version). One of them must name a version.
    pub fn version(&self) -> (res: String)
        requires
            dep_version(self.version) is Some,
        ensures
            dep_version(self.version) == Some(res@),
    {
        match self.resolved_version() {
            Some(v) => v,
            None => String::new(),
        }
    }

    /// The candidate versions: the first list among the constraints.
    pub fn versions(&self) -> (res: Vec<String>)
        ensures
            res@.map_values(|s: String| s@) == dep_versions(self.version),
    {
        if let Some(VersionKind::Array(vs)) = &self.version.requires {
            return clone_strings(vs);
        }
        if let Some(VersionKind::Array(vs)) = &self.version.prefers {
            return clone_strings(vs);
        }
        if let Some(VersionKind::Array(vs)) = &self.version.strictly {
            return clone_strings(vs);
        }
        Vec::new()
    }

    /// The package the dependency is, stored under `cache`; `None` where the
    /// dependency names no version.
    pub fn to_package(&self, cache: &str) -> (res: Option<Package>)
        ensures
            match res {
                Some(p) => dep_version(self.version) matches Some(v) && p@ == dep_view(
                    *self,
                    v,
                    cache@,
                ),
                None => dep_version(self.version) is None,
            },
    {
        match self.resolved_version() {
            Some(v) => Some(
                Package::new_in(
                    cache,
                    self.module.clone(),
                    Some(self.group.clone()),
                    v,
                    PackageKind::Compile,
                ),
            ),
            None => None,
        }
    }
}

/// Copies of the strings.
fn clone_strings(v: &Vec<String>) -> (res: Vec<String>)
    ensures
        res@.map_values(|s: String| s@) == v@.map_values(|s: String| s@),
{
    let mut res: Vec<String> = Vec::new();
    let mut i: usize = 0;
    while i < v.len()
        invariant
            i <= v@.len(),
            res@ == v@.take(i as int),
        decreases v@.len() - i,
    {
        res.push(v[i].clone());
        i = i + 1;
        assert(res@ =~= v@.take(i as int));
    }
    assert(v@.take(i as int) =~= v@);
    res
}

impl Component {
    /// The package the component is, stored under `cache`.
    pub fn to_package(&self, cache: &str) -> (res: Package)
        ensures
            res@ == component_view(*self, cache@),
    {
        Package::new_in(
            cache,
            self.module.clone(),
            Some(self.group.clone()),
            self.version.clone(),
            PackageKind::Compile,
        )
    }
}

impl GradlePackage {
    /// The kind of package a variant declares: test implementations are for
    /// tests, runtime variants for run time, the rest for compilation.
    pub fn kind_of(variant: GradleVariant) -> (res: PackageKind)
        ensures
            res == match variant {
                GradleVariant::Api => PackageKind::Compile,
                GradleVariant::Runtime => PackageKind::Runtime,
                GradleVariant::Implementation => PackageKind::Compile,
                GradleVariant::TestImplementation => PackageKind::Test,
            },
    {
        match variant {
            GradleVariant::Api => PackageKind::Compile,
            GradleVariant::Runtime => PackageKind::Runtime,
            GradleVariant::Implementation => PackageKind::Compile,
            GradleVariant::TestImplementation => PackageKind::Test,
        }
    }

    /// The package, stored under `cache`, with the kind its variant declares.
    pub fn to_package(&self, cache: &str) -> (res: Package)
        ensures
            res.name == self.module,
            res.namespace == Some(self.group),
            res.version == self.version,
            res.kind == match self.variant {
                GradleVariant::Api => PackageKind::Compile,
                GradleVariant::Runtime => PackageKind::Runtime,
                GradleVariant::Implementation => PackageKind::Compile,
                GradleVariant::TestImplementation => PackageKind::Test,
            },
            res.location@ == package_location(cache@, self.module@, Some(self.group@), self.version@),
    {
        Package::new_in(
            cache,
            self.module.clone(),
            Some(self.group.clone()),
            self.version.clone(),
            Self::kind_of(self.variant),
        )
    }
}

/// The set of packages a descriptor names, kept
/// strictly sorted; `None` where a dependency names no version.
pub fn descriptor_packages(d: &Descriptor, cache: &str) -> (res: Option<Vec<Package>>)
    ensures
        match res {
            Some(set) => named_packages(*d, cache@) matches Some(named) && strictly_sorted(
                package_views(set@),
            ) && package_views(set@).to_set() == named.to_set(),
            None => named_packages(*d, cache@) is None,
        },
{
    let mut set: Vec<Package> = Vec::new();
    let ghost mut named: Seq<PackageView> = Seq::empty();
    match &d.component {
        Some(c) => {
            let p = c.to_package(cache);
            insert_sorted(&mut set, p);
            proof {
                named = seq![component_view(*c, cache@)];
                assert(named =~= Seq::<PackageView>::empty().push(component_view(*c, cache@)));
                Seq::<PackageView>::empty().lemma_push_to_set_commute(component_view(*c, cache@));
                assert(package_views(set@).to_set() =~= named.to_set());
            }
        },
        None => {
            proof {
                assert(package_views(set@).to_set() =~= named.to_set());
            }
        },
    }
    let ghost own = named;
    let mut i: usize = 0;
    while i < d.variants.len()
        invariant
            i <= d.variants@.len(),
            strictly_sorted(package_views(set@)),
            variants_packages(d.variants@.take(i as int), cache@) matches Some(vp) && named == own
                + vp,
            package_views(set@).to_set() == named.to_set(),
            own == match d.component {
                Some(c) => seq![component_view(c, cache@)],
                None => Seq::<PackageView>::empty(),
            },
        decreases d.variants@.len() - i,
    {
        let variant = &d.variants[i];
        let ghost before = named;
        match &variant.dependencies {
            Some(deps) => {
                let mut j: usize = 0;
                while j < deps.len()
                    invariant
                        i < d.variants@.len(),
                        *variant == d.variants@[i as int],
                        variant.dependencies == Some(*deps),
                        j <= deps@.len(),
                        strictly_sorted(package_views(set@)),
                        deps_packages(deps@.take(j as int), cache@) matches Some(dp) && named
                            == before + dp,
                        package_views(set@).to_set() == named.to_set(),
                    decreases deps@.len() - j,
                {
                    let dep = &deps[j];
                    match dep.to_package(cache) {
                        Some(p) => {
                            let ghost pv = p@;
                            insert_sorted(&mut set, p);
                            proof {
                                assert(deps@.take(j + 1).drop_last() =~= deps@.take(j as int));
                                let old_named = named;
                                named = named.push(pv);
                                old_named.lemma_push_to_set_commute(pv);
                                assert(named.to_set() =~= old_named.to_set().insert(pv));
                            }
                            j = j + 1;
                        },
                        None => {
                            proof {
                                assert(deps@.take(j + 1).drop_last() =~= deps@.take(j as int));
                                lemma_deps_none_extends(deps@, cache@, j as int + 1);
                                lemma_variants_none_extends(d.variants@, cache@, i as int + 1);
                                lemma_named_none(*d, cache@, i as int + 1);
                            }
                            return None;
                        },
                    }
                }
                proof {
                    assert(deps@.take(j as int) =~= deps@);
                }
            },
            None => {},
        }
        i = i + 1;
        proof {
            assert(d.variants@.take(i as int).drop_last() =~= d.variants@.take(i - 1));
        }
    }
    proof {
        assert(d.variants@.take(i as int) =~= d.variants@);
    }
    Some(set)
}

/// A list of dependencies names no version as soon as a prefix names none.
proof fn lemma_deps_none_extends(ds: Seq<Dep>, cache: Seq<char>, k: int)
    requires
        0 <= k <= ds.len(),
        deps_packages(ds.take(k), cache) is None,
    ensures
        deps_packages(ds, cache) is None,
    decreases ds.len() - k,
{
    if k < ds.len() {
        assert(ds.take(k + 1).drop_last() =~= ds.take(k));
        lemma_deps_none_extends(ds, cache, k + 1);
    } else {
        assert(ds.take(k) =~= ds);
    }
}

/// The variants name no version as soon as a prefix of them names none.
proof fn lemma_variants_none_extends(vs: Seq<Variant>, cache: Seq<char>, k: int)
    requires
        0 <= k <= vs.len(),
        (match vs[k - 1].dependencies {
            Some(ds) => deps_packages(ds@, cache),
            None => Some(Seq::empty()),
        }) is None,
        k >= 1,
    ensures
        variants_packages(vs.take(k), cache) is None,
{
    assert(vs.take(k).last() == vs[k - 1]);
}

/// A descriptor names no version as soon as a prefix of its variants names none.
proof fn lemma_named_none(d: Descriptor, cache: Seq<char>, k: int)
    requires
        0 <= k <= d.variants@.len(),
        variants_packages(d.variants@.take(k), cache) is None,
    ensures
        named_packages(d, cache) is None,
    decreases d.variants@.len() - k,
{
    if k < d.variants@.len() {
        assert(d.variants@.take(k + 1).drop_last() =~= d.variants@.take(k));
        lemma_named_none(d, cache, k + 1);
    } else {
        assert(d.variants@.take(k) =~= d.variants@);
    }
}

/// Reads Gradle module descriptors.
pub struct GradleParser;

impl GradleParser {
    /// The packages of kind `kind` that a read descriptor names, as a
    /// strictly sorted set. Only format 1.1 is understood: any other format
    /// yields no packages. `None` where a dependency names no version.
    pub fn parse(d: &Descriptor, kind: PackageKind, cache: &str) -> (res: Option<
        Vec<Package>,
    >)
        ensures
            d.format_version@ != "1.1"@ ==> (res matches Some(s) && s@.len() == 0),
            d.format_version@ == "1.1"@ ==> match res {
                Some(set) => named_packages(*d, cache@) matches Some(named) && strictly_sorted(
                    package_views(set@),
                ) && package_views(set@).to_set() == named.to_set().filter(
                    |p: PackageView| p.kind == kind,
                ),
                None => named_packages(*d, cache@) is None,
            },
    {
        if !str_eq(d.format_version.as_str(), "1.1") {
            return Some(Vec::new());
        }
        match descriptor_packages(d, cache) {
            Some(all) => {
                let mut res: Vec<Package> = Vec::new();
                let mut i: usize = 0;
                while i < all.len()
                    invariant
                        i <= all@.len(),
                        strictly_sorted(package_views(all@)),
                        strictly_sorted(package_views(res@)),
                        package_views(res@).to_set() == package_views(all@).take(i as int).to_set().filter(
                            |p: PackageView| p.kind == kind,
                        ),
                    decreases all@.len() - i,
                {
                    let p = all[i].duplicate();
                    if p.kind == kind {
                        insert_sorted(&mut res, p);
                    }
                    i = i + 1;
                    proof {
                        let pv = all@[i - 1]@;
                        assert(package_views(all@).take(i as int) =~= package_views(all@).take(
                            i - 1,
                        ).push(pv));
                        package_views(all@).take(i - 1).lemma_push_to_set_commute(pv);
                        assert(package_views(all@).take(i as int).to_set() =~= package_views(
                            all@,
                        ).take(i - 1).to_set().insert(pv));
                        assert(package_views(res@).to_set() =~= package_views(all@).take(
                            i as int,
                        ).to_set().filter(|p: PackageView| p.kind == kind));
                    }
                }
                proof {
                    assert(package_views(all@).take(i as int) =~= package_views(all@));
                }
                Some(res)
            },
            None => None,
        }
    }
}

} // verus!
