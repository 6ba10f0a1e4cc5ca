//! Packages in the local artifact cache: where they are stored, their jar,
//! the classpath they contribute, and the ordered, duplicate-free sets of
//! packages that descriptor parsing produces.
use vstd::prelude::*;

use crate::order::{compare_opt_str, compare_str, lemma_lex_order_basic, lemma_lex_order_transitive,
    lemma_opt_lex_order_basic, lemma_opt_lex_order_transitive, lex_order, opt_lex_order};
use crate::text::{join, join_spec, owned, path_join, path_join_spec, views};

verus! {

/// How a package is used by the project.
#[derive(Clone, Copy, Debug, PartialEq, Eq, Structural)]
pub enum PackageKind {
    Compile,
    Runtime,
    Test,
}

impl PackageKind {
    /// The position of the kind in the order `Compile < Runtime < Test`.
    pub open spec fn rank(self) -> int {
        match self {
            PackageKind::Compile => 0,
            PackageKind::Runtime => 1,
            PackageKind::Test => 2,
        }
    }

    /// `Compile`, the kind a package has unless told otherwise.
    pub fn default_kind() -> (res: PackageKind)
        ensures
            res == PackageKind::Compile,
    {
        PackageKind::Compile
    }
}

impl Default for PackageKind {
    fn default() -> (res: PackageKind)
        ensures
            res == PackageKind::Compile,
    {
        PackageKind::Compile
    }
}

/// A package: a named, versioned artifact with the directory it is cached in.
#[derive(Clone, Debug)]
pub struct Package {
    pub name: String,
    pub namespace: Option<String>,
    pub version: String,
    pub kind: PackageKind,
    pub location: String,
}

/// The mathematical value of a package.
pub struct PackageView {
    pub name: Seq<char>,
    pub namespace: Option<Seq<char>>,
    pub version: Seq<char>,
    pub kind: PackageKind,
    pub location: Seq<char>,
}

/// The view of an optional string.
pub open spec fn opt_view(o: Option<String>) -> Option<Seq<char>> {
    match o {
        Some(s) => Some(s@),
        None => None,
    }
}

impl View for Package {
    type V = PackageView;

    open spec fn view(&self) -> PackageView {
        PackageView {
            name: self.name@,
            namespace: opt_view(self.namespace),
            version: self.version@,
            kind: self.kind,
            location: self.location@,
        }
    }
}

/// The directory `cache/namespace/name/version` (or `cache/name/version`
/// without a namespace) in which a package is stored.
pub open spec fn package_location(
    cache: Seq<char>,
    name: Seq<char>,
    namespace: Option<Seq<char>>,
    version: Seq<char>,
) -> Seq<char> {
    match namespace {
        Some(ns) => path_join_spec(path_join_spec(path_join_spec(cache, ns), name), version),
        None => path_join_spec(path_join_spec(cache, name), version),
    }
}

/// The jar of a package stored at `location`.
pub open spec fn jar_path_of(location: Seq<char>) -> Seq<char> {
    path_join_spec(location, "pkg.jar"@)
}

/// The order packages are kept in: by name, namespace, version, kind and
/// location, each compared lexicographically (the derived order of the fields).
pub open spec fn package_order(a: PackageView, b: PackageView) -> int {
    if lex_order(a.name, b.name) != 0 {
        lex_order(a.name, b.name)
    } else if opt_lex_order(a.namespace, b.namespace) != 0 {
        opt_lex_order(a.namespace, b.namespace)
    } else if lex_order(a.version, b.version) != 0 {
        lex_order(a.version, b.version)
    } else if a.kind.rank() != b.kind.rank() {
        if a.kind.rank() < b.kind.rank() {
            -1
        } else {
            1
        }
    } else {
        lex_order(a.location, b.location)
    }
}

/// The packages are in strictly increasing `package_order`, so none repeats.
pub open spec fn strictly_sorted(s: Seq<PackageView>) -> bool {
    forall|i: int, j: int| 0 <= i < j < s.len() ==> package_order(s[i], s[j]) < 0
}

/// The views of a sequence of packages.
pub open spec fn package_views(v: Seq<Package>) -> Seq<PackageView> {
    v.map_values(|p: Package| p@)
}

/// `package_order` is -1, 0 or 1, zero exactly on equal packages, and flips
/// sign when its arguments are swapped.
pub proof fn lemma_package_order_basic(a: PackageView, b: PackageView)
    ensures
        package_order(a, b) == 0 || package_order(a, b) == 1 || package_order(a, b) == -1,
        package_order(a, b) == 0 <==> a == b,
        package_order(a, b) == -package_order(b, a),
{
    lemma_lex_order_basic(a.name, b.name);
    lemma_opt_lex_order_basic(a.namespace, b.namespace);
    lemma_lex_order_basic(a.version, b.version);
    lemma_lex_order_basic(a.location, b.location);
    if a.kind.rank() == b.kind.rank() {
        assert(a.kind == b.kind);
    }
}

/// `package_order` orders transitively.
pub proof fn lemma_package_order_transitive(a: PackageView, b: PackageView, c: PackageView)
    requires
        package_order(a, b) < 0,
        package_order(b, c) < 0,
    ensures
        package_order(a, c) < 0,
{
    lemma_lex_order_basic(a.name, b.name);
    lemma_lex_order_basic(b.name, c.name);
    lemma_lex_order_basic(a.name, c.name);
    lemma_opt_lex_order_basic(a.namespace, b.namespace);
    lemma_opt_lex_order_basic(b.namespace, c.namespace);
    lemma_opt_lex_order_basic(a.namespace, c.namespace);
    lemma_lex_order_basic(a.version, b.version);
    lemma_lex_order_basic(b.version, c.version);
    lemma_lex_order_basic(a.version, c.version);
    lemma_lex_order_basic(a.location, b.location);
    lemma_lex_order_basic(b.location, c.location);
    lemma_lex_order_basic(a.location, c.location);
    if lex_order(a.name, b.name) < 0 && lex_order(b.name, c.name) < 0 {
        lemma_lex_order_transitive(a.name, b.name, c.name);
    }
    if opt_lex_order(a.namespace, b.namespace) < 0 && opt_lex_order(b.namespace, c.namespace) < 0 {
        lemma_opt_lex_order_transitive(a.namespace, b.namespace, c.namespace);
    }
    if lex_order(a.version, b.version) < 0 && lex_order(b.version, c.version) < 0 {
        lemma_lex_order_transitive(a.version, b.version, c.version);
    }
    if lex_order(a.location, b.location) < 0 && lex_order(b.location, c.location) < 0 {
        lemma_lex_order_transitive(a.location, b.location, c.location);
    }
}

/// The home directory of the user running the program (`home::home_dir`),
/// as text. What it returns depends on the environment; nothing is stated.
#[verifier::external_body]
fn home_dir_text() -> Option<String> {
    home::home_dir().map(|p| p.to_string_lossy().to_string())
}

/// The tool's home directory inside the user's home directory `home`:
/// `home/.buildk`.
pub fn buildk_home_in(home: &str) -> (res: String)
    ensures
        res@ == path_join_spec(home@, ".buildk"@),
{
    path_join(home, ".buildk")
}

/// The artifact cache inside the user's home directory `home`:
/// `home/.buildk/cache`.
pub fn cache_location_in(home: &str) -> (res: String)
    ensures
        res@ == path_join_spec(path_join_spec(home@, ".buildk"@), "cache"@),
{
    let dot = buildk_home_in(home);
    path_join(dot.as_str(), "cache")
}

/// The tool's home directory, `$HOME/.buildk`, or
/// `None` where no home directory is known.
pub fn home_dir() -> (res: Option<String>)
    ensures
        res matches Some(h) ==> exists|home: Seq<char>| h@ == path_join_spec(home, ".buildk"@),
{
    match home_dir_text() {
        Some(home) => Some(buildk_home_in(home.as_str())),
        None => None,
    }
}

/// The artifact cache, `$HOME/.buildk/cache`, or `None` where no home
/// directory is known.
pub fn cache_location() -> (res: Option<String>)
    ensures
        res matches Some(c) ==> exists|h: Seq<char>|
            c@ == path_join_spec(path_join_spec(h, ".buildk"@), "cache"@),
{
    match home_dir() {
        Some(dot) => Some(path_join(dot.as_str(), "cache")),
        None => None,
    }
}

impl Package {
    /// A package stored under the cache directory `cache`.
    pub fn new_in(
        cache: &str,
        name: String,
        namespace: Option<String>,
        version: String,
        kind: PackageKind,
    ) -> (res: Package)
        ensures
            res.name == name,
            res.namespace == namespace,
            res.version == version,
            res.kind == kind,
            res.location@ == package_location(cache@, name@, opt_view(namespace), version@),
    {
        let location = match &namespace {
            Some(ns) => {
                let a = path_join(cache, ns.as_str());
                let b = path_join(a.as_str(), name.as_str());
                path_join(b.as_str(), version.as_str())
            },
            None => {
                let a = path_join(cache, name.as_str());
                path_join(a.as_str(), version.as_str())
            },
        };
        Package { name, namespace, version, kind, location }
    }

    /// A package stored in the user's artifact cache; `None` where no home
    /// directory is known.
    pub fn new(name: String, namespace: Option<String>, version: String, kind: PackageKind) -> (res:
        Option<Package>)
        ensures
            res matches Some(p) ==> p.name == name && p.namespace == namespace && p.version
                == version && p.kind == kind && exists|h: Seq<char>|
                p.location@ == package_location(
                    path_join_spec(path_join_spec(h, ".buildk"@), "cache"@),
                    name@,
                    opt_view(namespace),
                    version@,
                ),
    {
        match cache_location() {
            Some(cache) => Some(Package::new_in(cache.as_str(), name, namespace, version, kind)),
            None => None,
        }
    }

    /// A copy of the package.
    pub fn duplicate(&self) -> (res: Package)
        ensures
            res == *self,
    {
        let namespace = match &self.namespace {
            Some(ns) => Some(ns.clone()),
            None => None,
        };
        Package {
            name: self.name.clone(),
            namespace,
            version: self.version.clone(),
            kind: self.kind,
            location: self.location.clone(),
        }
    }

    /// The jar of the package, `location/pkg.jar`.
    pub fn jar_absolute_path(&self) -> (res: String)
        ensures
            res@ == jar_path_of(self.location@),
    {
        path_join(self.location.as_str(), "pkg.jar")
    }

    /// The classpath contributed by the package: the jars of its transitive
    /// packages joined with `:`.
    pub fn classpath(&self, transitives: &Vec<Package>) -> (res: String)
        ensures
            res@ == join_spec(
                package_views(transitives@).map_values(|p: PackageView| jar_path_of(p.location)),
                ":"@,
            ),
    {
        let mut jars: Vec<String> = Vec::new();
        let mut i: usize = 0;
        while i < transitives.len()
            invariant
                i <= transitives@.len(),
                jars@.len() == i,
                views(jars@) == package_views(transitives@).take(i as int).map_values(
                    |p: PackageView| jar_path_of(p.location),
                ),
            decreases transitives@.len() - i,
        {
            let jar = transitives[i].jar_absolute_path();
            let ghost before = jars@;
            jars.push(jar);
            i = i + 1;
            proof {
                let target = package_views(transitives@).take(i as int).map_values(
                    |p: PackageView| jar_path_of(p.location),
                );
                let prev = package_views(transitives@).take(i - 1).map_values(
                    |p: PackageView| jar_path_of(p.location),
                );
                assert(package_views(transitives@)[i - 1] == transitives@[i - 1]@);
                assert(jars@ == before.push(jar));
                assert(views(jars@).len() == i);
                assert forall|k: int| 0 <= k < i implies views(jars@)[k] == target[k] by {
                    if k < i - 1 {
                        assert(views(jars@)[k] == views(before)[k]);
                        assert(views(before)[k] == prev[k]);
                    }
                }
                assert(views(jars@) =~= target);
            }
        }
        assert(package_views(transitives@).take(i as int) =~= package_views(transitives@));
        join(&jars, ":")
    }

    /// Compares two packages in `package_order`, as -1, 0 or 1.
    pub fn compare(&self, other: &Package) -> (res: i8)
        ensures
            res as int == package_order(self@, other@),
    {
        let c = compare_str(self.name.as_str(), other.name.as_str());
        if c != 0 {
            return c;
        }
        let c = compare_opt_str(&self.namespace, &other.namespace);
        if c != 0 {
            return c;
        }
        let c = compare_str(self.version.as_str(), other.version.as_str());
        if c != 0 {
            return c;
        }
        let r1: u8 = match self.kind {
            PackageKind::Compile => 0,
            PackageKind::Runtime => 1,
            PackageKind::Test => 2,
        };
        let r2: u8 = match other.kind {
            PackageKind::Compile => 0,
            PackageKind::Runtime => 1,
            PackageKind::Test => 2,
        };
        if r1 < r2 {
            return -1;
        }
        if r1 > r2 {
            return 1;
        }
        compare_str(self.location.as_str(), other.location.as_str())
    }

    /// Whether two packages are equal in every field.
    pub fn same_as(&self, other: &Package) -> (res: bool)
        ensures
            res == (self@ == other@),
    {
        proof {
            lemma_package_order_basic(self@, other@);
        }
        self.compare(other) == 0
    }
}

/// Adds a package to a strictly sorted package set, keeping it strictly
/// sorted (`BTreeSet::insert`).
pub fn insert_sorted(set: &mut Vec<Package>, p: Package)
    requires
        strictly_sorted(package_views(old(set)@)),
    ensures
        strictly_sorted(package_views(final(set)@)),
        package_views(final(set)@).to_set() == package_views(old(set)@).to_set().insert(p@),
{
    let ghost old_views = package_views(set@);
    let mut i: usize = 0;
    while i < set.len()
        invariant
            old_views == package_views(set@),
            strictly_sorted(old_views),
            i <= set@.len(),
            forall|k: int| 0 <= k < i ==> package_order(old_views[k], p@) < 0,
        ensures
            i <= set@.len(),
            old_views == package_views(set@),
            forall|k: int| 0 <= k < i ==> package_order(old_views[k], p@) < 0,
            i < set@.len() ==> package_order(old_views[i as int], p@) > 0,
        decreases set@.len() - i,
    {
        let c = set[i].compare(&p);
        if c == 0 {
            proof {
                lemma_package_order_basic(set@[i as int]@, p@);
                assert(old_views[i as int] == p@);
                assert(old_views.to_set().insert(p@) =~= old_views.to_set());
            }
            return;
        }
        if c > 0 {
            break;
        }
        i = i + 1;
    }
    let ghost idx = i as int;
    set.insert(i, p);
    proof {
        let nv = package_views(set@);
        assert(nv =~= old_views.take(idx).push(p@) + old_views.skip(idx));
        assert forall|a: int, b: int| 0 <= a < b < nv.len() implies package_order(nv[a], nv[b]) < 0 by {
            if b < idx {
                assert(nv[a] == old_views[a] && nv[b] == old_views[b]);
            } else if b == idx {
                assert(nv[a] == old_views[a]);
            } else if a == idx {
                assert(nv[b] == old_views[b - 1]);
                if b - 1 > idx {
                    lemma_package_order_basic(old_views[idx], p@);
                    lemma_package_order_basic(old_views[idx], old_views[b - 1]);
                    lemma_package_order_transitive(p@, old_views[idx], old_views[b - 1]);
                } else {
                    lemma_package_order_basic(old_views[idx], p@);
                }
            } else if a < idx {
                assert(nv[a] == old_views[a]);
                assert(nv[b] == old_views[b - 1]);
            } else {
                assert(nv[a] == old_views[a - 1]);
                assert(nv[b] == old_views[b - 1]);
            }
        }
        assert forall|x: PackageView| nv.to_set().contains(x) <==> old_views.to_set().insert(
            p@,
        ).contains(x) by {
            if nv.contains(x) {
                let k = choose|k: int| 0 <= k < nv.len() && nv[k] == x;
                if k < idx {
                    assert(old_views[k] == x);
                } else if k > idx {
                    assert(old_views[k - 1] == x);
                }
            }
            if old_views.contains(x) {
                let k = choose|k: int| 0 <= k < old_views.len() && old_views[k] == x;
                if k < idx {
                    assert(nv[k] == x);
                } else {
                    assert(nv[k + 1] == x);
                }
            }
            if x == p@ {
                assert(nv[idx] == x);
            }
        }
        assert(nv.to_set() =~= old_views.to_set().insert(p@));
    }
}

/// Where a package's descriptor is: `maven.xml` when present, else
/// `gradle.json` when present, else none. The two flags say which of the
/// files exist in the directory `path`.
pub fn resolve_descriptor(path: &str, maven_exists: bool, gradle_exists: bool) -> (res: Option<
    String,
>)
    ensures
        maven_exists ==> (res matches Some(d) && d@ == path_join_spec(path@, "maven.xml"@)),
        !maven_exists && gradle_exists ==> (res matches Some(d) && d@ == path_join_spec(
            path@,
            "gradle.json"@,
        )),
        !maven_exists && !gradle_exists ==> res is None,
{
    if maven_exists {
        return Some(path_join(path, "maven.xml"));
    }
    if gradle_exists {
        return Some(path_join(path, "gradle.json"));
    }
    None
}

/// Whether a package counts as cached: its jar exists and is not empty, and
/// it has a descriptor that is not empty. The sizes are `None` for files that
/// do not exist.
pub fn is_cached_with(jar_size: Option<u64>, descriptor_size: Option<u64>) -> (res: bool)
    ensures
        res == (jar_size is Some && jar_size->0 > 0 && descriptor_size is Some
            && descriptor_size->0 > 0),
{
    match jar_size {
        None => false,
        Some(j) => {
            if j == 0 {
                false
            } else {
                match descriptor_size {
                    None => false,
                    Some(d) => d > 0,
                }
            }
        },
    }
}

/// The scope of a dependency in a Maven descriptor.
#[derive(Clone, Copy, Debug, PartialEq, Eq, Structural)]
pub enum MavenScope {
    /// Available at compile time and at run time (the default).
    Compile,
    /// Available at compile time only, but still required at run time.
    Provided,
    /// Only available at run time.
    Runtime,
    /// Only available when compiling and running tests.
    Test,
    /// Required at compile time and run time, but not part of the project.
    System,
}

/// A dependency as a Maven descriptor describes it.
pub struct MavenPackage {
    pub group: String,
    pub artifact: String,
    pub version: String,
    pub scope: MavenScope,
    pub location: Option<String>,
}

} // verus!
