//! Downloading packages: the url of a package in a repository, and how the
//! outcomes of downloading its files combine.
use vstd::prelude::*;

use crate::output::{BuildkOutput, PartialConclusion};
use crate::package::{package_views, Package, PackageView};
use crate::text::{concat, join_spec, path_join, path_join_spec, replace, replace_spec};

verus! {

/// The outcome of downloading a file.
#[derive(Clone, Debug)]
pub enum DownloadResult {
    /// The file was downloaded.
    Downloaded,
    /// The file was there already.
    Exist,
    /// The download failed, for the reason given.
    Failed(String),
}

impl DownloadResult {
    /// Whether the file was downloaded.
    pub fn is_downloaded(&self) -> (res: bool)
        ensures
            res == (*self is Downloaded),
    {
        match self {
            DownloadResult::Downloaded => true,
            _ => false,
        }
    }

    /// Whether the file was there already.
    pub fn is_cached(&self) -> (res: bool)
        ensures
            res == (*self is Exist),
    {
        match self {
            DownloadResult::Exist => true,
            _ => false,
        }
    }

    /// Whether the download failed: it neither downloaded nor found the file.
    pub fn is_failed(&self) -> (res: bool)
        ensures
            res == (*self is Failed),
    {
        !self.is_cached() && !self.is_downloaded()
    }

    /// A copy of the outcome.
    pub fn duplicate(&self) -> (res: DownloadResult)
        ensures
            res == *self,
    {
        match self {
            DownloadResult::Downloaded => DownloadResult::Downloaded,
            DownloadResult::Exist => DownloadResult::Exist,
            DownloadResult::Failed(e) => DownloadResult::Failed(e.clone()),
        }
    }
}

/// The url prefix of a package's files in the repository at `repo`:
/// `repo/namespace-as-path/name/version/name-version`.
pub open spec fn package_url(repo: Seq<char>, namespace: Seq<char>, name: Seq<char>, version: Seq<char>) -> Seq<
    char,
> {
    repo + "/"@ + replace_spec(namespace, "."@, "/"@) + "/"@ + name + "/"@ + version + "/"@ + name
        + "-"@ + version
}

/// The url prefix of the package's files in the repository at `repo`;
/// `None` for a package without a namespace.
pub fn resolve_url(pkg: &Package, repo: &str) -> (res: Option<String>)
    ensures
        match pkg.namespace {
            Some(ns) => res matches Some(u) && u@ == package_url(repo@, ns@, pkg.name@, pkg.version@),
            None => res is None,
        },
{
    proof {
        reveal_strlit(".");
    }
    let ns = match &pkg.namespace {
        Some(ns) => ns,
        None => {
            return None;
        },
    };
    let path = replace(ns.as_str(), ".", "/");
    let a = concat(repo, "/");
    let b = concat(a.as_str(), path.as_str());
    let c = concat(b.as_str(), "/");
    let d = concat(c.as_str(), pkg.name.as_str());
    let e = concat(d.as_str(), "/");
    let f = concat(e.as_str(), pkg.version.as_str());
    let g = concat(f.as_str(), "/");
    let h = concat(g.as_str(), pkg.name.as_str());
    let i = concat(h.as_str(), "-");
    let url = concat(i.as_str(), pkg.version.as_str());
    proof {
        assert(url@ =~= package_url(repo@, ns@, pkg.name@, pkg.version@));
    }
    Some(url)
}

/// The outcome of fetching a package from the outcomes for its jar and its
/// descriptor: the jar's failure, else the descriptor's failure, else
/// `Downloaded` when either was downloaded, else `Exist`.
pub open spec fn combined(jar: DownloadResult, pom: DownloadResult) -> DownloadResult {
    if jar is Failed {
        jar
    } else if pom is Failed {
        pom
    } else if jar is Downloaded || pom is Downloaded {
        DownloadResult::Downloaded
    } else {
        DownloadResult::Exist
    }
}

/// The outcome of fetching a package from the outcomes for its jar and its
/// descriptor.
pub fn combine(jar: DownloadResult, pom: DownloadResult) -> (res: DownloadResult)
    ensures
        res == combined(jar, pom),
{
    if jar.is_failed() {
        return jar;
    }
    if pom.is_failed() {
        return pom;
    }
    if jar.is_downloaded() || pom.is_downloaded() {
        return DownloadResult::Downloaded;
    }
    DownloadResult::Exist
}

/// Whether the jar and the descriptor were both had from a repository, so
/// that no further repository need be tried.
pub fn repository_served(jar: &DownloadResult, pom: &DownloadResult) -> (res: bool)
    ensures
        res == (!(*jar is Failed) && !(*pom is Failed)),
{
    !jar.is_failed() && !pom.is_failed()
}

/// The conclusion of fetching packages with the given outcomes: `FAILED`
/// when one failed, else `SUCCESS` when one was downloaded, else `CACHED`.
pub open spec fn fetch_conclusion(results: Seq<DownloadResult>) -> PartialConclusion {
    if exists|i: int| 0 <= i < results.len() && results[i] is Failed {
        PartialConclusion::FAILED
    } else if exists|i: int| 0 <= i < results.len() && results[i] is Downloaded {
        PartialConclusion::SUCCESS
    } else {
        PartialConclusion::CACHED
    }
}

/// The messages of the failed outcomes, in order.
pub open spec fn failures(results: Seq<DownloadResult>) -> Seq<Seq<char>>
    decreases results.len(),
{
    if results.len() == 0 {
        Seq::empty()
    } else {
        match results.last() {
            DownloadResult::Failed(e) => failures(results.drop_last()).push(e@),
            _ => failures(results.drop_last()),
        }
    }
}

/// Records the outcome of fetching packages in a fresh command outcome:
/// every failure's message is added to the standard error, and the command
/// concludes as `fetch_conclusion` says.
pub fn conclude_fetch(output: &mut BuildkOutput, results: &Vec<DownloadResult>)
    requires
        old(output).stderr is None,
    ensures
        final(output).conclusion == Some(fetch_conclusion(results@)),
        final(output).name == old(output).name,
        final(output).status == old(output).status,
        final(output).stdout == old(output).stdout,
        match final(output).stderr {
            None => failures(results@).len() == 0,
            Some(e) => failures(results@).len() > 0 && e@ == join_spec(failures(results@), "\n"@),
        },
{
    let mut failed = false;
    let mut downloaded = false;
    let mut i: usize = 0;
    while i < results.len()
        invariant
            i <= results@.len(),
            output.name == old(output).name,
            output.status == old(output).status,
            output.stdout == old(output).stdout,
            failed == exists|k: int| 0 <= k < i && results@[k] is Failed,
            downloaded == exists|k: int| 0 <= k < i && results@[k] is Downloaded,
            match output.stderr {
                None => failures(results@.take(i as int)).len() == 0,
                Some(e) => failures(results@.take(i as int)).len() > 0 && e@ == join_spec(
                    failures(results@.take(i as int)),
                    "\n"@,
                ),
            },
        decreases results@.len() - i,
    {
        let ghost prev = failures(results@.take(i as int));
        proof {
            assert(results@.take(i + 1).drop_last() =~= results@.take(i as int));
            assert(results@.take(i + 1).last() == results@[i as int]);
        }
        match &results[i] {
            DownloadResult::Failed(e) => {
                output.append_stderr(e.clone());
                failed = true;
                proof {
                    assert(failures(results@.take(i + 1)) == prev.push(e@));
                    assert(prev.push(e@).drop_last() =~= prev);
                    if prev.len() == 0 {
                        assert(prev.push(e@).len() == 1);
                        assert(prev.push(e@)[0] == e@);
                    }
                }
            },
            DownloadResult::Downloaded => {
                downloaded = true;
            },
            DownloadResult::Exist => {},
        }
        i = i + 1;
    }
    proof {
        assert(results@.take(i as int) =~= results@);
    }
    if failed {
        output.conclude(PartialConclusion::FAILED);
    } else if downloaded {
        output.conclude(PartialConclusion::SUCCESS);
    } else {
        output.conclude(PartialConclusion::CACHED);
    }
}

/// Downloads packages from the repositories of the manifest.
#[derive(Clone, Copy, Debug, Default)]
pub struct Client;

/// The files fetched for a package whose files in a repository start with
/// `url`, each with where it is stored under the package's directory: the jar,
/// the Maven descriptor, the sources and the Gradle descriptor; the first two
/// are required, the others optional.
pub open spec fn package_files_spec(location: Seq<char>, url: Seq<char>) -> Seq<(Seq<char>, Seq<char>)> {
    seq![
        (url + ".jar"@, path_join_spec(location, "pkg.jar"@)),
        (url + ".pom"@, path_join_spec(location, "maven.xml"@)),
        (url + "-sources.jar"@, path_join_spec(location, "sources.jar"@)),
        (url + ".module"@, path_join_spec(location, "gradle.json"@)),
    ]
}

impl Client {
    /// The files fetched for `pkg` from a repository, with the url prefix
    /// of its files there: each file's url and where
    /// it is stored, the jar first and the Maven descriptor second.
    pub fn package_files(pkg: &Package, url: &str) -> (res: Vec<(String, String)>)
        ensures
            res@.map_values(|f: (String, String)| (f.0@, f.1@)) == package_files_spec(pkg.location@, url@),
    {
        let loc = pkg.location.as_str();
        let mut res: Vec<(String, String)> = Vec::new();
        res.push((concat(url, ".jar"), path_join(loc, "pkg.jar")));
        res.push((concat(url, ".pom"), path_join(loc, "maven.xml")));
        res.push((concat(url, "-sources.jar"), path_join(loc, "sources.jar")));
        res.push((concat(url, ".module"), path_join(loc, "gradle.json")));
        assert(res@.map_values(|f: (String, String)| (f.0@, f.1@)) =~= package_files_spec(pkg.location@, url@));
        res
    }
}

/// The outcome for a file whose target could not be created.
pub fn create_failed(err: &str) -> (res: DownloadResult)
    ensures
        res matches DownloadResult::Failed(m) && m@ == "Failed to create target file: "@ + err@,
{
    DownloadResult::Failed(concat("Failed to create target file: ", err))
}

/// The outcome of downloading the file at `url` into its created target:
/// downloaded, or failed with the error.
pub fn download_outcome(url: &str, result: Result<(), String>) -> (res: DownloadResult)
    ensures
        match result {
            Ok(()) => res is Downloaded,
            Err(e) => res matches DownloadResult::Failed(m) && m@ == "Failed to download file from "@ + url@
                + " with err: "@ + e@,
        },
{
    match result {
        Ok(()) => DownloadResult::Downloaded,
        Err(e) => {
            let a = concat("Failed to download file from ", url);
            let b = concat(a.as_str(), " with err: ");
            DownloadResult::Failed(concat(b.as_str(), e.as_str()))
        },
    }
}

/// `seen` followed by the packages of `found`, in order, that `seen` does not
/// hold yet, each once.
pub open spec fn add_unseen_packages(seen: Seq<PackageView>, found: Seq<PackageView>) -> Seq<PackageView>
    decreases found.len(),
{
    if found.len() == 0 {
        seen
    } else {
        let t = add_unseen_packages(seen, found.drop_last());
        if t.contains(found.last()) {
            t
        } else {
            t.push(found.last())
        }
    }
}

/// No package occurs twice in `s`.
pub open spec fn distinct_packages(s: Seq<PackageView>) -> bool {
    forall|i: int, j: int| 0 <= i < j < s.len() ==> s[i] != s[j]
}

/// Whether `all` holds the package `p`.
fn holds_package(all: &Vec<Package>, p: &Package) -> (res: bool)
    ensures
        res == package_views(all@).contains(p@),
{
    let mut i: usize = 0;
    while i < all.len()
        invariant
            i <= all@.len(),
            forall|k: int| 0 <= k < i ==> all@[k]@ != p@,
        decreases all@.len() - i,
    {
        if all[i].same_as(p) {
            assert(package_views(all@)[i as int] == p@);
            return true;
        }
        i = i + 1;
    }
    assert forall|k: int| 0 <= k < package_views(all@).len() implies package_views(all@)[k] != p@ by {
        assert(package_views(all@)[k] == all@[k]@);
    }
    false
}

/// One level of the walk through the packages to fetch: adds to `all` the
/// packages `found` names that it does not hold yet, in order and each
/// once, and returns those packages, whose transitive packages are the
/// next level.
pub fn add_new_packages(all: &mut Vec<Package>, found: Vec<Package>) -> (res: Vec<Package>)
    ensures
        package_views(final(all)@) == add_unseen_packages(package_views(old(all)@), package_views(found@)),
        package_views(res@) == package_views(final(all)@).skip(old(all)@.len() as int),
        distinct_packages(package_views(old(all)@)) ==> distinct_packages(package_views(final(all)@)),
{
    let ghost start = package_views(all@);
    let mut res: Vec<Package> = Vec::new();
    let mut i: usize = 0;
    while i < found.len()
        invariant
            i <= found@.len(),
            start.len() <= all@.len(),
            package_views(all@) == add_unseen_packages(start, package_views(found@).take(i as int)),
            package_views(res@) == package_views(all@).skip(start.len() as int),
            distinct_packages(start) ==> distinct_packages(package_views(all@)),
        decreases found@.len() - i,
    {
        proof {
            assert(package_views(found@).take(i + 1).drop_last() =~= package_views(found@).take(i as int));
            assert(package_views(found@).take(i + 1).last() == found@[i as int]@);
        }
        let p = &found[i];
        if !holds_package(all, p) {
            let ghost before_all = package_views(all@);
            let ghost before_res = package_views(res@);
            all.push(p.duplicate());
            res.push(p.duplicate());
            proof {
                assert(package_views(all@) =~= before_all.push(p@));
                assert(package_views(res@) =~= before_res.push(p@));
                assert(package_views(res@) =~= package_views(all@).skip(start.len() as int));
            }
        }
        i = i + 1;
    }
    proof {
        assert(package_views(found@).take(i as int) =~= package_views(found@));
    }
    res
}

/// The packages still to download: those not cached,
/// in order; `cached[i]` tells whether `pkgs[i]` is.
pub fn packages_to_download(pkgs: &Vec<Package>, cached: &Vec<bool>) -> (res: Vec<Package>)
    requires
        cached@.len() == pkgs@.len(),
    ensures
        res@ == not_cached(pkgs@, cached@),
{
    let mut res: Vec<Package> = Vec::new();
    let mut i: usize = 0;
    while i < pkgs.len()
        invariant
            cached@.len() == pkgs@.len(),
            i <= pkgs@.len(),
            res@ == not_cached(pkgs@.take(i as int), cached@.take(i as int)),
        decreases pkgs@.len() - i,
    {
        proof {
            assert(pkgs@.take(i + 1).drop_last() =~= pkgs@.take(i as int));
            assert(cached@.take(i + 1).drop_last() =~= cached@.take(i as int));
        }
        if !cached[i] {
            res.push(pkgs[i].duplicate());
        }
        i = i + 1;
    }
    proof {
        assert(pkgs@.take(i as int) =~= pkgs@);
        assert(cached@.take(i as int) =~= cached@);
    }
    res
}

/// The packages whose flag is not set, in order.
pub open spec fn not_cached(pkgs: Seq<Package>, cached: Seq<bool>) -> Seq<Package>
    decreases pkgs.len(),
{
    if pkgs.len() == 0 || cached.len() == 0 {
        Seq::empty()
    } else if cached.last() {
        not_cached(pkgs.drop_last(), cached.drop_last())
    } else {
        not_cached(pkgs.drop_last(), cached.drop_last()).push(pkgs.last())
    }
}

} // verus!
