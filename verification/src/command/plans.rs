//! What the commands that compile or run the project hand to the Kotlin
//! compiler and to the JVM: the sources, the classpath, the target, the main
//! class and the arguments.
use vstd::prelude::*;

use crate::config::project::Project;
use crate::package::{jar_path_of, package_views, Package, PackageView};
use crate::text::{concat, owned, replace, replace_spec, str_eq, views};

verus! {

/// A compilation: the directory it runs in, the sources, the classpath, where
/// the classes go, whether the Kotlin runtime is bundled, and the key it is
/// cached under.
#[derive(Clone, Debug)]
pub struct CompilePlan {
    pub dir: String,
    pub sources: Vec<String>,
    pub classpath: Vec<String>,
    pub target: String,
    pub include_runtime: bool,
    pub cache_key: Option<u64>,
}

/// The mathematical value of a compilation.
pub struct CompilePlanView {
    pub dir: Seq<char>,
    pub sources: Seq<Seq<char>>,
    pub classpath: Seq<Seq<char>>,
    pub target: Seq<char>,
    pub include_runtime: bool,
    pub cache_key: Option<u64>,
}

impl View for CompilePlan {
    type V = CompilePlanView;

    open spec fn view(&self) -> CompilePlanView {
        CompilePlanView {
            dir: self.dir@,
            sources: views(self.sources@),
            classpath: views(self.classpath@),
            target: self.target@,
            include_runtime: self.include_runtime,
            cache_key: self.cache_key,
        }
    }
}

/// A run of the JVM: the directory, the classpath, the main class, the
/// arguments after it, and where a test report goes.
#[derive(Clone, Debug)]
pub struct RunPlan {
    pub dir: String,
    pub classpath: Vec<String>,
    pub main: Option<String>,
    pub args: Vec<String>,
    pub test_report: Option<String>,
}

/// The mathematical value of a run.
pub struct RunPlanView {
    pub dir: Seq<char>,
    pub classpath: Seq<Seq<char>>,
    pub main: Option<Seq<char>>,
    pub args: Seq<Seq<char>>,
    pub test_report: Option<Seq<char>>,
}

impl View for RunPlan {
    type V = RunPlanView;

    open spec fn view(&self) -> RunPlanView {
        RunPlanView {
            dir: self.dir@,
            classpath: views(self.classpath@),
            main: crate::package::opt_view(self.main),
            args: views(self.args@),
            test_report: crate::package::opt_view(self.test_report),
        }
    }
}

/// The jars of the packages, in order.
pub open spec fn jars_of(pkgs: Seq<PackageView>) -> Seq<Seq<char>> {
    pkgs.map_values(|p: PackageView| jar_path_of(p.location))
}

/// The sum of the fingerprints.
pub open spec fn fingerprint_sum(fps: Seq<u64>) -> int
    decreases fps.len(),
{
    if fps.len() == 0 {
        0
    } else {
        fingerprint_sum(fps.drop_last()) + fps.last()
    }
}

/// The sum of a prefix is at most the sum of the whole.
proof fn lemma_fingerprint_sum_prefix(fps: Seq<u64>, i: int)
    requires
        0 <= i <= fps.len(),
    ensures
        fingerprint_sum(fps.take(i)) <= fingerprint_sum(fps),
    decreases fps.len() - i,
{
    if i < fps.len() {
        lemma_fingerprint_sum_prefix(fps, i + 1);
        assert(fps.take(i + 1).drop_last() =~= fps.take(i));
    } else {
        assert(fps.take(i) =~= fps);
    }
}

/// Appends the jars of the packages to the list.
fn push_jars(list: &mut Vec<String>, pkgs: &Vec<Package>)
    ensures
        views(final(list)@) == views(old(list)@) + jars_of(package_views(pkgs@)),
{
    let ghost start = views(list@);
    let ghost pv = package_views(pkgs@);
    let mut i: usize = 0;
    while i < pkgs.len()
        invariant
            pv == package_views(pkgs@),
            i <= pkgs@.len(),
            views(list@) == start + jars_of(pv.take(i as int)),
        decreases pkgs@.len() - i,
    {
        let jar = pkgs[i].jar_absolute_path();
        let ghost before = views(list@);
        list.push(jar);
        proof {
            assert(views(list@) =~= before.push(jar@));
            assert(jars_of(pv.take(i + 1)) =~= jars_of(pv.take(i as int)).push(jar_path_of(pkgs@[i as int]@.location)));
        }
        i = i + 1;
    }
    proof {
        assert(pv.take(i as int) =~= pv);
    }
}

/// Copies of strings given as slices.
fn owned_all(parts: &[&str]) -> (res: Vec<String>)
    ensures
        views(res@) == parts@.map_values(|s: &str| s@),
{
    let mut res: Vec<String> = Vec::new();
    let mut i: usize = 0;
    while i < parts.len()
        invariant
            i <= parts@.len(),
            views(res@) == parts@.take(i as int).map_values(|s: &str| s@),
        decreases parts@.len() - i,
    {
        let ghost before = views(res@);
        res.push(owned(parts[i]));
        proof {
            assert(views(res@) =~= before.push(parts@[i as int]@));
            assert(parts@.take(i + 1).map_values(|s: &str| s@) =~= parts@.take(i as int).map_values(
                |s: &str| s@,
            ).push(parts@[i as int]@));
        }
        i = i + 1;
    }
    proof {
        assert(parts@.take(i as int) =~= parts@);
    }
    res
}

/// Compiling the sources: nothing when no file is to be
/// compiled (the step is then cached); otherwise the files, in build order,
/// compiled in the project directory into the compiled sources, cached under
/// the sum of the files' fingerprints.
pub fn build_src_plan(project: &Project, files: &Vec<String>, fingerprints: &Vec<u64>) -> (res: Option<
    CompilePlan,
>)
    requires
        fingerprints@.len() == files@.len(),
        fingerprint_sum(fingerprints@) <= u64::MAX,
    ensures
        files@.len() == 0 ==> res is None,
        files@.len() > 0 ==> (res matches Some(p) && p@ == (CompilePlanView {
            dir: project.path@,
            sources: views(files@),
            classpath: Seq::empty(),
            target: project.out.src@,
            include_runtime: false,
            cache_key: Some(fingerprint_sum(fingerprints@) as u64),
        })),
{
    if files.len() == 0 {
        return None;
    }
    let mut key: u64 = 0;
    let mut i: usize = 0;
    while i < fingerprints.len()
        invariant
            i <= fingerprints@.len(),
            fingerprint_sum(fingerprints@) <= u64::MAX,
            key == fingerprint_sum(fingerprints@.take(i as int)),
        decreases fingerprints@.len() - i,
    {
        proof {
            assert(fingerprints@.take(i + 1).drop_last() =~= fingerprints@.take(i as int));
            lemma_fingerprint_sum_prefix(fingerprints@, i + 1);
        }
        key = key + fingerprints[i];
        i = i + 1;
    }
    proof {
        assert(fingerprints@.take(i as int) =~= fingerprints@);
    }
    let mut sources: Vec<String> = Vec::new();
    push_all(&mut sources, files);
    let plan = CompilePlan {
        dir: owned(project.path.as_str()),
        sources,
        classpath: Vec::new(),
        target: owned(project.out.src.as_str()),
        include_runtime: false,
        cache_key: Some(key),
    };
    proof {
        assert(plan@.classpath =~= Seq::<Seq<char>>::empty());
    }
    Some(plan)
}

/// Appends copies of the strings to the list.
fn push_all(list: &mut Vec<String>, items: &Vec<String>)
    ensures
        views(final(list)@) == views(old(list)@) + views(items@),
{
    let ghost start = views(list@);
    let mut i: usize = 0;
    while i < items.len()
        invariant
            i <= items@.len(),
            views(list@) == start + views(items@).take(i as int),
        decreases items@.len() - i,
    {
        let s = owned(items[i].as_str());
        let ghost before = views(list@);
        list.push(s);
        proof {
            assert(views(list@) =~= before.push(s@));
            assert(views(items@).take(i + 1) =~= views(items@).take(i as int).push(items@[i as int]@));
        }
        i = i + 1;
    }
    proof {
        assert(views(items@).take(i as int) =~= views(items@));
    }
}

/// Compiling the tests: nothing when the project has
/// no test directory; otherwise the test directory compiled in the project
/// directory into the compiled tests, against the compiled sources and the
/// jars of the cached test packages.
pub fn build_test_plan(project: &Project, test_dir_exists: bool, cached_test_pkgs: &Vec<Package>) -> (res:
    Option<CompilePlan>)
    ensures
        !test_dir_exists ==> res is None,
        test_dir_exists ==> (res matches Some(p) && p@ == (CompilePlanView {
            dir: project.path@,
            sources: seq![project.test@],
            classpath: seq![project.out.src@] + jars_of(package_views(cached_test_pkgs@)),
            target: project.out.test@,
            include_runtime: false,
            cache_key: None,
        })),
{
    if !test_dir_exists {
        return None;
    }
    let mut classpath: Vec<String> = Vec::new();
    classpath.push(owned(project.out.src.as_str()));
    proof {
        assert(views(classpath@) =~= seq![project.out.src@]);
    }
    push_jars(&mut classpath, cached_test_pkgs);
    let mut sources: Vec<String> = Vec::new();
    sources.push(owned(project.test.as_str()));
    let plan = CompilePlan {
        dir: owned(project.path.as_str()),
        sources,
        classpath,
        target: owned(project.out.test.as_str()),
        include_runtime: false,
        cache_key: None,
    };
    proof {
        assert(plan@.sources =~= seq![project.test@]);
    }
    Some(plan)
}

/// Packaging a release: the sources compiled in the
/// project directory into the jar, with the Kotlin runtime bundled.
pub fn release_plan(project: &Project) -> (res: CompilePlan)
    ensures
        res@ == (CompilePlanView {
            dir: project.path@,
            sources: seq![project.src@],
            classpath: Seq::empty(),
            target: project.out.jar@,
            include_runtime: true,
            cache_key: None,
        }),
{
    let mut sources: Vec<String> = Vec::new();
    sources.push(owned(project.src.as_str()));
    let plan = CompilePlan {
        dir: owned(project.path.as_str()),
        sources,
        classpath: Vec::new(),
        target: owned(project.out.jar.as_str()),
        include_runtime: true,
        cache_key: None,
    };
    proof {
        assert(plan@.sources =~= seq![project.src@]);
        assert(plan@.classpath =~= Seq::<Seq<char>>::empty());
    }
    plan
}

/// Running the application: in the project directory, with
/// the compiled sources, the source directory and the jars of the runtime
/// and then the compile packages on the classpath, running the class given
/// (with `Kt` appended) or else the class of the project's main file.
pub fn run_plan(project: &Project, runtime: &Vec<Package>, compile: &Vec<Package>, class: Option<&str>) -> (res:
    RunPlan)
    ensures
        res@ == (RunPlanView {
            dir: project.path@,
            classpath: seq![project.out.src@, project.src@] + jars_of(package_views(runtime@)) + jars_of(
                package_views(compile@),
            ),
            main: Some(
                match class {
                    Some(c) => c@ + "Kt"@,
                    None => replace_spec(project.main@, ".kt"@, "Kt"@),
                },
            ),
            args: Seq::empty(),
            test_report: None,
        }),
{
    proof {
        reveal_strlit(".kt");
    }
    let mut classpath: Vec<String> = Vec::new();
    classpath.push(owned(project.out.src.as_str()));
    classpath.push(owned(project.src.as_str()));
    proof {
        assert(views(classpath@) =~= seq![project.out.src@, project.src@]);
    }
    push_jars(&mut classpath, runtime);
    push_jars(&mut classpath, compile);
    let main = match class {
        Some(c) => concat(c, "Kt"),
        None => replace(project.main.as_str(), ".kt", "Kt"),
    };
    let plan = RunPlan {
        dir: owned(project.path.as_str()),
        classpath,
        main: Some(main),
        args: Vec::new(),
        test_report: None,
    };
    proof {
        assert(plan@.args =~= Seq::<Seq<char>>::empty());
    }
    plan
}

/// The first package named `kotlin-stdlib`, if any.
pub open spec fn kotlin_stdlib_of(pkgs: Seq<PackageView>) -> Option<int>
    decreases pkgs.len(),
{
    if pkgs.len() == 0 {
        None
    } else if pkgs[0].name == "kotlin-stdlib"@ {
        Some(0)
    } else {
        match kotlin_stdlib_of(pkgs.skip(1)) {
            Some(i) => Some(i + 1),
            None => None,
        }
    }
}

/// The arguments the JUnit console launcher runs the tests with.
pub open spec fn junit_args() -> Seq<Seq<char>> {
    seq![
        "org.junit.platform.console.ConsoleLauncher"@,
        "--scan-classpath"@,
        "--details"@,
        "tree"@,
        "--disable-banner"@,
        "--exclude-engine"@,
        "junit-vintage"@,
        "--exclude-engine"@,
        "junit-platform-suite"@,
    ]
}

/// Running the tests with JUnit 5: in the project
/// directory, with the compiled sources, the compiled tests, the Kotlin
/// standard library among the compile packages and the jars of the test
/// packages on the classpath, the console launcher scanning the classpath and
/// reporting into the test report directory. `None` when no compile package
/// is the Kotlin standard library.
pub fn test_plan(project: &Project, test_pkgs: &Vec<Package>, compile: &Vec<Package>) -> (res: Option<RunPlan>)
    ensures
        match kotlin_stdlib_of(package_views(compile@)) {
            None => res is None,
            Some(i) => res matches Some(p) && p@ == (RunPlanView {
                dir: project.path@,
                classpath: seq![
                    project.out.src@,
                    project.out.test@,
                    jar_path_of(package_views(compile@)[i].location),
                ] + jars_of(package_views(test_pkgs@)),
                main: None,
                args: junit_args(),
                test_report: Some(project.out.test_report@),
            }),
        },
{
    let ghost cv = package_views(compile@);
    let mut i: usize = 0;
    proof {
        assert(cv.skip(0) =~= cv);
    }
    while i < compile.len()
        invariant
            cv == package_views(compile@),
            i <= compile@.len(),
            kotlin_stdlib_of(cv) == match kotlin_stdlib_of(cv.skip(i as int)) {
                Some(k) => Some(k + i),
                None => None,
            },
        ensures
            i <= compile@.len(),
            kotlin_stdlib_of(cv) == match kotlin_stdlib_of(cv.skip(i as int)) {
                Some(k) => Some(k + i),
                None => None,
            },
            i < compile@.len() ==> cv[i as int].name == "kotlin-stdlib"@,
        decreases compile@.len() - i,
    {
        proof {
            assert(cv.skip(i as int)[0] == compile@[i as int]@);
            assert(cv.skip(i as int).skip(1) =~= cv.skip(i + 1));
        }
        if str_eq(compile[i].name.as_str(), "kotlin-stdlib") {
            proof {
                assert(cv[i as int] == compile@[i as int]@);
            }
            break;
        }
        i = i + 1;
    }
    if i == compile.len() {
        proof {
            assert(cv.skip(i as int).len() == 0);
        }
        return None;
    }
    proof {
        assert(cv.skip(i as int)[0].name == "kotlin-stdlib"@);
    }
    let stdlib = compile[i].jar_absolute_path();
    let mut classpath: Vec<String> = Vec::new();
    classpath.push(owned(project.out.src.as_str()));
    classpath.push(owned(project.out.test.as_str()));
    classpath.push(stdlib);
    proof {
        assert(views(classpath@) =~= seq![project.out.src@, project.out.test@, jar_path_of(cv[i as int].location)]);
    }
    push_jars(&mut classpath, test_pkgs);
    let args = owned_all(
        &[
            "org.junit.platform.console.ConsoleLauncher",
            "--scan-classpath",
            "--details",
            "tree",
            "--disable-banner",
            "--exclude-engine",
            "junit-vintage",
            "--exclude-engine",
            "junit-platform-suite",
        ],
    );
    let plan = RunPlan {
        dir: owned(project.path.as_str()),
        classpath,
        main: None,
        args,
        test_report: Some(owned(project.out.test_report.as_str())),
    };
    proof {
        assert(plan@.args =~= junit_args());
    }
    Some(plan)
}

} // verus!
