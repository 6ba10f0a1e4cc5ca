use buildk::command::plans::{build_src_plan, build_test_plan, release_plan, run_plan, test_plan};
use buildk::config::classpath::Classpath;
use buildk::config::layout::Kotlin;
use buildk::config::manifest::{manifest_dependencies, Config, Manifest};
use buildk::config::project::Project;
use buildk::config::toml::{parse_toml, TomlSection};
use buildk::config::dependency::Kind;
use buildk::config::dependencies::{Dependency as Declared, Kind as DeclaredKind};
use buildk::package::{Package, PackageKind};

const CACHE: &str = "/home/me/.buildk/cache";

fn sections(text: &str) -> Vec<TomlSection> {
    parse_toml(text).expect("valid TOML")
}

#[test]
fn manifest_dependencies_are_sorted_within_a_table() {
    let deps = manifest_dependencies(&sections(r#"
[dependencies]
org.zeta.lib = "1.0"
org.alpha.lib = "2.0"

[project]
main = "Main.kt"

[test-dependencies]
org.junit.jupiter-api = "5.0"
"#), CACHE);
    let names: Vec<(&str, &str, Kind)> = deps.iter().map(|d| (d.name.as_str(), d.version.as_str(), d.kind)).collect();
    assert_eq!(names, vec![
        ("org.alpha.lib", "2.0", Kind::Source),
        ("org.zeta.lib", "1.0", Kind::Source),
        ("org.junit.jupiter-api", "5.0", Kind::Test),
    ]);
    assert_eq!(deps[0].target_dir, "/home/me/.buildk/cache/org/alpha/lib");
}

#[test]
fn manifest_dependencies_skip_what_does_not_resolve() {
    let deps = manifest_dependencies(&sections(r#"
[dependencies]
number = 5
"ends.in.dot." = "1"
good.lib = "1"
"#), CACHE);
    assert_eq!(deps.len(), 1);
    assert_eq!(deps[0].name, "good.lib");
}

#[test]
fn manifest_from_sections_and_display() {
    let m = Manifest::from_sections(&sections(r#"
[project]
main = "App.kt"

[dependencies]
org.lib = "1"
"#), "/work", true, CACHE);
    assert_eq!(m.project.main, "App.kt");
    assert!(m.modules.is_empty());
    assert_eq!(m.dependencies.len(), 1);
    let shown = m.display("/opt/kotlin");
    let lines: Vec<&str> = shown.lines().collect();
    assert_eq!(lines[0], "project.path              /work");
    assert_eq!(lines[3], "project.main              App.kt (AppKt)");
    assert_eq!(lines[4], "project.out.path          /work/out");
    assert_eq!(lines[9], "project.out.jar           /work/out/app.jar");
    assert_eq!(lines[10], "kotlin.path               /opt/kotlin");
    assert_eq!(lines[11], "dependency                org.lib:1");
    let none = Manifest::from_sections(&sections("[dependencies]"), "/cwd", true, CACHE);
    assert_eq!(none.project.path, "/cwd");
    let config = Config { home: "/home/me/.buildk".to_string(), manifest: m, classpath: Classpath::new() };
    assert!(config.display("/k").starts_with("buildk.home:              /home/me/.buildk\nproject.path"));
    assert_eq!(Kotlin::defaults().display(), "kotlin.path:              ..kotlinc\n");
}

#[test]
fn dependency_display_lines() {
    let d = Declared::new(DeclaredKind::TEST, "a.b", "1");
    assert_eq!(d.display(), "test-dependency           a.b:1\n");
    let rich = buildk::config::dependency::Dependency::new(Kind::Source, "x.y", "2", CACHE).unwrap();
    assert_eq!(rich.display(), "dependency                x.y:2\n");
}

fn project() -> Project {
    Project::new(Some("Main.kt"), "/p", true).ok().expect("a project")
}

fn pkg(name: &str) -> Package {
    Package::new_in("/c", name.to_string(), Some("ns".to_string()), "1".to_string(), PackageKind::Compile)
}

#[test]
fn compile_plans() {
    let p = project();
    assert!(build_src_plan(&p, &vec![], &vec![]).is_none());
    let plan = build_src_plan(&p, &vec!["/p/src/A.kt".to_string(), "/p/src/B.kt".to_string()], &vec![5, 7])
        .expect("files to compile");
    assert_eq!(plan.dir, "/p");
    assert_eq!(plan.sources, vec!["/p/src/A.kt", "/p/src/B.kt"]);
    assert_eq!(plan.target, "/p/out/src");
    assert_eq!(plan.cache_key, Some(12));
    assert!(plan.classpath.is_empty());
    assert!(build_test_plan(&p, false, &vec![]).is_none());
    let t = build_test_plan(&p, true, &vec![pkg("junit")]).expect("a test directory");
    assert_eq!(t.sources, vec!["/p/test"]);
    assert_eq!(t.classpath, vec!["/p/out/src", "/c/ns/junit/1/pkg.jar"]);
    assert_eq!(t.target, "/p/out/test");
    let r = release_plan(&p);
    assert!(r.include_runtime);
    assert_eq!(r.target, "/p/out/app.jar");
    assert_eq!(r.sources, vec!["/p/src"]);
}

#[test]
fn run_plans() {
    let p = project();
    let run = run_plan(&p, &vec![pkg("rt")], &vec![pkg("kotlin-stdlib")], None);
    assert_eq!(run.classpath, vec![
        "/p/out/src",
        "/p/src",
        "/c/ns/rt/1/pkg.jar",
        "/c/ns/kotlin-stdlib/1/pkg.jar",
    ]);
    assert_eq!(run.main.as_deref(), Some("MainKt"));
    assert_eq!(run_plan(&p, &vec![], &vec![], Some("Other")).main.as_deref(), Some("OtherKt"));
    assert!(test_plan(&p, &vec![], &vec![pkg("other")]).is_none());
    let t = test_plan(&p, &vec![pkg("junit")], &vec![pkg("other"), pkg("kotlin-stdlib")]).expect("stdlib");
    assert_eq!(t.classpath, vec![
        "/p/out/src",
        "/p/out/test",
        "/c/ns/kotlin-stdlib/1/pkg.jar",
        "/c/ns/junit/1/pkg.jar",
    ]);
    assert_eq!(t.args[0], "org.junit.platform.console.ConsoleLauncher");
    assert_eq!(t.args.len(), 9);
    assert_eq!(t.test_report.as_deref(), Some("/p/out/test-report"));
}

#[test]
fn manifest_packages_split_names_at_the_last_dot() {
    let m = Manifest::from_sections(&sections(r#"
[dependencies]
org.jetbrains.kotlin.kotlin-stdlib = "1.9.22"

[test-dependencies]
org.junit.jupiter.junit-jupiter-api = "5.5.2"
"#), "/work", true, CACHE);
    let src = m.packages(Kind::Source, PackageKind::Compile, "/c");
    assert_eq!(src.len(), 1);
    assert_eq!(src[0].name, "kotlin-stdlib");
    assert_eq!(src[0].namespace.as_deref(), Some("org.jetbrains.kotlin"));
    assert_eq!(src[0].version, "1.9.22");
    assert_eq!(src[0].kind, PackageKind::Compile);
    assert_eq!(src[0].location, "/c/org.jetbrains.kotlin/kotlin-stdlib/1.9.22");
    let test = m.packages(Kind::Test, PackageKind::Test, "/c");
    assert_eq!(test.len(), 1);
    assert_eq!(test[0].name, "junit-jupiter-api");
    assert_eq!(test[0].kind, PackageKind::Test);
}

#[test]
fn manifest_dependencies_under_their_own_table_header() {
    let deps = manifest_dependencies(&sections(r#"
[dependencies]
org.zeta.lib = "1.0"

[dependencies.org.alpha]
lib = "2.0"
"#), CACHE);
    let names: Vec<(&str, &str)> = deps.iter().map(|d| (d.name.as_str(), d.version.as_str())).collect();
    assert_eq!(names, vec![("org.alpha.lib", "2.0"), ("org.zeta.lib", "1.0")]);
}
