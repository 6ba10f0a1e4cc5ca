use buildk::config::dependencies::{dependencies, Dependency, Kind};
use buildk::config::project::{project, Project, ProjectError};
use buildk::config::toml::{parse_toml, TomlSection};

fn sections(text: &str) -> Vec<TomlSection> {
    parse_toml(text).expect("valid TOML")
}

fn deps(text: &str) -> Vec<Dependency> {
    dependencies(&sections(text)).expect("dependency tables")
}

fn version_for<'a>(deps: &'a [Dependency], lib: &str) -> Option<&'a str> {
    deps.iter().find(|d| d.name == lib).map(|d| d.version.as_str())
}

fn kind_for<'a>(deps: &'a [Dependency], lib: &str) -> Option<&'a Kind> {
    deps.iter().find(|d| d.name == lib).map(|d| &d.kind)
}

#[test]
fn single_dependency() {
    let dependencies = deps(r#"
[dependencies]
splendid = "4.0.0"
"#);

    assert_eq!(dependencies.len(), 1);
    assert_eq!(version_for(&dependencies, "splendid"), Some("4.0.0"));
}

#[test]
fn dependency_with_dotted_keys() {
    let dependencies = deps(r#"
[dependencies]
dotted.keys = "1.1"
"#);

    assert_eq!(dependencies.len(), 1);
    assert_eq!(version_for(&dependencies, "dotted.keys"), Some("1.1"));
}

#[test]
fn multiple_dependencies() {
    let dependencies = deps(r#"
[dependencies]
nice = "3.2.1"
amazing = "2.0"
"#);

    assert_eq!(dependencies.len(), 2);
    assert_eq!(version_for(&dependencies, "nice"), Some("3.2.1"));
    assert_eq!(version_for(&dependencies, "amazing"), Some("2.0"));
}

#[test]
fn single_test_dependency() {
    let dependencies = deps(r#"
[test-dependencies]
awesome = "1.2.3"
"#);

    assert_eq!(dependencies.len(), 1);
    assert_eq!(version_for(&dependencies, "awesome"), Some("1.2.3"));
}

#[test]
fn multiple_test_dependencies() {
    let dependencies = deps(r#"
[test-dependencies]
nice = "3.2.1"
amazing = "2.0"
"#);

    assert_eq!(dependencies.len(), 2);
    assert_eq!(version_for(&dependencies, "nice"), Some("3.2.1"));
    assert_eq!(version_for(&dependencies, "amazing"), Some("2.0"));
}

#[test]
fn multiple_dependencies_and_test_dependencies() {
    let dependencies = deps(r#"
[dependencies]
awesome.lib = "3.0.0"
another.amazing.dep = "2.4"

[test-dependencies]
splendid.test.lib = "3.2.1"
amazing = "2.0"
"#);

    assert_eq!(dependencies.len(), 4);
    assert_eq!(version_for(&dependencies, "awesome.lib"), Some("3.0.0"));
    assert_eq!(version_for(&dependencies, "another.amazing.dep"), Some("2.4"));
    assert_eq!(version_for(&dependencies, "splendid.test.lib"), Some("3.2.1"));
    assert_eq!(version_for(&dependencies, "amazing"), Some("2.0"));
}

#[test]
fn test_dependency_kind() {
    let dependencies = deps(r#"
[dependencies]
awesome.lib = "3.0.0"
[test-dependencies]
splendid.test.lib = "3.2.1"
"#);

    assert_eq!(dependencies.len(), 2);
    assert_eq!(kind_for(&dependencies, "awesome.lib"), Some(&Kind::PRODUCTION));
    assert_eq!(kind_for(&dependencies, "splendid.test.lib"), Some(&Kind::TEST));
}

#[test]
fn dependencies_keep_declaration_order_and_ignore_other_sections() {
    let dependencies = deps(r#"
[project]
main = "Main.kt"

[dependencies]
b.lib = "2"
a.lib = "1"
"#);
    let names: Vec<&str> = dependencies.iter().map(|d| d.name.as_str()).collect();
    assert_eq!(names, vec!["b.lib", "a.lib"]);
    assert!(dependencies.iter().all(|d| d.path.is_none() && d.url.is_none()));
}

#[test]
fn dependency_table_nesting_two_values_under_one_key_is_refused() {
    let text = r#"
[dependencies]
shared.one = "1"
shared.two = "2"
"#;
    assert!(dependencies(&sections(text)).is_none());
}

#[test]
fn non_string_dependency_values_are_skipped() {
    let dependencies = deps(r#"
[dependencies]
numeric = 3
good = "1.0"
"#);
    assert_eq!(dependencies.len(), 1);
    assert_eq!(version_for(&dependencies, "good"), Some("1.0"));
}

#[test]
fn dependencies_under_their_own_table_header() {
    let dependencies = deps(r#"
[dependencies]
a.b = "1"

[dependencies.foo]
bar = "2"

[dependencies.x.y]
z = "3"

[test-dependencies.t]
u = "4"
"#);
    let found: Vec<(&str, &str)> = dependencies.iter().map(|d| (d.name.as_str(), d.version.as_str())).collect();
    assert_eq!(found, vec![("a.b", "1"), ("foo.bar", "2"), ("x.y.z", "3"), ("t.u", "4")]);
    assert_eq!(kind_for(&dependencies, "t.u"), Some(&Kind::TEST));
    let nested_twice = sections(r#"
[dependencies.foo]
bar = "1"
baz = "2"
"#);
    assert!(buildk::config::dependencies::dependencies(&nested_twice).is_none());
}

#[test]
fn invalid_toml_is_refused() {
    assert!(parse_toml("[dependencies\nname = ").is_none());
}

// The project's directory is given to the library: the tests use a fixed
// working directory, and say whether the named path is a directory.
const CWD: &str = "/work/app";

fn project_of(text: &str, is_dir: bool) -> Project {
    project(&sections(text), CWD, is_dir).expect("a [project] table")
}

#[test]
fn project_main() {
    let project = project_of(r#"
[project]
main = "incredible.kt"
"#, true);
    assert_eq!(project.main, "incredible.kt");
    assert_eq!(project.compiled_main_file(), "incredibleKt")
}

#[test]
fn project_default_path() {
    let project = project_of(r#"[project]"#, true);
    assert_eq!(project.path, CWD)
}

#[test]
fn project_path() {
    let project = project_of(r#"
[project]
path = "/Users"
"#, true);
    assert_eq!(project.path, "/Users")
}

#[test]
fn project_relative_path() {
    let project = project_of(r#"
[project]
relative-path = "src"
"#, true);
    assert_eq!(project.path, "/work/app/src")
}

#[test]
fn project_default_src() {
    let project = project_of(r#"[project]"#, true);
    assert_eq!(project.src, "/work/app/src")
}

#[test]
fn project_default_test() {
    let project = project_of(r#"[project]"#, true);
    assert_eq!(project.test, "/work/app/test")
}

#[test]
fn project_default_out_path() {
    let project = project_of(r#"[project]"#, true);
    assert_eq!(project.out.path, "/work/app/out");
}

#[test]
fn project_default_out_src() {
    let project = project_of(r#"[project]"#, true);
    assert_eq!(project.out.src, "/work/app/out/src");
}

#[test]
fn project_default_out_test() {
    let project = project_of(r#"[project]"#, true);
    assert_eq!(project.out.test, "/work/app/out/test");
}

#[test]
fn project_default_out_test_report() {
    let project = project_of(r#"[project]"#, true);
    assert_eq!(project.out.test_report, "/work/app/out/test-report");
}

#[test]
fn project_default_out_cache() {
    let project = project_of(r#"[project]"#, true);
    assert_eq!(project.out.cache, "/work/app/out/cache.json");
}

#[test]
fn project_default_out_jar() {
    let project = project_of(r#"[project]"#, true);
    assert_eq!(project.out.jar, "/work/app/out/app.jar");
}

#[test]
fn test_main() {
    let project = project_of(r#"
[project]
main = "incredible.kt"
"#, true);
    assert_eq!(project.compiled_main_file(), "incredibleKt")
}

#[test]
fn test_default_path() {
    let project = project_of(r#"[project]"#, true);
    assert_eq!(project.path, CWD)
}

#[test]
fn test_path() {
    let project = project_of(r#"
[project]
path = "/Users"
"#, true);
    assert_eq!(project.path, "/Users")
}

#[test]
fn test_relative_path() {
    let project = project_of(r#"
[project]
relative-path = "src"
"#, true);
    assert_eq!(project.path, "/work/app/src")
}

#[test]
fn test_default_src() {
    let project = project_of(r#"[project]"#, true);
    assert_eq!(project.src, "/work/app/src")
}

#[test]
fn test_default_test() {
    let project = project_of(r#"[project]"#, true);
    assert_eq!(project.test, "/work/app/test")
}

#[test]
fn test_default_out_path() {
    let project = project_of(r#"[project]"#, true);
    assert_eq!(project.out.path, "/work/app/out");
}

#[test]
fn test_default_out_src() {
    let project = project_of(r#"[project]"#, true);
    assert_eq!(project.out.src, "/work/app/out/src");
}

#[test]
fn test_default_out_test() {
    let project = project_of(r#"[project]"#, true);
    assert_eq!(project.out.test, "/work/app/out/test");
}

#[test]
fn test_default_out_test_report() {
    let project = project_of(r#"[project]"#, true);
    assert_eq!(project.out.test_report, "/work/app/out/test-report");
}

#[test]
fn test_default_out_cache() {
    let project = project_of(r#"[project]"#, true);
    assert_eq!(project.out.cache, "/work/app/out/cache.json");
}

#[test]
fn test_default_out_jar() {
    let project = project_of(r#"[project]"#, true);
    assert_eq!(project.out.jar, "/work/app/out/app.jar");
}

#[test]
fn project_path_that_is_not_a_directory_falls_back_to_the_default() {
    let project = project_of(r#"
[project]
path = "/missing"
main = "App.kt"
"#, false);
    assert_eq!(project.path, CWD);
    assert_eq!(project.main, "Main.kt");
}

#[test]
fn project_relative_path_needs_an_absolute_directory() {
    let text = r#"
[project]
relative-path = "src"
"#;
    let project = project(&sections(text), "relative/cwd", true).expect("a [project] table");
    assert_eq!(project.path, "relative/cwd");
}

#[test]
fn project_without_project_table_is_none() {
    assert!(project(&sections("[dependencies]\na = \"1\""), CWD, true).is_none());
}

#[test]
fn project_new_errors() {
    assert!(matches!(Project::new(None, "/not/dir", false), Err(ProjectError::NotADirectory)));
    assert!(matches!(Project::new(None, "rel/dir", true), Err(ProjectError::NotAbsolute)));
    let p = Project::new(Some("App.kt"), "/abs", true).ok().expect("valid project");
    assert_eq!(p.main, "App.kt");
    assert_eq!(p.out.jar, "/abs/out/app.jar");
}
