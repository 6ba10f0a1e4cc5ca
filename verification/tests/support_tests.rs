use buildk::cache::{Cache, CacheData, CacheResult, Output};
use buildk::command::build_tree::{file_name, import_edges, is_kotlin_file, sort_by_imports, tree_output};
use buildk::command::header::HeaderKt;
use buildk::config::classpath::Classpath;
use buildk::config::errors::CliError;
use buildk::config::layout::{Build as Layout, Kotlin};
use buildk::config::section::Section;
use buildk::console::Colorize;
use buildk::fs_toml::{
    default_build_output, default_build_src, default_build_test, default_project_dir, Build, BuildCache,
    Config, Project,
};
use buildk::command::cli::{Cli, Commands};
use buildk::http::{
    add_new_packages, combine, conclude_fetch, create_failed, download_outcome, packages_to_download, repository_served, resolve_url,
    Client, DownloadResult,
};
use buildk::output::{BuildkOutput, PartialConclusion};
use buildk::package::{Package, PackageKind};
use buildk::pipeline::{
    action, banner, build, cache_path, clean, compiled_dir, invocation, run, target, Action, Step,
};
use buildk::text::decimal;
use buildk::xml::{find_child_text, parse_xml};

#[test]
fn cache_records_and_gives_back() {
    let mut cache = Cache::load("/p/out/cache.json".to_string(), None);
    assert!(!cache.dirty);
    assert!(!cache.contains_key(&7));
    assert_eq!(cache.cache_file(7, "src/Main.kt"), PartialConclusion::SUCCESS);
    assert!(cache.dirty);
    assert!(cache.contains_key(&7));
    assert_eq!(cache.get(&7).action, "src/Main.kt");
    assert!(cache.get(&7).success);
    assert_eq!(cache.cache_file(7, "src/Main.kt"), PartialConclusion::CACHED);
    cache.invalidate();
    assert!(!cache.dirty);
    assert_eq!(cache.cache_dependency(9, "/c/ns/lib/1", "a.jar:b.jar".to_string()), PartialConclusion::SUCCESS);
    assert!(!cache.dirty);
    assert_eq!(cache.get(&9).stdout, "a.jar:b.jar");
    assert!(!cache.get(&9).success);
    assert_eq!(cache.cache_dependency(9, "/c/ns/lib/1", String::new()), PartialConclusion::CACHED);
    let mut out = Output::default();
    out.set_stdout("x".to_string());
    cache.insert(9, out);
    assert!(cache.dirty);
    assert_eq!(cache.get(&9).stdout, "x");
}

#[test]
fn cache_loaded_from_data() {
    let mut data = CacheData::empty();
    data.insert(1, Output::default());
    let cache = Cache::load("/c.json".to_string(), Some(data));
    assert!(cache.contains_key(&1));
    assert!(!cache.dirty);
    assert!(CacheData::default().outputs.is_empty());
}

#[test]
fn cache_results_as_outputs() {
    let r = CacheResult { conclusion: PartialConclusion::SUCCESS, stdout: None, stderr: Some("boom".to_string()), status: 2 };
    let out = r.into_output();
    assert_eq!(out.name, "temp");
    assert_eq!(out.conclusion, Some(PartialConclusion::FAILED));
    assert_eq!(out.status, 2);
    assert_eq!(out.stdout.as_deref(), Some(""));
    assert_eq!(out.stderr.as_deref(), Some("boom"));
    let ok = CacheResult { conclusion: PartialConclusion::CACHED, stdout: Some("o".to_string()), stderr: Some(String::new()), status: 0 };
    assert_eq!(ok.into_output().conclusion, Some(PartialConclusion::CACHED));
}

#[test]
fn outputs_collect_errors() {
    let mut out = BuildkOutput::new("fetch");
    assert!(out.get_stderr().is_none());
    out.append_stderr("first".to_string());
    out.append_stderr("second".to_string());
    assert_eq!(out.get_stderr().as_deref(), Some("first\nsecond"));
    out.conclude(PartialConclusion::FAILED);
    out.set_status(3);
    out.set_stdout("o".to_string());
    assert_eq!(out.conclusion, Some(PartialConclusion::FAILED));
    assert_eq!(out.status, 3);
}

fn pkg(namespace: Option<&str>) -> Package {
    Package::new_in("/c", "lib".to_string(), namespace.map(|s| s.to_string()), "1.0".to_string(), PackageKind::Compile)
}

#[test]
fn download_urls_and_outcomes() {
    assert_eq!(
        resolve_url(&pkg(Some("org.jetbrains.kotlin")), "https://repo1.maven.org/maven2"),
        Some("https://repo1.maven.org/maven2/org/jetbrains/kotlin/lib/1.0/lib-1.0".to_string())
    );
    assert_eq!(resolve_url(&pkg(None), "https://repo"), None);
    let failed = || DownloadResult::Failed("404".to_string());
    assert!(combine(failed(), DownloadResult::Downloaded).is_failed());
    assert!(combine(DownloadResult::Exist, failed()).is_failed());
    assert!(combine(DownloadResult::Exist, DownloadResult::Downloaded).is_downloaded());
    assert!(combine(DownloadResult::Exist, DownloadResult::Exist).is_cached());
    assert!(repository_served(&DownloadResult::Exist, &DownloadResult::Downloaded));
    assert!(!repository_served(&failed(), &DownloadResult::Downloaded));
}

#[test]
fn fetch_conclusions() {
    let mut out = BuildkOutput::new("fetch");
    conclude_fetch(&mut out, &vec![DownloadResult::Exist, DownloadResult::Exist]);
    assert_eq!(out.conclusion, Some(PartialConclusion::CACHED));
    assert!(out.stderr.is_none());
    let mut out = BuildkOutput::new("fetch");
    conclude_fetch(&mut out, &vec![DownloadResult::Exist, DownloadResult::Downloaded]);
    assert_eq!(out.conclusion, Some(PartialConclusion::SUCCESS));
    let mut out = BuildkOutput::new("fetch");
    conclude_fetch(&mut out, &vec![
        DownloadResult::Failed("a failed".to_string()),
        DownloadResult::Downloaded,
        DownloadResult::Failed("b failed".to_string()),
    ]);
    assert_eq!(out.conclusion, Some(PartialConclusion::FAILED));
    assert_eq!(out.stderr.as_deref(), Some("a failed\nb failed"));
}

#[test]
fn colours() {
    assert_eq!("x".to_black(), "\x1b[30mx\x1b[0m");
    assert_eq!("x".to_red(), "\x1b[31mx\x1b[0m");
    assert_eq!("x".to_green(), "\x1b[32mx\x1b[0m");
    assert_eq!("x".to_yellow(), "\x1b[33mx\x1b[0m");
    assert_eq!("x".to_blue(), "\x1b[34mx\x1b[0m");
    assert_eq!("x".to_purple(), "\x1b[35mx\x1b[0m");
    assert_eq!("x".to_turquoise(), "\x1b[36mx\x1b[0m");
    assert_eq!("x".to_gray(), "\x1b[37mx\x1b[0m");
    assert_eq!("x".to_white(), "\x1b[38mx\x1b[0m");
}

#[test]
fn classpaths_hold_each_path_once() {
    let mut cp = Classpath::new();
    cp.add_src("a.jar");
    cp.add_src("a.jar");
    cp.extend_src(&vec!["b.jar".to_string(), "a.jar".to_string()]);
    cp.add_test("t.jar");
    cp.extend_test(&vec!["t.jar".to_string()]);
    let mut src = cp.get_src();
    src.sort();
    assert_eq!(src, vec!["a.jar".to_string(), "b.jar".to_string()]);
    assert_eq!(cp.get_test(), vec!["t.jar".to_string()]);
}

#[test]
fn cli_errors() {
    let e = CliError::new("bad".to_string(), 4);
    assert_eq!((e.error.as_deref(), e.exit_code), (Some("bad"), 4));
    assert_eq!(CliError::code(2).error, None);
    assert_eq!(CliError::from_failure("f".to_string()).exit_code, 101);
    assert_eq!(CliError::from_io("io".to_string()).exit_code, 1);
}

#[test]
fn layouts() {
    let b = Layout::defaults();
    assert_eq!(b.output_src(), "build/src");
    assert_eq!(b.output_test(), "build/test");
    assert_eq!(b.output_test_report(), "build/test/report");
    assert_eq!(b.output_target(), "build/app.jar");
    assert_eq!(b.output_cache(), "build/cache.json");
    let k = Kotlin::defaults();
    assert_eq!(k.bin(), "..kotlinc/bin");
}

#[test]
fn sections() {
    assert_eq!(Section::parse("project"), Some(Section::Project));
    assert_eq!(Section::parse("module"), Some(Section::Module));
    assert_eq!(Section::parse("dependencies"), Some(Section::Dependencies));
    assert_eq!(Section::parse("test-dependencies"), Some(Section::TestDependencies));
    assert_eq!(Section::parse("Project"), None);
}

#[test]
fn decimals() {
    assert_eq!(decimal(0), "0");
    assert_eq!(decimal(7), "7");
    assert_eq!(decimal(10), "10");
    assert_eq!(decimal(1234567890), "1234567890");
    assert_eq!(decimal(usize::MAX), usize::MAX.to_string());
}

fn config() -> Config {
    Config {
        project: Project { main: "Main.kt".to_string(), dir: "/p".to_string() },
        build: Build::defaults(),
    }
}

#[test]
fn build_settings() {
    let c = config();
    assert_eq!(c.build.output_src(), "build/src");
    assert_eq!(c.build.output_test(), "build/test");
    assert_eq!(c.build.target(), "build/app.jar");
    assert_eq!(c.build.cache(), "build/cache.toml");
    assert_eq!(c.project.main_class(), "MainKt");
    assert!(c.is_app());
    assert_eq!(default_build_output(), "build");
    assert_eq!(default_build_src(), "src");
    assert_eq!(default_build_test(), "test");
    assert_eq!(default_project_dir(), ".");
    let mut record = BuildCache::empty();
    assert!(record.missing_src() && record.missing_test());
    record.set_src(vec!["MainKt.class".to_string()]);
    assert!(!record.missing_src() && record.missing_test());
    record.set_test(vec!["MainTestKt.class".to_string()]);
    assert!(!record.missing_test());
}

fn args(a: &Action) -> Vec<String> {
    match a {
        Action::Invoke(i) => i.args.clone(),
        _ => panic!("not an invocation"),
    }
}

#[test]
fn build_steps_and_invocations() {
    assert_eq!(build(), vec![Step::BuildSrc, Step::BuildTest]);
    assert_eq!(clean(), vec![Step::CleanBuildDir]);
    assert_eq!(target(), vec![Step::BuildSrc, Step::Jar]);
    assert_eq!(run(), vec![Step::RunApp]);
    assert_eq!(buildk::pipeline::test(), vec![Step::BuildSrc, Step::BuildTest, Step::RunTests]);
    let c = config();
    let src = invocation(Step::BuildSrc, &c);
    assert_eq!(src.program, "../kotlinc/bin/kotlinc-jvm");
    assert_eq!(src.dir, "/p");
    assert_eq!(src.args, vec!["src", "-d", "build/src"]);
    assert_eq!(invocation(Step::BuildTest, &c).args, vec![
        "test",
        "-cp",
        "build/src:../kotlinc/lib/kotlin-test-junit5.jar:../kotlinc/lib/kotlin-test.jar:libs/junit-platform-console-standalone-1.9.2.jar",
        "-d",
        "build/test",
    ]);
    assert_eq!(invocation(Step::Jar, &c).args, vec!["src", "-include-runtime", "-d", "build/app.jar"]);
    let app = invocation(Step::RunApp, &c);
    assert_eq!(app.program, "java");
    assert_eq!(app.args, vec!["-cp", "src", "MainKt"]);
    assert_eq!(invocation(Step::RunTests, &c).args, vec![
        "-jar",
        "libs/junit-platform-console-standalone-1.9.2.jar",
        "-cp",
        "build/src:build/test",
        "--select-class",
        "PrefixTest",
    ]);
}

#[test]
fn build_actions_follow_the_record() {
    let c = config();
    let mut record = BuildCache::empty();
    assert_eq!(args(&action(Step::BuildSrc, &c, &record)), vec!["src", "-d", "build/src"]);
    record.set_src(vec!["MainKt.class".to_string()]);
    assert!(matches!(action(Step::BuildSrc, &c, &record), Action::Cached));
    assert!(matches!(action(Step::BuildTest, &c, &record), Action::Invoke(_)));
    match action(Step::CleanBuildDir, &c, &record) {
        Action::Remove(dir) => assert_eq!(dir, "/p/build"),
        _ => panic!("cleaning removes the output directory"),
    }
    assert_eq!(compiled_dir(Step::BuildSrc, &c), Some("/p/build/src".to_string()));
    assert_eq!(compiled_dir(Step::BuildTest, &c), Some("/p/build/test".to_string()));
    assert_eq!(compiled_dir(Step::Jar, &c), None);
    assert_eq!(cache_path(&c), "/p/build/cache.toml");
}

#[test]
fn build_banners() {
    let c = config();
    assert_eq!(banner(Step::BuildSrc, &c), "\u{25b8} build  src    ");
    assert_eq!(banner(Step::BuildTest, &c), "\u{25b8} build  test   ");
    assert_eq!(banner(Step::CleanBuildDir, &c), "\u{25b8} clean  build  ");
    assert_eq!(banner(Step::Jar, &c), "\u{25b8} target build/app.jar");
    assert_eq!(banner(Step::RunApp, &c), "\u{25b8} run    MainKt ");
    assert_eq!(banner(Step::RunTests, &c), "\u{25b8} run    test   ");
}

fn header(file: &str, content: &str) -> HeaderKt {
    HeaderKt::parse(file, content)
}

#[test]
fn build_tree_orders_by_imports() {
    let headers = vec![
        header("src/app/Main.kt", "package app.main.Main\nimport lib.util.Strings\n"),
        header("src/lib/Strings.kt", "package lib.util.Strings\n"),
        header("src/lib/Other.kt", "package other.x.Y\nimport lib.util.Z\n"),
    ];
    assert_eq!(import_edges(&headers), vec![(1, 0), (1, 2)]);
    let sorted = sort_by_imports(&headers).expect("no cycle");
    assert_eq!(sorted.len(), 3);
    let pos = |f: &str| sorted.iter().position(|s| s == f).unwrap();
    assert!(pos("src/lib/Strings.kt") < pos("src/app/Main.kt"));
    assert!(pos("src/lib/Strings.kt") < pos("src/lib/Other.kt"));
    let out = tree_output(&Some(vec!["src/a/A.kt".to_string(), "B.kt".to_string()]));
    assert_eq!(out.conclusion, Some(PartialConclusion::SUCCESS));
    assert_eq!(out.stdout.as_deref(), Some("A.kt\nB.kt\n"));
}

#[test]
fn build_tree_reports_cycles() {
    let headers = vec![
        header("A.kt", "package a.x.A\nimport b.y.B\n"),
        header("B.kt", "package b.y.B\nimport a.x.A\n"),
    ];
    assert!(sort_by_imports(&headers).is_none());
    let own = vec![header("S.kt", "package s.t.S\nimport s.t.Other\n")];
    assert!(sort_by_imports(&own).is_none());
    let out = tree_output(&None);
    assert_eq!(out.conclusion, Some(PartialConclusion::FAILED));
    assert_eq!(out.stdout.as_deref(), Some("cyclic dependency detected"));
    assert_eq!(out.stderr.as_deref(), Some("graph contains cycle"));
}

#[test]
fn kotlin_files() {
    assert_eq!(file_name("src/main/Main.kt"), "Main.kt");
    assert_eq!(file_name("Main.kt"), "Main.kt");
    assert!(is_kotlin_file("src/Main.kt"));
    assert!(is_kotlin_file("a.b.kt"));
    assert!(!is_kotlin_file("src/.kt"));
    assert!(!is_kotlin_file("src/Main.kts"));
    assert!(!is_kotlin_file("src/Main.kt.bak"));
    assert!(!is_kotlin_file("src/kt"));
}

#[test]
fn xml_navigation() {
    let doc = parse_xml("<project><groupId>g</groupId><version>1</version></project>").expect("xml");
    assert_eq!(find_child_text(&doc, doc[1].id, "groupId").as_deref(), Some("g"));
    assert_eq!(find_child_text(&doc, doc[1].id, "artifactId"), None);
    assert!(parse_xml("<a><b></a>").is_none());
}

#[test]
fn help_lists_the_commands() {
    let help = buildk::command::cli::help_text();
    let lines: Vec<&str> = help.lines().collect();
    assert_eq!(lines.len(), 12);
    assert_eq!(lines[0], "───────────┬─────────────────────");
    assert_eq!(lines[1], "clean      │ clean the project");
    assert_eq!(lines[8], "deps       │ print the dependencies");
    assert_eq!(lines[10], "help       │ print this help");
    assert_eq!(lines[11], "───────────┴─────────────────────");
}

#[test]
fn quiet_command_lines() {
    let cli = Cli { command: Commands::Deps { limit: Some(2) }, quiet: true };
    assert!(cli.is_quiet());
    assert!(!Cli { command: Commands::Tree, quiet: false }.is_quiet());
}

#[test]
fn package_files_to_fetch() {
    let p = Package::new_in("/c", "lib".to_string(), Some("ns".to_string()), "1".to_string(), PackageKind::Compile);
    let files = Client::package_files(&p, "https://r/ns/lib/1/lib-1");
    assert_eq!(files, vec![
        ("https://r/ns/lib/1/lib-1.jar".to_string(), "/c/ns/lib/1/pkg.jar".to_string()),
        ("https://r/ns/lib/1/lib-1.pom".to_string(), "/c/ns/lib/1/maven.xml".to_string()),
        ("https://r/ns/lib/1/lib-1-sources.jar".to_string(), "/c/ns/lib/1/sources.jar".to_string()),
        ("https://r/ns/lib/1/lib-1.module".to_string(), "/c/ns/lib/1/gradle.json".to_string()),
    ]);
    match create_failed("denied") {
        DownloadResult::Failed(m) => assert_eq!(m, "Failed to create target file: denied"),
        _ => panic!("a failure"),
    }
    match download_outcome("u", Err("404 Not Found".to_string())) {
        DownloadResult::Failed(m) => assert_eq!(m, "Failed to download file from u with err: 404 Not Found"),
        _ => panic!("a failure"),
    }
    assert!(download_outcome("u", Ok(())).is_downloaded());
    let q = Package::new_in("/c", "other".to_string(), None, "2".to_string(), PackageKind::Test);
    let pending = packages_to_download(&vec![p.duplicate(), q.duplicate()], &vec![true, false]);
    assert_eq!(pending.len(), 1);
    assert_eq!(pending[0].name, "other");
}

#[test]
fn package_walk_adds_each_package_once() {
    let a = Package::new_in("/c", "a".to_string(), None, "1".to_string(), PackageKind::Compile);
    let b = Package::new_in("/c", "b".to_string(), None, "1".to_string(), PackageKind::Compile);
    let c = Package::new_in("/c", "c".to_string(), None, "1".to_string(), PackageKind::Compile);
    let mut all: Vec<Package> = Vec::new();
    let first = add_new_packages(&mut all, vec![a.duplicate(), b.duplicate(), a.duplicate()]);
    assert_eq!(first.iter().map(|p| p.name.as_str()).collect::<Vec<_>>(), vec!["a", "b"]);
    let second = add_new_packages(&mut all, vec![b.duplicate(), c.duplicate(), c.duplicate()]);
    assert_eq!(second.iter().map(|p| p.name.as_str()).collect::<Vec<_>>(), vec!["c"]);
    assert_eq!(all.iter().map(|p| p.name.as_str()).collect::<Vec<_>>(), vec!["a", "b", "c"]);
    assert!(add_new_packages(&mut all, vec![a]).is_empty());
    assert_eq!(all.len(), 3);
}

#[test]
fn extending_a_classpath_is_adding_each_path() {
    let paths = vec!["b.jar".to_string(), "a.jar".to_string(), "b.jar".to_string()];
    let mut extended = Classpath::new();
    extended.add_src("c.jar");
    extended.add_test("t.jar");
    extended.extend_src(&paths);
    let mut added = Classpath::new();
    added.add_src("c.jar");
    added.add_test("t.jar");
    for p in &paths {
        added.add_src(p);
    }
    let (mut e, mut a) = (extended.get_src(), added.get_src());
    e.sort();
    a.sort();
    assert_eq!(e, a);
    assert_eq!(e, vec!["a.jar".to_string(), "b.jar".to_string(), "c.jar".to_string()]);
    assert_eq!(extended.get_test(), vec!["t.jar".to_string()]);
}
