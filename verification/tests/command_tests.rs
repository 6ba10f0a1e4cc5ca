use buildk::command::clean::{clean_dir, clean_outcome, OS_2_ERROR};
use buildk::command::cli::{main_class, CleanSet, Cmd};
use buildk::command::coords::{dep_path_coordinates, name_namespace_version};
use buildk::command::dep_tree::{
    build_termtree, deps_forest, deps_output, deps_summary, termtree_status, TermtreeError,
};
use buildk::command::deps::{
    contains_dependency, display, find_dependent_deps_step, status, termtree_display, Counter,
};
use buildk::command::header::HeaderKt;
use buildk::command::walk::{acc_transitive_unique, find_node, language_server_classpath, DepNode};
use buildk::config::dependency::{dependency_info, DependenciesKind, Dependency, Kind};
use buildk::config::project::ProjectOutput;
use buildk::output::PartialConclusion;

const CACHE: &str = "/home/me/.buildk/cache";

fn dependency(name: &str, version: &str) -> Dependency {
    Dependency::new(Kind::Source, name, version, CACHE).expect("a valid name")
}

fn node(dep: &Dependency, transitives: Vec<Dependency>, jar_exists: bool, cached: bool) -> DepNode {
    DepNode { dep: dep.duplicate(), transitives, jar_exists, cached }
}

#[test]
fn rich_dependency_locations() {
    let d = dependency("org.apache.kafka.kafka-clients", "3.4.0");
    assert_eq!(d.url, "https://repo1.maven.org/maven2/org/apache/kafka/kafka-clients/3.4.0/");
    assert_eq!(d.target_dir, "/home/me/.buildk/cache/org/apache/kafka/kafka-clients");
    assert_eq!(d.jar, "kafka-clients-3.4.0.jar");
    assert_eq!(d.sources, "kafka-clients-3.4.0-sources.jar");
    assert_eq!(d.pom, "kafka-clients-3.4.0.pom");
    assert_eq!(d.module, "kafka-clients-3.4.0.module");
    assert_eq!(d.jar_path(), "/home/me/.buildk/cache/org/apache/kafka/kafka-clients/kafka-clients-3.4.0.jar");
    assert_eq!(d.pom_path(), "/home/me/.buildk/cache/org/apache/kafka/kafka-clients/kafka-clients-3.4.0.pom");
    assert_eq!(d.jar_url(), "https://repo1.maven.org/maven2/org/apache/kafka/kafka-clients/3.4.0/kafka-clients-3.4.0.jar");
    assert_eq!(d.pom_url(), "https://repo1.maven.org/maven2/org/apache/kafka/kafka-clients/3.4.0/kafka-clients-3.4.0.pom");
    assert!(Dependency::new(Kind::Source, "ends.with.dot.", "1", CACHE).is_none());
    assert!(dependency_info("a.b", "1", "/c").is_some());
    assert!(Dependency::from_toml(Kind::Test, "a.b", None, CACHE).is_none());
    assert_eq!(Dependency::from_toml(Kind::Test, "a.b", Some("2"), CACHE).map(|d| d.kind), Some(Kind::Test));
}

#[test]
fn rich_dependencies_by_kind() {
    let a = dependency("a.a", "1");
    let b = Dependency::new(Kind::Test, "b.b", "1", CACHE).unwrap();
    let c = dependency("c.c", "1");
    let all = vec![a.duplicate(), b.duplicate(), c.duplicate()];
    let copy: Vec<Dependency> = all.iter().map(|d| d.duplicate()).collect();
    let src: Vec<String> = copy.for_src().into_iter().map(|d| d.name).collect();
    let test: Vec<String> = all.for_test().into_iter().map(|d| d.name).collect();
    assert_eq!(src, vec!["a.a", "c.c"]);
    assert_eq!(test, vec!["b.b"]);
}

const POM: &str = r#"<project>
  <groupId>me</groupId>
  <dependencies>
    <dependency><groupId>org.one</groupId><artifactId>first</artifactId><version>1.0</version></dependency>
    <dependency><groupId>org.two</groupId><artifactId>second</artifactId><version>2.0</version></dependency>
  </dependencies>
</project>"#;

#[test]
fn rich_dependency_transitives_from_pom() {
    let d = dependency("me.app", "1");
    let ts = d.transitives(POM, CACHE);
    let names: Vec<(String, String)> = ts.iter().map(|t| (t.name.clone(), t.version.clone())).collect();
    assert_eq!(names, vec![
        ("org.one.first".to_string(), "1.0".to_string()),
        ("org.two.second".to_string(), "2.0".to_string()),
    ]);
    assert!(ts.iter().all(|t| t.kind == Kind::Source));
    assert!(d.transitives("not xml at all <", CACHE).is_empty());
}

#[test]
fn test_termtree() {
    let dep = dependency("org.jetbrains.kotlin.kotlin-stdlib", "1.9.22");
    let tree = build_termtree(&Vec::new(), &dep, vec![], 0, 1).ok().expect("a tree");
    for line in &tree.lines {
        println!("{:width$}{}", "", line.label, width = line.depth * 2);
    }
    println!("hit: {} miss: {}", tree.counter.hit, tree.counter.miss);
    assert_eq!(tree.lines.len(), 1);
    assert_eq!(tree.counter.hit + tree.counter.miss, 1);
}

fn small_graph() -> (Vec<DepNode>, Dependency, Dependency, Dependency, Dependency) {
    let a = dependency("g.a", "1");
    let b = dependency("g.b", "1");
    let c = dependency("g.c", "1");
    let d = dependency("g.d", "1");
    let g = vec![
        node(&a, vec![b.duplicate(), c.duplicate()], true, true),
        node(&b, vec![c.duplicate(), d.duplicate()], true, false),
        node(&c, vec![a.duplicate()], true, true),
        node(&d, vec![], false, false),
    ];
    (g, a, b, c, d)
}

#[test]
fn termtree_draws_each_dependency_once() {
    let (g, a, _b, _c, _d) = small_graph();
    let tree = build_termtree(&g, &a, vec![], 0, 10).ok().expect("a tree");
    let labels: Vec<(usize, String)> = tree.lines.iter().map(|l| (l.depth, l.label.clone())).collect();
    let ok = termtree_status(true);
    let missing = termtree_status(false);
    assert_eq!(labels, vec![
        (0, format!("g.a:1 {}", ok)),
        (1, format!("g.b:1 {}", missing)),
        (2, format!("g.c:1 {}", ok)),
        (2, format!("g.d:1 {}", missing)),
    ]);
    assert_eq!(tree.traversed.len(), 4);
    assert_eq!((tree.counter.hit, tree.counter.miss), (2, 2));
}

#[test]
fn termtree_stops_at_the_limit() {
    let (g, a, _b, _c, _d) = small_graph();
    let tree = build_termtree(&g, &a, vec![], 0, 1).ok().expect("a tree");
    let depths: Vec<usize> = tree.lines.iter().map(|l| l.depth).collect();
    assert_eq!(depths, vec![0, 1, 1]);
    let root = build_termtree(&g, &a, vec![], 0, 0).ok().expect("a tree");
    assert_eq!(root.lines.len(), 1);
}

#[test]
fn termtree_errors() {
    let (g, a, _b, _c, _d) = small_graph();
    let again = build_termtree(&g, &a, vec![a.duplicate()], 0, 3);
    assert!(matches!(again, Err(TermtreeError::AlreadyProcessed)));
    let bom = dependency("org.junit.junit-bom", "5.0");
    assert!(matches!(build_termtree(&g, &bom, vec![], 0, 3), Err(TermtreeError::BomNotSupported)));
}

#[test]
fn deps_forest_and_summary() {
    let (g, a, _b, _c, d) = small_graph();
    let forest = deps_forest(&g, &vec![d.duplicate(), a.duplicate()], Some(10)).expect("drawable");
    let depths: Vec<usize> = forest.lines.iter().map(|l| l.depth).collect();
    assert_eq!(depths, vec![0, 0, 1, 2]);
    assert_eq!((forest.counter.hit, forest.counter.miss), (2, 2));
    assert!(deps_forest(&g, &vec![a.duplicate(), d.duplicate()], None).is_none());
    let summary = deps_summary(2, forest.counter);
    assert_eq!(summary, format!("found {} 2 miss {} 2\n", termtree_status(true), termtree_status(false)));
    assert_eq!(deps_summary(0, forest.counter), "");
    assert_eq!(deps_summary(1, Counter { hit: 12, miss: 0 }), format!("found {} 12\n", termtree_status(true)));
    assert_eq!(termtree_status(true), "\x1b[32m\u{f00c}\x1b[0m");
    assert_eq!(termtree_status(false), "\x1b[31m\u{f071} \x1b[0m");
}

#[test]
fn deps_output_always_succeeds() {
    let ok = deps_output(Ok(()));
    assert_eq!(ok.name, "deps");
    assert_eq!(ok.conclusion, Some(PartialConclusion::SUCCESS));
    assert!(ok.stderr.is_none());
    let failed = deps_output(Err("no home".to_string()));
    assert_eq!(failed.conclusion, Some(PartialConclusion::SUCCESS));
    assert_eq!(failed.stderr.as_deref(), Some("no home"));
}

#[test]
fn walk_reaches_dependencies_with_a_jar() {
    let (g, a, _b, _c, _d) = small_graph();
    let reached = acc_transitive_unique(&g, &a, vec![]);
    let names: Vec<String> = reached.iter().map(|d| d.name.clone()).collect();
    assert_eq!(names, vec!["g.a", "g.b", "g.c"]);
    let again = acc_transitive_unique(&g, &a, reached.iter().map(|d| d.duplicate()).collect());
    let again_names: Vec<String> = again.iter().map(|d| d.name.clone()).collect();
    assert_eq!(again_names, names);
    let from_b = acc_transitive_unique(&g, &_b, vec![a.duplicate()]);
    let from_b_names: Vec<String> = from_b.iter().map(|d| d.name.clone()).collect();
    assert_eq!(from_b_names[..2], ["g.a".to_string(), "g.b".to_string()]);
    assert_eq!(find_node(&g, &a), Some(0));
    assert_eq!(find_node(&g, &dependency("x.y", "1")), None);
}

#[test]
fn language_server_classpath_joins_jars() {
    let (g, a, b, c, _d) = small_graph();
    let cp = language_server_classpath(&g, &vec![a.duplicate()]);
    assert_eq!(cp, format!("{}:{}:{}", a.jar_path(), b.jar_path(), c.jar_path()));
    assert_eq!(language_server_classpath(&g, &vec![]), "");
}

#[test]
fn dependency_walk_levels() {
    let (_g, a, b, c, d) = small_graph();
    let deps = vec![a.duplicate(), b.duplicate(), a.duplicate()];
    let transitives = vec![vec![b.duplicate(), c.duplicate()], vec![c.duplicate(), d.duplicate()], vec![]];
    let (traversed, next) = find_dependent_deps_step(&deps, vec![], &transitives);
    let t: Vec<String> = traversed.iter().map(|d| d.name.clone()).collect();
    let n: Vec<String> = next.iter().map(|d| d.name.clone()).collect();
    assert_eq!(t, vec!["g.a", "g.b"]);
    assert_eq!(n, vec!["g.c", "g.c", "g.d"]);
    assert!(contains_dependency(&traversed, &b));
    assert!(!contains_dependency(&traversed, &c));
}

#[test]
fn dependency_descriptions() {
    let d = dependency("g.lib", "2.0");
    assert_eq!(status(true), "[cached]");
    assert_eq!(status(false), "[missing]");
    assert_eq!(display("[cached]", &d, 2), "\r    [cached]      g.lib:2.0");
    assert_eq!(termtree_display("x", &d), "g.lib:2.0 x");
    let mut c = Counter::zero();
    c.apply(Counter::hit());
    c.apply(Counter::of(false));
    c.apply(Counter::miss());
    assert_eq!((c.hit, c.miss), (1, 2));
}

#[test]
fn clean_directories_and_outcomes() {
    let out = ProjectOutput::new("/p/out".to_string());
    assert_eq!(clean_dir(&out, CleanSet::Src), "/p/out/src");
    assert_eq!(clean_dir(&out, CleanSet::Test), "/p/out/test");
    assert_eq!(clean_dir(&out, CleanSet::Release), "/p/out/app.jar");
    assert_eq!(clean_dir(&out, CleanSet::All), "/p/out");
    let (ok, invalidate) = clean_outcome("/p/out", Ok(()));
    assert!(invalidate);
    assert_eq!(ok.conclusion, Some(PartialConclusion::SUCCESS));
    assert_eq!(ok.stdout.as_deref(), Some("/p/out cleaned."));
    let (missing, invalidate) = clean_outcome("/p/out", Err(OS_2_ERROR.to_string()));
    assert!(invalidate);
    assert_eq!(missing.conclusion, Some(PartialConclusion::SUCCESS));
    let (failed, invalidate) = clean_outcome("/p/out", Err("Permission denied (os error 13)".to_string()));
    assert!(!invalidate);
    assert_eq!(failed.conclusion, Some(PartialConclusion::FAILED));
    assert_eq!(failed.stderr.as_deref(), Some("failed to clean /p/out with Permission denied (os error 13)"));
}

#[test]
fn commands_and_main_classes() {
    assert_eq!(Cmd::parse("clean"), Some(Cmd::Clean));
    assert_eq!(Cmd::parse("build"), Some(Cmd::Build));
    assert_eq!(Cmd::parse("test"), Some(Cmd::Test));
    assert_eq!(Cmd::parse("run"), Some(Cmd::Run));
    assert_eq!(Cmd::parse("release"), Some(Cmd::Release));
    assert_eq!(Cmd::parse("deploy"), None);
    assert_eq!(main_class(Some("App"), "Main.kt"), "AppKt");
    assert_eq!(main_class(None, "Main.kt"), "MainKt");
}

#[test]
fn coordinates_from_the_command_line() {
    assert_eq!(
        name_namespace_version("org.jetbrains..annotations=13.0"),
        ("annotations".to_string(), Some("org.jetbrains".to_string()), "13.0".to_string())
    );
    assert_eq!(name_namespace_version("solo=1"), ("solo".to_string(), None, "1".to_string()));
    assert_eq!(
        name_namespace_version("org.jetbrains..kotlin-stdlib=1.9.22"),
        ("kotlin-stdlib".to_string(), Some("org.jetbrains".to_string()), "1.9.22".to_string())
    );
    assert_eq!(
        dep_path_coordinates("org.slf4j:slf4j-api:2.0"),
        Some(("slf4j-api".to_string(), "org.slf4j".to_string(), "2.0".to_string()))
    );
    assert_eq!(dep_path_coordinates("a:b"), None);
}

#[test]
fn kotlin_file_headers() {
    let text = "package no.tordly.app\n\nimport no.tordly.util.Strings\nimport kotlin.test.Test\n\nfun main() {}\nimport late.Thing\n";
    let h = HeaderKt::parse("Main.kt", text);
    assert_eq!(h.file, "Main.kt");
    assert_eq!(h.package, "no.tordly");
    assert_eq!(h.imports, vec!["no.tordly.util".to_string(), "kotlin.test".to_string()]);
    let util = HeaderKt::parse("Strings.kt", "package no.tordly.util.Strings\r\n");
    assert_eq!(util.package, "no.tordly.util");
    assert!(h.has_dependency(&util));
    assert!(!util.has_dependency(&h));
}

#[test]
fn walk_follows_long_chains_to_the_end() {
    let deps: Vec<Dependency> = (0..6).map(|i| dependency(&format!("g.n{i}"), "1")).collect();
    let mut g: Vec<DepNode> = Vec::new();
    for i in 0..6 {
        let next = if i + 1 < 6 { vec![deps[i + 1].duplicate()] } else { vec![deps[0].duplicate()] };
        g.push(node(&deps[i], next, true, false));
    }
    let start = dependency("g.start", "1");
    let reached = acc_transitive_unique(&g, &start, vec![]);
    assert_eq!(reached.len(), 1);
    let reached = acc_transitive_unique(&g, &deps[0], vec![]);
    let names: Vec<String> = reached.iter().map(|d| d.name.clone()).collect();
    assert_eq!(names, vec!["g.n0", "g.n1", "g.n2", "g.n3", "g.n4", "g.n5"]);
    let mut h = g;
    h.push(node(&start, vec![deps[0].duplicate()], false, false));
    let from_start = acc_transitive_unique(&h, &start, vec![]);
    assert_eq!(from_start.len(), 7);
}
