use buildk::artifacts::{gradle_dependencies, Dependency, GradleParser, Kind, MavenParser, Scope};
use buildk::gradle::{Component, Dep, Descriptor, Variant, Version, VersionKind};

fn single(v: &str) -> Option<VersionKind> {
    Some(VersionKind::Single(v.to_string()))
}

fn dep(group: &str, module: &str, version: Version) -> Dep {
    Dep { group: group.to_string(), module: module.to_string(), version }
}

fn example(format: &str) -> Descriptor {
    Descriptor {
        format_version: format.to_string(),
        component: Some(Component {
            group: "my.group".to_string(),
            module: "mylib".to_string(),
            version: "1.2".to_string(),
        }),
        variants: vec![
            Variant {
                name: "api".to_string(),
                dependencies: Some(vec![dep(
                    "some.group",
                    "other-lib",
                    Version { requires: single("3.4"), prefers: None, strictly: None, rejects: None },
                )]),
            },
            Variant {
                name: "runtime".to_string(),
                dependencies: Some(vec![dep(
                    "some.group",
                    "other-lib",
                    Version {
                        requires: single("[3.0, 4.0)"),
                        prefers: single("3.4"),
                        strictly: None,
                        rejects: Some(VersionKind::Array(vec!["3.4.1".to_string()])),
                    },
                )]),
            },
        ],
    }
}

#[test]
fn gradle_parser_test_example() {
    let dependencies = gradle_dependencies(&example("1.0")).expect("unable to parse gradle module descriptor");
    assert_eq!(dependencies.len(), 3);
}

#[test]
fn artifact_sets_are_ordered() {
    let set = gradle_dependencies(&example("1.1")).expect("versions");
    let keys: Vec<(&str, &str, &str)> =
        set.iter().map(|d| (d.group.as_str(), d.artifact.as_str(), d.version.as_str())).collect();
    assert_eq!(keys, vec![
        ("my.group", "mylib", "1.2"),
        ("some.group", "other-lib", "3.4"),
        ("some.group", "other-lib", "[3.0, 4.0)"),
    ]);
    assert!(set.iter().all(|d| d.kind == Kind::Compile));
    assert_eq!(GradleParser::parse(&example("1.0")).map(|s| s.len()), Some(0));
    assert_eq!(GradleParser::parse(&example("1.1")).map(|s| s.len()), Some(3));
}

#[test]
fn artifact_versions_from_gradle_constraints() {
    let prefers_list = Version {
        requires: Some(VersionKind::Array(vec!["9".to_string()])),
        prefers: Some(VersionKind::Array(vec!["1.0".to_string(), "2.0".to_string()])),
        strictly: None,
        rejects: None,
    };
    let d = Descriptor {
        format_version: "1.1".to_string(),
        component: None,
        variants: vec![Variant { name: "v".to_string(), dependencies: Some(vec![dep("g", "m", prefers_list)]) }],
    };
    let set = gradle_dependencies(&d).expect("a version");
    assert_eq!(set[0].version, "1.0");
    let strict_only = Version { requires: None, prefers: None, strictly: single("3"), rejects: None };
    let d = Descriptor {
        format_version: "1.1".to_string(),
        component: None,
        variants: vec![Variant { name: "v".to_string(), dependencies: Some(vec![dep("g", "m", strict_only)]) }],
    };
    assert!(gradle_dependencies(&d).is_none());
}

const KOTLIN_STDLIB_POM: &str = r#"<?xml version="1.0" encoding="UTF-8"?>
<project xmlns="http://maven.apache.org/POM/4.0.0">
  <modelVersion>4.0.0</modelVersion>
  <groupId>org.jetbrains.kotlin</groupId>
  <artifactId>kotlin-stdlib</artifactId>
  <version>1.9.22</version>
  <dependencies>
    <dependency>
      <groupId>org.jetbrains</groupId>
      <artifactId>annotations</artifactId>
      <version>13.0</version>
      <scope>compile</scope>
    </dependency>
    <dependency>
      <groupId>org.jetbrains.kotlin</groupId>
      <artifactId>kotlin-test</artifactId>
      <version>1.9.22</version>
      <scope>test</scope>
    </dependency>
    <dependency>
      <groupId>org.jetbrains</groupId>
      <artifactId>annotations</artifactId>
      <version>13.0</version>
    </dependency>
  </dependencies>
</project>"#;

#[test]
fn maven_parser_dependencies() {
    let parsed = MavenParser::parse(KOTLIN_STDLIB_POM).expect("a descriptor");
    parsed.iter().for_each(|art| {
        println!("{}:{}:{}", art.group, art.artifact, art.version);
    });
    assert_eq!(parsed.len(), 2);
    assert_eq!(parsed[0].artifact, "annotations");
    assert_eq!(parsed[0].kind, Kind::Compile);
    assert_eq!(parsed[1].artifact, "kotlin-test");
    assert_eq!(parsed[1].kind, Kind::Test);
}

#[test]
fn maven_artifacts_without_version_are_left_out() {
    let pom = "<project><dependencies><dependency><groupId>g</groupId><artifactId>a</artifactId></dependency></dependencies></project>";
    assert_eq!(MavenParser::parse(pom).map(|s| s.len()), Some(0));
    assert!(MavenParser::parse("not xml <").is_none());
}

#[test]
fn scopes() {
    assert_eq!(Scope::from_text("compile"), Scope::Compile);
    assert_eq!(Scope::from_text("provided"), Scope::Provided);
    assert_eq!(Scope::from_text("runtime"), Scope::Runtime);
    assert_eq!(Scope::from_text("test"), Scope::Test);
    assert_eq!(Scope::from_text("system"), Scope::System);
    assert_eq!(Scope::from_text("other"), Scope::Compile);
    assert_eq!(Scope::default(), Scope::Compile);
    assert_eq!(Scope::Test.kind(), Kind::Test);
    assert_eq!(Scope::Provided.kind(), Kind::Compile);
    assert_eq!(Scope::Runtime.text(), "runtime");
    assert_eq!(Scope::System.text(), "compile");
}

#[test]
fn artifact_order() {
    let a = Dependency::new("g".to_string(), "a".to_string(), "1".to_string(), Kind::Compile);
    let b = Dependency::new("g".to_string(), "a".to_string(), "1".to_string(), Kind::Test);
    let c = Dependency::new("h".to_string(), "a".to_string(), "0".to_string(), Kind::Compile);
    assert!(a.compare(&b) < 0);
    assert!(b.compare(&c) < 0);
    assert_eq!(a.compare(&a.clone_dependency()), 0);
}

#[test]
fn artifact_sets_do_not_depend_on_declaration_order() {
    let pom_a = "<project><dependencies>\
        <dependency><groupId>b</groupId><artifactId>x</artifactId><version>1</version></dependency>\
        <dependency><groupId>a</groupId><artifactId>y</artifactId><version>2</version></dependency>\
        </dependencies></project>";
    let pom_b = "<project><dependencies>\
        <dependency><groupId>a</groupId><artifactId>y</artifactId><version>2</version></dependency>\
        <dependency><groupId>b</groupId><artifactId>x</artifactId><version>1</version></dependency>\
        <dependency><groupId>a</groupId><artifactId>y</artifactId><version>2</version></dependency>\
        </dependencies></project>";
    let a = MavenParser::parse(pom_a).expect("a descriptor");
    let b = MavenParser::parse(pom_b).expect("a descriptor");
    let keys = |s: &Vec<Dependency>| s.iter().map(|d| format!("{}:{}:{}", d.group, d.artifact, d.version)).collect::<Vec<_>>();
    assert_eq!(keys(&a), vec!["a:y:2", "b:x:1"]);
    assert_eq!(keys(&a), keys(&b));
}
