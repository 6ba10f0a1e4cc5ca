use buildk::gradle::{
    descriptor_packages, Component, Dep, Descriptor, GradlePackage, GradleParser, GradleVariant,
    Variant, Version, VersionKind,
};
use buildk::maven::{kind_of_scope, reference_of, MavenParser};
use buildk::package::{buildk_home_in, cache_location, cache_location_in, insert_sorted, is_cached_with, resolve_descriptor, Package, PackageKind};

fn single(v: &str) -> Option<VersionKind> {
    Some(VersionKind::Single(v.to_string()))
}

fn version(requires: Option<VersionKind>, prefers: Option<VersionKind>) -> Version {
    Version { requires, prefers, strictly: None, rejects: None }
}

fn dep(group: &str, module: &str, version: Version) -> Dep {
    Dep { group: group.to_string(), module: module.to_string(), version }
}

// The module descriptor of the specification's example: a component, an
// `api` variant depending on other-lib 3.4, and a `runtime` variant
// depending on other-lib within [3.0, 4.0).
fn example_descriptor(format: &str) -> Descriptor {
    Descriptor {
        format_version: format.to_string(),
        component: Some(Component {
            group: "my.group".to_string(),
            module: "mylib".to_string(),
            version: "1.2".to_string(),
        }),
        variants: vec![
            Variant {
                name: "api".to_string(),
                dependencies: Some(vec![dep("some.group", "other-lib", version(single("3.4"), None))]),
            },
            Variant {
                name: "runtime".to_string(),
                dependencies: Some(vec![dep(
                    "some.group",
                    "other-lib",
                    Version {
                        requires: single("[3.0, 4.0)"),
                        prefers: single("3.4"),
                        strictly: None,
                        rejects: Some(VersionKind::Array(vec!["3.4.1".to_string()])),
                    },
                )]),
            },
        ],
    }
}

#[test]
fn gradle_test_example() {
    let dependencies = descriptor_packages(&example_descriptor("1.0"), "/cache")
        .expect("unable to parse gradle module descriptor");
    assert_eq!(dependencies.len(), 3);
}

#[test]
fn gradle_packages_are_sorted_and_unique() {
    let mut d = example_descriptor("1.1");
    d.variants.push(Variant {
        name: "again".to_string(),
        dependencies: Some(vec![dep("some.group", "other-lib", version(single("3.4"), None))]),
    });
    let set = descriptor_packages(&d, "/cache").expect("versions resolve");
    assert_eq!(set.len(), 3);
    let names: Vec<(&str, &str)> = set.iter().map(|p| (p.name.as_str(), p.version.as_str())).collect();
    assert_eq!(names, vec![("mylib", "1.2"), ("other-lib", "3.4"), ("other-lib", "[3.0, 4.0)")]);
    assert_eq!(set[0].location, "/cache/my.group/mylib/1.2");
}

#[test]
fn gradle_parser_understands_format_1_1_only() {
    let old = GradleParser::parse(&example_descriptor("1.0"), PackageKind::Compile, "/cache");
    assert_eq!(old.map(|s| s.len()), Some(0));
    let new = GradleParser::parse(&example_descriptor("1.1"), PackageKind::Compile, "/cache")
        .expect("versions resolve");
    assert_eq!(new.len(), 3);
    let tests = GradleParser::parse(&example_descriptor("1.1"), PackageKind::Test, "/cache")
        .expect("versions resolve");
    assert_eq!(tests.len(), 0);
}

#[test]
fn gradle_dependency_without_version_is_refused() {
    let mut d = example_descriptor("1.1");
    d.variants[0].dependencies = Some(vec![dep("g", "m", version(None, None))]);
    assert!(descriptor_packages(&d, "/cache").is_none());
}

#[test]
fn gradle_version_choice() {
    let list = |v: &[&str]| Some(VersionKind::Array(v.iter().map(|s| s.to_string()).collect()));
    assert_eq!(dep("g", "m", version(single("1.0"), single("2.0"))).version(), "1.0");
    assert_eq!(dep("g", "m", version(list(&["1.0", "1.5"]), None)).version(), "1.5");
    assert_eq!(dep("g", "m", version(list(&[]), single("2.0"))).version(), "2.0");
    let strict = Version { requires: None, prefers: None, strictly: single("3.0"), rejects: None };
    assert_eq!(dep("g", "m", strict).version(), "3.0");
    assert_eq!(
        dep("g", "m", version(single("1"), list(&["a", "b"]))).versions(),
        vec!["a".to_string(), "b".to_string()]
    );
    assert!(dep("g", "m", version(single("1"), None)).versions().is_empty());
}

#[test]
fn gradle_variant_kinds() {
    assert_eq!(GradlePackage::kind_of(GradleVariant::Api), PackageKind::Compile);
    assert_eq!(GradlePackage::kind_of(GradleVariant::Implementation), PackageKind::Compile);
    assert_eq!(GradlePackage::kind_of(GradleVariant::Runtime), PackageKind::Runtime);
    assert_eq!(GradlePackage::kind_of(GradleVariant::TestImplementation), PackageKind::Test);
}

const KOTLIN_STDLIB_POM: &str = r#"<?xml version="1.0" encoding="UTF-8"?>
<project xmlns="http://maven.apache.org/POM/4.0.0" xmlns:xsi="http://www.w3.org/2001/XMLSchema-instance">
  <modelVersion>4.0.0</modelVersion>
  <groupId>org.jetbrains.kotlin</groupId>
  <artifactId>kotlin-stdlib</artifactId>
  <version>1.9.22</version>
  <dependencies>
    <dependency>
      <groupId>org.jetbrains</groupId>
      <artifactId>annotations</artifactId>
      <version>13.0</version>
      <scope>compile</scope>
    </dependency>
  </dependencies>
</project>"#;

#[test]
fn transitive_pkgs() {
    let pkgs = MavenParser::parse(KOTLIN_STDLIB_POM, PackageKind::Compile, "/home/me/.buildk/cache")
        .expect("a descriptor");
    pkgs.iter().for_each(|pkg| {
        println!("name: {}", pkg.name);
        println!("namespace: {}", pkg.namespace.clone().unwrap());
        println!("version: {}", pkg.version);
    });
    assert_eq!(pkgs.len(), 1);
    assert_eq!(pkgs[0].name, "annotations");
    assert_eq!(pkgs[0].namespace.as_deref(), Some("org.jetbrains"));
    assert_eq!(pkgs[0].version, "13.0");
    assert_eq!(pkgs[0].location, "/home/me/.buildk/cache/org.jetbrains/annotations/13.0");
}

const POM_WITH_PROPERTIES: &str = r#"<project>
  <properties>
    <lib.version>${base.version}</lib.version>
    <base.version>2.5</base.version>
  </properties>
  <dependencies>
    <dependency>
      <groupId>g</groupId>
      <artifactId>lib</artifactId>
      <version>${lib.version}</version>
    </dependency>
    <dependency>
      <groupId>g</groupId>
      <artifactId>tested</artifactId>
      <version>1.0</version>
      <scope>test</scope>
    </dependency>
    <dependency>
      <groupId>g</groupId>
      <artifactId>unversioned</artifactId>
    </dependency>
  </dependencies>
  <dependencyManagement>
    <dependencies>
      <dependency>
        <groupId>g</groupId>
        <artifactId>managed</artifactId>
        <version>3.0</version>
        <scope>runtime</scope>
      </dependency>
    </dependencies>
  </dependencyManagement>
</project>"#;

#[test]
fn maven_interpolates_properties_and_selects_by_scope() {
    let compile = MavenParser::parse(POM_WITH_PROPERTIES, PackageKind::Compile, "/c").expect("a descriptor");
    assert_eq!(compile.len(), 1);
    assert_eq!(compile[0].name, "lib");
    assert_eq!(compile[0].version, "2.5");
    let test = MavenParser::parse(POM_WITH_PROPERTIES, PackageKind::Test, "/c").expect("a descriptor");
    assert_eq!(test.len(), 1);
    assert_eq!(test[0].name, "tested");
    let runtime = MavenParser::parse(POM_WITH_PROPERTIES, PackageKind::Runtime, "/c").expect("a descriptor");
    assert_eq!(runtime.len(), 1);
    assert_eq!(runtime[0].name, "managed");
    assert_eq!(runtime[0].kind, PackageKind::Runtime);
}

#[test]
fn maven_refuses_what_it_cannot_read() {
    assert!(MavenParser::parse("<project><unclosed></project>", PackageKind::Compile, "/c").is_none());
    assert!(MavenParser::parse("<other/>", PackageKind::Compile, "/c").is_none());
    let empty_property = r#"<project><properties><a>${b}</a><b/></properties></project>"#;
    assert!(MavenParser::parse(empty_property, PackageKind::Compile, "/c").is_none());
    let no_group = r#"<project><dependencies><dependency>
        <artifactId>a</artifactId><version>1</version></dependency></dependencies></project>"#;
    assert!(MavenParser::parse(no_group, PackageKind::Compile, "/c").is_none());
}

#[test]
fn maven_keeps_versions_it_cannot_interpolate() {
    let unresolved = r#"<project><dependencies><dependency><groupId>g</groupId>
        <artifactId>a</artifactId><version>${missing}</version></dependency></dependencies></project>"#;
    let pkgs = MavenParser::parse(unresolved, PackageKind::Compile, "/c").expect("a descriptor");
    assert_eq!(pkgs.len(), 1);
    assert_eq!(pkgs[0].version, "${missing}");
}

#[test]
fn maven_scopes_and_references() {
    assert_eq!(kind_of_scope("test"), PackageKind::Test);
    assert_eq!(kind_of_scope("provided"), PackageKind::Runtime);
    assert_eq!(kind_of_scope("runtime"), PackageKind::Runtime);
    assert_eq!(kind_of_scope("system"), PackageKind::Compile);
    assert_eq!(kind_of_scope("compile"), PackageKind::Compile);
    assert_eq!(kind_of_scope("unknown"), PackageKind::Compile);
    assert_eq!(reference_of("${kotlin.version}"), "kotlin.version");
}

fn pkg(name: &str, version: &str) -> Package {
    Package::new_in("/c", name.to_string(), Some("ns".to_string()), version.to_string(), PackageKind::Compile)
}

#[test]
fn package_locations_and_paths() {
    let p = pkg("lib", "1.0");
    assert_eq!(p.location, "/c/ns/lib/1.0");
    assert_eq!(p.jar_absolute_path(), "/c/ns/lib/1.0/pkg.jar");
    let q = Package::new_in("/c", "solo".to_string(), None, "2".to_string(), PackageKind::Test);
    assert_eq!(q.location, "/c/solo/2");
}

#[test]
fn package_set_insertion_order_does_not_matter() {
    let mut a = Vec::new();
    for p in [pkg("b", "1"), pkg("a", "2"), pkg("c", "0"), pkg("a", "2")] {
        insert_sorted(&mut a, p);
    }
    let mut b = Vec::new();
    for p in [pkg("c", "0"), pkg("a", "2"), pkg("b", "1")] {
        insert_sorted(&mut b, p);
    }
    let names = |v: &Vec<Package>| v.iter().map(|p| p.name.clone()).collect::<Vec<_>>();
    assert_eq!(names(&a), vec!["a", "b", "c"]);
    assert_eq!(names(&a), names(&b));
    assert!(a[0].same_as(&b[0]));
    assert!(a[0].compare(&a[1]) < 0);
    assert!(a[2].compare(&a[1]) > 0);
}

#[test]
fn package_descriptor_and_cache_state() {
    assert_eq!(resolve_descriptor("/p", true, true), Some("/p/maven.xml".to_string()));
    assert_eq!(resolve_descriptor("/p", false, true), Some("/p/gradle.json".to_string()));
    assert_eq!(resolve_descriptor("/p", false, false), None);
    assert!(is_cached_with(Some(10), Some(1)));
    assert!(!is_cached_with(Some(0), Some(1)));
    assert!(!is_cached_with(Some(10), Some(0)));
    assert!(!is_cached_with(None, Some(1)));
    assert!(!is_cached_with(Some(1), None));
}

#[test]
fn cache_location_is_under_the_home_directory() {
    if let Some(c) = cache_location() {
        assert!(c.ends_with(".buildk/cache"));
    }
    assert_eq!(buildk_home_in("/home/me"), "/home/me/.buildk");
    assert_eq!(buildk_home_in("/root/"), "/root/.buildk");
    assert_eq!(cache_location_in("/home/me"), "/home/me/.buildk/cache");
}

#[test]
fn package_classpath_joins_jars_with_colons() {
    let p = Package::new_in("/c", "app".to_string(), Some("org".to_string()), "1".to_string(), PackageKind::Compile);
    let a = Package::new_in("/c", "a".to_string(), Some("org".to_string()), "2".to_string(), PackageKind::Compile);
    let b = Package::new_in("/c", "b".to_string(), None, "3".to_string(), PackageKind::Compile);
    assert_eq!(p.classpath(&vec![]), "");
    let cp = p.classpath(&vec![a.duplicate(), b.duplicate()]);
    assert_eq!(cp, "/c/org/a/2/pkg.jar:/c/b/3/pkg.jar");
    assert!(!cp.starts_with(':') && !cp.ends_with(':'));
}
