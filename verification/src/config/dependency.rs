//! Resolved dependencies: where a declared artifact is downloaded from and
//! cached, its files, and the dependencies its POM names.
use vstd::prelude::*;

use crate::text::{
    concat, last_occurrence, path_join, path_join_spec, replace, replace_spec, split, split_spec,
    str_eq, views,
};

verus! {

/// Whether a dependency is for the sources or for the tests.
#[derive(Clone, Copy, Debug, PartialEq, Eq, Structural)]
pub enum Kind {
    Source,
    Test,
}

/// A resolved dependency: the artifact, where it is cached and fetched from,
/// and the names of its files.
#[derive(Clone, Debug)]
pub struct Dependency {
    pub name: String,
    pub version: String,
    pub kind: Kind,
    /// The directory the files are cached in.
    pub target_dir: String,
    /// The url of the directory holding the artifact's files.
    pub url: String,
    /// The file names of the jar, the sources jar, the POM and the module.
    pub jar: String,
    pub sources: String,
    pub pom: String,
    pub module: String,
}

/// The mathematical value of a resolved dependency.
pub struct DependencyView {
    pub name: Seq<char>,
    pub version: Seq<char>,
    pub kind: Kind,
    pub target_dir: Seq<char>,
    pub url: Seq<char>,
    pub jar: Seq<char>,
    pub sources: Seq<char>,
    pub pom: Seq<char>,
    pub module: Seq<char>,
}

impl View for Dependency {
    type V = DependencyView;

    open spec fn view(&self) -> DependencyView {
        DependencyView {
            name: self.name@,
            version: self.version@,
            kind: self.kind,
            target_dir: self.target_dir@,
            url: self.url@,
            jar: self.jar@,
            sources: self.sources@,
            pom: self.pom@,
            module: self.module@,
        }
    }
}

/// The views of a list of dependencies.
pub open spec fn dependency_views(v: Seq<Dependency>) -> Seq<DependencyView> {
    v.map_values(|d: Dependency| d@)
}

/// The text after the last `/` (all of it without a `/`).
pub open spec fn last_segment(s: Seq<char>) -> Seq<char> {
    match last_occurrence(s, "/"@) {
        Some(i) => s.skip(i + 1),
        None => s,
    }
}

/// The pieces joined into one path, left to right, the way
/// `reduce(|a, b| a.join(b))` joins them.
pub open spec fn joined_path(pieces: Seq<Seq<char>>) -> Seq<char>
    decreases pieces.len(),
{
    if pieces.len() == 0 {
        Seq::empty()
    } else if pieces.len() == 1 {
        pieces[0]
    } else {
        path_join_spec(joined_path(pieces.drop_last()), pieces.last())
    }
}

/// Where an artifact named `name` (dot-separated, e.g.
/// `org.apache.kafka.kafka-clients`) at `version` is fetched from and cached:
/// the url of its directory in Maven Central, the prefix of its file names
/// (`artifact-version`), and its directory under `cache`. `None` when the
/// name ends in a dot.
pub open spec fn dependency_info_spec(name: Seq<char>, version: Seq<char>, cache: Seq<char>) -> Option<
    (Seq<char>, Seq<char>, Seq<char>),
> {
    let dependency = replace_spec(name, "."@, "/"@);
    let artifact = last_segment(dependency);
    if artifact.len() == 0 {
        None
    } else {
        Some(
            (
                "https://repo1.maven.org/maven2/"@ + dependency + "/"@ + version + "/"@,
                artifact + "-"@ + version,
                path_join_spec(cache, joined_path(split_spec(dependency, "/"@))),
            ),
        )
    }
}

/// The dependency `name` at `version` of kind `kind`, cached under `cache`,
/// or `None` when its name ends in a dot.
pub open spec fn new_dependency(kind: Kind, name: Seq<char>, version: Seq<char>, cache: Seq<char>) -> Option<
    DependencyView,
> {
    match dependency_info_spec(name, version, cache) {
        Some((url, suffix, target_dir)) => Some(
            DependencyView {
                name,
                version,
                kind,
                target_dir,
                url,
                jar: suffix + ".jar"@,
                sources: suffix + "-sources.jar"@,
                pom: suffix + ".pom"@,
                module: suffix + ".module"@,
            },
        ),
        None => None,
    }
}

/// The text matched by the regular expression `([^/]+)$` in `s`
/// (`regex::Regex::find`): the longest run of characters other than `/` at
/// the end of `s`, which is the text after the last `/`. The contract claims
/// that it is `last_segment` when that is not empty, and that there is no
/// match otherwise, as the regex crate documents leftmost-first matching
/// and `$` as the end of the text.
#[verifier::external_body]
fn find_last_segment(s: &str) -> (res: Option<String>)
    ensures
        match res {
            Some(m) => m@ == last_segment(s@) && m@.len() > 0,
            None => last_segment(s@).len() == 0,
        },
{
    regex::Regex::new(r"([^/]+)$").unwrap().find(s).map(|m| m.as_str().to_string())
}

/// Where a dependency is fetched from and cached: the
/// url of its directory, the prefix of its file names, and its directory
/// under `cache`; `None` when its name ends in a dot.
pub fn dependency_info(name: &str, version: &str, cache: &str) -> (res: Option<
    (String, String, String),
>)
    ensures
        match res {
            Some((url, suffix, dir)) => dependency_info_spec(name@, version@, cache@) == Some(
                (url@, suffix@, dir@),
            ),
            None => dependency_info_spec(name@, version@, cache@) is None,
        },
{
    proof {
        reveal_strlit(".");
        reveal_strlit("/");
    }
    let dependency = replace(name, ".", "/");
    let artifact = match find_last_segment(dependency.as_str()) {
        Some(a) => a,
        None => {
            return None;
        },
    };
    let pieces = split(dependency.as_str(), "/");
    let mut relative = String::new();
    let mut i: usize = 0;
    while i < pieces.len()
        invariant
            i <= pieces@.len(),
            relative@ == joined_path(views(pieces@).take(i as int)),
        decreases pieces@.len() - i,
    {
        if i == 0 {
            relative = pieces[0].clone();
        } else {
            relative = path_join(relative.as_str(), pieces[i].as_str());
        }
        i = i + 1;
        proof {
            assert(views(pieces@).take(i as int).drop_last() =~= views(pieces@).take(i - 1));
        }
    }
    proof {
        assert(views(pieces@).take(i as int) =~= views(pieces@));
    }
    let a = concat("https://repo1.maven.org/maven2/", dependency.as_str());
    let b = concat(a.as_str(), "/");
    let c = concat(b.as_str(), version);
    let url = concat(c.as_str(), "/");
    let d = concat(artifact.as_str(), "-");
    let suffix = concat(d.as_str(), version);
    let dir = path_join(cache, relative.as_str());
    Some((url, suffix, dir))
}

impl Dependency {
    /// The dependency `name` at `version`, cached under `cache`; `None` when
    /// its name ends in a dot.
    pub fn new(kind: Kind, name: &str, version: &str, cache: &str) -> (res: Option<Dependency>)
        ensures
            match res {
                Some(d) => new_dependency(kind, name@, version@, cache@) == Some(d@),
                None => new_dependency(kind, name@, version@, cache@) is None,
            },
    {
        match dependency_info(name, version, cache) {
            Some((url, suffix, target_dir)) => Some(
                Dependency {
                    name: crate::text::owned(name),
                    version: crate::text::owned(version),
                    kind,
                    target_dir,
                    url,
                    jar: concat(suffix.as_str(), ".jar"),
                    sources: concat(suffix.as_str(), "-sources.jar"),
                    pom: concat(suffix.as_str(), ".pom"),
                    module: concat(suffix.as_str(), ".module"),
                },
            ),
            None => None,
        }
    }

    /// The dependency a manifest value declares: the value is the version
    /// when it is a string.
    pub fn from_toml(kind: Kind, name: &str, value: Option<&str>, cache: &str) -> (res: Option<
        Dependency,
    >)
        ensures
            match value {
                Some(v) => match res {
                    Some(d) => new_dependency(kind, name@, v@, cache@) == Some(d@),
                    None => new_dependency(kind, name@, v@, cache@) is None,
                },
                None => res is None,
            },
    {
        match value {
            Some(v) => Dependency::new(kind, name, v, cache),
            None => None,
        }
    }

    /// The jar of the dependency, in its cache directory.
    pub fn jar_path(&self) -> (res: String)
        ensures
            res@ == path_join_spec(self.target_dir@, self.jar@),
    {
        path_join(self.target_dir.as_str(), self.jar.as_str())
    }

    /// The POM of the dependency, in its cache directory.
    pub fn pom_path(&self) -> (res: String)
        ensures
            res@ == path_join_spec(self.target_dir@, self.pom@),
    {
        path_join(self.target_dir.as_str(), self.pom.as_str())
    }

    /// Where the jar of the dependency is downloaded from: its file name
    /// after the url of its directory.
    pub fn jar_url(&self) -> (res: String)
        ensures
            res@ == self.url@ + self.jar@,
    {
        concat(self.url.as_str(), self.jar.as_str())
    }

    /// Where the POM of the dependency is downloaded from.
    pub fn pom_url(&self) -> (res: String)
        ensures
            res@ == self.url@ + self.pom@,
    {
        concat(self.url.as_str(), self.pom.as_str())
    }

    /// A copy of the dependency.
    pub fn duplicate(&self) -> (res: Dependency)
        ensures
            res == *self,
    {
        Dependency {
            name: self.name.clone(),
            version: self.version.clone(),
            kind: self.kind,
            target_dir: self.target_dir.clone(),
            url: self.url.clone(),
            jar: self.jar.clone(),
            sources: self.sources.clone(),
            pom: self.pom.clone(),
            module: self.module.clone(),
        }
    }

    /// The dependencies the POM text of this dependency names, of the same
    /// kind.
    pub fn transitives(&self, pom_text: &str, cache: &str) -> (res: Vec<Dependency>)
        ensures
            dependency_views(res@) == pom_run(xml_events(pom_text@), self.kind, cache@).deps,
    {
        pom_dependencies(pom_text, self.kind, cache)
    }
}

/// The dependencies of the given kind among `deps`, in order.
pub open spec fn of_kind(deps: Seq<DependencyView>, kind: Kind) -> Seq<DependencyView> {
    deps.filter(|d: DependencyView| d.kind == kind)
}

/// The dependencies of kind `kind` among `deps`, in order.
pub fn filter_kind(deps: Vec<Dependency>, kind: Kind) -> (res: Vec<Dependency>)
    ensures
        dependency_views(res@) == of_kind(dependency_views(deps@), kind),
{
    let ghost dv = dependency_views(deps@);
    let mut res: Vec<Dependency> = Vec::new();
    let mut i: usize = 0;
    while i < deps.len()
        invariant
            dv == dependency_views(deps@),
            i <= deps@.len(),
            dependency_views(res@) == of_kind(dv.take(i as int), kind),
        decreases deps@.len() - i,
    {
        let d = deps[i].duplicate();
        proof {
            assert(dv.take(i + 1).drop_last() =~= dv.take(i as int));
            assert(dv.take(i + 1).last() == d@);
            reveal_with_fuel(Seq::<DependencyView>::filter, 1);
        }
        if d.kind == kind {
            let ghost before = res@;
            res.push(d);
            proof {
                assert(dependency_views(res@) =~= dependency_views(before).push(d@));
            }
        }
        i = i + 1;
    }
    proof {
        assert(dv.take(i as int) =~= dv);
    }
    res
}

/// Picking the dependencies of one kind from a list.
pub trait DependenciesKind {
    /// The test dependencies, in order.
    fn for_test(self) -> Vec<Dependency>;

    /// The source dependencies, in order.
    fn for_src(self) -> Vec<Dependency>;
}

impl DependenciesKind for Vec<Dependency> {
    fn for_test(self) -> (res: Vec<Dependency>)
        ensures
            dependency_views(res@) == of_kind(dependency_views(self@), Kind::Test),
    {
        filter_kind(self, Kind::Test)
    }

    fn for_src(self) -> (res: Vec<Dependency>)
        ensures
            dependency_views(res@) == of_kind(dependency_views(self@), Kind::Source),
    {
        filter_kind(self, Kind::Source)
    }
}

// ---------------------------------------------------------------------------
// The dependencies a POM names, read from its stream of XML events
// ---------------------------------------------------------------------------

/// An event of an XML reader, as far as POM reading is concerned.
#[derive(Clone, Debug)]
pub enum PomEvent {
    /// An element starts; its local name.
    Start(String),
    /// An element ends; its local name.
    End(String),
    /// Character data.
    Text(String),
    /// Anything else, errors included.
    Other,
}

/// The mathematical value of an event.
pub enum PomEventView {
    Start(Seq<char>),
    End(Seq<char>),
    Text(Seq<char>),
    Other,
}

impl View for PomEvent {
    type V = PomEventView;

    open spec fn view(&self) -> PomEventView {
        match self {
            PomEvent::Start(n) => PomEventView::Start(n@),
            PomEvent::End(n) => PomEventView::End(n@),
            PomEvent::Text(t) => PomEventView::Text(t@),
            PomEvent::Other => PomEventView::Other,
        }
    }
}

/// The views of a list of events.
pub open spec fn event_views(v: Seq<PomEvent>) -> Seq<PomEventView> {
    v.map_values(|e: PomEvent| e@)
}

/// The events `xml::EventReader` produces reading `text`.
pub uninterp spec fn xml_events(text: Seq<char>) -> Seq<PomEventView>;

/// Reads XML text with `xml::EventReader` and lists its events, keeping the
/// local names of start and end elements and the character data, and
/// turning every other event and every error into `Other`. The contract
/// claims that the result is `xml_events` of the text; what it holds is not
/// stated beyond that.
#[verifier::external_body]
pub fn read_events(text: &str) -> (res: Vec<PomEvent>)
    ensures
        event_views(res@) == xml_events(text@),
{
    xml::EventReader::new(text.as_bytes()).into_iter().map(|e| match e {
        Ok(xml::reader::XmlEvent::StartElement { name, .. }) => PomEvent::Start(name.local_name),
        Ok(xml::reader::XmlEvent::EndElement { name }) => PomEvent::End(name.local_name),
        Ok(xml::reader::XmlEvent::Characters(text)) => PomEvent::Text(text),
        _ => PomEvent::Other,
    }).collect()
}

/// What the reader has gathered so far: the current group, artifact and
/// version texts, the dependencies found, and where in the document it is.
pub struct PomState {
    pub group: Seq<char>,
    pub artifact: Seq<char>,
    pub version: Seq<char>,
    pub deps: Seq<DependencyView>,
    pub in_dependency: bool,
    pub in_group: bool,
    pub in_artifact: bool,
    pub in_version: bool,
}

/// Nothing read yet.
pub open spec fn pom_start() -> PomState {
    PomState {
        group: Seq::empty(),
        artifact: Seq::empty(),
        version: Seq::empty(),
        deps: Seq::empty(),
        in_dependency: false,
        in_group: false,
        in_artifact: false,
        in_version: false,
    }
}

/// One event read: a `<dependency>` clears the texts; its end adds the
/// dependency `group.artifact` at the version read (where it resolves);
/// `groupId`, `artifactId` and `version` inside a dependency mark where the
/// character data goes; character data replaces each marked text.
pub open spec fn pom_step(s: PomState, e: PomEventView, kind: Kind, cache: Seq<char>) -> PomState {
    match e {
        PomEventView::Start(n) => if n == "dependency"@ {
            PomState {
                group: Seq::empty(),
                artifact: Seq::empty(),
                version: Seq::empty(),
                in_dependency: true,
                ..s
            }
        } else if n == "groupId"@ {
            PomState { in_group: s.in_group || s.in_dependency, ..s }
        } else if n == "artifactId"@ {
            PomState { in_artifact: s.in_artifact || s.in_dependency, ..s }
        } else if n == "version"@ {
            PomState { in_version: s.in_version || s.in_dependency, ..s }
        } else {
            s
        },
        PomEventView::End(n) => if n == "dependency"@ {
            let name = s.group + "."@ + s.artifact;
            PomState {
                deps: match new_dependency(kind, name, s.version, cache) {
                    Some(d) => s.deps.push(d),
                    None => s.deps,
                },
                in_dependency: false,
                ..s
            }
        } else if n == "groupId"@ {
            PomState { in_group: false, ..s }
        } else if n == "artifactId"@ {
            PomState { in_artifact: false, ..s }
        } else if n == "version"@ {
            PomState { in_version: false, ..s }
        } else {
            s
        },
        PomEventView::Text(t) => PomState {
            group: if s.in_group { t } else { s.group },
            artifact: if s.in_artifact { t } else { s.artifact },
            version: if s.in_version { t } else { s.version },
            ..s
        },
        PomEventView::Other => s,
    }
}

/// The state after reading the events in order.
pub open spec fn pom_run(events: Seq<PomEventView>, kind: Kind, cache: Seq<char>) -> PomState
    decreases events.len(),
{
    if events.len() == 0 {
        pom_start()
    } else {
        pom_step(pom_run(events.drop_last(), kind, cache), events.last(), kind, cache)
    }
}

/// The dependencies, of kind `kind` and cached under `cache`, that the POM
/// text names, in document order.
pub fn pom_dependencies(text: &str, kind: Kind, cache: &str) -> (res: Vec<Dependency>)
    ensures
        dependency_views(res@) == pom_run(xml_events(text@), kind, cache@).deps,
{
    let events = read_events(text);
    let ghost ev = event_views(events@);
    let mut group = String::new();
    let mut artifact = String::new();
    let mut version = String::new();
    let mut deps: Vec<Dependency> = Vec::new();
    let mut in_dependency = false;
    let mut in_group = false;
    let mut in_artifact = false;
    let mut in_version = false;
    let mut i: usize = 0;
    proof {
        assert(ev.take(0) =~= Seq::<PomEventView>::empty());
        assert(dependency_views(deps@) =~= Seq::<DependencyView>::empty());
    }
    while i < events.len()
        invariant
            ev == event_views(events@),
            ev == xml_events(text@),
            i <= events@.len(),
            pom_run(ev.take(i as int), kind, cache@) == (PomState {
                group: group@,
                artifact: artifact@,
                version: version@,
                deps: dependency_views(deps@),
                in_dependency,
                in_group,
                in_artifact,
                in_version,
            }),
        decreases events@.len() - i,
    {
        proof {
            assert(ev.take(i + 1).drop_last() =~= ev.take(i as int));
            assert(ev.take(i + 1).last() == events@[i as int]@);
        }
        match &events[i] {
            PomEvent::Start(n) => {
                if str_eq(n.as_str(), "dependency") {
                    group = String::new();
                    artifact = String::new();
                    version = String::new();
                    in_dependency = true;
                } else if str_eq(n.as_str(), "groupId") {
                    if in_dependency {
                        in_group = true;
                    }
                } else if str_eq(n.as_str(), "artifactId") {
                    if in_dependency {
                        in_artifact = true;
                    }
                } else if str_eq(n.as_str(), "version") {
                    if in_dependency {
                        in_version = true;
                    }
                }
            },
            PomEvent::End(n) => {
                if str_eq(n.as_str(), "dependency") {
                    let a = concat(group.as_str(), ".");
                    let name = concat(a.as_str(), artifact.as_str());
                    match Dependency::new(kind, name.as_str(), version.as_str(), cache) {
                        Some(d) => {
                            let ghost before = deps@;
                            deps.push(d);
                            proof {
                                assert(dependency_views(deps@) =~= dependency_views(before).push(d@));
                            }
                        },
                        None => {},
                    }
                    in_dependency = false;
                } else if str_eq(n.as_str(), "groupId") {
                    in_group = false;
                } else if str_eq(n.as_str(), "artifactId") {
                    in_artifact = false;
                } else if str_eq(n.as_str(), "version") {
                    in_version = false;
                }
            },
            PomEvent::Text(t) => {
                if in_group {
                    group = t.clone();
                }
                if in_artifact {
                    artifact = t.clone();
                }
                if in_version {
                    version = t.clone();
                }
            },
            PomEvent::Other => {},
        }
        i = i + 1;
    }
    proof {
        assert(ev.take(i as int) =~= ev);
    }
    deps
}

} // verus!
