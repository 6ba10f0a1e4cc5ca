//! The project's settings: where it is, where its sources, tests and
//! outputs are, and its main file.
use vstd::prelude::*;

use crate::config::section::{section_of, Section};
use crate::config::toml::{entry_views, section_views, TomlEntry, TomlEntryView, TomlSection, TomlSectionView};
use crate::package::opt_view;
use crate::text::{owned, path_join, path_join_spec, replace, replace_spec, str_eq, views};

verus! {

/// Where the build writes its outputs.
#[derive(Clone, Debug)]
pub struct ProjectOutput {
    pub path: String,
    pub src: String,
    pub cache: String,
    pub test: String,
    pub test_report: String,
    pub jar: String,
}

/// The output locations under `path`: `src`, `cache.json`, `test`,
/// `test-report` and `app.jar`.
pub open spec fn output_under(path: Seq<char>, o: ProjectOutput) -> bool {
    &&& o.path@ == path
    &&& o.src@ == path_join_spec(path, "src"@)
    &&& o.cache@ == path_join_spec(path, "cache.json"@)
    &&& o.test@ == path_join_spec(path, "test"@)
    &&& o.test_report@ == path_join_spec(path, "test-report"@)
    &&& o.jar@ == path_join_spec(path, "app.jar"@)
}

impl ProjectOutput {
    /// The output locations under `path`.
    pub fn new(path: String) -> (res: ProjectOutput)
        ensures
            output_under(path@, res),
    {
        ProjectOutput {
            src: path_join(path.as_str(), "src"),
            cache: path_join(path.as_str(), "cache.json"),
            test: path_join(path.as_str(), "test"),
            test_report: path_join(path.as_str(), "test-report"),
            jar: path_join(path.as_str(), "app.jar"),
            path,
        }
    }
}

/// A project: its directory, its sources and tests, its outputs and its
/// main file.
#[derive(Clone, Debug)]
pub struct Project {
    pub path: String,
    pub src: String,
    pub test: String,
    pub out: ProjectOutput,
    pub main: String,
}

/// Why project settings were refused.
#[derive(Clone, Copy, Debug, PartialEq, Eq, Structural)]
pub enum ProjectError {
    /// The project path is not a directory.
    NotADirectory,
    /// The project path is not absolute.
    NotAbsolute,
}

/// The project at `path` with main file `main`: sources in `src`, tests in
/// `test`, outputs under `out`.
pub open spec fn project_at(path: Seq<char>, main: Seq<char>, p: Project) -> bool {
    &&& p.path@ == path
    &&& p.src@ == path_join_spec(path, "src"@)
    &&& p.test@ == path_join_spec(path, "test"@)
    &&& output_under(path_join_spec(path, "out"@), p.out)
    &&& p.main@ == main
}

/// The project directory the settings name: `path` when given, else
/// `relative_path` under the working directory, else the working directory.
pub open spec fn resolved_path(path: Option<Seq<char>>, relative: Option<Seq<char>>, cwd: Seq<char>) -> Seq<
    char,
> {
    match path {
        Some(p) => p,
        None => match relative {
            Some(r) => path_join_spec(cwd, r),
            None => cwd,
        },
    }
}

/// A path is absolute on Unix when it starts at the root.
pub open spec fn is_absolute(p: Seq<char>) -> bool {
    p.len() > 0 && p[0] == '/'
}

impl Project {
    /// The main file.
    pub fn main(&self) -> (res: &String)
        ensures
            *res == self.main,
    {
        &self.main
    }

    /// The default project: the working directory `cwd` with main file
    /// `Main.kt`.
    pub fn default_in(cwd: &str) -> (res: Project)
        ensures
            project_at(cwd@, "Main.kt"@, res),
    {
        let path = owned(cwd);
        Project {
            main: owned("Main.kt"),
            src: path_join(cwd, "src"),
            test: path_join(cwd, "test"),
            out: ProjectOutput::new(path_join(cwd, "out")),
            path,
        }
    }

    /// The project directory the settings name.
    pub fn resolve_path(path: Option<&str>, relative_path: Option<&str>, cwd: &str) -> (res: String)
        ensures
            res@ == resolved_path(
                match path {
                    Some(p) => Some(p@),
                    None => None,
                },
                match relative_path {
                    Some(r) => Some(r@),
                    None => None,
                },
                cwd@,
            ),
    {
        match path {
            Some(p) => owned(p),
            None => match relative_path {
                Some(r) => path_join(cwd, r),
                None => owned(cwd),
            },
        }
    }

    /// The project in the directory `path`, with main file
    /// `main` (`Main.kt` when not given). `is_dir` tells whether `path` is a
    /// directory. Refused when it is not, or when `path` is not absolute.
    pub fn new(main: Option<&str>, path: &str, is_dir: bool) -> (res: Result<Project, ProjectError>)
        ensures
            !is_dir ==> res == Err::<Project, ProjectError>(ProjectError::NotADirectory),
            is_dir && !is_absolute(path@) ==> res == Err::<Project, ProjectError>(
                ProjectError::NotAbsolute,
            ),
            is_dir && is_absolute(path@) ==> (res matches Ok(p) && project_at(
                path@,
                match main {
                    Some(m) => m@,
                    None => "Main.kt"@,
                },
                p,
            )),
    {
        if !is_dir {
            return Err(ProjectError::NotADirectory);
        }
        let chars = crate::text::chars_of(path);
        if !(chars.len() > 0 && chars[0] == '/') {
            return Err(ProjectError::NotAbsolute);
        }
        Ok(
            Project {
                main: match main {
                    Some(m) => owned(m),
                    None => owned("Main.kt"),
                },
                src: path_join(path, "src"),
                test: path_join(path, "test"),
                out: ProjectOutput::new(path_join(path, "out")),
                path: owned(path),
            },
        )
    }

    /// The name of the compiled main class: the main file with `.kt`
    /// replaced by `Kt` (`Main.kt` becomes `MainKt`).
    pub fn compiled_main_file(&self) -> (res: String)
        ensures
            res@ == replace_spec(self.main@, ".kt"@, "Kt"@),
    {
        proof {
            reveal_strlit(".kt");
        }
        replace(self.main.as_str(), ".kt", "Kt")
    }
}

/// The settings the `[project]` section gives.
#[derive(Clone, Debug)]
pub struct ProjectSettings {
    pub main: Option<String>,
    pub path: Option<String>,
    pub relative_path: Option<String>,
}

/// The string value of the key `key` among the entries, if any.
pub open spec fn entry_value(es: Seq<TomlEntryView>, key: Seq<char>) -> Option<Seq<char>>
    decreases es.len(),
{
    if es.len() == 0 {
        None
    } else if es[0].keys == seq![key] {
        es[0].value
    } else {
        entry_value(es.skip(1), key)
    }
}

/// The entries of the first `[project]` section that is a table.
pub open spec fn project_entries(ss: Seq<TomlSectionView>) -> Option<Seq<TomlEntryView>>
    decreases ss.len(),
{
    if ss.len() == 0 {
        None
    } else if section_of(ss[0].name) == Some(Section::Project) && ss[0].entries is Some {
        ss[0].entries
    } else {
        project_entries(ss.skip(1))
    }
}

/// The string value of the key `key` among the entries.
pub fn find_value(entries: &Vec<TomlEntry>, key: &str) -> (res: Option<String>)
    ensures
        opt_view(res) == entry_value(entry_views(entries@), key@),
{
    let ghost es = entry_views(entries@);
    let mut i: usize = 0;
    assert(es.skip(0) =~= es);
    while i < entries.len()
        invariant
            es == entry_views(entries@),
            i <= entries@.len(),
            entry_value(es, key@) == entry_value(es.skip(i as int), key@),
        decreases entries@.len() - i,
    {
        let e = &entries[i];
        proof {
            assert(es.skip(i as int)[0] == e@);
            assert(es.skip(i as int).skip(1) =~= es.skip(i + 1));
        }
        if e.keys.len() == 1 && str_eq(e.keys[0].as_str(), key) {
            proof {
                assert(e@.keys =~= seq![key@]);
            }
            return match &e.value {
                Some(v) => Some(v.clone()),
                None => None,
            };
        }
        proof {
            if e@.keys == seq![key@] {
                assert(e@.keys.len() == 1);
                assert(e@.keys[0] == e.keys@[0]@);
            }
        }
        i = i + 1;
    }
    None
}

/// The project settings of the manifest's sections: `main`, `path` and
/// `relative-path` of the first `[project]` table; `None` without one.
pub fn project_settings(sections: &Vec<TomlSection>) -> (res: Option<ProjectSettings>)
    ensures
        match project_entries(section_views(sections@)) {
            Some(es) => res matches Some(s) && opt_view(s.main) == entry_value(es, "main"@)
                && opt_view(s.path) == entry_value(es, "path"@) && opt_view(s.relative_path)
                == entry_value(es, "relative-path"@),
            None => res is None,
        },
{
    let ghost ss = section_views(sections@);
    let mut i: usize = 0;
    assert(ss.skip(0) =~= ss);
    while i < sections.len()
        invariant
            ss == section_views(sections@),
            i <= sections@.len(),
            project_entries(ss) == project_entries(ss.skip(i as int)),
        decreases sections@.len() - i,
    {
        let s = &sections[i];
        proof {
            assert(ss.skip(i as int)[0] == s@);
            assert(ss.skip(i as int).skip(1) =~= ss.skip(i + 1));
        }
        if Section::parse(s.name.as_str()) == Some(Section::Project) {
            match &s.entries {
                Some(es) => {
                    return Some(
                        ProjectSettings {
                            main: find_value(es, "main"),
                            path: find_value(es, "path"),
                            relative_path: find_value(es, "relative-path"),
                        },
                    );
                },
                None => {},
            }
        }
        i = i + 1;
    }
    None
}

/// The project the manifest describes: the project its settings
/// name, or the default project in `cwd` when those settings are refused;
/// `None` without a `[project]` table. `is_dir` tells whether the path the
/// settings resolve to is a directory.
pub fn project(sections: &Vec<TomlSection>, cwd: &str, is_dir: bool) -> (res: Option<Project>)
    ensures
        match project_entries(section_views(sections@)) {
            Some(es) => res matches Some(p) && {
                let path = resolved_path(entry_value(es, "path"@), entry_value(es, "relative-path"@), cwd@);
                if is_dir && is_absolute(path) {
                    project_at(
                        path,
                        match entry_value(es, "main"@) {
                            Some(m) => m,
                            None => "Main.kt"@,
                        },
                        p,
                    )
                } else {
                    project_at(cwd@, "Main.kt"@, p)
                }
            },
            None => res is None,
        },
{
    match project_settings(sections) {
        Some(settings) => {
            let path = Project::resolve_path(
                match &settings.path {
                    Some(p) => Some(p.as_str()),
                    None => None,
                },
                match &settings.relative_path {
                    Some(r) => Some(r.as_str()),
                    None => None,
                },
                cwd,
            );
            let main = match &settings.main {
                Some(m) => Some(m.as_str()),
                None => None,
            };
            match Project::new(main, path.as_str(), is_dir) {
                Ok(p) => Some(p),
                Err(_) => Some(Project::default_in(cwd)),
            }
        },
        None => None,
    }
}

} // verus!
