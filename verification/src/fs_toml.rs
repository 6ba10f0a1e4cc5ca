//! The build configuration of a single project (`buildk.toml` with a
//! `[project]` and an optional `[build]` table) and the record of what was
//! built.
use vstd::prelude::*;

use crate::text::{concat, owned, pad_right, pad_right_spec, replace, replace_spec, views};

verus! {

/// The project: its main file and its directory.
#[derive(Clone, Debug)]
pub struct Project {
    pub main: String,
    pub dir: String,
}

/// Where the build writes, relative to the project directory.
#[derive(Clone, Debug)]
pub struct Build {
    pub output: String,
    pub src: String,
    pub test: String,
}

/// The configuration: the project and its build settings.
#[derive(Clone, Debug)]
pub struct Config {
    pub project: Project,
    pub build: Build,
}

/// `a/b`.
pub open spec fn slash(a: Seq<char>, b: Seq<char>) -> Seq<char> {
    a + "/"@ + b
}

/// `a/b`.
fn slash_join(a: &str, b: &str) -> (res: String)
    ensures
        res@ == slash(a@, b@),
{
    let x = concat(a, "/");
    concat(x.as_str(), b)
}

impl Build {
    /// The defaults: output in `build`, sources in `src`, tests in `test`.
    pub fn defaults() -> (res: Build)
        ensures
            res.output@ == "build"@,
            res.src@ == "src"@,
            res.test@ == "test"@,
    {
        Build { output: default_build_output(), src: default_build_src(), test: default_build_test() }
    }

    /// Where compiled sources go: `output/src`.
    pub fn output_src(&self) -> (res: String)
        ensures
            res@ == slash(self.output@, self.src@),
    {
        slash_join(self.output.as_str(), self.src.as_str())
    }

    /// Where compiled tests go: `output/test`.
    pub fn output_test(&self) -> (res: String)
        ensures
            res@ == slash(self.output@, self.test@),
    {
        slash_join(self.output.as_str(), self.test.as_str())
    }

    /// The jar the release builds: `output/app.jar`.
    pub fn target(&self) -> (res: String)
        ensures
            res@ == slash(self.output@, "app.jar"@),
    {
        slash_join(self.output.as_str(), "app.jar")
    }

    /// The build record: `output/cache.toml`.
    pub fn cache(&self) -> (res: String)
        ensures
            res@ == slash(self.output@, "cache.toml"@),
    {
        slash_join(self.output.as_str(), "cache.toml")
    }
}

/// The default output directory, `build`.
pub fn default_build_output() -> (res: String)
    ensures
        res@ == "build"@,
{
    owned("build")
}

/// The default source directory, `src`.
pub fn default_build_src() -> (res: String)
    ensures
        res@ == "src"@,
{
    owned("src")
}

/// The default test directory, `test`.
pub fn default_build_test() -> (res: String)
    ensures
        res@ == "test"@,
{
    owned("test")
}

/// The default project directory, `.`.
pub fn default_project_dir() -> (res: String)
    ensures
        res@ == "."@,
{
    owned(".")
}

impl Config {
    /// Whether the project is an application (every project is).
    pub fn is_app(&self) -> (res: bool)
        ensures
            res,
    {
        true
    }

    /// The configuration as it is shown: one line per
    /// setting, the name padded to 18 characters, then an empty line.
    pub fn display(&self) -> (res: String)
        ensures
            res@ == config_display_spec(*self),
    {
        let lines = vec![
            setting18("project.main:", self.project.main.as_str()),
            setting18("project.main():", self.project.main_class().as_str()),
            setting18("project.dir:", self.project.dir.as_str()),
            setting18("build.output:", self.build.output.as_str()),
            setting18("build.src:", self.build.src.as_str()),
            setting18("build.test:", self.build.test.as_str()),
            setting18("is_app():", "true"),
            setting18("target():", self.build.target().as_str()),
            setting18("output_src():", self.build.output_src().as_str()),
            setting18("output_test():", self.build.output_test().as_str()),
        ];
        let mut res = String::new();
        let mut i: usize = 0;
        while i < lines.len()
            invariant
                i <= lines@.len(),
                res@ == crate::text::join_spec(views(lines@).take(i as int), Seq::empty()),
            decreases lines@.len() - i,
        {
            proof {
                crate::text::lemma_join_empty_push(views(lines@).take(i as int), lines@[i as int]@);
                assert(views(lines@).take(i + 1) =~= views(lines@).take(i as int).push(lines@[i as int]@));
            }
            res = concat(res.as_str(), lines[i].as_str());
            i = i + 1;
        }
        proof {
            assert(views(lines@).take(i as int) =~= views(lines@));
            assert(views(lines@) =~= config_lines(*self));
        }
        concat(res.as_str(), "\n")
    }
}

/// A line of the shown configuration: the name padded to 18 characters, then
/// the value.
pub open spec fn setting18_spec(name: Seq<char>, value: Seq<char>) -> Seq<char> {
    pad_right_spec(name, 18) + value + "\n"@
}

/// A line of the shown configuration.
fn setting18(name: &str, value: &str) -> (res: String)
    ensures
        res@ == setting18_spec(name@, value@),
{
    let a = pad_right(name, 18);
    let b = concat(a.as_str(), value);
    concat(b.as_str(), "\n")
}

/// The lines of the shown configuration.
pub open spec fn config_lines(c: Config) -> Seq<Seq<char>> {
    seq![
        setting18_spec("project.main:"@, c.project.main@),
        setting18_spec("project.main():"@, replace_spec(c.project.main@, ".kt"@, "Kt"@)),
        setting18_spec("project.dir:"@, c.project.dir@),
        setting18_spec("build.output:"@, c.build.output@),
        setting18_spec("build.src:"@, c.build.src@),
        setting18_spec("build.test:"@, c.build.test@),
        setting18_spec("is_app():"@, "true"@),
        setting18_spec("target():"@, slash(c.build.output@, "app.jar"@)),
        setting18_spec("output_src():"@, slash(c.build.output@, c.build.src@)),
        setting18_spec("output_test():"@, slash(c.build.output@, c.build.test@)),
    ]
}

/// The shown configuration: its lines, then an empty line.
pub open spec fn config_display_spec(c: Config) -> Seq<char> {
    crate::text::join_spec(config_lines(c), Seq::empty()) + "\n"@
}

impl Project {
    /// The compiled main class: the main file with `.kt` replaced by `Kt`.
    pub fn main_class(&self) -> (res: String)
        ensures
            res@ == replace_spec(self.main@, ".kt"@, "Kt"@),
    {
        proof {
            reveal_strlit(".kt");
        }
        replace(self.main.as_str(), ".kt", "Kt")
    }
}

/// What was built: the compiled source and test files.
#[derive(Clone, Debug)]
pub struct BuildCache {
    pub src: Vec<String>,
    pub test: Vec<String>,
}

impl BuildCache {
    /// Nothing built.
    pub fn empty() -> (res: BuildCache)
        ensures
            res.src@.len() == 0,
            res.test@.len() == 0,
    {
        BuildCache { src: Vec::new(), test: Vec::new() }
    }

    /// Whether the sources still have to be built.
    pub fn missing_src(&self) -> (res: bool)
        ensures
            res == (self.src@.len() == 0),
    {
        self.src.len() == 0
    }

    /// Whether the tests still have to be built.
    pub fn missing_test(&self) -> (res: bool)
        ensures
            res == (self.test@.len() == 0),
    {
        self.test.len() == 0
    }

    /// Records the compiled source files.
    pub fn set_src(&mut self, src: Vec<String>)
        ensures
            final(self).src == src,
            final(self).test == old(self).test,
    {
        self.src = src;
    }

    /// Records the compiled test files.
    pub fn set_test(&mut self, test: Vec<String>)
        ensures
            final(self).test == test,
            final(self).src == old(self).src,
    {
        self.test = test;
    }
}

} // verus!
