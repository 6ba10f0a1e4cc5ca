//! The steps of the build commands (`build`, `clean`, `target`, `run`,
//! `test`) and what each step does: the compiler or JVM invocation it makes,
//! or the directory it removes, and whether the build record lets it skip.
use vstd::prelude::*;

use crate::fs_toml::{slash, BuildCache, Config};
use crate::text::{concat, join, join_spec, owned, pad_right, pad_right_spec, replace_spec, views};

verus! {

/// The Kotlin compiler the build steps run.
pub const KOTLINC: &'static str = "../kotlinc/bin/kotlinc-jvm";

/// The JUnit console launcher the tests run with.
pub const JUNIT_CONSOLE: &'static str = "libs/junit-platform-console-standalone-1.9.2.jar";

/// A step of a build command.
#[derive(Clone, Copy, Debug, PartialEq, Eq, Structural)]
pub enum Step {
    /// Compile the sources.
    BuildSrc,
    /// Compile the tests.
    BuildTest,
    /// Remove the output directory.
    CleanBuildDir,
    /// Package the sources into a jar.
    Jar,
    /// Run the application.
    RunApp,
    /// Run the tests.
    RunTests,
}

/// The steps of `build`: compile the sources, then the tests.
pub fn build() -> (res: Vec<Step>)
    ensures
        res@ == seq![Step::BuildSrc, Step::BuildTest],
{
    let res = vec![Step::BuildSrc, Step::BuildTest];
    assert(res@ =~= seq![Step::BuildSrc, Step::BuildTest]);
    res
}

/// The steps of `clean`: remove the output directory.
pub fn clean() -> (res: Vec<Step>)
    ensures
        res@ == seq![Step::CleanBuildDir],
{
    let res = vec![Step::CleanBuildDir];
    assert(res@ =~= seq![Step::CleanBuildDir]);
    res
}

/// The steps of `target`: compile the sources, then package them.
pub fn target() -> (res: Vec<Step>)
    ensures
        res@ == seq![Step::BuildSrc, Step::Jar],
{
    let res = vec![Step::BuildSrc, Step::Jar];
    assert(res@ =~= seq![Step::BuildSrc, Step::Jar]);
    res
}

/// The steps of `run`: run the application.
pub fn run() -> (res: Vec<Step>)
    ensures
        res@ == seq![Step::RunApp],
{
    let res = vec![Step::RunApp];
    assert(res@ =~= seq![Step::RunApp]);
    res
}

/// The steps of `test`: compile the sources and the tests, then run them.
pub fn test() -> (res: Vec<Step>)
    ensures
        res@ == seq![Step::BuildSrc, Step::BuildTest, Step::RunTests],
{
    let res = vec![Step::BuildSrc, Step::BuildTest, Step::RunTests];
    assert(res@ =~= seq![Step::BuildSrc, Step::BuildTest, Step::RunTests]);
    res
}

/// A program to run, the directory to run it in, and its arguments.
#[derive(Clone, Debug)]
pub struct Invocation {
    pub program: String,
    pub dir: String,
    pub args: Vec<String>,
}

/// The mathematical value of an invocation.
pub struct InvocationView {
    pub program: Seq<char>,
    pub dir: Seq<char>,
    pub args: Seq<Seq<char>>,
}

impl View for Invocation {
    type V = InvocationView;

    open spec fn view(&self) -> InvocationView {
        InvocationView { program: self.program@, dir: self.dir@, args: views(self.args@) }
    }
}

/// What a step does.
#[derive(Clone, Debug)]
pub enum Action {
    /// Run a program.
    Invoke(Invocation),
    /// Nothing: the build record shows the step was done.
    Cached,
    /// Remove a directory and all it holds.
    Remove(String),
}

/// The mathematical value of an action.
pub enum ActionView {
    Invoke(InvocationView),
    Cached,
    Remove(Seq<char>),
}

impl View for Action {
    type V = ActionView;

    open spec fn view(&self) -> ActionView {
        match self {
            Action::Invoke(i) => ActionView::Invoke(i@),
            Action::Cached => ActionView::Cached,
            Action::Remove(p) => ActionView::Remove(p@),
        }
    }
}

/// The classpath the tests are compiled against: the compiled sources, the
/// Kotlin test libraries and the JUnit console launcher.
pub open spec fn test_compile_classpath(c: Config) -> Seq<char> {
    join_spec(
        seq![
            slash(c.build.output@, c.build.src@),
            "../kotlinc/lib/kotlin-test-junit5.jar"@,
            "../kotlinc/lib/kotlin-test.jar"@,
            JUNIT_CONSOLE@,
        ],
        ":"@,
    )
}

/// The invocation a step makes, run in the project directory.
pub open spec fn invocation_spec(step: Step, c: Config) -> InvocationView {
    let output_src = slash(c.build.output@, c.build.src@);
    let output_test = slash(c.build.output@, c.build.test@);
    match step {
        Step::BuildSrc => InvocationView {
            program: KOTLINC@,
            dir: c.project.dir@,
            args: seq![c.build.src@, "-d"@, output_src],
        },
        Step::BuildTest => InvocationView {
            program: KOTLINC@,
            dir: c.project.dir@,
            args: seq![c.build.test@, "-cp"@, test_compile_classpath(c), "-d"@, output_test],
        },
        Step::Jar => InvocationView {
            program: KOTLINC@,
            dir: c.project.dir@,
            args: seq![c.build.src@, "-include-runtime"@, "-d"@, slash(c.build.output@, "app.jar"@)],
        },
        Step::RunApp => InvocationView {
            program: "java"@,
            dir: c.project.dir@,
            args: seq!["-cp"@, c.build.src@, replace_spec(c.project.main@, ".kt"@, "Kt"@)],
        },
        _ => InvocationView {
            program: "java"@,
            dir: c.project.dir@,
            args: seq![
                "-jar"@,
                JUNIT_CONSOLE@,
                "-cp"@,
                join_spec(seq![output_src, output_test], ":"@),
                "--select-class"@,
                "PrefixTest"@,
            ],
        },
    }
}

/// What a step does, given the build record: compiling is skipped when the
/// record holds what it would produce; cleaning removes the output
/// directory; the other steps always run their program.
pub open spec fn action_spec(step: Step, c: Config, cache: BuildCache) -> ActionView {
    match step {
        Step::BuildSrc => if cache.src@.len() == 0 {
            ActionView::Invoke(invocation_spec(step, c))
        } else {
            ActionView::Cached
        },
        Step::BuildTest => if cache.test@.len() == 0 {
            ActionView::Invoke(invocation_spec(step, c))
        } else {
            ActionView::Cached
        },
        Step::CleanBuildDir => ActionView::Remove(slash(c.project.dir@, c.build.output@)),
        _ => ActionView::Invoke(invocation_spec(step, c)),
    }
}

/// Builds a list of strings from up to six parts.
fn strings(parts: &[&str]) -> (res: Vec<String>)
    ensures
        views(res@) == parts@.map_values(|s: &str| s@),
{
    let mut res: Vec<String> = Vec::new();
    let mut i: usize = 0;
    while i < parts.len()
        invariant
            i <= parts@.len(),
            views(res@) == parts@.take(i as int).map_values(|s: &str| s@),
        decreases parts@.len() - i,
    {
        let ghost before = views(res@);
        res.push(owned(parts[i]));
        proof {
            assert(views(res@) =~= before.push(parts@[i as int]@));
            assert(parts@.take(i + 1).map_values(|s: &str| s@) =~= parts@.take(i as int).map_values(
                |s: &str| s@,
            ).push(parts@[i as int]@));
        }
        i = i + 1;
    }
    proof {
        assert(parts@.take(i as int) =~= parts@);
    }
    res
}

/// The invocation a step makes (the `Command` each step of the build
/// commands runs). Cleaning runs no program.
pub fn invocation(step: Step, config: &Config) -> (res: Invocation)
    requires
        step != Step::CleanBuildDir,
    ensures
        res@ == invocation_spec(step, *config),
{
    let dir = owned(config.project.dir.as_str());
    match step {
        Step::BuildSrc => {
            let out = config.build.output_src();
            let args = strings(&[config.build.src.as_str(), "-d", out.as_str()]);
            assert(views(args@) =~= invocation_spec(step, *config).args);
            Invocation { program: owned(KOTLINC), dir, args }
        },
        Step::BuildTest => {
            let out_src = config.build.output_src();
            let cp_parts = strings(
                &[
                    out_src.as_str(),
                    "../kotlinc/lib/kotlin-test-junit5.jar",
                    "../kotlinc/lib/kotlin-test.jar",
                    JUNIT_CONSOLE,
                ],
            );
            assert(views(cp_parts@) =~= seq![
                out_src@,
                "../kotlinc/lib/kotlin-test-junit5.jar"@,
                "../kotlinc/lib/kotlin-test.jar"@,
                JUNIT_CONSOLE@,
            ]);
            let classpath = join(&cp_parts, ":");
            let out = config.build.output_test();
            let args = strings(
                &[config.build.test.as_str(), "-cp", classpath.as_str(), "-d", out.as_str()],
            );
            assert(views(args@) =~= invocation_spec(step, *config).args);
            Invocation { program: owned(KOTLINC), dir, args }
        },
        Step::Jar => {
            let runtime = if config.is_app() {
                "-include-runtime"
            } else {
                ""
            };
            let jar = config.build.target();
            let args = strings(&[config.build.src.as_str(), runtime, "-d", jar.as_str()]);
            assert(views(args@) =~= invocation_spec(step, *config).args);
            Invocation { program: owned(KOTLINC), dir, args }
        },
        Step::RunApp => {
            let main = config.project.main_class();
            let args = strings(&["-cp", config.build.src.as_str(), main.as_str()]);
            assert(views(args@) =~= invocation_spec(step, *config).args);
            Invocation { program: owned("java"), dir, args }
        },
        _ => {
            let out_src = config.build.output_src();
            let out_test = config.build.output_test();
            let cp_parts = strings(&[out_src.as_str(), out_test.as_str()]);
            assert(views(cp_parts@) =~= seq![out_src@, out_test@]);
            let classpath = join(&cp_parts, ":");
            let args = strings(
                &["-jar", JUNIT_CONSOLE, "-cp", classpath.as_str(), "--select-class", "PrefixTest"],
            );
            assert(views(args@) =~= invocation_spec(step, *config).args);
            Invocation { program: owned("java"), dir, args }
        },
    }
}

/// What a step does, given the build record.
pub fn action(step: Step, config: &Config, cache: &BuildCache) -> (res: Action)
    ensures
        res@ == action_spec(step, *config, *cache),
{
    match step {
        Step::BuildSrc => if cache.missing_src() {
            Action::Invoke(invocation(step, config))
        } else {
            Action::Cached
        },
        Step::BuildTest => if cache.missing_test() {
            Action::Invoke(invocation(step, config))
        } else {
            Action::Cached
        },
        Step::CleanBuildDir => {
            let a = concat(config.project.dir.as_str(), "/");
            Action::Remove(concat(a.as_str(), config.build.output.as_str()))
        },
        _ => Action::Invoke(invocation(step, config)),
    }
}

/// The line printed before a step runs: a marker, the step's word padded to
/// seven characters, and what it works on (padded to seven characters but
/// for the jar).
pub open spec fn banner_spec(step: Step, c: Config) -> Seq<char> {
    match step {
        Step::BuildSrc => "\u{25b8} "@ + pad_right_spec("build "@, 7) + pad_right_spec(c.build.src@, 7),
        Step::BuildTest => "\u{25b8} "@ + pad_right_spec("build "@, 7) + pad_right_spec(c.build.test@, 7),
        Step::CleanBuildDir => "\u{25b8} "@ + pad_right_spec("clean "@, 7) + pad_right_spec(c.build.output@, 7),
        Step::Jar => "\u{25b8} "@ + pad_right_spec("target "@, 7) + slash(c.build.output@, "app.jar"@),
        Step::RunApp => "\u{25b8} "@ + pad_right_spec("run"@, 7) + pad_right_spec(
            replace_spec(c.project.main@, ".kt"@, "Kt"@),
            7,
        ),
        Step::RunTests => "\u{25b8} "@ + pad_right_spec("run"@, 7) + pad_right_spec("test"@, 7),
    }
}

/// The line printed before a step runs.
pub fn banner(step: Step, config: &Config) -> (res: String)
    ensures
        res@ == banner_spec(step, *config),
{
    let (word, what) = match step {
        Step::BuildSrc => (pad_right("build ", 7), pad_right(config.build.src.as_str(), 7)),
        Step::BuildTest => (pad_right("build ", 7), pad_right(config.build.test.as_str(), 7)),
        Step::CleanBuildDir => (pad_right("clean ", 7), pad_right(config.build.output.as_str(), 7)),
        Step::Jar => (pad_right("target ", 7), config.build.target()),
        Step::RunApp => {
            let main = config.project.main_class();
            (pad_right("run", 7), pad_right(main.as_str(), 7))
        },
        Step::RunTests => (pad_right("run", 7), pad_right("test", 7)),
    };
    let a = concat("\u{25b8} ", word.as_str());
    concat(a.as_str(), what.as_str())
}

/// The directory whose files a successful compile step records in the build
/// record: the compiled sources or tests under the project directory.
pub open spec fn compiled_dir_spec(step: Step, c: Config) -> Option<Seq<char>> {
    match step {
        Step::BuildSrc => Some(slash(c.project.dir@, slash(c.build.output@, c.build.src@))),
        Step::BuildTest => Some(slash(c.project.dir@, slash(c.build.output@, c.build.test@))),
        _ => None,
    }
}

/// The directory whose files a successful compile step records.
pub fn compiled_dir(step: Step, config: &Config) -> (res: Option<String>)
    ensures
        match res {
            Some(d) => compiled_dir_spec(step, *config) == Some(d@),
            None => compiled_dir_spec(step, *config) is None,
        },
{
    match step {
        Step::BuildSrc => {
            let out = config.build.output_src();
            let a = concat(config.project.dir.as_str(), "/");
            Some(concat(a.as_str(), out.as_str()))
        },
        Step::BuildTest => {
            let out = config.build.output_test();
            let a = concat(config.project.dir.as_str(), "/");
            Some(concat(a.as_str(), out.as_str()))
        },
        _ => None,
    }
}

/// Where the build record is kept: `output/cache.toml` under the project
/// directory.
pub fn cache_path(config: &Config) -> (res: String)
    ensures
        res@ == slash(config.project.dir@, slash(config.build.output@, "cache.toml"@)),
{
    let c = config.build.cache();
    let a = concat(config.project.dir.as_str(), "/");
    concat(a.as_str(), c.as_str())
}

} // verus!
