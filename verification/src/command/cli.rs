//! The tool's commands and their arguments.
use vstd::prelude::*;

use crate::text::{concat, pad_right, pad_right_spec, str_eq};

verus! {

/// What to build.
#[derive(Clone, Copy, Debug, PartialEq, Eq, Structural)]
pub enum BuildSet {
    All,
    Src,
    Test,
}

/// What to clean.
#[derive(Clone, Copy, Debug, PartialEq, Eq, Structural)]
pub enum CleanSet {
    All,
    Src,
    Test,
    Release,
}

/// A command of the tool.
#[derive(Clone, Copy, Debug, PartialEq, Eq, Structural)]
pub enum Cmd {
    Clean,
    Build,
    Test,
    Run,
    Release,
}

/// The command a word names, if any.
pub open spec fn cmd_of(s: Seq<char>) -> Option<Cmd> {
    if s == "clean"@ {
        Some(Cmd::Clean)
    } else if s == "build"@ {
        Some(Cmd::Build)
    } else if s == "test"@ {
        Some(Cmd::Test)
    } else if s == "run"@ {
        Some(Cmd::Run)
    } else if s == "release"@ {
        Some(Cmd::Release)
    } else {
        None
    }
}

impl Cmd {
    /// The command a word names; `None` for an invalid
    /// command.
    pub fn parse(value: &str) -> (res: Option<Cmd>)
        ensures
            res == cmd_of(value@),
    {
        if str_eq(value, "clean") {
            Some(Cmd::Clean)
        } else if str_eq(value, "build") {
            Some(Cmd::Build)
        } else if str_eq(value, "test") {
            Some(Cmd::Test)
        } else if str_eq(value, "run") {
            Some(Cmd::Run)
        } else if str_eq(value, "release") {
            Some(Cmd::Release)
        } else {
            None
        }
    }
}

/// The main class to run: the class given, with `Kt` appended, or else the
/// project's main file with `.kt` replaced by `Kt`.
pub open spec fn main_class_spec(arg: Option<Seq<char>>, main: Seq<char>) -> Seq<char> {
    match arg {
        Some(class) => class + "Kt"@,
        None => crate::text::replace_spec(main, ".kt"@, "Kt"@),
    }
}

/// The main class to run: the class an argument names with `Kt` after it,
/// else the main file with `.kt` turned into `Kt`.
pub fn main_class(arg: Option<&str>, main: &str) -> (res: String)
    ensures
        res@ == main_class_spec(
            match arg {
                Some(a) => Some(a@),
                None => None,
            },
            main@,
        ),
{
    proof {
        reveal_strlit(".kt");
    }
    match arg {
        Some(class) => crate::text::concat(class, "Kt"),
        None => crate::text::replace(main, ".kt", "Kt"),
    }
}

/// The command line: the command, and whether to be quiet (`-q`).
#[derive(Clone, Debug)]
pub struct Cli {
    pub command: Commands,
    pub quiet: bool,
}

impl Cli {
    /// Whether the tool was asked to be quiet.
    pub fn is_quiet(&self) -> (res: bool)
        ensures
            res == self.quiet,
    {
        self.quiet
    }
}

/// The commands of the tool, with their arguments.
#[derive(Clone, Debug)]
pub enum Commands {
    /// Build the project.
    Build { set: BuildSet },
    /// Clean the output directory.
    Clean { set: CleanSet },
    /// Show the project configuration.
    Config,
    /// Print the dependencies, down to a depth.
    Deps { limit: Option<usize> },
    /// Fetch the dependencies, or one artifact.
    Fetch { artifact: Option<String> },
    /// Initialize the project.
    Init,
    /// Create a release (jar).
    Release,
    /// Run the project, or a main class.
    Run { name: Option<String> },
    /// Run JUnit tests.
    Test { name: Option<String> },
    /// Print the build tree.
    Tree,
    /// Print where a package is stored.
    Path { dep: String },
}

/// A line of the help: the command padded to 11 characters, a bar, and what
/// it does.
pub open spec fn help_line(command: Seq<char>, what: Seq<char>) -> Seq<char> {
    pad_right_spec(command, 11) + "\u{2502} "@ + what + "\n"@
}

/// The help the `help` command prints: a table of the commands.
pub open spec fn help_spec() -> Seq<char> {
    "\u{2500}\u{2500}\u{2500}\u{2500}\u{2500}\u{2500}\u{2500}\u{2500}\u{2500}\u{2500}\u{2500}\u{252c}\u{2500}\u{2500}\u{2500}\u{2500}\u{2500}\u{2500}\u{2500}\u{2500}\u{2500}\u{2500}\u{2500}\u{2500}\u{2500}\u{2500}\u{2500}\u{2500}\u{2500}\u{2500}\u{2500}\u{2500}\u{2500}\n"@
        + help_line("clean"@, "clean the project"@) + help_line("build"@, "build the project"@)
        + help_line("test"@, "test the project"@) + help_line("run"@, "run the project"@)
        + help_line("release"@, "release the project"@) + help_line("fetch"@, "fetch the project"@)
        + help_line("tree"@, "list the build tree"@) + help_line("deps"@, "print the dependencies"@)
        + help_line("config"@, "show the config"@) + help_line("help"@, "print this help"@)
        + "\u{2500}\u{2500}\u{2500}\u{2500}\u{2500}\u{2500}\u{2500}\u{2500}\u{2500}\u{2500}\u{2500}\u{2534}\u{2500}\u{2500}\u{2500}\u{2500}\u{2500}\u{2500}\u{2500}\u{2500}\u{2500}\u{2500}\u{2500}\u{2500}\u{2500}\u{2500}\u{2500}\u{2500}\u{2500}\u{2500}\u{2500}\u{2500}\u{2500}"@
}

/// A line of the help.
fn help_entry(text: String, command: &str, what: &str) -> (res: String)
    ensures
        res@ == text@ + help_line(command@, what@),
{
    let a = pad_right(command, 11);
    let b = concat(a.as_str(), "\u{2502} ");
    let c = concat(b.as_str(), what);
    let d = concat(c.as_str(), "\n");
    concat(text.as_str(), d.as_str())
}

/// The help the `help` command prints.
pub fn help_text() -> (res: String)
    ensures
        res@ == help_spec(),
{
    let t = crate::text::owned(
        "\u{2500}\u{2500}\u{2500}\u{2500}\u{2500}\u{2500}\u{2500}\u{2500}\u{2500}\u{2500}\u{2500}\u{252c}\u{2500}\u{2500}\u{2500}\u{2500}\u{2500}\u{2500}\u{2500}\u{2500}\u{2500}\u{2500}\u{2500}\u{2500}\u{2500}\u{2500}\u{2500}\u{2500}\u{2500}\u{2500}\u{2500}\u{2500}\u{2500}\n",
    );
    let t = help_entry(t, "clean", "clean the project");
    let t = help_entry(t, "build", "build the project");
    let t = help_entry(t, "test", "test the project");
    let t = help_entry(t, "run", "run the project");
    let t = help_entry(t, "release", "release the project");
    let t = help_entry(t, "fetch", "fetch the project");
    let t = help_entry(t, "tree", "list the build tree");
    let t = help_entry(t, "deps", "print the dependencies");
    let t = help_entry(t, "config", "show the config");
    let t = help_entry(t, "help", "print this help");
    concat(
        t.as_str(),
        "\u{2500}\u{2500}\u{2500}\u{2500}\u{2500}\u{2500}\u{2500}\u{2500}\u{2500}\u{2500}\u{2500}\u{2534}\u{2500}\u{2500}\u{2500}\u{2500}\u{2500}\u{2500}\u{2500}\u{2500}\u{2500}\u{2500}\u{2500}\u{2500}\u{2500}\u{2500}\u{2500}\u{2500}\u{2500}\u{2500}\u{2500}\u{2500}\u{2500}",
    )
}

} // verus!
