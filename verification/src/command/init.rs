//! The `init` command: the files and directories a new project starts with.
use vstd::prelude::*;

use crate::text::{owned, path_join, path_join_spec};

verus! {

/// The main file of a new project.
pub const MAIN_KT: &'static str = "fun main() {\n    println(\"Hello, World!\")\n}";

/// The test of a new project.
pub const MAIN_TEST_KT: &'static str = "import org.junit.jupiter.api.Test\nimport kotlin.test.assertEquals\n\nclass MainTest {\n    @Test\n    fun test() {\n        assertEquals(1, 1)\n    }\n}";

/// A step of creating a project.
#[derive(Clone, Debug)]
pub enum InitStep {
    /// Create the file at the path with the content.
    CreateFile(String, String),
    /// Create the directory at the path.
    CreateDir(String),
}

/// The mathematical value of a step.
pub enum InitStepView {
    CreateFile(Seq<char>, Seq<char>),
    CreateDir(Seq<char>),
}

impl View for InitStep {
    type V = InitStepView;

    open spec fn view(&self) -> InitStepView {
        match self {
            InitStep::CreateFile(p, c) => InitStepView::CreateFile(p@, c@),
            InitStep::CreateDir(p) => InitStepView::CreateDir(p@),
        }
    }
}

/// The steps of creating a project in `cwd`: an empty
/// manifest, the source directory with a main file that greets the world,
/// and the test directory with a test that passes.
pub open spec fn init_steps_spec(cwd: Seq<char>) -> Seq<InitStepView> {
    let src = path_join_spec(cwd, "src"@);
    let test = path_join_spec(cwd, "test"@);
    seq![
        InitStepView::CreateFile(path_join_spec(cwd, "buildk.toml"@), Seq::empty()),
        InitStepView::CreateDir(src),
        InitStepView::CreateFile(path_join_spec(src, "Main.kt"@), MAIN_KT@),
        InitStepView::CreateDir(test),
        InitStepView::CreateFile(path_join_spec(test, "MainTest.kt"@), MAIN_TEST_KT@),
    ]
}

/// The steps of creating a project in `cwd`, in order.
pub fn init_steps(cwd: &str) -> (res: Vec<InitStep>)
    ensures
        res@.map_values(|s: InitStep| s@) == init_steps_spec(cwd@),
{
    let src = path_join(cwd, "src");
    let test = path_join(cwd, "test");
    let main_file = path_join(src.as_str(), "Main.kt");
    let test_file = path_join(test.as_str(), "MainTest.kt");
    let mut res: Vec<InitStep> = Vec::new();
    res.push(InitStep::CreateFile(path_join(cwd, "buildk.toml"), String::new()));
    res.push(InitStep::CreateDir(src));
    res.push(InitStep::CreateFile(main_file, owned(MAIN_KT)));
    res.push(InitStep::CreateDir(test));
    res.push(InitStep::CreateFile(test_file, owned(MAIN_TEST_KT)));
    assert(res@.map_values(|s: InitStep| s@) =~= init_steps_spec(cwd@));
    res
}

} // verus!
