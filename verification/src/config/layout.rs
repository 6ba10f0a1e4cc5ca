//! The build's output layout and the Kotlin installation.
use vstd::prelude::*;

use crate::text::{owned, path_join, path_join_spec};

verus! {

/// Where the build reads sources and writes outputs, relative to `output`.
#[derive(Clone, Debug)]
pub struct Build {
    pub output: String,
    pub src: String,
    pub test: String,
    pub cache: String,
    pub target_jar: String,
}

impl Build {
    /// The defaults: output in `build`, sources in `src`, tests in `test`,
    /// the cache in `cache.json` and the jar `app.jar`.
    pub fn defaults() -> (res: Build)
        ensures
            res.output@ == "build"@,
            res.src@ == "src"@,
            res.test@ == "test"@,
            res.cache@ == "cache.json"@,
            res.target_jar@ == "app.jar"@,
    {
        Build {
            output: owned("build"),
            src: owned("src"),
            test: owned("test"),
            cache: owned("cache.json"),
            target_jar: owned("app.jar"),
        }
    }

    /// Where compiled sources go.
    pub fn output_src(&self) -> (res: String)
        ensures
            res@ == path_join_spec(self.output@, self.src@),
    {
        path_join(self.output.as_str(), self.src.as_str())
    }

    /// Where compiled tests go.
    pub fn output_test(&self) -> (res: String)
        ensures
            res@ == path_join_spec(self.output@, self.test@),
    {
        path_join(self.output.as_str(), self.test.as_str())
    }

    /// Where the test report goes.
    pub fn output_test_report(&self) -> (res: String)
        ensures
            res@ == path_join_spec(path_join_spec(self.output@, self.test@), "report"@),
    {
        let t = self.output_test();
        path_join(t.as_str(), "report")
    }

    /// Where the jar goes.
    pub fn output_target(&self) -> (res: String)
        ensures
            res@ == path_join_spec(self.output@, self.target_jar@),
    {
        path_join(self.output.as_str(), self.target_jar.as_str())
    }

    /// Where the cache goes.
    pub fn output_cache(&self) -> (res: String)
        ensures
            res@ == path_join_spec(self.output@, self.cache@),
    {
        path_join(self.output.as_str(), self.cache.as_str())
    }
}

/// The Kotlin installation.
#[derive(Clone, Debug)]
pub struct Kotlin {
    pub path: String,
}

impl Kotlin {
    /// The default installation, `..kotlinc`.
    pub fn defaults() -> (res: Kotlin)
        ensures
            res.path@ == "..kotlinc"@,
    {
        Kotlin { path: owned("..kotlinc") }
    }

    /// The directory of the Kotlin executables.
    pub fn bin(&self) -> (res: String)
        ensures
            res@ == path_join_spec(self.path@, "bin"@),
    {
        path_join(self.path.as_str(), "bin")
    }
}

} // verus!
