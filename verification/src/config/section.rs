//! The sections a manifest may have.
use vstd::prelude::*;

use crate::text::str_eq;

verus! {

/// A section of the manifest.
#[derive(Clone, Copy, Debug, PartialEq, Eq, Structural)]
pub enum Section {
    Project,
    Module,
    Dependencies,
    TestDependencies,
}

/// The section a header names, if it names one.
pub open spec fn section_of(s: Seq<char>) -> Option<Section> {
    if s == "project"@ {
        Some(Section::Project)
    } else if s == "module"@ {
        Some(Section::Module)
    } else if s == "dependencies"@ {
        Some(Section::Dependencies)
    } else if s == "test-dependencies"@ {
        Some(Section::TestDependencies)
    } else {
        None
    }
}

impl Section {
    /// The section a header names; `None` for an
    /// invalid section name.
    pub fn parse(s: &str) -> (res: Option<Section>)
        ensures
            res == section_of(s@),
    {
        if str_eq(s, "project") {
            Some(Section::Project)
        } else if str_eq(s, "module") {
            Some(Section::Module)
        } else if str_eq(s, "dependencies") {
            Some(Section::Dependencies)
        } else if str_eq(s, "test-dependencies") {
            Some(Section::TestDependencies)
        } else {
            None
        }
    }
}

} // verus!
