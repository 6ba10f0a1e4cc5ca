//! The `clean` command: which output directory it removes, and how the
//! removal concludes.
use vstd::prelude::*;

use crate::command::cli::CleanSet;
use crate::config::project::ProjectOutput;
use crate::output::{BuildkOutput, PartialConclusion};
use crate::text::{concat, owned, str_eq};

verus! {

/// The message of the error the system gives for a directory that does not
/// exist; the command treats such a directory as cleaned.
pub const OS_2_ERROR: &'static str = "No such file or directory (os error 2)";

/// The directory the command removes for `set`: the compiled sources, the
/// compiled tests, the jar, or the whole output directory.
pub open spec fn clean_dir_spec(out: ProjectOutput, set: CleanSet) -> Seq<char> {
    match set {
        CleanSet::Src => out.src@,
        CleanSet::Test => out.test@,
        CleanSet::Release => out.jar@,
        CleanSet::All => out.path@,
    }
}

/// The directory the command removes for `set`.
pub fn clean_dir(out: &ProjectOutput, set: CleanSet) -> (res: String)
    ensures
        res@ == clean_dir_spec(*out, set),
{
    match set {
        CleanSet::Src => owned(out.src.as_str()),
        CleanSet::Test => owned(out.test.as_str()),
        CleanSet::Release => owned(out.jar.as_str()),
        CleanSet::All => owned(out.path.as_str()),
    }
}

/// Whether the removal of a directory counts as cleaning it: it succeeded,
/// or the directory did not exist.
pub open spec fn cleaned_spec(removal: Result<(), Seq<char>>) -> bool {
    match removal {
        Ok(()) => true,
        Err(e) => e == OS_2_ERROR@,
    }
}

/// How the command concludes after trying to remove `dir`, given the error message of a failed removal;
/// the flag says whether the build cache is to be invalidated, which it is
/// for a cleaned directory. A cleaned directory concludes a success that
/// reports `dir cleaned.`; any other error concludes a failure that
/// reports `failed to clean dir with error`.
pub fn clean_outcome(dir: &str, removal: Result<(), String>) -> (res: (BuildkOutput, bool))
    ensures
        res.0.name@ == "clean"@,
        res.0.status == 0,
        res.1 == cleaned_spec(
            match removal {
                Ok(()) => Ok(()),
                Err(e) => Err(e@),
            },
        ),
        res.1 ==> {
            &&& res.0.conclusion == Some(PartialConclusion::SUCCESS)
            &&& res.0.stdout matches Some(s) && s@ == dir@ + " cleaned."@
            &&& res.0.stderr is None
        },
        !res.1 ==> {
            &&& res.0.conclusion == Some(PartialConclusion::FAILED)
            &&& res.0.stdout is None
            &&& res.0.stderr matches Some(s) && removal matches Err(e) && s@ == "failed to clean "@ + dir@
                + " with "@ + e@
        },
{
    let mut output = BuildkOutput::new("clean");
    let cleaned = match &removal {
        Ok(()) => true,
        Err(e) => str_eq(e.as_str(), OS_2_ERROR),
    };
    if cleaned {
        output.conclude(PartialConclusion::SUCCESS);
        output.set_stdout(concat(dir, " cleaned."));
    } else {
        output.conclude(PartialConclusion::FAILED);
        let msg = match &removal {
            Ok(()) => String::new(),
            Err(e) => {
                let a = concat("failed to clean ", dir);
                let b = concat(a.as_str(), " with ");
                concat(b.as_str(), e.as_str())
            },
        };
        output.set_stderr(msg);
    }
    (output, cleaned)
}

} // verus!
