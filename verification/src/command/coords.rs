//! Package coordinates given on the command line.
use vstd::prelude::*;

use crate::text::{split, split_spec};

verus! {

/// The name, namespace and version `<namespace>..<name>=<version>` (or
/// `<name>=<version>`) gives; `None` when the text has not that shape.
pub open spec fn coordinates_spec(input: Seq<char>) -> Option<(Seq<char>, Option<Seq<char>>, Seq<char>)> {
    let parts = split_spec(input, "="@);
    if parts.len() != 2 {
        None
    } else {
        let artifact = split_spec(parts[0], ".."@);
        if artifact.len() == 1 {
            Some((artifact[0], None, parts[1]))
        } else if artifact.len() == 2 {
            Some((artifact[1], Some(artifact[0]), parts[1]))
        } else {
            None
        }
    }
}

/// The name, namespace and version `<namespace>..<name>=<version>` (or
/// `<name>=<version>`) gives. The text must have that shape: one `=`, and at
/// most one `..` before it.
pub fn name_namespace_version(input: &str) -> (res: (String, Option<String>, String))
    requires
        coordinates_spec(input@) is Some,
    ensures
        coordinates_spec(input@) == Some(
            (
                res.0@,
                match res.1 {
                    Some(s) => Some(s@),
                    None => None,
                },
                res.2@,
            ),
        ),
{
    proof {
        reveal_strlit("=");
        reveal_strlit("..");
    }
    let parts = split(input, "=");
    if parts.len() != 2 {
        return (String::new(), None, String::new());
    }
    let artifact = split(parts[0].as_str(), "..");
    let version = parts[1].clone();
    if artifact.len() == 1 {
        (artifact[0].clone(), None, version)
    } else if artifact.len() == 2 {
        (artifact[1].clone(), Some(artifact[0].clone()), version)
    } else {
        (String::new(), None, String::new())
    }
}

/// The name, namespace and version `<namespace>:<name>:<version>` gives;
/// `None` when the text has not three parts.
pub open spec fn dep_path_spec(input: Seq<char>) -> Option<(Seq<char>, Seq<char>, Seq<char>)> {
    let parts = split_spec(input, ":"@);
    if parts.len() == 3 {
        Some((parts[1], parts[0], parts[2]))
    } else {
        None
    }
}

/// The name, namespace and version of `<namespace>:<name>:<version>`, the argument
/// of the `path` command; `None` where the text has not
/// three parts.
pub fn dep_path_coordinates(input: &str) -> (res: Option<(String, String, String)>)
    ensures
        match res {
            Some((n, ns, v)) => dep_path_spec(input@) == Some((n@, ns@, v@)),
            None => dep_path_spec(input@) is None,
        },
{
    proof {
        reveal_strlit(":");
    }
    let parts = split(input, ":");
    if parts.len() == 3 {
        Some((parts[1].clone(), parts[0].clone(), parts[2].clone()))
    } else {
        None
    }
}

} // verus!
