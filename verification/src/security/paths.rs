//! Path validation against directory traversal and escaping symbolic links.

use vstd::prelude::*;
use vstd::string::*;

use crate::error::{fails_with, ContainerError, Failure};
use crate::path::{
    absolute, climbs, components, has_parent_component, is_absolute, is_within, parent, parent_of,
    within,
};

verus! {

/// What the host says of a path and of the directory that holds it.
#[derive(Debug)]
pub struct PathFacts {
    /// The absolute path without symbolic links, or the text of the error met
    /// on the way; `None` when the path does not exist.
    pub canonical: Option<Result<String, String>>,
    /// The same for the directory that holds the path.
    pub parent: Option<Result<String, String>>,
}

/// The characters of an optional answer of the host.
pub open spec fn answer_of(
    answer: Option<Result<String, String>>,
) -> Option<Result<Seq<char>, Seq<char>>> {
    match answer {
        None => None,
        Some(Ok(text)) => Some(Ok(text@)),
        Some(Err(text)) => Some(Err(text@)),
    }
}

/// The reason to reject `path`, if there is one. `canonical` and `canonical_parent`
/// say what the host makes of the path and of the directory that holds it, each
/// when it exists.
pub open spec fn path_fault(
    path: Seq<char>,
    description: Seq<char>,
    canonical: Option<Result<Seq<char>, Seq<char>>>,
    canonical_parent: Option<Result<Seq<char>, Seq<char>>>,
) -> Option<Seq<char>> {
    if !absolute(path) {
        Some(description + " path must be absolute, got: "@ + path)
    } else if climbs(path) {
        Some(description + " path contains directory traversal (..): "@ + path)
    } else {
        match (canonical, parent(path), canonical_parent) {
            (Some(Err(error)), _, _) => Some(
                "failed to canonicalize "@ + description + " path "@ + path + ": "@ + error,
            ),
            (Some(Ok(_)), Some(dir), Some(Err(error))) => Some(
                "failed to canonicalize parent of "@ + description + " path "@ + dir + ": "@
                    + error,
            ),
            (Some(Ok(resolved)), Some(_), Some(Ok(resolved_dir))) if !within(resolved, resolved_dir) => Some(
                description + " path "@ + path + " resolves to "@ + resolved
                    + " which escapes its parent directory "@ + resolved_dir,
            ),
            _ => None,
        }
    }
}

/// Validate a path for use inside the runtime: it must be absolute, must not
/// contain `..` components, and, when it exists, must not lead out of the
/// directory that holds it through symbolic links.
///
/// `description` says what the path is for and is part of the error text.
pub fn validate_path(path: &str, description: &str, facts: &PathFacts) -> (r: Result<
    (),
    ContainerError,
>)
    ensures
        fails_with(
            r,
            match path_fault(
                path@,
                description@,
                answer_of(facts.canonical),
                answer_of(facts.parent),
            ) {
                Some(text) => Some(Failure::Security(text)),
                None => None,
            },
        ),
{
    if !is_absolute(path) {
        let mut text = description.to_owned();
        text.append(" path must be absolute, got: ");
        text.append(path);
        return Err(ContainerError::Security(text));
    }
    if has_parent_component(path) {
        let mut text = description.to_owned();
        text.append(" path contains directory traversal (..): ");
        text.append(path);
        return Err(ContainerError::Security(text));
    }
    let canonical = match &facts.canonical {
        None => return Ok(()),
        Some(Err(error)) => {
            let mut text = "failed to canonicalize ".to_owned();
            text.append(description);
            text.append(" path ");
            text.append(path);
            text.append(": ");
            text.append(error.as_str());
            return Err(ContainerError::Security(text));
        },
        Some(Ok(resolved)) => resolved,
    };
    let dir = match parent_of(path) {
        None => return Ok(()),
        Some(dir) => dir,
    };
    match &facts.parent {
        None => Ok(()),
        Some(Err(error)) => {
            let mut text = "failed to canonicalize parent of ".to_owned();
            text.append(description);
            text.append(" path ");
            text.append(dir.as_str());
            text.append(": ");
            text.append(error.as_str());
            Err(ContainerError::Security(text))
        },
        Some(Ok(resolved_dir)) => {
            if is_within(canonical.as_str(), resolved_dir.as_str()) {
                return Ok(());
            }
            let mut text = description.to_owned();
            text.append(" path ");
            text.append(path);
            text.append(" resolves to ");
            text.append(canonical.as_str());
            text.append(" which escapes its parent directory ");
            text.append(resolved_dir.as_str());
            Err(ContainerError::Security(text))
        },
    }
}

/// A path that is accepted although it exists is absolute, has no `..`
/// component, and leads to a place inside the directory that holds it.
pub proof fn accepted_path_stays_in_its_directory(
    path: Seq<char>,
    description: Seq<char>,
    resolved: Seq<char>,
    resolved_dir: Seq<char>,
)
    requires
        path_fault(path, description, Some(Ok(resolved)), Some(Ok(resolved_dir))) is None,
    ensures
        absolute(path),
        !climbs(path),
        parent(path) is Some ==> within(resolved, resolved_dir),
{
}

/// A path is accepted exactly when it starts at the root, does not climb, and, if it and
/// its directory exist, can be resolved to a place inside the resolved directory.
pub proof fn only_safe_paths_are_accepted(
    path: Seq<char>,
    description: Seq<char>,
    canonical: Option<Result<Seq<char>, Seq<char>>>,
    canonical_parent: Option<Result<Seq<char>, Seq<char>>>,
)
    ensures
        (path_fault(path, description, canonical, canonical_parent) is None) == {
            &&& path.len() > 0 && path[0] == '/'
            &&& !components(path).contains(seq!['.', '.'])
            &&& canonical matches Some(answer) ==> {
                &&& answer is Ok
                &&& parent(path) is Some && canonical_parent is Some ==> {
                    &&& canonical_parent->Some_0 is Ok
                    &&& components(canonical_parent->Some_0->Ok_0).is_prefix_of(
                        components(answer->Ok_0),
                    )
                }
            }
        },
{
}

} // verus!
