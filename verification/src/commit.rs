//! What a commit says about its parents.

use vstd::prelude::*;

use crate::envelope::MAX_CANDIDATE_BYTES;
use crate::oid::{oid_named, GitHashAlgorithm, GitOid};
use crate::refusal::{broken, invalid, NodeWorkspaceRefusal};

verus! {

/// The kinds of stored objects.
#[derive(Clone, Copy, Debug, PartialEq, Eq, Structural)]
pub enum ObjectKind {
    Commit,
    Tree,
    Blob,
    Tag,
}

/// How strictly an object body is parsed.
#[derive(Clone, Copy, Debug, PartialEq, Eq, Structural)]
pub enum AcceptanceProfile {
    /// As for an object that is made new.
    StrictCreate,
    /// As for an object that another implementation may have made.
    GitCompatibleImport,
}

/// The bounds of an object parse.
#[derive(Clone, Copy, Debug, PartialEq, Eq, Structural)]
pub struct ParseLimits {
    pub max_object_bytes: usize,
    pub tree_reference_bytes: usize,
}

/// The same bounds, for objects no larger than a candidate commit may be.
pub open spec fn candidate_limits(limits: ParseLimits) -> ParseLimits {
    ParseLimits {
        max_object_bytes: if limits.max_object_bytes <= MAX_CANDIDATE_BYTES {
            limits.max_object_bytes
        } else {
            MAX_CANDIDATE_BYTES
        },
        tree_reference_bytes: limits.tree_reference_bytes,
    }
}

impl ParseLimits {
    /// Narrows the bounds to what a candidate commit may take.
    pub fn for_candidate(self) -> (limits: ParseLimits)
        ensures
            limits == candidate_limits(self),
    {
        if self.max_object_bytes <= MAX_CANDIDATE_BYTES {
            self
        } else {
            ParseLimits {
                max_object_bytes: MAX_CANDIDATE_BYTES,
                tree_reference_bytes: self.tree_reference_bytes,
            }
        }
    }
}

/// What came out of parsing an object body as a commit.
#[derive(Debug, PartialEq, Eq)]
pub enum ParsedCommit {
    /// The body breaks the profile or its bounds.
    Refused,
    /// The body is some other object.
    NotACommit,
    /// A commit, with the texts of its parent references in order.
    Commit { parents: Vec<Vec<u8>> },
}

/// Whether a commit has `expected_base` as its sole parent, or why not.
pub open spec fn sole_parent(parsed: ParsedCommit, expected_base: GitOid) -> Result<
    (),
    NodeWorkspaceRefusal,
> {
    match parsed {
        ParsedCommit::Refused => Err(broken("candidate is not a bounded strict Git commit")),
        ParsedCommit::NotACommit => Err(broken("candidate must identify a commit")),
        ParsedCommit::Commit { parents } => if parents@.len() == 0 {
            Err(broken("candidate must have exactly one parent"))
        } else if oid_named(expected_base.domain(), parents@[0]@) == Some(expected_base)
            && parents@.len() == 1 {
            Ok(())
        } else {
            Err(broken("candidate must have exactly the expected base as its sole parent"))
        },
    }
}

/// Checks that a candidate is a commit whose only parent is the expected base.
pub fn check_candidate_commit(parsed: &ParsedCommit, expected_base: GitOid) -> (outcome: Result<
    (),
    NodeWorkspaceRefusal,
>)
    ensures
        outcome == sole_parent(*parsed, expected_base),
{
    let parents = match parsed {
        ParsedCommit::Refused => {
            return Err(invalid("candidate is not a bounded strict Git commit"));
        },
        ParsedCommit::NotACommit => return Err(invalid("candidate must identify a commit")),
        ParsedCommit::Commit { parents } => parents,
    };
    if parents.len() == 0 {
        return Err(invalid("candidate must have exactly one parent"));
    }
    let matches_base = match GitOid::from_hex(expected_base.algorithm(), parents[0].as_slice()) {
        Some(parent) => parent == expected_base,
        None => false,
    };
    if !matches_base || parents.len() > 1 {
        return Err(invalid("candidate must have exactly the expected base as its sole parent"));
    }
    Ok(())
}

/// A byte with ASCII uppercase letters made lowercase.
pub open spec fn lowered(byte: u8) -> u8 {
    if 65 <= byte <= 90 {
        (byte + 32) as u8
    } else {
        byte
    }
}

/// A text with its ASCII uppercase letters made lowercase.
pub open spec fn lowercase(text: Seq<u8>) -> Seq<u8> {
    Seq::new(text.len(), |i: int| lowered(text[i]))
}

/// Makes the ASCII uppercase letters of a text lowercase.
fn to_lowercase(text: &[u8]) -> (lower: Vec<u8>)
    ensures
        lower@ == lowercase(text@),
{
    let mut lower: Vec<u8> = Vec::new();
    let mut i: usize = 0;
    while i < text.len()
        invariant
            i <= text@.len(),
            lower@.len() == i,
            forall|j: int| 0 <= j < i ==> lower@[j] == lowered(text@[j]),
        decreases text@.len() - i,
    {
        let byte = text[i];
        lower.push(if 65 <= byte && byte <= 90 { byte + 32 } else { byte });
        i += 1;
    }
    assert(lower@ =~= lowercase(text@));
    lower
}

/// The commit that a member of a linear series continues from.
///
/// Imported commits may spell their parents in uppercase.
pub open spec fn series_parent(parsed: ParsedCommit, format: GitHashAlgorithm) -> Result<
    GitOid,
    NodeWorkspaceRefusal,
> {
    match parsed {
        ParsedCommit::Refused => Err(broken("rebase candidate is not a bounded native commit")),
        ParsedCommit::NotACommit => Err(broken("rebase candidate ancestry must contain commits")),
        ParsedCommit::Commit { parents } => if parents@.len() == 0 {
            Err(broken("rebase series does not reach its onto prerequisite"))
        } else if parents@.len() > 1 {
            Err(broken("rebase publication accepts only a single-parent series"))
        } else {
            match oid_named(format, lowercase(parents@[0]@)) {
                None => Err(broken("invalid rebase parent identity")),
                Some(id) => if id.zero() {
                    Err(broken("invalid rebase parent identity"))
                } else {
                    Ok(id)
                },
            }
        },
    }
}

/// Reads the single parent of a member of a linear series.
pub fn linear_parent(parsed: &ParsedCommit, format: GitHashAlgorithm) -> (parent: Result<
    GitOid,
    NodeWorkspaceRefusal,
>)
    ensures
        parent == series_parent(*parsed, format),
{
    let parents = match parsed {
        ParsedCommit::Refused => {
            return Err(invalid("rebase candidate is not a bounded native commit"));
        },
        ParsedCommit::NotACommit => {
            return Err(invalid("rebase candidate ancestry must contain commits"));
        },
        ParsedCommit::Commit { parents } => parents,
    };
    if parents.len() == 0 {
        return Err(invalid("rebase series does not reach its onto prerequisite"));
    }
    if parents.len() > 1 {
        return Err(invalid("rebase publication accepts only a single-parent series"));
    }
    let text = to_lowercase(parents[0].as_slice());
    match GitOid::from_hex(format, text.as_slice()) {
        Some(id) => {
            if id.is_zero() {
                Err(invalid("invalid rebase parent identity"))
            } else {
                Ok(id)
            }
        },
        None => Err(invalid("invalid rebase parent identity")),
    }
}

} // verus!
