//! MIP-04: the initial event kinds.
use vstd::prelude::*;

verus! {

/// Author profile metadata.
pub const PROFILE: u32 = 0;

/// Public post or article.
pub const POST: u32 = 1;

/// Reply to a post or another comment.
pub const COMMENT: u32 = 2;

/// Reaction to an event.
pub const REACTION: u32 = 3;

/// The MIP-04 name of a kind, for the four known kinds.
pub open spec fn kind_name(kind: u32) -> Option<Seq<char>> {
    if kind == PROFILE {
        Some("profile"@)
    } else if kind == POST {
        Some("post"@)
    } else if kind == COMMENT {
        Some("comment"@)
    } else if kind == REACTION {
        Some("reaction"@)
    } else {
        None
    }
}

/// Returns the kind name defined by MIP-04, if the kind is known.
pub fn name(kind: u32) -> (res: Option<&'static str>)
    ensures
        match res {
            Some(s) => kind_name(kind) == Some(s@),
            None => kind_name(kind) is None,
        },
{
    if kind == PROFILE {
        Some("profile")
    } else if kind == POST {
        Some("post")
    } else if kind == COMMENT {
        Some("comment")
    } else if kind == REACTION {
        Some("reaction")
    } else {
        None
    }
}

} // verus!
