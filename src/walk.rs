//! Depth tracking for walks, which keeps a server from following a path
//! deeper than a limit (a mount of the export inside itself would otherwise
//! let a client descend forever).
use vstd::prelude::*;

use crate::srv::same_text;

verus! {

/// The depth reached by walking one path component from `depth`: ".." goes
/// up one level but never above the root, "." stays, any other name goes one
/// level down. `None` when that goes past `max_depth` (no limit when it is
/// `None`) or past the largest `usize`.
pub open spec fn spec_walk_depth(depth: usize, name: Seq<char>, max_depth: Option<usize>) -> Option<usize> {
    if name == ".."@ {
        Some(if depth == 0 {
            0
        } else {
            (depth - 1) as usize
        })
    } else if name == "."@ {
        Some(depth)
    } else if depth == usize::MAX {
        None
    } else {
        match max_depth {
            Some(m) => if depth + 1 > m {
                None
            } else {
                Some((depth + 1) as usize)
            },
            None => Some((depth + 1) as usize),
        }
    }
}

/// The depth reached by walking one path component from `depth`.
pub fn walk_depth(depth: usize, name: &str, max_depth: Option<usize>) -> (r: Option<usize>)
    ensures
        r == spec_walk_depth(depth, name@, max_depth),
{
    if same_text(name, "..") {
        Some(depth.saturating_sub(1))
    } else if same_text(name, ".") {
        Some(depth)
    } else if depth == usize::MAX {
        None
    } else {
        match max_depth {
            Some(m) => if depth + 1 > m {
                None
            } else {
                Some(depth + 1)
            },
            None => Some(depth + 1),
        }
    }
}

} // verus!
