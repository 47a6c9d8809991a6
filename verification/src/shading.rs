//! The recursion control of the shading evaluator.
//!
//! The color math itself is floating-point work done by the caller; what the
//! evaluator decides — whether a secondary ray may be cast at all — is a
//! function of the current depth, the depth bound, and the material, and is
//! pinned down here. Because the decision demands `depth < max_depth` and
//! every recursive call strictly increases the depth, the recursion always
//! terminates, and a depth bound of 0 disables it entirely.

use vstd::prelude::*;

verus! {

/// Whether the shading evaluator casts a secondary (reflected or refracted)
/// ray: only while the depth bound has not been reached, and only when the
/// material calls for a reflective or refractive contribution.
pub fn should_recurse(depth: u32, max_depth: u32, reflective: bool) -> (go: bool)
    ensures
        go == (reflective && depth < max_depth),
{
    reflective && depth < max_depth
}

/// Each bounce strictly decreases the remaining depth budget, so the chain
/// of secondary rays from any starting depth is finite: once the depth
/// reaches the bound, no further ray is cast.
pub proof fn lemma_recursion_bounded(depth: u32, max_depth: u32, reflective: bool)
    requires
        depth < max_depth,
    ensures
        max_depth - (depth + 1) < max_depth - depth,
        depth + 1 == max_depth ==> !(reflective && depth + 1 < max_depth),
{
}

} // verus!
