//! Policies for removing one outer Markdown code fence.

use vstd::prelude::*;

verus! {

/// Controls whether an opening Markdown fence needs a matching closing fence.
#[non_exhaustive]
#[derive(Debug, Clone, Copy, PartialEq, Eq, Hash, Structural)]
pub enum MarkdownFenceClosing {
    /// The fence is removed only when a valid closing fence is present.
    Required,
    /// The opening fence is removed even when no closing fence is present.
    Optional,
}

/// Controls whether and how one outer Markdown code fence is removed.
#[non_exhaustive]
#[derive(Debug, Clone, Copy, PartialEq, Eq, Hash, Structural)]
pub enum MarkdownFencePolicy {
    /// Leaves Markdown code fences unchanged.
    Disabled,
    /// Strips a fence with any info-string language tag.
    Any {
        /// Controls whether the opening fence needs a matching closing fence.
        closing: MarkdownFenceClosing,
    },
    /// Strips only fences with an empty, `json`, or `jsonc` first info token.
    JsonOnly {
        /// Controls whether the opening fence needs a matching closing fence.
        closing: MarkdownFenceClosing,
    },
}

} // verus!
