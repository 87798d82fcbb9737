//! The skip-if-larger policy shared by every codec adapter.
//!
//! A codec proposes a replacement of `proposal` bytes for a file that
//! currently holds `current` bytes. The proposal is taken only when it is
//! non-empty and strictly smaller; otherwise the file is left as it is and
//! zero savings are reported. This is the policy that keeps any optimization
//! pass from ever growing a file.

use vstd::prelude::*;

verus! {

/// Bytes reclaimed when a file of `original` bytes is reduced to `new_size`
/// bytes: the difference if the file shrank, zero otherwise.
pub open spec fn savings_spec(original: u64, new_size: u64) -> u64 {
    if new_size < original {
        (original - new_size) as u64
    } else {
        0
    }
}

/// Whether a proposed re-encoding of `proposal` bytes may replace a file of
/// `current` bytes: only a non-empty, strictly smaller result is written.
pub open spec fn overwrite_allowed(proposal: u64, current: u64) -> bool {
    0 < proposal < current
}

/// Size of the file after one optimization pass offered `proposal` bytes.
pub open spec fn apply_spec(current: u64, proposal: u64) -> u64 {
    if overwrite_allowed(proposal, current) {
        proposal
    } else {
        current
    }
}

/// Savings reported by one optimization pass that offered `proposal` bytes
/// for a file of `current` bytes.
pub open spec fn pass_savings_spec(current: u64, proposal: u64) -> u64 {
    if overwrite_allowed(proposal, current) {
        (current - proposal) as u64
    } else {
        0
    }
}

/// Bytes reclaimed between a size measured before and after an in-place
/// optimization; never more than the size before.
pub fn savings(original: u64, new_size: u64) -> (s: u64)
    ensures
        s == savings_spec(original, new_size),
        s <= original,
{
    if new_size < original {
        original - new_size
    } else {
        0
    }
}

/// Decision of the skip-if-larger policy for an in-memory re-encoding.
pub fn should_overwrite(proposal: u64, current: u64) -> (b: bool)
    ensures
        b == overwrite_allowed(proposal, current),
{
    0 < proposal && proposal < current
}

/// File size after one pass of the skip-if-larger policy. The size never
/// grows, and it shrinks exactly when the proposal is accepted.
pub fn apply_pass(current: u64, proposal: u64) -> (after: u64)
    ensures
        after == apply_spec(current, proposal),
        after <= current,
{
    if 0 < proposal && proposal < current {
        proposal
    } else {
        current
    }
}

/// An optimization pass never grows a file: whatever a codec proposes, the
/// size after the skip-if-larger policy is at most the size before.
pub proof fn lemma_pass_never_grows(current: u64, proposal: u64)
    ensures
        apply_spec(current, proposal) <= current,
{
}

/// A second pass that offers the same proposal as the first reports no
/// savings: one pass of the skip-if-larger policy reaches a fixed point.
pub proof fn lemma_second_pass_no_savings(current: u64, proposal: u64)
    ensures
        pass_savings_spec(apply_spec(current, proposal), proposal) == 0,
        apply_spec(apply_spec(current, proposal), proposal) == apply_spec(current, proposal),
{
}

/// What one codec invocation did to one file.
#[derive(Clone, Copy, PartialEq, Eq, Structural, Debug)]
pub enum CodecOutcome {
    /// The output was replaced in place and these bytes were reclaimed.
    Optimized { bytes_saved: u64 },
    /// The codec ran but the smallest known result was kept unchanged.
    NoImprovement,
    /// The codec failed; the file is left in its prior state.
    Failed,
}

impl CodecOutcome {
    /// Bytes this outcome reclaimed; zero unless it optimized.
    pub open spec fn saved_spec(self) -> u64 {
        match self {
            CodecOutcome::Optimized { bytes_saved } => bytes_saved,
            _ => 0,
        }
    }

    /// Bytes this outcome reclaimed.
    pub fn saved(&self) -> (s: u64)
        ensures
            s == self.saved_spec(),
    {
        match self {
            CodecOutcome::Optimized { bytes_saved } => *bytes_saved,
            _ => 0,
        }
    }
}

/// Outcome of an in-memory re-encoding of a file of `original` bytes:
/// `encoded_len` is the new stream's size, or `None` when the encoder
/// failed. The result pairs the outcome with the file's size afterwards —
/// the stream is written only when the skip-if-larger policy accepts it.
pub fn reencode_outcome(original: u64, encoded_len: Option<u64>) -> (r: (CodecOutcome, u64))
    ensures
        match encoded_len {
            Some(n) => {
                &&& overwrite_allowed(n, original) ==> r == (
                    CodecOutcome::Optimized { bytes_saved: (original - n) as u64 },
                    n,
                )
                &&& !overwrite_allowed(n, original) ==> r == (CodecOutcome::NoImprovement, original)
            },
            None => r == (CodecOutcome::Failed, original),
        },
        r.1 == (if encoded_len is Some {
            apply_spec(original, encoded_len->Some_0)
        } else {
            original
        }),
        r.1 <= original,
        r.0.saved_spec() == original - r.1,
{
    match encoded_len {
        Some(n) => {
            if should_overwrite(n, original) {
                (CodecOutcome::Optimized { bytes_saved: original - n }, n)
            } else {
                (CodecOutcome::NoImprovement, original)
            }
        },
        None => (CodecOutcome::Failed, original),
    }
}

/// Outcome of an in-place pass measured by file size alone, as with the
/// external PNG tools: only a strictly smaller size counts as improvement,
/// whatever the tools' exit status was.
pub fn measured_outcome(size_before: u64, size_after: u64) -> (r: CodecOutcome)
    ensures
        size_after < size_before ==> r == (CodecOutcome::Optimized {
            bytes_saved: (size_before - size_after) as u64,
        }),
        size_after >= size_before ==> r == CodecOutcome::NoImprovement,
        r.saved_spec() == savings_spec(size_before, size_after),
        r.saved_spec() <= size_before,
{
    if size_after < size_before {
        CodecOutcome::Optimized { bytes_saved: size_before - size_after }
    } else {
        CodecOutcome::NoImprovement
    }
}

/// Outcome of derived-format generation: the sibling file is written
/// whenever encoding succeeded, but savings are reported only when the new
/// file is strictly smaller than the original input. `encoded_len` is
/// `None` when encoding or writing failed.
pub fn derived_outcome(original: u64, encoded_len: Option<u64>) -> (r: CodecOutcome)
    ensures
        match encoded_len {
            Some(n) => {
                &&& n < original ==> r == (CodecOutcome::Optimized {
                    bytes_saved: (original - n) as u64,
                })
                &&& n >= original ==> r == CodecOutcome::NoImprovement
            },
            None => r == CodecOutcome::Failed,
        },
        r.saved_spec() <= original,
{
    match encoded_len {
        Some(n) => {
            if n < original {
                CodecOutcome::Optimized { bytes_saved: original - n }
            } else {
                CodecOutcome::NoImprovement
            }
        },
        None => CodecOutcome::Failed,
    }
}

} // verus!
