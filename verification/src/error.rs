//! The fatal conditions the pipeline can report. Every one ends the
//! analysis of a record set; there is no recovery within a run.

use vstd::prelude::*;
use crate::time::Duration;
use crate::time::Timestamp;

verus! {

/// Why an analysis was refused.
#[derive(Clone, Copy, Debug, PartialEq, Eq, Structural)]
pub enum Error {
    /// The record set holds no record, so no earliest creation time exists.
    EmptyRecordSet,
    /// A record's creation time lies after the reference "now"; the pair of
    /// offending timestamps is carried so a caller can name them.
    TimeInconsistency { created: Timestamp, now: Timestamp },
    /// The observed span is shorter than the smallest supported history.
    UnsupportedSpan { duration: Duration },
}

} // verus!
