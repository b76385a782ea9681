//! A report as this library takes it, and the costs that it gives.

use vstd::prelude::*;
use crate::costs::Costs;

verus! {

/// A report: its lines, in order, under the label by which errors name it.
#[derive(Debug)]
pub struct CallgrindOutput {
    pub label: String,
    pub lines: Vec<String>,
}

impl CallgrindOutput {
    /// A report of the given lines.
    pub fn new(label: &str, lines: Vec<String>) -> (r: CallgrindOutput)
        ensures
            r.label@ == label@,
            r.lines == lines,
    {
        CallgrindOutput { label: String::from_str(label), lines }
    }
}

/// The costs of one function, as read from a report.
#[derive(Debug)]
pub struct CallgrindStats(pub Costs);

} // verus!
