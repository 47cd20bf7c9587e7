//! The decisions of a batch run: which file comes next, when the run stops,
//! and which pane has the focus afterwards.
use vstd::prelude::*;
use crate::editor::Pane;

verus! {

/// A batch run over `total` files: `done` of them were processed, and
/// `failed` tells whether the last one tried failed, which stops the run.
#[derive(Debug, Clone, Copy, PartialEq, Eq, Structural)]
pub struct BatchRun {
    pub total: usize,
    pub done: usize,
    pub failed: bool,
}

impl BatchRun {
    /// Whether the run is consistent: no more files done than there are.
    pub open spec fn well_formed(self) -> bool {
        self.done <= self.total
    }

    /// A run over `total` files, none processed yet.
    pub fn new(total: usize) -> (r: BatchRun)
        ensures
            r == (BatchRun { total, done: 0, failed: false }),
            r.well_formed(),
    {
        BatchRun { total, done: 0, failed: false }
    }

    /// Whether the run has anything to do: with no file, nothing happens and
    /// the focus stays where it is.
    pub fn begins(&self) -> (r: bool)
        ensures
            r == (self.total > 0),
    {
        self.total > 0
    }

    /// The position of the file to process next: the one after those done,
    /// unless a file failed or all are done.
    pub fn next(&self) -> (r: Option<usize>)
        ensures
            r == (if !self.failed && self.done < self.total {
                Some(self.done)
            } else {
                None
            }),
    {
        if !self.failed && self.done < self.total {
            Some(self.done)
        } else {
            None
        }
    }

    /// Records the outcome of the file `next` gave: one more done, or the
    /// run stopped by a failure.
    pub fn record(&mut self, ok: bool)
        requires
            old(self).well_formed(),
            !old(self).failed,
            old(self).done < old(self).total,
        ensures
            final(self).well_formed(),
            *final(self) == (if ok {
                BatchRun { done: (old(self).done + 1) as usize, ..*old(self) }
            } else {
                BatchRun { failed: true, ..*old(self) }
            }),
    {
        if ok {
            self.done = self.done + 1;
        } else {
            self.failed = true;
        }
    }

    /// The pane that has the focus when the run ends: the file list after
    /// every file was processed; the processing pane after a failure.
    pub fn final_pane(&self) -> (p: Pane)
        ensures
            p == (if self.failed {
                Pane::Processing
            } else {
                Pane::FileExplorer
            }),
    {
        if self.failed {
            Pane::Processing
        } else {
            Pane::FileExplorer
        }
    }
}

} // verus!
