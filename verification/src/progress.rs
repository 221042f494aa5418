//! Counting the files of a batch as they are processed.

use vstd::prelude::*;

verus! {

/// The progress of a batch of files.
#[derive(Clone, Debug)]
pub struct ProgressManager {
    total_files: usize,
    completed_files: usize,
    failed_files: usize,
    file_index: usize,
    total_files_count: usize,
}

/// The counts of a batch.
pub struct ProgressView {
    /// Files in the batch.
    pub total: nat,
    /// Files encoded successfully.
    pub completed: nat,
    /// Files that failed.
    pub failed: nat,
    /// Position (from 1) of the file being processed, 0 before the first.
    pub index: nat,
    /// Files in the batch, as counted when the batch began.
    pub total_count: nat,
}

impl View for ProgressManager {
    type V = ProgressView;

    closed spec fn view(&self) -> ProgressView {
        ProgressView {
            total: self.total_files as nat,
            completed: self.completed_files as nat,
            failed: self.failed_files as nat,
            index: self.file_index as nat,
            total_count: self.total_files_count as nat,
        }
    }
}

impl ProgressManager {
    /// A batch of `total_files` files, none processed yet.
    pub fn new(total_files: usize) -> (p: Self)
        ensures
            p@ == (ProgressView {
                total: total_files as nat,
                completed: 0,
                failed: 0,
                index: 0,
                total_count: total_files as nat,
            }),
    {
        ProgressManager {
            total_files,
            completed_files: 0,
            failed_files: 0,
            file_index: 0,
            total_files_count: total_files,
        }
    }

    /// Starts on file `index` (counted from 1).
    pub fn start_file(&mut self, index: usize)
        ensures
            final(self)@ == (ProgressView { index: index as nat, ..old(self)@ }),
    {
        self.file_index = index;
    }

    /// Counts one more file encoded successfully.
    pub fn file_completed(&mut self)
        requires
            old(self)@.completed < usize::MAX,
        ensures
            final(self)@ == (ProgressView { completed: old(self)@.completed + 1, ..old(self)@ }),
    {
        self.completed_files = self.completed_files + 1;
    }

    /// Counts one more file that failed.
    pub fn file_failed(&mut self)
        requires
            old(self)@.failed < usize::MAX,
        ensures
            final(self)@ == (ProgressView { failed: old(self)@.failed + 1, ..old(self)@ }),
    {
        self.failed_files = self.failed_files + 1;
    }

    /// Files in the batch.
    pub fn total(&self) -> (n: usize)
        ensures
            n == self@.total,
    {
        self.total_files
    }

    /// Files encoded successfully.
    pub fn completed(&self) -> (n: usize)
        ensures
            n == self@.completed,
    {
        self.completed_files
    }

    /// Files that failed.
    pub fn failed(&self) -> (n: usize)
        ensures
            n == self@.failed,
    {
        self.failed_files
    }
}

} // verus!
