use vstd::prelude::*;

use crate::structs::{HashFormat, IndexFile};
use crate::verify::{hash_accepted, verify_hash, HashMismatch};

verus! {

/// How many fetch or copy operations may be in flight at once.
pub const MAXIMUM_CONCURRENT_OPERATIONS: usize = 8;

/// The format a file's digest is checked under: its own, else the default of
/// the index it came from.
pub open spec fn effective_format(entry: IndexFile, index_default: HashFormat) -> HashFormat {
    match entry.hash_format {
        Some(f) => f,
        None => index_default,
    }
}

/// Where the content of one merged entry comes from.
#[derive(Debug)]
pub enum Fetch {
    /// Copied as it is from the child pack's directory, with no digest check.
    Local { path: String },
    /// Downloaded next to the parent pack, then checked against `hash`.
    Remote { file: String, hash: String, format: HashFormat },
}

/// Decides how to obtain `entry`: a file present in the child pack's
/// directory is taken as it is; any other is downloaded and checked under its
/// own format or the parent index's default.
pub fn plan_fetch(entry: &IndexFile, present_locally: bool, parent_default: HashFormat) -> (r: Fetch)
    ensures
        present_locally ==> r == (Fetch::Local { path: entry.file }),
        !present_locally ==> r == (Fetch::Remote {
            file: entry.file,
            hash: entry.hash,
            format: effective_format(*entry, parent_default),
        }),
{
    if present_locally {
        Fetch::Local { path: entry.file.clone() }
    } else {
        let format = match entry.hash_format {
            Some(f) => f,
            None => parent_default,
        };
        Fetch::Remote { file: entry.file.clone(), hash: entry.hash.clone(), format }
    }
}

/// Hands downloaded `bytes` on only when their digest under `format` is the
/// declared `hash`.
pub fn check_download(bytes: Vec<u8>, hash: &str, format: HashFormat) -> (r: Result<Vec<u8>, HashMismatch>)
    ensures
        r is Ok <==> hash_accepted(bytes@, hash@, format),
        r matches Ok(b) ==> b@ == bytes@,
        r matches Err(m) ==> m.expected@ == hash@ && m.format == format,
{
    match verify_hash(bytes.as_slice(), hash, format) {
        Ok(()) => Ok(bytes),
        Err(m) => Err(m),
    }
}

/// What the driver of a materialization does next.
#[derive(Clone, Copy, Debug, PartialEq, Eq, Structural)]
pub enum Step {
    /// Start the operation on the entry with this position.
    Start(usize),
    /// Wait for an operation in flight to complete.
    Wait,
    /// Every operation succeeded.
    Finished,
    /// An operation failed: give up, leaving those in flight unheeded.
    Abort,
}

/// The bookkeeping of a materialization of `total` entries, at most
/// `MAXIMUM_CONCURRENT_OPERATIONS` at a time, that stops at the first failure.
pub struct Materializer {
    pub total: usize,
    /// Entries before this position have been started.
    pub next: usize,
    pub in_flight: usize,
    pub failed: bool,
}

impl Materializer {
    pub open spec fn wf(&self) -> bool {
        &&& self.next <= self.total
        &&& self.in_flight <= self.next
        &&& self.in_flight <= MAXIMUM_CONCURRENT_OPERATIONS
    }

    pub fn new(total: usize) -> (r: Materializer)
        ensures
            r.wf(),
            r.total == total,
            r.next == 0,
            r.in_flight == 0,
            !r.failed,
    {
        Materializer { total, next: 0, in_flight: 0, failed: false }
    }

    /// The next thing to do. Entries are started in order, each once, while
    /// fewer than the maximum are in flight and nothing has failed.
    pub fn step(&mut self) -> (r: Step)
        requires
            old(self).wf(),
        ensures
            final(self).wf(),
            final(self).total == old(self).total,
            final(self).failed == old(self).failed,
            old(self).failed ==> r == Step::Abort && *final(self) == *old(self),
            !old(self).failed && old(self).next < old(self).total && old(self).in_flight
                < MAXIMUM_CONCURRENT_OPERATIONS ==> r == Step::Start(old(self).next) && final(self).next
                == old(self).next + 1 && final(self).in_flight == old(self).in_flight + 1,
            !old(self).failed && (old(self).next == old(self).total || old(self).in_flight
                == MAXIMUM_CONCURRENT_OPERATIONS) && old(self).in_flight > 0 ==> r == Step::Wait
                && *final(self) == *old(self),
            !old(self).failed && old(self).next == old(self).total && old(self).in_flight == 0
                ==> r == Step::Finished && *final(self) == *old(self),
    {
        if self.failed {
            Step::Abort
        } else if self.next < self.total && self.in_flight < MAXIMUM_CONCURRENT_OPERATIONS {
            let i = self.next;
            self.next = self.next + 1;
            self.in_flight = self.in_flight + 1;
            Step::Start(i)
        } else if self.in_flight > 0 {
            Step::Wait
        } else {
            Step::Finished
        }
    }

    /// Records that an operation in flight completed, successfully or not.
    pub fn complete(&mut self, succeeded: bool)
        requires
            old(self).wf(),
            old(self).in_flight > 0,
        ensures
            final(self).wf(),
            final(self).total == old(self).total,
            final(self).next == old(self).next,
            final(self).in_flight == old(self).in_flight - 1,
            final(self).failed == (old(self).failed || !succeeded),
    {
        self.in_flight = self.in_flight - 1;
        if !succeeded {
            self.failed = true;
        }
    }
}

} // verus!
