//! Accumulated process exit status.

use vstd::prelude::*;

verus! {

/// The exit status a run has earned so far.
///
/// It starts out successful and becomes a failure as soon as one error is
/// reported; nothing turns a failure back into a success.
pub struct ExitCode {
    value: i32,
    closed: bool,
}

impl ExitCode {
    /// The status code the process would exit with now.
    pub closed spec fn code(&self) -> int {
        self.value as int
    }

    /// Whether the status has been consumed by one of the exit decisions.
    pub closed spec fn is_closed(&self) -> bool {
        self.closed
    }

    /// A fresh, successful, open status.
    pub fn new() -> (r: ExitCode)
        ensures
            r.code() == 0,
            !r.is_closed(),
    {
        ExitCode { value: 0, closed: false }
    }

    /// Records that something failed.
    pub fn report_error(&mut self)
        ensures
            final(self).code() == 1,
            final(self).is_closed() == old(self).is_closed(),
    {
        self.value = 1;
    }

    /// Records an error that was put into words for the user.
    pub fn error<D: core::fmt::Display>(&mut self, v: D)
        ensures
            final(self).code() == 1,
            final(self).is_closed() == old(self).is_closed(),
    {
        let _ = v;
        self.value = 1;
    }

    /// Ends the run on an error that nothing can follow: the status is
    /// consumed, and the process is to exit with the status returned,
    /// which is 1.
    pub fn fatal_error<D: core::fmt::Display>(&mut self, v: D) -> (status: i32)
        ensures
            status == 1,
            final(self).is_closed(),
            final(self).code() == old(self).code(),
    {
        let _ = v;
        self.closed = true;
        1
    }

    /// As [`ExitCode::fatal_error`], for an error that is told together
    /// with where it arose.
    pub fn fatal_context<A: core::fmt::Display, B: core::fmt::Display>(&mut self, a: A, v: B) -> (status: i32)
        ensures
            status == 1,
            final(self).is_closed(),
            final(self).code() == old(self).code(),
    {
        let _ = a;
        let _ = v;
        self.closed = true;
        1
    }

    /// Ends the run: the process is to exit with the status returned.
    pub fn exit(self) -> (status: i32)
        ensures
            status == self.code(),
    {
        self.value
    }

    /// The threshold after a phase that collects errors: `None` where nothing
    /// failed and the run goes on, else the status that the process is to
    /// exit with.
    pub fn exit_if_failed(self) -> (status: Option<i32>)
        ensures
            status == if self.code() == 0 {
                None
            } else {
                Some(self.code() as i32)
            },
    {
        if self.value == 0 {
            None
        } else {
            Some(self.value)
        }
    }

    /// True while no error has been reported.
    pub fn is_ok(&self) -> (r: bool)
        ensures
            r == (self.code() == 0),
    {
        self.value == 0
    }
}

} // verus!
