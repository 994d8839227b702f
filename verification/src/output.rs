//! Captured output of one execution: the full text drained from a process's
//! output and error streams.

use vstd::prelude::*;

verus! {

/// The text captured from one finished execution: everything the process
/// wrote to its output stream and to its error stream.
#[derive(Debug)]
pub struct Output {
    pub stdout: String,
    pub stderr: String,
}

impl Output {
    /// Packages the two drained stream texts as one captured output.
    pub fn from_process_output(out: &str, err: &str) -> (r: Self)
        ensures
            r.stdout@ == out@,
            r.stderr@ == err@,
    {
        Output { stdout: out.to_owned(), stderr: err.to_owned() }
    }
}

impl Clone for Output {
    fn clone(&self) -> (r: Self)
        ensures
            r == *self,
    {
        let r = Output { stdout: self.stdout.clone(), stderr: self.stderr.clone() };
        r
    }
}

} // verus!
