//! The test-run scaffolding of the surrounding program: the exit status it
//! signals to its host and the runner that drives a list of tests. The
//! reporting channel and the hardware exit signal live outside the library;
//! the runner only decides the order of the tests and the final status.

use vstd::prelude::*;

verus! {

/// The exit status the program signals to its host when a test run ends.
#[derive(Debug, Clone, Copy, PartialEq, Eq, Structural)]
pub enum QemuExitCode {
    Success,
    Failed,
}

impl QemuExitCode {
    /// The 32-bit code written to the host's exit device for this status.
    pub open spec fn spec_code(self) -> u32 {
        match self {
            QemuExitCode::Success => 0x10,
            QemuExitCode::Failed => 0x11,
        }
    }

    /// The 32-bit code written to the host's exit device.
    pub fn code(self) -> (c: u32)
        ensures
            c == self.spec_code(),
    {
        match self {
            QemuExitCode::Success => 0x10,
            QemuExitCode::Failed => 0x11,
        }
    }
}

/// One runnable test of the harness. An implementor reports its own name and
/// outcome on its own channel; the runner only drives it.
pub trait Testable {
    fn run(&self);
}

/// Runs every test once, in order. A test that fails never returns here (its
/// panic path ends the run elsewhere), so once every test has returned the
/// run as a whole has succeeded.
pub fn test_runner(tests: &[&dyn Testable]) -> (r: QemuExitCode)
    ensures
        r == QemuExitCode::Success,
{
    let mut i: usize = 0;
    while i < tests.len()
        invariant
            i <= tests@.len(),
        decreases tests@.len() - i,
    {
        let test = &tests[i];
        test.run();
        i = i + 1;
    }
    QemuExitCode::Success
}

} // verus!
