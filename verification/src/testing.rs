use vstd::prelude::*;

verus! {

/// The exit status that the kernel's test harness reports to QEMU.
#[derive(Clone, Copy, Debug, PartialEq, Eq, Structural)]
pub enum QemuExitCode {
    Success,
    Failed,
}

impl QemuExitCode {
    /// The value written to QEMU's exit port for this status.
    pub fn code(self) -> (c: u32)
        ensures
            c == match self {
                QemuExitCode::Success => 0x10u32,
                QemuExitCode::Failed => 0x11u32,
            },
    {
        match self {
            QemuExitCode::Success => 0x10,
            QemuExitCode::Failed => 0x11,
        }
    }
}

/// Something that the kernel's test harness can run.
pub trait Testable {
    /// What holds once the test has run and come back: it passed (a failing test panics).
    spec fn passed(&self) -> bool;

    fn run(&self)
        ensures
            self.passed(),
    ;
}

/// Runs every test in order; a test that fails panics and never comes back, so once they
/// have all run, and every one has passed, the harness reports success.
pub fn test_runner(tests: &[&dyn Testable]) -> (code: QemuExitCode)
    ensures
        forall|i: int| 0 <= i < tests@.len() ==> #[trigger] tests@[i].passed(),
        code == QemuExitCode::Success,
{
    let mut i: usize = 0;
    while i < tests.len()
        invariant
            i <= tests.len(),
            forall|j: int| 0 <= j < i ==> #[trigger] tests@[j].passed(),
        decreases tests.len() - i,
    {
        tests[i].run();
        i = i + 1;
    }
    QemuExitCode::Success
}

/// The harness's own sanity check: one equals one.
pub fn trivial_assertion() {
    let one: u32 = 1;
    assert(one == 1);
}

} // verus!
