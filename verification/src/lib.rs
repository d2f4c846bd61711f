use vstd::prelude::*;

pub mod addr;
pub mod frames;
pub mod paging;
pub mod script;
pub mod shell;
pub mod syscall;
pub mod testing;
pub mod text;
pub mod usermode;

pub use frames::{BootInfoFrameAllocator, EmptyFrameAllocator};
pub use testing::{test_runner, QemuExitCode, Testable};
