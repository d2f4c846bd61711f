use vstd::prelude::*;

verus! {

/// A system call that a user program made through interrupt `0x80`.
#[derive(Clone, Copy, Debug, PartialEq, Eq, Structural)]
pub enum Syscall {
    /// Number 0: the program ends with this exit code.
    Exit(u64),
    /// Number 1: print `len` bytes starting at user address `ptr`.
    Write { ptr: u64, len: u64 },
    /// Any other number.
    Unknown,
}

/// The system call with number `num` and arguments `arg1`, `arg2`.
pub fn decode_syscall(num: u64, arg1: u64, arg2: u64) -> (call: Syscall)
    ensures
        num == 0 ==> call == Syscall::Exit(arg1),
        num == 1 ==> call == (Syscall::Write { ptr: arg1, len: arg2 }),
        num > 1 ==> call == Syscall::Unknown,
{
    if num == 0 {
        Syscall::Exit(arg1)
    } else if num == 1 {
        Syscall::Write { ptr: arg1, len: arg2 }
    } else {
        Syscall::Unknown
    }
}

/// The value that a system call hands back to the program: `None` for `Exit`, which does not
/// return; the number of bytes for `Write`; `u64::MAX` for an unknown call.
pub fn syscall_result(call: Syscall) -> (ret: Option<u64>)
    ensures
        ret == match call {
            Syscall::Exit(_) => None,
            Syscall::Write { len, .. } => Some(len),
            Syscall::Unknown => Some(u64::MAX),
        },
{
    match call {
        Syscall::Exit(_) => None,
        Syscall::Write { len, .. } => Some(len),
        Syscall::Unknown => Some(u64::MAX),
    }
}

/// The characters that `write` prints for `bytes`: each byte as the character with that
/// code point.
pub fn write_text(bytes: &[u8]) -> (text: Vec<char>)
    ensures
        text@.len() == bytes@.len(),
        forall|i: int| 0 <= i < bytes@.len() ==> text@[i] == bytes@[i] as char,
{
    let mut text: Vec<char> = Vec::new();
    let mut i: usize = 0;
    while i < bytes.len()
        invariant
            i <= bytes@.len(),
            text@.len() == i,
            forall|j: int| 0 <= j < i ==> text@[j] == bytes@[j] as char,
        decreases bytes.len() - i,
    {
        text.push(bytes[i] as char);
        i = i + 1;
    }
    text
}

} // verus!
