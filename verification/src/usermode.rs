use vstd::prelude::*;
use crate::addr::{align_down_4k, canonical, page_containing, virt_add};

verus! {

/// Where user programs are loaded: the page that holds this address.
pub const USER_CODE_ADDR: u64 = 0x6666_6666_0000;

/// Where user programs get their stack: the page that holds this address.
pub const USER_STACK_ADDR: u64 = 0x5555_5555_0000;

/// The most bytes that a user program may have: it is loaded into a single page.
pub const MAX_PAYLOAD_LEN: usize = 4096;

/// RFLAGS for a user program: only the interrupt flag is set.
pub const USER_RFLAGS: u64 = 0x200;

/// The five values that `iretq` pops to enter ring 3, in the order they are pushed.
#[derive(Clone, Copy, Debug, PartialEq, Eq, Structural)]
pub struct IretFrame {
    pub ss: u64,
    pub rsp: u64,
    pub rflags: u64,
    pub cs: u64,
    pub rip: u64,
}

/// The frame that enters ring 3 at `entry_point` with stack pointer `user_stack`: the user
/// code and data selectors with requested privilege level 3, and interrupts enabled.
pub fn user_iret_frame(code_selector: u16, data_selector: u16, entry_point: u64, user_stack: u64) -> (f: IretFrame)
    ensures
        f.cs == (code_selector as u64 | 3),
        f.ss == (data_selector as u64 | 3),
        f.rflags == USER_RFLAGS,
        f.rsp == user_stack,
        f.rip == entry_point,
{
    let cs: u64 = (code_selector as u64) | 3;
    let ss: u64 = (data_selector as u64) | 3;
    IretFrame { ss, rsp: user_stack, rflags: USER_RFLAGS, cs, rip: entry_point }
}

/// The selectors that the frame loads ask for privilege level 3 and keep the descriptor
/// index and table of the selectors they came from.
pub proof fn law_iret_frame_is_ring3(code_selector: u16, data_selector: u16)
    ensures
        (code_selector as u64 | 3) & 3 == 3,
        (data_selector as u64 | 3) & 3 == 3,
        (code_selector as u64 | 3) >> 2 == (code_selector as u64) >> 2,
        (data_selector as u64 | 3) >> 2 == (data_selector as u64) >> 2,
        (code_selector as u64 | 3) < 0x10000,
        (data_selector as u64 | 3) < 0x10000,
{
    let c = code_selector as u64;
    let d = data_selector as u64;
    assert((c | 3) & 3 == 3 && (c | 3) >> 2 == c >> 2) by (bit_vector);
    assert((d | 3) & 3 == 3 && (d | 3) >> 2 == d >> 2) by (bit_vector);
    assert(c < 0x10000 ==> (c | 3) < 0x10000) by (bit_vector);
    assert(d < 0x10000 ==> (d | 3) < 0x10000) by (bit_vector);
}

/// Where a user program goes: the page it is loaded into, the page of its stack, where it
/// starts and where its stack starts (the stack grows down from the top of its page).
#[derive(Clone, Copy, Debug, PartialEq, Eq, Structural)]
pub struct ProgramLayout {
    pub code_page: u64,
    pub stack_page: u64,
    pub entry_point: u64,
    pub stack_top: u64,
}

/// The layout of every user program.
pub fn user_program_layout() -> (l: ProgramLayout)
    ensures
        l.code_page == align_down_4k(USER_CODE_ADDR as int),
        l.stack_page == align_down_4k(USER_STACK_ADDR as int),
        l.entry_point == l.code_page,
        l.stack_top == l.stack_page + 4096,
{
    let code_page = page_containing(USER_CODE_ADDR);
    let stack_page = page_containing(USER_STACK_ADDR);
    let stack_top = virt_add(stack_page, 4096);
    ProgramLayout { code_page, stack_page, entry_point: code_page, stack_top }
}

/// Whether a program of `len` bytes fits the single page it is loaded into.
pub fn payload_fits_page(len: usize) -> (fits: bool)
    ensures
        fits == (len <= MAX_PAYLOAD_LEN),
{
    len <= MAX_PAYLOAD_LEN
}

/// The program's page and its stack's page are distinct pages, both start on a page
/// boundary, and the stack top is the end of the stack's page.
pub proof fn law_program_layout(l: ProgramLayout)
    requires
        l.code_page == align_down_4k(USER_CODE_ADDR as int),
        l.stack_page == align_down_4k(USER_STACK_ADDR as int),
        l.entry_point == l.code_page,
        l.stack_top == l.stack_page + 4096,
    ensures
        l.code_page % 4096 == 0,
        l.stack_page % 4096 == 0,
        l.code_page != l.stack_page,
        l.stack_page < l.stack_top <= l.code_page || l.code_page + 4096 <= l.stack_page,
        canonical(l.stack_top as int),
{
}

} // verus!
