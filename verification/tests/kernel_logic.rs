use std::cell::Cell;

use palladium::addr::{
    frame_containing, p1_index, p2_index, p3_index, p4_index, page_containing, page_offset,
    phys_add, virt_add,
};
use palladium::frames::{memory_map_is_valid, nth_usable_frame, MemoryRegion, MemoryRegionType};
use palladium::paging::{translated_address, user_accessible_flags, FrameLookup, PageWalk, WalkAction, USER_ACCESSIBLE};
use palladium::script::{script_lines, ScriptRun, ScriptStep};
use palladium::shell::{
    action_outcome, cd_new_cwd, command_kind, listing_lines, parent_dir, plan_command, CdTarget, Command,
    LsTarget, ShellAction,
};
use palladium::syscall::{decode_syscall, syscall_result, write_text, Syscall};
use palladium::testing::trivial_assertion;
use palladium::usermode::{payload_fits_page, user_iret_frame, user_program_layout, USER_RFLAGS};
use palladium::{test_runner, BootInfoFrameAllocator, EmptyFrameAllocator, QemuExitCode, Testable};

struct Counted<'a>(&'a Cell<u32>);

impl<'a> Testable for Counted<'a> {
    fn passed(&self) -> bool {
        self.0.get() > 0
    }

    fn run(&self) {
        self.0.set(self.0.get() + 1);
    }
}

#[test]
fn runner_runs_every_test_and_reports_success() {
    let count = Cell::new(0);
    let a = Counted(&count);
    let b = Counted(&count);
    let tests: [&dyn Testable; 2] = [&a, &b];
    assert!(!a.passed());
    assert_eq!(test_runner(&tests), QemuExitCode::Success);
    assert_eq!(count.get(), 2);
    assert!(a.passed() && b.passed());
    assert_eq!(test_runner(&[]), QemuExitCode::Success);
}

#[test]
fn exit_codes_match_qemu_port_values() {
    assert_eq!(QemuExitCode::Success.code(), 0x10);
    assert_eq!(QemuExitCode::Failed.code(), 0x11);
}

#[test]
fn trivial_assertion_holds() {
    trivial_assertion();
}

#[test]
fn command_lines_are_trimmed_and_split_at_the_first_space() {
    assert!(matches!(plan_command("  echo hello  world \t"), ShellAction::Echo(ref s) if s == "hello  world"));
    assert!(matches!(plan_command("echo   spaced"), ShellAction::Echo(ref s) if s == "  spaced"));
    assert!(matches!(plan_command("\u{a0}pwd\r\n"), ShellAction::Pwd));
    assert!(matches!(plan_command(""), ShellAction::Blank));
    assert!(matches!(plan_command(" \t\r\n\u{a0}\u{3000}"), ShellAction::Blank));
    assert!(matches!(plan_command("pwd\u{1c}"), ShellAction::Unknown(ref s) if s == "pwd\u{1c}"));
}

#[test]
fn command_words_name_commands() {
    assert_eq!(command_kind("help"), Command::Help);
    assert_eq!(command_kind("mkdir"), Command::Mkdir);
    assert_eq!(command_kind("run"), Command::Run);
    assert_eq!(command_kind("MKDIR"), Command::Unknown);
    assert_eq!(command_kind("panic"), Command::Panic);
    assert_eq!(command_kind(""), Command::Unknown);
}

#[test]
fn plans_for_command_lines() {
    assert!(matches!(plan_command("   "), ShellAction::Blank));
    assert!(matches!(plan_command("help"), ShellAction::Help));
    assert!(matches!(plan_command(" clear "), ShellAction::Clear));
    assert!(matches!(plan_command("about"), ShellAction::About));
    assert!(matches!(plan_command("reboot"), ShellAction::Reboot));
    assert!(matches!(plan_command("pwd"), ShellAction::Pwd));
    assert!(matches!(plan_command("echo  two  spaces"), ShellAction::Echo(ref s) if s == " two  spaces"));
    assert!(matches!(plan_command("echo"), ShellAction::Echo(ref s) if s.is_empty()));
    assert!(matches!(plan_command("ls"), ShellAction::Ls(LsTarget::Current)));
    assert!(matches!(plan_command("ls /bin"), ShellAction::Ls(LsTarget::Path(ref s)) if s == "/bin"));
    assert!(matches!(plan_command("cat"), ShellAction::Usage(Command::Cat)));
    assert!(matches!(plan_command("cat notes.txt"), ShellAction::Cat(ref s) if s == "notes.txt"));
    assert!(matches!(plan_command("edit"), ShellAction::Usage(Command::Edit)));
    assert!(matches!(plan_command("edit a"), ShellAction::Edit(ref s) if s == "a"));
    assert!(matches!(plan_command("mkdir"), ShellAction::Usage(Command::Mkdir)));
    assert!(matches!(plan_command("mkdir d"), ShellAction::Mkdir(ref s) if s == "d"));
    assert!(matches!(plan_command("rm"), ShellAction::Usage(Command::Rm)));
    assert!(matches!(plan_command("rm f"), ShellAction::Rm(ref s) if s == "f"));
    assert!(matches!(plan_command("run"), ShellAction::Usage(Command::Run)));
    assert!(matches!(plan_command("run s.sh"), ShellAction::Run(ref s) if s == "s.sh"));
    assert!(matches!(plan_command("cd"), ShellAction::Cd(CdTarget::Root)));
    assert!(matches!(plan_command("cd .."), ShellAction::Cd(CdTarget::Parent)));
    assert!(matches!(plan_command("cd ..."), ShellAction::Cd(CdTarget::Path(ref s)) if s == "..."));
    assert!(matches!(plan_command("cd /a/b"), ShellAction::Cd(CdTarget::Path(ref s)) if s == "/a/b"));
    assert!(matches!(plan_command("panic"), ShellAction::Panic));
    assert!(matches!(plan_command("  panic now"), ShellAction::Panic));
    assert!(matches!(plan_command("frobnicate now"), ShellAction::Unknown(ref s) if s == "frobnicate"));
}

#[test]
fn parent_directories() {
    assert_eq!(parent_dir("/"), "/");
    assert_eq!(parent_dir("/home/user"), "/home");
    assert_eq!(parent_dir("/home"), "/");
    assert_eq!(parent_dir("docs"), "/");
    assert_eq!(parent_dir("a/b"), "a");
    assert_eq!(parent_dir("/a/"), "/a");
    assert_eq!(parent_dir(""), "/");
}

#[test]
fn cd_up_reaches_the_root() {
    let mut cwd = String::from("/usr/local/share");
    let mut steps = 0;
    while cwd != "/" {
        let up = parent_dir(&cwd);
        assert!(up.len() < cwd.len());
        assert!(up == "/" || cwd.starts_with(&up));
        cwd = up;
        steps += 1;
    }
    assert_eq!(steps, 3);
}

#[test]
fn script_lines_skip_blanks_and_comments() {
    let lines = script_lines("echo a\r\n\n  # note\n  ls  \nbad\r");
    let got: Vec<(usize, &str)> = lines.iter().map(|l| (l.number, l.text.as_str())).collect();
    assert_eq!(got, vec![(1, "echo a"), (4, "ls"), (5, "bad")]);
    assert!(script_lines("").is_empty());
    assert!(script_lines("\n\n#x\n").is_empty());
    let lines = script_lines("pwd\n");
    assert_eq!(lines.len(), 1);
    assert_eq!(lines[0].number, 1);
    assert_eq!(lines[0].text, "pwd");
}

#[test]
fn script_run_stops_at_the_failing_line() {
    let mut run = ScriptRun::new("help\n\n# c\nbogus\npwd\n");
    assert!(matches!(run.step(true), ScriptStep::Execute(ref t) if t == "help"));
    assert!(matches!(run.step(true), ScriptStep::Execute(ref t) if t == "bogus"));
    assert!(matches!(run.step(false), ScriptStep::Stopped(4)));
    let mut run = ScriptRun::new("help\npwd");
    assert!(matches!(run.step(true), ScriptStep::Execute(ref t) if t == "help"));
    assert!(matches!(run.step(true), ScriptStep::Execute(ref t) if t == "pwd"));
    assert!(matches!(run.step(true), ScriptStep::Completed));
    let mut run = ScriptRun::new("# only a comment");
    assert!(matches!(run.step(true), ScriptStep::Completed));
}

fn region(start: u64, end: u64, region_type: MemoryRegionType) -> MemoryRegion {
    MemoryRegion { start_frame_number: start, end_frame_number: end, region_type }
}

#[test]
fn boot_info_allocator_hands_out_usable_frames_in_order() {
    let map = vec![
        region(1, 3, MemoryRegionType::Usable),
        region(3, 5, MemoryRegionType::Reserved),
        region(8, 8, MemoryRegionType::Usable),
        region(10, 11, MemoryRegionType::Usable),
        region(11, 12, MemoryRegionType::Kernel),
    ];
    assert!(memory_map_is_valid(&map));
    let mut a = BootInfoFrameAllocator::init(&map);
    assert_eq!(a.allocated_count(), 0);
    assert_eq!(a.allocate_frame(), Some(0x1000));
    assert_eq!(a.allocate_frame(), Some(0x2000));
    assert_eq!(a.allocate_frame(), Some(0xa000));
    assert_eq!(a.allocate_frame(), None);
    assert_eq!(a.allocate_frame(), None);
    assert_eq!(a.allocated_count(), 5);
}

#[test]
fn memory_maps_past_the_physical_limit_are_refused() {
    assert!(memory_map_is_valid(&[region(1 << 40, 1 << 40, MemoryRegionType::Usable)]));
    assert!(!memory_map_is_valid(&[region(1, (1 << 40) + 1, MemoryRegionType::Usable)]));
    assert!(memory_map_is_valid(&[region(1, u64::MAX, MemoryRegionType::Reserved)]));
}

#[test]
fn nth_frame_across_regions() {
    let map = vec![region(0x100, 0x102, MemoryRegionType::Usable), region(0x200, 0x201, MemoryRegionType::Usable)];
    assert_eq!(nth_usable_frame(&map, 0), Some(0x100000));
    assert_eq!(nth_usable_frame(&map, 1), Some(0x101000));
    assert_eq!(nth_usable_frame(&map, 2), Some(0x200000));
    assert_eq!(nth_usable_frame(&map, 3), None);
    assert_eq!(nth_usable_frame(&[], 0), None);
}

#[test]
fn empty_allocator_has_nothing() {
    let mut a = EmptyFrameAllocator;
    assert_eq!(a.allocate_frame(), None);
    assert_eq!(a.allocate_frame(), None);
}

#[test]
fn address_helpers() {
    assert_eq!(page_containing(0x6666_6666_0123), 0x6666_6666_0000);
    assert_eq!(page_containing(0xffff_8000_0000_1fff), 0xffff_8000_0000_1000);
    assert_eq!(virt_add(0x1000, 0x234), 0x1234);
    let addr: u64 = (3 << 39) | (5 << 30) | (7 << 21) | (9 << 12) | 0xabc;
    assert_eq!(p4_index(addr), 3);
    assert_eq!(p3_index(addr), 5);
    assert_eq!(p2_index(addr), 7);
    assert_eq!(p1_index(addr), 9);
    assert_eq!(page_offset(addr), 0xabc);
    assert_eq!(p4_index(0xffff_ff80_0000_0000), 511);
    assert_eq!(frame_containing(0xb8123), 0xb8000);
    assert_eq!(phys_add(0xb8000, 0x10), 0xb8010);
}

#[test]
fn page_walk_translates() {
    let offset: u64 = 0x1000_0000_0000;
    let addr: u64 = (1 << 39) | (2 << 30) | (3 << 21) | (4 << 12) | 0x567;
    let mut w = PageWalk::new(addr, offset, 0x5000, 4);
    assert_eq!(w.action(), WalkAction::ReadEntry { table: offset + 0x5000, index: 1 });
    w.advance(FrameLookup::Frame(0x6000));
    assert_eq!(w.action(), WalkAction::ReadEntry { table: offset + 0x6000, index: 2 });
    w.advance(FrameLookup::Frame(0x7000));
    assert_eq!(w.action(), WalkAction::ReadEntry { table: offset + 0x7000, index: 3 });
    w.advance(FrameLookup::Frame(0x8000));
    assert_eq!(w.action(), WalkAction::ReadEntry { table: offset + 0x8000, index: 4 });
    w.advance(FrameLookup::Frame(0x9000));
    assert_eq!(w.action(), WalkAction::Reached(0x9000));
    assert_eq!(translated_address(addr, 0x9000), 0x9567);
}

#[test]
fn page_walk_stops() {
    let mut w = PageWalk::new(0x1234, 0, 0x1000, 4);
    w.advance(FrameLookup::NotPresent);
    assert_eq!(w.action(), WalkAction::NotPresent);
    let mut w = PageWalk::new(0x1234, 0, 0x1000, 3);
    w.advance(FrameLookup::Frame(0x2000));
    w.advance(FrameLookup::HugeFrame);
    assert_eq!(w.action(), WalkAction::HugeFrame);
    let mut w = PageWalk::new(0x1234, 0, 0x1000, 3);
    w.advance(FrameLookup::Frame(0x2000));
    w.advance(FrameLookup::Frame(0x3000));
    w.advance(FrameLookup::Frame(0x4000));
    assert_eq!(w.action(), WalkAction::Reached(0x4000));
    let w = PageWalk::new(0x1234, 0x7fff_ffff_0000, 0x10_0000, 4);
    assert_eq!(w.action(), WalkAction::TableOutOfReach);
}

#[test]
fn syscalls_decode() {
    assert_eq!(decode_syscall(0, 7, 9), Syscall::Exit(7));
    assert_eq!(decode_syscall(1, 0x4000, 5), Syscall::Write { ptr: 0x4000, len: 5 });
    assert_eq!(decode_syscall(2, 1, 1), Syscall::Unknown);
    assert_eq!(syscall_result(Syscall::Exit(0)), None);
    assert_eq!(syscall_result(Syscall::Write { ptr: 1, len: 5 }), Some(5));
    assert_eq!(syscall_result(Syscall::Unknown), Some(u64::MAX));
    assert_eq!(write_text(b"Hi\n"), vec!['H', 'i', '\n']);
    assert_eq!(write_text(&[0xe9]), vec!['\u{e9}']);
}

#[test]
fn entering_ring_three() {
    let f = user_iret_frame(0x18, 0x20, 0x6666_6666_0000, 0x5555_5555_1000);
    assert_eq!(f.cs, 0x1b);
    assert_eq!(f.ss, 0x23);
    assert_eq!(f.rflags, USER_RFLAGS);
    assert_eq!(f.rflags, 0x200);
    assert_eq!(f.rip, 0x6666_6666_0000);
    assert_eq!(f.rsp, 0x5555_5555_1000);
    let f = user_iret_frame(0x1b, 0x23, 0, 0);
    assert_eq!((f.cs, f.ss), (0x1b, 0x23));
}

#[test]
fn program_layout() {
    let l = user_program_layout();
    assert_eq!(l.code_page, 0x6666_6666_0000);
    assert_eq!(l.entry_point, 0x6666_6666_0000);
    assert_eq!(l.stack_page, 0x5555_5555_0000);
    assert_eq!(l.stack_top, 0x5555_5555_1000);
    assert!(payload_fits_page(0));
    assert!(payload_fits_page(4096));
    assert!(!payload_fits_page(4097));
}

#[test]
fn disjoint_usable_regions_never_share_a_frame() {
    let map = vec![
        region(20, 23, MemoryRegionType::Usable),
        region(0, 2, MemoryRegionType::Usable),
        region(1, 30, MemoryRegionType::InUse),
        region(23, 24, MemoryRegionType::Usable),
    ];
    let mut a = BootInfoFrameAllocator::init(&map);
    let mut seen = Vec::new();
    while let Some(f) = a.allocate_frame() {
        assert_eq!(f % 4096, 0);
        assert!(!seen.contains(&f));
        seen.push(f);
    }
    assert_eq!(seen, vec![0x14000, 0x15000, 0x16000, 0x0, 0x1000, 0x17000]);
}

#[test]
fn ls_lines() {
    let lines = listing_lines(&vec![("docs".to_string(), true), ("a.txt".to_string(), false)]);
    assert_eq!(lines, vec!["docs/".to_string(), "a.txt".to_string()]);
    assert_eq!(listing_lines(&Vec::new()), vec!["(empty)".to_string()]);
}

#[test]
fn cd_moves_only_into_directories() {
    let cwd = || "/home".to_string();
    assert_eq!(cd_new_cwd(cwd(), Some("/home/docs".to_string()), true), ("/home/docs".to_string(), true));
    assert_eq!(cd_new_cwd(cwd(), Some("/notes.txt".to_string()), false), (cwd(), false));
    assert_eq!(cd_new_cwd(cwd(), None, false), ("/".to_string(), true));
}

#[test]
fn outcomes_settled_by_the_action_alone() {
    assert_eq!(action_outcome(&plan_command("")), Some(false));
    assert_eq!(action_outcome(&plan_command("cat")), Some(false));
    assert_eq!(action_outcome(&plan_command("nope")), Some(false));
    assert_eq!(action_outcome(&plan_command("help")), Some(true));
    assert_eq!(action_outcome(&plan_command("echo hi")), Some(true));
    assert_eq!(action_outcome(&plan_command("clear")), Some(true));
    assert_eq!(action_outcome(&plan_command("about")), Some(true));
    assert_eq!(action_outcome(&plan_command("pwd")), Some(true));
    assert_eq!(action_outcome(&plan_command("ls")), Some(true));
    assert_eq!(action_outcome(&plan_command("edit f")), Some(true));
    assert_eq!(action_outcome(&plan_command("cd /x")), None);
    assert_eq!(action_outcome(&plan_command("cat f")), None);
    assert_eq!(action_outcome(&plan_command("mkdir d")), None);
    assert_eq!(action_outcome(&plan_command("rm f")), None);
    assert_eq!(action_outcome(&plan_command("run s")), None);
    assert_eq!(action_outcome(&plan_command("reboot")), None);
    assert_eq!(action_outcome(&plan_command("panic")), None);
}

#[test]
fn allocator_resumes_where_it_left_off() {
    let map = vec![region(1, 4, MemoryRegionType::Usable)];
    let mut a = BootInfoFrameAllocator::resume(&map, 2);
    assert_eq!(a.allocated_count(), 2);
    assert_eq!(a.allocate_frame(), Some(0x3000));
    assert_eq!(a.allocate_frame(), None);
}

#[test]
fn user_access_flag_is_added_and_other_bits_kept() {
    assert_eq!(USER_ACCESSIBLE, 4);
    assert_eq!(user_accessible_flags(0x3), 0x7);
    assert_eq!(user_accessible_flags(0x8000_0000_0000_0007), 0x8000_0000_0000_0007);
    assert_eq!(user_accessible_flags(0), 4);
}
