use vstd::prelude::*;
use crate::text::{
    chars_of, find_char, index_of_char, lemma_index_of_char, lemma_trim_ends, push_char,
    slice_equals, string_from, trim,
    trim_bounds,
};

verus! {

/// The shell commands that the kernel knows, by the word that names them.
#[derive(Clone, Copy, Debug, PartialEq, Eq, Structural)]
pub enum Command {
    Help,
    Echo,
    Clear,
    About,
    Reboot,
    Panic,
    Edit,
    Ls,
    Cat,
    Mkdir,
    Rm,
    Cd,
    Pwd,
    Run,
    Unknown,
}

/// The command that a command word names.
pub open spec fn command_of(name: Seq<char>) -> Command {
    if name == "help"@ {
        Command::Help
    } else if name == "echo"@ {
        Command::Echo
    } else if name == "clear"@ {
        Command::Clear
    } else if name == "about"@ {
        Command::About
    } else if name == "reboot"@ {
        Command::Reboot
    } else if name == "panic"@ {
        Command::Panic
    } else if name == "edit"@ {
        Command::Edit
    } else if name == "ls"@ {
        Command::Ls
    } else if name == "cat"@ {
        Command::Cat
    } else if name == "mkdir"@ {
        Command::Mkdir
    } else if name == "rm"@ {
        Command::Rm
    } else if name == "cd"@ {
        Command::Cd
    } else if name == "pwd"@ {
        Command::Pwd
    } else if name == "run"@ {
        Command::Run
    } else {
        Command::Unknown
    }
}

/// The command word of a trimmed command line: everything before the first space.
pub open spec fn command_name(line: Seq<char>) -> Seq<char> {
    line.take(index_of_char(line, ' ') as int)
}

/// The arguments of a trimmed command line: everything after the first space, or nothing.
pub open spec fn command_args(line: Seq<char>) -> Seq<char> {
    let k = index_of_char(line, ' ');
    if k < line.len() {
        line.skip(k + 1int)
    } else {
        Seq::empty()
    }
}

/// The directory that `cd` goes to.
pub enum CdTarget {
    /// `cd` without arguments: the root directory.
    Root,
    /// `cd ..`: the parent of the current directory (see `parent_dir`).
    Parent,
    /// Any other argument, to be resolved against the current directory.
    Path(String),
}

/// The directory that `ls` lists.
pub enum LsTarget {
    /// `ls` without arguments: the current directory.
    Current,
    /// Any argument, to be resolved against the current directory.
    Path(String),
}

/// What the shell does with one line of input.
pub enum ShellAction {
    /// The line is blank: nothing runs and the line counts as failed.
    Blank,
    Help,
    Echo(String),
    Clear,
    About,
    Reboot,
    /// `panic`: the screen is cleared and the kernel panics on purpose.
    Panic,
    Pwd,
    Ls(LsTarget),
    Cd(CdTarget),
    Edit(String),
    Cat(String),
    Mkdir(String),
    Rm(String),
    Run(String),
    /// The command needs an argument and got none: its usage line is shown and it fails.
    Usage(Command),
    /// The command word is not known.
    Unknown(String),
}

/// Whether `action` is what the shell does for command `kind` named `name` with `args`.
pub open spec fn action_for(kind: Command, name: Seq<char>, args: Seq<char>, action: ShellAction) -> bool {
    match kind {
        Command::Help => action is Help,
        Command::Echo => action matches ShellAction::Echo(a) && a@ == args,
        Command::Clear => action is Clear,
        Command::About => action is About,
        Command::Reboot => action is Reboot,
        Command::Panic => action is Panic,
        Command::Pwd => action is Pwd,
        Command::Ls => if args.len() == 0 {
            action matches ShellAction::Ls(LsTarget::Current)
        } else {
            action matches ShellAction::Ls(LsTarget::Path(a)) && a@ == args
        },
        Command::Cd => if args.len() == 0 {
            action matches ShellAction::Cd(CdTarget::Root)
        } else if args == seq!['.', '.'] {
            action matches ShellAction::Cd(CdTarget::Parent)
        } else {
            action matches ShellAction::Cd(CdTarget::Path(a)) && a@ == args
        },
        Command::Unknown => action matches ShellAction::Unknown(a) && a@ == name,
        _ => if args.len() == 0 {
            action == ShellAction::Usage(kind)
        } else {
            match kind {
                Command::Edit => action matches ShellAction::Edit(a) && a@ == args,
                Command::Cat => action matches ShellAction::Cat(a) && a@ == args,
                Command::Mkdir => action matches ShellAction::Mkdir(a) && a@ == args,
                Command::Rm => action matches ShellAction::Rm(a) && a@ == args,
                _ => action matches ShellAction::Run(a) && a@ == args,
            }
        },
    }
}

/// Whether `action` is what the shell does with the input line `input`.
pub open spec fn planned(input: Seq<char>, action: ShellAction) -> bool {
    let line = trim(input);
    if line.len() == 0 {
        action is Blank
    } else {
        action_for(command_of(command_name(line)), command_name(line), command_args(line), action)
    }
}

/// The command named by `chars[lo..hi]`.
fn command_in(chars: &Vec<char>, lo: usize, hi: usize) -> (c: Command)
    requires
        lo <= hi <= chars.len(),
    ensures
        c == command_of(chars@.subrange(lo as int, hi as int)),
{
    if slice_equals(chars, lo, hi, "help") {
        Command::Help
    } else if slice_equals(chars, lo, hi, "echo") {
        Command::Echo
    } else if slice_equals(chars, lo, hi, "clear") {
        Command::Clear
    } else if slice_equals(chars, lo, hi, "about") {
        Command::About
    } else if slice_equals(chars, lo, hi, "reboot") {
        Command::Reboot
    } else if slice_equals(chars, lo, hi, "panic") {
        Command::Panic
    } else if slice_equals(chars, lo, hi, "edit") {
        Command::Edit
    } else if slice_equals(chars, lo, hi, "ls") {
        Command::Ls
    } else if slice_equals(chars, lo, hi, "cat") {
        Command::Cat
    } else if slice_equals(chars, lo, hi, "mkdir") {
        Command::Mkdir
    } else if slice_equals(chars, lo, hi, "rm") {
        Command::Rm
    } else if slice_equals(chars, lo, hi, "cd") {
        Command::Cd
    } else if slice_equals(chars, lo, hi, "pwd") {
        Command::Pwd
    } else if slice_equals(chars, lo, hi, "run") {
        Command::Run
    } else {
        Command::Unknown
    }
}

/// The command that the word `name` names.
pub fn command_kind(name: &str) -> (c: Command)
    ensures
        c == command_of(name@),
{
    let chars = chars_of(name);
    assert(chars@.subrange(0, chars@.len() as int) =~= chars@);
    command_in(&chars, 0, chars.len())
}

/// Bounds of the command word and of the arguments in a command line held in `chars`:
/// `(a, s, b)` where the trimmed line is `chars[a..b]` and its first space (or `b`) is at `s`.
fn split_bounds(chars: &Vec<char>) -> (r: (usize, usize, usize))
    ensures
        r.0 <= r.1 <= r.2 <= chars.len(),
        chars@.subrange(r.0 as int, r.2 as int) == trim(chars@),
        r.1 - r.0 == index_of_char(trim(chars@), ' '),
{
    let (a, b) = trim_bounds(chars, 0, chars.len());
    assert(chars@.subrange(0, chars@.len() as int) =~= chars@);
    let s = find_char(chars, a, b, ' ');
    (a, s, b)
}

/// Decides what the shell does with one line of input: the command it names, with its
/// arguments, or why nothing runs.
pub fn plan_command(input: &str) -> (action: ShellAction)
    ensures
        planned(input@, action),
{
    let chars = chars_of(input);
    let (a, s, b) = split_bounds(&chars);
    if a == b {
        return ShellAction::Blank;
    }
    let ghost line = trim(input@);
    proof {
        lemma_index_of_char(line, ' ');
        assert(line.take((s - a) as int) =~= chars@.subrange(a as int, s as int));
    }
    let kind = command_in(&chars, a, s);
    let (lo, hi) = if s < b {
        (s + 1, b)
    } else {
        (b, b)
    };
    assert(command_args(line) =~= chars@.subrange(lo as int, hi as int));
    match kind {
        Command::Help => ShellAction::Help,
        Command::Echo => ShellAction::Echo(string_from(&chars, lo, hi)),
        Command::Clear => ShellAction::Clear,
        Command::About => ShellAction::About,
        Command::Reboot => ShellAction::Reboot,
        Command::Panic => ShellAction::Panic,
        Command::Pwd => ShellAction::Pwd,
        Command::Ls => {
            if lo == hi {
                ShellAction::Ls(LsTarget::Current)
            } else {
                ShellAction::Ls(LsTarget::Path(string_from(&chars, lo, hi)))
            }
        },
        Command::Cd => {
            if lo == hi {
                ShellAction::Cd(CdTarget::Root)
            } else if hi - lo == 2 && chars[lo] == '.' && chars[lo + 1] == '.' {
                assert(chars@.subrange(lo as int, hi as int) =~= seq!['.', '.']);
                ShellAction::Cd(CdTarget::Parent)
            } else {
                if hi - lo == 2 {
                    assert(chars@.subrange(lo as int, hi as int)[0] == chars@[lo as int]);
                    assert(chars@.subrange(lo as int, hi as int)[1] == chars@[lo + 1]);
                }
                ShellAction::Cd(CdTarget::Path(string_from(&chars, lo, hi)))
            }
        },
        Command::Unknown => ShellAction::Unknown(string_from(&chars, a, s)),
        _ => {
            if lo == hi {
                ShellAction::Usage(kind)
            } else {
                let arg = string_from(&chars, lo, hi);
                match kind {
                    Command::Edit => ShellAction::Edit(arg),
                    Command::Cat => ShellAction::Cat(arg),
                    Command::Mkdir => ShellAction::Mkdir(arg),
                    Command::Rm => ShellAction::Rm(arg),
                    _ => ShellAction::Run(arg),
                }
            }
        },
    }
}


/// The root directory, `/`.
pub open spec fn root_dir() -> Seq<char> {
    seq!['/']
}

/// Index of the last `c` in `s`, or `-1` when `s` holds no `c`.
pub open spec fn last_index_of_char(s: Seq<char>, c: char) -> int
    decreases s.len(),
{
    if s.len() == 0 {
        -1
    } else if s.last() == c {
        s.len() - 1
    } else {
        last_index_of_char(s.drop_last(), c)
    }
}

/// What `last_index_of_char` is: the last occurrence, or `-1` when there is none.
pub proof fn lemma_last_index_of_char(s: Seq<char>, c: char)
    ensures
        -1 <= last_index_of_char(s, c) < s.len(),
        last_index_of_char(s, c) >= 0 ==> s[last_index_of_char(s, c)] == c,
        forall|j: int| last_index_of_char(s, c) < j < s.len() ==> s[j] != c,
    decreases s.len(),
{
    if s.len() > 0 && s.last() != c {
        lemma_last_index_of_char(s.drop_last(), c);
        assert forall|j: int| last_index_of_char(s, c) < j < s.len() implies s[j] != c by {
            if j < s.len() - 1 {
                assert(s[j] == s.drop_last()[j]);
            }
        }
    }
}

/// The directory that `cd ..` goes to from `cwd`: what comes before the last `/`, or the
/// root when that is empty, when `cwd` has no `/`, or when `cwd` is the root itself.
pub open spec fn parent_of(cwd: Seq<char>) -> Seq<char> {
    if cwd == root_dir() {
        root_dir()
    } else {
        let k = last_index_of_char(cwd, '/');
        if k <= 0 {
            root_dir()
        } else {
            cwd.take(k)
        }
    }
}

/// The parent directory of `cwd`, as `cd ..` computes it.
pub fn parent_dir(cwd: &str) -> (parent: String)
    ensures
        parent@ == parent_of(cwd@),
{
    let chars = chars_of(cwd);
    let mut k = chars.len();
    assert(chars@.take(k as int) =~= chars@);
    while k > 0 && chars[k - 1] != '/'
        invariant
            k <= chars.len(),
            chars@ == cwd@,
            last_index_of_char(cwd@, '/') == last_index_of_char(chars@.take(k as int), '/'),
        decreases k,
    {
        assert(chars@.take(k as int).drop_last() =~= chars@.take(k - 1));
        k = k - 1;
    }
    proof {
        if k > 0 {
            assert(chars@.take(k as int).last() == chars@[k - 1]);
        }
    }
    let is_root = chars.len() == 1 && chars[0] == '/';
    proof {
        if is_root {
            assert(chars@ =~= root_dir());
        } else if chars@.len() == 1 {
            assert(chars@[0] != root_dir()[0]);
        }
    }
    if is_root || k <= 1 {
        let slash = vec!['/'];
        assert(slash@.subrange(0, 1) =~= root_dir());
        string_from(&slash, 0, 1)
    } else {
        assert(chars@.take(k - 1) =~= chars@.subrange(0, k - 1));
        string_from(&chars, 0, k - 1)
    }
}

/// Where `cd` leaves the current directory `current`, and whether it succeeds. `target` is
/// `None` for `cd` without arguments, which goes to the root; otherwise it is the directory
/// asked for, and `target_is_dir` says whether the file system reports it as a directory.
pub open spec fn cd_outcome(current: Seq<char>, target: Option<Seq<char>>, target_is_dir: bool) -> (
    Seq<char>,
    bool,
) {
    match target {
        None => (root_dir(), true),
        Some(t) => if target_is_dir {
            (t, true)
        } else {
            (current, false)
        },
    }
}

/// The working directory after `cd`, and whether `cd` succeeded: the root for `cd` without
/// arguments, the target when it is a directory, and `current`, with failure, otherwise.
pub fn cd_new_cwd(current: String, target: Option<String>, target_is_dir: bool) -> (r: (
    String,
    bool,
))
    ensures
        (r.0@, r.1) == cd_outcome(
            current@,
            match target {
                Some(t) => Some(t@),
                None => None,
            },
            target_is_dir,
        ),
{
    match target {
        None => {
            let slash = vec!['/'];
            assert(slash@.subrange(0, 1) =~= root_dir());
            (string_from(&slash, 0, 1), true)
        },
        Some(t) => {
            if target_is_dir {
                (t, true)
            } else {
                (current, false)
            }
        },
    }
}

/// After any `cd`, successful or not, the working directory still names a directory, as long
/// as it did before and the root is one: `cd` moves only to the root or to a target that the
/// file system reports as a directory.
pub proof fn law_cd_keeps_a_directory(
    is_dir: spec_fn(Seq<char>) -> bool,
    current: Seq<char>,
    target: Option<Seq<char>>,
    target_is_dir: bool,
)
    requires
        is_dir(current),
        is_dir(root_dir()),
        target matches Some(t) ==> target_is_dir == is_dir(t),
    ensures
        is_dir(cd_outcome(current, target, target_is_dir).0),
        !cd_outcome(current, target, target_is_dir).1 ==> cd_outcome(current, target, target_is_dir).0
            == current,
{
}

/// Whether the shell's answer to `action` is settled without asking the file system or
/// the machine: blank lines, usage errors and unknown commands fail; help, echo, clear,
/// about, pwd, ls and edit succeed. `None` for the rest: cd, cat, mkdir, rm and run, whose
/// outcome the file system decides, and reboot and panic, which never return.
pub open spec fn settled_outcome(action: ShellAction) -> Option<bool> {
    match action {
        ShellAction::Blank => Some(false),
        ShellAction::Usage(_) => Some(false),
        ShellAction::Unknown(_) => Some(false),
        ShellAction::Help => Some(true),
        ShellAction::Echo(_) => Some(true),
        ShellAction::Clear => Some(true),
        ShellAction::About => Some(true),
        ShellAction::Pwd => Some(true),
        ShellAction::Ls(_) => Some(true),
        ShellAction::Edit(_) => Some(true),
        _ => None,
    }
}

/// Which command lines succeed regardless of the file system: `ls` and `edit` with any
/// argument (or none, for `ls`), `echo` with any text, and help, clear, about and pwd; blank
/// lines, usage errors and unknown commands always fail; cd, cat, mkdir, rm and run succeed
/// or fail as the file system answers, and reboot and panic never come back.
pub proof fn law_settled_outcomes(t: LsTarget, a: String, c: Command, cd: CdTarget)
    ensures
        settled_outcome(ShellAction::Ls(t)) == Some(true),
        settled_outcome(ShellAction::Edit(a)) == Some(true),
        settled_outcome(ShellAction::Echo(a)) == Some(true),
        settled_outcome(ShellAction::Help) == Some(true),
        settled_outcome(ShellAction::Clear) == Some(true),
        settled_outcome(ShellAction::About) == Some(true),
        settled_outcome(ShellAction::Pwd) == Some(true),
        settled_outcome(ShellAction::Blank) == Some(false),
        settled_outcome(ShellAction::Usage(c)) == Some(false),
        settled_outcome(ShellAction::Unknown(a)) == Some(false),
        settled_outcome(ShellAction::Cd(cd)) is None,
        settled_outcome(ShellAction::Cat(a)) is None,
        settled_outcome(ShellAction::Mkdir(a)) is None,
        settled_outcome(ShellAction::Rm(a)) is None,
        settled_outcome(ShellAction::Run(a)) is None,
        settled_outcome(ShellAction::Reboot) is None,
        settled_outcome(ShellAction::Panic) is None,
{
}

/// The success of a command line whose outcome is settled by its action alone
/// (see `settled_outcome`).
pub fn action_outcome(action: &ShellAction) -> (ok: Option<bool>)
    ensures
        ok == settled_outcome(*action),
{
    match action {
        ShellAction::Blank => Some(false),
        ShellAction::Usage(_) => Some(false),
        ShellAction::Unknown(_) => Some(false),
        ShellAction::Help => Some(true),
        ShellAction::Echo(_) => Some(true),
        ShellAction::Clear => Some(true),
        ShellAction::About => Some(true),
        ShellAction::Pwd => Some(true),
        ShellAction::Ls(_) => Some(true),
        ShellAction::Edit(_) => Some(true),
        _ => None,
    }
}

/// How `ls` shows one directory entry: its name, with a `/` after it for a directory.
pub open spec fn listing_line(name: Seq<char>, is_dir: bool) -> Seq<char> {
    if is_dir {
        name.push('/')
    } else {
        name
    }
}

/// The lines that `ls` prints for the entries of a directory: one per entry, in order, or
/// the single line `(empty)` when there are none.
pub fn listing_lines(entries: &Vec<(String, bool)>) -> (lines: Vec<String>)
    ensures
        entries@.len() == 0 ==> lines@.len() == 1 && lines@[0]@ == "(empty)"@,
        entries@.len() > 0 ==> lines@.len() == entries@.len() && forall|i: int|
            0 <= i < entries@.len() ==> lines@[i]@ == listing_line(entries@[i].0@, entries@[i].1),
{
    let mut lines: Vec<String> = Vec::new();
    if entries.len() == 0 {
        let empty = chars_of("(empty)");
        assert(empty@.subrange(0, empty@.len() as int) =~= empty@);
        lines.push(string_from(&empty, 0, empty.len()));
        return lines;
    }
    let mut i: usize = 0;
    while i < entries.len()
        invariant
            i <= entries@.len(),
            lines@.len() == i,
            forall|j: int|
                0 <= j < i ==> lines@[j]@ == listing_line(entries@[j].0@, entries@[j].1),
        decreases entries.len() - i,
    {
        let entry = &entries[i];
        let mut line = entry.0.clone();
        if entry.1 {
            push_char(&mut line, '/');
        }
        lines.push(line);
        i = i + 1;
    }
    lines
}

/// The parent that `cd ..` picks is the root, or a proper, non-empty prefix of the current
/// directory; so going up again and again ends at the root.
pub proof fn law_parent_dir_climbs(cwd: Seq<char>)
    ensures
        parent_of(cwd) == root_dir() || (0 < parent_of(cwd).len() < cwd.len()
            && parent_of(cwd) == cwd.take(parent_of(cwd).len() as int)),
        parent_of(cwd).len() > 0,
{
    lemma_last_index_of_char(cwd, '/');
}

/// `cd ..` goes to exactly what comes before the last `/` of the current directory, when
/// that is not empty; and to the root when the only `/` is the first character or there is
/// none at all.
pub proof fn law_parent_dir_is_before_last_slash(cwd: Seq<char>)
    ensures
        forall|k: int|
            0 < k < cwd.len() && #[trigger] cwd[k] == '/' && (forall|j: int|
                k < j < cwd.len() ==> cwd[j] != '/') ==> parent_of(cwd) == cwd.take(k),
        (forall|j: int| 0 < j < cwd.len() ==> cwd[j] != '/') ==> parent_of(cwd) == seq!['/'],
{
    lemma_last_index_of_char(cwd, '/');
    let l = last_index_of_char(cwd, '/');
    assert forall|k: int|
        0 < k < cwd.len() && #[trigger] cwd[k] == '/' && (forall|j: int|
            k < j < cwd.len() ==> cwd[j] != '/') implies parent_of(cwd) == cwd.take(k) by {
        assert(l == k);
        if cwd == root_dir() {
            assert(cwd.len() == 1);
        }
    }
}

/// A blank line runs nothing; otherwise the command word is non-empty and holds no space,
/// and the trimmed line is the command word, then (when there are arguments) a space and
/// the arguments.
pub proof fn law_command_line_split(input: Seq<char>)
    ensures
        ({
            let line = trim(input);
            let name = command_name(line);
            let args = command_args(line);
            &&& !name.contains(' ')
            &&& line.len() > 0 ==> name.len() > 0
            &&& (index_of_char(line, ' ') < line.len() ==> line == name + seq![' '] + args)
            &&& (index_of_char(line, ' ') == line.len() ==> line == name && args.len() == 0)
        }),
{
    let line = trim(input);
    lemma_index_of_char(line, ' ');
    lemma_trim_ends(input);
    let k = index_of_char(line, ' ');
    if k < line.len() {
        assert(line =~= line.take(k as int) + seq![' '] + line.skip(k + 1int));
    } else {
        assert(line.take(k as int) =~= line);
    }
}

} // verus!
