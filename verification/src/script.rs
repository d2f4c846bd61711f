use vstd::prelude::*;
use crate::text::{chars_of, find_char, index_of_char, lemma_index_of_char, string_from, trim, trim_bounds};

verus! {

/// A line ending is `\n` or `\r\n`: a line cut at a `\n` loses one `\r` before it.
pub open spec fn strip_cr(line: Seq<char>) -> Seq<char> {
    if line.len() > 0 && line.last() == '\r' {
        line.drop_last()
    } else {
        line
    }
}

/// The lines of `s`, as `str::lines` yields them: split at each `\n` (dropping a `\r` just
/// before it); the last line ending is optional, and an empty text has no lines.
pub open spec fn lines(s: Seq<char>) -> Seq<Seq<char>>
    decreases s.len(),
{
    if s.len() == 0 {
        Seq::empty()
    } else {
        let k = index_of_char(s, '\n');
        if k < s.len() {
            seq![strip_cr(s.take(k as int))] + lines(s.skip(k + 1int))
        } else {
            seq![s]
        }
    }
}

/// A trimmed script line is run unless it is empty or a `#` comment.
pub open spec fn runnable(line: Seq<char>) -> bool {
    line.len() > 0 && line[0] != '#'
}

/// The commands of a script whose lines are `ls`, the first of them being line number
/// `first`: each runnable line, trimmed, with its line number.
pub open spec fn script_entries(ls: Seq<Seq<char>>, first: nat) -> Seq<(nat, Seq<char>)>
    decreases ls.len(),
{
    if ls.len() == 0 {
        Seq::empty()
    } else {
        let rest = script_entries(ls.drop_first(), first + 1);
        let line = trim(ls[0]);
        if runnable(line) {
            seq![(first, line)] + rest
        } else {
            rest
        }
    }
}

/// The commands that `run` executes from a script's text, numbered from line 1.
pub open spec fn script_of(contents: Seq<char>) -> Seq<(nat, Seq<char>)> {
    script_entries(lines(contents), 1)
}

/// One command of a script: its trimmed text and the number of its line in the file.
pub struct ScriptLine {
    pub number: usize,
    pub text: String,
}

/// A script line as a plain value.
pub open spec fn line_view(l: ScriptLine) -> (nat, Seq<char>) {
    (l.number as nat, l.text@)
}

/// Script lines as plain values.
pub open spec fn lines_view(ls: Seq<ScriptLine>) -> Seq<(nat, Seq<char>)> {
    ls.map_values(|l: ScriptLine| line_view(l))
}

/// The commands of a script, in order, with the numbers of their lines: every line is
/// trimmed, and empty lines and lines that start with `#` are left out.
pub fn script_lines(contents: &str) -> (out: Vec<ScriptLine>)
    ensures
        lines_view(out@) == script_of(contents@),
{
    let chars = chars_of(contents);
    let ghost s = chars@;
    let n = chars.len();
    let mut out: Vec<ScriptLine> = Vec::new();
    let mut start: usize = 0;
    let mut idx: usize = 0;
    assert(s.skip(0) =~= s);
    while start < n
        invariant
            n == chars.len(),
            s == chars@,
            s == contents@,
            idx <= start <= n,
            script_of(s) == lines_view(out@) + script_entries(lines(s.skip(start as int)), (idx + 1) as nat),
        decreases n - start,
    {
        let ghost t = s.skip(start as int);
        assert(t =~= chars@.subrange(start as int, n as int));
        let nl = find_char(&chars, start, n, '\n');
        proof {
            lemma_index_of_char(t, '\n');
        }
        let end = if nl < n && nl > start && chars[nl - 1] == '\r' {
            nl - 1
        } else {
            nl
        };
        let next = if nl < n {
            nl + 1
        } else {
            n
        };
        let ghost line = chars@.subrange(start as int, end as int);
        let ghost rest = s.skip(next as int);
        proof {
            if nl < n {
                assert(t.skip(nl - start + 1) =~= rest);
                assert(strip_cr(t.take(nl - start)) =~= line);
            } else {
                assert(t =~= line);
                assert(rest.len() == 0);
                assert(lines(rest) =~= Seq::<Seq<char>>::empty());
            }
            assert(lines(t) =~= seq![line] + lines(rest));
            assert((seq![line] + lines(rest)).drop_first() =~= lines(rest));
        }
        let (a, b) = trim_bounds(&chars, start, end);
        let ghost before = lines_view(out@);
        if a < b && chars[a] != '#' {
            assert(chars@.subrange(a as int, b as int)[0] == chars@[a as int]);
            let text = string_from(&chars, a, b);
            out.push(ScriptLine { number: idx + 1, text });
            assert(lines_view(out@) =~= before + seq![((idx + 1) as nat, trim(line))]);
        } else {
            if a < b {
                assert(chars@.subrange(a as int, b as int)[0] == chars@[a as int]);
            }
        }
        idx = idx + 1;
        start = next;
    }
    assert(s.skip(n as int) =~= Seq::<char>::empty());
    assert(lines_view(out@) + Seq::<(nat, Seq<char>)>::empty() =~= lines_view(out@));
    out
}

/// What the next step of a running script is.
pub enum ScriptStep {
    /// Run this command (the text of the next script line).
    Execute(String),
    /// The command of this line failed: the script stops there.
    Stopped(usize),
    /// Every command ran and none failed.
    Completed,
}

/// A script being run line by line: its commands and how many of them have been handed out.
pub struct ScriptRun {
    lines: Vec<ScriptLine>,
    next: usize,
}

impl ScriptRun {
    /// The commands of the script, as plain values.
    pub closed spec fn commands(&self) -> Seq<(nat, Seq<char>)> {
        lines_view(self.lines@)
    }

    /// How many commands have been handed out.
    pub closed spec fn position(&self) -> nat {
        self.next as nat
    }

    pub closed spec fn wf(&self) -> bool {
        self.next <= self.lines@.len()
    }

    /// Starts running the script whose text is `contents`.
    pub fn new(contents: &str) -> (run: Self)
        ensures
            run.wf(),
            run.commands() == script_of(contents@),
            run.position() == 0,
    {
        ScriptRun { lines: script_lines(contents), next: 0 }
    }

    /// The next step, given whether the command handed out last succeeded (its value does
    /// not matter before the first command): a failed command stops the script at its line;
    /// otherwise the next command runs, or the script is complete.
    pub fn step(&mut self, previous_succeeded: bool) -> (step: ScriptStep)
        requires
            old(self).wf(),
        ensures
            final(self).wf(),
            final(self).commands() == old(self).commands(),
            ({
                let cmds = old(self).commands();
                let p = old(self).position();
                if p > 0 && !previous_succeeded {
                    step == ScriptStep::Stopped(cmds[p - 1].0 as usize) && final(self).position() == p
                } else if p < cmds.len() {
                    step matches ScriptStep::Execute(t) && t@ == cmds[p as int].1
                        && final(self).position() == p + 1
                } else {
                    step is Completed && final(self).position() == p
                }
            }),
    {
        if self.next > 0 && !previous_succeeded {
            return ScriptStep::Stopped(self.lines[self.next - 1].number);
        }
        if self.next < self.lines.len() {
            let line = &self.lines[self.next];
            let text = line.text.clone();
            self.next = self.next + 1;
            ScriptStep::Execute(text)
        } else {
            ScriptStep::Completed
        }
    }
}

/// Every command that a script runs is a trimmed, non-empty line that is not a `#`
/// comment, and the commands come in the order of their lines.
pub proof fn law_script_commands(ls: Seq<Seq<char>>, first: nat)
    ensures
        forall|i: int|
            0 <= i < script_entries(ls, first).len() ==> {
                let e = #[trigger] script_entries(ls, first)[i];
                &&& e.1.len() > 0
                &&& e.1[0] != '#'
                &&& trim(e.1) == e.1
                &&& first <= e.0 < first + ls.len()
                &&& e.1 == trim(ls[e.0 - first])
            },
        forall|i: int, j: int|
            0 <= i < j < script_entries(ls, first).len() ==> script_entries(ls, first)[i].0
                < script_entries(ls, first)[j].0,
    decreases ls.len(),
{
    if ls.len() > 0 {
        law_script_commands(ls.drop_first(), first + 1);
        crate::text::lemma_trim_idempotent(ls[0]);
        let rest = script_entries(ls.drop_first(), first + 1);
        let line = trim(ls[0]);
        let all = script_entries(ls, first);
        if runnable(line) {
            assert forall|i: int| 0 < i < all.len() implies all[i] == rest[i - 1] by {}
        }
        assert forall|i: int| 0 <= i < all.len() implies {
            let e = #[trigger] all[i];
            &&& e.1.len() > 0
            &&& e.1[0] != '#'
            &&& trim(e.1) == e.1
            &&& first <= e.0 < first + ls.len()
            &&& e.1 == trim(ls[e.0 - first])
        } by {
            if runnable(line) && i == 0 {
            } else {
                let k = if runnable(line) { i - 1 } else { i };
                assert(all[i] == rest[k]);
                let e = rest[k];
                assert(ls.drop_first()[e.0 - (first + 1)] == ls[e.0 - first]);
            }
        }
    }
}

/// Every line of a script that is not blank once trimmed and does not start with `#` runs:
/// with its line number and its trimmed text. (A `#` later in a line does not make it a
/// comment.)
pub proof fn law_script_runs_every_command(ls: Seq<Seq<char>>, first: nat)
    ensures
        forall|i: int|
            0 <= i < ls.len() && trim(#[trigger] ls[i]).len() > 0 && trim(ls[i])[0] != '#'
                ==> script_entries(ls, first).contains(((first + i) as nat, trim(ls[i]))),
    decreases ls.len(),
{
    if ls.len() > 0 {
        let rest_ls = ls.drop_first();
        law_script_runs_every_command(rest_ls, first + 1);
        let rest = script_entries(rest_ls, first + 1);
        let all = script_entries(ls, first);
        let line = trim(ls[0]);
        assert forall|i: int|
            0 <= i < ls.len() && trim(#[trigger] ls[i]).len() > 0 && trim(ls[i])[0] != '#' implies all.contains(
            ((first + i) as nat, trim(ls[i])),
        ) by {
            if i == 0 {
                assert(all[0] == ((first + 0) as nat, trim(ls[0])));
            } else {
                assert(rest_ls[i - 1] == ls[i]);
                assert(rest.contains(((first + 1 + (i - 1)) as nat, trim(rest_ls[i - 1]))));
                let k = choose|k: int| 0 <= k < rest.len() && rest[k] == ((first + i) as nat, trim(ls[i]));
                if runnable(line) {
                    assert(all[k + 1] == rest[k]);
                } else {
                    assert(all[k] == rest[k]);
                }
            }
        }
    }
}

/// The commands of a script's text are exactly its lines that, trimmed, are not blank and do
/// not start with `#`: each with the number of its line (counted from 1) and its trimmed
/// text, in the order of the lines.
pub proof fn law_script_of(contents: Seq<char>)
    ensures
        forall|i: int|
            0 <= i < lines(contents).len() && trim(#[trigger] lines(contents)[i]).len() > 0
                && trim(lines(contents)[i])[0] != '#' ==> script_of(contents).contains(
                ((i + 1) as nat, trim(lines(contents)[i])),
            ),
        forall|k: int|
            0 <= k < script_of(contents).len() ==> {
                let e = #[trigger] script_of(contents)[k];
                &&& 1 <= e.0 <= lines(contents).len()
                &&& e.1 == trim(lines(contents)[e.0 - 1])
                &&& e.1.len() > 0
                &&& e.1[0] != '#'
            },
        forall|k: int, j: int|
            0 <= k < j < script_of(contents).len() ==> script_of(contents)[k].0 < script_of(
                contents,
            )[j].0,
{
    law_script_runs_every_command(lines(contents), 1);
    law_script_commands(lines(contents), 1);
}

} // verus!
