//! External command steps: what a plan asks to run, and how a step is shown.
use vstd::prelude::*;

use crate::text::{
    chars_of, decimal, join, join_chars, push_chars, push_decimal, push_str, string_of, sviews, vviews,
};

verus! {

/// One external command of a plan.
#[derive(Debug, Clone, PartialEq, Eq)]
pub struct CommandStep {
    pub description: String,
    pub program: String,
    pub args: Vec<String>,
}

/// Progress reported while a plan runs.
#[derive(Debug, Clone, PartialEq, Eq)]
pub enum StepEvent {
    StepStart { description: String },
    StepOutput { line: String },
    StepComplete { description: String },
    Error { step: String, message: String },
}

/// A step as plain values: description, program, arguments.
pub struct StepView {
    pub description: Seq<char>,
    pub program: Seq<char>,
    pub args: Seq<Seq<char>>,
}

pub open spec fn step_view(s: CommandStep) -> StepView {
    StepView { description: s.description@, program: s.program@, args: sviews(s.args@) }
}

pub open spec fn step_views(s: Seq<CommandStep>) -> Seq<StepView> {
    s.map_values(|c: CommandStep| step_view(c))
}

pub open spec fn step_of(description: Seq<char>, program: Seq<char>, args: Seq<Seq<char>>) -> StepView {
    StepView { description, program, args }
}

/// Characters a shell passes through unquoted.
pub open spec fn is_shell_safe(c: char) -> bool {
    ('a' <= c && c <= 'z') || ('A' <= c && c <= 'Z') || ('0' <= c && c <= '9') || c == '-' || c
        == '_' || c == '.' || c == '/' || c == ':' || c == '=' || c == '+' || c == ',' || c == '@'
        || c == '%'
}

/// `s` with every `'` written as `'\''`, for use inside single quotes.
pub open spec fn escape_quotes(s: Seq<char>) -> Seq<char>
    decreases s.len(),
{
    if s.len() == 0 {
        Seq::empty()
    } else {
        escape_quotes(s.drop_last()) + if s.last() == '\'' {
            "'\\''"@
        } else {
            seq![s.last()]
        }
    }
}

/// How a word is written on a shell command line: as it is when every
/// character is safe, else single-quoted.
pub open spec fn shell_word(s: Seq<char>) -> Seq<char> {
    if s.len() > 0 && forall|i: int| 0 <= i < s.len() ==> is_shell_safe(#[trigger] s[i]) {
        s
    } else {
        seq!['\''] + escape_quotes(s) + seq!['\'']
    }
}

/// A command as it would be typed in a shell.
pub open spec fn command_text(program: Seq<char>, args: Seq<Seq<char>>) -> Seq<char> {
    join(seq![program].add(args).map_values(|w: Seq<char>| shell_word(w)), " "@)
}

pub fn is_safe_char(c: char) -> (r: bool)
    ensures
        r == is_shell_safe(c),
{
    ('a' <= c && c <= 'z') || ('A' <= c && c <= 'Z') || ('0' <= c && c <= '9') || c == '-' || c
        == '_' || c == '.' || c == '/' || c == ':' || c == '=' || c == '+' || c == ',' || c == '@'
        || c == '%'
}

/// Quotes a word for a shell command line.
pub fn shell_quote(s: &str) -> (r: Vec<char>)
    ensures
        r@ == shell_word(s@),
{
    let v = chars_of(s);
    let mut safe = v.len() > 0;
    let mut i: usize = 0;
    while i < v.len()
        invariant
            i <= v.len(),
            v@ == s@,
            safe == (v.len() > 0 && forall|k: int| 0 <= k < i ==> is_shell_safe(#[trigger] v@[k])),
        decreases v.len() - i,
    {
        if !is_safe_char(v[i]) {
            safe = false;
        }
        i = i + 1;
    }
    if safe {
        return v;
    }
    let mut out: Vec<char> = Vec::new();
    out.push('\'');
    assert(v@.subrange(0, 0) =~= Seq::<char>::empty());
    assert(out@ =~= seq!['\''] + escape_quotes(Seq::<char>::empty()));
    let mut j: usize = 0;
    while j < v.len()
        invariant
            j <= v.len(),
            v@ == s@,
            out@ == seq!['\''] + escape_quotes(v@.subrange(0, j as int)),
        decreases v.len() - j,
    {
        let ghost before = out@;
        if v[j] == '\'' {
            push_str(&mut out, "'\\''");
        } else {
            out.push(v[j]);
        }
        j = j + 1;
        proof {
            let sub = v@.subrange(0, j as int);
            assert(sub.drop_last() =~= v@.subrange(0, j - 1));
            assert(sub.last() == v@[j - 1]);
            assert(out@ =~= seq!['\''] + escape_quotes(sub));
        }
    }
    assert(v@.subrange(0, v.len() as int) =~= v@);
    assert(v@.subrange(0, 0) =~= Seq::<char>::empty());
    out.push('\'');
    assert(out@ =~= seq!['\''] + escape_quotes(s@) + seq!['\'']);
    out
}

impl CommandStep {
    /// The command as it would be typed in a shell.
    pub fn command_line(&self) -> (r: String)
        ensures
            r@ == command_text(self.program@, sviews(self.args@)),
    {
        let mut words: Vec<Vec<char>> = Vec::new();
        words.push(shell_quote(self.program.as_str()));
        let ghost all = seq![self.program@].add(sviews(self.args@));
        let mut i: usize = 0;
        while i < self.args.len()
            invariant
                i <= self.args.len(),
                all == seq![self.program@].add(sviews(self.args@)),
                vviews(words@) == all.subrange(0, i + 1).map_values(|w: Seq<char>| shell_word(w)),
            decreases self.args.len() - i,
        {
            let ghost before = vviews(words@);
            words.push(shell_quote(self.args[i].as_str()));
            i = i + 1;
            proof {
                assert(all[i as int] == self.args@[i - 1]@);
                assert(all.subrange(0, i + 1).map_values(|w: Seq<char>| shell_word(w))
                    =~= all.subrange(0, i as int).map_values(|w: Seq<char>| shell_word(w)).push(
                    shell_word(all[i as int]),
                ));
                assert(vviews(words@) =~= before.push(shell_word(all[i as int])));
            }
        }
        assert(all.subrange(0, self.args.len() + 1) =~= all);
        let j = join_chars(&words, " ");
        string_of(&j)
    }
}


/// `n` right-aligned in two columns.
pub open spec fn pad2(n: nat) -> Seq<char> {
    if n < 10 {
        " "@ + decimal(n)
    } else {
        decimal(n)
    }
}

/// The entry for the step at index `i` of a rendered plan.
pub open spec fn numbered_entry(i: int, title: Seq<char>, body: Seq<char>) -> Seq<char> {
    pad2((i + 1) as nat) + ". "@ + title + "\n    "@ + body
}

/// A command plan as shown to the user: one numbered entry per step.
pub open spec fn command_plan_text(steps: Seq<StepView>) -> Seq<char> {
    join(
        steps.map(|i: int, s: StepView| numbered_entry(i, s.description, command_text(s.program, s.args))),
        "\n"@,
    )
}

/// The entry for the step at index `i`.
pub fn numbered_line(i: usize, title: &str, body: &str) -> (r: Vec<char>)
    requires
        i < usize::MAX,
    ensures
        r@ == numbered_entry(i as int, title@, body@),
{
    let n = i + 1;
    let mut v: Vec<char> = Vec::new();
    if n < 10 {
        push_str(&mut v, " ");
    }
    push_decimal(&mut v, n as u64);
    push_str(&mut v, ". ");
    push_str(&mut v, title);
    push_str(&mut v, "\n    ");
    push_str(&mut v, body);
    v
}

/// Renders a list of command steps as a numbered plan.
pub fn render_command_plan(steps: &Vec<CommandStep>) -> (r: String)
    ensures
        r@ == command_plan_text(step_views(steps@)),
{
    let ghost sv = step_views(steps@);
    let mut lines: Vec<Vec<char>> = Vec::new();
    let mut i: usize = 0;
    while i < steps.len()
        invariant
            i <= steps.len(),
            sv == step_views(steps@),
            vviews(lines@) == sv.subrange(0, i as int).map(
                |k: int, s: StepView| numbered_entry(k, s.description, command_text(s.program, s.args)),
            ),
        decreases steps.len() - i,
    {
        let cl = steps[i].command_line();
        let line = numbered_line(i, steps[i].description.as_str(), cl.as_str());
        let ghost before = vviews(lines@);
        lines.push(line);
        i = i + 1;
        proof {
            let f = |k: int, s: StepView| numbered_entry(k, s.description, command_text(s.program, s.args));
            assert(sv[i - 1] == step_view(steps@[i - 1]));
            assert(sv.subrange(0, i as int).map(f) =~= sv.subrange(0, i - 1).map(f).push(
                f(i - 1, sv[i - 1]),
            ));
            assert(vviews(lines@) =~= before.push(f(i - 1, sv[i - 1])));
        }
    }
    assert(sv.subrange(0, steps.len() as int) =~= sv);
    let j = join_chars(&lines, "\n");
    string_of(&j)
}

} // verus!
