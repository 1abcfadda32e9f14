//! Editing a `.fe2o3` config source in place.
//!
//! The source is hand-written Rust with comments and builder chains, so a
//! package is added by a targeted textual insertion into its
//! `packages: vec![ … ]` block, which keeps the rest of the file as written.
use vstd::prelude::*;

use crate::text::{
    chars_of, is_whitespace, is_ws, matches_at, occurs_at, push_chars, push_str, slice,
    starts_with, string_of, trim, trim_start, trim_str,
};

verus! {

#[derive(Debug, Clone, PartialEq, Eq)]
pub enum ConfigSourceError {
    InvalidAtom(String),
    NoPackagesVec,
    UnterminatedVec,
}

pub open spec fn config_error_text(e: ConfigSourceError) -> Seq<char> {
    match e {
        ConfigSourceError::InvalidAtom(a) => "invalid package atom `"@ + a@ + "`"@,
        ConfigSourceError::NoPackagesVec => "could not find a `packages: vec![ … ]` block in the config source; add one before installing packages"@,
        ConfigSourceError::UnterminatedVec => "unterminated `packages: vec![` block in the config source"@,
    }
}

impl ConfigSourceError {
    /// The human-readable error message.
    pub fn message(&self) -> (r: String)
        ensures
            r@ == config_error_text(*self),
    {
        match self {
            ConfigSourceError::InvalidAtom(a) => {
                let mut v: Vec<char> = Vec::new();
                push_str(&mut v, "invalid package atom `");
                push_str(&mut v, a.as_str());
                push_str(&mut v, "`");
                string_of(&v)
            },
            ConfigSourceError::NoPackagesVec => "could not find a `packages: vec![ … ]` block in the config source; add one before installing packages".to_owned(),
            ConfigSourceError::UnterminatedVec => "unterminated `packages: vec![` block in the config source".to_owned(),
        }
    }
}

/// A failure as plain values.
pub enum SourceEditFailure {
    InvalidAtom(Seq<char>),
    NoPackagesVec,
    UnterminatedVec,
}

pub open spec fn failure_is(e: ConfigSourceError, f: SourceEditFailure) -> bool {
    match f {
        SourceEditFailure::InvalidAtom(a) => e is InvalidAtom && (e->InvalidAtom_0)@ == a,
        SourceEditFailure::NoPackagesVec => e is NoPackagesVec,
        SourceEditFailure::UnterminatedVec => e is UnterminatedVec,
    }
}

// ---------------------------------------------------------------------------
// Atoms.
// ---------------------------------------------------------------------------

/// `char::is_control`: the C0 and C1 control characters.
pub open spec fn is_control(c: char) -> bool {
    c <= '\u{1f}' || ('\u{7f}' <= c && c <= '\u{9f}')
}

/// A character that cannot stand inside the emitted string literal.
pub open spec fn breaks_literal(c: char) -> bool {
    is_ws(c) || c == '"' || c == '\\' || is_control(c)
}

/// Atoms are not validated as Portage syntax; only empty atoms,
/// de-selections (`-pkg`) and atoms that would break the string literal are
/// refused.
pub open spec fn atom_refused(a: Seq<char>) -> bool {
    a.len() == 0 || a[0] == '-' || exists|i: int| 0 <= i < a.len() && breaks_literal(#[trigger] a[i])
}

fn atom_is_refused(a: &Vec<char>) -> (r: bool)
    ensures
        r == atom_refused(a@),
{
    if a.len() == 0 || a[0] == '-' {
        return true;
    }
    let mut i: usize = 0;
    while i < a.len()
        invariant
            i <= a.len(),
            forall|k: int| 0 <= k < i ==> !breaks_literal(#[trigger] a@[k]),
        decreases a.len() - i,
    {
        let c = a[i];
        if is_whitespace(c) || c == '"' || c == '\\' || c <= '\u{1f}' || ('\u{7f}' <= c && c
            <= '\u{9f}') {
            assert(breaks_literal(a@[i as int]));
            return true;
        }
        i = i + 1;
    }
    false
}

// ---------------------------------------------------------------------------
// Locating the `packages: vec![ … ]` block.
// ---------------------------------------------------------------------------

/// `packages` at `i` followed, whitespace allowed, by `:` and `vec!`.
pub open spec fn keyword_at(s: Seq<char>, i: int) -> bool {
    occurs_at(s, "packages"@, i) && {
        let rest = trim_start(s.subrange(i + 8, s.len() as int));
        rest.len() > 0 && rest[0] == ':' && starts_with(trim_start(rest.drop_first()), "vec!"@)
    }
}

pub open spec fn first_keyword(s: Seq<char>, i: int) -> bool {
    keyword_at(s, i) && forall|k: int| 0 <= k < i ==> !keyword_at(s, k)
}

pub open spec fn first_open_after(s: Seq<char>, from: int, i: int) -> bool {
    from <= i < s.len() && s[i] == '[' && forall|k: int| from <= k < i ==> s[k] != '['
}

/// The lexical context of the bracket matcher.
pub enum Scan {
    Code,
    Str,
    Char,
    LineComment,
    BlockComment,
}

/// The position of the `]` closing the bracket structure being scanned from
/// `i` at nesting `depth`, skipping string and character literals and
/// comments; `None` when the text ends first.
pub open spec fn scan_close(s: Seq<char>, i: int, depth: int, st: Scan) -> Option<int>
    decreases s.len() + 1 - i,
{
    if i < 0 || i >= s.len() {
        None
    } else {
        let c = s[i];
        let next_is = |d: char| i + 1 < s.len() && s[i + 1] == d;
        match st {
            Scan::Code => if c == '"' {
                scan_close(s, i + 1, depth, Scan::Str)
            } else if c == '\'' {
                scan_close(s, i + 1, depth, Scan::Char)
            } else if c == '/' && next_is('/') {
                scan_close(s, i + 1, depth, Scan::LineComment)
            } else if c == '/' && next_is('*') {
                scan_close(s, i + 2, depth, Scan::BlockComment)
            } else if c == '[' {
                scan_close(s, i + 1, depth + 1, Scan::Code)
            } else if c == ']' {
                if depth - 1 == 0 {
                    Some(i)
                } else {
                    scan_close(s, i + 1, depth - 1, Scan::Code)
                }
            } else {
                scan_close(s, i + 1, depth, Scan::Code)
            },
            Scan::Str => if c == '\\' {
                scan_close(s, i + 2, depth, Scan::Str)
            } else if c == '"' {
                scan_close(s, i + 1, depth, Scan::Code)
            } else {
                scan_close(s, i + 1, depth, Scan::Str)
            },
            Scan::Char => if c == '\\' {
                scan_close(s, i + 2, depth, Scan::Char)
            } else if c == '\'' {
                scan_close(s, i + 1, depth, Scan::Code)
            } else {
                scan_close(s, i + 1, depth, Scan::Char)
            },
            Scan::LineComment => if c == '\n' {
                scan_close(s, i + 1, depth, Scan::Code)
            } else {
                scan_close(s, i + 1, depth, Scan::LineComment)
            },
            Scan::BlockComment => if c == '*' && next_is('/') {
                scan_close(s, i + 2, depth, Scan::Code)
            } else {
                scan_close(s, i + 1, depth, Scan::BlockComment)
            },
        }
    }
}

/// The start of the line holding position `idx`.
pub open spec fn line_start(s: Seq<char>, idx: int) -> int
    decreases idx,
{
    if idx <= 0 {
        0
    } else if s[idx - 1] == '\n' {
        idx
    } else {
        line_start(s, idx - 1)
    }
}

/// The spaces and tabs at the start of `s`.
pub open spec fn leading_indent(s: Seq<char>) -> Seq<char>
    decreases s.len(),
{
    if s.len() > 0 && (s[0] == ' ' || s[0] == '\t') {
        seq![s[0]] + leading_indent(s.drop_first())
    } else {
        Seq::empty()
    }
}

pub open spec fn line_indent(s: Seq<char>, idx: int) -> Seq<char> {
    leading_indent(s.subrange(line_start(s, idx), s.len() as int))
}

/// The source with `Package::new("<atom>")` added to its first
/// `packages: vec![ … ]` block; `None` when an entry for the atom is already
/// there.
pub open spec fn source_with_package(source: Seq<char>, atom: Seq<char>) -> Result<Option<Seq<char>>, SourceEditFailure> {
    let a = trim(atom);
    if atom_refused(a) {
        Err(SourceEditFailure::InvalidAtom(a))
    } else if crate::text::contains(source, "Package::new(\""@ + a + "\")"@) {
        Ok(None)
    } else if !exists|i: int| first_keyword(source, i) {
        Err(SourceEditFailure::NoPackagesVec)
    } else {
        let kw = choose|i: int| first_keyword(source, i);
        if !exists|i: int| first_open_after(source, kw, i) {
            Err(SourceEditFailure::NoPackagesVec)
        } else {
            let open = choose|i: int| first_open_after(source, kw, i);
            match scan_close(source, open, 0, Scan::Code) {
                None => Err(SourceEditFailure::UnterminatedVec),
                Some(close) => {
                    let base = line_indent(source, kw);
                    let entry = base + "    "@ + "Package::new(\""@ + a + "\"),"@;
                    let ls = line_start(source, close);
                    if trim(source.subrange(ls, close)).len() == 0 {
                        Ok(
                            Some(
                                source.subrange(0, ls) + entry + "\n"@ + source.subrange(
                                    ls,
                                    source.len() as int,
                                ),
                            ),
                        )
                    } else {
                        Ok(
                            Some(
                                source.subrange(0, close) + "\n"@ + entry + "\n"@ + base
                                    + source.subrange(close, source.len() as int),
                            ),
                        )
                    }
                },
            }
        }
    }
}

/// The first position at or after `from` holding a character other than
/// whitespace.
fn skip_ws(s: &Vec<char>, from: usize) -> (r: usize)
    requires
        from <= s.len(),
    ensures
        from <= r <= s.len(),
        trim_start(s@.subrange(from as int, s.len() as int)) == s@.subrange(r as int, s.len() as int),
{
    let mut i = from;
    while i < s.len() && is_whitespace(s[i])
        invariant
            from <= i <= s.len(),
            forall|k: int| from <= k < i ==> is_ws(#[trigger] s@[k]),
        decreases s.len() - i,
    {
        i = i + 1;
    }
    proof {
        let t = s@.subrange(from as int, s.len() as int);
        assert forall|k: int| 0 <= k < i - from implies is_ws(t[k]) by {
            assert(t[k] == s@[from + k]);
        }
        if i < s.len() {
            assert(t[i - from] == s@[i as int]);
        }
        crate::text::lemma_trim_start_skip(t, i - from);
        assert(t.subrange(i - from, t.len() as int) =~= s@.subrange(i as int, s.len() as int));
    }
    i
}

fn is_keyword_at(s: &Vec<char>, i: usize) -> (r: bool)
    ensures
        r == keyword_at(s@, i as int),
{
    let kw = chars_of("packages");
    proof {
        reveal_strlit("packages");
    }
    assert(kw@.len() == 8);
    if !matches_at(s, &kw, i) {
        return false;
    }
    let n = s.len();
    assert(i + 8 <= n);
    let j = skip_ws(s, i + 8);
    if j >= s.len() || s[j] != ':' {
        return false;
    }
    let k = skip_ws(s, j + 1);
    proof {
        let rest = s@.subrange(i + 8, s.len() as int);
        let rj = s@.subrange(j as int, s.len() as int);
        assert(rj.drop_first() =~= s@.subrange(j + 1, s.len() as int));
    }
    let v = chars_of("vec!");
    let r = matches_at(s, &v, k);
    proof {
        reveal_strlit("vec!");
        let tail = s@.subrange(k as int, s.len() as int);
        if r {
            assert(tail.subrange(0, 4) =~= s@.subrange(k as int, k + 4));
        } else if starts_with(tail, "vec!"@) {
            assert(tail.subrange(0, 4) =~= s@.subrange(k as int, k + 4));
        }
    }
    r
}

/// Position of the first `packages: vec!` keyword.
fn find_keyword(s: &Vec<char>) -> (r: Option<usize>)
    ensures
        match r {
            Some(k) => first_keyword(s@, k as int),
            None => !exists|i: int| first_keyword(s@, i),
        },
{
    let mut i: usize = 0;
    while i < s.len()
        invariant
            i <= s.len(),
            forall|k: int| 0 <= k < i ==> !keyword_at(s@, k),
        decreases s.len() - i,
    {
        if is_keyword_at(s, i) {
            return Some(i);
        }
        i = i + 1;
    }
    proof {
        reveal_strlit("packages");
        assert forall|k: int| !first_keyword(s@, k) by {
            if 0 <= k < s.len() {
                assert(!keyword_at(s@, k));
            }
        }
    }
    None
}

/// Position of the first `[` at or after `from`.
fn find_open(s: &Vec<char>, from: usize) -> (r: Option<usize>)
    ensures
        match r {
            Some(o) => first_open_after(s@, from as int, o as int),
            None => !exists|i: int| first_open_after(s@, from as int, i),
        },
{
    let mut j = from;
    while j < s.len()
        invariant
            from <= j,
            forall|k: int| from <= k < j && k < s.len() ==> s@[k] != '[',
        decreases s.len() - j,
    {
        if s[j] == '[' {
            return Some(j);
        }
        j = j + 1;
    }
    None
}

proof fn lemma_scan_in_range(s: Seq<char>, i: int, depth: int, st: Scan)
    ensures
        match scan_close(s, i, depth, st) {
            Some(c) => i <= c < s.len() && s[c] == ']',
            None => true,
        },
    decreases s.len() + 1 - i,
{
    if 0 <= i < s.len() {
        lemma_scan_in_range(s, i + 1, depth, Scan::Code);
        lemma_scan_in_range(s, i + 1, depth, Scan::Str);
        lemma_scan_in_range(s, i + 1, depth, Scan::Char);
        lemma_scan_in_range(s, i + 1, depth, Scan::LineComment);
        lemma_scan_in_range(s, i + 1, depth, Scan::BlockComment);
        lemma_scan_in_range(s, i + 2, depth, Scan::Code);
        lemma_scan_in_range(s, i + 2, depth, Scan::Str);
        lemma_scan_in_range(s, i + 2, depth, Scan::Char);
        lemma_scan_in_range(s, i + 2, depth, Scan::BlockComment);
        lemma_scan_in_range(s, i + 1, depth + 1, Scan::Code);
        lemma_scan_in_range(s, i + 1, depth - 1, Scan::Code);
    }
}

proof fn lemma_line_start_bounds(s: Seq<char>, idx: int)
    ensures
        idx >= 0 ==> 0 <= line_start(s, idx) <= idx,
    decreases idx,
{
    if idx > 0 && s[idx - 1] != '\n' {
        lemma_line_start_bounds(s, idx - 1);
    }
}

/// Adding a package entry that was just added is a no-op: once
/// `Package::new("<atom>")` has been inserted, asking again reports the atom
/// as already present and leaves the source alone.
pub proof fn lemma_add_package_is_idempotent(source: Seq<char>, atom: Seq<char>)
    requires
        source_with_package(source, atom) matches Ok(Some(_)),
    ensures
        source_with_package(source_with_package(source, atom)->Ok_0->Some_0, atom)
            == Ok::<Option<Seq<char>>, SourceEditFailure>(None),
{
    let a = trim(atom);
    let needle = "Package::new(\""@ + a + "\")"@;
    let out = source_with_package(source, atom)->Ok_0->Some_0;
    let kw = choose|i: int| first_keyword(source, i);
    let open = choose|i: int| first_open_after(source, kw, i);
    let close = scan_close(source, open, 0, Scan::Code)->Some_0;
    lemma_scan_in_range(source, open, 0, Scan::Code);
    lemma_line_start_bounds(source, close);
    let base = line_indent(source, kw);
    let entry = base + "    "@ + needle + ","@;
    assert(entry =~= base + "    "@ + "Package::new(\""@ + a + "\"),"@) by {
        reveal_strlit("\")");
        reveal_strlit("\"),");
        reveal_strlit(",");
    }
    let ls = line_start(source, close);
    assert("    "@.len() == 4) by {
        reveal_strlit("    ");
    }
    assert("\n"@.len() == 1) by {
        reveal_strlit("\n");
    }
    if trim(source.subrange(ls, close)).len() == 0 {
        let pre = source.subrange(0, ls);
        assert(out == pre + entry + "\n"@ + source.subrange(ls, source.len() as int));
        let at: int = (pre.len() + base.len() + 4) as int;
        assert(out.subrange(at, at + needle.len()) =~= needle);
        assert(crate::text::occurs_at(out, needle, at));
    } else {
        let pre = source.subrange(0, close) + "\n"@;
        assert(out == pre + entry + "\n"@ + base + source.subrange(close, source.len() as int));
        let at: int = (pre.len() + base.len() + 4) as int;
        assert(out.subrange(at, at + needle.len()) =~= needle);
        assert(crate::text::occurs_at(out, needle, at));
    }
}

/// The entry written for `atom`, with its trailing comma.
pub open spec fn package_entry(atom: Seq<char>) -> Seq<char> {
    "Package::new(\""@ + trim(atom) + "\"),"@
}

/// Adding a package keeps the source whole: the result is the source with
/// one stretch of text put in at position `r.0`, and that stretch holds the
/// new entry, at `r.1`. The stretch goes in at the start of a line or just
/// before a closing bracket.
pub proof fn lemma_add_package_keeps_source(source: Seq<char>, atom: Seq<char>) -> (r: (int, int))
    requires
        source_with_package(source, atom) matches Ok(Some(_)),
    ensures
        ({
            let out = source_with_package(source, atom)->Ok_0->Some_0;
            let (p, at) = r;
            let extra = out.len() - source.len();
            &&& 0 <= p <= source.len()
            &&& extra >= 0
            &&& out.subrange(0, p) == source.subrange(0, p)
            &&& out.subrange(p + extra, out.len() as int) == source.subrange(p, source.len() as int)
            &&& p <= at && at + package_entry(atom).len() <= p + extra
            &&& occurs_at(out, package_entry(atom), at)
            &&& (p == 0 || source[p - 1] == '\n' || (p < source.len() && source[p] == ']'))
        }),
{
    let a = trim(atom);
    let out = source_with_package(source, atom)->Ok_0->Some_0;
    let kw = choose|i: int| first_keyword(source, i);
    let open = choose|i: int| first_open_after(source, kw, i);
    let close = scan_close(source, open, 0, Scan::Code)->Some_0;
    lemma_scan_in_range(source, open, 0, Scan::Code);
    lemma_line_start_bounds(source, close);
    lemma_line_start_is_line_start(source, close);
    let base = line_indent(source, kw);
    let entry = base + "    "@ + "Package::new(\""@ + a + "\"),"@;
    assert("    "@.len() == 4) by {
        reveal_strlit("    ");
    }
    assert("\n"@.len() == 1) by {
        reveal_strlit("\n");
    }
    let ls = line_start(source, close);
    if trim(source.subrange(ls, close)).len() == 0 {
        let ins = entry + "\n"@;
        assert(out =~= source.subrange(0, ls) + ins + source.subrange(ls, source.len() as int));
        let at: int = ls + base.len() + 4;
        assert(out.subrange(at, at + package_entry(atom).len()) =~= package_entry(atom));
        assert(out.subrange(0, ls) =~= source.subrange(0, ls));
        assert(out.subrange(ls + ins.len(), out.len() as int) =~= source.subrange(ls, source.len() as int));
        (ls, at)
    } else {
        let ins = "\n"@ + entry + "\n"@ + base;
        assert(out =~= source.subrange(0, close) + ins + source.subrange(close, source.len() as int));
        let at: int = close + 1 + base.len() + 4;
        assert(out.subrange(at, at + package_entry(atom).len()) =~= package_entry(atom));
        assert(out.subrange(0, close) =~= source.subrange(0, close));
        assert(out.subrange(close + ins.len(), out.len() as int) =~= source.subrange(
            close,
            source.len() as int,
        ));
        (close, at)
    }
}

proof fn lemma_line_start_is_line_start(s: Seq<char>, idx: int)
    requires
        0 <= idx <= s.len(),
    ensures
        line_start(s, idx) == 0 || s[line_start(s, idx) - 1] == '\n',
    decreases idx,
{
    if idx > 0 && s[idx - 1] != '\n' {
        lemma_line_start_is_line_start(s, idx - 1);
    }
}

/// Two insertions accumulate: after adding `a` and then `b` to a source,
/// the entries for both are there. This is shown for an atom `a` without a
/// closing bracket `]`.
pub proof fn lemma_second_insert_keeps_first(source: Seq<char>, a: Seq<char>, b: Seq<char>)
    requires
        source_with_package(source, a) matches Ok(Some(_)),
        source_with_package(source_with_package(source, a)->Ok_0->Some_0, b) matches Ok(Some(_)),
        !trim(a).contains(']'),
    ensures
        ({
            let s1 = source_with_package(source, a)->Ok_0->Some_0;
            let s2 = source_with_package(s1, b)->Ok_0->Some_0;
            crate::text::contains(s2, package_entry(a)) && crate::text::contains(s2, package_entry(b))
        }),
{
    let s1 = source_with_package(source, a)->Ok_0->Some_0;
    let s2 = source_with_package(s1, b)->Ok_0->Some_0;
    let (p1, at1) = lemma_add_package_keeps_source(source, a);
    let (p2, at2) = lemma_add_package_keeps_source(s1, b);
    let ea = package_entry(a);
    let ta = trim(a);
    let extra = s2.len() - s1.len();
    assert(ea =~= "Package::new(\""@ + ta + "\"),"@);
    reveal_strlit("Package::new(\"");
    reveal_strlit("\"),");
    assert(!atom_refused(ta));
    assert forall|j: int| 0 <= j < ea.len() implies ea[j] != '\n' && ea[j] != ']' by {
        if 14 <= j < 14 + ta.len() {
            assert(ea[j] == ta[j - 14]);
            assert(!breaks_literal(ta[j - 14]));
            assert(ta.contains(ta[j - 14]));
        }
    }
    if at1 + ea.len() <= p2 {
        assert(s2.subrange(at1, at1 + ea.len()) =~= s2.subrange(0, p2).subrange(at1, at1 + ea.len()));
        assert(s1.subrange(at1, at1 + ea.len()) =~= s1.subrange(0, p2).subrange(at1, at1 + ea.len()));
        assert(crate::text::occurs_at(s2, ea, at1));
    } else if at1 >= p2 {
        let q = at1 + extra;
        assert(s2.subrange(q, q + ea.len()) =~= s2.subrange(p2 + extra, s2.len() as int).subrange(
            at1 - p2,
            at1 - p2 + ea.len(),
        ));
        assert(s1.subrange(at1, at1 + ea.len()) =~= s1.subrange(p2, s1.len() as int).subrange(
            at1 - p2,
            at1 - p2 + ea.len(),
        ));
        assert(crate::text::occurs_at(s2, ea, q));
    } else {
        if p2 > 0 && s1[p2 - 1] == '\n' {
            assert(s1[p2 - 1] == s1.subrange(at1, at1 + ea.len())[p2 - 1 - at1]);
            assert(false);
        } else {
            assert(s1[p2] == s1.subrange(at1, at1 + ea.len())[p2 - at1]);
            assert(false);
        }
    }
    assert(crate::text::occurs_at(s2, package_entry(b), at2));
}

fn matching_bracket(s: &Vec<char>, open: usize) -> (r: Option<usize>)
    requires
        open < s.len(),
        s.len() <= isize::MAX,
    ensures
        r == match scan_close(s@, open as int, 0, Scan::Code) {
            Some(c) => Some(c as usize),
            None => None::<usize>,
        },
        match r {
            Some(c) => c < s.len(),
            None => true,
        },
{
    let mut depth: i64 = 0;
    let mut i: usize = open;
    let mut st = Scan::Code;
    while i < s.len()
        invariant
            open <= i <= s.len() + 1,
            s.len() <= isize::MAX,
            -(i as int) <= depth <= i as int,
            scan_close(s@, open as int, 0, Scan::Code) == scan_close(s@, i as int, depth as int, st),
        decreases s.len() + 1 - i,
    {
        proof {
            lemma_scan_in_range(s@, i as int, depth as int, st);
        }
        let c = s[i];
        let next = if i + 1 < s.len() {
            Some(s[i + 1])
        } else {
            None
        };
        match st {
            Scan::Code => {
                if c == '"' {
                    st = Scan::Str;
                } else if c == '\'' {
                    st = Scan::Char;
                } else if c == '/' && next == Some('/') {
                    st = Scan::LineComment;
                } else if c == '/' && next == Some('*') {
                    st = Scan::BlockComment;
                    i = i + 1;
                } else if c == '[' {
                    depth = depth + 1;
                } else if c == ']' {
                    depth = depth - 1;
                    if depth == 0 {
                        return Some(i);
                    }
                }
            },
            Scan::Str => {
                if c == '\\' {
                    i = i + 1;
                } else if c == '"' {
                    st = Scan::Code;
                }
            },
            Scan::Char => {
                if c == '\\' {
                    i = i + 1;
                } else if c == '\'' {
                    st = Scan::Code;
                }
            },
            Scan::LineComment => {
                if c == '\n' {
                    st = Scan::Code;
                }
            },
            Scan::BlockComment => {
                if c == '*' && next == Some('/') {
                    st = Scan::Code;
                    i = i + 1;
                }
            },
        }
        i = i + 1;
    }
    None
}

fn find_line_start(s: &Vec<char>, idx: usize) -> (r: usize)
    requires
        idx <= s.len(),
    ensures
        r == line_start(s@, idx as int),
        r <= idx,
{
    let mut i = idx;
    while i > 0 && s[i - 1] != '\n'
        invariant
            i <= idx <= s.len(),
            line_start(s@, idx as int) == line_start(s@, i as int),
        decreases i,
    {
        i = i - 1;
    }
    i
}

fn indent_at(s: &Vec<char>, idx: usize) -> (r: Vec<char>)
    requires
        idx <= s.len(),
    ensures
        r@ == line_indent(s@, idx as int),
{
    let start = find_line_start(s, idx);
    let mut j = start;
    while j < s.len() && (s[j] == ' ' || s[j] == '\t')
        invariant
            start <= j <= s.len(),
            leading_indent(s@.subrange(start as int, s.len() as int)) == s@.subrange(start as int, j as int)
                + leading_indent(s@.subrange(j as int, s.len() as int)),
        decreases s.len() - j,
    {
        let ghost rest = s@.subrange(j as int, s.len() as int);
        assert(rest.drop_first() =~= s@.subrange(j + 1, s.len() as int));
        assert(s@.subrange(start as int, j + 1) =~= s@.subrange(start as int, j as int) + seq![s@[j as int]]);
        j = j + 1;
    }
    proof {
        let rest = s@.subrange(j as int, s.len() as int);
        if j < s.len() {
            assert(rest[0] == s@[j as int]);
        }
        assert(leading_indent(rest) =~= Seq::<char>::empty());
        assert(s@.subrange(start as int, j as int) + Seq::<char>::empty() =~= s@.subrange(start as int, j as int));
    }
    slice(s, start, j)
}

/// Inserts `Package::new("<atom>")` into the first `packages: vec![ … ]`
/// block of a `.fe2o3` source: `Ok(Some(new_source))` when inserted,
/// `Ok(None)` when the atom is already present, or the reason it cannot be.
pub fn add_package_to_source(source: &str, atom: &str) -> (r: Result<Option<String>, ConfigSourceError>)
    ensures
        match source_with_package(source@, atom@) {
            Ok(Some(t)) => r matches Ok(Some(out)) && out@ == t,
            Ok(None) => r matches Ok(None),
            Err(f) => r is Err && failure_is(r->Err_0, f),
        },
{
    let a = trim_str(atom);
    if atom_is_refused(&a) {
        return Err(ConfigSourceError::InvalidAtom(string_of(&a)));
    }
    let s = chars_of(source);
    let mut needle: Vec<char> = Vec::new();
    push_str(&mut needle, "Package::new(\"");
    push_chars(&mut needle, &a);
    push_str(&mut needle, "\")");
    if crate::text::contains_chars(&s, &needle) {
        return Ok(None);
    }
    let kw = match find_keyword(&s) {
        Some(k) => k,
        None => return Err(ConfigSourceError::NoPackagesVec),
    };
    proof {
        let c = choose|k: int| first_keyword(s@, k);
        assert(first_keyword(s@, kw as int));
        if c < kw {
            assert(!keyword_at(s@, c));
        } else if kw < c {
            assert(!keyword_at(s@, kw as int));
        }
    }
    let open = match find_open(&s, kw) {
        Some(o) => o,
        None => return Err(ConfigSourceError::NoPackagesVec),
    };
    proof {
        let c = choose|k: int| first_keyword(s@, k);
        assert(first_keyword(s@, kw as int));
        if c < kw {
            assert(!keyword_at(s@, c));
        } else if kw < c {
            assert(!keyword_at(s@, kw as int));
        }
        let o = choose|k: int| first_open_after(s@, kw as int, k);
        assert(first_open_after(s@, kw as int, open as int));
        if o < open {
            assert(s@[o] != '[');
        } else if open < o {
            assert(s@[open as int] != '[');
        }
    }
    proof {
        lemma_scan_in_range(s@, open as int, 0, Scan::Code);
    }
    let close = match matching_bracket(&s, open) {
        Some(c) => c,
        None => return Err(ConfigSourceError::UnterminatedVec),
    };
    assert(scan_close(s@, open as int, 0, Scan::Code) == Some(close as int));
    let base = indent_at(&s, kw);
    let mut entry: Vec<char> = Vec::new();
    push_chars(&mut entry, &base);
    push_str(&mut entry, "    ");
    push_str(&mut entry, "Package::new(\"");
    push_chars(&mut entry, &a);
    push_str(&mut entry, "\"),");
    let ls = find_line_start(&s, close);
    let lead = slice(&s, ls, close);
    let lead_trimmed = crate::text::trimmed(&lead);
    let mut out: Vec<char> = Vec::new();
    if lead_trimmed.len() == 0 {
        let head = slice(&s, 0, ls);
        let tail = slice(&s, ls, s.len());
        push_chars(&mut out, &head);
        push_chars(&mut out, &entry);
        push_str(&mut out, "\n");
        push_chars(&mut out, &tail);
        assert(out@ =~= s@.subrange(0, ls as int) + entry@ + "\n"@ + s@.subrange(ls as int, s.len() as int));
    } else {
        let head = slice(&s, 0, close);
        let tail = slice(&s, close, s.len());
        push_chars(&mut out, &head);
        push_str(&mut out, "\n");
        push_chars(&mut out, &entry);
        push_str(&mut out, "\n");
        push_chars(&mut out, &base);
        push_chars(&mut out, &tail);
        assert(out@ =~= s@.subrange(0, close as int) + "\n"@ + entry@ + "\n"@ + base@ + s@.subrange(
            close as int,
            s.len() as int,
        ));
    }
    assert(entry@ =~= line_indent(s@, kw as int) + "    "@ + "Package::new(\""@ + a@ + "\"),"@);
    Ok(Some(string_of(&out)))
}

} // verus!
