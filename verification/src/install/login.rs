//! How the installed system logs in on tty1.
use vstd::prelude::*;

use crate::capability::segments;
use crate::text::{
    chars_of, is_whitespace, is_ws, join, join_chars, lemma_trim_start_skip, matches_at, occurs_at,
    push_str, starts_with, string_of, trim_start, vviews,
};

verus! {

/// The tty1 entry of a graphical install: agetty hands the console to
/// `oxys-login`, which draws its own login screen.
pub const GRAPHICAL_TTY1: &'static str = "c1:12345:respawn:/sbin/agetty --noclear --skip-login --login-program /usr/local/bin/oxys-login 38400 tty1 linux";

/// The tty1 entry of a text install: a plain agetty login prompt.
pub const TEXT_TTY1: &'static str = "c1:12345:respawn:/sbin/agetty --noclear 38400 tty1 linux";

pub open spec fn tty1_entry(graphical: bool) -> Seq<char> {
    if graphical {
        GRAPHICAL_TTY1@
    } else {
        TEXT_TTY1@
    }
}

pub open spec fn strip_cr(l: Seq<char>) -> Seq<char> {
    if l.len() > 0 && l.last() == '\r' {
        l.drop_last()
    } else {
        l
    }
}

/// The lines of a text as `str::lines` yields them: split at each newline
/// (a carriage return before it dropped), no empty line after a final
/// newline.
pub open spec fn text_lines(s: Seq<char>) -> Seq<Seq<char>> {
    let segs = segments(s);
    let body = segs.drop_last().map_values(|l: Seq<char>| strip_cr(l));
    if segs.last().len() == 0 {
        body
    } else {
        body.push(segs.last())
    }
}

pub open spec fn is_tty1_line(l: Seq<char>) -> bool {
    starts_with(trim_start(l), "c1:"@)
}

/// `etc/inittab` with its tty1 (`c1:`) entries replaced by the install's
/// own, or that entry appended when there is none.
pub open spec fn inittab_text(existing: Seq<char>, graphical: bool) -> Seq<char> {
    let ls = text_lines(existing);
    let replaced = ls.map_values(|l: Seq<char>| if is_tty1_line(l) { tty1_entry(graphical) } else { l });
    let all = if exists|i: int| 0 <= i < ls.len() && is_tty1_line(#[trigger] ls[i]) {
        replaced
    } else {
        replaced.push(tty1_entry(graphical))
    };
    join(all, "\n"@) + "\n"@
}

fn is_tty1(l: &Vec<char>) -> (r: bool)
    ensures
        r == is_tty1_line(l@),
{
    let mut i: usize = 0;
    while i < l.len() && is_whitespace(l[i])
        invariant
            i <= l.len(),
            forall|k: int| 0 <= k < i ==> is_ws(l@[k]),
        decreases l.len() - i,
    {
        i = i + 1;
    }
    proof {
        lemma_trim_start_skip(l@, i as int);
    }
    let p = chars_of("c1:");
    let r = matches_at(l, &p, i);
    proof {
        let t = l@.subrange(i as int, l@.len() as int);
        if r {
            assert(t.subrange(0, p@.len() as int) =~= l@.subrange(i as int, i + p@.len()));
        }
        if starts_with(t, "c1:"@) {
            assert(t.subrange(0, p@.len() as int) =~= l@.subrange(i as int, i + p@.len()));
        }
    }
    r
}

/// The target's `etc/inittab` rewritten so tty1 offers the install's login:
/// `oxys-login` for a graphical install, a text prompt otherwise (the live
/// medium's root autologin is gone either way).
pub fn rewrite_inittab(existing: &str, graphical: bool) -> (r: String)
    ensures
        r@ == inittab_text(existing@, graphical),
{
    let segs = crate::preflight::split_segments(existing);
    let ghost sv = vviews(segs@);
    proof {
        crate::capability::lemma_segments_nonempty(existing@);
    }
    let entry = chars_of(if graphical { GRAPHICAL_TTY1 } else { TEXT_TTY1 });
    let n = segs.len();
    let last_empty = segs[n - 1].len() == 0;
    let count: usize = if last_empty { n - 1 } else { n };
    let ghost ls = text_lines(existing@);
    let ghost replaced = ls.map_values(|l: Seq<char>| if is_tty1_line(l) { tty1_entry(graphical) } else { l });
    assert(ls.len() == count);
    let mut lines: Vec<Vec<char>> = Vec::new();
    let mut found = false;
    let mut i: usize = 0;
    while i < count
        invariant
            i <= count,
            count <= segs.len(),
            n == segs.len(),
            sv == vviews(segs@),
            sv == segments(existing@),
            ls == text_lines(existing@),
            ls.len() == count,
            replaced == ls.map_values(|l: Seq<char>| if is_tty1_line(l) { tty1_entry(graphical) } else { l }),
            entry@ == tty1_entry(graphical),
            vviews(lines@) == replaced.subrange(0, i as int),
            found == exists|k: int| 0 <= k < i && is_tty1_line(#[trigger] ls[k]),
        decreases count - i,
    {
        let mut l: Vec<char> = segs[i].clone();
        assert(l@ == sv[i as int]);
        if i + 1 < n && l.len() > 0 && l[l.len() - 1] == '\r' {
            l.pop();
        }
        assert(l@ == ls[i as int]);
        let ghost before = vviews(lines@);
        let t = is_tty1(&l);
        if t {
            lines.push(entry.clone());
            found = true;
        } else {
            lines.push(l);
        }
        proof {
            assert(vviews(lines@) =~= before.push(replaced[i as int]));
            assert(replaced.subrange(0, i + 1) =~= replaced.subrange(0, i as int).push(replaced[i as int]));
            if t {
                assert(is_tty1_line(ls[i as int]));
            }
        }
        i = i + 1;
    }
    assert(replaced.subrange(0, count as int) =~= replaced);
    if !found {
        let ghost before = vviews(lines@);
        lines.push(entry);
        assert(vviews(lines@) =~= before.push(tty1_entry(graphical)));
    }
    let mut body = join_chars(&lines, "\n");
    push_str(&mut body, "\n");
    string_of(&body)
}

} // verus!
