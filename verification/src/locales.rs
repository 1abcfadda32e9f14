//! Locales checked against the catalogue glibc ships
//! (`/usr/share/i18n/SUPPORTED`).
use vstd::prelude::*;

use crate::detect::{line_of, line_start_at, line_text};
use crate::text::{chars_of, split_words, string_of, trim, trim_str, trimmed, vviews, words};

verus! {

/// The catalogue installed by sys-libs/glibc.
pub const SUPPORTED_LOCALES_PATH: &'static str = "/usr/share/i18n/SUPPORTED";

/// The characters a glibc locale identifier is made of.
pub open spec fn is_locale_char(c: char) -> bool {
    ('a' <= c && c <= 'z') || ('A' <= c && c <= 'Z') || ('0' <= c && c <= '9') || c == '_' || c
        == '-' || c == '.' || c == '@'
}

/// A locale name that may be compared against the catalogue: non-empty, at
/// most 64 characters, identifier characters only.
pub open spec fn is_locale_name(l: Seq<char>) -> bool {
    0 < l.len() <= 64 && forall|i: int| 0 <= i < l.len() ==> is_locale_char(#[trigger] l[i])
}

/// The catalogue line starting at `i` declares `locale`: it is not a
/// comment and its first word is the locale.
pub open spec fn entry_at(cat: Seq<char>, i: int, locale: Seq<char>) -> bool {
    line_start_at(cat, i) && {
        let t = trim(line_text(cat, i));
        !(t.len() > 0 && t[0] == '#') && words(t).len() > 0 && words(t)[0] == locale
    }
}

pub open spec fn first_entry_at(cat: Seq<char>, i: int, locale: Seq<char>) -> bool {
    entry_at(cat, i, locale) && forall|k: int| 0 <= k < i ==> !entry_at(cat, k, locale)
}

/// The `locale.gen` line for `locale` (trimmed) in the catalogue text: the
/// first entry declaring it, trimmed.
pub open spec fn supported_line(cat: Seq<char>, locale: Seq<char>) -> Option<Seq<char>> {
    let l = trim(locale);
    if !is_locale_name(l) {
        None
    } else if exists|i: int| first_entry_at(cat, i, l) {
        let i = choose|i: int| first_entry_at(cat, i, l);
        Some(trim(line_text(cat, i)))
    } else {
        None
    }
}

fn is_locale_name_exec(l: &Vec<char>) -> (r: bool)
    ensures
        r == is_locale_name(l@),
{
    if l.len() == 0 || l.len() > 64 {
        return false;
    }
    let mut i: usize = 0;
    while i < l.len()
        invariant
            i <= l.len(),
            forall|k: int| 0 <= k < i ==> is_locale_char(#[trigger] l@[k]),
        decreases l.len() - i,
    {
        let c = l[i];
        let ok = ('a' <= c && c <= 'z') || ('A' <= c && c <= 'Z') || ('0' <= c && c <= '9') || c
            == '_' || c == '-' || c == '.' || c == '@';
        if !ok {
            return false;
        }
        i = i + 1;
    }
    true
}

/// Whether the trimmed line declares `locale`.
fn declares(t: &Vec<char>, locale: &Vec<char>) -> (r: bool)
    ensures
        r == (!(t@.len() > 0 && t@[0] == '#') && words(t@).len() > 0 && words(t@)[0] == locale@),
{
    if t.len() > 0 && t[0] == '#' {
        return false;
    }
    let ws = split_words(t);
    if ws.len() == 0 {
        return false;
    }
    assert(vviews(ws@)[0] == ws@[0]@);
    crate::text::seq_eq(&ws[0], locale)
}

/// The canonical `locale.gen` line for `locale` in the catalogue text
/// `catalogue`, when the locale (trimmed) is a plain identifier that the
/// catalogue lists.
pub fn supported_locale_line(catalogue: &str, locale: &str) -> (r: Option<String>)
    ensures
        match r {
            Some(line) => supported_line(catalogue@, locale@) == Some(line@),
            None => supported_line(catalogue@, locale@) is None,
        },
{
    let l = trim_str(locale);
    if !is_locale_name_exec(&l) {
        return None;
    }
    let s = chars_of(catalogue);
    let mut i: usize = 0;
    while i < s.len()
        invariant
            i <= s.len(),
            s@ == catalogue@,
            l@ == trim(locale@),
            is_locale_name(l@),
            forall|k: int| 0 <= k < i ==> !entry_at(s@, k, l@),
        decreases s.len() - i,
    {
        if i == 0 || s[i - 1] == '\n' {
            let line = line_of(&s, i);
            let t = trimmed(&line);
            if declares(&t, &l) {
                proof {
                    assert(entry_at(s@, i as int, l@));
                    assert(first_entry_at(s@, i as int, l@));
                    let j = choose|j: int| first_entry_at(s@, j, l@);
                    if j < i {
                        assert(!entry_at(s@, j, l@));
                    } else if i < j {
                        assert(!entry_at(s@, i as int, l@));
                    }
                }
                return Some(string_of(&t));
            }
        }
        i = i + 1;
    }
    assert forall|k: int| !first_entry_at(s@, k, l@) by {
        if 0 <= k < s.len() {
            assert(!entry_at(s@, k, l@));
        }
    }
    None
}

} // verus!
