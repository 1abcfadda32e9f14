//! Package-name validation against an index of the Portage tree.
//!
//! Every declared atom is looked up in an index of `category/name` pairs; for
//! an unknown atom, close known atoms are offered as "did you mean"
//! suggestions. Reading the tree into an index is left to the caller.
use vstd::prelude::*;

use crate::manifest::{Package, SystemManifest};
use crate::text::{chars_of, is_digit, join, push_chars, push_str, seq_eq, slice, string_of, sviews, vviews};

verus! {

// ---------------------------------------------------------------------------
// Edit distance.
// ---------------------------------------------------------------------------

pub open spec fn min3(a: nat, b: nat, c: nat) -> nat {
    let m = if a <= b {
        a
    } else {
        b
    };
    if m <= c {
        m
    } else {
        c
    }
}

/// The Levenshtein edit distance: insertions, deletions and substitutions
/// of single characters.
pub open spec fn lev(a: Seq<char>, b: Seq<char>) -> nat
    decreases a.len() + b.len(),
{
    if a.len() == 0 {
        b.len()
    } else if b.len() == 0 {
        a.len()
    } else {
        min3(
            lev(a.drop_last(), b.drop_last()) + if a.last() == b.last() {
                0nat
            } else {
                1nat
            },
            lev(a.drop_last(), b) + 1,
            lev(a, b.drop_last()) + 1,
        )
    }
}

proof fn lemma_lev_bound(a: Seq<char>, b: Seq<char>)
    ensures
        lev(a, b) <= if a.len() >= b.len() {
            a.len()
        } else {
            b.len()
        },
    decreases a.len() + b.len(),
{
    if a.len() > 0 && b.len() > 0 {
        lemma_lev_bound(a.drop_last(), b.drop_last());
    }
}

/// The edit distance between two strings.
pub fn levenshtein(a: &str, b: &str) -> (r: usize)
    ensures
        r == lev(a@, b@),
{
    let av = chars_of(a);
    let bv = chars_of(b);
    if av.len() == 0 {
        return bv.len();
    }
    if bv.len() == 0 {
        return av.len();
    }
    let m = bv.len();
    let mut prev: Vec<usize> = Vec::new();
    let mut j: usize = 0;
    while j <= m
        invariant
            j <= m + 1,
            m == bv.len(),
            m <= isize::MAX,
            prev.len() == j,
            forall|k: int| 0 <= k < j ==> #[trigger] prev@[k] == lev(Seq::<char>::empty(), bv@.subrange(0, k)),
        decreases m + 1 - j,
    {
        prev.push(j);
        j = j + 1;
    }
    let mut i: usize = 0;
    while i < av.len()
        invariant
            i <= av.len(),
            av@ == a@,
            bv@ == b@,
            m == bv.len(),
            m > 0,
            av.len() <= isize::MAX,
            m <= isize::MAX,
            prev.len() == m + 1,
            forall|k: int| 0 <= k <= m ==> #[trigger] prev@[k] == lev(av@.subrange(0, i as int), bv@.subrange(0, k)),
        decreases av.len() - i,
    {
        let ghost ai = av@.subrange(0, i as int);
        let ghost ai1 = av@.subrange(0, i + 1);
        proof {
            assert(ai1.drop_last() =~= ai);
            assert(bv@.subrange(0, 0) =~= Seq::<char>::empty());
        }
        let mut cur: Vec<usize> = Vec::new();
        cur.push(i + 1);
        let mut k: usize = 0;
        while k < m
            invariant
                k <= m,
                i < av.len(),
                av.len() <= isize::MAX,
                m <= isize::MAX,
                m == bv.len(),
                av@ == a@,
                bv@ == b@,
                ai == av@.subrange(0, i as int),
                ai1 == av@.subrange(0, i + 1),
                ai1.drop_last() == ai,
                prev.len() == m + 1,
                forall|q: int| 0 <= q <= m ==> #[trigger] prev@[q] == lev(ai, bv@.subrange(0, q)),
                cur.len() == k + 1,
                forall|q: int| 0 <= q <= k ==> #[trigger] cur@[q] == lev(ai1, bv@.subrange(0, q)),
            decreases m - k,
        {
            let ghost bk1 = bv@.subrange(0, k + 1);
            proof {
                assert(bk1.drop_last() =~= bv@.subrange(0, k as int));
                assert(bk1.last() == bv@[k as int]);
                assert(ai1.last() == av@[i as int]);
                lemma_lev_bound(ai, bv@.subrange(0, k as int));
                lemma_lev_bound(ai, bk1);
                lemma_lev_bound(ai1, bv@.subrange(0, k as int));
            }
            let sub = prev[k] + if av[i] == bv[k] {
                0
            } else {
                1
            };
            let del = prev[k + 1] + 1;
            let ins = cur[k] + 1;
            let best1 = if sub <= del {
                sub
            } else {
                del
            };
            let best = if best1 <= ins {
                best1
            } else {
                ins
            };
            cur.push(best);
            k = k + 1;
        }
        prev = cur;
        i = i + 1;
    }
    assert(av@.subrange(0, av.len() as int) =~= av@);
    assert(bv@.subrange(0, m as int) =~= bv@);
    prev[m]
}

// ---------------------------------------------------------------------------
// Atoms.
// ---------------------------------------------------------------------------

pub open spec fn is_operator(c: char) -> bool {
    c == '<' || c == '>' || c == '=' || c == '~' || c == '!'
}

pub open spec fn strip_operators(s: Seq<char>) -> Seq<char>
    decreases s.len(),
{
    if s.len() > 0 && is_operator(s[0]) {
        strip_operators(s.drop_first())
    } else {
        s
    }
}

/// `s` up to its first occurrence of a character satisfying `stop`.
pub open spec fn before_first(s: Seq<char>, c1: char, c2: char) -> Seq<char>
    decreases s.len(),
{
    if s.len() == 0 {
        s
    } else if s[0] == c1 || s[0] == c2 {
        Seq::empty()
    } else {
        seq![s[0]] + before_first(s.drop_first(), c1, c2)
    }
}

/// `'-'` at `i` starts a version: it is followed by a digit.
pub open spec fn version_dash_at(s: Seq<char>, i: int) -> bool {
    0 <= i && i + 1 < s.len() && s[i] == '-' && is_digit(s[i + 1])
}

/// A package name without its version: everything before the first `-`
/// that is followed by a digit.
pub open spec fn strip_version(name: Seq<char>) -> Seq<char> {
    if exists|i: int| version_dash_at(name, i) {
        name.subrange(
            0,
            choose|i: int|
                version_dash_at(name, i) && forall|k: int| 0 <= k < i ==> !version_dash_at(name, k),
        )
    } else {
        name
    }
}

/// The first `/` of `s` is at `i`.
pub open spec fn first_slash(s: Seq<char>, i: int) -> bool {
    crate::text::first_index_of(s, '/', i)
}

/// The `(category, name)` an atom names, tolerating version operators,
/// slots and USE decorations; `None` when it has no `category/name` shape.
pub open spec fn atom_parts(atom: Seq<char>) -> Option<(Seq<char>, Seq<char>)> {
    let had_operator = atom.len() > 0 && is_operator(atom[0]);
    let core = before_first(strip_operators(atom), '[', ':');
    if !exists|i: int| first_slash(core, i) {
        None
    } else {
        let i = choose|i: int| first_slash(core, i);
        let category = core.subrange(0, i);
        let raw_name = core.subrange(i + 1, core.len() as int);
        let name = if had_operator {
            strip_version(raw_name)
        } else {
            raw_name
        };
        if category.len() == 0 || name.len() == 0 {
            None
        } else {
            Some((category, name))
        }
    }
}

/// `name` without a trailing version.
pub fn strip_version_suffix(name: &Vec<char>) -> (r: Vec<char>)
    ensures
        r@ == strip_version(name@),
{
    let mut i: usize = 0;
    while name.len() > 0 && i < name.len() - 1
        invariant
            i <= name.len(),
            forall|k: int| 0 <= k < i ==> !version_dash_at(name@, k),
        decreases name.len() - i,
    {
        if name[i] == '-' && crate::text::is_ascii_digit(name[i + 1]) {
            proof {
                assert(version_dash_at(name@, i as int));
                let j = choose|j: int|
                    version_dash_at(name@, j) && forall|k: int| 0 <= k < j ==> !version_dash_at(name@, k);
                if j < i {
                    assert(!version_dash_at(name@, j));
                } else if i < j {
                    assert(!version_dash_at(name@, i as int));
                }
            }
            return slice(name, 0, i);
        }
        i = i + 1;
    }
    assert forall|k: int| !version_dash_at(name@, k) by {
        if version_dash_at(name@, k) {
            assert(k < i);
        }
    }
    slice(name, 0, name.len())
}

/// Reduces an atom to its `(category, name)` pair.
#[verifier::rlimit(40)]
pub fn normalize_atom(atom: &str) -> (r: Option<(String, String)>)
    ensures
        match r {
            Some(p) => atom_parts(atom@) == Some((p.0@, p.1@)),
            None => atom_parts(atom@) is None,
        },
{
    let v = chars_of(atom);
    let had_operator = v.len() > 0 && (v[0] == '<' || v[0] == '>' || v[0] == '=' || v[0] == '~' || v[0] == '!');
    let mut s: usize = 0;
    assert(v@.subrange(0, v.len() as int) =~= v@);
    while s < v.len() && (v[s] == '<' || v[s] == '>' || v[s] == '=' || v[s] == '~' || v[s] == '!')
        invariant
            s <= v.len(),
            strip_operators(v@) == strip_operators(v@.subrange(s as int, v.len() as int)),
        decreases v.len() - s,
    {
        let ghost rest = v@.subrange(s as int, v.len() as int);
        assert(rest.drop_first() =~= v@.subrange(s + 1, v.len() as int));
        s = s + 1;
    }
    let ghost stripped = v@.subrange(s as int, v.len() as int);
    assert(strip_operators(v@) == stripped);
    let mut e: usize = s;
    while e < v.len() && v[e] != '[' && v[e] != ':'
        invariant
            s <= e <= v.len(),
            before_first(stripped, '[', ':') == v@.subrange(s as int, e as int) + before_first(
                v@.subrange(e as int, v.len() as int),
                '[',
                ':',
            ),
        decreases v.len() - e,
    {
        let ghost rest = v@.subrange(e as int, v.len() as int);
        assert(rest.drop_first() =~= v@.subrange(e + 1, v.len() as int));
        assert(v@.subrange(s as int, e + 1) =~= v@.subrange(s as int, e as int) + seq![v@[e as int]]);
        e = e + 1;
    }
    proof {
        let rest = v@.subrange(e as int, v.len() as int);
        if e < v.len() {
            assert(rest[0] == v@[e as int]);
        }
        assert(before_first(rest, '[', ':') =~= Seq::<char>::empty());
        assert(v@.subrange(s as int, e as int) + Seq::<char>::empty() =~= v@.subrange(s as int, e as int));
    }
    let core = slice(&v, s, e);
    let slash = match crate::text::find_char(&core, '/') {
        Some(i) => i,
        None => return None,
    };
    proof {
        assert(first_slash(core@, slash as int));
        let j = choose|j: int| first_slash(core@, j);
        assert(first_slash(core@, j));
        if j < slash {
            assert(core@[j] == '/');
        } else if slash < j {
            assert(core@[slash as int] == '/');
        }
    }
    let category = slice(&core, 0, slash);
    let raw_name = slice(&core, slash + 1, core.len());
    let name = if had_operator {
        strip_version_suffix(&raw_name)
    } else {
        raw_name
    };
    if category.len() == 0 || name.len() == 0 {
        return None;
    }
    Some((string_of(&category), string_of(&name)))
}

// ---------------------------------------------------------------------------
// The index.
// ---------------------------------------------------------------------------

/// `a` sorts strictly before `b`, character by character.
pub open spec fn seq_lt(a: Seq<char>, b: Seq<char>) -> bool
    decreases a.len(),
{
    if a.len() == 0 {
        b.len() > 0
    } else if b.len() == 0 {
        false
    } else if a[0] != b[0] {
        (a[0] as int) < (b[0] as int)
    } else {
        seq_lt(a.drop_first(), b.drop_first())
    }
}

pub fn lex_lt(a: &Vec<char>, b: &Vec<char>) -> (r: bool)
    ensures
        r == seq_lt(a@, b@),
{
    let mut i: usize = 0;
    assert(a@.subrange(0, a.len() as int) =~= a@);
    assert(b@.subrange(0, b.len() as int) =~= b@);
    while i < a.len() && i < b.len() && a[i] == b[i]
        invariant
            i <= a.len(),
            i <= b.len(),
            seq_lt(a@, b@) == seq_lt(a@.subrange(i as int, a.len() as int), b@.subrange(i as int, b.len() as int)),
        decreases a.len() - i,
    {
        let ghost ra = a@.subrange(i as int, a.len() as int);
        let ghost rb = b@.subrange(i as int, b.len() as int);
        assert(ra.drop_first() =~= a@.subrange(i + 1, a.len() as int));
        assert(rb.drop_first() =~= b@.subrange(i + 1, b.len() as int));
        i = i + 1;
    }
    proof {
        assert(a@.subrange(0, a.len() as int) =~= a@);
        assert(b@.subrange(0, b.len() as int) =~= b@);
    }
    if i == a.len() {
        i < b.len()
    } else if i == b.len() {
        false
    } else {
        a[i] < b[i]
    }
}

pub proof fn lemma_seq_lt_irrefl(a: Seq<char>)
    ensures
        !seq_lt(a, a),
    decreases a.len(),
{
    if a.len() > 0 {
        lemma_seq_lt_irrefl(a.drop_first());
    }
}

pub proof fn lemma_seq_lt_trans(a: Seq<char>, b: Seq<char>, c: Seq<char>)
    requires
        seq_lt(a, b),
        seq_lt(b, c),
    ensures
        seq_lt(a, c),
    decreases a.len(),
{
    if a.len() > 0 && b.len() > 0 && c.len() > 0 && a[0] == b[0] && b[0] == c[0] {
        lemma_seq_lt_trans(a.drop_first(), b.drop_first(), c.drop_first());
    }
}

pub proof fn lemma_seq_lt_total(a: Seq<char>, b: Seq<char>)
    ensures
        a == b || seq_lt(a, b) || seq_lt(b, a),
    decreases a.len(),
{
    if a.len() > 0 && b.len() > 0 && a[0] == b[0] {
        lemma_seq_lt_total(a.drop_first(), b.drop_first());
        if a.drop_first() == b.drop_first() {
            assert(a.len() == b.len());
            assert forall|i: int| 0 <= i < a.len() implies a[i] == b[i] by {
                if i > 0 {
                    assert(a[i] == a.drop_first()[i - 1]);
                    assert(b[i] == b.drop_first()[i - 1]);
                }
            }
            assert(a =~= b);
        }
    }
    if a.len() == 0 && b.len() == 0 {
        assert(a =~= b);
    }
}

/// The order of `(category, name)` pairs: by category, then by name.
pub open spec fn pair_lt(x: (Seq<char>, Seq<char>), y: (Seq<char>, Seq<char>)) -> bool {
    seq_lt(x.0, y.0) || (x.0 == y.0 && seq_lt(x.1, y.1))
}

proof fn lemma_pair_lt_irrefl(x: (Seq<char>, Seq<char>))
    ensures
        !pair_lt(x, x),
{
    lemma_seq_lt_irrefl(x.0);
    lemma_seq_lt_irrefl(x.1);
}

proof fn lemma_pair_lt_trans(x: (Seq<char>, Seq<char>), y: (Seq<char>, Seq<char>), z: (Seq<char>, Seq<char>))
    requires
        pair_lt(x, y),
        pair_lt(y, z),
    ensures
        pair_lt(x, z),
{
    if seq_lt(x.0, y.0) && seq_lt(y.0, z.0) {
        lemma_seq_lt_trans(x.0, y.0, z.0);
    } else if seq_lt(x.1, y.1) && seq_lt(y.1, z.1) && x.0 == y.0 && y.0 == z.0 {
        lemma_seq_lt_trans(x.1, y.1, z.1);
    }
}

proof fn lemma_pair_lt_total(x: (Seq<char>, Seq<char>), y: (Seq<char>, Seq<char>))
    ensures
        x == y || pair_lt(x, y) || pair_lt(y, x),
{
    lemma_seq_lt_total(x.0, y.0);
    lemma_seq_lt_total(x.1, y.1);
}

pub open spec fn pairs_sorted(s: Seq<(Seq<char>, Seq<char>)>) -> bool {
    forall|i: int, j: int| 0 <= i < j < s.len() ==> pair_lt(#[trigger] s[i], #[trigger] s[j])
}

/// Every `category/name` pair known to the configured repositories, in
/// ascending order.
pub struct PackageIndex {
    atoms: Vec<(String, String)>,
}

pub open spec fn pair_view(p: (String, String)) -> (Seq<char>, Seq<char>) {
    (p.0@, p.1@)
}

impl PackageIndex {
    /// The known pairs, in ascending order.
    pub closed spec fn entries(self) -> Seq<(Seq<char>, Seq<char>)> {
        self.atoms@.map_values(|p: (String, String)| pair_view(p))
    }

    /// The pairs are strictly ascending, so each occurs once.
    pub closed spec fn wf(self) -> bool {
        pairs_sorted(self.entries())
    }

    /// An empty index.
    pub fn new() -> (r: Self)
        ensures
            r.wf(),
            r.entries().len() == 0,
    {
        let r = PackageIndex { atoms: Vec::new() };
        assert(r.entries() =~= Seq::<(Seq<char>, Seq<char>)>::empty());
        r
    }

    /// Records `category/name`.
    pub fn insert(&mut self, category: &str, name: &str)
        requires
            old(self).wf(),
        ensures
            final(self).wf(),
            forall|p: (Seq<char>, Seq<char>)|
                #[trigger] final(self).entries().contains(p) <==> (old(self).entries().contains(p) || p == (
                    category@,
                    name@,
                )),
    {
        let x = (chars_of(category), chars_of(name));
        let ghost xv = (category@, name@);
        let ghost es = self.entries();
        let mut p: usize = 0;
        while p < self.atoms.len() && pair_before(&self.atoms[p], &x)
            invariant
                p <= self.atoms.len(),
                es == self.entries(),
                pairs_sorted(es),
                x.0@ == xv.0,
                x.1@ == xv.1,
                forall|k: int| 0 <= k < p ==> pair_lt(#[trigger] es[k], xv),
            decreases self.atoms.len() - p,
        {
            assert(es[p as int] == pair_view(self.atoms@[p as int]));
            p = p + 1;
        }
        if p < self.atoms.len() && pair_equal(&self.atoms[p], &x) {
            assert(es[p as int] == xv);
            assert forall|q: (Seq<char>, Seq<char>)| #[trigger] es.contains(q) <==> (es.contains(q) || q == xv) by {
                if q == xv {
                    assert(es[p as int] == q);
                }
            }
            return;
        }
        proof {
            if p < self.atoms.len() {
                assert(es[p as int] == pair_view(self.atoms@[p as int]));
                assert(!pair_lt(es[p as int], xv));
                assert(es[p as int] != xv);
                lemma_pair_lt_total(es[p as int], xv);
                assert(pair_lt(xv, es[p as int]));
            }
        }
        self.atoms.insert(p, (category.to_owned(), name.to_owned()));
        proof {
            let ns = self.entries();
            assert(ns =~= es.insert(p as int, xv));
            assert forall|i: int, j: int| 0 <= i < j < ns.len() implies pair_lt(#[trigger] ns[i], #[trigger] ns[j]) by {
                if j < p {
                    assert(ns[i] == es[i] && ns[j] == es[j]);
                } else if j == p {
                    assert(ns[i] == es[i]);
                } else if i == p {
                    assert(ns[j] == es[j - 1]);
                    if j - 1 > p {
                        assert(pair_lt(es[p as int], es[j - 1]));
                        lemma_pair_lt_trans(xv, es[p as int], es[j - 1]);
                    }
                } else if i < p {
                    assert(ns[i] == es[i] && ns[j] == es[j - 1]);
                    assert(pair_lt(es[i], xv));
                    if j - 1 > p {
                        assert(pair_lt(es[p as int], es[j - 1]));
                        lemma_pair_lt_trans(xv, es[p as int], es[j - 1]);
                    }
                    lemma_pair_lt_trans(es[i], xv, es[j - 1]);
                } else {
                    assert(ns[i] == es[i - 1] && ns[j] == es[j - 1]);
                }
            }
            assert forall|q: (Seq<char>, Seq<char>)| #[trigger] ns.contains(q) <==> (es.contains(q) || q == xv) by {
                if ns.contains(q) {
                    let k = choose|k: int| 0 <= k < ns.len() && ns[k] == q;
                    if k < p {
                        assert(es[k] == q);
                    } else if k > p {
                        assert(es[k - 1] == q);
                    }
                }
                if es.contains(q) {
                    let k = choose|k: int| 0 <= k < es.len() && es[k] == q;
                    if k < p {
                        assert(ns[k] == q);
                    } else {
                        assert(ns[k + 1] == q);
                    }
                }
                if q == xv {
                    assert(ns[p as int] == q);
                }
            }
        }
    }

    /// The index holds `category/name`.
    pub fn contains(&self, category: &str, name: &str) -> (r: bool)
        ensures
            r == self.entries().contains((category@, name@)),
    {
        let x = (chars_of(category), chars_of(name));
        let ghost es = self.entries();
        let mut i: usize = 0;
        while i < self.atoms.len()
            invariant
                i <= self.atoms.len(),
                es == self.entries(),
                x.0@ == category@,
                x.1@ == name@,
                forall|k: int| 0 <= k < i ==> #[trigger] es[k] != (category@, name@),
            decreases self.atoms.len() - i,
        {
            if pair_equal(&self.atoms[i], &x) {
                assert(es[i as int] == (category@, name@));
                return true;
            }
            i = i + 1;
        }
        false
    }
}

fn pair_before(a: &(String, String), x: &(Vec<char>, Vec<char>)) -> (r: bool)
    ensures
        r == pair_lt(pair_view(*a), (x.0@, x.1@)),
{
    let c = chars_of(a.0.as_str());
    let n = chars_of(a.1.as_str());
    lex_lt(&c, &x.0) || (seq_eq(&c, &x.0) && lex_lt(&n, &x.1))
}

fn pair_equal(a: &(String, String), x: &(Vec<char>, Vec<char>)) -> (r: bool)
    ensures
        r == (pair_view(*a) == (x.0@, x.1@)),
{
    let c = chars_of(a.0.as_str());
    let n = chars_of(a.1.as_str());
    seq_eq(&c, &x.0) && seq_eq(&n, &x.1)
}


// ---------------------------------------------------------------------------
// Suggestions.
// ---------------------------------------------------------------------------

/// A suggestion candidate: ranking tier, edit distance, atom.
pub open spec fn cand_view(c: (u8, usize, String)) -> (int, int, Seq<char>) {
    (c.0 as int, c.1 as int, c.2@)
}

/// Length of `s` in UTF-8 bytes.
pub open spec fn byte_len(s: Seq<char>) -> int {
    (vstd::utf8::encode_utf8(s).len() as usize) as int
}

pub open spec fn abs_diff(a: int, b: int) -> int {
    if a >= b {
        a - b
    } else {
        b - a
    }
}

/// How far a name within the requested category may be from the requested
/// name: two edits, three for names over twelve bytes.
pub open spec fn name_cap(name: Seq<char>) -> int {
    if byte_len(name) > 12 {
        3
    } else {
        2
    }
}

/// The candidate a known pair makes for `category/name`: the same name in
/// another category (tier 0, ranked by category distance), a close name in
/// the same category (tier 1), or a close atom elsewhere (tier 2).
pub open spec fn candidate_for(category: Seq<char>, name: Seq<char>, cat: Seq<char>, cn: Seq<char>) -> Option<
    (int, int, Seq<char>),
> {
    let atom = cat + "/"@ + cn;
    let full = category + "/"@ + name;
    if cn == name && cat != category {
        Some((0, lev(category, cat) as int, atom))
    } else if cat == category {
        let d = lev(name, cn) as int;
        if d > 0 && d <= name_cap(name) {
            Some((1, d, atom))
        } else {
            None
        }
    } else if abs_diff(byte_len(atom), byte_len(full)) <= 2 {
        let d = lev(full, atom) as int;
        if d > 0 && d <= 2 {
            Some((2, d, atom))
        } else {
            None
        }
    } else {
        None
    }
}

/// The candidates of the known pairs, in index order.
pub open spec fn candidates(es: Seq<(Seq<char>, Seq<char>)>, category: Seq<char>, name: Seq<char>) -> Seq<
    (int, int, Seq<char>),
>
    decreases es.len(),
{
    if es.len() == 0 {
        Seq::empty()
    } else {
        candidates(es.drop_last(), category, name) + match candidate_for(
            category,
            name,
            es.last().0,
            es.last().1,
        ) {
            Some(c) => seq![c],
            None => Seq::empty(),
        }
    }
}

/// The ranking order: tier, then distance, then atom.
pub open spec fn cand_le(x: (int, int, Seq<char>), y: (int, int, Seq<char>)) -> bool {
    x.0 < y.0 || (x.0 == y.0 && (x.1 < y.1 || (x.1 == y.1 && !seq_lt(y.2, x.2))))
}

pub open spec fn insert_cand(s: Seq<(int, int, Seq<char>)>, x: (int, int, Seq<char>)) -> Seq<(int, int, Seq<char>)>
    decreases s.len(),
{
    if s.len() == 0 {
        seq![x]
    } else if cand_le(s.last(), x) {
        s.push(x)
    } else {
        insert_cand(s.drop_last(), x).push(s.last())
    }
}

/// The candidates in ranking order.
pub open spec fn sort_cands(s: Seq<(int, int, Seq<char>)>) -> Seq<(int, int, Seq<char>)>
    decreases s.len(),
{
    if s.len() == 0 {
        s
    } else {
        insert_cand(sort_cands(s.drop_last()), s.last())
    }
}

/// Consecutive candidates for the same atom reduced to the first.
pub open spec fn dedup_atoms(s: Seq<(int, int, Seq<char>)>) -> Seq<(int, int, Seq<char>)>
    decreases s.len(),
{
    if s.len() == 0 {
        s
    } else {
        let d = dedup_atoms(s.drop_last());
        if d.len() > 0 && d.last().2 == s.last().2 {
            d
        } else {
            d.push(s.last())
        }
    }
}

/// At most three suggestions for `category/name`, best first.
pub open spec fn suggestions(es: Seq<(Seq<char>, Seq<char>)>, category: Seq<char>, name: Seq<char>) -> Seq<
    Seq<char>,
> {
    let ranked = dedup_atoms(sort_cands(candidates(es, category, name)));
    ranked.take(if ranked.len() < 3 {
        ranked.len() as int
    } else {
        3
    }).map_values(|c: (int, int, Seq<char>)| c.2)
}

/// At most three suggestions are ever made.
pub proof fn lemma_at_most_three_suggestions(es: Seq<(Seq<char>, Seq<char>)>, category: Seq<char>, name: Seq<char>)
    ensures
        suggestions(es, category, name).len() <= 3,
{
}

proof fn lemma_candidates_include(es: Seq<(Seq<char>, Seq<char>)>, category: Seq<char>, name: Seq<char>, k: int)
    requires
        0 <= k < es.len(),
        candidate_for(category, name, es[k].0, es[k].1) is Some,
    ensures
        candidates(es, category, name).contains(candidate_for(category, name, es[k].0, es[k].1)->Some_0),
    decreases es.len(),
{
    let c = candidate_for(category, name, es[k].0, es[k].1)->Some_0;
    let prev = candidates(es.drop_last(), category, name);
    let all = candidates(es, category, name);
    if k == es.len() - 1 {
        assert(all[prev.len() as int] == c);
    } else {
        assert(es.drop_last()[k] == es[k]);
        lemma_candidates_include(es.drop_last(), category, name, k);
        let i = choose|i: int| 0 <= i < prev.len() && prev[i] == c;
        assert(all[i] == prev[i]);
    }
}

proof fn lemma_insert_cand_len(s: Seq<(int, int, Seq<char>)>, x: (int, int, Seq<char>))
    ensures
        insert_cand(s, x).len() == s.len() + 1,
    decreases s.len(),
{
    if s.len() > 0 && !cand_le(s.last(), x) {
        lemma_insert_cand_len(s.drop_last(), x);
    }
}

proof fn lemma_sort_cands_len(s: Seq<(int, int, Seq<char>)>)
    ensures
        sort_cands(s).len() == s.len(),
    decreases s.len(),
{
    if s.len() > 0 {
        lemma_sort_cands_len(s.drop_last());
        lemma_insert_cand_len(sort_cands(s.drop_last()), s.last());
    }
}

/// A known name in the requested category, one or two edits from the
/// requested name (up to three edits for names longer than twelve bytes),
/// is a candidate for the same-category tier, ranked by its edit distance.
pub proof fn lemma_close_names_are_candidates(
    es: Seq<(Seq<char>, Seq<char>)>,
    category: Seq<char>,
    name: Seq<char>,
    known: Seq<char>,
)
    requires
        es.contains((category, known)),
        1 <= lev(name, known),
        lev(name, known) <= 2 || (byte_len(name) > 12 && lev(name, known) <= 3),
    ensures
        candidates(es, category, name).contains((1, lev(name, known) as int, category + "/"@ + known)),
{
    let k = choose|k: int| 0 <= k < es.len() && es[k] == (category, known);
    lemma_candidates_include(es, category, name, k);
}

/// Some suggestion is made whenever there is a candidate, and a lone
/// candidate is exactly what is suggested.
pub proof fn lemma_candidates_are_suggested(es: Seq<(Seq<char>, Seq<char>)>, category: Seq<char>, name: Seq<char>)
    ensures
        candidates(es, category, name).len() > 0 ==> suggestions(es, category, name).len() > 0,
        candidates(es, category, name).len() == 1 ==> suggestions(es, category, name) == seq![
            candidates(es, category, name)[0].2,
        ],
{
    let c = candidates(es, category, name);
    lemma_sort_cands_len(c);
    let sorted = sort_cands(c);
    if c.len() > 0 {
        assert(dedup_atoms(sorted).len() > 0);
    }
    if c.len() == 1 {
        assert(c.drop_last().len() == 0);
        assert(sort_cands(c.drop_last()) == c.drop_last());
        assert(sorted =~= seq![c[0]]);
        assert(sorted.drop_last() =~= Seq::<(int, int, Seq<char>)>::empty());
        assert(dedup_atoms(sorted.drop_last()) == sorted.drop_last());
        assert(dedup_atoms(sorted) =~= seq![c[0]]);
        let ranked = dedup_atoms(sorted);
        assert(ranked.take(1) =~= seq![c[0]]);
        assert(suggestions(es, category, name) =~= seq![c[0].2]);
    }
}

/// What is recorded in an index is found there afterwards, and recording
/// keeps everything that was already there.
pub proof fn lemma_recorded_pairs_are_found(
    before: PackageIndex,
    after: PackageIndex,
    category: Seq<char>,
    name: Seq<char>,
)
    requires
        forall|p: (Seq<char>, Seq<char>)|
            #[trigger] after.entries().contains(p) <==> (before.entries().contains(p) || p == (
                category,
                name,
            )),
    ensures
        after.entries().contains((category, name)),
        forall|p: (Seq<char>, Seq<char>)| before.entries().contains(p) ==> #[trigger] after.entries().contains(p),
{
    assert(after.entries().contains((category, name)));
}

fn str_byte_len(s: &String) -> (r: usize)
    ensures
        r == byte_len(s@),
{
    s.as_str().len()
}

fn join3(a: &str, sep: char, b: &str) -> (r: String)
    ensures
        r@ == a@ + seq![sep] + b@,
{
    let mut v = chars_of(a);
    v.push(sep);
    push_str(&mut v, b);
    string_of(&v)
}

fn candidate_of(category: &str, name: &str, full: &String, cat: &str, cn: &str) -> (r: Option<(u8, usize, String)>)
    requires
        full@ == category@ + "/"@ + name@,
    ensures
        match r {
            Some(c) => candidate_for(category@, name@, cat@, cn@) == Some(cand_view(c)),
            None => candidate_for(category@, name@, cat@, cn@) is None,
        },
{
    let atom = join3(cat, '/', cn);
    proof {
        reveal_strlit("/");
        assert(atom@ =~= cat@ + "/"@ + cn@);
    }
    if crate::text::str_eq(cn, name) && !crate::text::str_eq(cat, category) {
        return Some((0, levenshtein(category, cat), atom));
    }
    if crate::text::str_eq(cat, category) {
        let d = levenshtein(name, cn);
        let cap: usize = if name.len() > 12 {
            3
        } else {
            2
        };
        if d > 0 && d <= cap {
            return Some((1, d, atom));
        }
        return None;
    }
    let al = str_byte_len(&atom);
    let fl = str_byte_len(full);
    let diff = if al >= fl {
        al - fl
    } else {
        fl - al
    };
    if diff <= 2 {
        let d = levenshtein(full.as_str(), atom.as_str());
        if d > 0 && d <= 2 {
            return Some((2, d, atom));
        }
    }
    None
}

fn cand_le_exec(x: &(u8, usize, String), y: &(u8, usize, String)) -> (r: bool)
    ensures
        r == cand_le(cand_view(*x), cand_view(*y)),
{
    if x.0 != y.0 {
        return x.0 < y.0;
    }
    if x.1 != y.1 {
        return x.1 < y.1;
    }
    let a = chars_of(x.2.as_str());
    let b = chars_of(y.2.as_str());
    !lex_lt(&b, &a)
}

proof fn lemma_insert_cand_at(s: Seq<(int, int, Seq<char>)>, x: (int, int, Seq<char>), j: int)
    requires
        0 <= j <= s.len(),
        forall|k: int| j <= k < s.len() ==> !cand_le(#[trigger] s[k], x),
        j == 0 || cand_le(s[j - 1], x),
    ensures
        insert_cand(s, x) == s.insert(j, x),
    decreases s.len(),
{
    if s.len() == 0 {
        assert(s.insert(j, x) =~= seq![x]);
    } else if j == s.len() {
        assert(s.insert(j, x) =~= s.push(x));
    } else {
        assert(!cand_le(s[s.len() - 1], x));
        let t = s.drop_last();
        assert forall|k: int| j <= k < t.len() implies !cand_le(#[trigger] t[k], x) by {
            assert(t[k] == s[k]);
        }
        if j > 0 {
            assert(t[j - 1] == s[j - 1]);
        }
        lemma_insert_cand_at(t, x, j);
        assert(t.insert(j, x).push(s.last()) =~= s.insert(j, x));
    }
}

pub open spec fn cand_views(v: Seq<(u8, usize, String)>) -> Seq<(int, int, Seq<char>)> {
    v.map_values(|c: (u8, usize, String)| cand_view(c))
}

/// The candidates in ranking order.
fn sort_candidates(v: Vec<(u8, usize, String)>) -> (r: Vec<(u8, usize, String)>)
    ensures
        cand_views(r@) == sort_cands(cand_views(v@)),
{
    let ghost cv = cand_views(v@);
    let mut rest = v;
    let mut rev: Vec<(u8, usize, String)> = Vec::new();
    while rest.len() > 0
        invariant
            cand_views(rest@) + cand_views(rev@).reverse() == cv,
        decreases rest.len(),
    {
        let ghost before_rest = rest@;
        let ghost before_rev = rev@;
        let last = rest.pop().unwrap();
        rev.push(last);
        proof {
            assert(before_rest =~= rest@.push(last));
            assert(cand_views(rev@).reverse() =~= seq![cand_view(last)] + cand_views(before_rev).reverse());
            assert(cand_views(before_rest) =~= cand_views(rest@).push(cand_view(last)));
            assert(cand_views(rest@) + cand_views(rev@).reverse() =~= cv);
        }
    }
    assert(cand_views(rev@).reverse() =~= cv) by {
        assert(cand_views(rest@) =~= Seq::<(int, int, Seq<char>)>::empty());
    }
    let mut out: Vec<(u8, usize, String)> = Vec::new();
    let ghost mut i: int = 0;
    assert(cv.subrange(0, 0) =~= Seq::<(int, int, Seq<char>)>::empty());
    while rev.len() > 0
        invariant
            0 <= i <= cv.len(),
            cand_views(rev@).reverse() == cv.subrange(i, cv.len() as int),
            cand_views(out@) == sort_cands(cv.subrange(0, i)),
        decreases rev.len(),
    {
        let ghost before_rev = rev@;
        let x = rev.pop().unwrap();
        let ghost xv = cand_view(x);
        proof {
            assert(before_rev =~= rev@.push(x));
            let tail = cv.subrange(i, cv.len() as int);
            assert(cand_views(before_rev).reverse() =~= seq![xv] + cand_views(rev@).reverse());
            let both = seq![xv] + cand_views(rev@).reverse();
            assert(both == tail);
            assert(tail[0] == xv);
            assert(cv[i] == xv);
            assert(both.drop_first() =~= cand_views(rev@).reverse());
            assert(tail.drop_first() =~= cv.subrange(i + 1, cv.len() as int));
            assert(cand_views(rev@).reverse() =~= cv.subrange(i + 1, cv.len() as int));
        }
        let mut j: usize = out.len();
        while j > 0 && !cand_le_exec(&out[j - 1], &x)
            invariant
                j <= out.len(),
                cand_view(x) == xv,
                forall|k: int| j <= k < out.len() ==> !cand_le(#[trigger] cand_views(out@)[k], xv),
            decreases j,
        {
            j = j - 1;
        }
        proof {
            let s = cand_views(out@);
            if j > 0 {
                assert(s[j - 1] == cand_view(out@[j - 1]));
            }
            lemma_insert_cand_at(s, xv, j as int);
            let sub = cv.subrange(0, i + 1);
            assert(sub.drop_last() =~= cv.subrange(0, i));
            assert(sub.last() == xv);
        }
        let ghost old_out = out@;
        out.insert(j, x);
        assert(cand_views(out@) =~= cand_views(old_out).insert(j as int, xv));
        proof {
            i = i + 1;
        }
    }
    assert(cv.subrange(i, cv.len() as int).len() == 0);
    assert(cv.subrange(0, i) =~= cv);
    out
}


impl PackageIndex {
    /// Closest known atoms to `category/name`, best first, at most three.
    ///
    /// Ranking: the exact name in another category first (a mis-remembered
    /// category is the most common slip), then close names within the same
    /// category, then close full atoms anywhere.
    pub fn suggest(&self, category: &str, name: &str) -> (r: Vec<String>)
        ensures
            sviews(r@) == suggestions(self.entries(), category@, name@),
    {
        let full = join3(category, '/', name);
        proof {
            reveal_strlit("/");
            assert(full@ =~= category@ + "/"@ + name@);
        }
        let ghost es = self.entries();
        let mut cands: Vec<(u8, usize, String)> = Vec::new();
        let mut i: usize = 0;
        assert(es.subrange(0, 0) =~= Seq::<(Seq<char>, Seq<char>)>::empty());
        while i < self.atoms.len()
            invariant
                i <= self.atoms.len(),
                es == self.entries(),
                full@ == category@ + "/"@ + name@,
                cand_views(cands@) == candidates(es.subrange(0, i as int), category@, name@),
            decreases self.atoms.len() - i,
        {
            let ghost sub = es.subrange(0, i + 1);
            proof {
                assert(sub.drop_last() =~= es.subrange(0, i as int));
                assert(sub.last() == pair_view(self.atoms@[i as int]));
            }
            let ghost before = cand_views(cands@);
            match candidate_of(category, name, &full, self.atoms[i].0.as_str(), self.atoms[i].1.as_str()) {
                Some(c) => {
                    cands.push(c);
                    assert(cand_views(cands@) =~= before.push(cand_view(c)));
                },
                None => {
                    assert(before + Seq::<(int, int, Seq<char>)>::empty() =~= before);
                },
            }
            i = i + 1;
        }
        assert(es.subrange(0, self.atoms.len() as int) =~= es);
        let sorted = sort_candidates(cands);
        let ghost sv = cand_views(sorted@);
        let mut rest = sorted;
        let mut rev: Vec<(u8, usize, String)> = Vec::new();
        while rest.len() > 0
            invariant
                cand_views(rest@) + cand_views(rev@).reverse() == sv,
            decreases rest.len(),
        {
            let ghost before_rest = rest@;
            let ghost before_rev = rev@;
            let last = rest.pop().unwrap();
            rev.push(last);
            proof {
                assert(before_rest =~= rest@.push(last));
                assert(cand_views(rev@).reverse() =~= seq![cand_view(last)] + cand_views(before_rev).reverse());
                assert(cand_views(before_rest) =~= cand_views(rest@).push(cand_view(last)));
                assert(cand_views(rest@) + cand_views(rev@).reverse() =~= sv);
            }
        }
        assert(cand_views(rev@).reverse() =~= sv) by {
            assert(cand_views(rest@) =~= Seq::<(int, int, Seq<char>)>::empty());
        }
        let mut kept: Vec<(u8, usize, String)> = Vec::new();
        let ghost mut k: int = 0;
        assert(sv.subrange(0, 0) =~= Seq::<(int, int, Seq<char>)>::empty());
        while rev.len() > 0
            invariant
                0 <= k <= sv.len(),
                cand_views(rev@).reverse() == sv.subrange(k, sv.len() as int),
                cand_views(kept@) == dedup_atoms(sv.subrange(0, k)),
            decreases rev.len(),
        {
            let ghost before_rev = rev@;
            let x = rev.pop().unwrap();
            let ghost xv = cand_view(x);
            proof {
                assert(before_rev =~= rev@.push(x));
                let tail = sv.subrange(k, sv.len() as int);
                let both = seq![xv] + cand_views(rev@).reverse();
                assert(cand_views(before_rev).reverse() =~= both);
                assert(tail[0] == xv);
                assert(both.drop_first() =~= cand_views(rev@).reverse());
                assert(tail.drop_first() =~= sv.subrange(k + 1, sv.len() as int));
                let sub = sv.subrange(0, k + 1);
                assert(sub.drop_last() =~= sv.subrange(0, k));
                assert(sub.last() == xv);
            }
            let dup = if kept.len() > 0 {
                let a = chars_of(kept[kept.len() - 1].2.as_str());
                let b = chars_of(x.2.as_str());
                seq_eq(&a, &b)
            } else {
                false
            };
            if !dup {
                let ghost before = cand_views(kept@);
                kept.push(x);
                assert(cand_views(kept@) =~= before.push(xv));
            }
            proof {
                k = k + 1;
            }
        }
        assert(sv.subrange(0, k) =~= sv);
        let ghost ranked = cand_views(kept@);
        let limit: usize = if kept.len() < 3 {
            kept.len()
        } else {
            3
        };
        let mut out: Vec<String> = Vec::new();
        let mut rest2 = kept;
        let mut rev2: Vec<(u8, usize, String)> = Vec::new();
        while rest2.len() > 0
            invariant
                cand_views(rest2@) + cand_views(rev2@).reverse() == ranked,
            decreases rest2.len(),
        {
            let ghost before_rest = rest2@;
            let ghost before_rev = rev2@;
            let last = rest2.pop().unwrap();
            rev2.push(last);
            proof {
                assert(before_rest =~= rest2@.push(last));
                assert(cand_views(rev2@).reverse() =~= seq![cand_view(last)] + cand_views(before_rev).reverse());
                assert(cand_views(before_rest) =~= cand_views(rest2@).push(cand_view(last)));
                assert(cand_views(rest2@) + cand_views(rev2@).reverse() =~= ranked);
            }
        }
        assert(cand_views(rev2@).reverse() =~= ranked) by {
            assert(cand_views(rest2@) =~= Seq::<(int, int, Seq<char>)>::empty());
        }
        while out.len() < limit
            invariant
                out.len() <= limit,
                limit <= ranked.len(),
                cand_views(rev2@).reverse() == ranked.subrange(out.len() as int, ranked.len() as int),
                sviews(out@) == ranked.take(out.len() as int).map_values(|c: (int, int, Seq<char>)| c.2),
            decreases limit - out.len(),
        {
            let ghost before_rev = rev2@;
            let ghost n = out.len() as int;
            assert(cand_views(rev2@).reverse().len() == rev2@.len());
            assert(ranked.subrange(n, ranked.len() as int).len() > 0);
            let x = rev2.pop().unwrap();
            proof {
                assert(before_rev =~= rev2@.push(x));
                let tail = ranked.subrange(n, ranked.len() as int);
                let both = seq![cand_view(x)] + cand_views(rev2@).reverse();
                assert(cand_views(before_rev).reverse() =~= both);
                assert(tail[0] == cand_view(x));
                assert(both.drop_first() =~= cand_views(rev2@).reverse());
                assert(tail.drop_first() =~= ranked.subrange(n + 1, ranked.len() as int));
            }
            let ghost before = sviews(out@);
            out.push(x.2);
            proof {
                assert(sviews(out@) =~= before.push(cand_view(x).2));
                assert(ranked.take(n + 1).map_values(|c: (int, int, Seq<char>)| c.2) =~= ranked.take(n).map_values(
                    |c: (int, int, Seq<char>)| c.2,
                ).push(ranked[n].2));
            }
        }
        out
    }
}

/// An atom from the manifest that exists in no configured repository.
#[derive(Debug)]
pub struct UnknownPackage {
    pub atom: String,
    pub suggestions: Vec<String>,
}

/// Result of checking a manifest's package list.
#[derive(Debug)]
pub enum PackageCheckOutcome {
    /// The tree was indexed; every unknown atom (empty: all known).
    Checked(Vec<UnknownPackage>),
    /// No repository was found in the tree; the check was skipped.
    NoPortageTree { tree: String },
}

/// The unknown atoms of `ps` with their suggestions, in manifest order.
/// Atoms without a `category/name` shape are not checked.
pub open spec fn unknown_atoms(ps: Seq<Package>, index: PackageIndex) -> Seq<(Seq<char>, Seq<Seq<char>>)>
    decreases ps.len(),
{
    if ps.len() == 0 {
        Seq::empty()
    } else {
        unknown_atoms(ps.drop_last(), index) + match atom_parts(ps.last().package@) {
            Some(parts) => if index.entries().contains(parts) {
                Seq::empty()
            } else {
                seq![(ps.last().package@, suggestions(index.entries(), parts.0, parts.1))]
            },
            None => Seq::empty(),
        }
    }
}

pub open spec fn unknown_view(u: UnknownPackage) -> (Seq<char>, Seq<Seq<char>>) {
    (u.atom@, sviews(u.suggestions@))
}

/// Checks every atom of the manifest's package list against `index`, the
/// index of the tree at `portage_tree` (`None` when the tree has no
/// repository).
pub fn check_packages(manifest: &SystemManifest, index: Option<&PackageIndex>, portage_tree: &str) -> (r:
    PackageCheckOutcome)
    ensures
        match index {
            None => r matches PackageCheckOutcome::NoPortageTree { tree } && tree@ == portage_tree@,
            Some(idx) => r matches PackageCheckOutcome::Checked(v) && v@.map_values(
                |u: UnknownPackage| unknown_view(u),
            ) == unknown_atoms(manifest.packages@, *idx),
        },
{
    let idx = match index {
        None => return PackageCheckOutcome::NoPortageTree { tree: portage_tree.to_owned() },
        Some(i) => i,
    };
    let ps = &manifest.packages;
    let mut unknown: Vec<UnknownPackage> = Vec::new();
    let mut i: usize = 0;
    assert(ps@.subrange(0, 0) =~= Seq::<Package>::empty());
    while i < ps.len()
        invariant
            i <= ps.len(),
            ps@ == manifest.packages@,
            unknown@.map_values(|u: UnknownPackage| unknown_view(u)) == unknown_atoms(ps@.subrange(0, i as int), *idx),
        decreases ps.len() - i,
    {
        let ghost sub = ps@.subrange(0, i + 1);
        proof {
            assert(sub.drop_last() =~= ps@.subrange(0, i as int));
            assert(sub.last() == ps@[i as int]);
        }
        let ghost before = unknown@.map_values(|u: UnknownPackage| unknown_view(u));
        match normalize_atom(ps[i].package.as_str()) {
            None => {
                assert(before + Seq::<(Seq<char>, Seq<Seq<char>>)>::empty() =~= before);
            },
            Some((category, name)) => {
                if idx.contains(category.as_str(), name.as_str()) {
                    assert(before + Seq::<(Seq<char>, Seq<Seq<char>>)>::empty() =~= before);
                } else {
                    let u = UnknownPackage {
                        atom: ps[i].package.clone(),
                        suggestions: idx.suggest(category.as_str(), name.as_str()),
                    };
                    unknown.push(u);
                    assert(unknown@.map_values(|u: UnknownPackage| unknown_view(u)) =~= before.push(
                        unknown_view(u),
                    ));
                }
            },
        }
        i = i + 1;
    }
    assert(ps@.subrange(0, ps.len() as int) =~= ps@);
    PackageCheckOutcome::Checked(unknown)
}

pub open spec fn did_you_mean(s: Seq<Seq<char>>) -> Seq<char> {
    "'"@ + join(s, "', '"@) + "'"@
}

/// The `; did you mean ...?` note for an atom missing from the index, or
/// nothing.
pub open spec fn suggestion_note(atom: Seq<char>, index: Option<PackageIndex>) -> Seq<char> {
    match atom_parts(atom) {
        None => Seq::empty(),
        Some(parts) => match index {
            None => Seq::empty(),
            Some(idx) => if idx.entries().contains(parts) {
                Seq::empty()
            } else {
                let s = suggestions(idx.entries(), parts.0, parts.1);
                if s.len() == 0 {
                    Seq::empty()
                } else {
                    "; did you mean "@ + did_you_mean(s) + "?"@
                }
            },
        },
    }
}

fn quoted_list(items: &Vec<String>) -> (r: Vec<char>)
    ensures
        r@ == did_you_mean(sviews(items@)),
{
    let mut v: Vec<char> = Vec::new();
    push_str(&mut v, "'");
    let j = crate::text::join_strings(items, "', '");
    push_chars(&mut v, &j);
    push_str(&mut v, "'");
    v
}

/// A `; did you mean ...?` suffix for `atom`, or an empty string when the
/// atom exists, cannot be parsed, nothing close is known, or there is no
/// index (`None`).
pub fn suggestion_note_for(atom: &str, index: Option<&PackageIndex>) -> (r: String)
    ensures
        r@ == suggestion_note(
            atom@,
            match index {
                Some(i) => Some(*i),
                None => None,
            },
        ),
{
    let (category, name) = match normalize_atom(atom) {
        None => return String::new(),
        Some(p) => p,
    };
    let idx = match index {
        None => return String::new(),
        Some(i) => i,
    };
    if idx.contains(category.as_str(), name.as_str()) {
        return String::new();
    }
    let s = idx.suggest(category.as_str(), name.as_str());
    if s.len() == 0 {
        return String::new();
    }
    let mut v: Vec<char> = Vec::new();
    push_str(&mut v, "; did you mean ");
    let q = quoted_list(&s);
    push_chars(&mut v, &q);
    push_str(&mut v, "?");
    string_of(&v)
}

pub open spec fn unknown_line(u: UnknownPackage) -> Seq<char> {
    if u.suggestions@.len() == 0 {
        "unknown package '"@ + u.atom@ + "' (not found in any configured Portage repository)\n"@
    } else {
        "unknown package '"@ + u.atom@ + "' — did you mean "@ + did_you_mean(sviews(u.suggestions@))
            + "?\n"@
    }
}

pub open spec fn unknown_report(us: Seq<UnknownPackage>) -> Seq<char>
    decreases us.len(),
{
    if us.len() == 0 {
        Seq::empty()
    } else {
        unknown_report(us.drop_last()) + unknown_line(us.last())
    }
}

/// One report line per unknown atom.
pub fn render_unknown_packages(unknown: &Vec<UnknownPackage>) -> (r: String)
    ensures
        r@ == unknown_report(unknown@),
{
    let mut out: Vec<char> = Vec::new();
    let mut i: usize = 0;
    while i < unknown.len()
        invariant
            i <= unknown.len(),
            out@ == unknown_report(unknown@.subrange(0, i as int)),
        decreases unknown.len() - i,
    {
        let ghost before = out@;
        let u = &unknown[i];
        push_str(&mut out, "unknown package '");
        push_str(&mut out, u.atom.as_str());
        if u.suggestions.len() == 0 {
            push_str(&mut out, "' (not found in any configured Portage repository)\n");
        } else {
            push_str(&mut out, "' — did you mean ");
            let q = quoted_list(&u.suggestions);
            push_chars(&mut out, &q);
            push_str(&mut out, "?\n");
        }
        proof {
            let sub = unknown@.subrange(0, i + 1);
            assert(sub.drop_last() =~= unknown@.subrange(0, i as int));
            assert(sub.last() == unknown@[i as int]);
            assert(out@ =~= before + unknown_line(unknown@[i as int]));
        }
        i = i + 1;
    }
    assert(unknown@.subrange(0, unknown.len() as int) =~= unknown@);
    string_of(&out)
}

} // verus!

verus! {

/// One configured repository's `metadata/md5-cache`: each category
/// directory with the names of the entries in it (`name-version`).
#[derive(Debug, Clone, PartialEq, Eq)]
pub struct RepoCache {
    pub categories: Vec<(String, Vec<String>)>,
}

pub open spec fn entry_pairs(category: Seq<char>, entries: Seq<String>) -> Seq<(Seq<char>, Seq<char>)> {
    entries.map_values(|e: String| (category, strip_version(e@)))
}

pub open spec fn category_pairs(cats: Seq<(String, Vec<String>)>) -> Seq<(Seq<char>, Seq<char>)>
    decreases cats.len(),
{
    if cats.len() == 0 {
        seq![]
    } else {
        category_pairs(cats.drop_last()) + entry_pairs(cats.last().0@, cats.last().1@)
    }
}

/// Every `category/name` the repositories hold, the version stripped from
/// each entry.
pub open spec fn repo_pairs(repos: Seq<RepoCache>) -> Seq<(Seq<char>, Seq<char>)>
    decreases repos.len(),
{
    if repos.len() == 0 {
        seq![]
    } else {
        repo_pairs(repos.drop_last()) + category_pairs(repos.last().categories@)
    }
}

proof fn lemma_contains_concat(a: Seq<(Seq<char>, Seq<char>)>, b: Seq<(Seq<char>, Seq<char>)>, p: (Seq<char>, Seq<char>))
    ensures
        (a + b).contains(p) <==> a.contains(p) || b.contains(p),
{
    if (a + b).contains(p) {
        let i = choose|i: int| 0 <= i < (a + b).len() && (a + b)[i] == p;
        if i >= a.len() {
            assert(b[i - a.len()] == p);
        }
    }
    if a.contains(p) {
        let i = choose|i: int| 0 <= i < a.len() && a[i] == p;
        assert((a + b)[i] == p);
    }
    if b.contains(p) {
        let i = choose|i: int| 0 <= i < b.len() && b[i] == p;
        assert((a + b)[a.len() + i] == p);
    }
}

impl PackageIndex {
    fn insert_entries(&mut self, category: &str, entries: &Vec<String>)
        requires
            old(self).wf(),
        ensures
            final(self).wf(),
            forall|p: (Seq<char>, Seq<char>)|
                #[trigger] final(self).entries().contains(p) <==> (old(self).entries().contains(p)
                    || entry_pairs(category@, entries@).contains(p)),
    {
        let ghost start = self.entries();
        let mut k: usize = 0;
        while k < entries.len()
            invariant
                k <= entries.len(),
                self.wf(),
                forall|p: (Seq<char>, Seq<char>)|
                    #[trigger] self.entries().contains(p) <==> (start.contains(p) || entry_pairs(
                        category@,
                        entries@.subrange(0, k as int),
                    ).contains(p)),
            decreases entries.len() - k,
        {
            let name = string_of(&strip_version_suffix(&chars_of(entries[k].as_str())));
            let ghost before = self.entries();
            let ghost prev = entry_pairs(category@, entries@.subrange(0, k as int));
            let ghost next = entry_pairs(category@, entries@.subrange(0, k + 1));
            self.insert(category, name.as_str());
            proof {
                assert(next =~= prev.push((category@, name@)));
                assert forall|p: (Seq<char>, Seq<char>)| #[trigger] self.entries().contains(p) <==> (start.contains(p)
                    || next.contains(p)) by {
                    lemma_contains_concat(prev, seq![(category@, name@)], p);
                    assert(prev + seq![(category@, name@)] =~= next);
                    if p == (category@, name@) {
                        assert(seq![(category@, name@)][0] == p);
                    }
                    if seq![(category@, name@)].contains(p) {
                        let i = choose|i: int| 0 <= i < 1 && seq![(category@, name@)][i] == p;
                        assert(i == 0);
                    }
                    assert(before.contains(p) <==> (start.contains(p) || prev.contains(p)));
                }
            }
            k = k + 1;
        }
        assert(entries@.subrange(0, entries.len() as int) =~= entries@);
    }

    fn insert_categories(&mut self, cats: &Vec<(String, Vec<String>)>)
        requires
            old(self).wf(),
        ensures
            final(self).wf(),
            forall|p: (Seq<char>, Seq<char>)|
                #[trigger] final(self).entries().contains(p) <==> (old(self).entries().contains(p)
                    || category_pairs(cats@).contains(p)),
    {
        let ghost start = self.entries();
        let mut j: usize = 0;
        assert(cats@.subrange(0, 0) =~= Seq::<(String, Vec<String>)>::empty());
        while j < cats.len()
            invariant
                j <= cats.len(),
                self.wf(),
                forall|p: (Seq<char>, Seq<char>)|
                    #[trigger] self.entries().contains(p) <==> (start.contains(p) || category_pairs(
                        cats@.subrange(0, j as int),
                    ).contains(p)),
            decreases cats.len() - j,
        {
            let ghost prev = category_pairs(cats@.subrange(0, j as int));
            let ghost sub = cats@.subrange(0, j + 1);
            self.insert_entries(cats[j].0.as_str(), &cats[j].1);
            proof {
                assert(sub.drop_last() =~= cats@.subrange(0, j as int));
                assert(sub.last() == cats@[j as int]);
                let added = entry_pairs(cats@[j as int].0@, cats@[j as int].1@);
                assert(category_pairs(sub) == prev + added);
                assert forall|p: (Seq<char>, Seq<char>)| #[trigger] self.entries().contains(p) <==> (start.contains(p)
                    || category_pairs(sub).contains(p)) by {
                    lemma_contains_concat(prev, added, p);
                }
            }
            j = j + 1;
        }
        assert(cats@.subrange(0, cats.len() as int) =~= cats@);
    }

    /// The index of every repository's metadata cache: `None` when there is
    /// no repository, otherwise every `category/name` they hold, each once.
    pub fn load(repos: &Vec<RepoCache>) -> (r: Option<Self>)
        ensures
            repos@.len() == 0 <==> r is None,
            r matches Some(idx) ==> idx.wf() && forall|p: (Seq<char>, Seq<char>)|
                #[trigger] idx.entries().contains(p) <==> repo_pairs(repos@).contains(p),
    {
        if repos.len() == 0 {
            return None;
        }
        let mut idx = PackageIndex::new();
        let mut i: usize = 0;
        assert(repos@.subrange(0, 0) =~= Seq::<RepoCache>::empty());
        while i < repos.len()
            invariant
                i <= repos.len(),
                idx.wf(),
                forall|p: (Seq<char>, Seq<char>)|
                    #[trigger] idx.entries().contains(p) <==> repo_pairs(repos@.subrange(0, i as int)).contains(p),
            decreases repos.len() - i,
        {
            let ghost prev = repo_pairs(repos@.subrange(0, i as int));
            let ghost sub = repos@.subrange(0, i + 1);
            idx.insert_categories(&repos[i].categories);
            proof {
                assert(sub.drop_last() =~= repos@.subrange(0, i as int));
                assert(sub.last() == repos@[i as int]);
                let added = category_pairs(repos@[i as int].categories@);
                assert(repo_pairs(sub) == prev + added);
                assert forall|p: (Seq<char>, Seq<char>)| #[trigger] idx.entries().contains(p) <==> repo_pairs(sub).contains(p) by {
                    lemma_contains_concat(prev, added, p);
                }
            }
            i = i + 1;
        }
        assert(repos@.subrange(0, repos.len() as int) =~= repos@);
        Some(idx)
    }
}

} // verus!
