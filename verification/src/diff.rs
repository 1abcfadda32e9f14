//! Structural diff between two package sets.
//!
//! Pure data: what changed between a current and a desired package list.
//! Rendering is left to each frontend.
use vstd::prelude::*;

use crate::manifest::accounts::views;
use crate::manifest::Package;
use crate::package_check::{lex_lt, seq_lt};
use crate::text::{chars_of, seq_eq};

verus! {

/// A single package that differs between the current and desired lists:
/// added (`current` absent), removed (`desired` absent) or changed.
#[derive(Debug, Clone)]
pub struct PackageChange {
    pub package: String,
    pub current: Option<Package>,
    pub desired: Option<Package>,
}

/// A package request as plain values.
pub open spec fn pkg_view(p: Package) -> (Seq<char>, Option<Seq<char>>, Seq<Seq<char>>, Seq<Seq<char>>, Seq<Seq<char>>, bool, bool) {
    (
        p.package@,
        match p.version {
            Some(v) => Some(v@),
            None => None,
        },
        views(p.use_flags@),
        views(p.keywords@),
        views(p.accept_licenses@),
        p.binary,
        p.from_source,
    )
}

pub open spec fn opt_pkg_view(p: Option<Package>) -> Option<(Seq<char>, Option<Seq<char>>, Seq<Seq<char>>, Seq<Seq<char>>, Seq<Seq<char>>, bool, bool)> {
    match p {
        Some(q) => Some(pkg_view(q)),
        None => None,
    }
}

/// The last request for `atom` in `ps`: later entries replace earlier ones.
pub open spec fn last_for(ps: Seq<Package>, atom: Seq<char>) -> Option<Package>
    decreases ps.len(),
{
    if ps.len() == 0 {
        None
    } else if ps.last().package@ == atom {
        Some(ps.last())
    } else {
        last_for(ps.drop_last(), atom)
    }
}

/// `k` added to the ascending, duplicate-free `s`.
pub open spec fn insert_key(s: Seq<Seq<char>>, k: Seq<char>) -> Seq<Seq<char>>
    decreases s.len(),
{
    if s.len() == 0 {
        seq![k]
    } else if s.last() == k {
        s
    } else if seq_lt(s.last(), k) {
        s.push(k)
    } else {
        insert_key(s.drop_last(), k).push(s.last())
    }
}

/// The atoms of `ps` added, in order, to `keys`.
pub open spec fn add_keys(keys: Seq<Seq<char>>, ps: Seq<Package>) -> Seq<Seq<char>>
    decreases ps.len(),
{
    if ps.len() == 0 {
        keys
    } else {
        insert_key(add_keys(keys, ps.drop_last()), ps.last().package@)
    }
}

/// Every atom of either list, ascending, once each.
pub open spec fn all_atoms(current: Seq<Package>, desired: Seq<Package>) -> Seq<Seq<char>> {
    add_keys(add_keys(Seq::empty(), current), desired)
}

pub type PackageChangeView = (
    Seq<char>,
    Option<(Seq<char>, Option<Seq<char>>, Seq<Seq<char>>, Seq<Seq<char>>, Seq<Seq<char>>, bool, bool)>,
    Option<(Seq<char>, Option<Seq<char>>, Seq<Seq<char>>, Seq<Seq<char>>, Seq<Seq<char>>, bool, bool)>,
);

pub open spec fn change_view(c: PackageChange) -> PackageChangeView {
    (c.package@, opt_pkg_view(c.current), opt_pkg_view(c.desired))
}

/// The changes for the atoms `keys`, skipping atoms whose requests are
/// identical on both sides.
pub open spec fn changes_for(keys: Seq<Seq<char>>, current: Seq<Package>, desired: Seq<Package>) -> Seq<PackageChangeView>
    decreases keys.len(),
{
    if keys.len() == 0 {
        Seq::empty()
    } else {
        let k = keys.last();
        let c = opt_pkg_view(last_for(current, k));
        let d = opt_pkg_view(last_for(desired, k));
        changes_for(keys.drop_last(), current, desired) + if c is Some && d is Some && c == d {
            Seq::<PackageChangeView>::empty()
        } else {
            seq![(k, c, d)]
        }
    }
}

pub open spec fn package_changes(current: Seq<Package>, desired: Seq<Package>) -> Seq<PackageChangeView> {
    changes_for(all_atoms(current, desired), current, desired)
}

pub open spec fn is_atom_of(ps: Seq<Package>, k: Seq<char>) -> bool {
    exists|j: int| 0 <= j < ps.len() && ps[j].package@ == k
}

proof fn lemma_last_for_found(ps: Seq<Package>, k: Seq<char>)
    requires
        is_atom_of(ps, k),
    ensures
        last_for(ps, k) is Some,
    decreases ps.len(),
{
    if ps.last().package@ != k {
        let j = choose|j: int| 0 <= j < ps.len() && ps[j].package@ == k;
        assert(j < ps.len() - 1);
        assert(ps.drop_last()[j] == ps[j]);
        lemma_last_for_found(ps.drop_last(), k);
    }
}

proof fn lemma_insert_key_members(s: Seq<Seq<char>>, k: Seq<char>)
    ensures
        forall|i: int|
            0 <= i < insert_key(s, k).len() ==> #[trigger] insert_key(s, k)[i] == k || exists|j: int|
                0 <= j < s.len() && insert_key(s, k)[i] == s[j],
    decreases s.len(),
{
    let r = insert_key(s, k);
    if s.len() == 0 {
    } else if s.last() == k {
        assert forall|i: int| 0 <= i < r.len() implies #[trigger] r[i] == k || exists|j: int|
            0 <= j < s.len() && r[i] == s[j] by {
            assert(r[i] == s[i]);
        }
    } else if seq_lt(s.last(), k) {
        assert forall|i: int| 0 <= i < r.len() implies #[trigger] r[i] == k || exists|j: int|
            0 <= j < s.len() && r[i] == s[j] by {
            if i < s.len() {
                assert(r[i] == s[i]);
            }
        }
    } else {
        let d = s.drop_last();
        lemma_insert_key_members(d, k);
        let q = insert_key(d, k);
        assert forall|i: int| 0 <= i < r.len() implies #[trigger] r[i] == k || exists|j: int|
            0 <= j < s.len() && r[i] == s[j] by {
            if i == r.len() - 1 {
                assert(r[i] == s[s.len() - 1]);
            } else {
                assert(r[i] == q[i]);
                if q[i] != k {
                    let j = choose|j: int| 0 <= j < d.len() && q[i] == d[j];
                    assert(d[j] == s[j]);
                }
            }
        }
    }
}

proof fn lemma_add_keys_members(keys: Seq<Seq<char>>, ps: Seq<Package>, d: Seq<Package>)
    requires
        d.len() <= ps.len(),
        d == ps.subrange(0, d.len() as int),
        forall|i: int| 0 <= i < keys.len() ==> is_atom_of(ps, #[trigger] keys[i]),
    ensures
        forall|i: int| 0 <= i < add_keys(keys, d).len() ==> is_atom_of(ps, #[trigger] add_keys(keys, d)[i]),
    decreases d.len(),
{
    if d.len() > 0 {
        let dd = d.drop_last();
        assert(dd =~= ps.subrange(0, dd.len() as int));
        lemma_add_keys_members(keys, ps, dd);
        let prev = add_keys(keys, dd);
        lemma_insert_key_members(prev, d.last().package@);
        let r = add_keys(keys, d);
        assert forall|i: int| 0 <= i < r.len() implies is_atom_of(ps, #[trigger] r[i]) by {
            if r[i] == d.last().package@ {
                assert(ps[d.len() - 1] == d[d.len() - 1]);
            } else {
                let j = choose|j: int| 0 <= j < prev.len() && r[i] == prev[j];
                assert(is_atom_of(ps, prev[j]));
            }
        }
    }
}

proof fn lemma_no_changes_for_known(keys: Seq<Seq<char>>, ps: Seq<Package>)
    requires
        forall|i: int| 0 <= i < keys.len() ==> is_atom_of(ps, #[trigger] keys[i]),
    ensures
        changes_for(keys, ps, ps).len() == 0,
    decreases keys.len(),
{
    if keys.len() > 0 {
        let d = keys.drop_last();
        assert forall|i: int| 0 <= i < d.len() implies is_atom_of(ps, #[trigger] d[i]) by {
            assert(d[i] == keys[i]);
        }
        lemma_no_changes_for_known(d, ps);
        assert(is_atom_of(ps, keys[keys.len() - 1]));
        lemma_last_for_found(ps, keys.last());
    }
}

/// Moving a package list to itself needs no change: every atom's requests
/// are identical on both sides, so nothing is reported.
pub proof fn lemma_diff_of_identical_lists_is_empty(ps: Seq<Package>)
    ensures
        package_changes(ps, ps).len() == 0,
{
    assert(ps.subrange(0, ps.len() as int) =~= ps);
    lemma_add_keys_members(Seq::empty(), ps, ps);
    lemma_add_keys_members(add_keys(Seq::empty(), ps), ps, ps);
    lemma_no_changes_for_known(all_atoms(ps, ps), ps);
}

proof fn lemma_insert_key_contains(s: Seq<Seq<char>>, k: Seq<char>)
    ensures
        insert_key(s, k).contains(k),
        forall|x: Seq<char>| s.contains(x) ==> #[trigger] insert_key(s, k).contains(x),
    decreases s.len(),
{
    let r = insert_key(s, k);
    if s.len() == 0 {
        assert(r[0] == k);
    } else if s.last() == k {
        assert(r[s.len() - 1] == k);
    } else if seq_lt(s.last(), k) {
        assert(r[s.len() as int] == k);
        assert forall|x: Seq<char>| s.contains(x) implies r.contains(x) by {
            let i = choose|i: int| 0 <= i < s.len() && s[i] == x;
            assert(r[i] == s[i]);
        }
    } else {
        let d = s.drop_last();
        lemma_insert_key_contains(d, k);
        let q = insert_key(d, k);
        let i = choose|i: int| 0 <= i < q.len() && q[i] == k;
        assert(r[i] == q[i]);
        assert forall|x: Seq<char>| s.contains(x) implies r.contains(x) by {
            let j = choose|j: int| 0 <= j < s.len() && s[j] == x;
            if j == s.len() - 1 {
                assert(r[r.len() - 1] == x);
            } else {
                assert(d[j] == x);
                assert(d.contains(x));
                assert(q.contains(x));
                let t = choose|t: int| 0 <= t < q.len() && q[t] == x;
                assert(r[t] == q[t]);
            }
        }
    }
}

proof fn lemma_add_keys_contains(keys: Seq<Seq<char>>, ps: Seq<Package>)
    ensures
        forall|x: Seq<char>| keys.contains(x) ==> #[trigger] add_keys(keys, ps).contains(x),
        forall|j: int| 0 <= j < ps.len() ==> add_keys(keys, ps).contains(#[trigger] ps[j].package@),
    decreases ps.len(),
{
    if ps.len() > 0 {
        let d = ps.drop_last();
        lemma_add_keys_contains(keys, d);
        lemma_insert_key_contains(add_keys(keys, d), ps.last().package@);
        assert forall|j: int| 0 <= j < ps.len() implies add_keys(keys, ps).contains(
            #[trigger] ps[j].package@,
        ) by {
            if j < ps.len() - 1 {
                assert(d[j] == ps[j]);
                assert(add_keys(keys, d).contains(d[j].package@));
            }
        }
    }
}

proof fn lemma_changes_for_reports(keys: Seq<Seq<char>>, current: Seq<Package>, desired: Seq<Package>, k: Seq<char>)
    requires
        keys.contains(k),
        ({
            let c = opt_pkg_view(last_for(current, k));
            let d = opt_pkg_view(last_for(desired, k));
            !(c is Some && d is Some && c == d)
        }),
    ensures
        changes_for(keys, current, desired).contains(
            (k, opt_pkg_view(last_for(current, k)), opt_pkg_view(last_for(desired, k))),
        ),
    decreases keys.len(),
{
    let e = (k, opt_pkg_view(last_for(current, k)), opt_pkg_view(last_for(desired, k)));
    let prev = changes_for(keys.drop_last(), current, desired);
    let all = changes_for(keys, current, desired);
    if keys.last() == k {
        assert(all[prev.len() as int] == e);
    } else {
        let i = choose|i: int| 0 <= i < keys.len() && keys[i] == k;
        assert(keys.drop_last()[i] == k);
        lemma_changes_for_reports(keys.drop_last(), current, desired, k);
        let t = choose|t: int| 0 <= t < prev.len() && prev[t] == e;
        assert(all[t] == prev[t]);
    }
}

proof fn lemma_changes_for_entries(keys: Seq<Seq<char>>, current: Seq<Package>, desired: Seq<Package>)
    ensures
        forall|i: int|
            0 <= i < changes_for(keys, current, desired).len() ==> {
                let e = #[trigger] changes_for(keys, current, desired)[i];
                &&& keys.contains(e.0)
                &&& e.1 == opt_pkg_view(last_for(current, e.0))
                &&& e.2 == opt_pkg_view(last_for(desired, e.0))
                &&& !(e.1 is Some && e.2 is Some && e.1 == e.2)
            },
    decreases keys.len(),
{
    if keys.len() > 0 {
        let d = keys.drop_last();
        lemma_changes_for_entries(d, current, desired);
        let prev = changes_for(d, current, desired);
        let all = changes_for(keys, current, desired);
        assert forall|i: int| 0 <= i < all.len() implies {
            let e = #[trigger] all[i];
            &&& keys.contains(e.0)
            &&& e.1 == opt_pkg_view(last_for(current, e.0))
            &&& e.2 == opt_pkg_view(last_for(desired, e.0))
            &&& !(e.1 is Some && e.2 is Some && e.1 == e.2)
        } by {
            if i < prev.len() {
                assert(all[i] == prev[i]);
                let j = choose|j: int| 0 <= j < d.len() && d[j] == prev[i].0;
                assert(keys[j] == d[j]);
            } else {
                assert(keys[keys.len() - 1] == all[i].0);
            }
        }
    }
}

/// The version a request pins, as text.
pub open spec fn requested_version(p: Package) -> Option<Seq<char>> {
    match p.version {
        Some(v) => Some(v@),
        None => None,
    }
}

/// An atom whose last request differs between the two lists in its version,
/// USE flags, keywords, accepted licenses, binary or from-source setting, or
/// that is requested on one side only, is reported, with both sides' last
/// requests. Nothing else is reported: every reported atom is new, gone or
/// changed.
pub proof fn lemma_diff_reports_exactly_the_changes(current: Seq<Package>, desired: Seq<Package>, k: Seq<char>)
    ensures
        ({
            let c = last_for(current, k);
            let d = last_for(desired, k);
            ((is_atom_of(current, k) || is_atom_of(desired, k)) && (c is None || d is None || ({
                let p = c->Some_0;
                let q = d->Some_0;
                ||| requested_version(p) != requested_version(q)
                ||| views(p.use_flags@) != views(q.use_flags@)
                ||| views(p.keywords@) != views(q.keywords@)
                ||| views(p.accept_licenses@) != views(q.accept_licenses@)
                ||| p.binary != q.binary
                ||| p.from_source != q.from_source
            }))) ==> package_changes(current, desired).contains((k, opt_pkg_view(c), opt_pkg_view(d)))
        }),
        forall|i: int|
            0 <= i < package_changes(current, desired).len() ==> {
                let e = #[trigger] package_changes(current, desired)[i];
                &&& e.1 == opt_pkg_view(last_for(current, e.0))
                &&& e.2 == opt_pkg_view(last_for(desired, e.0))
                &&& (e.1 is None || e.2 is None || e.1 != e.2)
            },
{
    let keys = all_atoms(current, desired);
    lemma_changes_for_entries(keys, current, desired);
    if is_atom_of(current, k) || is_atom_of(desired, k) {
        lemma_add_keys_contains(Seq::empty(), current);
        lemma_add_keys_contains(add_keys(Seq::empty(), current), desired);
        if is_atom_of(current, k) {
            let j = choose|j: int| 0 <= j < current.len() && current[j].package@ == k;
            assert(add_keys(Seq::empty(), current).contains(current[j].package@));
        } else {
            let j = choose|j: int| 0 <= j < desired.len() && desired[j].package@ == k;
            assert(keys.contains(desired[j].package@));
        }
        assert(keys.contains(k));
        let c = last_for(current, k);
        let d = last_for(desired, k);
        if c is Some && d is Some && opt_pkg_view(c) == opt_pkg_view(d) {
            assert(pkg_view(c->Some_0) == pkg_view(d->Some_0));
            assert(requested_version(c->Some_0) == pkg_view(c->Some_0).1);
            assert(requested_version(d->Some_0) == pkg_view(d->Some_0).1);
        } else {
            lemma_changes_for_reports(keys, current, desired, k);
        }
    }
}

fn strings_equal(a: &Vec<String>, b: &Vec<String>) -> (r: bool)
    ensures
        r == (views(a@) == views(b@)),
{
    if a.len() != b.len() {
        assert(views(a@).len() != views(b@).len());
        return false;
    }
    let mut i: usize = 0;
    while i < a.len()
        invariant
            i <= a.len(),
            a.len() == b.len(),
            forall|k: int| 0 <= k < i ==> #[trigger] a@[k]@ == b@[k]@,
        decreases a.len() - i,
    {
        if !crate::text::str_eq(a[i].as_str(), b[i].as_str()) {
            assert(views(a@)[i as int] != views(b@)[i as int]);
            return false;
        }
        i = i + 1;
    }
    assert(views(a@) =~= views(b@));
    true
}

fn packages_equal(a: &Package, b: &Package) -> (r: bool)
    ensures
        r == (pkg_view(*a) == pkg_view(*b)),
{
    let version_equal = match (&a.version, &b.version) {
        (Some(x), Some(y)) => crate::text::str_eq(x.as_str(), y.as_str()),
        (None, None) => true,
        _ => false,
    };
    crate::text::str_eq(a.package.as_str(), b.package.as_str()) && version_equal && strings_equal(
        &a.use_flags,
        &b.use_flags,
    ) && strings_equal(&a.keywords, &b.keywords) && strings_equal(&a.accept_licenses, &b.accept_licenses)
        && a.binary == b.binary && a.from_source == b.from_source
}

fn find_last(ps: &Vec<Package>, atom: &Vec<char>) -> (r: Option<usize>)
    ensures
        match r {
            Some(i) => i < ps.len() && last_for(ps@, atom@) == Some(ps@[i as int]),
            None => last_for(ps@, atom@) is None,
        },
{
    let mut i = ps.len();
    assert(ps@.subrange(0, ps.len() as int) =~= ps@);
    while i > 0
        invariant
            i <= ps.len(),
            last_for(ps@, atom@) == last_for(ps@.subrange(0, i as int), atom@),
        decreases i,
    {
        let ghost sub = ps@.subrange(0, i as int);
        proof {
            assert(sub.drop_last() =~= ps@.subrange(0, i - 1));
            assert(sub.last() == ps@[i - 1]);
        }
        let name = chars_of(ps[i - 1].package.as_str());
        if seq_eq(&name, atom) {
            return Some(i - 1);
        }
        i = i - 1;
    }
    None
}

fn insert_atom(keys: &mut Vec<String>, k: &String)
    ensures
        views(final(keys)@) == insert_key(views(old(keys)@), k@),
{
    let kc = chars_of(k.as_str());
    let ghost ks = views(keys@);
    let mut j = keys.len();
    assert(ks.subrange(0, ks.len() as int) =~= ks);
    assert(insert_key(ks, k@) + ks.subrange(ks.len() as int, ks.len() as int) =~= insert_key(ks, k@));
    while j > 0
        invariant
            j <= keys.len(),
            ks == views(keys@),
            ks == views(old(keys)@),
            kc@ == k@,
            insert_key(ks, k@) == insert_key(ks.subrange(0, j as int), k@) + ks.subrange(j as int, ks.len() as int),
        decreases j,
    {
        let last = chars_of(keys[j - 1].as_str());
        let ghost sub = ks.subrange(0, j as int);
        proof {
            assert(sub.drop_last() =~= ks.subrange(0, j - 1));
            assert(sub.last() == keys@[j - 1]@);
        }
        if seq_eq(&last, &kc) {
            assert(insert_key(sub, k@) == sub);
            assert(sub + ks.subrange(j as int, ks.len() as int) =~= ks);
            return;
        }
        if lex_lt(&last, &kc) {
            assert(insert_key(sub, k@) == sub.push(k@));
            let ghost before = views(keys@);
            keys.insert(j, k.clone());
            assert(views(keys@) =~= before.insert(j as int, k@));
            assert(views(keys@) =~= sub.push(k@) + ks.subrange(j as int, ks.len() as int));
            return;
        }
        proof {
            assert(insert_key(ks.subrange(0, j - 1), k@).push(sub.last()) + ks.subrange(j as int, ks.len() as int)
                =~= insert_key(ks.subrange(0, j - 1), k@) + ks.subrange(j - 1, ks.len() as int));
        }
        j = j - 1;
    }
    let ghost before = views(keys@);
    keys.insert(0, k.clone());
    assert(views(keys@) =~= before.insert(0, k@));
    assert(insert_key(ks, k@) =~= seq![k@] + ks) by {
        assert(ks.subrange(0, 0) =~= Seq::<Seq<char>>::empty());
        assert(ks.subrange(0, ks.len() as int) =~= ks);
    }
}

fn add_atoms(keys: &mut Vec<String>, ps: &Vec<Package>)
    ensures
        views(final(keys)@) == add_keys(views(old(keys)@), ps@),
{
    let ghost start = views(keys@);
    let mut i: usize = 0;
    assert(ps@.subrange(0, 0) =~= Seq::<Package>::empty());
    while i < ps.len()
        invariant
            i <= ps.len(),
            views(keys@) == add_keys(start, ps@.subrange(0, i as int)),
        decreases ps.len() - i,
    {
        let ghost sub = ps@.subrange(0, i + 1);
        proof {
            assert(sub.drop_last() =~= ps@.subrange(0, i as int));
            assert(sub.last() == ps@[i as int]);
        }
        insert_atom(keys, &ps[i].package);
        i = i + 1;
    }
    assert(ps@.subrange(0, ps.len() as int) =~= ps@);
}

/// The changes needed to move from `current` to `desired`, one per atom
/// whose (last) requests differ, ascending by atom.
pub fn diff_packages(current: &Vec<Package>, desired: &Vec<Package>) -> (r: Vec<PackageChange>)
    ensures
        r@.map_values(|c: PackageChange| change_view(c)) == package_changes(current@, desired@),
{
    let mut keys: Vec<String> = Vec::new();
    assert(views(keys@) =~= Seq::<Seq<char>>::empty());
    add_atoms(&mut keys, current);
    add_atoms(&mut keys, desired);
    let ghost ks = views(keys@);
    assert(ks == all_atoms(current@, desired@));
    let mut out: Vec<PackageChange> = Vec::new();
    let mut i: usize = 0;
    assert(ks.subrange(0, 0) =~= Seq::<Seq<char>>::empty());
    while i < keys.len()
        invariant
            i <= keys.len(),
            ks == views(keys@),
            out@.map_values(|c: PackageChange| change_view(c)) == changes_for(ks.subrange(0, i as int), current@, desired@),
        decreases keys.len() - i,
    {
        let ghost sub = ks.subrange(0, i + 1);
        proof {
            assert(sub.drop_last() =~= ks.subrange(0, i as int));
            assert(sub.last() == keys@[i as int]@);
        }
        let k = chars_of(keys[i].as_str());
        let c = find_last(current, &k);
        let d = find_last(desired, &k);
        let ghost before = out@.map_values(|c: PackageChange| change_view(c));
        let same = match (c, d) {
            (Some(a), Some(b)) => packages_equal(&current[a], &desired[b]),
            _ => false,
        };
        if !same {
            let cur = match c {
                Some(a) => Some(current[a].clone()),
                None => None,
            };
            let des = match d {
                Some(b) => Some(desired[b].clone()),
                None => None,
            };
            let change = PackageChange { package: keys[i].clone(), current: cur, desired: des };
            proof {
                match c {
                    Some(a) => {
                        assert(pkg_view(cur->Some_0) == pkg_view(current@[a as int]));
                    },
                    None => {},
                }
                match d {
                    Some(b) => {
                        assert(pkg_view(des->Some_0) == pkg_view(desired@[b as int]));
                    },
                    None => {},
                }
            }
            out.push(change);
            assert(out@.map_values(|c: PackageChange| change_view(c)) =~= before.push(change_view(change)));
        } else {
            assert(before + Seq::<PackageChangeView>::empty() =~= before);
        }
        i = i + 1;
    }
    assert(ks.subrange(0, keys.len() as int) =~= ks);
    out
}

} // verus!

verus! {

/// How the Portage world set follows a manifest change: packages newly in
/// the manifest are selected, packages gone from it deselected.
#[derive(Debug, Clone, PartialEq, Eq)]
pub struct WorldUpdate {
    pub select: Vec<String>,
    pub deselect: Vec<String>,
}

pub open spec fn added_atoms(cs: Seq<PackageChange>) -> Seq<Seq<char>>
    decreases cs.len(),
{
    if cs.len() == 0 {
        seq![]
    } else {
        added_atoms(cs.drop_last()) + if cs.last().current is None && cs.last().desired is Some {
            seq![cs.last().package@]
        } else {
            seq![]
        }
    }
}

pub open spec fn removed_atoms(cs: Seq<PackageChange>) -> Seq<Seq<char>>
    decreases cs.len(),
{
    if cs.len() == 0 {
        seq![]
    } else {
        removed_atoms(cs.drop_last()) + if cs.last().current is Some && cs.last().desired is None {
            seq![cs.last().package@]
        } else {
            seq![]
        }
    }
}

/// The world-set update for a list of changes, in the changes' order.
pub fn reconcile_world(changes: &Vec<PackageChange>) -> (r: WorldUpdate)
    ensures
        crate::text::sviews(r.select@) == added_atoms(changes@),
        crate::text::sviews(r.deselect@) == removed_atoms(changes@),
{
    let mut select: Vec<String> = Vec::new();
    let mut deselect: Vec<String> = Vec::new();
    let mut i: usize = 0;
    assert(changes@.subrange(0, 0) =~= Seq::<PackageChange>::empty());
    assert(crate::text::sviews(select@) =~= added_atoms(changes@.subrange(0, 0)));
    assert(crate::text::sviews(deselect@) =~= removed_atoms(changes@.subrange(0, 0)));
    while i < changes.len()
        invariant
            i <= changes.len(),
            crate::text::sviews(select@) == added_atoms(changes@.subrange(0, i as int)),
            crate::text::sviews(deselect@) == removed_atoms(changes@.subrange(0, i as int)),
        decreases changes.len() - i,
    {
        let ghost next = changes@.subrange(0, i + 1);
        let ghost s0 = crate::text::sviews(select@);
        let ghost d0 = crate::text::sviews(deselect@);
        proof {
            assert(next.drop_last() =~= changes@.subrange(0, i as int));
            assert(next.last() == changes@[i as int]);
        }
        let c = &changes[i];
        if c.current.is_none() && c.desired.is_some() {
            select.push(c.package.clone());
            assert(crate::text::sviews(select@) =~= s0.push(c.package@));
        }
        if c.current.is_some() && c.desired.is_none() {
            deselect.push(c.package.clone());
            assert(crate::text::sviews(deselect@) =~= d0.push(c.package@));
        }
        i = i + 1;
        assert(crate::text::sviews(select@) =~= added_atoms(changes@.subrange(0, i as int)));
        assert(crate::text::sviews(deselect@) =~= removed_atoms(changes@.subrange(0, i as int)));
    }
    assert(changes@.subrange(0, changes.len() as int) =~= changes@);
    WorldUpdate { select, deselect }
}

} // verus!
