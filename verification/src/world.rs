//! Adding package requests to a manifest on an installed system.
use vstd::prelude::*;

use crate::manifest::{Package, SystemManifest};
use crate::text::{push_chars, push_str, str_eq, string_of, sviews, trim, trim_str};

verus! {

/// Why a requested atom was refused.
#[derive(Debug, Clone, PartialEq, Eq)]
pub enum AtomError {
    /// The atom is blank.
    Empty,
    /// The atom starts with `-`, like a command-line flag; the trimmed atom.
    Invalid(String),
}

pub open spec fn atom_error_text(e: AtomError) -> Seq<char> {
    match e {
        AtomError::Empty => "package atom cannot be empty"@,
        AtomError::Invalid(a) => "invalid package atom `"@ + a@ + "`"@,
    }
}

impl AtomError {
    pub fn message(&self) -> (r: String)
        ensures
            r@ == atom_error_text(*self),
    {
        match self {
            AtomError::Empty => "package atom cannot be empty".to_owned(),
            AtomError::Invalid(a) => {
                let mut v: Vec<char> = Vec::new();
                push_str(&mut v, "invalid package atom `");
                push_str(&mut v, a.as_str());
                push_str(&mut v, "`");
                string_of(&v)
            },
        }
    }
}

/// Why a request is refused, from its trimmed text: blank, or a leading `-`.
pub open spec fn refusal(raw: Seq<char>) -> Option<Option<Seq<char>>> {
    let a = trim(raw);
    if a.len() == 0 {
        Some(None)
    } else if a[0] == '-' {
        Some(Some(a))
    } else {
        None
    }
}

pub open spec fn error_is(e: AtomError, f: Option<Seq<char>>) -> bool {
    match f {
        None => e is Empty,
        Some(a) => e matches AtomError::Invalid(s) && s@ == a,
    }
}

/// The index of the first refused request, if any.
pub open spec fn first_refused(reqs: Seq<Seq<char>>, i: int) -> bool {
    0 <= i < reqs.len() && refusal(reqs[i]) is Some && forall|k: int| 0 <= k < i ==> refusal(#[trigger] reqs[k]) is None
}

/// The trimmed atoms of `reqs` that are new, in request order: an atom
/// already in `existing`, or requested earlier, is not added again.
pub open spec fn new_atoms(existing: Seq<Seq<char>>, reqs: Seq<Seq<char>>) -> Seq<Seq<char>>
    decreases reqs.len(),
{
    if reqs.len() == 0 {
        seq![]
    } else {
        let prev = new_atoms(existing, reqs.drop_last());
        let a = trim(reqs.last());
        if (existing + prev).contains(a) {
            prev
        } else {
            prev.push(a)
        }
    }
}

pub open spec fn package_names(ps: Seq<Package>) -> Seq<Seq<char>> {
    ps.map_values(|p: Package| p.package@)
}

/// A request for `atom` alone: no version, flags, keywords or licenses.
pub open spec fn plain_request(p: Package, atom: Seq<char>) -> bool {
    &&& p.package@ == atom
    &&& p.version is None
    &&& p.use_flags@.len() == 0
    &&& p.keywords@.len() == 0
    &&& p.accept_licenses@.len() == 0
    &&& !p.binary
    &&& !p.from_source
}

/// `after` is `before` with a plain request for each of `atoms` appended.
pub open spec fn appended(before: Seq<Package>, after: Seq<Package>, atoms: Seq<Seq<char>>) -> bool {
    &&& after.len() == before.len() + atoms.len()
    &&& after.subrange(0, before.len() as int) == before
    &&& forall|i: int| 0 <= i < atoms.len() ==> plain_request(#[trigger] after[before.len() + i], atoms[i])
}

fn listed(ps: &Vec<Package>, atom: &Vec<char>) -> (r: bool)
    ensures
        r == package_names(ps@).contains(atom@),
{
    let s = string_of(atom);
    let mut i: usize = 0;
    while i < ps.len()
        invariant
            i <= ps.len(),
            s@ == atom@,
            forall|k: int| 0 <= k < i ==> ps@[k].package@ != atom@,
        decreases ps.len() - i,
    {
        if str_eq(ps[i].package.as_str(), s.as_str()) {
            assert(package_names(ps@)[i as int] == atom@);
            return true;
        }
        i = i + 1;
    }
    false
}

/// Adds a plain request for each new atom of `packages` (trimmed) to the
/// manifest and returns the added atoms in order. A blank atom or one that
/// starts with `-` is refused; the requests before it stay added.
pub fn add_packages_to_manifest(manifest: &mut SystemManifest, packages: &Vec<String>) -> (r: Result<
    Vec<String>,
    AtomError,
>)
    ensures
        *final(manifest) == (SystemManifest { packages: final(manifest).packages, ..*old(manifest) }),
        match r {
            Ok(added) => {
                &&& forall|i: int| 0 <= i < packages@.len() ==> refusal(#[trigger] sviews(packages@)[i]) is None
                &&& sviews(added@) == new_atoms(package_names(old(manifest).packages@), sviews(packages@))
                &&& appended(old(manifest).packages@, final(manifest).packages@, sviews(added@))
            },
            Err(e) => exists|k: int|
                first_refused(sviews(packages@), k) && error_is(e, refusal(sviews(packages@)[k])->Some_0) && appended(
                    old(manifest).packages@,
                    final(manifest).packages@,
                    new_atoms(package_names(old(manifest).packages@), sviews(packages@).subrange(0, k)),
                ),
        },
{
    let ghost old_pkgs = manifest.packages@;
    let ghost names0 = package_names(old_pkgs);
    let ghost reqs = sviews(packages@);
    let mut added: Vec<String> = Vec::new();
    let mut i: usize = 0;
    assert(reqs.subrange(0, 0) =~= Seq::<Seq<char>>::empty());
    assert(manifest.packages@.subrange(0, old_pkgs.len() as int) =~= old_pkgs);
    while i < packages.len()
        invariant
            i <= packages.len(),
            reqs == sviews(packages@),
            *manifest == (SystemManifest { packages: manifest.packages, ..*old(manifest) }),
            old_pkgs == old(manifest).packages@,
            names0 == package_names(old_pkgs),
            forall|k: int| 0 <= k < i ==> refusal(#[trigger] reqs[k]) is None,
            sviews(added@) == new_atoms(names0, reqs.subrange(0, i as int)),
            appended(old_pkgs, manifest.packages@, sviews(added@)),
            package_names(manifest.packages@) == names0 + sviews(added@),
        decreases packages.len() - i,
    {
        let ghost pre = reqs.subrange(0, i as int);
        let ghost next = reqs.subrange(0, i + 1);
        proof {
            assert(next.drop_last() =~= pre);
            assert(next.last() == reqs[i as int]);
        }
        let atom = trim_str(packages[i].as_str());
        if atom.len() == 0 {
            proof {
                assert(first_refused(reqs, i as int));
            }
            return Err(AtomError::Empty);
        }
        if atom[0] == '-' {
            proof {
                assert(first_refused(reqs, i as int));
            }
            return Err(AtomError::Invalid(string_of(&atom)));
        }
        let ghost before_names = package_names(manifest.packages@);
        let ghost before_pkgs = manifest.packages@;
        if !listed(&manifest.packages, &atom) {
            let s = string_of(&atom);
            let p = Package::new(s.as_str());
            manifest.packages.push(p);
            added.push(s);
            proof {
                assert(package_names(manifest.packages@) =~= before_names.push(atom@));
                assert(sviews(added@) =~= new_atoms(names0, next));
                assert(manifest.packages@.subrange(0, old_pkgs.len() as int) =~= before_pkgs.subrange(
                    0,
                    old_pkgs.len() as int,
                ));
                assert forall|j: int| 0 <= j < sviews(added@).len() implies plain_request(
                    #[trigger] manifest.packages@[old_pkgs.len() + j],
                    sviews(added@)[j],
                ) by {
                    if j < sviews(added@).len() - 1 {
                        assert(manifest.packages@[old_pkgs.len() + j] == before_pkgs[old_pkgs.len() + j]);
                    }
                }
            }
        } else {
            proof {
                assert(before_names =~= names0 + sviews(added@));
                assert(new_atoms(names0, next) == new_atoms(names0, pre));
            }
        }
        i = i + 1;
    }
    assert(reqs.subrange(0, packages.len() as int) =~= reqs);
    Ok(added)
}

} // verus!

verus! {

proof fn lemma_requests_present(existing: Seq<Seq<char>>, reqs: Seq<Seq<char>>)
    ensures
        forall|i: int|
            0 <= i < reqs.len() ==> (existing + new_atoms(existing, reqs)).contains(trim(#[trigger] reqs[i])),
    decreases reqs.len(),
{
    if reqs.len() > 0 {
        let pre = reqs.drop_last();
        lemma_requests_present(existing, pre);
        let e0 = existing + new_atoms(existing, pre);
        let e1 = existing + new_atoms(existing, reqs);
        assert forall|i: int| 0 <= i < reqs.len() implies e1.contains(trim(#[trigger] reqs[i])) by {
            if i < pre.len() {
                assert(pre[i] == reqs[i]);
                let k = choose|k: int| 0 <= k < e0.len() && e0[k] == trim(pre[i]);
                assert(e1[k] == e0[k]);
            } else {
                let a = trim(reqs.last());
                if e0.contains(a) {
                    assert(e1 == e0);
                } else {
                    assert(e1 =~= e0.push(a));
                    assert(e1[e1.len() - 1] == a);
                }
            }
        }
    }
}

proof fn lemma_nothing_new(known: Seq<Seq<char>>, reqs: Seq<Seq<char>>)
    requires
        forall|i: int| 0 <= i < reqs.len() ==> known.contains(trim(#[trigger] reqs[i])),
    ensures
        new_atoms(known, reqs) == Seq::<Seq<char>>::empty(),
    decreases reqs.len(),
{
    if reqs.len() > 0 {
        let pre = reqs.drop_last();
        assert forall|i: int| 0 <= i < pre.len() implies known.contains(trim(#[trigger] pre[i])) by {
            assert(pre[i] == reqs[i]);
        }
        lemma_nothing_new(known, pre);
        assert(known + Seq::<Seq<char>>::empty() =~= known);
        assert(known.contains(trim(reqs[reqs.len() - 1])));
    }
}

/// Requesting the same packages again adds nothing: once a request has been
/// applied, every atom it names is in the manifest.
pub proof fn lemma_add_is_idempotent(existing: Seq<Seq<char>>, reqs: Seq<Seq<char>>)
    ensures
        new_atoms(existing + new_atoms(existing, reqs), reqs) == Seq::<Seq<char>>::empty(),
{
    lemma_requests_present(existing, reqs);
    lemma_nothing_new(existing + new_atoms(existing, reqs), reqs);
}

} // verus!
