//! Provenance of resolved policy values.
use vstd::prelude::*;

use crate::manifest::{DrmDriver, VideoCard};

verus! {

/// Where a resolved value came from.
#[derive(Debug, Clone, Copy, PartialEq, Eq, Structural)]
pub enum DecisionSource {
    /// Declared in the manifest.
    Explicit,
    /// A built-in default.
    Default,
    /// Required by another resolved value.
    Dependency,
    /// Converted from a retired manifest field.
    LegacyInference,
}

pub open spec fn source_label(s: DecisionSource) -> Seq<char> {
    match s {
        DecisionSource::Explicit => "explicit"@,
        DecisionSource::Default => "default"@,
        DecisionSource::Dependency => "dependency"@,
        DecisionSource::LegacyInference => "legacy inference"@,
    }
}

impl DecisionSource {
    /// The label used when rendering a decision.
    pub fn label(&self) -> (r: &'static str)
        ensures
            r@ == source_label(*self),
    {
        match self {
            DecisionSource::Explicit => "explicit",
            DecisionSource::Default => "default",
            DecisionSource::Dependency => "dependency",
            DecisionSource::LegacyInference => "legacy inference",
        }
    }
}

/// A copy of a vector of plain values.
pub fn copy_vec<T: Copy>(v: &Vec<T>) -> (r: Vec<T>)
    ensures
        r@ == v@,
{
    let mut out: Vec<T> = Vec::new();
    let mut i: usize = 0;
    while i < v.len()
        invariant
            i <= v.len(),
            out@ == v@.subrange(0, i as int),
        decreases v.len() - i,
    {
        out.push(v[i]);
        i = i + 1;
        assert(out@ =~= v@.subrange(0, i as int));
    }
    assert(v@.subrange(0, v.len() as int) =~= v@);
    out
}

/// `s` with `x` appended unless already present.
pub open spec fn push_unique<T>(s: Seq<T>, x: T) -> Seq<T> {
    if s.contains(x) {
        s
    } else {
        s.push(x)
    }
}

/// Appends `x` to `v` unless already present.
pub fn push_unique_card(v: &mut Vec<VideoCard>, x: VideoCard)
    ensures
        final(v)@ == push_unique(old(v)@, x),
{
    let mut i: usize = 0;
    while i < v.len()
        invariant
            i <= v.len(),
            forall|k: int| 0 <= k < i ==> v@[k] != x,
        decreases v.len() - i,
    {
        if v[i] == x {
            assert(v@.contains(x));
            return;
        }
        i = i + 1;
    }
    assert(!v@.contains(x));
    v.push(x);
}

/// Whether `x` occurs in `v`.
pub fn contains_card(v: &Vec<VideoCard>, x: VideoCard) -> (r: bool)
    ensures
        r == v@.contains(x),
{
    let mut i: usize = 0;
    while i < v.len()
        invariant
            i <= v.len(),
            forall|k: int| 0 <= k < i ==> v@[k] != x,
        decreases v.len() - i,
    {
        if v[i] == x {
            return true;
        }
        i = i + 1;
    }
    false
}

/// Appends `x` to `v` unless already present.
pub fn push_unique_driver(v: &mut Vec<DrmDriver>, x: DrmDriver)
    ensures
        final(v)@ == push_unique(old(v)@, x),
{
    let mut i: usize = 0;
    while i < v.len()
        invariant
            i <= v.len(),
            forall|k: int| 0 <= k < i ==> v@[k] != x,
        decreases v.len() - i,
    {
        if v[i] == x {
            assert(v@.contains(x));
            return;
        }
        i = i + 1;
    }
    assert(!v@.contains(x));
    v.push(x);
}

/// Whether `x` occurs in `v`.
pub fn contains_driver(v: &Vec<DrmDriver>, x: DrmDriver) -> (r: bool)
    ensures
        r == v@.contains(x),
{
    let mut i: usize = 0;
    while i < v.len()
        invariant
            i <= v.len(),
            forall|k: int| 0 <= k < i ==> v@[k] != x,
        decreases v.len() - i,
    {
        if v[i] == x {
            return true;
        }
        i = i + 1;
    }
    false
}

} // verus!
