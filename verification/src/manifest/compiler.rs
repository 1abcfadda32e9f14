//! Compiler and build-system settings (make.conf).
use vstd::prelude::*;

use crate::text::{
    chars_of, has_prefix, join, join_chars, owned, push_str, slice, split_words, starts_with, string_of,
    vviews, words,
};

verus! {

/// Trade-off between compile time and runtime performance.
#[derive(Debug, Clone, Copy, PartialEq, Eq, Structural)]
pub enum BuildOptimisation {
    /// Fastest installs: mold linker, PGO disabled everywhere.
    Fast,
    /// Recommended default: PGO only for known high-value packages.
    Balanced,
    /// Maximum runtime performance: PGO enabled everywhere.
    Performance,
}

impl Default for BuildOptimisation {
    fn default() -> (r: Self)
        ensures
            r == BuildOptimisation::Balanced,
    {
        BuildOptimisation::Balanced
    }
}

/// Target CPU microarchitecture level, compiled into `-march=`.
#[derive(Debug, Clone, Copy, PartialEq, Eq, Structural)]
pub enum March {
    Native,
    X86_64,
    X86_64V2,
    X86_64V3,
    X86_64V4,
}

impl Default for March {
    /// x86-64-v3 is the widest baseline the binary package host serves.
    fn default() -> (r: Self)
        ensures
            r == March::X86_64V3,
    {
        March::X86_64V3
    }
}

pub open spec fn march_value(m: March) -> Seq<char> {
    match m {
        March::Native => "native"@,
        March::X86_64 => "x86-64"@,
        March::X86_64V2 => "x86-64-v2"@,
        March::X86_64V3 => "x86-64-v3"@,
        March::X86_64V4 => "x86-64-v4"@,
    }
}

pub open spec fn march_flag(m: March) -> Seq<char> {
    "-march="@ + march_value(m)
}

/// The package and kernel binary hosts for a baseline march; none for
/// `Native`, which can only be built locally.
pub open spec fn binhost_for(m: March) -> Option<Seq<char>> {
    if m == March::Native {
        None
    } else {
        Some(
            "https://packages.oxysos.org/"@ + march_value(m) + "/ https://kernel.oxysos.org/"@
                + march_value(m) + "/"@,
        )
    }
}

impl March {
    /// The `-march=` value passed to the compiler.
    pub fn value(&self) -> (r: &'static str)
        ensures
            r@ == march_value(*self),
    {
        match self {
            March::Native => "native",
            March::X86_64 => "x86-64",
            March::X86_64V2 => "x86-64-v2",
            March::X86_64V3 => "x86-64-v3",
            March::X86_64V4 => "x86-64-v4",
        }
    }

    /// The full `-march=<value>` compiler flag.
    pub fn flag(&self) -> (r: String)
        ensures
            r@ == march_flag(*self),
    {
        let mut v: Vec<char> = Vec::new();
        push_str(&mut v, "-march=");
        push_str(&mut v, self.value());
        string_of(&v)
    }

    /// Binary host URIs for this baseline, or `None` for `Native`.
    pub fn binhost_url(&self) -> (r: Option<String>)
        ensures
            match (r, binhost_for(*self)) {
                (Some(s), Some(t)) => s@ == t,
                (None, None) => true,
                _ => false,
            },
    {
        if *self == March::Native {
            return None;
        }
        let mut v: Vec<char> = Vec::new();
        push_str(&mut v, "https://packages.oxysos.org/");
        push_str(&mut v, self.value());
        push_str(&mut v, "/ https://kernel.oxysos.org/");
        push_str(&mut v, self.value());
        push_str(&mut v, "/");
        Some(string_of(&v))
    }
}

/// Compiler and build system configuration, mapped to make.conf.
#[derive(Debug, Clone, PartialEq, Eq)]
pub struct Compiler {
    /// Base C flags, before `-march`.
    pub cflags: String,
    /// Base C++ flags, before `-march`.
    pub cxxflags: String,
    pub march: March,
    /// Binary package host; `None` disables binary package fetching.
    pub binhost: Option<String>,
    pub ldflags: String,
    /// Parallel make jobs.
    pub makeopts_jobs: usize,
    /// Parallel emerge jobs.
    pub emerge_jobs: usize,
    pub ccache: bool,
    pub optimisation: BuildOptimisation,
}

/// The defaults of a compiler configuration for a machine with `jobs`
/// logical CPUs.
pub open spec fn is_default_compiler(c: Compiler, jobs: usize) -> bool {
    &&& c.cflags@ == "-O2 -pipe"@
    &&& c.cxxflags@ == "-O2 -pipe"@
    &&& c.march == March::X86_64V3
    &&& match (c.binhost, binhost_for(March::X86_64V3)) {
        (Some(s), Some(t)) => s@ == t,
        _ => false,
    }
    &&& c.ldflags@ == "-fuse-ld=mold"@
    &&& c.makeopts_jobs == jobs
    &&& c.emerge_jobs == 2
    &&& c.ccache
    &&& c.optimisation == BuildOptimisation::Balanced
}

/// The CPU count assumed when none was detected.
pub const FALLBACK_CPU_COUNT: usize = 1;

impl Compiler {
    /// The default configuration for a machine with `jobs` logical CPUs.
    pub fn for_cpu_count(jobs: usize) -> (r: Self)
        ensures
            is_default_compiler(r, jobs),
    {
        let march = March::default();
        Compiler {
            cflags: owned("-O2 -pipe"),
            cxxflags: owned("-O2 -pipe"),
            binhost: march.binhost_url(),
            march,
            ldflags: owned("-fuse-ld=mold"),
            makeopts_jobs: jobs,
            emerge_jobs: 2,
            ccache: true,
            optimisation: BuildOptimisation::default(),
        }
    }

    /// Full CFLAGS with the configured `-march` appended.
    pub fn resolved_cflags(&self) -> (r: String)
        ensures
            r@ == composed_march(self.cflags@, self.march),
    {
        compose_march(self.cflags.as_str(), self.march)
    }

    /// Full CXXFLAGS with the configured `-march` appended.
    pub fn resolved_cxxflags(&self) -> (r: String)
        ensures
            r@ == composed_march(self.cxxflags@, self.march),
    {
        compose_march(self.cxxflags.as_str(), self.march)
    }
}

impl Default for Compiler {
    /// Uses [`FALLBACK_CPU_COUNT`] for the job count; callers that know the
    /// machine use [`Compiler::for_cpu_count`].
    fn default() -> (r: Self)
        ensures
            is_default_compiler(r, FALLBACK_CPU_COUNT),
    {
        Compiler::for_cpu_count(FALLBACK_CPU_COUNT)
    }
}

/// The words of a flag string other than `-march=` tokens.
pub open spec fn without_march(ws: Seq<Seq<char>>) -> Seq<Seq<char>>
    decreases ws.len(),
{
    if ws.len() == 0 {
        Seq::empty()
    } else if starts_with(ws.last(), "-march="@) {
        without_march(ws.drop_last())
    } else {
        without_march(ws.drop_last()).push(ws.last())
    }
}

/// `base` with every `-march=` token dropped and the flag for `march`
/// appended, words separated by single spaces.
pub open spec fn composed_march(base: Seq<char>, march: March) -> Seq<char> {
    join(without_march(words(base)).push(march_flag(march)), " "@)
}

/// Strips any `-march=` token from `base` and appends the flag for `march`,
/// keeping the manifest's `march` field the single source of truth.
pub fn compose_march(base: &str, march: March) -> (r: String)
    ensures
        r@ == composed_march(base@, march),
{
    let chars = chars_of(base);
    let ws = split_words(&chars);
    let mut kept: Vec<Vec<char>> = Vec::new();
    let mut i: usize = 0;
    while i < ws.len()
        invariant
            i <= ws.len(),
            vviews(kept@) == without_march(vviews(ws@).subrange(0, i as int)),
        decreases ws.len() - i,
    {
        let ghost prev = vviews(ws@).subrange(0, i as int);
        let ghost before = vviews(kept@);
        if !has_prefix(&ws[i], "-march=") {
            let w = slice(&ws[i], 0, ws[i].len());
            assert(w@ =~= ws@[i as int]@);
            kept.push(w);
            assert(vviews(kept@) =~= before.push(ws@[i as int]@));
        }
        i = i + 1;
        assert(vviews(ws@).subrange(0, i as int).drop_last() =~= prev);
    }
    assert(vviews(ws@).subrange(0, ws.len() as int) =~= vviews(ws@));
    let ghost before = vviews(kept@);
    let flag = march.flag();
    kept.push(chars_of(flag.as_str()));
    assert(vviews(kept@) =~= before.push(march_flag(march)));
    let joined = join_chars(&kept, " ");
    string_of(&joined)
}

} // verus!
