//! Package builds inside the target: the linker the compiler flags demand,
//! and how emerge progress is reported.
use vstd::prelude::*;

use crate::exec::StepEvent;
use crate::install::planner::{debug_quoted, push_debug_quoted, SystemInstallError};
use crate::text::{
    chars_of, push_decimal, push_str, split_words, starts_with, string_of, sviews, vviews, words,
};

verus! {

/// The linker a single compiler flag selects: the non-empty name after
/// `-fuse-ld=`.
pub open spec fn flag_linker(w: Seq<char>) -> Option<Seq<char>> {
    if starts_with(w, "-fuse-ld="@) && w.len() > 9 {
        Some(w.subrange(9, w.len() as int))
    } else {
        None
    }
}

/// The linker the last `-fuse-ld=<name>` flag selects, as gcc reads them.
pub open spec fn last_linker(ws: Seq<Seq<char>>) -> Option<Seq<char>>
    decreases ws.len(),
{
    if ws.len() == 0 {
        None
    } else {
        match flag_linker(ws.last()) {
            Some(n) => Some(n),
            None => last_linker(ws.drop_last()),
        }
    }
}

/// The linker that `ldflags` asks gcc to use, if any.
pub fn requested_linker(ldflags: &str) -> (r: Option<String>)
    ensures
        match r {
            Some(n) => last_linker(words(ldflags@)) == Some(n@),
            None => last_linker(words(ldflags@)) is None,
        },
{
    let ws = split_words(&chars_of(ldflags));
    let ghost all = words(ldflags@);
    assert(vviews(ws@) == all);
    assert(all.subrange(0, ws.len() as int) =~= all);
    let mut i = ws.len();
    while i > 0
        invariant
            i <= ws.len(),
            vviews(ws@) == all,
            all == words(ldflags@),
            last_linker(all) == last_linker(all.subrange(0, i as int)),
        decreases i,
    {
        let w = &ws[i - 1];
        let ghost pre = all.subrange(0, i as int);
        proof {
            assert(pre.last() == w@);
            assert(pre.drop_last() =~= all.subrange(0, i - 1));
        }
        if crate::text::has_prefix(w, "-fuse-ld=") && w.len() > 9 {
            proof {
                reveal_strlit("-fuse-ld=");
                assert(flag_linker(w@) == Some(w@.subrange(9, w@.len() as int)));
            }
            let name = crate::text::slice(w, 9, w.len());
            return Some(string_of(&name));
        }
        proof {
            reveal_strlit("-fuse-ld=");
        }
        i = i - 1;
    }
    assert(all.subrange(0, 0) =~= Seq::<Seq<char>>::empty());
    None
}

/// A line of emerge output, as the build runner classifies it.
#[allow(inconsistent_fields)]
#[derive(Debug, Clone, PartialEq, Eq)]
pub enum EmergeLine {
    BuildStart { package: String },
    BuildProgress { package: Option<String>, line: String },
    BuildComplete { package: String, completed: u64, total: Option<u64> },
    FetchStart { package: String },
    FetchComplete { package: String },
    Error { package: Option<String>, message: String },
}

/// How an emerge line is reported to the installer.
pub open spec fn emerge_line_text(l: EmergeLine) -> Seq<char> {
    match l {
        EmergeLine::BuildStart { package } => "emerging "@ + package@,
        EmergeLine::BuildProgress { package, line } => match package {
            Some(p) => p@ + ": "@ + line@,
            None => line@,
        },
        EmergeLine::BuildComplete { package, completed, total } => match total {
            Some(t) => "completed "@ + package@ + " ("@ + crate::text::decimal(completed as nat)
                + "/"@ + crate::text::decimal(t as nat) + ")"@,
            None => "completed "@ + package@,
        },
        EmergeLine::FetchStart { package } => "fetching "@ + package@,
        EmergeLine::FetchComplete { package } => "fetched "@ + package@,
        EmergeLine::Error { package, message } => match package {
            Some(p) => p@ + ": "@ + message@,
            None => message@,
        },
    }
}

/// The installer event reporting an emerge line.
pub fn emerge_event(l: &EmergeLine) -> (r: StepEvent)
    ensures
        r matches StepEvent::StepOutput { line } && line@ == emerge_line_text(*l),
{
    let mut v: Vec<char> = Vec::new();
    match l {
        EmergeLine::BuildStart { package } => {
            push_str(&mut v, "emerging ");
            push_str(&mut v, package.as_str());
        },
        EmergeLine::BuildProgress { package, line } => {
            match package {
                Some(p) => {
                    push_str(&mut v, p.as_str());
                    push_str(&mut v, ": ");
                },
                None => {},
            }
            push_str(&mut v, line.as_str());
        },
        EmergeLine::BuildComplete { package, completed, total } => {
            push_str(&mut v, "completed ");
            push_str(&mut v, package.as_str());
            match total {
                Some(t) => {
                    push_str(&mut v, " (");
                    push_decimal(&mut v, *completed);
                    push_str(&mut v, "/");
                    push_decimal(&mut v, *t);
                    push_str(&mut v, ")");
                },
                None => {},
            }
        },
        EmergeLine::FetchStart { package } => {
            push_str(&mut v, "fetching ");
            push_str(&mut v, package.as_str());
        },
        EmergeLine::FetchComplete { package } => {
            push_str(&mut v, "fetched ");
            push_str(&mut v, package.as_str());
        },
        EmergeLine::Error { package, message } => {
            match package {
                Some(p) => {
                    push_str(&mut v, p.as_str());
                    push_str(&mut v, ": ");
                },
                None => {},
            }
            push_str(&mut v, message.as_str());
        },
    }
    proof {
        match l {
            EmergeLine::BuildProgress { package: None, line } => {
                assert(v@ =~= line@);
            },
            EmergeLine::Error { package: None, message } => {
                assert(v@ =~= message@);
            },
            _ => {},
        }
    }
    StepEvent::StepOutput { line: string_of(&v) }
}

} // verus!

verus! {

pub open spec fn gentoo_tree_of(target: Seq<char>) -> Seq<char> {
    crate::install::steps::tpath(target, "var/db/repos/gentoo"@)
}

/// Packages are emerged only into a target whose Gentoo repository carries
/// its metadata cache (`metadata/md5-cache`).
pub fn check_target_portage_tree(target_mount: &str, md5_cache_present: bool) -> (r: Result<(), SystemInstallError>)
    ensures
        md5_cache_present ==> r is Ok,
        !md5_cache_present ==> (r matches Err(SystemInstallError::PackageInstall(m))
            && m@ == "target Portage tree is missing or incomplete: "@ + gentoo_tree_of(target_mount@)),
{
    if md5_cache_present {
        return Ok(());
    }
    let tree = crate::disk::under(target_mount, "var/db/repos/gentoo");
    let mut v = chars_of("target Portage tree is missing or incomplete: ");
    push_str(&mut v, tree.as_str());
    Err(SystemInstallError::PackageInstall(string_of(&v)))
}

/// Where the target may hold `linker`: gcc resolves `-fuse-ld=<name>` to
/// `ld.<name>`, and some setups link the bare name instead.
pub fn linker_candidates(target_mount: &str, linker: &str) -> (r: (String, String))
    ensures
        r.0@ == crate::install::steps::tpath(target_mount@, "usr/bin/ld."@ + linker@),
        r.1@ == crate::install::steps::tpath(target_mount@, "usr/bin/"@ + linker@),
{
    let mut a = chars_of("usr/bin/ld.");
    push_str(&mut a, linker);
    let mut b = chars_of("usr/bin/");
    push_str(&mut b, linker);
    (
        crate::disk::under(target_mount, string_of(&a).as_str()),
        crate::disk::under(target_mount, string_of(&b).as_str()),
    )
}

pub open spec fn missing_linker_text(linker: Seq<char>, ldflags: Seq<char>) -> Seq<char> {
    "target has no '"@ + linker + "' linker, but compiler.ldflags is "@ + debug_quoted(ldflags)
        + "; every source build would fail to link. Ship the linker on the live image (sys-devel/mold in installcd-stage1.spec) or change compiler.ldflags in the manifest."@
}

pub open spec fn ccache_warning_text() -> Seq<char> {
    "Warning: compiler.ccache is enabled but ccache is not installed on the target; source builds proceed without a compiler cache"@
}

/// The build tools the generated make.conf demands but emerge never pulls
/// in: a linker named in LDFLAGS that the target lacks stops the install
/// before any build; a missing ccache only earns a warning.
pub fn check_build_tools(ldflags: &str, linker_found: bool, ccache: bool, ccache_found: bool) -> (r: Result<
    Option<String>,
    SystemInstallError,
>)
    ensures
        match last_linker(words(ldflags@)) {
            Some(l) if !linker_found => r matches Err(SystemInstallError::PackageInstall(m)) && m@
                == missing_linker_text(l, ldflags@),
            _ => if ccache && !ccache_found {
                r matches Ok(Some(w)) && w@ == ccache_warning_text()
            } else {
                r matches Ok(None)
            },
        },
{
    match requested_linker(ldflags) {
        Some(l) => {
            if !linker_found {
                let mut v = chars_of("target has no '");
                push_str(&mut v, l.as_str());
                push_str(&mut v, "' linker, but compiler.ldflags is ");
                push_debug_quoted(&mut v, &chars_of(ldflags));
                push_str(
                    &mut v,
                    "; every source build would fail to link. Ship the linker on the live image (sys-devel/mold in installcd-stage1.spec) or change compiler.ldflags in the manifest.",
                );
                return Err(SystemInstallError::PackageInstall(string_of(&v)));
            }
        },
        None => {},
    }
    if ccache && !ccache_found {
        return Ok(
            Some(
                "Warning: compiler.ccache is enabled but ccache is not installed on the target; source builds proceed without a compiler cache".to_owned(),
            ),
        );
    }
    Ok(None)
}

} // verus!
