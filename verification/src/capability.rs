//! What a source image provides against a resolved graphics policy: the
//! image's own capability manifest when it ships one, otherwise what is found
//! on disk. The caller reads the files; the comparison is made here.
use vstd::prelude::*;

use crate::disk::{join_path, strip_leading_slashes, strip_slashes};
use crate::graphics::{
    GraphicsCapabilityComparison, GraphicsRequirements, MesaArtifactRequirement, RenderNode,
};
use crate::manifest::VmGraphics;
use crate::package_check::{lex_lt, seq_lt};
use crate::text::{
    chars_of, decimal, join, owned, push_chars, push_decimal, push_str, slice, starts_with,
    string_of, sviews, trim, trimmed, vviews,
};

verus! {

/// Where an image keeps its capability manifest, relative to its root.
pub const IMAGE_CAPABILITY_MANIFEST: &'static str = "usr/share/oxys/image-capabilities.toml";

/// Where the manifest's SHA-256 checksum is kept, relative to the root.
pub const IMAGE_CAPABILITY_CHECKSUM: &'static str = "usr/share/oxys/image-capabilities.toml.sha256";

// ---------------------------------------------------------------------------
// Kernel configuration.
// ---------------------------------------------------------------------------

/// The pieces of `s` between `\n` characters, as `str::split('\n')` yields
/// them.
pub open spec fn segments(s: Seq<char>) -> Seq<Seq<char>>
    decreases s.len(),
{
    if s.len() == 0 {
        seq![Seq::empty()]
    } else {
        let p = segments(s.drop_last());
        if s.last() == '\n' {
            p.push(Seq::empty())
        } else {
            p.update(p.len() - 1, p.last().push(s.last()))
        }
    }
}

pub proof fn lemma_segments_nonempty(s: Seq<char>)
    ensures
        segments(s).len() >= 1,
    decreases s.len(),
{
    if s.len() > 0 {
        lemma_segments_nonempty(s.drop_last());
    }
}

/// The option a kernel config line enables (`KEY=y` or `KEY=m`, around
/// whitespace).
pub open spec fn enabled_option(line: Seq<char>) -> Option<Seq<char>> {
    if exists|i: int| crate::text::first_index_of(line, '=', i) {
        let i = choose|i: int| crate::text::first_index_of(line, '=', i);
        let value = trim(line.subrange(i + 1, line.len() as int));
        if value == "y"@ || value == "m"@ {
            Some(trim(line.subrange(0, i)))
        } else {
            None
        }
    } else {
        None
    }
}

/// `s` with `x` added, keeping it strictly ascending.
pub open spec fn insert_unique(s: Seq<Seq<char>>, x: Seq<char>) -> Seq<Seq<char>>
    decreases s.len(),
{
    if s.len() == 0 {
        seq![x]
    } else if s.last() == x {
        s
    } else if seq_lt(s.last(), x) {
        s.push(x)
    } else {
        insert_unique(s.drop_last(), x).push(s.last())
    }
}

/// The options enabled by the lines, ascending and without repeats.
pub open spec fn enabled_options_of(lines: Seq<Seq<char>>) -> Seq<Seq<char>>
    decreases lines.len(),
{
    if lines.len() == 0 {
        Seq::empty()
    } else {
        let prev = enabled_options_of(lines.drop_last());
        match enabled_option(lines.last()) {
            Some(k) => insert_unique(prev, k),
            None => prev,
        }
    }
}

/// The options a kernel `.config` enables, in order and each once.
pub open spec fn enabled_options(contents: Seq<char>) -> Seq<Seq<char>> {
    enabled_options_of(segments(contents))
}

pub(crate) fn insert_sorted(v: &mut Vec<Vec<char>>, x: Vec<char>)
    ensures
        vviews(final(v)@) == insert_unique(vviews(old(v)@), x@),
    decreases old(v)@.len(),
{
    if v.len() == 0 {
        v.push(x);
        assert(vviews(v@) =~= seq![x@]);
        return;
    }
    let ghost before = vviews(v@);
    let last = v.pop().unwrap();
    let ghost rest = vviews(v@);
    assert(rest =~= before.drop_last());
    assert(before.last() == last@);
    if crate::text::seq_eq(&last, &x) {
        v.push(last);
        assert(vviews(v@) =~= before);
    } else if lex_lt(&last, &x) {
        v.push(last);
        v.push(x);
        assert(vviews(v@) =~= before.push(x@));
    } else {
        insert_sorted(v, x);
        let ghost mid = vviews(v@);
        v.push(last);
        assert(vviews(v@) =~= mid.push(last@));
    }
}

fn option_of_line(line: &Vec<char>) -> (r: Option<Vec<char>>)
    ensures
        match r {
            Some(k) => enabled_option(line@) == Some(k@),
            None => enabled_option(line@) is None,
        },
{
    match crate::text::find_char(line, '=') {
        None => None,
        Some(i) => {
            proof {
                let j = choose|j: int| crate::text::first_index_of(line@, '=', j);
                assert(j == i);
            }
            assert(i < line.len());
            let value = trimmed(&slice(line, i + 1, line.len()));
            let y = chars_of("y");
            let m = chars_of("m");
            if crate::text::seq_eq(&value, &y) || crate::text::seq_eq(&value, &m) {
                Some(trimmed(&slice(line, 0, i)))
            } else {
                None
            }
        },
    }
}

/// The options a kernel `.config` enables (`KEY=y` or `KEY=m`), ascending
/// and each once.
pub fn parse_enabled_kernel_options(contents: &str) -> (r: Vec<String>)
    ensures
        sviews(r@) == enabled_options(contents@),
{
    let s = chars_of(contents);
    let mut out: Vec<Vec<char>> = Vec::new();
    let mut cur: Vec<char> = Vec::new();
    let mut i: usize = 0;
    proof {
        assert(s@.subrange(0, 0) =~= Seq::<char>::empty());
    }
    while i < s.len()
        invariant
            i <= s.len(),
            s@ == contents@,
            segments(s@.subrange(0, i as int)).len() >= 1,
            cur@ == segments(s@.subrange(0, i as int)).last(),
            vviews(out@) == enabled_options_of(segments(s@.subrange(0, i as int)).drop_last()),
        decreases s.len() - i,
    {
        let ghost pre = s@.subrange(0, i as int);
        let ghost next = s@.subrange(0, i + 1);
        proof {
            assert(next.drop_last() =~= pre);
            assert(next.last() == s@[i as int]);
            lemma_segments_nonempty(pre);
        }
        if s[i] == '\n' {
            let ghost before = vviews(out@);
            match option_of_line(&cur) {
                Some(k) => insert_sorted(&mut out, k),
                None => {},
            }
            proof {
                let segs = segments(pre);
                assert(segments(next) == segs.push(Seq::empty()));
                assert(segments(next).drop_last() =~= segs);
                assert(segs.drop_last() == segments(pre).drop_last());
                assert(segs.last() == cur@);
            }
            cur = Vec::new();
            proof {
                assert(cur@ =~= Seq::<char>::empty());
            }
        } else {
            cur.push(s[i]);
            proof {
                let segs = segments(pre);
                let nsegs = segments(next);
                assert(nsegs == segs.update(segs.len() - 1, segs.last().push(s@[i as int])));
                assert(nsegs.drop_last() =~= segs.drop_last());
            }
        }
        i = i + 1;
    }
    proof {
        assert(s@.subrange(0, s.len() as int) =~= s@);
        lemma_segments_nonempty(s@);
    }
    let ghost segs = segments(s@);
    let ghost before = vviews(out@);
    match option_of_line(&cur) {
        Some(k) => insert_sorted(&mut out, k),
        None => {},
    }
    proof {
        assert(segs.drop_last().push(segs.last()) =~= segs);
        assert(segs =~= segs.drop_last().push(cur@));
    }
    let mut result: Vec<String> = Vec::new();
    let mut j: usize = 0;
    while j < out.len()
        invariant
            j <= out.len(),
            sviews(result@) == vviews(out@).subrange(0, j as int),
        decreases out.len() - j,
    {
        let ghost before = sviews(result@);
        result.push(string_of(&out[j]));
        j = j + 1;
        assert(sviews(result@) =~= before.push(out@[j - 1]@));
        assert(vviews(out@).subrange(0, j as int) =~= vviews(out@).subrange(0, j - 1).push(out@[j - 1]@));
    }
    assert(vviews(out@).subrange(0, out.len() as int) =~= vviews(out@));
    result
}

// ---------------------------------------------------------------------------
// Render nodes.
// ---------------------------------------------------------------------------

/// A `/sys/class/drm` entry as read: its name, and the contents of its
/// `device/vendor` file when readable.
#[derive(Debug, Clone, PartialEq, Eq)]
pub struct DrmEntry {
    pub name: String,
    pub vendor: Option<String>,
}

/// ASCII letters lowered, everything else kept.
pub open spec fn ascii_lower(s: Seq<char>) -> Seq<char> {
    s.map_values(|c: char| if 'A' <= c && c <= 'Z' {
        (((c as u8) + 32) as u8) as char
    } else {
        c
    })
}

fn ascii_lowercase(s: &Vec<char>) -> (r: Vec<char>)
    ensures
        r@ == ascii_lower(s@),
{
    let mut out: Vec<char> = Vec::new();
    let mut i: usize = 0;
    while i < s.len()
        invariant
            i <= s.len(),
            out@ == ascii_lower(s@.subrange(0, i as int)),
        decreases s.len() - i,
    {
        let c = s[i];
        let l = if 'A' <= c && c <= 'Z' {
            ((c as u8) + 32) as char
        } else {
            c
        };
        out.push(l);
        i = i + 1;
        assert(out@ =~= ascii_lower(s@.subrange(0, i as int)));
    }
    assert(s@.subrange(0, s.len() as int) =~= s@);
    out
}

/// The render node an entry describes, if it is one: `renderD*` entries
/// with a readable vendor.
pub open spec fn node_of(e: DrmEntry) -> Option<(Seq<char>, Seq<char>)> {
    if starts_with(e.name@, "renderD"@) && e.vendor is Some {
        Some(("/dev/dri/"@ + e.name@, ascii_lower(trim(e.vendor->Some_0@))))
    } else {
        None
    }
}

/// `s` with `x` placed after every element whose path does not sort after
/// it (a stable insertion by path).
pub open spec fn insert_by_path(s: Seq<(Seq<char>, Seq<char>)>, x: (Seq<char>, Seq<char>)) -> Seq<(Seq<char>, Seq<char>)>
    decreases s.len(),
{
    if s.len() == 0 {
        seq![x]
    } else if !seq_lt(x.0, s.last().0) {
        s.push(x)
    } else {
        insert_by_path(s.drop_last(), x).push(s.last())
    }
}

/// The render nodes of the entries, sorted by path (stably).
pub open spec fn render_nodes_of(es: Seq<DrmEntry>) -> Seq<(Seq<char>, Seq<char>)>
    decreases es.len(),
{
    if es.len() == 0 {
        Seq::empty()
    } else {
        let prev = render_nodes_of(es.drop_last());
        match node_of(es.last()) {
            Some(n) => insert_by_path(prev, n),
            None => prev,
        }
    }
}

pub open spec fn node_rows(ns: Seq<RenderNode>) -> Seq<(Seq<char>, Seq<char>)> {
    ns.map_values(|n: RenderNode| (n.path@, n.vendor@))
}

fn insert_node(v: &mut Vec<RenderNode>, x: RenderNode)
    ensures
        node_rows(final(v)@) == insert_by_path(node_rows(old(v)@), (x.path@, x.vendor@)),
    decreases old(v)@.len(),
{
    if v.len() == 0 {
        v.push(x);
        assert(node_rows(v@) =~= seq![(x.path@, x.vendor@)]);
        return;
    }
    let ghost before = node_rows(v@);
    let last = v.pop().unwrap();
    assert(node_rows(v@) =~= before.drop_last());
    assert(before.last() == (last.path@, last.vendor@));
    let xp = chars_of(x.path.as_str());
    let lp = chars_of(last.path.as_str());
    if !lex_lt(&xp, &lp) {
        v.push(last);
        let ghost xr = (x.path@, x.vendor@);
        v.push(x);
        assert(node_rows(v@) =~= before.push(xr));
    } else {
        insert_node(v, x);
        let ghost mid = node_rows(v@);
        let ghost lr = (last.path@, last.vendor@);
        v.push(last);
        assert(node_rows(v@) =~= mid.push(lr));
    }
}

/// The DRM render nodes among `/sys/class/drm` entries, with their PCI
/// vendor ids trimmed and lowered, sorted by device path.
pub fn render_nodes_from(entries: &Vec<DrmEntry>) -> (r: Vec<RenderNode>)
    ensures
        node_rows(r@) == render_nodes_of(entries@),
{
    let mut out: Vec<RenderNode> = Vec::new();
    let mut i: usize = 0;
    while i < entries.len()
        invariant
            i <= entries.len(),
            node_rows(out@) == render_nodes_of(entries@.subrange(0, i as int)),
        decreases entries.len() - i,
    {
        let e = &entries[i];
        proof {
            assert(entries@.subrange(0, i + 1).drop_last() =~= entries@.subrange(0, i as int));
            assert(entries@.subrange(0, i + 1).last() == entries@[i as int]);
        }
        if crate::text::str_starts_with(e.name.as_str(), "renderD") {
            match &e.vendor {
                Some(v) => {
                    let mut path = chars_of("/dev/dri/");
                    push_str(&mut path, e.name.as_str());
                    let vendor = ascii_lowercase(&crate::text::trim_str(v.as_str()));
                    insert_node(
                        &mut out,
                        RenderNode { path: string_of(&path), vendor: string_of(&vendor) },
                    );
                },
                None => {},
            }
        }
        i = i + 1;
    }
    assert(entries@.subrange(0, entries.len() as int) =~= entries@);
    out
}


// ---------------------------------------------------------------------------
// Order laws.
// ---------------------------------------------------------------------------

/// `a` sorts no later than `b`.
pub open spec fn seq_le(a: Seq<char>, b: Seq<char>) -> bool {
    !seq_lt(b, a)
}

proof fn lemma_seq_le_trans(a: Seq<char>, b: Seq<char>, c: Seq<char>)
    requires
        seq_le(a, b),
        seq_le(b, c),
    ensures
        seq_le(a, c),
{
    crate::package_check::lemma_seq_lt_total(a, b);
    crate::package_check::lemma_seq_lt_total(b, c);
    crate::package_check::lemma_seq_lt_total(a, c);
    if seq_lt(c, a) {
        if a == b {
            assert(seq_lt(c, b));
        } else if b == c {
            assert(seq_lt(b, a));
        } else {
            crate::package_check::lemma_seq_lt_trans(a, b, c);
            crate::package_check::lemma_seq_lt_trans(c, a, b);
        }
    }
}

/// Paths never decrease along the sequence.
pub open spec fn paths_sorted(s: Seq<(Seq<char>, Seq<char>)>) -> bool {
    forall|i: int, j: int| 0 <= i < j < s.len() ==> seq_le(#[trigger] s[i].0, #[trigger] s[j].0)
}

proof fn lemma_insert_by_path(s: Seq<(Seq<char>, Seq<char>)>, x: (Seq<char>, Seq<char>))
    requires
        paths_sorted(s),
    ensures
        paths_sorted(insert_by_path(s, x)),
        insert_by_path(s, x).len() == s.len() + 1,
        forall|i: int|
            0 <= i < insert_by_path(s, x).len() ==> #[trigger] insert_by_path(s, x)[i] == x || exists|
                j: int,
            | 0 <= j < s.len() && insert_by_path(s, x)[i] == s[j],
    decreases s.len(),
{
    let r = insert_by_path(s, x);
    if s.len() == 0 {
    } else if !seq_lt(x.0, s.last().0) {
        assert forall|i: int, j: int| 0 <= i < j < r.len() implies seq_le(#[trigger] r[i].0, #[trigger] r[j].0) by {
            if j == r.len() - 1 {
                if i < s.len() - 1 {
                    assert(seq_le(s[i].0, s[s.len() - 1].0));
                    lemma_seq_le_trans(s[i].0, s[s.len() - 1].0, x.0);
                }
            } else {
                assert(r[i] == s[i] && r[j] == s[j]);
            }
        }
        assert forall|i: int| 0 <= i < r.len() implies #[trigger] r[i] == x || exists|j: int|
            0 <= j < s.len() && r[i] == s[j] by {
            if i < s.len() {
                assert(r[i] == s[i]);
            }
        }
    } else {
        let d = s.drop_last();
        assert(paths_sorted(d)) by {
            assert forall|i: int, j: int| 0 <= i < j < d.len() implies seq_le(#[trigger] d[i].0, #[trigger] d[j].0) by {
                assert(d[i] == s[i] && d[j] == s[j]);
            }
        }
        lemma_insert_by_path(d, x);
        let q = insert_by_path(d, x);
        assert(r == q.push(s.last()));
        assert forall|i: int| 0 <= i < q.len() implies seq_le(#[trigger] q[i].0, s.last().0) by {
            if q[i] == x {
                crate::package_check::lemma_seq_lt_total(x.0, s.last().0);
                crate::package_check::lemma_seq_lt_irrefl(x.0);
                if seq_lt(s.last().0, x.0) {
                    crate::package_check::lemma_seq_lt_trans(x.0, s.last().0, x.0);
                }
            } else {
                let j = choose|j: int| 0 <= j < d.len() && q[i] == d[j];
                assert(d[j] == s[j]);
                assert(seq_le(s[j].0, s[s.len() - 1].0));
            }
        }
        assert forall|i: int, j: int| 0 <= i < j < r.len() implies seq_le(#[trigger] r[i].0, #[trigger] r[j].0) by {
            if j == r.len() - 1 {
                assert(r[i] == q[i]);
            } else {
                assert(r[i] == q[i] && r[j] == q[j]);
            }
        }
        assert forall|i: int| 0 <= i < r.len() implies #[trigger] r[i] == x || exists|j: int|
            0 <= j < s.len() && r[i] == s[j] by {
            if i == r.len() - 1 {
                assert(r[i] == s[s.len() - 1]);
            } else {
                assert(r[i] == q[i]);
                if q[i] != x {
                    let j = choose|j: int| 0 <= j < d.len() && q[i] == d[j];
                    assert(d[j] == s[j]);
                }
            }
        }
    }
}

/// Render nodes come out sorted by device path.
pub proof fn lemma_render_nodes_sorted(es: Seq<DrmEntry>)
    ensures
        paths_sorted(render_nodes_of(es)),
    decreases es.len(),
{
    if es.len() > 0 {
        lemma_render_nodes_sorted(es.drop_last());
        match node_of(es.last()) {
            Some(n) => lemma_insert_by_path(render_nodes_of(es.drop_last()), n),
            None => {},
        }
    }
}

/// Strictly ascending: sorted and without repeats.
pub open spec fn strictly_ascending(s: Seq<Seq<char>>) -> bool {
    forall|i: int, j: int| 0 <= i < j < s.len() ==> seq_lt(#[trigger] s[i], #[trigger] s[j])
}

pub proof fn lemma_insert_unique(s: Seq<Seq<char>>, x: Seq<char>)
    requires
        strictly_ascending(s),
    ensures
        strictly_ascending(insert_unique(s, x)),
        forall|i: int|
            0 <= i < insert_unique(s, x).len() ==> #[trigger] insert_unique(s, x)[i] == x || exists|
                j: int,
            | 0 <= j < s.len() && insert_unique(s, x)[i] == s[j],
    decreases s.len(),
{
    let r = insert_unique(s, x);
    if s.len() == 0 {
    } else if s.last() == x {
    } else if seq_lt(s.last(), x) {
        assert forall|i: int, j: int| 0 <= i < j < r.len() implies seq_lt(#[trigger] r[i], #[trigger] r[j]) by {
            if j == r.len() - 1 {
                if i < s.len() - 1 {
                    crate::package_check::lemma_seq_lt_trans(s[i], s[s.len() - 1], x);
                }
            } else {
                assert(r[i] == s[i] && r[j] == s[j]);
            }
        }
        assert forall|i: int| 0 <= i < r.len() implies #[trigger] r[i] == x || exists|j: int|
            0 <= j < s.len() && r[i] == s[j] by {
            if i < s.len() {
                assert(r[i] == s[i]);
            }
        }
    } else {
        let d = s.drop_last();
        assert(strictly_ascending(d)) by {
            assert forall|i: int, j: int| 0 <= i < j < d.len() implies seq_lt(#[trigger] d[i], #[trigger] d[j]) by {
                assert(d[i] == s[i] && d[j] == s[j]);
            }
        }
        lemma_insert_unique(d, x);
        let q = insert_unique(d, x);
        crate::package_check::lemma_seq_lt_total(s.last(), x);
        assert(seq_lt(x, s.last()));
        assert forall|i: int| 0 <= i < q.len() implies seq_lt(#[trigger] q[i], s.last()) by {
            if q[i] != x {
                let j = choose|j: int| 0 <= j < d.len() && q[i] == d[j];
                assert(d[j] == s[j]);
            }
        }
        assert forall|i: int, j: int| 0 <= i < j < r.len() implies seq_lt(#[trigger] r[i], #[trigger] r[j]) by {
            if j == r.len() - 1 {
                assert(r[i] == q[i]);
            } else {
                assert(r[i] == q[i] && r[j] == q[j]);
            }
        }
        assert forall|i: int| 0 <= i < r.len() implies #[trigger] r[i] == x || exists|j: int|
            0 <= j < s.len() && r[i] == s[j] by {
            if i == r.len() - 1 {
                assert(r[i] == s[s.len() - 1]);
            } else {
                assert(r[i] == q[i]);
                if q[i] != x {
                    let j = choose|j: int| 0 <= j < d.len() && q[i] == d[j];
                    assert(d[j] == s[j]);
                }
            }
        }
    }
}

proof fn lemma_enabled_options_of_ascending(lines: Seq<Seq<char>>)
    ensures
        strictly_ascending(enabled_options_of(lines)),
    decreases lines.len(),
{
    if lines.len() > 0 {
        lemma_enabled_options_of_ascending(lines.drop_last());
        match enabled_option(lines.last()) {
            Some(k) => lemma_insert_unique(enabled_options_of(lines.drop_last()), k),
            None => {},
        }
    }
}

/// The enabled kernel options come out strictly ascending: sorted, and each
/// option once, however often the configuration repeats it.
pub proof fn lemma_enabled_options_ascending(contents: Seq<char>)
    ensures
        strictly_ascending(enabled_options(contents)),
{
    lemma_enabled_options_of_ascending(segments(contents));
}

// ---------------------------------------------------------------------------
// Comparing an image against the requirements.
// ---------------------------------------------------------------------------

/// The image capability manifest as parsed by the caller.
#[derive(Debug, Clone, PartialEq, Eq)]
pub struct ImageCapabilities {
    pub format_version: u32,
    /// `graphics.mesa.video_cards`: the Mesa capabilities the image declares.
    pub mesa_video_cards: Vec<String>,
    /// `graphics.mesa.artifacts`: paths of the Mesa drivers it ships.
    pub mesa_artifacts: Vec<String>,
    /// `graphics.kernel.config_path` (empty when absent).
    pub kernel_config_path: String,
    /// `graphics.kernel.enabled`.
    pub kernel_enabled: Vec<String>,
    pub nvidia_proprietary: bool,
    pub nvidia_driver_version: Option<String>,
    pub nvidia_kernel_abi: Option<String>,
    pub vm_virgl: bool,
    pub vm_vmware: bool,
    pub virgl_launch_device: Option<String>,
    pub vmware_launch_device: Option<String>,
}

/// Why an image capability manifest could not be read as one.
#[derive(Debug, Clone, PartialEq, Eq)]
pub enum ImageManifestError {
    NotUtf8(String),
    Invalid(String),
}

/// The image capability manifest file, as the caller found it.
#[derive(Debug, PartialEq, Eq)]
pub enum CapabilityManifestRead {
    /// The file exists but could not be read; the error text.
    Unreadable(String),
    Read {
        /// The first word of the checksum file, when it is readable.
        expected_checksum: Option<String>,
        /// The SHA-256 of the file's bytes, as lowercase hex.
        actual_checksum: String,
        parsed: Result<ImageCapabilities, ImageManifestError>,
    },
}

/// A kernel configuration found on the image: its path, and its contents or
/// why it could not be read.
#[derive(Debug, PartialEq, Eq)]
pub struct KernelConfigRead {
    pub path: String,
    pub contents: Result<String, String>,
}

/// What the image holds of a proprietary NVIDIA driver.
#[derive(Debug, Clone, PartialEq, Eq)]
pub struct NvidiaProbe {
    /// Entry names under `var/db/pkg/x11-drivers`, in directory order.
    pub driver_entries: Vec<String>,
    /// Entry names under `boot`.
    pub boot_entries: Vec<String>,
    /// Directories under `lib/modules`, in directory order, each with
    /// whether it holds an `nvidia_drm` module.
    pub module_abis: Vec<(String, bool)>,
}

/// What the caller found in a source image.
#[derive(Debug, PartialEq, Eq)]
pub struct SourceProbe {
    /// The image capability manifest, when it is a file.
    pub capability_manifest: Option<CapabilityManifestRead>,
    /// Paths (relative to the root, without a leading `/`) of the regular
    /// files found among those asked about.
    pub present_files: Vec<String>,
    /// The kernel configuration found by looking for one, when any.
    pub kernel_config: Option<KernelConfigRead>,
    pub nvidia: NvidiaProbe,
}

/// A comparison as plain values.
pub struct ComparisonView {
    pub manifest_path: Option<Seq<char>>,
    pub checksum_verified: bool,
    pub mesa_checked: bool,
    pub kernel_config_path: Option<Seq<char>>,
    pub available_mesa: Seq<Seq<char>>,
    pub available_kernel: Seq<Seq<char>>,
    pub missing: Seq<Seq<char>>,
    pub nvidia_driver_version: Option<Seq<char>>,
    pub nvidia_kernel_abi: Option<Seq<char>>,
}

pub open spec fn opt_seq(o: Option<String>) -> Option<Seq<char>> {
    match o {
        Some(s) => Some(s@),
        None => None,
    }
}

pub open spec fn comparison_view(c: GraphicsCapabilityComparison) -> ComparisonView {
    ComparisonView {
        manifest_path: opt_seq(c.capability_manifest_path),
        checksum_verified: c.capability_manifest_checksum_verified,
        mesa_checked: c.mesa_checked,
        kernel_config_path: opt_seq(c.kernel_config_path),
        available_mesa: sviews(c.available_mesa_artifacts@),
        available_kernel: sviews(c.available_kernel_config@),
        missing: sviews(c.missing@),
        nvidia_driver_version: opt_seq(c.nvidia_driver_version),
        nvidia_kernel_abi: opt_seq(c.nvidia_kernel_abi),
    }
}

pub open spec fn empty_view() -> ComparisonView {
    ComparisonView {
        manifest_path: None,
        checksum_verified: false,
        mesa_checked: false,
        kernel_config_path: None,
        available_mesa: Seq::empty(),
        available_kernel: Seq::empty(),
        missing: Seq::empty(),
        nvidia_driver_version: None,
        nvidia_kernel_abi: None,
    }
}

/// `rel` under the image root.
pub open spec fn rpath(root: Seq<char>, rel: Seq<char>) -> Seq<char> {
    join_path(root, strip_leading_slashes(rel))
}

pub open spec fn has_seq(v: Seq<Seq<char>>, s: Seq<char>) -> bool {
    exists|i: int| 0 <= i < v.len() && v[i] == s
}

/// The file at `rel` was found.
pub open spec fn present(files: Seq<Seq<char>>, rel: Seq<char>) -> bool {
    has_seq(files, strip_leading_slashes(rel))
}

/// Some alternative is declared among the manifest's artifacts and found.
pub open spec fn declared_artifact_present(alts: Seq<Seq<char>>, artifacts: Seq<Seq<char>>, files: Seq<Seq<char>>) -> bool {
    exists|i: int| 0 <= i < alts.len() && has_seq(artifacts, alts[i]) && present(files, alts[i])
}

pub open spec fn manifest_mesa_missing(reqs: Seq<MesaArtifactRequirement>, c: ImageCapabilities, files: Seq<Seq<char>>) -> Seq<Seq<char>>
    decreases reqs.len(),
{
    if reqs.len() == 0 {
        Seq::empty()
    } else {
        let r = reqs.last();
        manifest_mesa_missing(reqs.drop_last(), c, files) + if !has_seq(sviews(c.mesa_video_cards@), r.capability@) {
            seq!["image capability manifest does not provide "@ + r.capability@]
        } else if !declared_artifact_present(sviews(r.alternatives@), sviews(c.mesa_artifacts@), files) {
            seq!["image capability manifest declares "@ + r.capability@ + " but its expected artifact is absent"@]
        } else {
            Seq::empty()
        }
    }
}

/// One message per required option missing from `enabled`.
pub open spec fn options_missing(opts: Seq<Seq<char>>, enabled: Seq<Seq<char>>, prefix: Seq<char>) -> Seq<Seq<char>>
    decreases opts.len(),
{
    if opts.len() == 0 {
        Seq::empty()
    } else {
        options_missing(opts.drop_last(), enabled, prefix) + if has_seq(enabled, opts.last()) {
            Seq::empty()
        } else {
            seq![prefix + opts.last()]
        }
    }
}

pub open spec fn vm_missing(vm: VmGraphics, c: ImageCapabilities) -> Seq<Seq<char>> {
    match vm {
        VmGraphics::Virgl => (if c.vm_virgl {
            Seq::empty()
        } else {
            seq!["image capability manifest does not advertise Virgl VM support"@]
        }) + if c.virgl_launch_device is None {
            seq!["image capability manifest lacks the Virgl launch-device contract"@]
        } else {
            Seq::empty()
        },
        VmGraphics::Vmware => (if c.vm_vmware {
            Seq::empty()
        } else {
            seq!["image capability manifest does not advertise VMware VM graphics support"@]
        }) + if c.vmware_launch_device is None {
            seq!["image capability manifest lacks the VMware launch-device contract"@]
        } else {
            Seq::empty()
        },
        VmGraphics::Disabled => Seq::empty(),
    }
}

pub open spec fn manifest_nvidia_missing(c: ImageCapabilities) -> Seq<Seq<char>> {
    if !c.nvidia_proprietary {
        seq!["image capability manifest does not provide proprietary NVIDIA support"@]
    } else if c.nvidia_driver_version is None || c.nvidia_kernel_abi is None {
        seq!["image capability manifest lacks NVIDIA driver version or kernel ABI"@]
    } else {
        Seq::empty()
    }
}

/// The comparison made from a well-formed capability manifest.
pub open spec fn manifest_comparison(req: GraphicsRequirements, root: Seq<char>, c: ImageCapabilities, files: Seq<Seq<char>>) -> ComparisonView {
    let kcp = c.kernel_config_path@;
    ComparisonView {
        manifest_path: Some(rpath(root, IMAGE_CAPABILITY_MANIFEST@)),
        checksum_verified: true,
        mesa_checked: req.mesa_artifacts@.len() > 0,
        kernel_config_path: if kcp.len() > 0 {
            Some(rpath(root, kcp))
        } else {
            None
        },
        available_mesa: sviews(c.mesa_artifacts@),
        available_kernel: sviews(c.kernel_enabled@),
        missing: manifest_mesa_missing(req.mesa_artifacts@, c, files) + (if kcp.len() > 0 && !present(
            files,
            kcp,
        ) {
            seq!["image capability manifest names missing kernel config "@ + rpath(root, kcp)]
        } else {
            Seq::empty()
        }) + options_missing(
            sviews(req.kernel_config@),
            sviews(c.kernel_enabled@),
            "image capability manifest is missing kernel config "@,
        ) + vm_missing(req.vm_support, c) + if req.proprietary_nvidia {
            manifest_nvidia_missing(c)
        } else {
            Seq::empty()
        },
        nvidia_driver_version: if req.proprietary_nvidia {
            opt_seq(c.nvidia_driver_version)
        } else {
            None
        },
        nvidia_kernel_abi: if req.proprietary_nvidia {
            opt_seq(c.nvidia_kernel_abi)
        } else {
            None
        },
    }
}

/// The comparison made when the image ships a capability manifest.
pub open spec fn read_comparison(req: GraphicsRequirements, root: Seq<char>, read: CapabilityManifestRead, files: Seq<Seq<char>>) -> ComparisonView {
    let mp = rpath(root, IMAGE_CAPABILITY_MANIFEST@);
    let only = |m: Seq<char>, verified: bool| ComparisonView {
        manifest_path: Some(mp),
        checksum_verified: verified,
        missing: seq![m],
        ..empty_view()
    };
    match read {
        CapabilityManifestRead::Unreadable(e) => only(
            "could not read image capability manifest "@ + mp + ": "@ + e@,
            false,
        ),
        CapabilityManifestRead::Read { expected_checksum, actual_checksum, parsed } => match expected_checksum {
            None => only(
                "image capability manifest has no readable checksum at "@ + rpath(root, IMAGE_CAPABILITY_CHECKSUM@),
                false,
            ),
            Some(x) => if x@ != actual_checksum@ {
                only(
                    "image capability manifest checksum mismatch: expected "@ + x@ + ", calculated "@
                        + actual_checksum@,
                    false,
                )
            } else {
                match parsed {
                    Err(ImageManifestError::NotUtf8(e)) => only(
                        "image capability manifest is not UTF-8: "@ + e@,
                        true,
                    ),
                    Err(ImageManifestError::Invalid(e)) => only(
                        "invalid image capability manifest: "@ + e@,
                        true,
                    ),
                    Ok(c) => if c.format_version != 1 {
                        only(
                            "unsupported image capability manifest format version "@ + decimal(
                                c.format_version as nat,
                            ),
                            true,
                        )
                    } else {
                        manifest_comparison(req, root, c, files)
                    },
                }
            },
        },
    }
}

/// The first alternative found on the image.
pub open spec fn found_alternative(alts: Seq<Seq<char>>, files: Seq<Seq<char>>) -> Option<Seq<char>>
    decreases alts.len(),
{
    if alts.len() == 0 {
        None
    } else if present(files, alts[0]) {
        Some(alts[0])
    } else {
        found_alternative(alts.drop_first(), files)
    }
}

/// The Mesa artifacts found and the requirements without one, in order.
pub open spec fn legacy_mesa(reqs: Seq<MesaArtifactRequirement>, files: Seq<Seq<char>>) -> (Seq<Seq<char>>, Seq<Seq<char>>)
    decreases reqs.len(),
{
    if reqs.len() == 0 {
        (Seq::empty(), Seq::empty())
    } else {
        let prev = legacy_mesa(reqs.drop_last(), files);
        let r = reqs.last();
        match found_alternative(sviews(r.alternatives@), files) {
            Some(a) => (prev.0.push(a), prev.1),
            None => (
                prev.0,
                prev.1.push(
                    "Mesa capability "@ + r.capability@ + " requires one of: "@ + join(
                        sviews(r.alternatives@),
                        ", "@,
                    ),
                ),
            ),
        }
    }
}

/// The first installed `nvidia-drivers-<version>` entry's version.
pub open spec fn driver_version_of(entries: Seq<Seq<char>>) -> Option<Seq<char>>
    decreases entries.len(),
{
    if entries.len() == 0 {
        None
    } else if starts_with(entries[0], "nvidia-drivers-"@) {
        Some(entries[0].subrange(15, entries[0].len() as int))
    } else {
        driver_version_of(entries.drop_first())
    }
}

/// The versions of the `vmlinuz-<version>` boot entries.
pub open spec fn kernel_images(entries: Seq<Seq<char>>) -> Seq<Seq<char>>
    decreases entries.len(),
{
    if entries.len() == 0 {
        Seq::empty()
    } else {
        kernel_images(entries.drop_last()) + if starts_with(entries.last(), "vmlinuz-"@) {
            seq![entries.last().subrange(8, entries.last().len() as int)]
        } else {
            Seq::empty()
        }
    }
}

/// The first module directory holding `nvidia_drm` for the boot kernel (any
/// kernel when no boot image names one).
pub open spec fn matching_abi(abis: Seq<(String, bool)>, boot: Option<Seq<char>>) -> Option<Seq<char>>
    decreases abis.len(),
{
    if abis.len() == 0 {
        None
    } else if abis[0].1 && match boot {
        Some(b) => b == abis[0].0@,
        None => true,
    } {
        Some(abis[0].0@)
    } else {
        matching_abi(abis.drop_first(), boot)
    }
}

pub open spec fn nvidia_missing(p: NvidiaProbe) -> Seq<Seq<char>> {
    let boot = crate::install::boot::greatest_name(kernel_images(sviews(p.boot_entries@)));
    (if driver_version_of(sviews(p.driver_entries@)) is None {
        seq!["proprietary NVIDIA policy requires an installed x11-drivers/nvidia-drivers capability"@]
    } else {
        Seq::empty()
    }) + match (boot, matching_abi(p.module_abis@, boot)) {
        (Some(b), None) => seq![
            "proprietary NVIDIA module nvidia_drm is missing for installed kernel ABI "@ + b,
        ],
        (None, None) => seq![
            "proprietary NVIDIA policy requires a matching lib/modules/<kernel ABI>/nvidia_drm module"@,
        ],
        _ => Seq::empty(),
    }
}

/// The comparison made by looking at the image when it ships no capability
/// manifest.
pub open spec fn legacy_comparison(req: GraphicsRequirements, probe: SourceProbe) -> ComparisonView {
    let files = sviews(probe.present_files@);
    let mesa = legacy_mesa(req.mesa_artifacts@, files);
    let kernel_needed = req.kernel_config@.len() > 0;
    let kernel: (Option<Seq<char>>, Seq<Seq<char>>, Seq<Seq<char>>) = if !kernel_needed {
        (None, Seq::empty(), Seq::empty())
    } else {
        match probe.kernel_config {
            Some(k) => match k.contents {
                Ok(c) => (
                    Some(k.path@),
                    enabled_options(c@),
                    options_missing(sviews(req.kernel_config@), enabled_options(c@), "kernel config is missing "@),
                ),
                Err(e) => (None, Seq::empty(), seq!["could not read kernel config "@ + k.path@ + ": "@ + e@]),
            },
            None => (
                None,
                Seq::empty(),
                seq![
                    "kernel DRM requirements exist but the source image has no readable boot/config-* or usr/src/linux/.config"@,
                ],
            ),
        }
    };
    let boot = crate::install::boot::greatest_name(kernel_images(sviews(probe.nvidia.boot_entries@)));
    ComparisonView {
        manifest_path: None,
        checksum_verified: false,
        mesa_checked: req.mesa_artifacts@.len() > 0,
        kernel_config_path: kernel.0,
        available_mesa: mesa.0,
        available_kernel: kernel.1,
        missing: mesa.1 + kernel.2 + if req.proprietary_nvidia {
            nvidia_missing(probe.nvidia)
        } else {
            Seq::empty()
        },
        nvidia_driver_version: if req.proprietary_nvidia {
            driver_version_of(sviews(probe.nvidia.driver_entries@))
        } else {
            None
        },
        nvidia_kernel_abi: if req.proprietary_nvidia {
            matching_abi(probe.nvidia.module_abis@, boot)
        } else {
            None
        },
    }
}

/// What the image is found to provide against the requirements.
pub open spec fn source_comparison(req: GraphicsRequirements, root: Seq<char>, probe: SourceProbe) -> ComparisonView {
    match probe.capability_manifest {
        Some(read) => read_comparison(req, root, read, sviews(probe.present_files@)),
        None => legacy_comparison(req, probe),
    }
}


// ---------------------------------------------------------------------------
// Making the comparison.
// ---------------------------------------------------------------------------

fn push_msg(missing: &mut Vec<String>, m: Vec<char>)
    ensures
        sviews(final(missing)@) == sviews(old(missing)@).push(m@),
{
    let ghost before = sviews(missing@);
    missing.push(string_of(&m));
    assert(sviews(missing@) =~= before.push(m@));
}

fn msg2(a: &str, b: &str) -> (r: Vec<char>)
    ensures
        r@ == a@ + b@,
{
    let mut v = chars_of(a);
    push_str(&mut v, b);
    v
}

fn msg3(a: &str, b: &str, c: &str) -> (r: Vec<char>)
    ensures
        r@ == a@ + b@ + c@,
{
    let mut v = chars_of(a);
    push_str(&mut v, b);
    push_str(&mut v, c);
    v
}

fn holds_string(v: &Vec<String>, s: &str) -> (r: bool)
    ensures
        r == has_seq(sviews(v@), s@),
{
    let r = crate::manifest::firewall::contains_string(v, s);
    proof {
        if r {
            let i = choose|i: int| 0 <= i < v@.len() && v@[i]@ == s@;
            assert(sviews(v@)[i] == s@);
        } else {
            assert forall|i: int| 0 <= i < sviews(v@).len() implies sviews(v@)[i] != s@ by {
                assert(sviews(v@)[i] == v@[i]@);
            }
        }
    }
    r
}

fn is_present(files: &Vec<String>, rel: &str) -> (r: bool)
    ensures
        r == present(sviews(files@), rel@),
{
    let stripped = string_of(&strip_slashes(&chars_of(rel)));
    holds_string(files, stripped.as_str())
}

fn root_path(root: &str, rel: &str) -> (r: String)
    ensures
        r@ == rpath(root@, rel@),
{
    crate::disk::under(root, rel)
}

fn artifact_present(alts: &Vec<String>, artifacts: &Vec<String>, files: &Vec<String>) -> (r: bool)
    ensures
        r == declared_artifact_present(sviews(alts@), sviews(artifacts@), sviews(files@)),
{
    let mut i: usize = 0;
    while i < alts.len()
        invariant
            i <= alts.len(),
            forall|k: int|
                0 <= k < i ==> !(has_seq(sviews(artifacts@), #[trigger] sviews(alts@)[k]) && present(
                    sviews(files@),
                    sviews(alts@)[k],
                )),
        decreases alts.len() - i,
    {
        assert(sviews(alts@)[i as int] == alts@[i as int]@);
        if holds_string(artifacts, alts[i].as_str()) && is_present(files, alts[i].as_str()) {
            return true;
        }
        i = i + 1;
    }
    false
}

fn push_manifest_mesa(
    reqs: &Vec<MesaArtifactRequirement>,
    c: &ImageCapabilities,
    files: &Vec<String>,
    missing: &mut Vec<String>,
)
    ensures
        sviews(final(missing)@) == sviews(old(missing)@) + manifest_mesa_missing(reqs@, *c, sviews(files@)),
{
    let ghost start = sviews(missing@);
    let mut i: usize = 0;
    assert(start + manifest_mesa_missing(reqs@.subrange(0, 0), *c, sviews(files@)) =~= start);
    while i < reqs.len()
        invariant
            i <= reqs.len(),
            sviews(missing@) == start + manifest_mesa_missing(reqs@.subrange(0, i as int), *c, sviews(files@)),
        decreases reqs.len() - i,
    {
        let r = &reqs[i];
        let ghost sub = reqs@.subrange(0, i + 1);
        proof {
            assert(sub.drop_last() =~= reqs@.subrange(0, i as int));
            assert(sub.last() == reqs@[i as int]);
        }
        let ghost before = sviews(missing@);
        if !holds_string(&c.mesa_video_cards, r.capability.as_str()) {
            push_msg(missing, msg2("image capability manifest does not provide ", r.capability.as_str()));
        } else if !artifact_present(&r.alternatives, &c.mesa_artifacts, files) {
            push_msg(
                missing,
                msg3(
                    "image capability manifest declares ",
                    r.capability.as_str(),
                    " but its expected artifact is absent",
                ),
            );
        }
        i = i + 1;
        assert(sviews(missing@) =~= start + manifest_mesa_missing(reqs@.subrange(0, i as int), *c, sviews(files@)));
    }
    assert(reqs@.subrange(0, reqs.len() as int) =~= reqs@);
}

fn push_options_missing(opts: &Vec<String>, enabled: &Vec<String>, prefix: &str, missing: &mut Vec<String>)
    ensures
        sviews(final(missing)@) == sviews(old(missing)@) + options_missing(sviews(opts@), sviews(enabled@), prefix@),
{
    let ghost start = sviews(missing@);
    let mut i: usize = 0;
    assert(start + options_missing(sviews(opts@).subrange(0, 0), sviews(enabled@), prefix@) =~= start);
    while i < opts.len()
        invariant
            i <= opts.len(),
            sviews(missing@) == start + options_missing(sviews(opts@).subrange(0, i as int), sviews(enabled@), prefix@),
        decreases opts.len() - i,
    {
        let ghost sub = sviews(opts@).subrange(0, i + 1);
        proof {
            assert(sub.drop_last() =~= sviews(opts@).subrange(0, i as int));
            assert(sub.last() == opts@[i as int]@);
        }
        if !holds_string(enabled, opts[i].as_str()) {
            push_msg(missing, msg2(prefix, opts[i].as_str()));
        }
        i = i + 1;
        assert(sviews(missing@) =~= start + options_missing(sviews(opts@).subrange(0, i as int), sviews(enabled@), prefix@));
    }
    assert(sviews(opts@).subrange(0, opts.len() as int) =~= sviews(opts@));
}

fn push_vm(vm: VmGraphics, c: &ImageCapabilities, missing: &mut Vec<String>)
    ensures
        sviews(final(missing)@) == sviews(old(missing)@) + vm_missing(vm, *c),
{
    let ghost start = sviews(missing@);
    match vm {
        VmGraphics::Virgl => {
            if !c.vm_virgl {
                push_msg(missing, chars_of("image capability manifest does not advertise Virgl VM support"));
            }
            if c.virgl_launch_device.is_none() {
                push_msg(missing, chars_of("image capability manifest lacks the Virgl launch-device contract"));
            }
        },
        VmGraphics::Vmware => {
            if !c.vm_vmware {
                push_msg(
                    missing,
                    chars_of("image capability manifest does not advertise VMware VM graphics support"),
                );
            }
            if c.vmware_launch_device.is_none() {
                push_msg(missing, chars_of("image capability manifest lacks the VMware launch-device contract"));
            }
        },
        VmGraphics::Disabled => {},
    }
    assert(sviews(missing@) =~= start + vm_missing(vm, *c));
}

fn copy_opt(o: &Option<String>) -> (r: Option<String>)
    ensures
        opt_seq(r) == opt_seq(*o),
{
    match o {
        Some(s) => Some(owned(s.as_str())),
        None => None,
    }
}

fn manifest_compare(
    req: &GraphicsRequirements,
    root: &str,
    c: ImageCapabilities,
    files: &Vec<String>,
) -> (r: GraphicsCapabilityComparison)
    ensures
        comparison_view(r) == manifest_comparison(*req, root@, c, sviews(files@)),
        opt_seq(r.source_root) == Some(root@),
{
    let ghost fv = sviews(files@);
    let ghost kcpv = c.kernel_config_path@;
    let mut missing: Vec<String> = Vec::new();
    assert(sviews(missing@) =~= Seq::<Seq<char>>::empty());
    push_manifest_mesa(&req.mesa_artifacts, &c, files, &mut missing);
    let ghost a = manifest_mesa_missing(req.mesa_artifacts@, c, fv);
    assert(sviews(missing@) =~= a);
    let kcp = c.kernel_config_path.as_str();
    let kcp_chars = chars_of(kcp);
    let config_path = if kcp_chars.len() > 0 {
        let p = root_path(root, kcp);
        if !is_present(files, kcp) {
            push_msg(&mut missing, msg2("image capability manifest names missing kernel config ", p.as_str()));
        }
        Some(p)
    } else {
        None
    };
    let ghost b = if kcpv.len() > 0 && !present(fv, kcpv) {
        seq!["image capability manifest names missing kernel config "@ + rpath(root@, kcpv)]
    } else {
        Seq::<Seq<char>>::empty()
    };
    assert(sviews(missing@) =~= a + b);
    push_options_missing(
        &req.kernel_config,
        &c.kernel_enabled,
        "image capability manifest is missing kernel config ",
        &mut missing,
    );
    let ghost o = options_missing(
        sviews(req.kernel_config@),
        sviews(c.kernel_enabled@),
        "image capability manifest is missing kernel config "@,
    );
    push_vm(req.vm_support, &c, &mut missing);
    let ghost v = vm_missing(req.vm_support, c);
    assert(sviews(missing@) =~= a + b + o + v);
    if req.proprietary_nvidia {
        if !c.nvidia_proprietary {
            push_msg(&mut missing, chars_of("image capability manifest does not provide proprietary NVIDIA support"));
        } else if c.nvidia_driver_version.is_none() || c.nvidia_kernel_abi.is_none() {
            push_msg(&mut missing, chars_of("image capability manifest lacks NVIDIA driver version or kernel ABI"));
        }
    }
    let ghost n = if req.proprietary_nvidia {
        manifest_nvidia_missing(c)
    } else {
        Seq::<Seq<char>>::empty()
    };
    assert(sviews(missing@) =~= a + b + o + v + n);
    assert(manifest_comparison(*req, root@, c, fv).missing == a + b + o + v + n);
    let (dv, ka) = if req.proprietary_nvidia {
        (copy_opt(&c.nvidia_driver_version), copy_opt(&c.nvidia_kernel_abi))
    } else {
        (None, None)
    };
    GraphicsCapabilityComparison {
        source_root: Some(owned(root)),
        capability_manifest_path: Some(root_path(root, IMAGE_CAPABILITY_MANIFEST)),
        capability_manifest_checksum_verified: true,
        mesa_checked: req.mesa_artifacts.len() > 0,
        kernel_config_path: config_path,
        available_mesa_artifacts: c.mesa_artifacts,
        available_kernel_config: c.kernel_enabled,
        missing,
        nvidia_driver_version: dv,
        nvidia_kernel_abi: ka,
    }
}


fn only_missing(root: &str, m: Vec<char>, verified: bool) -> (r: GraphicsCapabilityComparison)
    ensures
        opt_seq(r.source_root) == Some(root@),
        comparison_view(r) == (ComparisonView {
            manifest_path: Some(rpath(root@, IMAGE_CAPABILITY_MANIFEST@)),
            checksum_verified: verified,
            missing: seq![m@],
            ..empty_view()
        }),
{
    let mut missing: Vec<String> = Vec::new();
    push_msg(&mut missing, m);
    let r = GraphicsCapabilityComparison {
        source_root: Some(owned(root)),
        capability_manifest_path: Some(root_path(root, IMAGE_CAPABILITY_MANIFEST)),
        capability_manifest_checksum_verified: verified,
        mesa_checked: false,
        kernel_config_path: None,
        available_mesa_artifacts: Vec::new(),
        available_kernel_config: Vec::new(),
        missing,
        nvidia_driver_version: None,
        nvidia_kernel_abi: None,
    };
    assert(comparison_view(r).available_mesa =~= Seq::<Seq<char>>::empty());
    assert(comparison_view(r).available_kernel =~= Seq::<Seq<char>>::empty());
    r
}

fn read_compare(
    req: &GraphicsRequirements,
    root: &str,
    read: CapabilityManifestRead,
    files: &Vec<String>,
) -> (r: GraphicsCapabilityComparison)
    ensures
        opt_seq(r.source_root) == Some(root@),
        comparison_view(r) == read_comparison(*req, root@, read, sviews(files@)),
{
    let mp = root_path(root, IMAGE_CAPABILITY_MANIFEST);
    match read {
        CapabilityManifestRead::Unreadable(e) => {
            let mut m = chars_of("could not read image capability manifest ");
            push_str(&mut m, mp.as_str());
            push_str(&mut m, ": ");
            push_str(&mut m, e.as_str());
            only_missing(root, m, false)
        },
        CapabilityManifestRead::Read { expected_checksum, actual_checksum, parsed } => {
            match expected_checksum {
                None => {
                    let cp = root_path(root, IMAGE_CAPABILITY_CHECKSUM);
                    only_missing(
                        root,
                        msg2("image capability manifest has no readable checksum at ", cp.as_str()),
                        false,
                    )
                },
                Some(x) => {
                    if !crate::text::str_eq(x.as_str(), actual_checksum.as_str()) {
                        let mut m = chars_of("image capability manifest checksum mismatch: expected ");
                        push_str(&mut m, x.as_str());
                        push_str(&mut m, ", calculated ");
                        push_str(&mut m, actual_checksum.as_str());
                        only_missing(root, m, false)
                    } else {
                        match parsed {
                            Err(ImageManifestError::NotUtf8(e)) => only_missing(
                                root,
                                msg2("image capability manifest is not UTF-8: ", e.as_str()),
                                true,
                            ),
                            Err(ImageManifestError::Invalid(e)) => only_missing(
                                root,
                                msg2("invalid image capability manifest: ", e.as_str()),
                                true,
                            ),
                            Ok(c) => {
                                if c.format_version != 1 {
                                    let mut m = chars_of("unsupported image capability manifest format version ");
                                    push_decimal(&mut m, c.format_version as u64);
                                    only_missing(root, m, true)
                                } else {
                                    manifest_compare(req, root, c, files)
                                }
                            },
                        }
                    }
                },
            }
        },
    }
}

fn first_found(alts: &Vec<String>, files: &Vec<String>) -> (r: Option<usize>)
    ensures
        match r {
            Some(i) => i < alts@.len() && found_alternative(sviews(alts@), sviews(files@)) == Some(
                alts@[i as int]@,
            ),
            None => found_alternative(sviews(alts@), sviews(files@)) is None,
        },
{
    let ghost all = sviews(alts@);
    let mut i: usize = 0;
    assert(all.subrange(0, all.len() as int) =~= all);
    while i < alts.len()
        invariant
            i <= alts.len(),
            all == sviews(alts@),
            found_alternative(all, sviews(files@)) == found_alternative(
                all.subrange(i as int, all.len() as int),
                sviews(files@),
            ),
        decreases alts.len() - i,
    {
        let ghost rest = all.subrange(i as int, all.len() as int);
        proof {
            assert(rest[0] == alts@[i as int]@);
            assert(rest.drop_first() =~= all.subrange(i + 1, all.len() as int));
        }
        if is_present(files, alts[i].as_str()) {
            return Some(i);
        }
        i = i + 1;
    }
    None
}

fn push_legacy_mesa(
    reqs: &Vec<MesaArtifactRequirement>,
    files: &Vec<String>,
    available: &mut Vec<String>,
    missing: &mut Vec<String>,
)
    requires
        old(available)@.len() == 0,
        old(missing)@.len() == 0,
    ensures
        (sviews(final(available)@), sviews(final(missing)@)) == legacy_mesa(reqs@, sviews(files@)),
{
    let mut i: usize = 0;
    assert(sviews(available@) =~= Seq::<Seq<char>>::empty());
    assert(sviews(missing@) =~= Seq::<Seq<char>>::empty());
    assert(reqs@.subrange(0, 0) =~= Seq::<MesaArtifactRequirement>::empty());
    while i < reqs.len()
        invariant
            i <= reqs.len(),
            (sviews(available@), sviews(missing@)) == legacy_mesa(reqs@.subrange(0, i as int), sviews(files@)),
        decreases reqs.len() - i,
    {
        let r = &reqs[i];
        let ghost sub = reqs@.subrange(0, i + 1);
        proof {
            assert(sub.drop_last() =~= reqs@.subrange(0, i as int));
            assert(sub.last() == reqs@[i as int]);
        }
        match first_found(&r.alternatives, files) {
            Some(k) => {
                let ghost before = sviews(available@);
                available.push(owned(r.alternatives[k].as_str()));
                assert(sviews(available@) =~= before.push(r.alternatives@[k as int]@));
            },
            None => {
                let joined = crate::text::join_strings(&r.alternatives, ", ");
                let mut m = chars_of("Mesa capability ");
                push_str(&mut m, r.capability.as_str());
                push_str(&mut m, " requires one of: ");
                push_chars(&mut m, &joined);
                push_msg(missing, m);
            },
        }
        i = i + 1;
    }
    assert(reqs@.subrange(0, reqs.len() as int) =~= reqs@);
}

fn driver_version(entries: &Vec<String>) -> (r: Option<String>)
    ensures
        opt_seq(r) == driver_version_of(sviews(entries@)),
{
    let ghost all = sviews(entries@);
    let mut i: usize = 0;
    assert(all.subrange(0, all.len() as int) =~= all);
    while i < entries.len()
        invariant
            i <= entries.len(),
            all == sviews(entries@),
            driver_version_of(all) == driver_version_of(all.subrange(i as int, all.len() as int)),
        decreases entries.len() - i,
    {
        let ghost rest = all.subrange(i as int, all.len() as int);
        proof {
            assert(rest[0] == entries@[i as int]@);
            assert(rest.drop_first() =~= all.subrange(i + 1, all.len() as int));
        }
        if crate::text::str_starts_with(entries[i].as_str(), "nvidia-drivers-") {
            proof {
                reveal_strlit("nvidia-drivers-");
            }
            let e = chars_of(entries[i].as_str());
            return Some(string_of(&slice(&e, 15, e.len())));
        }
        i = i + 1;
    }
    None
}

fn kernel_image_versions(entries: &Vec<String>) -> (r: Vec<String>)
    ensures
        sviews(r@) == kernel_images(sviews(entries@)),
{
    let ghost all = sviews(entries@);
    let mut out: Vec<String> = Vec::new();
    let mut i: usize = 0;
    assert(all.subrange(0, 0) =~= Seq::<Seq<char>>::empty());
    while i < entries.len()
        invariant
            i <= entries.len(),
            all == sviews(entries@),
            sviews(out@) == kernel_images(all.subrange(0, i as int)),
        decreases entries.len() - i,
    {
        let ghost sub = all.subrange(0, i + 1);
        proof {
            assert(sub.drop_last() =~= all.subrange(0, i as int));
            assert(sub.last() == entries@[i as int]@);
        }
        let ghost before = sviews(out@);
        if crate::text::str_starts_with(entries[i].as_str(), "vmlinuz-") {
            proof {
                reveal_strlit("vmlinuz-");
            }
            let e = chars_of(entries[i].as_str());
            let v = slice(&e, 8, e.len());
            out.push(string_of(&v));
            assert(sviews(out@) =~= before.push(v@));
        } else {
            assert(sviews(out@) =~= before + Seq::<Seq<char>>::empty());
        }
        i = i + 1;
    }
    assert(all.subrange(0, entries.len() as int) =~= all);
    out
}

fn greatest(names: &Vec<String>) -> (r: Option<String>)
    ensures
        opt_seq(r) == crate::install::boot::greatest_name(sviews(names@)),
{
    let ghost all = sviews(names@);
    let mut best: Option<Vec<char>> = None;
    let mut i: usize = 0;
    while i < names.len()
        invariant
            i <= names.len(),
            all == sviews(names@),
            match best {
                Some(b) => crate::install::boot::greatest_name(all.subrange(0, i as int)) == Some(b@),
                None => crate::install::boot::greatest_name(all.subrange(0, i as int)) is None,
            },
        decreases names.len() - i,
    {
        let c = chars_of(names[i].as_str());
        proof {
            assert(all.subrange(0, i + 1).drop_last() =~= all.subrange(0, i as int));
            assert(all.subrange(0, i + 1).last() == c@);
        }
        best = match best {
            None => Some(c),
            Some(b) => if lex_lt(&b, &c) {
                Some(c)
            } else {
                Some(b)
            },
        };
        i = i + 1;
    }
    assert(all.subrange(0, names.len() as int) =~= all);
    match best {
        Some(b) => Some(string_of(&b)),
        None => None,
    }
}

fn matching_module(abis: &Vec<(String, bool)>, boot: &Option<String>) -> (r: Option<String>)
    ensures
        opt_seq(r) == matching_abi(abis@, opt_seq(*boot)),
{
    let mut i: usize = 0;
    assert(abis@.subrange(0, abis.len() as int) =~= abis@);
    while i < abis.len()
        invariant
            i <= abis.len(),
            matching_abi(abis@, opt_seq(*boot)) == matching_abi(
                abis@.subrange(i as int, abis.len() as int),
                opt_seq(*boot),
            ),
        decreases abis.len() - i,
    {
        let ghost rest = abis@.subrange(i as int, abis.len() as int);
        proof {
            assert(rest[0] == abis@[i as int]);
            assert(rest.drop_first() =~= abis@.subrange(i + 1, abis.len() as int));
        }
        let ok = match boot {
            Some(b) => crate::text::str_eq(b.as_str(), abis[i].0.as_str()),
            None => true,
        };
        if abis[i].1 && ok {
            return Some(owned(abis[i].0.as_str()));
        }
        i = i + 1;
    }
    None
}

fn legacy_compare(req: &GraphicsRequirements, root: &str, probe: SourceProbe) -> (r: GraphicsCapabilityComparison)
    ensures
        opt_seq(r.source_root) == Some(root@),
        comparison_view(r) == legacy_comparison(*req, probe),
{
    let ghost p0 = probe;
    let mut available: Vec<String> = Vec::new();
    let mut missing: Vec<String> = Vec::new();
    push_legacy_mesa(&req.mesa_artifacts, &probe.present_files, &mut available, &mut missing);
    let ghost m1 = sviews(missing@);
    let mut kernel_path: Option<String> = None;
    let mut kernel_enabled: Vec<String> = Vec::new();
    if req.kernel_config.len() > 0 {
        match probe.kernel_config {
            Some(k) => match k.contents {
                Ok(c) => {
                    let enabled = parse_enabled_kernel_options(c.as_str());
                    push_options_missing(&req.kernel_config, &enabled, "kernel config is missing ", &mut missing);
                    kernel_path = Some(k.path);
                    kernel_enabled = enabled;
                },
                Err(e) => {
                    let mut m = chars_of("could not read kernel config ");
                    push_str(&mut m, k.path.as_str());
                    push_str(&mut m, ": ");
                    push_str(&mut m, e.as_str());
                    push_msg(&mut missing, m);
                },
            },
            None => {
                push_msg(
                    &mut missing,
                    chars_of(
                        "kernel DRM requirements exist but the source image has no readable boot/config-* or usr/src/linux/.config",
                    ),
                );
            },
        }
    }
    let ghost m2 = sviews(missing@);
    let versions = kernel_image_versions(&probe.nvidia.boot_entries);
    let boot = greatest(&versions);
    let mut dv: Option<String> = None;
    let mut ka: Option<String> = None;
    if req.proprietary_nvidia {
        dv = driver_version(&probe.nvidia.driver_entries);
        ka = matching_module(&probe.nvidia.module_abis, &boot);
        if dv.is_none() {
            push_msg(
                &mut missing,
                chars_of("proprietary NVIDIA policy requires an installed x11-drivers/nvidia-drivers capability"),
            );
        }
        match (&boot, &ka) {
            (Some(b), None) => {
                push_msg(&mut missing, msg2("proprietary NVIDIA module nvidia_drm is missing for installed kernel ABI ", b.as_str()));
            },
            (None, None) => {
                push_msg(
                    &mut missing,
                    chars_of("proprietary NVIDIA policy requires a matching lib/modules/<kernel ABI>/nvidia_drm module"),
                );
            },
            _ => {},
        }
    }
    let ghost expected = legacy_comparison(*req, p0);
    assert(sviews(missing@) =~= expected.missing);
    assert(sviews(kernel_enabled@) =~= expected.available_kernel);
    GraphicsCapabilityComparison {
        source_root: Some(owned(root)),
        capability_manifest_path: None,
        capability_manifest_checksum_verified: false,
        mesa_checked: req.mesa_artifacts.len() > 0,
        kernel_config_path: kernel_path,
        available_mesa_artifacts: available,
        available_kernel_config: kernel_enabled,
        missing,
        nvidia_driver_version: dv,
        nvidia_kernel_abi: ka,
    }
}

/// What the source image at `root` provides against the requirements: from
/// its capability manifest when it ships one (checked against its checksum
/// first), otherwise from the files found in it.
pub fn compare_source_capabilities(req: &GraphicsRequirements, root: &str, probe: SourceProbe) -> (r: GraphicsCapabilityComparison)
    ensures
        opt_seq(r.source_root) == Some(root@),
        comparison_view(r) == source_comparison(*req, root@, probe),
{
    let ghost p0 = probe;
    let SourceProbe { capability_manifest, present_files, kernel_config, nvidia } = probe;
    match capability_manifest {
        Some(read) => read_compare(req, root, read, &present_files),
        None => legacy_compare(
            req,
            root,
            SourceProbe { capability_manifest: None, present_files, kernel_config, nvidia },
        ),
    }
}

} // verus!

verus! {

/// The source comparison does not read the PRIME routing.
pub proof fn lemma_comparison_ignores_prime(req: GraphicsRequirements, req2: GraphicsRequirements, root: Seq<char>, probe: SourceProbe)
    requires
        req2 == (GraphicsRequirements { prime: req2.prime, ..req }),
    ensures
        source_comparison(req2, root, probe) == source_comparison(req, root, probe),
{
}

} // verus!
