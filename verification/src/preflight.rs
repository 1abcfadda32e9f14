//! The checks before a disk is erased: it must be a real, writable whole
//! disk that nothing uses and that is large enough for the install.
use vstd::prelude::*;

use crate::capability::{
    insert_sorted, insert_unique, lemma_insert_unique, lemma_segments_nonempty, segments, strictly_ascending,
};
use crate::disk::{check_disk_size, install_bytes_needed, bytes_text, is_partition_of, mount_source_matches_device, DiskError};
use crate::manifest::{Disk, ResolvedSwap};
use crate::text::{
    chars_of, join, join_chars, push_chars, push_str, split_words, string_of, sviews, trim, trim_str, vviews,
    words,
};

verus! {

/// The text split at each newline; the last piece is what follows the last
/// newline (empty when the text ends with one).
pub fn split_segments(text: &str) -> (r: Vec<Vec<char>>)
    ensures
        vviews(r@) == segments(text@),
{
    let s = chars_of(text);
    let mut out: Vec<Vec<char>> = Vec::new();
    let mut cur: Vec<char> = Vec::new();
    let mut i: usize = 0;
    assert(s@.subrange(0, 0) =~= Seq::<char>::empty());
    assert(vviews(out@).push(cur@) =~= segments(s@.subrange(0, 0)));
    while i < s.len()
        invariant
            i <= s.len(),
            s@ == text@,
            vviews(out@).push(cur@) == segments(s@.subrange(0, i as int)),
        decreases s.len() - i,
    {
        let ghost pre = s@.subrange(0, i as int);
        let ghost next = s@.subrange(0, i + 1);
        proof {
            assert(next.drop_last() =~= pre);
            assert(next.last() == s@[i as int]);
            lemma_segments_nonempty(pre);
        }
        if s[i] == '\n' {
            let ghost before = vviews(out@);
            let done = cur;
            out.push(done);
            cur = Vec::new();
            proof {
                assert(vviews(out@) =~= before.push(done@));
                assert(segments(next) == segments(pre).push(Seq::empty()));
                assert(vviews(out@).push(cur@) =~= segments(next));
            }
        } else {
            let ghost before = cur@;
            cur.push(s[i]);
            proof {
                let segs = segments(pre);
                assert(segments(next) == segs.update(segs.len() - 1, segs.last().push(s@[i as int])));
                assert(vviews(out@).push(cur@) =~= segments(next));
            }
        }
        i = i + 1;
    }
    assert(s@.subrange(0, s.len() as int) =~= s@);
    let ghost before = vviews(out@);
    out.push(cur);
    assert(vviews(out@) =~= before.push(cur@));
    out
}

// ---------------------------------------------------------------------------
// /proc/mounts and /proc/swaps.
// ---------------------------------------------------------------------------

/// The (source, mount point) of each line of `/proc/mounts` that has both.
pub open spec fn mount_rows_of(lines: Seq<Seq<char>>) -> Seq<(Seq<char>, Seq<char>)>
    decreases lines.len(),
{
    if lines.len() == 0 {
        seq![]
    } else {
        let w = words(lines.last());
        mount_rows_of(lines.drop_last()) + if w.len() >= 2 {
            seq![(w[0], w[1])]
        } else {
            seq![]
        }
    }
}

pub open spec fn mount_rows(text: Seq<char>) -> Seq<(Seq<char>, Seq<char>)> {
    mount_rows_of(segments(text))
}

/// The source of each line of `/proc/swaps` after its header line.
pub open spec fn swap_rows_of(lines: Seq<Seq<char>>) -> Seq<Seq<char>>
    decreases lines.len(),
{
    if lines.len() <= 1 {
        seq![]
    } else {
        let w = words(lines.last());
        swap_rows_of(lines.drop_last()) + if w.len() >= 1 {
            seq![w[0]]
        } else {
            seq![]
        }
    }
}

pub open spec fn swap_rows(text: Seq<char>) -> Seq<Seq<char>> {
    swap_rows_of(segments(text))
}

pub open spec fn pair_views(v: Seq<(String, String)>) -> Seq<(Seq<char>, Seq<char>)> {
    v.map_values(|p: (String, String)| (p.0@, p.1@))
}

/// The (source, mount point) pairs of `/proc/mounts` text.
pub fn mount_entries(text: &str) -> (r: Vec<(String, String)>)
    ensures
        pair_views(r@) == mount_rows(text@),
{
    let lines = split_segments(text);
    let ghost ls = vviews(lines@);
    let mut out: Vec<(String, String)> = Vec::new();
    let mut i: usize = 0;
    assert(ls.subrange(0, 0) =~= Seq::<Seq<char>>::empty());
    assert(pair_views(out@) =~= mount_rows_of(ls.subrange(0, 0)));
    while i < lines.len()
        invariant
            i <= lines.len(),
            ls == vviews(lines@),
            pair_views(out@) == mount_rows_of(ls.subrange(0, i as int)),
        decreases lines.len() - i,
    {
        let ghost next = ls.subrange(0, i + 1);
        proof {
            assert(next.drop_last() =~= ls.subrange(0, i as int));
            assert(next.last() == lines@[i as int]@);
        }
        let w = split_words(&lines[i]);
        let ghost before = pair_views(out@);
        if w.len() >= 2 {
            out.push((string_of(&w[0]), string_of(&w[1])));
            assert(pair_views(out@) =~= before.push((w@[0]@, w@[1]@)));
        }
        i = i + 1;
        assert(pair_views(out@) =~= mount_rows_of(ls.subrange(0, i as int)));
    }
    assert(ls.subrange(0, lines.len() as int) =~= ls);
    out
}

/// The swap sources of `/proc/swaps` text.
pub fn swap_entries(text: &str) -> (r: Vec<String>)
    ensures
        sviews(r@) == swap_rows(text@),
{
    let lines = split_segments(text);
    let ghost ls = vviews(lines@);
    let mut out: Vec<String> = Vec::new();
    let mut i: usize = 0;
    assert(sviews(out@) =~= swap_rows_of(ls.subrange(0, 0)));
    while i < lines.len()
        invariant
            i <= lines.len(),
            ls == vviews(lines@),
            sviews(out@) == swap_rows_of(ls.subrange(0, i as int)),
        decreases lines.len() - i,
    {
        let ghost next = ls.subrange(0, i + 1);
        proof {
            assert(next.drop_last() =~= ls.subrange(0, i as int));
            assert(next.last() == lines@[i as int]@);
        }
        if i > 0 {
            let w = split_words(&lines[i]);
            let ghost before = sviews(out@);
            if w.len() >= 1 {
                out.push(string_of(&w[0]));
                assert(sviews(out@) =~= before.push(w@[0]@));
            }
        }
        i = i + 1;
        assert(sviews(out@) =~= swap_rows_of(ls.subrange(0, i as int)));
    }
    assert(ls.subrange(0, lines.len() as int) =~= ls);
    out
}

// ---------------------------------------------------------------------------
// Deciding.
// ---------------------------------------------------------------------------

/// A mount of the running system: its source, where it is mounted, and the
/// source with symlinks resolved when it resolves.
#[derive(Debug, Clone, PartialEq, Eq)]
pub struct MountedSource {
    pub source: String,
    pub target: String,
    pub canonical: Option<String>,
}

/// An active swap area: its source, and the source with symlinks resolved
/// when it resolves.
#[derive(Debug, Clone, PartialEq, Eq)]
pub struct SwapSource {
    pub source: String,
    pub canonical: Option<String>,
}

/// What the caller found out about the device before erasing it.
#[derive(Debug, Clone, PartialEq, Eq)]
pub struct DeviceProbe {
    /// The device node exists.
    pub exists: bool,
    pub is_block_device: bool,
    /// The device path with symlinks resolved (the path itself when it does
    /// not resolve).
    pub canonical: String,
    /// The device's whole-disk entry under `/sys/block`, when it is one.
    pub sys_name: Option<String>,
    /// The disk's `ro` attribute reads `1`.
    pub read_only: bool,
    pub mounts: Vec<MountedSource>,
    pub swaps: Vec<SwapSource>,
    /// Kernel holders of the disk and of its partitions, in any order.
    pub holders: Vec<String>,
    /// Size in bytes (0 when unknown).
    pub size: u64,
}

pub open spec fn opt_text(o: Option<String>) -> Option<Seq<char>> {
    match o {
        Some(s) => Some(s@),
        None => None,
    }
}

pub open spec fn source_matches(source: Seq<char>, device: Seq<char>, canonical_source: Option<Seq<char>>, canonical_device: Seq<char>) -> bool {
    source == device || is_partition_of(source, device) || match canonical_source {
        Some(c) => c == canonical_device || is_partition_of(c, canonical_device),
        None => false,
    }
}

pub open spec fn mount_hit(m: MountedSource, device: Seq<char>, canonical: Seq<char>) -> bool {
    source_matches(m.source@, device, opt_text(m.canonical), canonical)
}

pub open spec fn swap_hit(s: SwapSource, device: Seq<char>, canonical: Seq<char>) -> bool {
    source_matches(s.source@, device, opt_text(s.canonical), canonical)
}

/// The holder names, ascending and each once.
pub open spec fn sorted_names(s: Seq<Seq<char>>) -> Seq<Seq<char>>
    decreases s.len(),
{
    if s.len() == 0 {
        seq![]
    } else {
        insert_unique(sorted_names(s.drop_last()), s.last())
    }
}

pub open spec fn unresolved_reason(canonical: Seq<char>) -> Seq<char> {
    "could not resolve "@ + canonical + " to a /sys/block entry (is it a whole disk?)"@
}

pub open spec fn read_only_reason() -> Seq<char> {
    "disk is read-only (hardware write-protect or firmware lock)"@
}

pub open spec fn mounted_reason(m: MountedSource) -> Seq<char> {
    "mounted at "@ + m.target@ + " (source "@ + m.source@ + ")"@
}

pub open spec fn swap_reason(s: SwapSource) -> Seq<char> {
    "active swap on "@ + s.source@
}

pub open spec fn holders_reason(holders: Seq<Seq<char>>) -> Seq<char> {
    "in use by kernel holder(s): "@ + join(sorted_names(holders), ", "@)
        + " (deactivate LVM/RAID/LUKS/multipath first)"@
}

pub open spec fn first_mount_hit(ms: Seq<MountedSource>, device: Seq<char>, canonical: Seq<char>, i: int) -> bool {
    0 <= i < ms.len() && mount_hit(ms[i], device, canonical) && forall|k: int|
        0 <= k < i ==> !mount_hit(#[trigger] ms[k], device, canonical)
}

pub open spec fn first_swap_hit(ss: Seq<SwapSource>, device: Seq<char>, canonical: Seq<char>, i: int) -> bool {
    0 <= i < ss.len() && swap_hit(ss[i], device, canonical) && forall|k: int|
        0 <= k < i ==> !swap_hit(#[trigger] ss[k], device, canonical)
}

pub open spec fn busy_with(e: DiskError, device: Seq<char>, reason: Seq<char>) -> bool {
    e matches DiskError::DeviceBusy { device: d, reason: r } && d@ == device && r@ == reason
}

pub open spec fn mounted(p: DeviceProbe, device: Seq<char>) -> bool {
    exists|i: int| 0 <= i < p.mounts@.len() && mount_hit(#[trigger] p.mounts@[i], device, p.canonical@)
}

pub open spec fn swapped(p: DeviceProbe, device: Seq<char>) -> bool {
    exists|i: int| 0 <= i < p.swaps@.len() && swap_hit(#[trigger] p.swaps@[i], device, p.canonical@)
}

fn push_holders(out: &mut Vec<Vec<char>>, holders: &Vec<String>)
    requires
        old(out)@.len() == 0,
    ensures
        vviews(final(out)@) == sorted_names(sviews(holders@)),
{
    let ghost hs = sviews(holders@);
    let mut i: usize = 0;
    assert(vviews(out@) =~= sorted_names(hs.subrange(0, 0)));
    while i < holders.len()
        invariant
            i <= holders.len(),
            hs == sviews(holders@),
            vviews(out@) == sorted_names(hs.subrange(0, i as int)),
        decreases holders.len() - i,
    {
        let ghost next = hs.subrange(0, i + 1);
        proof {
            assert(next.drop_last() =~= hs.subrange(0, i as int));
            assert(next.last() == holders@[i as int]@);
        }
        insert_sorted(out, chars_of(holders[i].as_str()));
        i = i + 1;
    }
    assert(hs.subrange(0, holders.len() as int) =~= hs);
}

/// What becomes of a disk, in this order: refused when the device is blank,
/// missing, not a block device, not a whole disk, read-only, mounted,
/// swapped on, held by the kernel, or too small for the install.
pub open spec fn preflight_outcome(disk: Disk, swap: ResolvedSwap, probe: DeviceProbe, r: Result<(), DiskError>) -> bool {
            let device = trim(disk.device@);
            let canonical = probe.canonical@;
            if device.len() == 0 {
                r == Err::<(), DiskError>(DiskError::MissingDevice)
            } else if !probe.exists {
                r matches Err(DiskError::DeviceMissing(d)) && d@ == device
            } else if !probe.is_block_device {
                r matches Err(DiskError::NotBlockDevice(d)) && d@ == device
            } else if probe.sys_name is None {
                r matches Err(e) && busy_with(e, device, unresolved_reason(canonical))
            } else if probe.read_only {
                r matches Err(e) && busy_with(e, device, read_only_reason())
            } else if mounted(probe, device) {
                r matches Err(e) && exists|i: int|
                    first_mount_hit(probe.mounts@, device, canonical, i) && busy_with(
                        e,
                        device,
                        mounted_reason(probe.mounts@[i]),
                    )
            } else if swapped(probe, device) {
                r matches Err(e) && exists|i: int|
                    first_swap_hit(probe.swaps@, device, canonical, i) && busy_with(
                        e,
                        device,
                        swap_reason(probe.swaps@[i]),
                    )
            } else if probe.holders@.len() > 0 {
                r matches Err(e) && busy_with(e, device, holders_reason(sviews(probe.holders@)))
            } else if probe.size < install_bytes_needed(disk, swap) {
                r matches Err(DiskError::DeviceTooSmall { device: d, have, need }) && d@ == device && have@
                    == bytes_text(probe.size) && need@ == bytes_text(install_bytes_needed(disk, swap))
            } else {
                r is Ok
            }
        }

/// Whether the disk may be erased (see `preflight_outcome`).
pub fn preflight_with_swap(disk: &Disk, resolved_swap: &ResolvedSwap, probe: &DeviceProbe) -> (r: Result<(), DiskError>)
    ensures
        preflight_outcome(*disk, *resolved_swap, *probe, r),
{
    let dv = trim_str(disk.device.as_str());
    let device = string_of(&dv);
    if dv.len() == 0 {
        return Err(DiskError::MissingDevice);
    }
    if !probe.exists {
        return Err(DiskError::DeviceMissing(device));
    }
    if !probe.is_block_device {
        return Err(DiskError::NotBlockDevice(device));
    }
    if probe.sys_name.is_none() {
        let mut v = chars_of("could not resolve ");
        push_str(&mut v, probe.canonical.as_str());
        push_str(&mut v, " to a /sys/block entry (is it a whole disk?)");
        return Err(DiskError::DeviceBusy { device, reason: string_of(&v) });
    }
    if probe.read_only {
        return Err(
            DiskError::DeviceBusy {
                device,
                reason: "disk is read-only (hardware write-protect or firmware lock)".to_owned(),
            },
        );
    }
    let ghost dev = device@;
    let ghost canon = probe.canonical@;
    let mut i: usize = 0;
    while i < probe.mounts.len()
        invariant
            i <= probe.mounts.len(),
            dev == device@,
            canon == probe.canonical@,
            dev == trim(disk.device@),
            dev.len() > 0,
            probe.exists,
            probe.is_block_device,
            probe.sys_name is Some,
            !probe.read_only,
            forall|k: int| 0 <= k < i ==> !mount_hit(#[trigger] probe.mounts@[k], dev, canon),
        decreases probe.mounts.len() - i,
    {
        let m = &probe.mounts[i];
        let canonical_source = match &m.canonical {
            Some(c) => Some(c.as_str()),
            None => None,
        };
        if mount_source_matches_device(m.source.as_str(), device.as_str(), canonical_source, probe.canonical.as_str()) {
            let mut v = chars_of("mounted at ");
            push_str(&mut v, m.target.as_str());
            push_str(&mut v, " (source ");
            push_str(&mut v, m.source.as_str());
            push_str(&mut v, ")");
            let e = DiskError::DeviceBusy { device, reason: string_of(&v) };
            proof {
                assert(first_mount_hit(probe.mounts@, dev, canon, i as int));
                assert(mounted(*probe, dev));
                assert(v@ == mounted_reason(probe.mounts@[i as int]));
                assert(busy_with(e, dev, mounted_reason(probe.mounts@[i as int])));
            }
            return Err(e);
        }
        i = i + 1;
    }
    let mut j: usize = 0;
    while j < probe.swaps.len()
        invariant
            j <= probe.swaps.len(),
            dev == device@,
            canon == probe.canonical@,
            dev == trim(disk.device@),
            dev.len() > 0,
            probe.exists,
            probe.is_block_device,
            probe.sys_name is Some,
            !probe.read_only,
            !mounted(*probe, dev),
            forall|k: int| 0 <= k < j ==> !swap_hit(#[trigger] probe.swaps@[k], dev, canon),
        decreases probe.swaps.len() - j,
    {
        let s = &probe.swaps[j];
        let canonical_source = match &s.canonical {
            Some(c) => Some(c.as_str()),
            None => None,
        };
        if mount_source_matches_device(s.source.as_str(), device.as_str(), canonical_source, probe.canonical.as_str()) {
            let mut v = chars_of("active swap on ");
            push_str(&mut v, s.source.as_str());
            let e = DiskError::DeviceBusy { device, reason: string_of(&v) };
            proof {
                assert(first_swap_hit(probe.swaps@, dev, canon, j as int));
                assert(swapped(*probe, dev));
                assert(v@ == swap_reason(probe.swaps@[j as int]));
                assert(busy_with(e, dev, swap_reason(probe.swaps@[j as int])));
            }
            return Err(e);
        }
        j = j + 1;
    }
    if probe.holders.len() > 0 {
        let mut names: Vec<Vec<char>> = Vec::new();
        push_holders(&mut names, &probe.holders);
        let listed = join_chars(&names, ", ");
        let mut v = chars_of("in use by kernel holder(s): ");
        push_chars(&mut v, &listed);
        push_str(&mut v, " (deactivate LVM/RAID/LUKS/multipath first)");
        return Err(DiskError::DeviceBusy { device, reason: string_of(&v) });
    }
    check_disk_size(device.as_str(), probe.size, disk, resolved_swap)
}

} // verus!

verus! {

/// The kernel holders named in a refusal come out ascending, each once,
/// however the caller found them.
pub proof fn lemma_holder_names_ascending(holders: Seq<Seq<char>>)
    ensures
        strictly_ascending(sorted_names(holders)),
    decreases holders.len(),
{
    if holders.len() > 0 {
        lemma_holder_names_ascending(holders.drop_last());
        lemma_insert_unique(sorted_names(holders.drop_last()), holders.last());
    }
}

} // verus!

verus! {

/// The preflight of a disk on its own: its swap resolved as the default
/// manifest would resolve it on a machine with `ram_bytes` of RAM.
pub fn preflight(disk: &Disk, ram_bytes: u64, probe: &DeviceProbe) -> (r: Result<(), DiskError>)
    ensures
        match crate::manifest::swap::manifest_swap_spec(disk.partitions.swap, crate::manifest::Swap::default_spec(), ram_bytes) {
            Err(e) => r == Err::<(), DiskError>(DiskError::InvalidSwap(e)),
            Ok(sw) => preflight_outcome(*disk, sw, *probe, r),
        },
{
    let swap = crate::manifest::Swap::default();
    match crate::manifest::swap::resolve_manifest_swap(disk.partitions.swap, swap, ram_bytes) {
        Err(e) => Err(DiskError::InvalidSwap(e)),
        Ok(sw) => preflight_with_swap(disk, &sw, probe),
    }
}

} // verus!
