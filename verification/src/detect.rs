//! Hardware detection: the decisions made on what the live system reports.
//!
//! Reading `/sys` and `/proc` is left to the caller; the functions here take
//! what was read and decide.
use vstd::prelude::*;

use crate::manifest::{Gpu, GpuVendor, SwapConfig, GB};
use crate::package_check::{lex_lt, seq_lt};
use crate::text::{
    chars_of, contains, is_ascii_digit, is_digit, slice, starts_with, str_eq, string_of, trim,
    trim_str,
};

verus! {

/// A whole disk found on the live system.
#[derive(Debug, Clone, PartialEq, Eq)]
pub struct DetectedDisk {
    pub device: String,
    pub model: String,
    pub size: u64,
}

// ---------------------------------------------------------------------------
// Board vendor.
// ---------------------------------------------------------------------------

/// What `str::to_lowercase` returns for `s`.
pub uninterp spec fn lowercase(s: Seq<char>) -> Seq<char>;

/// Lower-cases a string.
///
/// Trusted: calls `str::to_lowercase` from std; the contract claims only that
/// the result is a function of the argument (Unicode lower-casing is not
/// restated here).
#[verifier::external_body]
fn to_lowercase(s: &str) -> (r: String)
    ensures
        r@ == lowercase(s@),
{
    s.to_lowercase()
}

/// The board vendor read from the firmware names `vendor`: the lower-cased,
/// trimmed vendor string contains it.
pub fn vendor_matches(detected: &str, vendor: &str) -> (r: bool)
    ensures
        r == contains(lowercase(trim(detected@)), vendor@),
{
    let t = string_of(&trim_str(detected));
    let l = to_lowercase(t.as_str());
    crate::text::str_contains(l.as_str(), vendor)
}

// ---------------------------------------------------------------------------
// GPUs.
// ---------------------------------------------------------------------------

/// A DRM entry that is a card, not a connector (`card0`, not `card0-DP-1`).
pub open spec fn is_card_name(name: Seq<char>) -> bool {
    starts_with(name, "card"@) && !name.contains('-')
}

pub fn is_drm_card_name(name: &str) -> (r: bool)
    ensures
        r == is_card_name(name@),
{
    if !crate::text::str_starts_with(name, "card") {
        return false;
    }
    let v = chars_of(name);
    match crate::text::find_char(&v, '-') {
        Some(i) => {
            assert(v@[i as int] == '-');
            false
        },
        None => true,
    }
}

/// The vendor a PCI vendor id names.
pub open spec fn vendor_of_id(id: Seq<char>) -> Option<GpuVendor> {
    if id == "0x1002"@ {
        Some(GpuVendor::Amd)
    } else if id == "0x8086"@ {
        Some(GpuVendor::Intel)
    } else if id == "0x10de"@ {
        Some(GpuVendor::Nvidia)
    } else {
        None
    }
}

pub fn parse_vendor_id(vendor: &str) -> (r: Option<GpuVendor>)
    ensures
        r == vendor_of_id(vendor@),
{
    if str_eq(vendor, "0x1002") {
        Some(GpuVendor::Amd)
    } else if str_eq(vendor, "0x8086") {
        Some(GpuVendor::Intel)
    } else if str_eq(vendor, "0x10de") {
        Some(GpuVendor::Nvidia)
    } else {
        None
    }
}

/// The vendor a kernel DRM driver belongs to.
pub open spec fn vendor_of_driver(d: Seq<char>) -> Option<GpuVendor> {
    if d == "amdgpu"@ {
        Some(GpuVendor::Amd)
    } else if d == "i915"@ || d == "xe"@ {
        Some(GpuVendor::Intel)
    } else if d == "nvidia"@ || d == "nvidia_drm"@ {
        Some(GpuVendor::Nvidia)
    } else {
        None
    }
}

/// A line of `s` starts at `i`.
pub open spec fn line_start_at(s: Seq<char>, i: int) -> bool {
    0 <= i < s.len() && (i == 0 || s[i - 1] == '\n')
}

/// Where the line starting at `i` ends: its newline, or the end of `s`.
pub open spec fn line_end(s: Seq<char>, i: int) -> int
    decreases s.len() - i,
{
    if i >= s.len() || i < 0 {
        s.len() as int
    } else if s[i] == '\n' {
        i
    } else {
        line_end(s, i + 1)
    }
}

/// The text of the line starting at `i`, as `str::lines` yields it: without
/// its `\n` or `\r\n` ending.
pub open spec fn line_text(s: Seq<char>, i: int) -> Seq<char> {
    let e = line_end(s, i);
    if e < s.len() && e > i && s[e - 1] == '\r' {
        s.subrange(i, e - 1)
    } else {
        s.subrange(i, e)
    }
}

pub open spec fn driver_line_at(s: Seq<char>, i: int) -> bool {
    line_start_at(s, i) && starts_with(line_text(s, i), "DRIVER="@)
}

pub open spec fn first_driver_line(s: Seq<char>, i: int) -> bool {
    driver_line_at(s, i) && forall|k: int| 0 <= k < i ==> !driver_line_at(s, k)
}

/// The GPU vendor named by the first `DRIVER=` line of a device `uevent`.
pub open spec fn uevent_vendor(s: Seq<char>) -> Option<GpuVendor> {
    if exists|i: int| first_driver_line(s, i) {
        let i = choose|i: int| first_driver_line(s, i);
        let line = line_text(s, i);
        vendor_of_driver(trim(line.subrange(7, line.len() as int)))
    } else {
        None
    }
}

pub proof fn lemma_line_end_bounds(s: Seq<char>, i: int)
    requires
        0 <= i <= s.len(),
    ensures
        i <= line_end(s, i) <= s.len(),
        line_end(s, i) < s.len() ==> s[line_end(s, i)] == '\n',
        forall|k: int| i <= k < line_end(s, i) ==> s[k] != '\n',
    decreases s.len() - i,
{
    if i < s.len() && s[i] != '\n' {
        lemma_line_end_bounds(s, i + 1);
    }
}

pub fn find_line_end(s: &Vec<char>, i: usize) -> (r: usize)
    requires
        i <= s.len(),
    ensures
        r == line_end(s@, i as int),
{
    let mut j = i;
    while j < s.len() && s[j] != '\n'
        invariant
            i <= j <= s.len(),
            line_end(s@, i as int) == line_end(s@, j as int),
        decreases s.len() - j,
    {
        j = j + 1;
    }
    j
}

pub fn line_of(s: &Vec<char>, i: usize) -> (r: Vec<char>)
    requires
        i < s.len(),
    ensures
        r@ == line_text(s@, i as int),
{
    let e = find_line_end(s, i);
    proof {
        lemma_line_end_bounds(s@, i as int);
    }
    if e < s.len() && e > i && s[e - 1] == '\r' {
        slice(s, i, e - 1)
    } else {
        slice(s, i, e)
    }
}

pub fn parse_drm_driver(uevent: &str) -> (r: Option<GpuVendor>)
    ensures
        r == uevent_vendor(uevent@),
{
    let s = chars_of(uevent);
    let mut i: usize = 0;
    while i < s.len()
        invariant
            i <= s.len(),
            s@ == uevent@,
            forall|k: int| 0 <= k < i ==> !driver_line_at(s@, k),
        decreases s.len() - i,
    {
        if i == 0 || s[i - 1] == '\n' {
            let line = line_of(&s, i);
            if crate::text::has_prefix(&line, "DRIVER=") {
                proof {
                    reveal_strlit("DRIVER=");
                    assert(driver_line_at(s@, i as int));
                    let j = choose|j: int| first_driver_line(s@, j);
                    assert(first_driver_line(s@, i as int));
                    if j < i {
                        assert(!driver_line_at(s@, j));
                    } else if i < j {
                        assert(!driver_line_at(s@, i as int));
                    }
                }
                let rest = slice(&line, 7, line.len());
                let d = string_of(&crate::text::trimmed(&rest));
                return if str_eq(d.as_str(), "amdgpu") {
                    Some(GpuVendor::Amd)
                } else if str_eq(d.as_str(), "i915") || str_eq(d.as_str(), "xe") {
                    Some(GpuVendor::Intel)
                } else if str_eq(d.as_str(), "nvidia") || str_eq(d.as_str(), "nvidia_drm") {
                    Some(GpuVendor::Nvidia)
                } else {
                    None
                };
            }
        }
        i = i + 1;
    }
    assert forall|k: int| !first_driver_line(s@, k) by {
        if 0 <= k < s.len() {
            assert(!driver_line_at(s@, k));
        }
    }
    None
}

/// The hybrid pairings the installer knows: the integrated GPU and the
/// discrete one, whichever order they were found in.
pub open spec fn hybrid_pair(first: GpuVendor, second: GpuVendor) -> Option<Gpu> {
    match (first, second) {
        (GpuVendor::Intel, GpuVendor::Nvidia) | (GpuVendor::Nvidia, GpuVendor::Intel) => Some(
            Gpu::Hybrid { igpu: GpuVendor::Intel, dgpu: GpuVendor::Nvidia },
        ),
        (GpuVendor::Amd, GpuVendor::Nvidia) | (GpuVendor::Nvidia, GpuVendor::Amd) => Some(
            Gpu::Hybrid { igpu: GpuVendor::Amd, dgpu: GpuVendor::Nvidia },
        ),
        (GpuVendor::Intel, GpuVendor::Amd) | (GpuVendor::Amd, GpuVendor::Intel) => Some(
            Gpu::Hybrid { igpu: GpuVendor::Intel, dgpu: GpuVendor::Amd },
        ),
        _ => None,
    }
}

pub fn classify_hybrid_pair(first: GpuVendor, second: GpuVendor) -> (r: Option<Gpu>)
    ensures
        r == hybrid_pair(first, second),
{
    match (first, second) {
        (GpuVendor::Intel, GpuVendor::Nvidia) | (GpuVendor::Nvidia, GpuVendor::Intel) => Some(
            Gpu::Hybrid { igpu: GpuVendor::Intel, dgpu: GpuVendor::Nvidia },
        ),
        (GpuVendor::Amd, GpuVendor::Nvidia) | (GpuVendor::Nvidia, GpuVendor::Amd) => Some(
            Gpu::Hybrid { igpu: GpuVendor::Amd, dgpu: GpuVendor::Nvidia },
        ),
        (GpuVendor::Intel, GpuVendor::Amd) | (GpuVendor::Amd, GpuVendor::Intel) => Some(
            Gpu::Hybrid { igpu: GpuVendor::Intel, dgpu: GpuVendor::Amd },
        ),
        _ => None,
    }
}

/// `vs[i]` is the first vendor that differs from the first one found.
pub open spec fn first_other(vs: Seq<GpuVendor>, i: int) -> bool {
    0 < i < vs.len() && vs[i] != vs[0] && forall|k: int| 0 < k < i ==> #[trigger] vs[k] == vs[0]
}

/// The GPU setup the detected vendors describe: nothing, a single vendor, or
/// a hybrid of the first vendor and the first different one.
pub open spec fn classified_gpus(vs: Seq<GpuVendor>) -> Option<Gpu> {
    if vs.len() == 0 {
        None
    } else if exists|i: int| first_other(vs, i) {
        let second = vs[choose|i: int| first_other(vs, i)];
        match hybrid_pair(vs[0], second) {
            Some(g) => Some(g),
            None => Some(Gpu::Hybrid { igpu: vs[0], dgpu: second }),
        }
    } else {
        Some(Gpu::Single(vs[0]))
    }
}

pub fn classify_gpu_vendors(vendors: &Vec<GpuVendor>) -> (r: Option<Gpu>)
    ensures
        r == classified_gpus(vendors@),
{
    if vendors.len() == 0 {
        return None;
    }
    let first = vendors[0];
    let mut i: usize = 1;
    while i < vendors.len()
        invariant
            1 <= i <= vendors.len(),
            first == vendors@[0],
            forall|k: int| 0 < k < i ==> vendors@[k] == first,
        decreases vendors.len() - i,
    {
        if vendors[i] != first {
            proof {
                assert(first_other(vendors@, i as int));
                let j = choose|j: int| first_other(vendors@, j);
                if j < i {
                    assert(vendors@[j] == first);
                } else if i < j {
                    assert(vendors@[i as int] == first);
                }
            }
            let second = vendors[i];
            return match classify_hybrid_pair(first, second) {
                Some(g) => Some(g),
                None => Some(Gpu::Hybrid { igpu: first, dgpu: second }),
            };
        }
        i = i + 1;
    }
    assert(!exists|j: int| first_other(vendors@, j));
    Some(Gpu::Single(first))
}

/// The GPU setup of the live system, from the PCI vendor ids of its DRM
/// cards, or else from their kernel drivers.
pub open spec fn detected_gpu(by_vendor_id: Seq<GpuVendor>, by_driver: Seq<GpuVendor>) -> Gpu {
    match classified_gpus(by_vendor_id) {
        Some(g) => g,
        None => match classified_gpus(by_driver) {
            Some(g) => g,
            None => Gpu::Auto,
        },
    }
}

/// Decides the GPU setup from the vendors read for the DRM cards, first by
/// PCI vendor id and, when that finds nothing, by kernel driver.
pub fn detect_gpu(by_vendor_id: &Vec<GpuVendor>, by_driver: &Vec<GpuVendor>) -> (r: Gpu)
    ensures
        r == detected_gpu(by_vendor_id@, by_driver@),
{
    match classify_gpu_vendors(by_vendor_id) {
        Some(g) => g,
        None => match classify_gpu_vendors(by_driver) {
            Some(g) => g,
            None => Gpu::Auto,
        },
    }
}

/// The integrated (or only) GPU of a detected setup.
pub fn detect_igpu(detected: Gpu) -> (r: Option<GpuVendor>)
    ensures
        r == match detected {
            Gpu::Hybrid { igpu, .. } => Some(igpu),
            Gpu::Single(v) => Some(v),
            Gpu::Auto => None::<GpuVendor>,
        },
{
    match detected {
        Gpu::Hybrid { igpu, .. } => Some(igpu),
        Gpu::Single(v) => Some(v),
        Gpu::Auto => None,
    }
}

/// The discrete GPU of a detected hybrid setup.
pub fn detect_dgpu(detected: Gpu) -> (r: Option<GpuVendor>)
    ensures
        r == match detected {
            Gpu::Hybrid { dgpu, .. } => Some(dgpu),
            _ => None::<GpuVendor>,
        },
{
    match detected {
        Gpu::Hybrid { dgpu, .. } => Some(dgpu),
        _ => None,
    }
}

// ---------------------------------------------------------------------------
// Swap, disks, CPUs.
// ---------------------------------------------------------------------------

/// The RAM assumed when it could not be read.
pub const FALLBACK_RAM_BYTES: u64 = 8 * GB;

/// The recommended swap: compressed RAM swap of half the detected RAM (of
/// the fallback figure when RAM could not be read).
pub fn default_swap(detected_ram: Option<u64>) -> (r: SwapConfig)
    ensures
        r == (SwapConfig::Zram {
            size: (match detected_ram {
                Some(b) => b,
                None => FALLBACK_RAM_BYTES,
            }) / 2,
        }),
{
    let ram = match detected_ram {
        Some(b) => b,
        None => FALLBACK_RAM_BYTES,
    };
    SwapConfig::Zram { size: ram / 2 }
}

pub open spec fn all_digits_in(s: Seq<char>) -> bool {
    forall|i: int| 0 <= i < s.len() ==> is_digit(#[trigger] s[i])
}

/// A non-empty run of ASCII digits.
pub open spec fn is_number(s: Seq<char>) -> bool {
    s.len() > 0 && all_digits_in(s)
}

/// The device names of whole disks: not loop, RAM, device-mapper, RAID or
/// optical devices, and not partitions (`nvme0n1`, `mmcblk0`, `sda`).
pub open spec fn whole_disk(name: Seq<char>) -> bool {
    if starts_with(name, "loop"@) || starts_with(name, "ram"@) || starts_with(name, "zram"@)
        || starts_with(name, "dm-"@) || starts_with(name, "md"@) || starts_with(name, "sr"@) {
        false
    } else if starts_with(name, "nvme"@) {
        let rest = name.subrange(4, name.len() as int);
        if rest.contains('n') {
            let i = choose|i: int| crate::text::first_index_of(rest, 'n', i);
            is_number(rest.subrange(0, i)) && is_number(rest.subrange(i + 1, rest.len() as int))
        } else {
            false
        }
    } else if starts_with(name, "mmcblk"@) {
        is_number(name.subrange(6, name.len() as int))
    } else {
        !(name.len() > 0 && is_digit(name.last()))
    }
}

fn digits_only(s: &Vec<char>, from: usize, to: usize) -> (r: bool)
    requires
        from <= to <= s.len(),
    ensures
        r == is_number(s@.subrange(from as int, to as int)),
{
    if from == to {
        return false;
    }
    let mut i = from;
    while i < to
        invariant
            from <= i <= to <= s.len(),
            forall|k: int| from <= k < i ==> is_digit(#[trigger] s@[k]),
        decreases to - i,
    {
        if !is_ascii_digit(s[i]) {
            assert(s@.subrange(from as int, to as int)[i - from] == s@[i as int]);
            return false;
        }
        i = i + 1;
    }
    assert forall|k: int| 0 <= k < to - from implies is_digit(#[trigger] s@.subrange(from as int, to as int)[k]) by {
        assert(s@.subrange(from as int, to as int)[k] == s@[from + k]);
    }
    true
}

pub fn is_whole_disk_name(name: &str) -> (r: bool)
    ensures
        r == whole_disk(name@),
{
    if crate::text::str_starts_with(name, "loop") || crate::text::str_starts_with(name, "ram")
        || crate::text::str_starts_with(name, "zram") || crate::text::str_starts_with(name, "dm-")
        || crate::text::str_starts_with(name, "md") || crate::text::str_starts_with(name, "sr") {
        return false;
    }
    let v = chars_of(name);
    if crate::text::str_starts_with(name, "nvme") {
        proof {
            reveal_strlit("nvme");
        }
        let rest = slice(&v, 4, v.len());
        return match crate::text::find_char(&rest, 'n') {
            Some(i) => {
                proof {
                    assert(rest@[i as int] == 'n');
                    assert(rest@.contains('n'));
                    let j = choose|j: int| crate::text::first_index_of(rest@, 'n', j);
                    assert(crate::text::first_index_of(rest@, 'n', j));
                    if j < i {
                        assert(rest@[j] == 'n');
                    } else if i < j {
                        assert(rest@[i as int] == 'n');
                    }
                }
                digits_only(&rest, 0, i) && digits_only(&rest, i + 1, rest.len())
            },
            None => {
                assert(!rest@.contains('n'));
                false
            },
        };
    }
    if crate::text::str_starts_with(name, "mmcblk") {
        proof {
            reveal_strlit("mmcblk");
        }
        return digits_only(&v, 6, v.len());
    }
    !(v.len() > 0 && is_ascii_digit(v[v.len() - 1]))
}

/// The value of a run of ASCII digits.
pub open spec fn digits_value(s: Seq<char>) -> nat
    decreases s.len(),
{
    if s.len() == 0 {
        0
    } else {
        digits_value(s.drop_last()) * 10 + ((s.last() as nat) - ('0' as nat)) as nat
    }
}

/// `str::parse::<usize>`: an optional `+` and at least one digit, no larger
/// than `usize::MAX`.
pub open spec fn parsed_usize(s: Seq<char>) -> Option<nat> {
    let digits = if s.len() > 0 && s[0] == '+' {
        s.drop_first()
    } else {
        s
    };
    if is_number(digits) && digits_value(digits) <= usize::MAX {
        Some(digits_value(digits))
    } else {
        None
    }
}

pub fn parse_usize(s: &Vec<char>) -> (r: Option<usize>)
    ensures
        match r {
            Some(n) => parsed_usize(s@) == Some(n as nat),
            None => parsed_usize(s@) is None,
        },
{
    let start: usize = if s.len() > 0 && s[0] == '+' {
        1
    } else {
        0
    };
    let ghost digits = s@.subrange(start as int, s.len() as int);
    proof {
        if start == 1 {
            assert(s@.drop_first() =~= digits);
        } else {
            assert(s@ =~= digits);
        }
    }
    if start == s.len() {
        return None;
    }
    let mut value: usize = 0;
    let mut i = start;
    while i < s.len()
        invariant
            start <= i <= s.len(),
            digits == s@.subrange(start as int, s.len() as int),
            digits == (if s@.len() > 0 && s@[0] == '+' {
                s@.drop_first()
            } else {
                s@
            }),
            value == digits_value(s@.subrange(start as int, i as int)),
            forall|k: int| start <= k < i ==> is_digit(#[trigger] s@[k]),
        decreases s.len() - i,
    {
        let c = s[i];
        if !is_ascii_digit(c) {
            assert(digits[i - start] == c);
            return None;
        }
        let d = (c as u32 - '0' as u32) as usize;
        proof {
            let sub = s@.subrange(start as int, i + 1);
            assert(sub.drop_last() =~= s@.subrange(start as int, i as int));
            assert(sub.last() == c);
        }
        if value > (usize::MAX - d) / 10 {
            proof {
                let rest = s@.subrange(start as int, i + 1);
                assert(value * 10 + d > usize::MAX) by (nonlinear_arith)
                    requires
                        value > (usize::MAX - d) / 10,
                        d <= 9,
                ;
                assert(digits.subrange(0, i + 1 - start) =~= rest);
                if all_digits_in(digits) {
                    lemma_digits_value_monotone(digits, i + 1 - start);
                }
            }
            return None;
        }
        value = value * 10 + d;
        i = i + 1;
    }
    assert(s@.subrange(start as int, s.len() as int) =~= digits);
    assert forall|k: int| 0 <= k < digits.len() implies is_digit(#[trigger] digits[k]) by {
        assert(digits[k] == s@[start + k]);
    }
    Some(value)
}

/// Digit runs only grow in value as they get longer.
proof fn lemma_digits_value_monotone(s: Seq<char>, n: int)
    requires
        0 <= n <= s.len(),
        all_digits_in(s),
    ensures
        digits_value(s.subrange(0, n)) <= digits_value(s),
    decreases s.len() - n,
{
    if n < s.len() {
        lemma_digits_value_monotone(s, n + 1);
        let p = s.subrange(0, n + 1);
        assert(p.drop_last() =~= s.subrange(0, n));
        assert(is_digit(s[n]));
    }
    if n == s.len() {
        assert(s.subrange(0, n) =~= s);
    }
}


/// The pieces of `s` between occurrences of `c`, as `str::split` yields them.
pub open spec fn split_on(s: Seq<char>, c: char) -> Seq<Seq<char>>
    decreases s.len(),
{
    if exists|i: int| crate::text::first_index_of(s, c, i) {
        let i = choose|i: int| crate::text::first_index_of(s, c, i);
        seq![s.subrange(0, i)] + split_on(s.subrange(i + 1, s.len() as int), c)
    } else {
        seq![s]
    }
}

/// How many CPUs one segment of the `present` list names: `n` names one,
/// `a-b` names `b - a + 1`; `None` for anything malformed.
pub open spec fn segment_count(seg: Seq<char>) -> Option<nat> {
    let t = trim(seg);
    if t.len() == 0 {
        None
    } else if t.contains('-') {
        let i = choose|i: int| crate::text::first_index_of(t, '-', i);
        match (parsed_usize(trim(t.subrange(0, i))), parsed_usize(trim(t.subrange(i + 1, t.len() as int)))) {
            (Some(a), Some(b)) => if b >= a && b - a + 1 <= usize::MAX {
                Some((b - a + 1) as nat)
            } else {
                None
            },
            _ => None,
        }
    } else {
        match parsed_usize(t) {
            Some(_) => Some(1),
            None => None,
        }
    }
}

/// The sum of the segment counts, failing on a malformed segment or a sum
/// beyond `usize::MAX`.
pub open spec fn cpu_total(segs: Seq<Seq<char>>) -> Option<nat>
    decreases segs.len(),
{
    if segs.len() == 0 {
        Some(0)
    } else {
        match (cpu_total(segs.drop_last()), segment_count(segs.last())) {
            (Some(a), Some(b)) => if a + b <= usize::MAX {
                Some(a + b)
            } else {
                None
            },
            _ => None,
        }
    }
}

/// The number of CPUs a `/sys/devices/system/cpu/present` list names, when
/// it is well formed and positive.
pub open spec fn cpu_count_of(present: Seq<char>) -> Option<nat> {
    match cpu_total(split_on(trim(present), ',')) {
        Some(t) => if t > 0 {
            Some(t)
        } else {
            None
        },
        None => None,
    }
}

fn first_of(s: &Vec<char>, from: usize, c: char) -> (r: usize)
    requires
        from <= s.len(),
    ensures
        from <= r <= s.len(),
        r < s.len() ==> s@[r as int] == c,
        forall|k: int| from <= k < r ==> s@[k] != c,
{
    let mut j = from;
    while j < s.len() && s[j] != c
        invariant
            from <= j <= s.len(),
            forall|k: int| from <= k < j ==> s@[k] != c,
        decreases s.len() - j,
    {
        j = j + 1;
    }
    j
}

fn count_segment(seg: &Vec<char>) -> (r: Option<usize>)
    ensures
        match r {
            Some(n) => segment_count(seg@) == Some(n as nat),
            None => segment_count(seg@) is None,
        },
{
    let t = crate::text::trimmed(seg);
    if t.len() == 0 {
        return None;
    }
    let dash = first_of(&t, 0, '-');
    if dash < t.len() {
        proof {
            assert(t@.contains('-')) by {
                assert(t@[dash as int] == '-');
            }
            assert(crate::text::first_index_of(t@, '-', dash as int));
            let j = choose|j: int| crate::text::first_index_of(t@, '-', j);
            assert(crate::text::first_index_of(t@, '-', j));
            if j < dash {
                assert(t@[j] == '-');
            } else if dash < j {
                assert(t@[dash as int] == '-');
            }
        }
        let a = crate::text::trimmed(&slice(&t, 0, dash));
        let b = crate::text::trimmed(&slice(&t, dash + 1, t.len()));
        let x = match parse_usize(&a) {
            Some(x) => x,
            None => return None,
        };
        let y = match parse_usize(&b) {
            Some(y) => y,
            None => return None,
        };
        if y < x {
            return None;
        }
        let d = y - x;
        if d == usize::MAX {
            return None;
        }
        return Some(d + 1);
    }
    proof {
        if t@.contains('-') {
            let k = choose|k: int| 0 <= k < t@.len() && t@[k] == '-';
            assert(t@[k] != '-');
        }
    }
    match parse_usize(&t) {
        Some(_) => Some(1),
        None => None,
    }
}

proof fn lemma_split_step(s: Seq<char>, c: char, a: int, j: int)
    requires
        0 <= a <= j < s.len(),
        s[j] == c,
        forall|k: int| a <= k < j ==> s[k] != c,
    ensures
        split_on(s.subrange(a, s.len() as int), c) == seq![s.subrange(a, j)] + split_on(
            s.subrange(j + 1, s.len() as int),
            c,
        ),
{
    let t = s.subrange(a, s.len() as int);
    assert(t[j - a] == c);
    assert(t.contains(c));
    assert(crate::text::first_index_of(t, c, j - a));
    let i = choose|i: int| crate::text::first_index_of(t, c, i);
    if i < j - a {
        assert(t[i] == s[a + i]);
    } else if i > j - a {
        assert(t[j - a] == c);
    }
    assert(t.subrange(0, j - a) =~= s.subrange(a, j));
    assert(t.subrange(j - a + 1, t.len() as int) =~= s.subrange(j + 1, s.len() as int));
}

proof fn lemma_split_last(s: Seq<char>, c: char, a: int)
    requires
        0 <= a <= s.len(),
        forall|k: int| a <= k < s.len() ==> s[k] != c,
    ensures
        split_on(s.subrange(a, s.len() as int), c) == seq![s.subrange(a, s.len() as int)],
{
    let t = s.subrange(a, s.len() as int);
    if exists|i: int| crate::text::first_index_of(t, c, i) {
        let k = choose|i: int| crate::text::first_index_of(t, c, i);
        assert(t[k] == s[a + k]);
    }
}

pub fn parse_cpu_present(present: &str) -> (r: Option<usize>)
    ensures
        match r {
            Some(n) => cpu_count_of(present@) == Some(n as nat),
            None => cpu_count_of(present@) is None,
        },
{
    let t = trim_str(present);
    let ghost pieces = split_on(t@, ',');
    let ghost mut done: Seq<Seq<char>> = Seq::empty();
    let mut total: usize = 0;
    let mut a: usize = 0;
    let mut finished = false;
    assert(t@.subrange(0, t.len() as int) =~= t@);
    assert(pieces =~= done + split_on(t@.subrange(0, t.len() as int), ','));
    while !finished
        invariant
            a <= t.len(),
            t@ == trim(present@),
            pieces == split_on(t@, ','),
            !finished ==> pieces == done + split_on(t@.subrange(a as int, t.len() as int), ','),
            finished ==> pieces == done,
            cpu_total(done) == Some(total as nat),
        decreases t.len() - a + (if finished {
            0int
        } else {
            1int
        }),
    {
        let j = first_of(&t, a, ',');
        let seg = slice(&t, a, j);
        proof {
            lemma_split_advance(t@, a as int, j as int, done, pieces);
        }
        proof {
            assert(done.push(seg@).drop_last() =~= done);
            assert(done.push(seg@).last() == seg@);
        }
        let n = match count_segment(&seg) {
            Some(n) => n,
            None => {
                proof {
                    lemma_total_failure_persists(done.push(seg@), pieces, done.len() + 1int);
                }
                return None;
            },
        };
        if total > usize::MAX - n {
            proof {
                lemma_total_failure_persists(done.push(seg@), pieces, done.len() + 1int);
            }
            return None;
        }
        total = total + n;
        proof {
            assert(done.push(seg@).drop_last() =~= done);
            done = done.push(seg@);
        }
        if j >= t.len() {
            finished = true;
        } else {
            a = j + 1;
        }
    }
    if total == 0 {
        return None;
    }
    Some(total)
}

/// One step of walking the `,`-separated segments of `s` from `a`, the
/// next `,` (or the end) being at `j`.
proof fn lemma_split_advance(s: Seq<char>, a: int, j: int, done: Seq<Seq<char>>, pieces: Seq<Seq<char>>)
    requires
        0 <= a <= j <= s.len(),
        j < s.len() ==> s[j] == ',',
        forall|k: int| a <= k < j ==> s[k] != ',',
        pieces == done + split_on(s.subrange(a, s.len() as int), ','),
    ensures
        pieces.subrange(0, done.len() + 1int) == done.push(s.subrange(a, j)),
        j < s.len() ==> pieces == done.push(s.subrange(a, j)) + split_on(s.subrange(j + 1, s.len() as int), ','),
        j >= s.len() ==> pieces == done.push(s.subrange(a, j)),
{
    if j < s.len() {
        lemma_split_step(s, ',', a, j);
        assert(pieces =~= done.push(s.subrange(a, j)) + split_on(s.subrange(j + 1, s.len() as int), ','));
    } else {
        lemma_split_last(s, ',', a);
        assert(pieces =~= done.push(s.subrange(a, j)));
    }
    assert(pieces.subrange(0, done.len() + 1int) =~= done.push(s.subrange(a, j)));
}

proof fn lemma_total_failure_persists(prefix: Seq<Seq<char>>, all: Seq<Seq<char>>, n: int)
    requires
        0 <= n <= all.len(),
        prefix.len() == n,
        all.subrange(0, n) == prefix,
        cpu_total(prefix) is None,
    ensures
        cpu_total(all) is None,
    decreases all.len() - n,
{
    if n == all.len() {
        assert(all =~= prefix);
    } else {
        let p2 = all.subrange(0, n + 1);
        assert(p2.drop_last() =~= prefix);
        lemma_total_failure_persists(p2, all, n + 1);
    }
}

} // verus!

verus! {

// ---------------------------------------------------------------------------
// RAM, battery and board vendor.
// ---------------------------------------------------------------------------

/// The first line that starts with `MemTotal:`.
pub open spec fn memtotal_line(lines: Seq<Seq<char>>) -> Option<Seq<char>>
    decreases lines.len(),
{
    if lines.len() == 0 {
        None
    } else {
        match memtotal_line(lines.drop_last()) {
            Some(l) => Some(l),
            None => if starts_with(lines.last(), "MemTotal:"@) {
                Some(lines.last())
            } else {
                None
            },
        }
    }
}

/// Total RAM in bytes from `/proc/meminfo`: the kB count after the
/// `MemTotal:` label, times 1024, when it fits.
pub open spec fn meminfo_ram(text: Seq<char>) -> Option<nat> {
    match memtotal_line(crate::capability::segments(text)) {
        None => None,
        Some(l) => {
            let w = crate::text::words(l);
            if w.len() < 2 {
                None
            } else {
                match parsed_usize(w[1]) {
                    None => None,
                    Some(kb) => if kb * 1024 <= u64::MAX {
                        Some(kb * 1024)
                    } else {
                        None
                    },
                }
            }
        }
    }
}

fn find_memtotal(lines: &Vec<Vec<char>>) -> (r: Option<usize>)
    ensures
        match r {
            Some(k) => k < lines.len() && memtotal_line(crate::text::vviews(lines@)) == Some(lines@[k as int]@),
            None => memtotal_line(crate::text::vviews(lines@)) is None,
        },
{
    let ghost ls = crate::text::vviews(lines@);
    let mut i: usize = 0;
    assert(ls.subrange(0, 0) =~= Seq::<Seq<char>>::empty());
    while i < lines.len()
        invariant
            i <= lines.len(),
            ls == crate::text::vviews(lines@),
            memtotal_line(ls.subrange(0, i as int)) is None,
        decreases lines.len() - i,
    {
        let ghost next = ls.subrange(0, i + 1);
        proof {
            assert(next.drop_last() =~= ls.subrange(0, i as int));
            assert(next.last() == lines@[i as int]@);
        }
        let l = string_of(&lines[i]);
        if crate::text::str_starts_with(l.as_str(), "MemTotal:") {
            proof {
                lemma_memtotal_sticks(ls, i + 1);
            }
            return Some(i);
        }
        i = i + 1;
    }
    assert(ls.subrange(0, lines.len() as int) =~= ls);
    None
}

pub fn detect_ram(meminfo: &str) -> (r: Option<u64>)
    ensures
        match r {
            Some(b) => meminfo_ram(meminfo@) == Some(b as nat),
            None => meminfo_ram(meminfo@) is None,
        },
{
    let lines = crate::preflight::split_segments(meminfo);
    let k = match find_memtotal(&lines) {
        Some(k) => k,
        None => return None,
    };
    let w = crate::text::split_words(&lines[k]);
    if w.len() < 2 {
        return None;
    }
    match parse_usize(&w[1]) {
        None => None,
        Some(kb) => {
            let kb64 = kb as u64;
            kb64.checked_mul(1024)
        },
    }
}

proof fn lemma_memtotal_sticks(ls: Seq<Seq<char>>, n: int)
    requires
        0 <= n <= ls.len(),
        memtotal_line(ls.subrange(0, n)) is Some,
    ensures
        memtotal_line(ls) == memtotal_line(ls.subrange(0, n)),
    decreases ls.len() - n,
{
    if n < ls.len() {
        let next = ls.subrange(0, n + 1);
        assert(next.drop_last() =~= ls.subrange(0, n));
        lemma_memtotal_sticks(ls, n + 1);
    } else {
        assert(ls.subrange(0, n) =~= ls);
    }
}

/// A battery among the `/sys/class/power_supply` entries (a name starting
/// with `BAT`) marks a laptop.
pub fn is_laptop(power_supplies: &Vec<String>) -> (r: bool)
    ensures
        r == exists|i: int| 0 <= i < power_supplies@.len() && starts_with(#[trigger] power_supplies@[i]@, "BAT"@),
{
    let mut i: usize = 0;
    while i < power_supplies.len()
        invariant
            i <= power_supplies.len(),
            forall|k: int| 0 <= k < i ==> !starts_with(#[trigger] power_supplies@[k]@, "BAT"@),
        decreases power_supplies.len() - i,
    {
        if crate::text::str_starts_with(power_supplies[i].as_str(), "BAT") {
            return true;
        }
        i = i + 1;
    }
    false
}

/// The board vendor (as read from the firmware, when readable) is `vendor`:
/// the lower-cased, trimmed request is non-empty and occurs in the
/// lower-cased, trimmed board vendor.
pub fn is_vendor(vendor: &str, board_vendor: Option<&str>) -> (r: bool)
    ensures
        r == (lowercase(trim(vendor@)).len() > 0 && match board_vendor {
            Some(b) => contains(lowercase(trim(b@)), lowercase(trim(vendor@))),
            None => false,
        }),
{
    let t = string_of(&trim_str(vendor));
    let v = to_lowercase(t.as_str());
    if chars_of(v.as_str()).len() == 0 {
        return false;
    }
    match board_vendor {
        Some(b) => vendor_matches(b, v.as_str()),
        None => false,
    }
}

} // verus!

verus! {

// ---------------------------------------------------------------------------
// Disks.
// ---------------------------------------------------------------------------

/// What `/sys/block/<name>` says of a block device, as the caller read it
/// (`None` where a file could not be read).
#[derive(Debug, Clone, PartialEq, Eq)]
pub struct BlockDeviceFiles {
    pub name: String,
    /// `removable`.
    pub removable: Option<String>,
    /// `queue/rotational`.
    pub rotational: Option<String>,
    /// `device/model`, else `device/name`.
    pub model: Option<String>,
    /// `size`, in 512-byte sectors.
    pub size: Option<String>,
}

pub open spec fn flag_set(v: Option<String>) -> bool {
    match v {
        Some(t) => trim(t@) == "1"@,
        None => false,
    }
}

/// The model the firmware reports, else `removable` for removable media,
/// else the kind of drive (`HDD`, `SSD`, or `disk` when unknown).
pub open spec fn disk_model(f: BlockDeviceFiles) -> Seq<char> {
    match f.model {
        Some(m) => trim(m@),
        None => if flag_set(f.removable) {
            "removable"@
        } else {
            match f.rotational {
                Some(r) => if trim(r@) == "1"@ {
                    "HDD"@
                } else {
                    "SSD"@
                },
                None => "disk"@,
            }
        },
    }
}

/// The size in bytes, 0 when unknown or too large.
pub open spec fn disk_bytes(f: BlockDeviceFiles) -> nat {
    match f.size {
        Some(t) => match parsed_usize(trim(t@)) {
            Some(n) => if n * 512 <= u64::MAX {
                n * 512
            } else {
                0
            },
            None => 0,
        },
        None => 0,
    }
}

pub open spec fn disk_row(d: DetectedDisk) -> (Seq<char>, Seq<char>, nat) {
    (d.device@, d.model@, d.size as nat)
}

pub open spec fn disk_rows(ds: Seq<DetectedDisk>) -> Seq<(Seq<char>, Seq<char>, nat)> {
    ds.map_values(|d: DetectedDisk| disk_row(d))
}

pub open spec fn described(f: BlockDeviceFiles) -> (Seq<char>, Seq<char>, nat) {
    ("/dev/"@ + f.name@, disk_model(f), disk_bytes(f))
}

/// `d` placed after every row whose device sorts before it or equals it.
pub open spec fn insert_by_device(s: Seq<(Seq<char>, Seq<char>, nat)>, d: (Seq<char>, Seq<char>, nat)) -> Seq<
    (Seq<char>, Seq<char>, nat),
>
    decreases s.len(),
{
    if s.len() == 0 {
        seq![d]
    } else if !seq_lt(d.0, s.last().0) {
        s.push(d)
    } else {
        insert_by_device(s.drop_last(), d).push(s.last())
    }
}

/// The whole disks among the entries, described, in device order (a stable
/// sort: entries of one device keep the order they were found in).
pub open spec fn detected_disks(fs: Seq<BlockDeviceFiles>) -> Seq<(Seq<char>, Seq<char>, nat)>
    decreases fs.len(),
{
    if fs.len() == 0 {
        seq![]
    } else {
        let prev = detected_disks(fs.drop_last());
        if whole_disk(fs.last().name@) {
            insert_by_device(prev, described(fs.last()))
        } else {
            prev
        }
    }
}

fn describe(f: &BlockDeviceFiles) -> (r: DetectedDisk)
    ensures
        disk_row(r) == described(*f),
{
    let mut dev = chars_of("/dev/");
    crate::text::push_str(&mut dev, f.name.as_str());
    let model = match &f.model {
        Some(m) => string_of(&trim_str(m.as_str())),
        None => {
            let removable = match &f.removable {
                Some(t) => str_eq(string_of(&trim_str(t.as_str())).as_str(), "1"),
                None => false,
            };
            if removable {
                "removable".to_owned()
            } else {
                match &f.rotational {
                    Some(t) => if str_eq(string_of(&trim_str(t.as_str())).as_str(), "1") {
                        "HDD".to_owned()
                    } else {
                        "SSD".to_owned()
                    },
                    None => "disk".to_owned(),
                }
            }
        },
    };
    let size: u64 = match &f.size {
        Some(t) => match parse_usize(&trim_str(t.as_str())) {
            Some(n) => {
                let n64 = n as u64;
                match n64.checked_mul(512) {
                    Some(b) => b,
                    None => 0,
                }
            },
            None => 0,
        },
        None => 0,
    };
    DetectedDisk { device: string_of(&dev), model, size }
}

fn insert_disk(v: &mut Vec<DetectedDisk>, d: DetectedDisk)
    ensures
        disk_rows(final(v)@) == insert_by_device(disk_rows(old(v)@), disk_row(d)),
    decreases old(v)@.len(),
{
    if v.len() == 0 {
        v.push(d);
        assert(disk_rows(v@) =~= seq![disk_row(d)]);
        return;
    }
    let ghost before = disk_rows(v@);
    let last = v.pop().unwrap();
    assert(disk_rows(v@) =~= before.drop_last());
    assert(before.last() == disk_row(last));
    if !lex_lt(&chars_of(d.device.as_str()), &chars_of(last.device.as_str())) {
        v.push(last);
        v.push(d);
        assert(disk_rows(v@) =~= before.push(disk_row(d)));
    } else {
        insert_disk(v, d);
        let ghost mid = disk_rows(v@);
        v.push(last);
        assert(disk_rows(v@) =~= mid.push(disk_row(last)));
    }
}

/// The whole disks among the `/sys/block` entries, described and sorted by
/// device path.
pub fn detect_disks(entries: &Vec<BlockDeviceFiles>) -> (r: Vec<DetectedDisk>)
    ensures
        disk_rows(r@) == detected_disks(entries@),
{
    let mut out: Vec<DetectedDisk> = Vec::new();
    let mut i: usize = 0;
    assert(entries@.subrange(0, 0) =~= Seq::<BlockDeviceFiles>::empty());
    assert(disk_rows(out@) =~= detected_disks(entries@.subrange(0, 0)));
    while i < entries.len()
        invariant
            i <= entries.len(),
            disk_rows(out@) == detected_disks(entries@.subrange(0, i as int)),
        decreases entries.len() - i,
    {
        let ghost next = entries@.subrange(0, i + 1);
        proof {
            assert(next.drop_last() =~= entries@.subrange(0, i as int));
            assert(next.last() == entries@[i as int]);
        }
        if is_whole_disk_name(entries[i].name.as_str()) {
            insert_disk(&mut out, describe(&entries[i]));
        }
        i = i + 1;
    }
    assert(entries@.subrange(0, entries.len() as int) =~= entries@);
    out
}

} // verus!

verus! {

pub open spec fn device_sorted(s: Seq<(Seq<char>, Seq<char>, nat)>) -> bool {
    forall|i: int, j: int| 0 <= i < j < s.len() ==> !seq_lt(#[trigger] s[j].0, #[trigger] s[i].0)
}

proof fn lemma_not_lt_trans(a: Seq<char>, b: Seq<char>, c: Seq<char>)
    requires
        !seq_lt(b, a),
        !seq_lt(c, b),
    ensures
        !seq_lt(c, a),
{
    crate::package_check::lemma_seq_lt_total(a, b);
    crate::package_check::lemma_seq_lt_total(b, c);
    if seq_lt(c, a) {
        if a == b {
        } else {
            crate::package_check::lemma_seq_lt_trans(c, a, b);
        }
    }
}

proof fn lemma_insert_by_device(s: Seq<(Seq<char>, Seq<char>, nat)>, d: (Seq<char>, Seq<char>, nat))
    requires
        device_sorted(s),
    ensures
        device_sorted(insert_by_device(s, d)),
        insert_by_device(s, d).len() == s.len() + 1,
        forall|k: int|
            0 <= k < insert_by_device(s, d).len() ==> #[trigger] insert_by_device(s, d)[k] == d || exists|j: int|
                0 <= j < s.len() && insert_by_device(s, d)[k] == s[j],
    decreases s.len(),
{
    let r = insert_by_device(s, d);
    if s.len() == 0 {
    } else if !seq_lt(d.0, s.last().0) {
        assert forall|i: int, j: int| 0 <= i < j < r.len() implies !seq_lt(#[trigger] r[j].0, #[trigger] r[i].0) by {
            if j == r.len() - 1 && i < s.len() - 1 {
                assert(!seq_lt(s.last().0, s[i].0));
                lemma_not_lt_trans(s[i].0, s.last().0, d.0);
            }
        }
        assert forall|k: int| 0 <= k < r.len() implies #[trigger] r[k] == d || exists|j: int|
            0 <= j < s.len() && r[k] == s[j] by {
            if k < s.len() {
                assert(r[k] == s[k]);
            }
        }
    } else {
        let s2 = s.drop_last();
        assert forall|i: int, j: int| 0 <= i < j < s2.len() implies !seq_lt(#[trigger] s2[j].0, #[trigger] s2[i].0) by {
            assert(s2[i] == s[i] && s2[j] == s[j]);
        }
        lemma_insert_by_device(s2, d);
        let r2 = insert_by_device(s2, d);
        assert forall|i: int| 0 <= i < r2.len() implies !seq_lt(s.last().0, #[trigger] r2[i].0) by {
            if r2[i] == d {
                crate::package_check::lemma_seq_lt_total(d.0, s.last().0);
                if seq_lt(s.last().0, d.0) {
                    crate::package_check::lemma_seq_lt_trans(d.0, s.last().0, d.0);
                    crate::package_check::lemma_seq_lt_irrefl(d.0);
                }
            } else {
                let j = choose|j: int| 0 <= j < s2.len() && r2[i] == s2[j];
                assert(s2[j] == s[j]);
            }
        }
        assert forall|i: int, j: int| 0 <= i < j < r.len() implies !seq_lt(#[trigger] r[j].0, #[trigger] r[i].0) by {
            if j == r.len() - 1 {
                assert(r[i] == r2[i]);
            } else {
                assert(r[i] == r2[i] && r[j] == r2[j]);
            }
        }
        assert forall|k: int| 0 <= k < r.len() implies #[trigger] r[k] == d || exists|j: int|
            0 <= j < s.len() && r[k] == s[j] by {
            if k == r.len() - 1 {
                assert(r[k] == s[s.len() - 1]);
            } else {
                assert(r[k] == r2[k]);
                if r2[k] != d {
                    let j = choose|j: int| 0 <= j < s2.len() && r2[k] == s2[j];
                    assert(s2[j] == s[j]);
                }
            }
        }
    }
}

/// The disks come out in device order, whatever order the kernel listed
/// them in.
pub proof fn lemma_detected_disks_sorted(fs: Seq<BlockDeviceFiles>)
    ensures
        device_sorted(detected_disks(fs)),
    decreases fs.len(),
{
    if fs.len() > 0 {
        lemma_detected_disks_sorted(fs.drop_last());
        if whole_disk(fs.last().name@) {
            lemma_insert_by_device(detected_disks(fs.drop_last()), described(fs.last()));
        }
    }
}

} // verus!

verus! {

/// The number of logical CPUs from `/sys/devices/system/cpu/present` (when
/// it was readable), or 1 when it cannot be read or parsed.
pub fn detect_cpu_count(present: Option<&str>) -> (r: usize)
    ensures
        r as nat == match present {
            Some(p) => match cpu_count_of(p@) {
                Some(n) => n,
                None => 1,
            },
            None => 1,
        },
{
    match present {
        Some(p) => match parse_cpu_present(p) {
            Some(n) => n,
            None => 1,
        },
        None => 1,
    }
}

} // verus!
