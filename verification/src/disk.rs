//! Disk provisioning plans: the commands that partition, format and mount the
//! install target, computed from the disk layout and the resolved swap policy.
//!
//! Running a plan, and the checks that read the live system before one is
//! run, are not part of this module; the checks' decisions are (see
//! `required_install_bytes` and the partition-name predicates).
use vstd::prelude::*;

use crate::exec::{step_of, step_view, step_views, CommandStep, StepView};
use crate::manifest::{
    Disk, DiskLayout, Encryption, ResolvedSwap, SwapResolveError, ZfsDataset, GB, MB,
};
use crate::text::{
    chars_of, decimal, is_ascii_digit, is_digit, join, join_chars, push_chars, push_decimal,
    push_str, string_of, sviews, trim, trim_str, vviews,
};

verus! {

/// Smallest whole disk an install is attempted on.
pub const MIN_INSTALL_BYTES: u64 = 12 * GB;

/// A disk provisioning plan.
#[derive(Debug, Clone, PartialEq, Eq)]
pub struct DiskPlan {
    pub device: String,
    pub target_mount: String,
    pub steps: Vec<CommandStep>,
}

/// Why a disk cannot be provisioned.
#[derive(Debug, Clone, PartialEq, Eq)]
pub enum DiskError {
    MissingDevice,
    DeviceMissing(String),
    NotBlockDevice(String),
    /// The disk is mounted, swapped on, held by another driver, read-only, ...
    DeviceBusy { device: String, reason: String },
    DeviceTooSmall { device: String, have: String, need: String },
    UnsupportedLayout(DiskLayout),
    UnsupportedEncryption(Encryption),
    InvalidLayout(String),
    InvalidSwap(SwapResolveError),
}

// ---------------------------------------------------------------------------
// Paths, partitions and sizes.
// ---------------------------------------------------------------------------

/// Partitions of a device whose name ends in a digit get a `p` separator
/// (`/dev/nvme0n1p2`); others are numbered directly (`/dev/sda2`).
pub open spec fn partition_prefix(device: Seq<char>) -> Seq<char> {
    if device.len() > 0 && is_digit(device.last()) {
        device + "p"@
    } else {
        device
    }
}

pub open spec fn partition_path(device: Seq<char>, number: nat) -> Seq<char> {
    partition_prefix(device) + decimal(number)
}

/// `bytes` in MiB, rounded up.
pub open spec fn mib(bytes: u64) -> nat {
    ((bytes + MB - 1) / (MB as int)) as nat
}

pub open spec fn at_least_one(n: nat) -> nat {
    if n == 0 {
        1
    } else {
        n
    }
}

/// The size argument of a partition, in MiB and never zero.
pub open spec fn size_mib(bytes: u64) -> Seq<char> {
    decimal(at_least_one(mib(bytes)))
}

/// `s` without its leading slashes.
pub open spec fn strip_leading_slashes(s: Seq<char>) -> Seq<char>
    decreases s.len(),
{
    if s.len() > 0 && s[0] == '/' {
        strip_leading_slashes(s.drop_first())
    } else {
        s
    }
}

/// `rel` appended to `base` as a path component.
pub open spec fn join_path(base: Seq<char>, rel: Seq<char>) -> Seq<char> {
    if rel.len() > 0 && rel[0] == '/' {
        rel
    } else if base.len() > 0 && base.last() != '/' {
        base + "/"@ + rel
    } else {
        base + rel
    }
}

pub fn partition_path_of(device: &str, number: usize) -> (r: Vec<char>)
    ensures
        r@ == partition_path(device@, number as nat),
{
    let mut v = chars_of(device);
    if v.len() > 0 && is_ascii_digit(v[v.len() - 1]) {
        v.push('p');
        assert(v@ =~= device@ + "p"@) by {
            reveal_strlit("p");
        }
    }
    push_decimal(&mut v, number as u64);
    v
}

pub fn mib_of(bytes: u64) -> (r: u64)
    ensures
        r == mib(bytes),
{
    let q = bytes / MB;
    let r = bytes % MB;
    proof {
        assert(bytes == q * MB + r);
    }
    if r == 0 {
        assert((bytes + MB - 1) / (MB as int) == q) by (nonlinear_arith)
            requires
                bytes == q * MB,
                MB == 1048576,
        ;
        q
    } else {
        assert((bytes + MB - 1) / (MB as int) == q + 1) by (nonlinear_arith)
            requires
                bytes == q * MB + r,
                0 < r < MB,
                MB == 1048576,
        ;
        q + 1
    }
}

pub fn strip_slashes(s: &Vec<char>) -> (r: Vec<char>)
    ensures
        r@ == strip_leading_slashes(s@),
{
    let mut i: usize = 0;
    assert(s@.subrange(0, s.len() as int) =~= s@);
    while i < s.len() && s[i] == '/'
        invariant
            i <= s.len(),
            strip_leading_slashes(s@) == strip_leading_slashes(s@.subrange(i as int, s.len() as int)),
        decreases s.len() - i,
    {
        let ghost rest = s@.subrange(i as int, s.len() as int);
        assert(rest.drop_first() =~= s@.subrange(i + 1, s.len() as int));
        i = i + 1;
    }
    let r = crate::text::slice(s, i, s.len());
    proof {
        let rest = s@.subrange(i as int, s.len() as int);
        assert(r@ == rest);
    }
    r
}

/// `base` joined with `rel` with its leading slashes removed, as the planner
/// places a mountpoint under the target.
pub fn under(base: &str, rel: &str) -> (r: String)
    ensures
        r@ == join_path(base@, strip_leading_slashes(rel@)),
{
    let relv = chars_of(rel);
    let stripped = strip_slashes(&relv);
    let b = chars_of(base);
    let mut out: Vec<char> = chars_of(base);
    if stripped.len() > 0 && stripped[0] == '/' {
        return string_of(&stripped);
    }
    if b.len() > 0 && b[b.len() - 1] != '/' {
        out.push('/');
        assert(out@ =~= base@ + "/"@) by {
            reveal_strlit("/");
        }
    }
    push_chars(&mut out, &stripped);
    string_of(&out)
}

// ---------------------------------------------------------------------------
// Step builders.
// ---------------------------------------------------------------------------

pub(crate) fn command(description: &str, program: &str, args: Vec<String>) -> (r: CommandStep)
    ensures
        step_view(r) == step_of(description@, program@, sviews(args@)),
{
    CommandStep { description: description.to_owned(), program: program.to_owned(), args }
}

pub(crate) fn push_step(steps: &mut Vec<CommandStep>, s: CommandStep)
    ensures
        step_views(final(steps)@) == step_views(old(steps)@).push(step_view(s)),
{
    let ghost before = step_views(steps@);
    steps.push(s);
    assert(step_views(steps@) =~= before.push(step_view(s)));
}

fn text(v: &Vec<char>) -> (r: String)
    ensures
        r@ == v@,
{
    string_of(v)
}

fn lit(s: &str) -> (r: String)
    ensures
        r@ == s@,
{
    s.to_owned()
}

/// `<number><suffix>`, as in `2:8300`.
fn numbered(number: usize, suffix: &str) -> (r: String)
    ensures
        r@ == decimal(number as nat) + suffix@,
{
    let mut v: Vec<char> = Vec::new();
    push_decimal(&mut v, number as u64);
    push_str(&mut v, suffix);
    assert(v@ =~= decimal(number as nat) + suffix@);
    string_of(&v)
}

/// `<number>:0:+<size>M`, a partition of a fixed size.
fn sized_span(number: usize, bytes: u64) -> (r: String)
    ensures
        r@ == decimal(number as nat) + ":0:+"@ + size_mib(bytes) + "M"@,
{
    let mut v: Vec<char> = Vec::new();
    push_decimal(&mut v, number as u64);
    push_str(&mut v, ":0:+");
    let m = mib_of(bytes);
    push_decimal(&mut v, if m == 0 { 1 } else { m });
    push_str(&mut v, "M");
    string_of(&v)
}

pub open spec fn wipe_row(part: Seq<char>) -> StepView {
    step_of("Wipe stale signatures on partition"@, "wipefs"@, seq!["-a"@, part])
}

fn wipe_signatures_step(part: &Vec<char>) -> (r: CommandStep)
    ensures
        step_view(r) == wipe_row(part@),
{
    let mut args: Vec<String> = Vec::new();
    args.push(lit("-a"));
    args.push(text(part));
    let r = command("Wipe stale signatures on partition", "wipefs", args);
    assert(sviews(args@) =~= seq!["-a"@, part@]);
    r
}

pub open spec fn swap_partition_row(device: Seq<char>, number: nat, size: u64) -> StepView {
    step_of(
        "Create swap partition"@,
        "sgdisk"@,
        seq![
            "-n"@,
            decimal(number) + ":0:+"@ + size_mib(size) + "M"@,
            "-t"@,
            decimal(number) + ":8200"@,
            device,
        ],
    )
}

fn swap_partition_step(device: &str, number: usize, size: u64) -> (r: CommandStep)
    ensures
        step_view(r) == swap_partition_row(device@, number as nat, size),
{
    let mut args: Vec<String> = Vec::new();
    args.push(lit("-n"));
    args.push(sized_span(number, size));
    args.push(lit("-t"));
    args.push(numbered(number, ":8200"));
    args.push(lit(device));
    let r = command("Create swap partition", "sgdisk", args);
    assert(sviews(args@) =~= swap_partition_row(device@, number as nat, size).args);
    r
}

/// The two steps that make the kernel see a new partition table.
pub open spec fn reread_rows(device: Seq<char>) -> Seq<StepView> {
    seq![
        step_of("Ask kernel to reread partition table"@, "partprobe"@, seq![device]),
        step_of(
            "Wait for partition device nodes to settle"@,
            "udevadm"@,
            seq!["settle"@, "--timeout=30"@],
        ),
    ]
}

fn push_reread(steps: &mut Vec<CommandStep>, device: &str)
    ensures
        step_views(final(steps)@) == step_views(old(steps)@) + reread_rows(device@),
{
    let ghost before = step_views(steps@);
    let mut a1: Vec<String> = Vec::new();
    a1.push(lit(device));
    assert(sviews(a1@) =~= seq![device@]);
    push_step(steps, command("Ask kernel to reread partition table", "partprobe", a1));
    let mut a2: Vec<String> = Vec::new();
    a2.push(lit("settle"));
    a2.push(lit("--timeout=30"));
    assert(sviews(a2@) =~= seq!["settle"@, "--timeout=30"@]);
    push_step(steps, command("Wait for partition device nodes to settle", "udevadm", a2));
    assert(step_views(steps@) =~= before + reread_rows(device@));
}

// ---------------------------------------------------------------------------
// The ext4 layout.
// ---------------------------------------------------------------------------

pub open spec fn ext4_invalid(disk: Disk) -> bool {
    disk.ext4.separate_home && disk.ext4.root_size == 0
}

pub open spec fn ext4_root_span(disk: Disk, part: nat) -> Seq<char> {
    if disk.ext4.separate_home {
        decimal(part) + ":0:+"@ + size_mib(disk.ext4.root_size) + "M"@
    } else {
        decimal(part) + ":0:0"@
    }
}

pub open spec fn ext4_partition_rows(disk: Disk, device: Seq<char>, part: nat) -> Seq<StepView> {
    seq![
        step_of(
            "Create ext4 root partition"@,
            "sgdisk"@,
            seq!["-n"@, ext4_root_span(disk, part), "-t"@, decimal(part) + ":8300"@, device],
        ),
    ] + if disk.ext4.separate_home {
        seq![
            step_of(
                "Create ext4 home partition"@,
                "sgdisk"@,
                seq![
                    "-n"@,
                    decimal(part + 1) + ":0:0"@,
                    "-t"@,
                    decimal(part + 1) + ":8300"@,
                    device,
                ],
            ),
        ]
    } else {
        Seq::empty()
    }
}

pub open spec fn ext4_root_rows(target: Seq<char>, root: Seq<char>) -> Seq<StepView> {
    seq![
        wipe_row(root),
        step_of("Create ext4 root filesystem"@, "mkfs.ext4"@, seq!["-F"@, root]),
        step_of("Create target root mountpoint"@, "mkdir"@, seq!["-p"@, target]),
        step_of("Mount ext4 root filesystem"@, "mount"@, seq![root, target]),
    ]
}

pub open spec fn ext4_home_rows(target: Seq<char>, home: Seq<char>) -> Seq<StepView> {
    seq![
        wipe_row(home),
        step_of("Create ext4 home filesystem"@, "mkfs.ext4"@, seq!["-F"@, home]),
        step_of("Create target home mountpoint"@, "mkdir"@, seq!["-p"@, join_path(target, "home"@)]),
        step_of("Mount ext4 home filesystem"@, "mount"@, seq![home, join_path(target, "home"@)]),
    ]
}

/// The steps of an ext4 layout whose root is partition `part`.
pub open spec fn ext4_rows(disk: Disk, target: Seq<char>, device: Seq<char>, part: nat) -> Seq<StepView> {
    ext4_partition_rows(disk, device, part) + reread_rows(device) + ext4_root_rows(
        target,
        partition_path(device, part),
    ) + if disk.ext4.separate_home {
        ext4_home_rows(target, partition_path(device, part + 1))
    } else {
        Seq::empty()
    }
}

fn push_ext4_partitions(steps: &mut Vec<CommandStep>, disk: &Disk, device: &str, part: usize)
    requires
        part < usize::MAX,
    ensures
        step_views(final(steps)@) == step_views(old(steps)@) + ext4_partition_rows(
            *disk,
            device@,
            part as nat,
        ),
{
    let ghost before = step_views(steps@);
    let span = if disk.ext4.separate_home {
        sized_span(part, disk.ext4.root_size)
    } else {
        numbered(part, ":0:0")
    };
    let mut a: Vec<String> = Vec::new();
    a.push(lit("-n"));
    a.push(span);
    a.push(lit("-t"));
    a.push(numbered(part, ":8300"));
    a.push(lit(device));
    assert(sviews(a@) =~= seq![
        "-n"@,
        ext4_root_span(*disk, part as nat),
        "-t"@,
        decimal(part as nat) + ":8300"@,
        device@,
    ]);
    push_step(steps, command("Create ext4 root partition", "sgdisk", a));
    if disk.ext4.separate_home {
        let mut h: Vec<String> = Vec::new();
        h.push(lit("-n"));
        h.push(numbered(part + 1, ":0:0"));
        h.push(lit("-t"));
        h.push(numbered(part + 1, ":8300"));
        h.push(lit(device));
        assert(sviews(h@) =~= seq![
            "-n"@,
            decimal((part + 1) as nat) + ":0:0"@,
            "-t"@,
            decimal((part + 1) as nat) + ":8300"@,
            device@,
        ]);
        push_step(steps, command("Create ext4 home partition", "sgdisk", h));
    }
    assert(step_views(steps@) =~= before + ext4_partition_rows(*disk, device@, part as nat));
}

fn push_filesystem(
    steps: &mut Vec<CommandStep>,
    part: &Vec<char>,
    mountpoint: &str,
    mkfs: &str,
    mkdir: &str,
    mount: &str,
)
    ensures
        step_views(final(steps)@) == step_views(old(steps)@) + seq![
            wipe_row(part@),
            step_of(mkfs@, "mkfs.ext4"@, seq!["-F"@, part@]),
            step_of(mkdir@, "mkdir"@, seq!["-p"@, mountpoint@]),
            step_of(mount@, "mount"@, seq![part@, mountpoint@]),
        ],
{
    let ghost before = step_views(steps@);
    push_step(steps, wipe_signatures_step(part));
    let mut a: Vec<String> = Vec::new();
    a.push(lit("-F"));
    a.push(text(part));
    assert(sviews(a@) =~= seq!["-F"@, part@]);
    push_step(steps, command(mkfs, "mkfs.ext4", a));
    let mut b: Vec<String> = Vec::new();
    b.push(lit("-p"));
    b.push(lit(mountpoint));
    assert(sviews(b@) =~= seq!["-p"@, mountpoint@]);
    push_step(steps, command(mkdir, "mkdir", b));
    let mut c: Vec<String> = Vec::new();
    c.push(text(part));
    c.push(lit(mountpoint));
    assert(sviews(c@) =~= seq![part@, mountpoint@]);
    push_step(steps, command(mount, "mount", c));
    assert(step_views(steps@) =~= before + seq![
        wipe_row(part@),
        step_of(mkfs@, "mkfs.ext4"@, seq!["-F"@, part@]),
        step_of(mkdir@, "mkdir"@, seq!["-p"@, mountpoint@]),
        step_of(mount@, "mount"@, seq![part@, mountpoint@]),
    ]);
}

/// Appends the steps of an ext4 layout whose root is partition `part`.
fn plan_ext4(disk: &Disk, target_mount: &str, device: &str, steps: &mut Vec<CommandStep>, part: usize) -> (r:
    Result<(), DiskError>)
    requires
        part < usize::MAX,
    ensures
        match r {
            Ok(_) => !ext4_invalid(*disk) && step_views(final(steps)@) == step_views(old(steps)@)
                + ext4_rows(*disk, target_mount@, device@, part as nat),
            Err(e) => ext4_invalid(*disk) && e is InvalidLayout && (e->InvalidLayout_0)@
                == ext4_root_size_message(),
        },
{
    if disk.ext4.separate_home && disk.ext4.root_size == 0 {
        return Err(
            DiskError::InvalidLayout(
                lit("ext4 root_size must be greater than zero when a separate /home is used"),
            ),
        );
    }
    let ghost before = step_views(steps@);
    let root = partition_path_of(device, part);
    let home = partition_path_of(device, part + 1);
    push_ext4_partitions(steps, disk, device, part);
    push_reread(steps, device);
    push_filesystem(
        steps,
        &root,
        target_mount,
        "Create ext4 root filesystem",
        "Create target root mountpoint",
        "Mount ext4 root filesystem",
    );
    if disk.ext4.separate_home {
        let home_mount = under(target_mount, "home");
        proof {
            reveal_strlit("home");
            assert(strip_leading_slashes("home"@) == "home"@);
        }
        push_filesystem(
            steps,
            &home,
            home_mount.as_str(),
            "Create ext4 home filesystem",
            "Create target home mountpoint",
            "Mount ext4 home filesystem",
        );
    }
    assert(step_views(steps@) =~= before + ext4_rows(*disk, target_mount@, device@, part as nat));
    Ok(())
}

pub open spec fn ext4_root_size_message() -> Seq<char> {
    "ext4 root_size must be greater than zero when a separate /home is used"@
}


// ---------------------------------------------------------------------------
// The ZFS layout.
// ---------------------------------------------------------------------------

pub open spec fn zfs_pool_failure(pool: Seq<char>, boot: Seq<char>) -> Option<Seq<char>> {
    if pool.len() == 0 {
        Some("ZFS pool name is empty"@)
    } else if boot.len() == 0 {
        Some("ZFS boot pool name is empty"@)
    } else if pool == boot {
        Some("ZFS root pool and boot pool must be different"@)
    } else {
        None
    }
}

pub open spec fn rpool_create_args(disk: Disk, target: Seq<char>, pool: Seq<char>, part: Seq<char>) -> Seq<Seq<char>> {
    seq![
        "create"@,
        "-f"@,
        "-o"@,
        "ashift="@ + decimal(disk.zfs.ashift as nat),
        "-o"@,
        "autotrim=on"@,
        "-O"@,
        "compression="@ + disk.zfs.compression@,
        "-O"@,
        "acltype=posixacl"@,
        "-O"@,
        "xattr=sa"@,
        "-O"@,
        "atime=off"@,
        "-O"@,
        "normalization=formD"@,
        "-O"@,
        "dnodesize=auto"@,
        "-O"@,
        "canmount=off"@,
        "-O"@,
        "mountpoint=none"@,
        "-R"@,
        target,
        pool,
        part,
    ]
}

pub open spec fn bpool_create_args(disk: Disk, target: Seq<char>, boot: Seq<char>, part: Seq<char>) -> Seq<Seq<char>> {
    seq![
        "create"@,
        "-f"@,
        "-o"@,
        "compatibility=grub2"@,
        "-o"@,
        "ashift="@ + decimal(disk.zfs.ashift as nat),
        "-o"@,
        "autotrim=on"@,
        "-O"@,
        "compression="@ + disk.zfs.boot_compression@,
        "-O"@,
        "acltype=posixacl"@,
        "-O"@,
        "xattr=sa"@,
        "-O"@,
        "devices=off"@,
        "-O"@,
        "atime=off"@,
        "-O"@,
        "canmount=off"@,
        "-O"@,
        "mountpoint=/boot"@,
        "-R"@,
        target,
        boot,
        part,
    ]
}

/// The partitions and pools of a ZFS layout.
pub open spec fn zfs_head_rows(
    disk: Disk,
    target: Seq<char>,
    device: Seq<char>,
    bpool_part: nat,
    swap: Option<(nat, u64)>,
    rpool_part: nat,
) -> Seq<StepView> {
    let pool = trim(disk.zfs.pool@);
    let boot = trim(disk.zfs.boot_pool@);
    seq![
        step_of("Ensure hostid exists on the live system"@, "zgenhostid"@, seq!["-f"@]),
        step_of(
            "Create ZFS boot pool partition"@,
            "sgdisk"@,
            seq![
                "-n"@,
                decimal(bpool_part) + ":0:+"@ + size_mib(disk.zfs.boot_pool_size) + "M"@,
                "-t"@,
                decimal(bpool_part) + ":bf00"@,
                device,
            ],
        ),
    ] + match swap {
        Some(sw) => seq![swap_partition_row(device, sw.0, sw.1)],
        None => Seq::empty(),
    } + seq![
        step_of(
            "Create ZFS root pool partition"@,
            "sgdisk"@,
            seq!["-n"@, decimal(rpool_part) + ":0:0"@, "-t"@, decimal(rpool_part) + ":bf00"@, device],
        ),
    ] + reread_rows(device) + seq![
        step_of(
            "Create ZFS root pool"@,
            "zpool"@,
            rpool_create_args(disk, target, pool, partition_path(device, rpool_part)),
        ),
        step_of(
            "Create ZFS boot pool"@,
            "zpool"@,
            bpool_create_args(disk, target, boot, partition_path(device, bpool_part)),
        ),
    ]
}

pub open spec fn is_root_dataset(d: ZfsDataset, pool: Seq<char>) -> bool {
    trim(d.pool@) == pool && trim(d.mount@) == "/"@
}

/// `ds[i]` is the first dataset of `pool` mounted at `/`.
pub open spec fn first_root(ds: Seq<ZfsDataset>, pool: Seq<char>, i: int) -> bool {
    &&& 0 <= i < ds.len()
    &&& is_root_dataset(ds[i], pool)
    &&& forall|k: int| 0 <= k < i ==> !is_root_dataset(#[trigger] ds[k], pool)
}

pub open spec fn is_stray_dataset(d: ZfsDataset, pool: Seq<char>, boot: Seq<char>) -> bool {
    trim(d.pool@) != pool && trim(d.pool@) != boot
}

/// `ds[i]` is the first dataset that belongs to neither pool.
pub open spec fn first_stray(ds: Seq<ZfsDataset>, pool: Seq<char>, boot: Seq<char>, i: int) -> bool {
    &&& 0 <= i < ds.len()
    &&& is_stray_dataset(ds[i], pool, boot)
    &&& forall|k: int| 0 <= k < i ==> !is_stray_dataset(#[trigger] ds[k], pool, boot)
}

pub open spec fn count_char(s: Seq<char>, c: char) -> nat
    decreases s.len(),
{
    if s.len() == 0 {
        0
    } else {
        count_char(s.drop_last(), c) + if s.last() == c {
            1nat
        } else {
            0nat
        }
    }
}

/// Datasets are created parents first: the root container, then the root
/// filesystem, then the boot pool, then the rest; within a group, names with
/// fewer `/` separators first.
pub open spec fn dataset_key(d: ZfsDataset, pool: Seq<char>, boot: Seq<char>) -> (int, int) {
    let dp = trim(d.pool@);
    let group: int = if dp == pool && trim(d.name@) == "ROOT"@ {
        0
    } else if dp == pool && trim(d.mount@) == "/"@ {
        1
    } else if dp == boot {
        2
    } else {
        3
    };
    (group, count_char(d.name@, '/') as int)
}

pub open spec fn key_le(a: (int, int), b: (int, int)) -> bool {
    a.0 < b.0 || (a.0 == b.0 && a.1 <= b.1)
}

/// `x` inserted after the last element of `s` whose key is not greater.
pub open spec fn insert_by_key(s: Seq<int>, x: int, keys: Seq<(int, int)>) -> Seq<int>
    decreases s.len(),
{
    if s.len() == 0 {
        seq![x]
    } else if key_le(keys[s.last()], keys[x]) {
        s.push(x)
    } else {
        insert_by_key(s.drop_last(), x, keys).push(s.last())
    }
}

/// The indices `0..n` stably sorted by key.
pub open spec fn sort_by_key(n: nat, keys: Seq<(int, int)>) -> Seq<int>
    decreases n,
{
    if n == 0 {
        Seq::empty()
    } else {
        insert_by_key(sort_by_key((n - 1) as nat, keys), n - 1, keys)
    }
}

pub open spec fn dataset_keys(ds: Seq<ZfsDataset>, pool: Seq<char>, boot: Seq<char>) -> Seq<(int, int)> {
    ds.map_values(|d: ZfsDataset| dataset_key(d, pool, boot))
}

/// The datasets in creation order.
pub open spec fn ordered_datasets(ds: Seq<ZfsDataset>, pool: Seq<char>, boot: Seq<char>) -> Seq<ZfsDataset> {
    sort_by_key(ds.len(), dataset_keys(ds, pool, boot)).map_values(|i: int| ds[i])
}

/// Two consecutive slashes at `i`.
pub open spec fn empty_component_at(t: Seq<char>, i: int) -> bool {
    0 <= i && i + 1 < t.len() && t[i] == '/' && t[i + 1] == '/'
}

/// A dataset name relative to its pool: trimmed, and made of non-empty
/// `/`-separated components.
pub open spec fn dataset_name_check(name: Seq<char>) -> Result<Seq<char>, Seq<char>> {
    let t = trim(name);
    if t.len() == 0 || t[0] == '/' || t.last() == '/' || exists|i: int| empty_component_at(t, i) {
        Err("invalid ZFS dataset name: "@ + name)
    } else {
        Ok(t)
    }
}

/// A dataset mountpoint: `none`, or an absolute path.
pub open spec fn zfs_mount_check(mount: Seq<char>) -> Result<Seq<char>, Seq<char>> {
    let t = trim(mount);
    if t == "none"@ {
        Ok(t)
    } else if t.len() > 0 && t[0] == '/' {
        Ok(t)
    } else {
        Err("mountpoint must be absolute: "@ + t)
    }
}

/// The steps that create one dataset.
pub open spec fn one_dataset_rows(d: ZfsDataset, target: Seq<char>) -> Result<Seq<StepView>, Seq<char>> {
    match dataset_name_check(d.name@) {
        Err(m) => Err(m),
        Ok(name) => match zfs_mount_check(d.mount@) {
            Err(m) => Err(m),
            Ok(mount) => {
                let full = trim(d.pool@) + "/"@ + name;
                Ok(
                    (if mount != "none"@ && mount != "/"@ {
                        seq![
                            step_of(
                                "Create ZFS mountpoint "@ + mount,
                                "mkdir"@,
                                seq!["-p"@, join_path(target, strip_leading_slashes(mount))],
                            ),
                        ]
                    } else {
                        Seq::empty()
                    }) + seq![
                        step_of(
                            "Create ZFS dataset "@ + full,
                            "zfs"@,
                            seq![
                                "create"@,
                                "-p"@,
                                "-o"@,
                                "mountpoint="@ + mount,
                                "-o"@,
                                "canmount="@ + crate::manifest::disk::canmount_text(d.canmount),
                                full,
                            ],
                        ),
                    ] + if mount == "/"@ {
                        seq![step_of("Mount ZFS root dataset "@ + full, "zfs"@, seq!["mount"@, full])]
                    } else {
                        Seq::empty()
                    },
                )
            },
        },
    }
}

/// The steps that create the datasets, in order, or the first problem.
pub open spec fn datasets_rows(ds: Seq<ZfsDataset>, target: Seq<char>) -> Result<Seq<StepView>, Seq<char>>
    decreases ds.len(),
{
    if ds.len() == 0 {
        Ok(Seq::empty())
    } else {
        match datasets_rows(ds.drop_last(), target) {
            Err(m) => Err(m),
            Ok(prev) => match one_dataset_rows(ds.last(), target) {
                Err(m) => Err(m),
                Ok(rows) => Ok(prev + rows),
            },
        }
    }
}

pub open spec fn zfs_tail_rows(target: Seq<char>, pool: Seq<char>, boot: Seq<char>, bootfs: Seq<char>) -> Seq<StepView> {
    let cache = join_path(target, "etc/zfs/zpool.cache"@);
    seq![
        step_of("Set ZFS boot filesystem"@, "zpool"@, seq!["set"@, "bootfs="@ + bootfs, pool]),
        step_of("Create target ZFS cache directory"@, "mkdir"@, seq!["-p"@, join_path(target, "etc/zfs"@)]),
        step_of("Write root pool import cache"@, "zpool"@, seq!["set"@, "cachefile="@ + cache, pool]),
        step_of("Write boot pool import cache"@, "zpool"@, seq!["set"@, "cachefile="@ + cache, boot]),
    ]
}

/// The steps of a ZFS layout, or the reason it is invalid.
pub open spec fn zfs_plan(
    disk: Disk,
    target: Seq<char>,
    device: Seq<char>,
    bpool_part: nat,
    swap: Option<(nat, u64)>,
    rpool_part: nat,
) -> Result<Seq<StepView>, Seq<char>> {
    let pool = trim(disk.zfs.pool@);
    let boot = trim(disk.zfs.boot_pool@);
    let ds = disk.zfs.datasets@;
    match zfs_pool_failure(pool, boot) {
        Some(m) => Err(m),
        None => if !exists|i: int| first_root(ds, pool, i) {
            Err("ZFS layout needs a root dataset mounted at /"@)
        } else if exists|i: int| first_stray(ds, pool, boot, i) {
            let d = ds[choose|i: int| first_stray(ds, pool, boot, i)];
            Err("ZFS dataset "@ + d.name@ + " belongs to unknown pool "@ + trim(d.pool@))
        } else {
            let root = ds[choose|i: int| first_root(ds, pool, i)];
            match datasets_rows(ordered_datasets(ds, pool, boot), target) {
                Err(m) => Err(m),
                Ok(rows) => match dataset_name_check(root.name@) {
                    Err(m) => Err(m),
                    Ok(rn) => Ok(
                        zfs_head_rows(disk, target, device, bpool_part, swap, rpool_part) + rows
                            + zfs_tail_rows(target, pool, boot, pool + "/"@ + rn),
                    ),
                },
            }
        },
    }
}


// ---------------------------------------------------------------------------
// The ZFS planner.
// ---------------------------------------------------------------------------

fn eq_lit(v: &Vec<char>, s: &str) -> (r: bool)
    ensures
        r == (v@ == s@),
{
    let w = chars_of(s);
    crate::text::seq_eq(v, &w)
}

pub fn zfs_dataset_name(name: &str) -> (r: Result<Vec<char>, Vec<char>>)
    ensures
        match r {
            Ok(t) => dataset_name_check(name@) == Ok::<Seq<char>, Seq<char>>(t@),
            Err(m) => dataset_name_check(name@) == Err::<Seq<char>, Seq<char>>(m@),
        },
{
    let t = trim_str(name);
    let mut bad = t.len() == 0 || t[0] == '/' || t[t.len() - 1] == '/';
    let mut i: usize = 0;
    while !bad && i < t.len() - 1
        invariant
            i <= t.len(),
            !bad ==> (t.len() > 0 && t@[0] != '/' && t@.last() != '/'),
            !bad ==> forall|k: int| 0 <= k < i ==> !empty_component_at(t@, k),
            bad ==> (t.len() == 0 || t@[0] == '/' || t@.last() == '/' || exists|k: int|
                empty_component_at(t@, k)),
        decreases t.len() - i,
    {
        if t[i] == '/' && t[i + 1] == '/' {
            bad = true;
            assert(empty_component_at(t@, i as int));
        }
        i = i + 1;
    }
    if bad {
        let mut m: Vec<char> = Vec::new();
        push_str(&mut m, "invalid ZFS dataset name: ");
        push_str(&mut m, name);
        Err(m)
    } else {
        assert forall|k: int| !empty_component_at(t@, k) by {
            if empty_component_at(t@, k) {
                assert(k < i);
            }
        }
        Ok(t)
    }
}

fn normalize_zfs_mountpoint(mount: &str) -> (r: Result<Vec<char>, Vec<char>>)
    ensures
        match r {
            Ok(t) => zfs_mount_check(mount@) == Ok::<Seq<char>, Seq<char>>(t@),
            Err(m) => zfs_mount_check(mount@) == Err::<Seq<char>, Seq<char>>(m@),
        },
{
    let t = trim_str(mount);
    if eq_lit(&t, "none") {
        return Ok(t);
    }
    if t.len() > 0 && t[0] == '/' {
        return Ok(t);
    }
    let mut m: Vec<char> = Vec::new();
    push_str(&mut m, "mountpoint must be absolute: ");
    push_chars(&mut m, &t);
    Err(m)
}

/// Appends the steps that create one dataset.
fn push_dataset_steps(steps: &mut Vec<CommandStep>, d: &ZfsDataset, target_mount: &str) -> (r: Result<
    (),
    Vec<char>,
>)
    ensures
        match r {
            Ok(_) => one_dataset_rows(*d, target_mount@) is Ok && step_views(final(steps)@)
                == step_views(old(steps)@) + one_dataset_rows(*d, target_mount@)->Ok_0,
            Err(m) => one_dataset_rows(*d, target_mount@) == Err::<Seq<StepView>, Seq<char>>(m@),
        },
{
    let name = match zfs_dataset_name(d.name.as_str()) {
        Ok(n) => n,
        Err(m) => return Err(m),
    };
    let mount = match normalize_zfs_mountpoint(d.mount.as_str()) {
        Ok(m) => m,
        Err(m) => return Err(m),
    };
    let ghost before = step_views(steps@);
    let mut full: Vec<char> = trim_str(d.pool.as_str());
    full.push('/');
    push_chars(&mut full, &name);
    proof {
        reveal_strlit("/");
        assert(full@ =~= trim(d.pool@) + "/"@ + name@);
    }
    let is_none = eq_lit(&mount, "none");
    let is_root = eq_lit(&mount, "/");
    let ms = string_of(&mount);
    if !is_none && !is_root {
        let mut desc: Vec<char> = Vec::new();
        push_str(&mut desc, "Create ZFS mountpoint ");
        push_chars(&mut desc, &mount);
        let mut a: Vec<String> = Vec::new();
        a.push(lit("-p"));
        a.push(under(target_mount, ms.as_str()));
        assert(sviews(a@) =~= seq!["-p"@, join_path(target_mount@, strip_leading_slashes(mount@))]);
        push_step(steps, CommandStep { description: text(&desc), program: lit("mkdir"), args: a });
    }
    let ghost mid = step_views(steps@);
    let mut desc: Vec<char> = Vec::new();
    push_str(&mut desc, "Create ZFS dataset ");
    push_chars(&mut desc, &full);
    let mut mp: Vec<char> = Vec::new();
    push_str(&mut mp, "mountpoint=");
    push_chars(&mut mp, &mount);
    let mut cm: Vec<char> = Vec::new();
    push_str(&mut cm, "canmount=");
    push_str(&mut cm, d.canmount.as_zfs_value());
    let mut a: Vec<String> = Vec::new();
    a.push(lit("create"));
    a.push(lit("-p"));
    a.push(lit("-o"));
    a.push(text(&mp));
    a.push(lit("-o"));
    a.push(text(&cm));
    a.push(text(&full));
    assert(sviews(a@) =~= seq![
        "create"@,
        "-p"@,
        "-o"@,
        "mountpoint="@ + mount@,
        "-o"@,
        "canmount="@ + crate::manifest::disk::canmount_text(d.canmount),
        full@,
    ]);
    push_step(steps, CommandStep { description: text(&desc), program: lit("zfs"), args: a });
    if is_root {
        let mut desc2: Vec<char> = Vec::new();
        push_str(&mut desc2, "Mount ZFS root dataset ");
        push_chars(&mut desc2, &full);
        let mut b: Vec<String> = Vec::new();
        b.push(lit("mount"));
        b.push(text(&full));
        assert(sviews(b@) =~= seq!["mount"@, full@]);
        push_step(steps, CommandStep { description: text(&desc2), program: lit("zfs"), args: b });
    }
    assert(step_views(steps@) =~= before + one_dataset_rows(*d, target_mount@)->Ok_0);
    Ok(())
}

fn find_root(ds: &Vec<ZfsDataset>, pool: &Vec<char>) -> (r: Option<usize>)
    ensures
        match r {
            Some(i) => first_root(ds@, pool@, i as int),
            None => !exists|i: int| first_root(ds@, pool@, i),
        },
{
    let mut i: usize = 0;
    while i < ds.len()
        invariant
            i <= ds.len(),
            forall|k: int| 0 <= k < i ==> !is_root_dataset(#[trigger] ds@[k], pool@),
        decreases ds.len() - i,
    {
        let p = trim_str(ds[i].pool.as_str());
        let m = trim_str(ds[i].mount.as_str());
        if crate::text::seq_eq(&p, pool) && eq_lit(&m, "/") {
            return Some(i);
        }
        i = i + 1;
    }
    assert forall|j: int| !first_root(ds@, pool@, j) by {
        if 0 <= j < ds.len() {
            assert(!is_root_dataset(ds@[j], pool@));
        }
    }
    None
}

fn find_stray(ds: &Vec<ZfsDataset>, pool: &Vec<char>, boot: &Vec<char>) -> (r: Option<usize>)
    ensures
        match r {
            Some(i) => first_stray(ds@, pool@, boot@, i as int),
            None => !exists|i: int| first_stray(ds@, pool@, boot@, i),
        },
{
    let mut i: usize = 0;
    while i < ds.len()
        invariant
            i <= ds.len(),
            forall|k: int| 0 <= k < i ==> !is_stray_dataset(#[trigger] ds@[k], pool@, boot@),
        decreases ds.len() - i,
    {
        let p = trim_str(ds[i].pool.as_str());
        if !crate::text::seq_eq(&p, pool) && !crate::text::seq_eq(&p, boot) {
            return Some(i);
        }
        i = i + 1;
    }
    assert forall|j: int| !first_stray(ds@, pool@, boot@, j) by {
        if 0 <= j < ds.len() {
            assert(!is_stray_dataset(ds@[j], pool@, boot@));
        }
    }
    None
}

fn count_slashes(s: &Vec<char>) -> (r: usize)
    ensures
        r == count_char(s@, '/'),
{
    let mut n: usize = 0;
    let mut i: usize = 0;
    while i < s.len()
        invariant
            i <= s.len(),
            n == count_char(s@.subrange(0, i as int), '/'),
            n <= i,
        decreases s.len() - i,
    {
        let ghost sub = s@.subrange(0, i + 1);
        assert(sub.drop_last() =~= s@.subrange(0, i as int));
        if s[i] == '/' {
            n = n + 1;
        }
        i = i + 1;
    }
    assert(s@.subrange(0, s.len() as int) =~= s@);
    n
}

fn key_of(d: &ZfsDataset, pool: &Vec<char>, boot: &Vec<char>) -> (r: (usize, usize))
    ensures
        (r.0 as int, r.1 as int) == dataset_key(*d, pool@, boot@),
{
    let dp = trim_str(d.pool.as_str());
    let dn = trim_str(d.name.as_str());
    let dm = trim_str(d.mount.as_str());
    let in_pool = crate::text::seq_eq(&dp, pool);
    let group: usize = if in_pool && eq_lit(&dn, "ROOT") {
        0
    } else if in_pool && eq_lit(&dm, "/") {
        1
    } else if crate::text::seq_eq(&dp, boot) {
        2
    } else {
        3
    };
    let name = chars_of(d.name.as_str());
    (group, count_slashes(&name))
}

pub open spec fn key_view(k: (usize, usize)) -> (int, int) {
    (k.0 as int, k.1 as int)
}

proof fn lemma_insert_at(s: Seq<int>, x: int, keys: Seq<(int, int)>, j: int)
    requires
        0 <= j <= s.len(),
        forall|k: int| j <= k < s.len() ==> !key_le(keys[#[trigger] s[k]], keys[x]),
        j == 0 || key_le(keys[s[j - 1]], keys[x]),
    ensures
        insert_by_key(s, x, keys) == s.insert(j, x),
    decreases s.len(),
{
    if s.len() == 0 {
        assert(s.insert(j, x) =~= seq![x]);
    } else if j == s.len() {
        assert(s.insert(j, x) =~= s.push(x));
    } else {
        assert(!key_le(keys[s[s.len() - 1]], keys[x]));
        let t = s.drop_last();
        assert forall|k: int| j <= k < t.len() implies !key_le(keys[#[trigger] t[k]], keys[x]) by {
            assert(t[k] == s[k]);
        }
        if j > 0 {
            assert(t[j - 1] == s[j - 1]);
        }
        lemma_insert_at(t, x, keys, j);
        assert(t.insert(j, x).push(s.last()) =~= s.insert(j, x));
    }
}

fn key_le_exec(a: (usize, usize), b: (usize, usize)) -> (r: bool)
    ensures
        r == key_le(key_view(a), key_view(b)),
{
    a.0 < b.0 || (a.0 == b.0 && a.1 <= b.1)
}

/// The indices of `keys` stably sorted by key.
fn sort_indices(keys: &Vec<(usize, usize)>) -> (r: Vec<usize>)
    ensures
        r@.map_values(|i: usize| i as int) == sort_by_key(keys.len() as nat, keys@.map_values(
            |k: (usize, usize)| key_view(k),
        )),
        forall|k: int| 0 <= k < r.len() ==> #[trigger] r@[k] < keys.len(),
{
    let ghost kv = keys@.map_values(|k: (usize, usize)| key_view(k));
    let mut out: Vec<usize> = Vec::new();
    let mut n: usize = 0;
    assert(out@.map_values(|i: usize| i as int) =~= sort_by_key(0, kv));
    while n < keys.len()
        invariant
            n <= keys.len(),
            kv == keys@.map_values(|k: (usize, usize)| key_view(k)),
            out@.map_values(|i: usize| i as int) == sort_by_key(n as nat, kv),
            out.len() == n,
            forall|k: int| 0 <= k < out.len() ==> #[trigger] out@[k] < n,
        decreases keys.len() - n,
    {
        let kx = keys[n];
        let mut j: usize = out.len();
        while j > 0 && !key_le_exec(keys[out[j - 1]], kx)
            invariant
                j <= out.len(),
                out.len() == n,
                n < keys.len(),
                kx == keys@[n as int],
                kv == keys@.map_values(|k: (usize, usize)| key_view(k)),
                forall|k: int| 0 <= k < out.len() ==> #[trigger] out@[k] < n,
                forall|k: int|
                    j <= k < out.len() ==> !key_le(kv[out@[k] as int], kv[n as int]),
            decreases j,
        {
            j = j - 1;
        }
        proof {
            let s = out@.map_values(|i: usize| i as int);
            assert forall|k: int| j <= k < s.len() implies !key_le(kv[#[trigger] s[k]], kv[n as int]) by {
                assert(s[k] == out@[k] as int);
            }
            if j > 0 {
                assert(s[j - 1] == out@[j - 1] as int);
            }
            lemma_insert_at(s, n as int, kv, j as int);
        }
        let ghost old_out = out@;
        out.insert(j, n);
        proof {
            assert(out@.map_values(|i: usize| i as int) =~= old_out.map_values(|i: usize| i as int).insert(
                j as int,
                n as int,
            ));
            assert forall|k: int| 0 <= k < out.len() implies #[trigger] out@[k] < n + 1 by {
                if k < j {
                    assert(out@[k] == old_out[k]);
                } else if k > j {
                    assert(out@[k] == old_out[k - 1]);
                }
            }
        }
        n = n + 1;
    }
    out
}


fn push_zfs_head(
    steps: &mut Vec<CommandStep>,
    disk: &Disk,
    target_mount: &str,
    device: &str,
    bpool_part: usize,
    swap: Option<(usize, u64)>,
    rpool_part: usize,
    pool: &Vec<char>,
    boot: &Vec<char>,
)
    requires
        pool@ == trim(disk.zfs.pool@),
        boot@ == trim(disk.zfs.boot_pool@),
    ensures
        step_views(final(steps)@) == step_views(old(steps)@) + zfs_head_rows(
            *disk,
            target_mount@,
            device@,
            bpool_part as nat,
            match swap {
                Some(sw) => Some((sw.0 as nat, sw.1)),
                None => None,
            },
            rpool_part as nat,
        ),
{
    let ghost before = step_views(steps@);
    let mut h: Vec<String> = Vec::new();
    h.push(lit("-f"));
    assert(sviews(h@) =~= seq!["-f"@]);
    push_step(steps, command("Ensure hostid exists on the live system", "zgenhostid", h));
    let mut b: Vec<String> = Vec::new();
    b.push(lit("-n"));
    b.push(sized_span(bpool_part, disk.zfs.boot_pool_size));
    b.push(lit("-t"));
    b.push(numbered(bpool_part, ":bf00"));
    b.push(lit(device));
    assert(sviews(b@) =~= seq![
        "-n"@,
        decimal(bpool_part as nat) + ":0:+"@ + size_mib(disk.zfs.boot_pool_size) + "M"@,
        "-t"@,
        decimal(bpool_part as nat) + ":bf00"@,
        device@,
    ]);
    push_step(steps, command("Create ZFS boot pool partition", "sgdisk", b));
    match swap {
        Some((number, size)) => push_step(steps, swap_partition_step(device, number, size)),
        None => {},
    }
    let mut r: Vec<String> = Vec::new();
    r.push(lit("-n"));
    r.push(numbered(rpool_part, ":0:0"));
    r.push(lit("-t"));
    r.push(numbered(rpool_part, ":bf00"));
    r.push(lit(device));
    assert(sviews(r@) =~= seq![
        "-n"@,
        decimal(rpool_part as nat) + ":0:0"@,
        "-t"@,
        decimal(rpool_part as nat) + ":bf00"@,
        device@,
    ]);
    push_step(steps, command("Create ZFS root pool partition", "sgdisk", r));
    push_reread(steps, device);
    let rpart = partition_path_of(device, rpool_part);
    let bpart = partition_path_of(device, bpool_part);
    let mut ashift: Vec<char> = Vec::new();
    push_str(&mut ashift, "ashift=");
    push_decimal(&mut ashift, disk.zfs.ashift as u64);
    let mut comp: Vec<char> = Vec::new();
    push_str(&mut comp, "compression=");
    push_str(&mut comp, disk.zfs.compression.as_str());
    let mut c: Vec<String> = Vec::new();
    c.push(lit("create"));
    c.push(lit("-f"));
    c.push(lit("-o"));
    c.push(text(&ashift));
    c.push(lit("-o"));
    c.push(lit("autotrim=on"));
    c.push(lit("-O"));
    c.push(text(&comp));
    c.push(lit("-O"));
    c.push(lit("acltype=posixacl"));
    c.push(lit("-O"));
    c.push(lit("xattr=sa"));
    c.push(lit("-O"));
    c.push(lit("atime=off"));
    c.push(lit("-O"));
    c.push(lit("normalization=formD"));
    c.push(lit("-O"));
    c.push(lit("dnodesize=auto"));
    c.push(lit("-O"));
    c.push(lit("canmount=off"));
    c.push(lit("-O"));
    c.push(lit("mountpoint=none"));
    c.push(lit("-R"));
    c.push(lit(target_mount));
    c.push(text(pool));
    c.push(text(&rpart));
    assert(sviews(c@) =~= rpool_create_args(*disk, target_mount@, pool@, rpart@));
    push_step(steps, command("Create ZFS root pool", "zpool", c));
    let mut bcomp: Vec<char> = Vec::new();
    push_str(&mut bcomp, "compression=");
    push_str(&mut bcomp, disk.zfs.boot_compression.as_str());
    let mut e: Vec<String> = Vec::new();
    e.push(lit("create"));
    e.push(lit("-f"));
    e.push(lit("-o"));
    e.push(lit("compatibility=grub2"));
    e.push(lit("-o"));
    e.push(text(&ashift));
    e.push(lit("-o"));
    e.push(lit("autotrim=on"));
    e.push(lit("-O"));
    e.push(text(&bcomp));
    e.push(lit("-O"));
    e.push(lit("acltype=posixacl"));
    e.push(lit("-O"));
    e.push(lit("xattr=sa"));
    e.push(lit("-O"));
    e.push(lit("devices=off"));
    e.push(lit("-O"));
    e.push(lit("atime=off"));
    e.push(lit("-O"));
    e.push(lit("canmount=off"));
    e.push(lit("-O"));
    e.push(lit("mountpoint=/boot"));
    e.push(lit("-R"));
    e.push(lit(target_mount));
    e.push(text(boot));
    e.push(text(&bpart));
    assert(sviews(e@) =~= bpool_create_args(*disk, target_mount@, boot@, bpart@));
    push_step(steps, command("Create ZFS boot pool", "zpool", e));
    assert(step_views(steps@) =~= before + zfs_head_rows(
        *disk,
        target_mount@,
        device@,
        bpool_part as nat,
        match swap {
            Some(sw) => Some((sw.0 as nat, sw.1)),
            None => None,
        },
        rpool_part as nat,
    ));
}

fn push_zfs_tail(
    steps: &mut Vec<CommandStep>,
    target_mount: &str,
    pool: &Vec<char>,
    boot: &Vec<char>,
    bootfs: &Vec<char>,
)
    ensures
        step_views(final(steps)@) == step_views(old(steps)@) + zfs_tail_rows(
            target_mount@,
            pool@,
            boot@,
            bootfs@,
        ),
{
    let ghost before = step_views(steps@);
    let mut bf: Vec<char> = Vec::new();
    push_str(&mut bf, "bootfs=");
    push_chars(&mut bf, bootfs);
    let mut a: Vec<String> = Vec::new();
    a.push(lit("set"));
    a.push(text(&bf));
    a.push(text(pool));
    assert(sviews(a@) =~= seq!["set"@, "bootfs="@ + bootfs@, pool@]);
    push_step(steps, command("Set ZFS boot filesystem", "zpool", a));
    let mut b: Vec<String> = Vec::new();
    b.push(lit("-p"));
    b.push(under(target_mount, "etc/zfs"));
    proof {
        reveal_strlit("etc/zfs");
        assert(strip_leading_slashes("etc/zfs"@) == "etc/zfs"@);
    }
    assert(sviews(b@) =~= seq!["-p"@, join_path(target_mount@, "etc/zfs"@)]);
    push_step(steps, command("Create target ZFS cache directory", "mkdir", b));
    let cache = under(target_mount, "etc/zfs/zpool.cache");
    proof {
        reveal_strlit("etc/zfs/zpool.cache");
        assert(strip_leading_slashes("etc/zfs/zpool.cache"@) == "etc/zfs/zpool.cache"@);
    }
    let mut cf: Vec<char> = Vec::new();
    push_str(&mut cf, "cachefile=");
    push_str(&mut cf, cache.as_str());
    let mut c: Vec<String> = Vec::new();
    c.push(lit("set"));
    c.push(text(&cf));
    c.push(text(pool));
    assert(sviews(c@) =~= seq![
        "set"@,
        "cachefile="@ + join_path(target_mount@, "etc/zfs/zpool.cache"@),
        pool@,
    ]);
    push_step(steps, command("Write root pool import cache", "zpool", c));
    let mut d: Vec<String> = Vec::new();
    d.push(lit("set"));
    d.push(text(&cf));
    d.push(text(boot));
    assert(sviews(d@) =~= seq![
        "set"@,
        "cachefile="@ + join_path(target_mount@, "etc/zfs/zpool.cache"@),
        boot@,
    ]);
    push_step(steps, command("Write boot pool import cache", "zpool", d));
    assert(step_views(steps@) =~= before + zfs_tail_rows(target_mount@, pool@, boot@, bootfs@));
}

proof fn lemma_rows_prefix(ds: Seq<ZfsDataset>, target: Seq<char>, k: int)
    requires
        0 <= k < ds.len(),
    ensures
        datasets_rows(ds.subrange(0, k + 1), target) == match datasets_rows(ds.subrange(0, k), target) {
            Err(m) => Err(m),
            Ok(prev) => match one_dataset_rows(ds[k], target) {
                Err(m) => Err(m),
                Ok(rows) => Ok(prev + rows),
            },
        },
{
    let p = ds.subrange(0, k + 1);
    assert(p.drop_last() =~= ds.subrange(0, k));
    assert(p.last() == ds[k]);
}

proof fn lemma_rows_failure_persists(ds: Seq<ZfsDataset>, target: Seq<char>, n: int)
    requires
        0 <= n <= ds.len(),
        datasets_rows(ds.subrange(0, n), target) is Err,
    ensures
        datasets_rows(ds, target) == datasets_rows(ds.subrange(0, n), target),
    decreases ds.len() - n,
{
    if n == ds.len() {
        assert(ds.subrange(0, n) =~= ds);
    } else {
        lemma_rows_prefix(ds, target, n);
        lemma_rows_failure_persists(ds, target, n + 1);
    }
}

fn invalid_layout(m: &Vec<char>) -> (r: DiskError)
    ensures
        r is InvalidLayout && (r->InvalidLayout_0)@ == m@,
{
    DiskError::InvalidLayout(string_of(m))
}

fn invalid_layout_str(m: &str) -> (r: DiskError)
    ensures
        r is InvalidLayout && (r->InvalidLayout_0)@ == m@,
{
    DiskError::InvalidLayout(m.to_owned())
}

pub open spec fn swap_numbers(swap: Option<(usize, u64)>) -> Option<(nat, u64)> {
    match swap {
        Some(sw) => Some((sw.0 as nat, sw.1)),
        None => None,
    }
}

/// Appends the steps of a ZFS layout.
fn plan_zfs(
    disk: &Disk,
    target_mount: &str,
    device: &str,
    steps: &mut Vec<CommandStep>,
    bpool_part: usize,
    swap: Option<(usize, u64)>,
    rpool_part: usize,
) -> (r: Result<(), DiskError>)
    ensures
        match r {
            Ok(_) => zfs_plan(
                *disk,
                target_mount@,
                device@,
                bpool_part as nat,
                swap_numbers(swap),
                rpool_part as nat,
            ) is Ok && step_views(final(steps)@) == step_views(old(steps)@) + zfs_plan(
                *disk,
                target_mount@,
                device@,
                bpool_part as nat,
                swap_numbers(swap),
                rpool_part as nat,
            )->Ok_0,
            Err(e) => e is InvalidLayout && zfs_plan(
                *disk,
                target_mount@,
                device@,
                bpool_part as nat,
                swap_numbers(swap),
                rpool_part as nat,
            ) == Err::<Seq<StepView>, Seq<char>>((e->InvalidLayout_0)@),
        },
{
    let pool = trim_str(disk.zfs.pool.as_str());
    let boot = trim_str(disk.zfs.boot_pool.as_str());
    if pool.len() == 0 {
        return Err(invalid_layout_str("ZFS pool name is empty"));
    }
    if boot.len() == 0 {
        return Err(invalid_layout_str("ZFS boot pool name is empty"));
    }
    if crate::text::seq_eq(&pool, &boot) {
        return Err(invalid_layout_str("ZFS root pool and boot pool must be different"));
    }
    let ghost before = step_views(steps@);
    push_zfs_head(steps, disk, target_mount, device, bpool_part, swap, rpool_part, &pool, &boot);
    let ghost head = step_views(steps@);
    let ds = &disk.zfs.datasets;
    let root = match find_root(ds, &pool) {
        Some(i) => i,
        None => return Err(invalid_layout_str("ZFS layout needs a root dataset mounted at /")),
    };
    match find_stray(ds, &pool, &boot) {
        Some(i) => {
            let mut m: Vec<char> = Vec::new();
            push_str(&mut m, "ZFS dataset ");
            push_str(&mut m, ds[i].name.as_str());
            push_str(&mut m, " belongs to unknown pool ");
            let p = trim_str(ds[i].pool.as_str());
            push_chars(&mut m, &p);
            proof {
                let j = choose|j: int| first_stray(ds@, pool@, boot@, j);
                assert(first_stray(ds@, pool@, boot@, j));
                if j < i {
                    assert(!is_stray_dataset(ds@[j], pool@, boot@));
                } else if i < j {
                    assert(!is_stray_dataset(ds@[i as int], pool@, boot@));
                }
            }
            return Err(invalid_layout(&m));
        },
        None => {},
    }
    proof {
        let j = choose|j: int| first_root(ds@, pool@, j);
        assert(first_root(ds@, pool@, j));
        if j < root {
            assert(!is_root_dataset(ds@[j], pool@));
        } else if root < j {
            assert(!is_root_dataset(ds@[root as int], pool@));
        }
    }
    let mut keys: Vec<(usize, usize)> = Vec::new();
    let mut i: usize = 0;
    while i < ds.len()
        invariant
            i <= ds.len(),
            ds@ == disk.zfs.datasets@,
            keys.len() == i,
            forall|k: int| 0 <= k < i ==> #[trigger] key_view(keys@[k]) == dataset_key(ds@[k], pool@, boot@),
        decreases ds.len() - i,
    {
        keys.push(key_of(&ds[i], &pool, &boot));
        i = i + 1;
    }
    assert(keys@.map_values(|k: (usize, usize)| key_view(k)) =~= dataset_keys(ds@, pool@, boot@));
    let order = sort_indices(&keys);
    let ghost ord = ordered_datasets(ds@, pool@, boot@);
    proof {
        let sorted = sort_by_key(ds.len() as nat, dataset_keys(ds@, pool@, boot@));
        assert(order@.map_values(|i: usize| i as int) == sorted);
        assert forall|k: int| 0 <= k < order.len() implies #[trigger] ord[k] == ds@[order@[k] as int] by {
            assert(sorted[k] == order@[k] as int);
        }
        assert(ord.len() == order.len());
    }
    let mut k: usize = 0;
    assert(ord.subrange(0, 0) =~= Seq::<ZfsDataset>::empty());
    while k < order.len()
        invariant
            k <= order.len(),
            ord.len() == order.len(),
            ds@ == disk.zfs.datasets@,
            forall|j: int| 0 <= j < order.len() ==> #[trigger] order@[j] < ds.len(),
            forall|j: int| 0 <= j < order.len() ==> #[trigger] ord[j] == ds@[order@[j] as int],
            datasets_rows(ord.subrange(0, k as int), target_mount@) is Ok,
            pool@ == trim(disk.zfs.pool@),
            boot@ == trim(disk.zfs.boot_pool@),
            zfs_pool_failure(pool@, boot@) is None,
            first_root(ds@, pool@, root as int),
            (choose|j: int| first_root(ds@, pool@, j)) == root,
            !exists|j: int| first_stray(ds@, pool@, boot@, j),
            ord == ordered_datasets(ds@, pool@, boot@),
            head == step_views(old(steps)@) + zfs_head_rows(
                *disk,
                target_mount@,
                device@,
                bpool_part as nat,
                swap_numbers(swap),
                rpool_part as nat,
            ),
            step_views(steps@) == head + datasets_rows(ord.subrange(0, k as int), target_mount@)->Ok_0,
        decreases order.len() - k,
    {
        proof {
            lemma_rows_prefix(ord, target_mount@, k as int);
        }
        let idx = order[k];
        assert(ord[k as int] == ds@[idx as int]);
        match push_dataset_steps(steps, &ds[idx], target_mount) {
            Ok(_) => {},
            Err(m) => {
                proof {
                    lemma_rows_failure_persists(ord, target_mount@, k + 1);
                }
                return Err(invalid_layout(&m));
            },
        }
        k = k + 1;
    }
    assert(ord.subrange(0, order.len() as int) =~= ord);
    let ghost rows = datasets_rows(ord, target_mount@)->Ok_0;
    let root_name = match zfs_dataset_name(ds[root].name.as_str()) {
        Ok(n) => n,
        Err(m) => return Err(invalid_layout(&m)),
    };
    let mut bootfs: Vec<char> = Vec::new();
    push_chars(&mut bootfs, &pool);
    bootfs.push('/');
    push_chars(&mut bootfs, &root_name);
    proof {
        reveal_strlit("/");
        assert(bootfs@ =~= pool@ + "/"@ + root_name@);
    }
    push_zfs_tail(steps, target_mount, &pool, &boot, &bootfs);
    assert(step_views(steps@) =~= before + zfs_plan(
        *disk,
        target_mount@,
        device@,
        bpool_part as nat,
        swap_numbers(swap),
        rpool_part as nat,
    )->Ok_0);
    Ok(())
}


// ---------------------------------------------------------------------------
// Whole-disk plans.
// ---------------------------------------------------------------------------

/// Why a plan could not be made, as plain values.
pub enum DiskPlanFailure {
    MissingDevice,
    UnsupportedEncryption(Encryption),
    UnsupportedLayout(DiskLayout),
    InvalidLayout(Seq<char>),
}

/// `e` is the error that stands for `f`.
pub open spec fn plan_error_is(e: DiskError, f: DiskPlanFailure) -> bool {
    match f {
        DiskPlanFailure::MissingDevice => e is MissingDevice,
        DiskPlanFailure::UnsupportedEncryption(x) => e == DiskError::UnsupportedEncryption(x),
        DiskPlanFailure::UnsupportedLayout(x) => e == DiskError::UnsupportedLayout(x),
        DiskPlanFailure::InvalidLayout(m) => e is InvalidLayout && (e->InvalidLayout_0)@ == m,
    }
}

pub open spec fn disk_head_rows(disk: Disk) -> Seq<StepView> {
    let device = disk.device@;
    seq![
        step_of("Wipe filesystem signatures"@, "wipefs"@, seq!["-a"@, device]),
        step_of("Zap existing GPT/MBR data"@, "sgdisk"@, seq!["--zap-all"@, device]),
        step_of(
            "Create EFI system partition"@,
            "sgdisk"@,
            seq![
                "-n"@,
                "1:1M:+"@ + size_mib(disk.partitions.efi.size) + "M"@,
                "-t"@,
                "1:ef00"@,
                device,
            ],
        ),
    ]
}

pub open spec fn efi_rows(disk: Disk, target: Seq<char>) -> Seq<StepView> {
    let efi = partition_path(disk.device@, 1);
    let mountpoint = join_path(target, strip_leading_slashes(disk.partitions.efi.mount@));
    seq![
        wipe_row(efi),
        step_of("Create EFI FAT32 filesystem"@, "mkfs.vfat"@, seq!["-F32"@, efi]),
        step_of("Create EFI mountpoint"@, "mkdir"@, seq!["-p"@, mountpoint]),
        step_of("Mount EFI system partition"@, "mount"@, seq![efi, mountpoint]),
    ]
}

pub open spec fn swap_rows(part: Option<Seq<char>>) -> Seq<StepView> {
    match part {
        Some(p) => seq![
            wipe_row(p),
            step_of("Create swap signature"@, "mkswap"@, seq![p]),
            step_of("Enable swap partition"@, "swapon"@, seq![p]),
        ],
        None => Seq::empty(),
    }
}

/// The layout-specific steps, and the swap partition if there is one.
pub open spec fn layout_rows(disk: Disk, swap: ResolvedSwap, target: Seq<char>) -> Result<
    (Seq<StepView>, Option<Seq<char>>),
    DiskPlanFailure,
> {
    let device = disk.device@;
    match disk.layout {
        DiskLayout::Zfs => {
            let zswap: Option<(nat, u64)> = match swap.disk {
                Some(d) => Some((3nat, d.size)),
                None => None,
            };
            let rpool: nat = if zswap is Some {
                4
            } else {
                3
            };
            match zfs_plan(disk, target, device, 2, zswap, rpool) {
                Err(m) => Err(DiskPlanFailure::InvalidLayout(m)),
                Ok(rows) => Ok(
                    (
                        rows,
                        if zswap is Some {
                            Some(partition_path(device, 3))
                        } else {
                            None
                        },
                    ),
                ),
            }
        },
        DiskLayout::Ext4 => {
            if ext4_invalid(disk) {
                Err(DiskPlanFailure::InvalidLayout(ext4_root_size_message()))
            } else {
                match swap.disk {
                    Some(d) => Ok(
                        (
                            seq![swap_partition_row(device, 2, d.size)] + ext4_rows(disk, target, device, 3),
                            Some(partition_path(device, 2)),
                        ),
                    ),
                    None => Ok((ext4_rows(disk, target, device, 2), None)),
                }
            }
        },
        _ => Err(DiskPlanFailure::UnsupportedLayout(disk.layout)),
    }
}

/// The provisioning steps for `disk` with the resolved swap policy, mounting
/// the new system under `target`.
pub open spec fn disk_plan(disk: Disk, swap: ResolvedSwap, target: Seq<char>) -> Result<
    Seq<StepView>,
    DiskPlanFailure,
> {
    if trim(disk.device@).len() == 0 {
        Err(DiskPlanFailure::MissingDevice)
    } else if disk.encryption != Encryption::Disabled {
        Err(DiskPlanFailure::UnsupportedEncryption(disk.encryption))
    } else {
        match layout_rows(disk, swap, target) {
            Err(f) => Err(f),
            Ok(lr) => Ok(disk_head_rows(disk) + lr.0 + efi_rows(disk, target) + swap_rows(lr.1)),
        }
    }
}

/// `r` is the executable form of the plan outcome `o`.
pub open spec fn planned_as(
    r: Result<DiskPlan, DiskError>,
    o: Result<Seq<StepView>, DiskPlanFailure>,
    disk: Disk,
    target: Seq<char>,
) -> bool {
    match o {
        Ok(rows) => r is Ok && step_views(r->Ok_0.steps@) == rows && r->Ok_0.device@ == disk.device@
            && r->Ok_0.target_mount@ == target,
        Err(f) => r is Err && plan_error_is(r->Err_0, f),
    }
}

fn push_head(steps: &mut Vec<CommandStep>, disk: &Disk)
    ensures
        step_views(final(steps)@) == step_views(old(steps)@) + disk_head_rows(*disk),
{
    let ghost before = step_views(steps@);
    let device = disk.device.as_str();
    let mut a: Vec<String> = Vec::new();
    a.push(lit("-a"));
    a.push(lit(device));
    assert(sviews(a@) =~= seq!["-a"@, device@]);
    push_step(steps, command("Wipe filesystem signatures", "wipefs", a));
    let mut b: Vec<String> = Vec::new();
    b.push(lit("--zap-all"));
    b.push(lit(device));
    assert(sviews(b@) =~= seq!["--zap-all"@, device@]);
    push_step(steps, command("Zap existing GPT/MBR data", "sgdisk", b));
    let mut span: Vec<char> = Vec::new();
    push_str(&mut span, "1:1M:+");
    let m = mib_of(disk.partitions.efi.size);
    push_decimal(&mut span, if m == 0 { 1 } else { m });
    push_str(&mut span, "M");
    let mut c: Vec<String> = Vec::new();
    c.push(lit("-n"));
    c.push(text(&span));
    c.push(lit("-t"));
    c.push(lit("1:ef00"));
    c.push(lit(device));
    assert(sviews(c@) =~= seq![
        "-n"@,
        "1:1M:+"@ + size_mib(disk.partitions.efi.size) + "M"@,
        "-t"@,
        "1:ef00"@,
        device@,
    ]);
    push_step(steps, command("Create EFI system partition", "sgdisk", c));
    assert(step_views(steps@) =~= before + disk_head_rows(*disk));
}

fn push_efi(steps: &mut Vec<CommandStep>, disk: &Disk, target_mount: &str)
    ensures
        step_views(final(steps)@) == step_views(old(steps)@) + efi_rows(*disk, target_mount@),
{
    let ghost before = step_views(steps@);
    let efi = partition_path_of(disk.device.as_str(), 1);
    let mountpoint = under(target_mount, disk.partitions.efi.mount.as_str());
    push_step(steps, wipe_signatures_step(&efi));
    let mut a: Vec<String> = Vec::new();
    a.push(lit("-F32"));
    a.push(text(&efi));
    assert(sviews(a@) =~= seq!["-F32"@, efi@]);
    push_step(steps, command("Create EFI FAT32 filesystem", "mkfs.vfat", a));
    let mut b: Vec<String> = Vec::new();
    b.push(lit("-p"));
    b.push(lit(mountpoint.as_str()));
    assert(sviews(b@) =~= seq!["-p"@, mountpoint@]);
    push_step(steps, command("Create EFI mountpoint", "mkdir", b));
    let mut c: Vec<String> = Vec::new();
    c.push(text(&efi));
    c.push(lit(mountpoint.as_str()));
    assert(sviews(c@) =~= seq![efi@, mountpoint@]);
    push_step(steps, command("Mount EFI system partition", "mount", c));
    assert(step_views(steps@) =~= before + efi_rows(*disk, target_mount@));
}

fn push_swap(steps: &mut Vec<CommandStep>, part: &Vec<char>)
    ensures
        step_views(final(steps)@) == step_views(old(steps)@) + swap_rows(Some(part@)),
{
    let ghost before = step_views(steps@);
    push_step(steps, wipe_signatures_step(part));
    let mut a: Vec<String> = Vec::new();
    a.push(text(part));
    assert(sviews(a@) =~= seq![part@]);
    push_step(steps, command("Create swap signature", "mkswap", a));
    let mut b: Vec<String> = Vec::new();
    b.push(text(part));
    assert(sviews(b@) =~= seq![part@]);
    push_step(steps, command("Enable swap partition", "swapon", b));
    assert(step_views(steps@) =~= before + swap_rows(Some(part@)));
}

/// Plans the provisioning of `disk` with an already resolved swap policy.
pub fn plan_disk_with_swap(disk: &Disk, resolved_swap: &ResolvedSwap, target_mount: &str) -> (r: Result<
    DiskPlan,
    DiskError,
>)
    ensures
        planned_as(r, disk_plan(*disk, *resolved_swap, target_mount@), *disk, target_mount@),
{
    if crate::text::is_blank(disk.device.as_str()) {
        return Err(DiskError::MissingDevice);
    }
    match disk.encryption {
        Encryption::Disabled => {},
        _ => return Err(DiskError::UnsupportedEncryption(disk.encryption)),
    }
    let device = disk.device.as_str();
    let mut steps: Vec<CommandStep> = Vec::new();
    push_head(&mut steps, disk);
    let ghost head = step_views(steps@);
    let swap_part: Option<Vec<char>>;
    match disk.layout {
        DiskLayout::Zfs => {
            let zfs_swap: Option<(usize, u64)> = match resolved_swap.disk {
                Some(d) => Some((3, d.size)),
                None => None,
            };
            let rpool: usize = if zfs_swap.is_some() {
                4
            } else {
                3
            };
            match plan_zfs(disk, target_mount, device, &mut steps, 2, zfs_swap, rpool) {
                Ok(_) => {},
                Err(e) => return Err(e),
            }
            swap_part = if zfs_swap.is_some() {
                Some(partition_path_of(device, 3))
            } else {
                None
            };
        },
        DiskLayout::Ext4 => {
            if disk.ext4.separate_home && disk.ext4.root_size == 0 {
                return Err(
                    invalid_layout_str(
                        "ext4 root_size must be greater than zero when a separate /home is used",
                    ),
                );
            }
            match resolved_swap.disk {
                Some(d) => {
                    push_step(&mut steps, swap_partition_step(device, 2, d.size));
                    match plan_ext4(disk, target_mount, device, &mut steps, 3) {
                        Ok(_) => {},
                        Err(e) => return Err(e),
                    }
                    swap_part = Some(partition_path_of(device, 2));
                },
                None => {
                    match plan_ext4(disk, target_mount, device, &mut steps, 2) {
                        Ok(_) => {},
                        Err(e) => return Err(e),
                    }
                    swap_part = None;
                },
            }
        },
        _ => {
            return Err(DiskError::UnsupportedLayout(disk.layout));
        },
    }
    let ghost mid = step_views(steps@);
    push_efi(&mut steps, disk, target_mount);
    let ghost sp: Option<Seq<char>> = match &swap_part {
        Some(p) => Some(p@),
        None => None,
    };
    match &swap_part {
        Some(p) => push_swap(&mut steps, p),
        None => {},
    }
    proof {
        let lr = layout_rows(*disk, *resolved_swap, target_mount@)->Ok_0;
        assert(mid == head + lr.0);
        assert(sp == lr.1);
        assert(step_views(steps@) =~= disk_head_rows(*disk) + lr.0 + efi_rows(*disk, target_mount@)
            + swap_rows(lr.1));
    }
    Ok(DiskPlan { device: disk.device.clone(), target_mount: target_mount.to_owned(), steps })
}

/// The swap a disk declares when planned on its own, as resolved for a
/// machine with `ram_bytes` of RAM.
pub open spec fn standalone_swap(disk: Disk, ram_bytes: u64) -> Result<ResolvedSwap, SwapResolveError> {
    crate::manifest::swap::manifest_swap_spec(
        disk.partitions.swap,
        crate::manifest::Swap::default_spec(),
        ram_bytes,
    )
}

/// Plans the provisioning of `disk` on a machine with `ram_bytes` of RAM:
/// the disk's own swap declaration is resolved first.
pub fn plan_disk(disk: &Disk, target_mount: &str, ram_bytes: u64) -> (r: Result<DiskPlan, DiskError>)
    ensures
        match standalone_swap(*disk, ram_bytes) {
            Err(e) => r == Err::<DiskPlan, DiskError>(DiskError::InvalidSwap(e)),
            Ok(sw) => planned_as(r, disk_plan(*disk, sw, target_mount@), *disk, target_mount@),
        },
{
    let swap = crate::manifest::Swap::default();
    match crate::manifest::swap::resolve_manifest_swap(disk.partitions.swap, swap, ram_bytes) {
        Err(e) => Err(DiskError::InvalidSwap(e)),
        Ok(sw) => plan_disk_with_swap(disk, &sw, target_mount),
    }
}


impl DiskPlan {
    /// The plan as shown before it runs: numbered steps with their commands.
    pub fn render(&self) -> (r: String)
        ensures
            r@ == crate::exec::command_plan_text(step_views(self.steps@)),
    {
        crate::exec::render_command_plan(&self.steps)
    }
}


// ---------------------------------------------------------------------------
// Decisions of the pre-install checks.
// ---------------------------------------------------------------------------

pub open spec fn all_digits_from(s: Seq<char>, from: int) -> bool {
    forall|i: int| from <= i < s.len() ==> is_digit(#[trigger] s[i])
}

/// `source` names a partition of `device`: the partition prefix followed by
/// a non-empty run of digits.
pub open spec fn is_partition_of(source: Seq<char>, device: Seq<char>) -> bool {
    let prefix = partition_prefix(device);
    crate::text::starts_with(source, prefix) && source.len() > prefix.len() && all_digits_from(
        source,
        prefix.len() as int,
    )
}

fn digits_from(s: &Vec<char>, from: usize) -> (r: bool)
    requires
        from <= s.len(),
    ensures
        r == all_digits_from(s@, from as int),
{
    let mut i = from;
    while i < s.len()
        invariant
            from <= i <= s.len(),
            forall|k: int| from <= k < i ==> is_digit(#[trigger] s@[k]),
        decreases s.len() - i,
    {
        if !is_ascii_digit(s[i]) {
            return false;
        }
        i = i + 1;
    }
    true
}

pub fn is_partition_path(source: &str, device: &str) -> (r: bool)
    ensures
        r == is_partition_of(source@, device@),
{
    let s = chars_of(source);
    let mut prefix = chars_of(device);
    if prefix.len() > 0 && is_ascii_digit(prefix[prefix.len() - 1]) {
        prefix.push('p');
        assert(prefix@ =~= device@ + "p"@) by {
            reveal_strlit("p");
        }
    }
    let ps = string_of(&prefix);
    if !crate::text::has_prefix(&s, ps.as_str()) || s.len() <= prefix.len() {
        return false;
    }
    digits_from(&s, prefix.len())
}

/// A mount or swap source refers to `device` or one of its partitions,
/// directly or once both are canonicalised (`canonical_source` is absent
/// when the source does not resolve).
pub fn mount_source_matches_device(
    source: &str,
    device: &str,
    canonical_source: Option<&str>,
    canonical_device: &str,
) -> (r: bool)
    ensures
        r == (source@ == device@ || is_partition_of(source@, device@) || match canonical_source {
            Some(c) => c@ == canonical_device@ || is_partition_of(c@, canonical_device@),
            None => false,
        }),
{
    if crate::text::str_eq(source, device) || is_partition_path(source, device) {
        return true;
    }
    match canonical_source {
        Some(c) => crate::text::str_eq(c, canonical_device) || is_partition_path(c, canonical_device),
        None => false,
    }
}

/// `name` is a sysfs entry for a partition of the whole disk `disk`
/// (`sda1`, `nvme0n1p1`).
pub open spec fn is_partition_sysfs(disk: Seq<char>, name: Seq<char>) -> bool {
    name != disk && crate::text::starts_with(name, disk) && {
        let rest = name.subrange(disk.len() as int, name.len() as int);
        if rest.len() > 0 && rest[0] == 'p' {
            rest.len() > 1 && all_digits_from(rest, 1)
        } else {
            rest.len() > 0 && all_digits_from(rest, 0)
        }
    }
}

pub fn is_partition_sysfs_name(disk: &str, name: &str) -> (r: bool)
    ensures
        r == is_partition_sysfs(disk@, name@),
{
    if crate::text::str_eq(name, disk) {
        return false;
    }
    if !crate::text::str_starts_with(name, disk) {
        return false;
    }
    let n = chars_of(name);
    let d = chars_of(disk);
    let rest = crate::text::slice(&n, d.len(), n.len());
    if rest.len() > 0 && rest[0] == 'p' {
        rest.len() > 1 && digits_from(&rest, 1)
    } else {
        rest.len() > 0 && digits_from(&rest, 0)
    }
}

/// `num / den` rounded to the nearest integer, ties to even.
pub open spec fn round_half_even(num: nat, den: nat) -> nat {
    let q = num / den;
    let r = num % den;
    if 2 * r > den || (2 * r == den && q % 2 == 1) {
        q + 1
    } else {
        q
    }
}

/// A byte count for messages: GiB with one decimal, whole MiB, or bytes.
/// The value is rounded exactly (ties to even), as a float holding the size
/// exactly rounds it.
pub open spec fn bytes_text(bytes: u64) -> Seq<char> {
    if bytes >= GB {
        let t = round_half_even(bytes as nat * 10, GB as nat);
        decimal(t / 10) + "."@ + decimal(t % 10) + " GiB"@
    } else if bytes >= MB {
        decimal(round_half_even(bytes as nat, MB as nat)) + " MiB"@
    } else {
        decimal(bytes as nat) + " B"@
    }
}

fn round_half_even_u128(num: u128, den: u128) -> (r: u128)
    requires
        den > 0,
        num / den < u128::MAX,
    ensures
        r == round_half_even(num as nat, den as nat),
{
    let q = num / den;
    let r = num % den;
    assert(r < den);
    let rest = den - r;
    if r > rest || (r == rest && q % 2 == 1) {
        q + 1
    } else {
        q
    }
}

pub fn format_bytes(bytes: u64) -> (r: String)
    ensures
        r@ == bytes_text(bytes),
{
    let mut v: Vec<char> = Vec::new();
    if bytes >= GB {
        let num: u128 = (bytes as u128) * 10;
        assert(num / (GB as u128) < 200000000000) by (nonlinear_arith)
            requires
                num == bytes * 10,
                bytes < 0x1_0000_0000_0000_0000,
        ;
        let t = round_half_even_u128(num, GB as u128);
        assert(t <= 200000000000);
        push_decimal(&mut v, (t / 10) as u64);
        push_str(&mut v, ".");
        push_decimal(&mut v, (t % 10) as u64);
        push_str(&mut v, " GiB");
    } else if bytes >= MB {
        let t = round_half_even_u128(bytes as u128, MB as u128);
        assert(t <= bytes as u128);
        push_decimal(&mut v, t as u64);
        push_str(&mut v, " MiB");
    } else {
        push_decimal(&mut v, bytes);
        push_str(&mut v, " B");
    }
    string_of(&v)
}

pub open spec fn sat_add(a: u64, b: u64) -> u64 {
    if a + b > u64::MAX {
        u64::MAX
    } else {
        (a + b) as u64
    }
}

/// The smallest disk the layout fits on: the install floor, the EFI
/// partition, a swap partition and the ZFS boot pool, saturating.
pub open spec fn install_bytes_needed(disk: Disk, swap: ResolvedSwap) -> u64 {
    let base = sat_add(MIN_INSTALL_BYTES, disk.partitions.efi.size);
    let with_swap = match swap.disk {
        Some(d) => sat_add(base, d.size),
        None => base,
    };
    if disk.layout == DiskLayout::Zfs {
        sat_add(with_swap, disk.zfs.boot_pool_size)
    } else {
        with_swap
    }
}

pub fn required_install_bytes(disk: &Disk, resolved_swap: &ResolvedSwap) -> (r: u64)
    ensures
        r == install_bytes_needed(*disk, *resolved_swap),
{
    let mut required = MIN_INSTALL_BYTES.saturating_add(disk.partitions.efi.size);
    match resolved_swap.disk {
        Some(d) => {
            required = required.saturating_add(d.size);
        },
        None => {},
    }
    match disk.layout {
        DiskLayout::Zfs => {
            required = required.saturating_add(disk.zfs.boot_pool_size);
        },
        _ => {},
    }
    required
}

/// Refuses a disk of `size` bytes that the layout does not fit on.
pub fn check_disk_size(device: &str, size: u64, disk: &Disk, resolved_swap: &ResolvedSwap) -> (r: Result<
    (),
    DiskError,
>)
    ensures
        match r {
            Ok(_) => size >= install_bytes_needed(*disk, *resolved_swap),
            Err(e) => size < install_bytes_needed(*disk, *resolved_swap) && match e {
                DiskError::DeviceTooSmall { device: d, have, need } => d@ == device@ && have@
                    == bytes_text(size) && need@ == bytes_text(
                    install_bytes_needed(*disk, *resolved_swap),
                ),
                _ => false,
            },
        },
{
    let required = required_install_bytes(disk, resolved_swap);
    if size < required {
        return Err(
            DiskError::DeviceTooSmall {
                device: device.to_owned(),
                have: format_bytes(size),
                need: format_bytes(required),
            },
        );
    }
    Ok(())
}


/// The mount point of a separate /home below `target`: `target` with
/// `/home` appended, or `home` when `target` is empty or already ends in `/`.
/// It is never `target` itself.
pub proof fn lemma_separate_home_mounted_below_target(disk: Disk, swap: ResolvedSwap, target: Seq<char>)
    requires
        disk.layout == DiskLayout::Ext4,
        disk.ext4.separate_home,
        disk_plan(disk, swap, target) is Ok,
    ensures
        ({
            let plan = disk_plan(disk, swap, target)->Ok_0;
            let home = if target.len() > 0 && target.last() != '/' {
                target + "/home"@
            } else {
                target + "home"@
            };
            &&& home != target
            &&& exists|i: int, n: nat|
                #![trigger plan[i], partition_path(disk.device@, n)]
                0 <= i && i + 4 < plan.len() && plan[i] == step_of(
                    "Mount ext4 root filesystem"@,
                    "mount"@,
                    seq![partition_path(disk.device@, n), target],
                ) && plan[i + 3] == step_of(
                    "Create target home mountpoint"@,
                    "mkdir"@,
                    seq!["-p"@, home],
                ) && plan[i + 4] == step_of(
                    "Mount ext4 home filesystem"@,
                    "mount"@,
                    seq![partition_path(disk.device@, n + 1), home],
                )
        }),
{
    let device = disk.device@;
    let plan = disk_plan(disk, swap, target)->Ok_0;
    let home = if target.len() > 0 && target.last() != '/' {
        target + "/home"@
    } else {
        target + "home"@
    };
    reveal_strlit("home");
    reveal_strlit("/home");
    reveal_strlit("/");
    assert(home.len() > target.len());
    assert(join_path(target, "home"@) =~= home);
    let head = disk_head_rows(disk);
    let lr = layout_rows(disk, swap, target)->Ok_0;
    let n: nat = if swap.disk is Some {
        3
    } else {
        2
    };
    let pre: Seq<StepView> = if swap.disk is Some {
        seq![swap_partition_row(device, 2, swap.disk->Some_0.size)]
    } else {
        Seq::empty()
    };
    let ext = ext4_rows(disk, target, device, n);
    assert(lr.0 == pre + ext);
    let rest = efi_rows(disk, target) + swap_rows(lr.1);
    assert(plan == head + lr.0 + rest);
    let part = ext4_partition_rows(disk, device, n);
    let rr = reread_rows(device);
    let root = ext4_root_rows(target, partition_path(device, n));
    let hr = ext4_home_rows(target, partition_path(device, n + 1));
    assert(ext == part + rr + root + hr);
    assert(part.len() == 2);
    let i: int = (head.len() + pre.len() + 7) as int;
    assert(ext[7] == root[3]);
    assert(ext[10] == hr[2]);
    assert(ext[11] == hr[3]);
    assert(plan[i] == ext[7]);
    assert(plan[i + 3] == ext[10]);
    assert(plan[i + 4] == ext[11]);
}

} // verus!
