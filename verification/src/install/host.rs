//! Host-side commands around a system install: the target's partitions, the
//! pseudo filesystems bound into it, and the teardown once it is written.
use vstd::prelude::*;

use crate::disk::{command, partition_path, partition_path_of, push_step, under};
use crate::exec::{step_of, step_view, step_views, CommandStep, StepView};
use crate::install::steps::tpath;
use crate::manifest::{Disk, DiskLayout, InitSystem, ResolvedSwap};
use crate::text::{chars_of, push_chars, push_str, string_of, sviews, trim, trim_str};

verus! {

/// The partitions an install writes to, by device path.
#[derive(Debug, Clone, PartialEq, Eq)]
pub struct PartitionMap {
    pub efi: String,
    pub swap: Option<String>,
    pub root: String,
    pub home: Option<String>,
}

pub open spec fn opt_text(o: Option<String>) -> Option<Seq<char>> {
    match o {
        Some(s) => Some(s@),
        None => None,
    }
}

/// A partition map as plain values: ESP, swap, root, home.
pub open spec fn map_view(m: PartitionMap) -> (Seq<char>, Option<Seq<char>>, Seq<char>, Option<Seq<char>>) {
    (m.efi@, opt_text(m.swap), m.root@, opt_text(m.home))
}

/// The ESP is partition 1. On ZFS the boot pool takes 2, a disk swap 3 and
/// the root pool the next one; elsewhere a disk swap takes 2, the root the
/// next one, and a separate ext4 home the one after the root.
pub open spec fn partition_map(disk: Disk, swap: ResolvedSwap) -> (
    Seq<char>,
    Option<Seq<char>>,
    Seq<char>,
    Option<Seq<char>>,
) {
    let dev = disk.device@;
    let has_swap = swap.disk is Some;
    if disk.layout is Zfs {
        (
            partition_path(dev, 1),
            if has_swap {
                Some(partition_path(dev, 3))
            } else {
                None
            },
            partition_path(dev, if has_swap { 4 } else { 3 }),
            None,
        )
    } else {
        let root_n: nat = if has_swap { 3 } else { 2 };
        (
            partition_path(dev, 1),
            if has_swap {
                Some(partition_path(dev, 2))
            } else {
                None
            },
            partition_path(dev, root_n),
            if disk.layout is Ext4 && disk.ext4.separate_home {
                Some(partition_path(dev, root_n + 1))
            } else {
                None
            },
        )
    }
}

fn part(device: &str, number: usize) -> (r: String)
    ensures
        r@ == partition_path(device@, number as nat),
{
    string_of(&partition_path_of(device, number))
}

impl PartitionMap {
    /// The partitions `plan_disk` creates for this disk and swap.
    pub fn from_disk_with_swap(disk: &Disk, resolved_swap: &ResolvedSwap) -> (r: Self)
        ensures
            map_view(r) == partition_map(*disk, *resolved_swap),
    {
        let dev = disk.device.as_str();
        let has_swap = resolved_swap.disk.is_some();
        let efi = part(dev, 1);
        match disk.layout {
            DiskLayout::Zfs => {
                let swap = if has_swap {
                    Some(part(dev, 3))
                } else {
                    None
                };
                let root = part(dev, if has_swap { 4 } else { 3 });
                PartitionMap { efi, swap, root, home: None }
            },
            _ => {
                let root_n: usize = if has_swap { 3 } else { 2 };
                let swap = if has_swap {
                    Some(part(dev, 2))
                } else {
                    None
                };
                let separate = match disk.layout {
                    DiskLayout::Ext4 => disk.ext4.separate_home,
                    _ => false,
                };
                let home = if separate {
                    Some(part(dev, root_n + 1))
                } else {
                    None
                };
                PartitionMap { efi, swap, root: part(dev, root_n), home }
            },
        }
    }
}

// ---------------------------------------------------------------------------
// Pseudo filesystems.
// ---------------------------------------------------------------------------

pub open spec fn bind_rows(target: Seq<char>, source: Seq<char>, sub: Seq<char>) -> Seq<StepView> {
    let d = tpath(target, sub);
    let desc = "Mounting "@ + source + " to "@ + d;
    seq![
        step_of(desc, "mount"@, seq!["--rbind"@, source, d]),
        step_of(desc, "mount"@, seq!["--make-rslave"@, d]),
    ]
}

/// `/dev`, `/sys`, `/proc` and `/run` bound recursively into the target and
/// made slaves, so the chroot steps see the host's devices.
pub open spec fn bind_mount_rows(target: Seq<char>) -> Seq<StepView> {
    bind_rows(target, "/dev"@, "dev"@) + bind_rows(target, "/sys"@, "sys"@) + bind_rows(
        target,
        "/proc"@,
        "proc"@,
    ) + bind_rows(target, "/run"@, "run"@)
}

fn push_bind(steps: &mut Vec<CommandStep>, target: &str, source: &str, sub: &str)
    ensures
        step_views(final(steps)@) == step_views(old(steps)@) + bind_rows(target@, source@, sub@),
{
    let ghost before = step_views(steps@);
    let d = under(target, sub);
    let mut desc = chars_of("Mounting ");
    push_str(&mut desc, source);
    push_str(&mut desc, " to ");
    push_str(&mut desc, d.as_str());
    let ds = string_of(&desc);
    let mut a1: Vec<String> = Vec::new();
    a1.push("--rbind".to_owned());
    a1.push(source.to_owned());
    a1.push(d.clone());
    let mut a2: Vec<String> = Vec::new();
    a2.push("--make-rslave".to_owned());
    a2.push(d.clone());
    proof {
        assert(sviews(a1@) =~= seq!["--rbind"@, source@, d@]);
        assert(sviews(a2@) =~= seq!["--make-rslave"@, d@]);
    }
    push_step(steps, command(ds.as_str(), "mount", a1));
    push_step(steps, command(ds.as_str(), "mount", a2));
    assert(step_views(steps@) =~= before + bind_rows(target@, source@, sub@));
}

/// The commands that bind the host's pseudo filesystems into the target.
pub fn bind_mount_commands(target_mount: &str) -> (r: Vec<CommandStep>)
    ensures
        step_views(r@) == bind_mount_rows(target_mount@),
{
    let mut steps: Vec<CommandStep> = Vec::new();
    assert(step_views(steps@) =~= Seq::<StepView>::empty());
    push_bind(&mut steps, target_mount, "/dev", "dev");
    push_bind(&mut steps, target_mount, "/sys", "sys");
    push_bind(&mut steps, target_mount, "/proc", "proc");
    push_bind(&mut steps, target_mount, "/run", "run");
    assert(step_views(steps@) =~= bind_mount_rows(target_mount@));
    steps
}

// ---------------------------------------------------------------------------
// Teardown.
// ---------------------------------------------------------------------------

pub open spec fn swapoff_rows(swap: Option<Seq<char>>) -> Seq<StepView> {
    match swap {
        Some(p) => seq![step_of("Disabling swap on "@ + p, "swapoff"@, seq![p])],
        None => seq![],
    }
}

pub open spec fn unmount_row(target: Seq<char>, sub: Seq<char>) -> StepView {
    let p = tpath(target, sub);
    step_of("Unmounting "@ + p, "umount"@, seq!["-R"@, p])
}

/// The pseudo filesystems, unmounted in the reverse of the order they were
/// bound.
pub open spec fn unmount_pseudo_rows(target: Seq<char>) -> Seq<StepView> {
    seq![
        unmount_row(target, "run"@),
        unmount_row(target, "proc"@),
        unmount_row(target, "sys"@),
        unmount_row(target, "dev"@),
    ]
}

pub open spec fn export_rows(pool: Seq<char>) -> Seq<StepView> {
    let p = trim(pool);
    if p.len() == 0 {
        seq![]
    } else {
        seq![step_of("Exporting ZFS pool "@ + p, "zpool"@, seq!["export"@, p])]
    }
}

/// Swap off, pseudo filesystems and the target unmounted, and on ZFS the
/// boot pool and the root pool exported (a blank pool name is skipped).
pub open spec fn finalize_rows(disk: Disk, swap: ResolvedSwap, target: Seq<char>) -> Seq<StepView> {
    swapoff_rows(partition_map(disk, swap).1) + unmount_pseudo_rows(target) + seq![
        step_of("Recursively unmounting target "@ + target, "umount"@, seq!["-R"@, target]),
    ] + if disk.layout is Zfs {
        export_rows(disk.zfs.boot_pool@) + export_rows(disk.zfs.pool@)
    } else {
        seq![]
    }
}

fn unmount_step(target: &str, sub: &str) -> (r: CommandStep)
    ensures
        step_view(r) == unmount_row(target@, sub@),
{
    let p = under(target, sub);
    let mut desc = chars_of("Unmounting ");
    push_str(&mut desc, p.as_str());
    let mut args: Vec<String> = Vec::new();
    args.push("-R".to_owned());
    args.push(p.clone());
    assert(sviews(args@) =~= seq!["-R"@, p@]);
    command(string_of(&desc).as_str(), "umount", args)
}

fn push_export(steps: &mut Vec<CommandStep>, pool: &str)
    ensures
        step_views(final(steps)@) == step_views(old(steps)@) + export_rows(pool@),
{
    let ghost before = step_views(steps@);
    let p = trim_str(pool);
    if p.len() == 0 {
        assert(step_views(steps@) =~= before + export_rows(pool@));
        return;
    }
    let ps = string_of(&p);
    let mut desc = chars_of("Exporting ZFS pool ");
    push_chars(&mut desc, &p);
    let mut args: Vec<String> = Vec::new();
    args.push("export".to_owned());
    args.push(ps);
    assert(sviews(args@) =~= seq!["export"@, p@]);
    push_step(steps, command(string_of(&desc).as_str(), "zpool", args));
    assert(step_views(steps@) =~= before + export_rows(pool@));
}

/// The teardown commands once the target is written. Each runs even when an
/// earlier one failed; the first failure is the one reported.
pub fn finalize_commands(disk: &Disk, resolved_swap: &ResolvedSwap, target_mount: &str) -> (r: Vec<CommandStep>)
    ensures
        step_views(r@) == finalize_rows(*disk, *resolved_swap, target_mount@),
{
    let parts = PartitionMap::from_disk_with_swap(disk, resolved_swap);
    let mut steps: Vec<CommandStep> = Vec::new();
    match &parts.swap {
        Some(p) => {
            let mut desc = chars_of("Disabling swap on ");
            push_str(&mut desc, p.as_str());
            let mut args: Vec<String> = Vec::new();
            args.push(p.clone());
            assert(sviews(args@) =~= seq![p@]);
            push_step(&mut steps, command(string_of(&desc).as_str(), "swapoff", args));
        },
        None => {},
    }
    assert(step_views(steps@) =~= swapoff_rows(partition_map(*disk, *resolved_swap).1));
    let ghost s1 = step_views(steps@);
    push_step(&mut steps, unmount_step(target_mount, "run"));
    push_step(&mut steps, unmount_step(target_mount, "proc"));
    push_step(&mut steps, unmount_step(target_mount, "sys"));
    push_step(&mut steps, unmount_step(target_mount, "dev"));
    assert(step_views(steps@) =~= s1 + unmount_pseudo_rows(target_mount@));
    let mut desc = chars_of("Recursively unmounting target ");
    push_str(&mut desc, target_mount);
    let mut args: Vec<String> = Vec::new();
    args.push("-R".to_owned());
    args.push(target_mount.to_owned());
    assert(sviews(args@) =~= seq!["-R"@, target_mount@]);
    push_step(&mut steps, command(string_of(&desc).as_str(), "umount", args));
    let ghost s2 = step_views(steps@);
    match disk.layout {
        DiskLayout::Zfs => {
            push_export(&mut steps, disk.zfs.boot_pool.as_str());
            push_export(&mut steps, disk.zfs.pool.as_str());
        },
        _ => {},
    }
    assert(step_views(steps@) =~= finalize_rows(*disk, *resolved_swap, target_mount@));
    steps
}

} // verus!

verus! {

/// Where a full systemd install keeps its service manager, relative to the
/// root; `sys-apps/systemd-utils` installs neither.
pub const SYSTEMD_MANAGER_PATH: &'static str = "usr/lib/systemd/systemd";

/// The same, on a root without the `/usr` merge.
pub const SYSTEMD_MANAGER_LEGACY_PATH: &'static str = "lib/systemd/systemd";

pub open spec fn init_mismatch_text(manager: Seq<char>) -> Seq<char> {
    "config sets init_system: Openrc, but the live source root has full sys-apps/systemd installed ("@ + manager
        + "). The install copies the live root verbatim, so the target would boot systemd, not OpenRC. Rebuild the ISO with USE=\"-systemd\" (mask sys-apps/systemd to surface whatever pulls it in), or set init_system: Systemd to match the medium."@
}

/// The live root is copied verbatim, so its init becomes the target's. An
/// OpenRC config is refused when the source carries a systemd service
/// manager (`manager`: its path, when one was found).
pub fn check_source_init(init_system: InitSystem, manager: Option<&str>) -> (r: Result<(), String>)
    ensures
        match (init_system, manager) {
            (InitSystem::Openrc, Some(p)) => r matches Err(m) && m@ == init_mismatch_text(p@),
            _ => r is Ok,
        },
{
    match (init_system, manager) {
        (InitSystem::Openrc, Some(p)) => {
            let mut v = chars_of(
                "config sets init_system: Openrc, but the live source root has full sys-apps/systemd installed (",
            );
            push_str(&mut v, p);
            push_str(
                &mut v,
                "). The install copies the live root verbatim, so the target would boot systemd, not OpenRC. Rebuild the ISO with USE=\"-systemd\" (mask sys-apps/systemd to surface whatever pulls it in), or set init_system: Systemd to match the medium.",
            );
            Err(string_of(&v))
        },
        _ => Ok(()),
    }
}

} // verus!

verus! {

/// Releasing the installer's own target mount after a failed run, so that a
/// second run is not stopped by the mounted-disk check: a recursive unmount,
/// and a recursive lazy detach to try when that fails (a lingering process
/// keeps the mount busy).
pub fn release_target_mounts(target_mount: &str) -> (r: (CommandStep, CommandStep))
    ensures
        step_view(r.0) == step_of(
            "Release target mounts"@,
            "umount"@,
            seq!["-R"@, target_mount@],
        ),
        step_view(r.1) == step_of(
            "Lazily detach busy target mounts"@,
            "umount"@,
            seq!["-Rl"@, target_mount@],
        ),
{
    let mut a: Vec<String> = Vec::new();
    a.push("-R".to_owned());
    a.push(target_mount.to_owned());
    assert(sviews(a@) =~= seq!["-R"@, target_mount@]);
    let mut b: Vec<String> = Vec::new();
    b.push("-Rl".to_owned());
    b.push(target_mount.to_owned());
    assert(sviews(b@) =~= seq!["-Rl"@, target_mount@]);
    (command("Release target mounts", "umount", a), command("Lazily detach busy target mounts", "umount", b))
}

} // verus!
