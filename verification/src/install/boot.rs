//! Boot configuration text and the kernel version an install boots.
use vstd::prelude::*;

use crate::disk::{dataset_name_check, zfs_dataset_name};
use crate::kernel_cmdline::{cmdline_values, ResolvedKernelCmdline};
use crate::manifest::{Disk, DiskLayout, ZfsDataset};
use crate::package_check::{lex_lt, seq_lt};
use crate::text::{
    sviews, chars_of, join, join_chars, push_chars, push_str, str_starts_with, string_of, trim, trim_str,
    vviews,
};

verus! {

/// The systemd-boot loader settings an install writes.
pub const SYSTEMD_BOOT_LOADER_CONF: &'static str = "default oxys.conf\ntimeout 3\neditor no\n";

/// The GRUB configuration for a kernel and initramfs copied onto the ESP,
/// found again by the ESP's filesystem UUID.
pub open spec fn grub_config_text(esp_uuid: Seq<char>, options: Seq<char>, has_initramfs: bool) -> Seq<char> {
    join(
        seq![
            "# generated by oxys - do not edit manually"@,
            "set timeout=3"@,
            "set default=0"@,
            Seq::empty(),
            "menuentry \"Oxys\" {"@,
            "    search --no-floppy --fs-uuid --set=root "@ + esp_uuid,
            "    linux /EFI/oxys/vmlinuz "@ + options,
        ] + (if has_initramfs {
            seq!["    initrd /EFI/oxys/initramfs.img"@]
        } else {
            Seq::empty()
        }) + seq!["}"@, Seq::empty()],
        "\n"@,
    )
}

fn line(s: &str) -> (r: Vec<char>)
    ensures
        r@ == s@,
{
    chars_of(s)
}

fn prefixed(p: &str, s: &str) -> (r: Vec<char>)
    ensures
        r@ == p@ + s@,
{
    let mut v = chars_of(p);
    push_str(&mut v, s);
    v
}

pub fn render_grub_config(esp_uuid: &str, options: &str, has_initramfs: bool) -> (r: String)
    ensures
        r@ == grub_config_text(esp_uuid@, options@, has_initramfs),
{
    let mut lines: Vec<Vec<char>> = Vec::new();
    lines.push(line("# generated by oxys - do not edit manually"));
    lines.push(line("set timeout=3"));
    lines.push(line("set default=0"));
    lines.push(Vec::new());
    lines.push(line("menuentry \"Oxys\" {"));
    lines.push(prefixed("    search --no-floppy --fs-uuid --set=root ", esp_uuid));
    lines.push(prefixed("    linux /EFI/oxys/vmlinuz ", options));
    if has_initramfs {
        lines.push(line("    initrd /EFI/oxys/initramfs.img"));
    }
    lines.push(line("}"));
    lines.push(Vec::new());
    let ghost expected = seq![
        "# generated by oxys - do not edit manually"@,
        "set timeout=3"@,
        "set default=0"@,
        Seq::<char>::empty(),
        "menuentry \"Oxys\" {"@,
        "    search --no-floppy --fs-uuid --set=root "@ + esp_uuid@,
        "    linux /EFI/oxys/vmlinuz "@ + options@,
    ] + (if has_initramfs {
        seq!["    initrd /EFI/oxys/initramfs.img"@]
    } else {
        Seq::<Seq<char>>::empty()
    }) + seq!["}"@, Seq::<char>::empty()];
    assert(vviews(lines@) =~= expected);
    let j = join_chars(&lines, "\n");
    string_of(&j)
}

/// The systemd-boot entry for the kernel on the ESP; the initrd line only
/// when an initramfs was copied there.
pub open spec fn systemd_boot_entry_text(options: Seq<char>, has_initramfs: bool) -> Seq<char> {
    "title Oxys\nlinux /EFI/oxys/vmlinuz\n"@ + (if has_initramfs {
        "initrd /EFI/oxys/initramfs.img\n"@
    } else {
        Seq::empty()
    }) + "options "@ + options + "\n"@
}

pub fn render_systemd_boot_entry(options: &str, has_initramfs: bool) -> (r: String)
    ensures
        r@ == systemd_boot_entry_text(options@, has_initramfs),
{
    let mut v = chars_of("title Oxys\nlinux /EFI/oxys/vmlinuz\n");
    if has_initramfs {
        push_str(&mut v, "initrd /EFI/oxys/initramfs.img\n");
    }
    push_str(&mut v, "options ");
    push_str(&mut v, options);
    push_str(&mut v, "\n");
    string_of(&v)
}

/// The first dataset of `pool` (trimmed) mounted at `/` (trimmed).
pub open spec fn root_dataset_at(ds: Seq<ZfsDataset>, pool: Seq<char>, i: int) -> bool {
    0 <= i < ds.len() && trim(ds[i].pool@) == trim(pool) && trim(ds[i].mount@) == "/"@
        && forall|k: int|
        0 <= k < i ==> !(trim(ds[k].pool@) == trim(pool) && trim(#[trigger] ds[k].mount@) == "/"@)
}

/// Why a boot entry cannot be written for a disk.
#[derive(Debug, Clone, PartialEq, Eq)]
pub enum BootOptionsError {
    /// The root pool has no dataset mounted at `/`.
    NoRootDataset,
    /// The root dataset's name is malformed.
    InvalidDataset(String),
    /// Neither ext4 nor ZFS.
    UnsupportedLayout(DiskLayout),
}

/// The kernel options of the boot entry: the root filesystem (by UUID for
/// ext4, by dataset for ZFS), `rw`, then the resolved kernel arguments.
pub open spec fn boot_options_text(disk: Disk, root_uuid: Seq<char>, args: Seq<Seq<char>>) -> Result<Seq<char>, BootOptionsError> {
    match disk.layout {
        DiskLayout::Ext4 => Ok(join(seq!["root=UUID="@ + root_uuid, "rw"@] + args, " "@)),
        DiskLayout::Zfs => if exists|i: int| root_dataset_at(disk.zfs.datasets@, disk.zfs.pool@, i) {
            let i = choose|i: int| root_dataset_at(disk.zfs.datasets@, disk.zfs.pool@, i);
            match dataset_name_check(disk.zfs.datasets@[i].name@) {
                Ok(n) => Ok(join(seq!["root=ZFS="@ + disk.zfs.pool@ + "/"@ + n, "rw"@] + args, " "@)),
                Err(_) => Err(BootOptionsError::InvalidDataset(disk.zfs.datasets@[i].name)),
            }
        } else {
            Err(BootOptionsError::NoRootDataset)
        },
        _ => Err(BootOptionsError::UnsupportedLayout(disk.layout)),
    }
}

fn find_root_dataset(ds: &Vec<ZfsDataset>, pool: &str) -> (r: Option<usize>)
    ensures
        match r {
            Some(i) => root_dataset_at(ds@, pool@, i as int),
            None => !exists|i: int| root_dataset_at(ds@, pool@, i),
        },
{
    let p = trim_str(pool);
    let slash = chars_of("/");
    let mut i: usize = 0;
    while i < ds.len()
        invariant
            i <= ds.len(),
            p@ == trim(pool@),
            slash@ == "/"@,
            forall|k: int|
                0 <= k < i ==> !(trim(ds@[k].pool@) == trim(pool@) && trim(#[trigger] ds@[k].mount@)
                    == "/"@),
        decreases ds.len() - i,
    {
        let dp = trim_str(ds[i].pool.as_str());
        let dm = trim_str(ds[i].mount.as_str());
        if crate::text::seq_eq(&dp, &p) && crate::text::seq_eq(&dm, &slash) {
            return Some(i);
        }
        i = i + 1;
    }
    proof {
        assert forall|j: int| !root_dataset_at(ds@, pool@, j) by {
            if 0 <= j < ds@.len() {
                assert(!(trim(ds@[j].pool@) == trim(pool@) && trim(ds@[j].mount@) == "/"@));
            }
        }
    }
    None
}

/// The argument values of a merged command line, as strings.
pub fn cmdline_strings(k: &ResolvedKernelCmdline) -> (r: Vec<String>)
    ensures
        sviews(r@) == cmdline_values(*k),
{
    let vs = k.values();
    let mut out: Vec<String> = Vec::new();
    let mut i: usize = 0;
    while i < vs.len()
        invariant
            i <= vs.len(),
            vs@.len() == k.args@.len(),
            forall|j: int| 0 <= j < vs@.len() ==> #[trigger] vs@[j]@ == k.args@[j].value@,
            sviews(out@) == cmdline_values(*k).subrange(0, i as int),
        decreases vs.len() - i,
    {
        let ghost before = sviews(out@);
        out.push(crate::text::owned(vs[i]));
        i = i + 1;
        assert(sviews(out@) =~= before.push(k.args@[i - 1].value@));
        assert(cmdline_values(*k).subrange(0, i as int) =~= cmdline_values(*k).subrange(0, i - 1).push(
            k.args@[i - 1].value@,
        ));
    }
    assert(cmdline_values(*k).subrange(0, vs.len() as int) =~= cmdline_values(*k));
    out
}

fn options_with(first: Vec<char>, args: &Vec<String>) -> (r: String)
    ensures
        r@ == join(seq![first@, "rw"@] + sviews(args@), " "@),
{
    let ghost f = first@;
    let mut parts: Vec<Vec<char>> = Vec::new();
    parts.push(first);
    parts.push(chars_of("rw"));
    let mut i: usize = 0;
    assert(vviews(parts@) =~= seq![f, "rw"@] + sviews(args@).subrange(0, 0));
    while i < args.len()
        invariant
            i <= args.len(),
            vviews(parts@) == seq![f, "rw"@] + sviews(args@).subrange(0, i as int),
        decreases args.len() - i,
    {
        let ghost before = vviews(parts@);
        parts.push(chars_of(args[i].as_str()));
        i = i + 1;
        assert(vviews(parts@) =~= before.push(args@[i - 1]@));
        assert(sviews(args@).subrange(0, i as int) =~= sviews(args@).subrange(0, i - 1).push(
            args@[i - 1]@,
        ));
    }
    assert(sviews(args@).subrange(0, args.len() as int) =~= sviews(args@));
    let j = join_chars(&parts, " ");
    string_of(&j)
}

/// The kernel options of the install's boot entry. `root_uuid` is the
/// filesystem UUID of the ext4 root partition (unused for ZFS).
pub fn boot_options(disk: &Disk, root_uuid: &str, cmdline: &ResolvedKernelCmdline) -> (r: Result<
    String,
    BootOptionsError,
>)
    ensures
        match r {
            Ok(s) => boot_options_text(*disk, root_uuid@, cmdline_values(*cmdline)) == Ok::<
                Seq<char>,
                BootOptionsError,
            >(s@),
            Err(e) => boot_options_text(*disk, root_uuid@, cmdline_values(*cmdline)) == Err::<
                Seq<char>,
                BootOptionsError,
            >(e),
        },
{
    let values = cmdline_strings(cmdline);
    match disk.layout {
        DiskLayout::Ext4 => {
            let mut first = chars_of("root=UUID=");
            push_str(&mut first, root_uuid);
            Ok(options_with(first, &values))
        },
        DiskLayout::Zfs => {
            match find_root_dataset(&disk.zfs.datasets, disk.zfs.pool.as_str()) {
                None => Err(BootOptionsError::NoRootDataset),
                Some(i) => {
                    proof {
                        let j = choose|j: int|
                            root_dataset_at(disk.zfs.datasets@, disk.zfs.pool@, j);
                        if j < i {
                            assert(!(trim(disk.zfs.datasets@[j].pool@) == trim(disk.zfs.pool@)
                                && trim(disk.zfs.datasets@[j].mount@) == "/"@));
                        } else if i < j {
                            assert(!(trim(disk.zfs.datasets@[i as int].pool@) == trim(disk.zfs.pool@)
                                && trim(disk.zfs.datasets@[i as int].mount@) == "/"@));
                        }
                    }
                    match zfs_dataset_name(disk.zfs.datasets[i].name.as_str()) {
                        Err(_) => Err(BootOptionsError::InvalidDataset(disk.zfs.datasets[i].name.clone())),
                        Ok(n) => {
                            let mut first = chars_of("root=ZFS=");
                            push_str(&mut first, disk.zfs.pool.as_str());
                            push_str(&mut first, "/");
                            push_chars(&mut first, &n);
                            Ok(options_with(first, &values))
                        },
                    }
                },
            }
        },
        _ => Err(BootOptionsError::UnsupportedLayout(disk.layout)),
    }
}

/// The greatest name, character by character.
pub open spec fn greatest_name(names: Seq<Seq<char>>) -> Option<Seq<char>>
    decreases names.len(),
{
    if names.len() == 0 {
        None
    } else {
        match greatest_name(names.drop_last()) {
            Some(m) => if seq_lt(m, names.last()) {
                Some(names.last())
            } else {
                Some(m)
            },
            None => Some(names.last()),
        }
    }
}

/// The kernel version an install boots: the suffix of the newest
/// `vmlinuz-<version>` image, else the greatest `lib/modules` directory name.
pub open spec fn kernel_version_of(newest_kernel: Option<Seq<char>>, module_dirs: Seq<Seq<char>>) -> Option<Seq<char>> {
    match newest_kernel {
        Some(k) if crate::text::starts_with(k, "vmlinuz-"@) => Some(k.subrange(8, k.len() as int)),
        _ => greatest_name(module_dirs),
    }
}

/// `newest_kernel` is the file name of the newest `vmlinuz*` file under the
/// source image's `boot`, `module_dirs` the directory names under its
/// `lib/modules`.
pub fn kernel_version_from(newest_kernel: Option<&str>, module_dirs: &Vec<String>) -> (r: Option<String>)
    ensures
        match r {
            Some(v) => kernel_version_of(
                match newest_kernel {
                    Some(k) => Some(k@),
                    None => None,
                },
                crate::text::sviews(module_dirs@),
            ) == Some(v@),
            None => kernel_version_of(
                match newest_kernel {
                    Some(k) => Some(k@),
                    None => None,
                },
                crate::text::sviews(module_dirs@),
            ) is None,
        },
{
    match newest_kernel {
        Some(k) => {
            if str_starts_with(k, "vmlinuz-") {
                proof {
                    reveal_strlit("vmlinuz-");
                }
                let kc = chars_of(k);
                let rest = crate::text::slice(&kc, 8, kc.len());
                return Some(string_of(&rest));
            }
        },
        None => {},
    }
    let ghost names = crate::text::sviews(module_dirs@);
    let mut best: Option<Vec<char>> = None;
    let mut i: usize = 0;
    while i < module_dirs.len()
        invariant
            i <= module_dirs.len(),
            names == crate::text::sviews(module_dirs@),
            match best {
                Some(b) => greatest_name(names.subrange(0, i as int)) == Some(b@),
                None => greatest_name(names.subrange(0, i as int)) is None,
            },
        decreases module_dirs.len() - i,
    {
        let c = chars_of(module_dirs[i].as_str());
        let ghost prev = names.subrange(0, i as int);
        proof {
            assert(names.subrange(0, i + 1).drop_last() =~= prev);
            assert(names.subrange(0, i + 1).last() == c@);
        }
        best = match best {
            None => Some(c),
            Some(b) => if lex_lt(&b, &c) {
                Some(c)
            } else {
                Some(b)
            },
        };
        i = i + 1;
    }
    assert(names.subrange(0, module_dirs.len() as int) =~= names);
    match best {
        Some(b) => Some(string_of(&b)),
        None => None,
    }
}

} // verus!

verus! {

/// The GRUB configuration of a ZFS install: GRUB loads its `zfs` module,
/// re-roots at the boot pool by its filesystem UUID, and boots the kernel
/// and initramfs by their paths relative to that pool.
pub open spec fn zfs_grub_config_text(
    boot_uuid: Seq<char>,
    kernel_path: Seq<char>,
    options: Seq<char>,
    initramfs_path: Option<Seq<char>>,
) -> Seq<char> {
    join(
        seq![
            "# generated by oxys - do not edit manually"@,
            "insmod zfs"@,
            "set timeout=3"@,
            "set default=0"@,
            Seq::empty(),
            "menuentry \"Oxys\" {"@,
            "    search --no-floppy --fs-uuid --set=root "@ + boot_uuid,
            "    linux "@ + kernel_path + " "@ + options,
        ] + (match initramfs_path {
            Some(p) => seq!["    initrd "@ + p],
            None => Seq::empty(),
        }) + seq!["}"@, Seq::empty()],
        "\n"@,
    )
}

pub fn render_zfs_grub_config(boot_uuid: &str, kernel_path: &str, options: &str, initramfs_path: Option<&str>) -> (r:
    String)
    ensures
        r@ == zfs_grub_config_text(
            boot_uuid@,
            kernel_path@,
            options@,
            match initramfs_path {
                Some(p) => Some(p@),
                None => None,
            },
        ),
{
    let mut lines: Vec<Vec<char>> = Vec::new();
    lines.push(line("# generated by oxys - do not edit manually"));
    lines.push(line("insmod zfs"));
    lines.push(line("set timeout=3"));
    lines.push(line("set default=0"));
    lines.push(Vec::new());
    lines.push(line("menuentry \"Oxys\" {"));
    lines.push(prefixed("    search --no-floppy --fs-uuid --set=root ", boot_uuid));
    let mut linux = prefixed("    linux ", kernel_path);
    push_str(&mut linux, " ");
    push_str(&mut linux, options);
    lines.push(linux);
    match initramfs_path {
        Some(p) => lines.push(prefixed("    initrd ", p)),
        None => {},
    }
    lines.push(line("}"));
    lines.push(Vec::new());
    let ghost expected = seq![
        "# generated by oxys - do not edit manually"@,
        "insmod zfs"@,
        "set timeout=3"@,
        "set default=0"@,
        Seq::<char>::empty(),
        "menuentry \"Oxys\" {"@,
        "    search --no-floppy --fs-uuid --set=root "@ + boot_uuid@,
        "    linux "@ + kernel_path@ + " "@ + options@,
    ] + (match initramfs_path {
        Some(p) => seq!["    initrd "@ + p@],
        None => Seq::<Seq<char>>::empty(),
    }) + seq!["}"@, Seq::<char>::empty()];
    assert(vviews(lines@) =~= expected);
    let j = join_chars(&lines, "\n");
    string_of(&j)
}

/// `dracut --force --kver <kver> --add zfs [--add-drivers "<drivers>"]
/// /boot/initramfs-<kver>.img`, run inside the target.
pub open spec fn initramfs_args_of(kver: Seq<char>, drivers: Seq<Seq<char>>) -> Seq<Seq<char>> {
    seq!["dracut"@, "--force"@, "--kver"@, kver, "--add"@, "zfs"@] + (if drivers.len() > 0 {
        seq!["--add-drivers"@, join(drivers, " "@)]
    } else {
        Seq::empty()
    }) + seq!["/boot/initramfs-"@ + kver + ".img"@]
}

pub fn initramfs_args(kver: &str, drivers: &Vec<String>) -> (r: Vec<String>)
    ensures
        sviews(r@) == initramfs_args_of(kver@, sviews(drivers@)),
{
    let mut args: Vec<String> = Vec::new();
    args.push("dracut".to_owned());
    args.push("--force".to_owned());
    args.push("--kver".to_owned());
    args.push(kver.to_owned());
    args.push("--add".to_owned());
    args.push("zfs".to_owned());
    if drivers.len() > 0 {
        args.push("--add-drivers".to_owned());
        args.push(string_of(&crate::text::join_strings(drivers, " ")));
    }
    let mut p = chars_of("/boot/initramfs-");
    push_str(&mut p, kver);
    push_str(&mut p, ".img");
    args.push(string_of(&p));
    assert(sviews(args@) =~= initramfs_args_of(kver@, sviews(drivers@)));
    args
}

} // verus!
