use oxys::disk::DiskError;
use oxys::install::boot::{initramfs_args, render_zfs_grub_config};
use oxys::manifest::{Disk, ResolvedSwap, GB};
use oxys::preflight::{
    mount_entries, preflight_with_swap, swap_entries, DeviceProbe, MountedSource, SwapSource,
};
use oxys::preflight::preflight;
use oxys::install::host::release_target_mounts;
use oxys::package_check::{PackageIndex, RepoCache};
use oxys::detect::detect_cpu_count;

fn no_swap() -> ResolvedSwap {
    ResolvedSwap { zram: None, disk: None, swappiness: 60 }
}

fn probe() -> DeviceProbe {
    DeviceProbe {
        exists: true,
        is_block_device: true,
        canonical: "/dev/sda".to_owned(),
        sys_name: Some("sda".to_owned()),
        read_only: false,
        mounts: Vec::new(),
        swaps: Vec::new(),
        holders: Vec::new(),
        size: 64 * GB,
    }
}

fn sda() -> Disk {
    Disk { device: "/dev/sda".to_owned(), ..Disk::default() }
}

fn busy(reason: &str) -> DiskError {
    DiskError::DeviceBusy { device: "/dev/sda".to_owned(), reason: reason.to_owned() }
}

#[test]
fn preflight_rejects_missing_device() {
    let disk = Disk { device: "/dev/oxys-definitely-missing-disk".to_owned(), ..Disk::default() };
    let p = DeviceProbe { exists: false, ..probe() };
    let err = preflight_with_swap(&disk, &no_swap(), &p).expect_err("missing device");
    assert!(matches!(err, DiskError::DeviceMissing(_)));
}

#[test]
fn preflight_rejects_empty_device() {
    let err = preflight_with_swap(&Disk::default(), &no_swap(), &probe()).expect_err("empty");
    assert!(matches!(err, DiskError::MissingDevice));
}

#[test]
fn an_idle_large_whole_disk_passes() {
    assert_eq!(preflight_with_swap(&sda(), &no_swap(), &probe()), Ok(()));
    let padded = Disk { device: "  /dev/sda ".to_owned(), ..Disk::default() };
    assert_eq!(preflight_with_swap(&padded, &no_swap(), &probe()), Ok(()));
}

#[test]
fn partitions_and_read_only_disks_are_refused() {
    let p = DeviceProbe { is_block_device: false, ..probe() };
    assert_eq!(preflight_with_swap(&sda(), &no_swap(), &p), Err(DiskError::NotBlockDevice("/dev/sda".to_owned())));
    let p = DeviceProbe { sys_name: None, canonical: "/dev/sda2".to_owned(), ..probe() };
    assert_eq!(
        preflight_with_swap(&sda(), &no_swap(), &p),
        Err(busy("could not resolve /dev/sda2 to a /sys/block entry (is it a whole disk?)"))
    );
    let p = DeviceProbe { read_only: true, ..probe() };
    assert_eq!(
        preflight_with_swap(&sda(), &no_swap(), &p),
        Err(busy("disk is read-only (hardware write-protect or firmware lock)"))
    );
}

#[test]
fn a_mounted_partition_blocks_the_wipe() {
    let p = DeviceProbe {
        mounts: vec![
            MountedSource { source: "proc".to_owned(), target: "/proc".to_owned(), canonical: None },
            MountedSource { source: "/dev/sda1".to_owned(), target: "/boot".to_owned(), canonical: None },
            MountedSource { source: "/dev/sda2".to_owned(), target: "/".to_owned(), canonical: None },
        ],
        ..probe()
    };
    assert_eq!(preflight_with_swap(&sda(), &no_swap(), &p), Err(busy("mounted at /boot (source /dev/sda1)")));
}

#[test]
fn sources_are_matched_after_resolving_symlinks() {
    let p = DeviceProbe {
        swaps: vec![SwapSource {
            source: "/dev/disk/by-uuid/abcd".to_owned(),
            canonical: Some("/dev/sda3".to_owned()),
        }],
        ..probe()
    };
    assert_eq!(preflight_with_swap(&sda(), &no_swap(), &p), Err(busy("active swap on /dev/disk/by-uuid/abcd")));
    let other = DeviceProbe {
        swaps: vec![SwapSource { source: "/dev/sdb1".to_owned(), canonical: Some("/dev/sdb1".to_owned()) }],
        ..probe()
    };
    assert_eq!(preflight_with_swap(&sda(), &no_swap(), &other), Ok(()));
}

#[test]
fn kernel_holders_are_listed_sorted_and_once() {
    let p = DeviceProbe { holders: vec!["md0".to_owned(), "dm-1".to_owned(), "md0".to_owned()], ..probe() };
    assert_eq!(
        preflight_with_swap(&sda(), &no_swap(), &p),
        Err(busy("in use by kernel holder(s): dm-1, md0 (deactivate LVM/RAID/LUKS/multipath first)"))
    );
}

#[test]
fn a_small_disk_is_refused_with_both_sizes() {
    let p = DeviceProbe { size: 8 * GB, ..probe() };
    match preflight_with_swap(&sda(), &no_swap(), &p) {
        Err(DiskError::DeviceTooSmall { device, have, need }) => {
            assert_eq!(device, "/dev/sda");
            assert_eq!(have, "8.0 GiB");
            assert!(need.ends_with(" GiB"));
        }
        other => panic!("unexpected outcome: {other:?}"),
    }
}

#[test]
fn proc_mounts_and_swaps_are_read_by_field() {
    let mounts = mount_entries("/dev/sda2 / ext4 rw 0 0\nproc /proc proc rw 0 0\n\nlonely\n");
    assert_eq!(
        mounts,
        vec![("/dev/sda2".to_owned(), "/".to_owned()), ("proc".to_owned(), "/proc".to_owned())]
    );
    let swaps = swap_entries(
        "Filename\tType\tSize\tUsed\tPriority\n/dev/sda3 partition 8388604 0 -2\n/dev/zram0 partition 4194300 0 100\n",
    );
    assert_eq!(swaps, vec!["/dev/sda3".to_owned(), "/dev/zram0".to_owned()]);
    assert!(swap_entries("Filename Type Size Used Priority").is_empty());
}

#[test]
fn zfs_grub_config_boots_from_the_boot_pool() {
    let with_initramfs = render_zfs_grub_config(
        "4f2c",
        "/@/vmlinuz-6.6.30",
        "root=ZFS=rpool/ROOT/oxys rw",
        Some("/@/initramfs-6.6.30.img"),
    );
    assert_eq!(
        with_initramfs,
        "# generated by oxys - do not edit manually\ninsmod zfs\nset timeout=3\nset default=0\n\nmenuentry \"Oxys\" {\n    search --no-floppy --fs-uuid --set=root 4f2c\n    linux /@/vmlinuz-6.6.30 root=ZFS=rpool/ROOT/oxys rw\n    initrd /@/initramfs-6.6.30.img\n}\n"
    );
    let without = render_zfs_grub_config("4f2c", "/@/vmlinuz", "rw", None);
    assert!(!without.contains("initrd"));
    assert!(without.ends_with("    linux /@/vmlinuz rw\n}\n"));
}

#[test]
fn zfs_initramfs_is_built_with_dracut_and_the_resolved_drivers() {
    assert_eq!(
        initramfs_args("6.6.30", &vec!["nvidia".to_owned(), "i915".to_owned()]),
        vec!["dracut", "--force", "--kver", "6.6.30", "--add", "zfs", "--add-drivers", "nvidia i915", "/boot/initramfs-6.6.30.img"]
    );
    assert_eq!(
        initramfs_args("6.6.30", &Vec::new()),
        vec!["dracut", "--force", "--kver", "6.6.30", "--add", "zfs", "/boot/initramfs-6.6.30.img"]
    );
}

#[test]
fn a_disk_alone_is_checked_with_its_default_swap() {
    assert_eq!(preflight(&sda(), 16 * GB, &probe()), Ok(()));
    let p = DeviceProbe { size: 8 * GB, ..probe() };
    assert!(matches!(preflight(&sda(), 16 * GB, &p), Err(DiskError::DeviceTooSmall { .. })));
}

#[test]
fn target_mounts_are_released_recursively_then_lazily() {
    let (first, fallback) = release_target_mounts("/mnt/oxys");
    assert_eq!(first.program, "umount");
    assert_eq!(first.args, vec!["-R".to_owned(), "/mnt/oxys".to_owned()]);
    assert_eq!(fallback.args, vec!["-Rl".to_owned(), "/mnt/oxys".to_owned()]);
}

#[test]
fn package_index_loads_every_repository_cache() {
    assert!(PackageIndex::load(&Vec::new()).is_none());
    let repos = vec![
        RepoCache {
            categories: vec![
                ("app-editors".to_owned(), vec!["vim-9.1.0-r1".to_owned(), "neovim-0.10.2".to_owned()]),
                ("gui-wm".to_owned(), vec!["niri-25.02".to_owned()]),
            ],
        },
        RepoCache { categories: vec![("app-editors".to_owned(), vec!["vim-9.0".to_owned()])] },
    ];
    let index = PackageIndex::load(&repos).expect("repositories found");
    assert!(index.contains("app-editors", "vim"));
    assert!(index.contains("app-editors", "neovim"));
    assert!(index.contains("gui-wm", "niri"));
    assert!(!index.contains("gui-wm", "sway"));
}

#[test]
fn cpu_count_falls_back_to_one() {
    assert_eq!(detect_cpu_count(Some("0-3,8-11\n")), 8);
    assert_eq!(detect_cpu_count(Some("garbage")), 1);
    assert_eq!(detect_cpu_count(None), 1);
}
