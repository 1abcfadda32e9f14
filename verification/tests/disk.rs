use oxys::disk::{
    format_bytes, is_partition_path, is_partition_sysfs_name, mib_of, mount_source_matches_device,
    partition_path_of, plan_disk, plan_disk_with_swap, required_install_bytes, check_disk_size,
    DiskError, MIN_INSTALL_BYTES,
};
use oxys::manifest::{
    Compression, Disk, DiskLayout, DiskPartitions, Encryption, Ext4Options, ResolvedDiskSwap,
    ResolvedSwap, ResolvedZram, SwapConfig, GB, MB,
};

const TARGET: &str = "/mnt/oxys";
const RAM: u64 = 8 * GB;

fn ext4_default_plan_text() -> String {
    let disk = Disk {
        device: "/dev/nvme0n1".to_owned(),
        ..Disk::default()
    };
    assert_eq!(disk.layout, DiskLayout::Ext4);
    plan_disk(&disk, TARGET, RAM).unwrap().render()
}

fn assert_ext4_default(rendered: &str) {
    assert!(rendered.contains("sgdisk -n 1:1M:+512M -t 1:ef00 /dev/nvme0n1"));
    assert!(rendered.contains("sgdisk -n 2:0:0 -t 2:8300 /dev/nvme0n1"));
    assert!(rendered.contains("mkfs.ext4 -F /dev/nvme0n1p2"));
    assert!(!rendered.contains("/dev/nvme0n1p3"));
    assert!(!rendered.contains("home"));
}

#[test]
fn disk_ext4_default_plan_is_whole_disk_single_root() {
    assert_ext4_default(&ext4_default_plan_text());
}

#[test]
fn mod_ext4_default_plan_is_whole_disk_single_root() {
    assert_ext4_default(&ext4_default_plan_text());
}

fn zfs_plan_text() -> String {
    let disk = Disk {
        device: "/dev/nvme0n1".to_owned(),
        layout: DiskLayout::Zfs,
        partitions: DiskPartitions {
            swap: SwapConfig::Partition { size: 8 * GB },
            ..DiskPartitions::default()
        },
        ..Disk::default()
    };
    plan_disk(&disk, TARGET, RAM).unwrap().render()
}

fn assert_zfs_plan(rendered: &str) {
    assert!(rendered.contains("zgenhostid"));
    assert!(rendered.contains("sgdisk -n 2:0:+2048M -t 2:bf00 /dev/nvme0n1"));
    assert!(rendered.contains("sgdisk -n 3:0:+8192M -t 3:8200 /dev/nvme0n1"));
    assert!(rendered.contains("sgdisk -n 4:0:0 -t 4:bf00 /dev/nvme0n1"));
    assert!(rendered.contains("zpool create -f -o ashift=12 -o autotrim=on -O compression=zstd -O acltype=posixacl -O xattr=sa -O atime=off -O normalization=formD -O dnodesize=auto -O canmount=off -O mountpoint=none -R /mnt/oxys rpool /dev/nvme0n1p4"));
    assert!(rendered.contains("zpool create -f -o compatibility=grub2 -o ashift=12 -o autotrim=on -O compression=lz4 -O acltype=posixacl -O xattr=sa -O devices=off -O atime=off -O canmount=off -O mountpoint=/boot -R /mnt/oxys bpool /dev/nvme0n1p2"));
    assert!(rendered.contains("zfs create -p -o mountpoint=/ -o canmount=noauto rpool/ROOT/os"));
    assert!(rendered.contains("zfs mount rpool/ROOT/os"));
    assert!(rendered.contains("zfs create -p -o mountpoint=/boot -o canmount=on bpool/BOOT/os"));
    assert!(rendered.contains(
        "zfs create -p -o mountpoint=/var/cache/distfiles -o canmount=on rpool/gentoo/distfiles"
    ));
    assert!(rendered.contains("zpool set bootfs=rpool/ROOT/os rpool"));
    assert!(rendered.contains("zpool set cachefile=/mnt/oxys/etc/zfs/zpool.cache rpool"));
    assert!(rendered.contains("zpool set cachefile=/mnt/oxys/etc/zfs/zpool.cache bpool"));
}

#[test]
fn disk_zfs_plan_uses_boot_pool_root_pool_and_nested_datasets() {
    assert_zfs_plan(&zfs_plan_text());
}

#[test]
fn mod_zfs_plan_uses_boot_pool_root_pool_and_nested_datasets() {
    assert_zfs_plan(&zfs_plan_text());
}

fn encrypted_disk_error() -> DiskError {
    let disk = Disk {
        device: "/dev/testdisk".to_owned(),
        layout: DiskLayout::Ext4,
        encryption: Encryption::Password,
        ..Disk::default()
    };
    plan_disk(&disk, TARGET, RAM).expect_err("plan should fail")
}

#[test]
fn disk_plan_disk_refuses_encryption_until_luks_is_wired() {
    assert!(matches!(
        encrypted_disk_error(),
        DiskError::UnsupportedEncryption(Encryption::Password)
    ));
}

#[test]
fn mod_plan_disk_refuses_encryption_until_luks_is_wired() {
    assert!(matches!(
        encrypted_disk_error(),
        DiskError::UnsupportedEncryption(Encryption::Password)
    ));
}

#[test]
fn hybrid_swap_adds_one_disk_partition() {
    let disk = Disk {
        device: "/dev/nvme0n1".to_owned(),
        ..Disk::default()
    };
    let swap = ResolvedSwap {
        zram: Some(ResolvedZram {
            size: 8 * GB,
            algorithm: Compression::Zstd,
            priority: 100,
        }),
        disk: Some(ResolvedDiskSwap {
            size: 4 * GB,
            priority: 10,
        }),
        swappiness: 180,
    };
    let rendered = plan_disk_with_swap(&disk, &swap, TARGET).unwrap().render();
    assert!(rendered.contains("sgdisk -n 2:0:+4096M -t 2:8200 /dev/nvme0n1"));
    assert!(rendered.contains("sgdisk -n 3:0:0 -t 3:8300 /dev/nvme0n1"));
}

fn check_mounted_device_suffixes() {
    assert!(mount_source_matches_device("/dev/sda1", "/dev/sda", None, "/dev/sda"));
    assert!(!mount_source_matches_device("/dev/sdab", "/dev/sda", None, "/dev/sda"));
    assert!(mount_source_matches_device(
        "/dev/nvme0n1p1",
        "/dev/nvme0n1",
        None,
        "/dev/nvme0n1"
    ));
}

#[test]
fn disk_mounted_device_check_only_matches_numeric_partition_suffixes() {
    check_mounted_device_suffixes();
}

#[test]
fn mod_mounted_device_check_only_matches_numeric_partition_suffixes() {
    check_mounted_device_suffixes();
}

#[test]
fn canonical_source_is_matched_against_canonical_device() {
    assert!(mount_source_matches_device(
        "/dev/disk/by-id/usb-stick-part1",
        "/dev/disk/by-id/usb-stick",
        Some("/dev/sdc1"),
        "/dev/sdc"
    ));
    assert!(!mount_source_matches_device(
        "/dev/disk/by-id/other",
        "/dev/disk/by-id/usb-stick",
        Some("/dev/sdd1"),
        "/dev/sdc"
    ));
    assert!(is_partition_path("/dev/sda12", "/dev/sda"));
    assert!(!is_partition_path("/dev/sda", "/dev/sda"));
}

#[test]
fn partition_sysfs_names_match_common_schemes() {
    assert!(is_partition_sysfs_name("sda", "sda1"));
    assert!(is_partition_sysfs_name("sda", "sda12"));
    assert!(!is_partition_sysfs_name("sda", "sda"));
    assert!(!is_partition_sysfs_name("sda", "sdb1"));

    assert!(is_partition_sysfs_name("nvme0n1", "nvme0n1p1"));
    assert!(is_partition_sysfs_name("nvme0n1", "nvme0n1p12"));
    assert!(!is_partition_sysfs_name("nvme0n1", "nvme0n1"));
    assert!(!is_partition_sysfs_name("nvme0n1", "nvme0n1p"));
    assert!(!is_partition_sysfs_name("nvme0n1", "nvme1n1p1"));

    assert!(is_partition_sysfs_name("mmcblk0", "mmcblk0p1"));
}

#[test]
fn format_bytes_uses_gib_for_install_floor() {
    assert_eq!(format_bytes(MIN_INSTALL_BYTES), "12.0 GiB");
    assert_eq!(format_bytes(0), "0 B");
}

#[test]
fn format_bytes_picks_the_unit_and_rounds() {
    assert_eq!(format_bytes(1023), "1023 B");
    assert_eq!(format_bytes(MB), "1 MiB");
    assert_eq!(format_bytes(MB + MB / 2), "2 MiB");
    assert_eq!(format_bytes(GB + GB / 4), "1.2 GiB");
    assert_eq!(format_bytes(GB + 3 * GB / 4), "1.8 GiB");
}

#[test]
fn partition_paths_and_mib_sizes() {
    assert_eq!(partition_path_of("/dev/sda", 2).iter().collect::<String>(), "/dev/sda2");
    assert_eq!(partition_path_of("/dev/nvme0n1", 3).iter().collect::<String>(), "/dev/nvme0n1p3");
    assert_eq!(mib_of(4 * GB), 4096);
    assert_eq!(mib_of(MB + 1), 2);
    assert_eq!(mib_of(MB), 1);
}

#[test]
fn separate_home_adds_a_home_partition() {
    let disk = Disk {
        device: "/dev/sda".to_owned(),
        ext4: Ext4Options { separate_home: true, root_size: 50 * GB },
        ..Disk::default()
    };
    let rendered = plan_disk(&disk, TARGET, RAM).unwrap().render();
    assert!(rendered.contains("sgdisk -n 2:0:+51200M -t 2:8300 /dev/sda"));
    assert!(rendered.contains("sgdisk -n 3:0:0 -t 3:8300 /dev/sda"));
    assert!(rendered.contains("/dev/sda3"));
}

#[test]
fn separate_home_with_zero_root_is_rejected() {
    let disk = Disk {
        device: "/dev/sda".to_owned(),
        ext4: Ext4Options { separate_home: true, root_size: 0 },
        ..Disk::default()
    };
    assert!(matches!(plan_disk(&disk, TARGET, RAM), Err(DiskError::InvalidLayout(_))));
}

#[test]
fn blank_device_is_refused() {
    let disk = Disk::default();
    assert_eq!(plan_disk(&disk, TARGET, RAM), Err(DiskError::MissingDevice));
}

#[test]
fn install_size_floor_counts_disk_swap() {
    let disk = Disk {
        device: "/dev/sda".to_owned(),
        ..Disk::default()
    };
    let no_swap = ResolvedSwap { zram: None, disk: None, swappiness: 60 };
    let with_swap = ResolvedSwap {
        zram: None,
        disk: Some(ResolvedDiskSwap { size: 4 * GB, priority: 10 }),
        swappiness: 60,
    };
    let base = required_install_bytes(&disk, &no_swap);
    assert_eq!(base, MIN_INSTALL_BYTES + 512 * MB);
    assert_eq!(required_install_bytes(&disk, &with_swap), base + 4 * GB);
    assert!(check_disk_size("/dev/sda", base, &disk, &no_swap).is_ok());
    assert!(matches!(
        check_disk_size("/dev/sda", base - 1, &disk, &no_swap),
        Err(DiskError::DeviceTooSmall { .. })
    ));
}
