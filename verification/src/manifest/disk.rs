//! Disk layout settings.
use vstd::prelude::*;

use super::settings::{DiskLayout, Encryption};
use crate::text::owned;

verus! {

pub const MB: u64 = 1024 * 1024;

pub const GB: u64 = 1024 * 1024 * 1024;

pub const MIB: u64 = MB;

pub const GIB: u64 = GB;

/// Root partition size used when `/home` gets its own partition.
pub const DEFAULT_EXT4_ROOT_SIZE: u64 = 50 * GB;

/// Size of the ZFS boot pool partition.
pub const DEFAULT_BOOT_POOL_SIZE: u64 = 2 * GB;

/// Size of the EFI system partition.
pub const DEFAULT_EFI_SIZE: u64 = 512 * MB;

#[derive(Debug, Clone, PartialEq, Eq)]
pub struct Subvolume {
    pub name: String,
    pub mount: String,
}

#[derive(Debug, Clone, PartialEq, Eq)]
pub struct EfiPartition {
    pub size: u64,
    pub mount: String,
}

impl Default for EfiPartition {
    fn default() -> (r: Self)
        ensures
            r.size == DEFAULT_EFI_SIZE,
            r.mount@ == "/boot/efi"@,
    {
        EfiPartition { size: DEFAULT_EFI_SIZE, mount: owned("/boot/efi") }
    }
}

/// Swap declared the legacy way, inside the disk partition table.
#[derive(Debug, Clone, Copy, PartialEq, Eq, Structural)]
pub enum SwapConfig {
    /// Not declared here; the top-level swap policy applies.
    Unspecified,
    /// Dedicated swap partition of the given size in bytes.
    Partition { size: u64 },
    /// Swapfile of the given size in bytes (no longer provisioned).
    File { size: u64 },
    /// Compressed RAM swap of the given size in bytes.
    Zram { size: u64 },
    /// No swap.
    Disabled,
}

impl SwapConfig {
    pub fn is_unspecified(&self) -> (r: bool)
        ensures
            r == (*self == SwapConfig::Unspecified),
    {
        match self {
            SwapConfig::Unspecified => true,
            _ => false,
        }
    }
}

impl Default for SwapConfig {
    fn default() -> (r: Self)
        ensures
            r == SwapConfig::Unspecified,
    {
        SwapConfig::Unspecified
    }
}

#[derive(Debug, Clone, PartialEq, Eq)]
pub struct DiskPartitions {
    pub efi: EfiPartition,
    pub swap: SwapConfig,
}

impl Default for DiskPartitions {
    fn default() -> (r: Self)
        ensures
            r.efi.size == DEFAULT_EFI_SIZE,
            r.efi.mount@ == "/boot/efi"@,
            r.swap == SwapConfig::Unspecified,
    {
        DiskPartitions { efi: EfiPartition::default(), swap: SwapConfig::default() }
    }
}

#[derive(Debug, Clone, Copy, PartialEq, Eq, Structural)]
pub enum ZfsCanmount {
    On,
    Off,
    Noauto,
}

impl Default for ZfsCanmount {
    fn default() -> (r: Self)
        ensures
            r == ZfsCanmount::On,
    {
        ZfsCanmount::On
    }
}

pub open spec fn canmount_text(c: ZfsCanmount) -> Seq<char> {
    match c {
        ZfsCanmount::On => "on"@,
        ZfsCanmount::Off => "off"@,
        ZfsCanmount::Noauto => "noauto"@,
    }
}

impl ZfsCanmount {
    /// The value of the ZFS `canmount` property.
    pub fn as_zfs_value(&self) -> (r: &'static str)
        ensures
            r@ == canmount_text(*self),
    {
        match self {
            ZfsCanmount::On => "on",
            ZfsCanmount::Off => "off",
            ZfsCanmount::Noauto => "noauto",
        }
    }
}

#[derive(Debug, Clone, PartialEq, Eq)]
pub struct ZfsDataset {
    pub pool: String,
    pub name: String,
    pub mount: String,
    pub canmount: ZfsCanmount,
}

/// A dataset as plain values: pool, name, mountpoint, canmount.
pub open spec fn dataset_row(d: ZfsDataset) -> (Seq<char>, Seq<char>, Seq<char>, ZfsCanmount) {
    (d.pool@, d.name@, d.mount@, d.canmount)
}

pub open spec fn dataset_rows(ds: Seq<ZfsDataset>) -> Seq<(Seq<char>, Seq<char>, Seq<char>, ZfsCanmount)> {
    ds.map_values(|d: ZfsDataset| dataset_row(d))
}

/// The default dataset hierarchy: a root pool holding the OS root, home,
/// var and Gentoo trees, and a boot pool holding `/boot`.
pub open spec fn default_dataset_table() -> Seq<(Seq<char>, Seq<char>, Seq<char>, ZfsCanmount)> {
    seq![
        ("rpool"@, "ROOT"@, "none"@, ZfsCanmount::Off),
        ("rpool"@, "ROOT/os"@, "/"@, ZfsCanmount::Noauto),
        ("bpool"@, "BOOT"@, "none"@, ZfsCanmount::Off),
        ("bpool"@, "BOOT/os"@, "/boot"@, ZfsCanmount::On),
        ("rpool"@, "home"@, "/home"@, ZfsCanmount::On),
        ("rpool"@, "var"@, "/var"@, ZfsCanmount::Off),
        ("rpool"@, "var/log"@, "/var/log"@, ZfsCanmount::On),
        ("rpool"@, "var/cache"@, "/var/cache"@, ZfsCanmount::On),
        ("rpool"@, "gentoo"@, "none"@, ZfsCanmount::Off),
        ("rpool"@, "gentoo/repos"@, "/var/db/repos"@, ZfsCanmount::On),
        ("rpool"@, "gentoo/distfiles"@, "/var/cache/distfiles"@, ZfsCanmount::On),
    ]
}

fn dataset(pool: &str, name: &str, mount: &str, canmount: ZfsCanmount) -> (r: ZfsDataset)
    ensures
        dataset_row(r) == (pool@, name@, mount@, canmount),
{
    ZfsDataset { pool: owned(pool), name: owned(name), mount: owned(mount), canmount }
}

fn default_zfs_datasets() -> (r: Vec<ZfsDataset>)
    ensures
        dataset_rows(r@) == default_dataset_table(),
{
    let mut v: Vec<ZfsDataset> = Vec::new();
    v.push(dataset("rpool", "ROOT", "none", ZfsCanmount::Off));
    v.push(dataset("rpool", "ROOT/os", "/", ZfsCanmount::Noauto));
    v.push(dataset("bpool", "BOOT", "none", ZfsCanmount::Off));
    v.push(dataset("bpool", "BOOT/os", "/boot", ZfsCanmount::On));
    v.push(dataset("rpool", "home", "/home", ZfsCanmount::On));
    v.push(dataset("rpool", "var", "/var", ZfsCanmount::Off));
    v.push(dataset("rpool", "var/log", "/var/log", ZfsCanmount::On));
    v.push(dataset("rpool", "var/cache", "/var/cache", ZfsCanmount::On));
    v.push(dataset("rpool", "gentoo", "none", ZfsCanmount::Off));
    v.push(dataset("rpool", "gentoo/repos", "/var/db/repos", ZfsCanmount::On));
    v.push(dataset("rpool", "gentoo/distfiles", "/var/cache/distfiles", ZfsCanmount::On));
    assert(dataset_rows(v@) =~= default_dataset_table());
    v
}

#[derive(Debug, Clone, PartialEq, Eq)]
pub struct ZfsOptions {
    pub pool: String,
    pub boot_pool: String,
    pub boot_pool_size: u64,
    pub ashift: u8,
    pub compression: String,
    pub boot_compression: String,
    pub datasets: Vec<ZfsDataset>,
}

pub open spec fn is_default_zfs(z: ZfsOptions) -> bool {
    &&& z.pool@ == "rpool"@
    &&& z.boot_pool@ == "bpool"@
    &&& z.boot_pool_size == DEFAULT_BOOT_POOL_SIZE
    &&& z.ashift == 12
    &&& z.compression@ == "zstd"@
    &&& z.boot_compression@ == "lz4"@
    &&& dataset_rows(z.datasets@) == default_dataset_table()
}

impl Default for ZfsOptions {
    fn default() -> (r: Self)
        ensures
            is_default_zfs(r),
    {
        ZfsOptions {
            pool: owned("rpool"),
            boot_pool: owned("bpool"),
            boot_pool_size: DEFAULT_BOOT_POOL_SIZE,
            ashift: 12,
            compression: owned("zstd"),
            boot_compression: owned("lz4"),
            datasets: default_zfs_datasets(),
        }
    }
}

#[derive(Debug, Clone, Copy, PartialEq, Eq, Structural)]
pub struct Ext4Options {
    pub separate_home: bool,
    pub root_size: u64,
}

impl Default for Ext4Options {
    fn default() -> (r: Self)
        ensures
            r == (Ext4Options { separate_home: false, root_size: DEFAULT_EXT4_ROOT_SIZE }),
    {
        Ext4Options { separate_home: false, root_size: DEFAULT_EXT4_ROOT_SIZE }
    }
}

#[derive(Debug, Clone, PartialEq, Eq)]
pub struct Disk {
    pub device: String,
    pub layout: DiskLayout,
    pub encryption: Encryption,
    pub subvolumes: Vec<Subvolume>,
    pub partitions: DiskPartitions,
    pub snapshots: bool,
    pub zfs: ZfsOptions,
    pub ext4: Ext4Options,
}

pub open spec fn subvolume_rows(vs: Seq<Subvolume>) -> Seq<(Seq<char>, Seq<char>)> {
    vs.map_values(|v: Subvolume| (v.name@, v.mount@))
}

pub open spec fn default_subvolume_table() -> Seq<(Seq<char>, Seq<char>)> {
    seq![
        ("@"@, "/"@),
        ("@home"@, "/home"@),
        ("@snapshots"@, "/.snapshots"@),
        ("@log"@, "/var/log"@),
        ("@pkg"@, "/var/cache/portage"@),
    ]
}

/// The default whole-disk ext4 layout on `device`.
pub open spec fn is_default_disk_on(d: Disk, device: Seq<char>) -> bool {
    &&& d.device@ == device
    &&& d.layout == DiskLayout::Ext4
    &&& d.encryption == Encryption::Disabled
    &&& subvolume_rows(d.subvolumes@) == default_subvolume_table()
    &&& d.partitions.efi.size == DEFAULT_EFI_SIZE
    &&& d.partitions.efi.mount@ == "/boot/efi"@
    &&& d.partitions.swap == SwapConfig::Unspecified
    &&& d.snapshots
    &&& is_default_zfs(d.zfs)
    &&& d.ext4 == (Ext4Options { separate_home: false, root_size: DEFAULT_EXT4_ROOT_SIZE })
}

fn subvolume(name: &str, mount: &str) -> (r: Subvolume)
    ensures
        r.name@ == name@,
        r.mount@ == mount@,
{
    Subvolume { name: owned(name), mount: owned(mount) }
}

impl Disk {
    /// The default ext4 whole-disk layout targeting `device`.
    pub fn with_device(device: &str) -> (r: Self)
        ensures
            is_default_disk_on(r, device@),
    {
        let mut subvolumes: Vec<Subvolume> = Vec::new();
        subvolumes.push(subvolume("@", "/"));
        subvolumes.push(subvolume("@home", "/home"));
        subvolumes.push(subvolume("@snapshots", "/.snapshots"));
        subvolumes.push(subvolume("@log", "/var/log"));
        subvolumes.push(subvolume("@pkg", "/var/cache/portage"));
        assert(subvolume_rows(subvolumes@) =~= default_subvolume_table());
        Disk {
            device: owned(device),
            layout: DiskLayout::Ext4,
            encryption: Encryption::Disabled,
            subvolumes,
            partitions: DiskPartitions::default(),
            snapshots: true,
            zfs: ZfsOptions::default(),
            ext4: Ext4Options::default(),
        }
    }
}

impl Default for Disk {
    fn default() -> (r: Self)
        ensures
            is_default_disk_on(r, ""@),
    {
        Disk::with_device("")
    }
}

} // verus!
