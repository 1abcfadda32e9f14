//! The declarative system manifest.
use vstd::prelude::*;

pub mod accounts;
pub mod compiler;
pub mod disk;
pub mod firewall;
pub mod packages;
pub mod queries;
pub mod settings;
pub mod swap;

pub use accounts::{OpenrcServices, Services, User};
pub use compiler::{BuildOptimisation, Compiler, March};
pub use disk::{
    Disk, DiskPartitions, EfiPartition, Ext4Options, Subvolume, SwapConfig, ZfsCanmount,
    ZfsDataset, ZfsOptions, GB, GIB, MB, MIB,
};
pub use firewall::{
    Firewall, FirewallPolicy, FirewallValidationError, NFTABLES_PACKAGE, NFTABLES_SERVICE,
};
pub use packages::{ManifestPackage, Package};
pub use settings::{
    AudioStack, Bootloader, Compositor, DesktopShell, DiskLayout, DisplayStack, Drm, DrmDriver,
    DrmDrivers, Encryption, Gpu, GpuVendor, Graphics, JournalStorage, Libc, LoginFrontend,
    MakeOpts, MesaGraphics, Nvidia, NvidiaDriver, Password, Power, PrimeMode, SeatBackend, Session,
    SessionMode, SessionTracker, SessionUser, Shell, SoftwareRenderer, Timezone, Username,
    VideoCard, VideoCards, VmGraphics,
};
pub use swap::{
    resolve_swap_for_ram, Compression, RamFraction, ResolvedDiskSwap, ResolvedSwap, ResolvedZram,
    Swap, SwapDiskOptions, SwapResolveError, SwapSize, SwapStrategy, ZramOptions,
    DEFAULT_SWAPPINESS, DISK_SWAP_PRIORITY, ZRAM_SWAP_PRIORITY,
};

verus! {

/// User-facing declarative system definition.
#[derive(Debug, Clone, PartialEq, Eq)]
pub struct SystemManifest {
    pub os: Os,
    pub disk: Disk,
    pub swap: Swap,
    pub hardware: Hardware,
    pub kernel: Kernel,
    pub journal: Journal,
    pub environment: Vec<String>,
    pub packages: Vec<Package>,
    pub compiler: Compiler,
    pub init_system: InitSystem,
    pub bootloader: Option<Bootloader>,
    pub display_stack: Option<DisplayStack>,
    pub audio_stack: Option<AudioStack>,
    pub session: Session,
    pub prefer_binary: bool,
    pub services: Services,
    pub users: Vec<User>,
    pub firewall: Firewall,
    /// Provenance of the retired `hardware.gpu` field when a manifest was read
    /// with it.
    pub legacy_gpu: Option<Gpu>,
}

pub type Oxys = SystemManifest;

#[derive(Debug, Clone, PartialEq, Eq)]
pub struct Os {
    pub hostname: String,
    pub timezone: Timezone,
    pub locale: String,
    pub shell: Shell,
    pub libc: Libc,
}

impl Default for Os {
    fn default() -> (r: Self)
        ensures
            r.hostname@.len() == 0,
            r.timezone matches Timezone::Literal(s) && s@.len() == 0,
            r.locale@.len() == 0,
            r.shell == Shell::Bash,
            r.libc == Libc::Glibc,
    {
        Os {
            hostname: String::new(),
            timezone: Timezone::default(),
            locale: String::new(),
            shell: Shell::default(),
            libc: Libc::default(),
        }
    }
}

#[derive(Debug, Clone, PartialEq, Eq)]
pub struct Hardware {
    pub graphics: Graphics,
    pub power: Power,
}

impl Default for Hardware {
    fn default() -> (r: Self)
        ensures
            r.graphics.mesa.video_cards == VideoCards::Auto,
            r.graphics.mesa.software_fallback == SoftwareRenderer::Optional,
            r.graphics.drm.drivers == DrmDrivers::Auto,
            r.graphics.nvidia is None,
            r.graphics.vm_support == VmGraphics::Disabled,
            r.power == Power::Auto,
    {
        Hardware { graphics: Graphics::default(), power: Power::default() }
    }
}

#[derive(Debug, Clone, PartialEq, Eq)]
pub struct Kernel {
    pub cmdline: Vec<String>,
}

impl Default for Kernel {
    fn default() -> (r: Self)
        ensures
            r.cmdline@.len() == 0,
    {
        Kernel { cmdline: Vec::new() }
    }
}

#[derive(Debug, Clone, PartialEq, Eq)]
pub struct Journal {
    pub storage: JournalStorage,
    pub max_use: String,
}

impl Default for Journal {
    fn default() -> (r: Self)
        ensures
            r.storage == JournalStorage::Persistent,
            r.max_use@.len() == 0,
    {
        Journal { storage: JournalStorage::default(), max_use: String::new() }
    }
}

#[derive(Debug, Clone, Copy, PartialEq, Eq, Structural)]
pub enum InitSystem {
    Systemd,
    Openrc,
}

impl Default for InitSystem {
    fn default() -> (r: Self)
        ensures
            r == InitSystem::Openrc,
    {
        InitSystem::Openrc
    }
}

impl SystemManifest {
    /// The default manifest for a machine with `cpu_count` logical CPUs.
    pub fn for_cpu_count(cpu_count: usize) -> (r: Self)
        ensures
            compiler::is_default_compiler(r.compiler, cpu_count),
            disk::is_default_disk_on(r.disk, ""@),
            r.swap == Swap::default_spec(),
            r.environment@.len() == 0,
            r.packages@.len() == 0,
            r.users@.len() == 0,
            r.kernel.cmdline@.len() == 0,
            r.init_system == InitSystem::Openrc,
            r.bootloader is None,
            r.display_stack is None,
            r.audio_stack is None,
            r.session == settings::default_session(),
            !r.prefer_binary,
            r.firewall is Disabled,
            r.legacy_gpu is None,
            r.os.shell == Shell::Bash,
            r.os.libc == Libc::Glibc,
            r.os.timezone matches Timezone::Literal(s) && s@.len() == 0,
            r.hardware.graphics.nvidia is None,
            r.hardware.graphics.vm_support == VmGraphics::Disabled,
            r.hardware.graphics.mesa.video_cards == VideoCards::Auto,
            r.hardware.graphics.drm.drivers == DrmDrivers::Auto,
            r.hardware.graphics.mesa.software_fallback == SoftwareRenderer::Optional,
            r.services.enabled@.len() == 0,
            r.services.disabled@.len() == 0,
            r.services.openrc.default@.len() == 0,
            r.services.openrc.boot@.len() == 0,
    {
        SystemManifest {
            os: Os::default(),
            disk: Disk::default(),
            swap: Swap::default(),
            hardware: Hardware::default(),
            kernel: Kernel::default(),
            journal: Journal::default(),
            environment: Vec::new(),
            packages: Vec::new(),
            compiler: Compiler::for_cpu_count(cpu_count),
            init_system: InitSystem::default(),
            bootloader: None,
            display_stack: None,
            audio_stack: None,
            session: Session::default(),
            prefer_binary: false,
            services: Services::default(),
            users: Vec::new(),
            firewall: Firewall::default(),
            legacy_gpu: None,
        }
    }
}

impl Default for SystemManifest {
    /// The default manifest, assuming [`compiler::FALLBACK_CPU_COUNT`] CPUs.
    fn default() -> (r: Self)
        ensures
            compiler::is_default_compiler(r.compiler, compiler::FALLBACK_CPU_COUNT),
            disk::is_default_disk_on(r.disk, ""@),
            r.swap == Swap::default_spec(),
            r.packages@.len() == 0,
            r.users@.len() == 0,
            r.kernel.cmdline@.len() == 0,
            r.init_system == InitSystem::Openrc,
            r.bootloader is None,
            r.session == settings::default_session(),
            r.firewall is Disabled,
            r.legacy_gpu is None,
            r.os.shell == Shell::Bash,
            r.hardware.graphics.nvidia is None,
            r.hardware.graphics.vm_support == VmGraphics::Disabled,
            r.hardware.graphics.mesa.video_cards == VideoCards::Auto,
            r.hardware.graphics.drm.drivers == DrmDrivers::Auto,
            r.hardware.graphics.mesa.software_fallback == SoftwareRenderer::Optional,
    {
        SystemManifest::for_cpu_count(compiler::FALLBACK_CPU_COUNT)
    }
}

} // verus!
