//! Enumerated system settings of the declarative manifest.
use vstd::prelude::*;

use crate::text::owned;

verus! {

/// Boot manager written to the ESP during install. Independent of the init
/// system: any combination is valid.
#[derive(Debug, Clone, Copy, PartialEq, Eq, Structural)]
pub enum Bootloader {
    SystemdBoot,
    Grub,
}

impl Default for Bootloader {
    fn default() -> (r: Self)
        ensures
            r == Bootloader::Grub,
    {
        Bootloader::Grub
    }
}

#[derive(Debug, Clone, Copy, PartialEq, Eq, Structural)]
pub enum Libc {
    Glibc,
}

impl Default for Libc {
    fn default() -> (r: Self)
        ensures
            r == Libc::Glibc,
    {
        Libc::Glibc
    }
}

#[derive(Debug, Clone, Copy, PartialEq, Eq, Structural)]
pub enum DisplayStack {
    Wayland,
    X11,
}

impl Default for DisplayStack {
    fn default() -> (r: Self)
        ensures
            r == DisplayStack::Wayland,
    {
        DisplayStack::Wayland
    }
}

#[derive(Debug, Clone, Copy, PartialEq, Eq, Structural)]
pub enum AudioStack {
    Pipewire,
    Pulseaudio,
}

impl Default for AudioStack {
    fn default() -> (r: Self)
        ensures
            r == AudioStack::Pipewire,
    {
        AudioStack::Pipewire
    }
}

#[derive(Debug, Clone, Copy, PartialEq, Eq, Structural)]
pub enum Shell {
    Bash,
    Zsh,
    Fish,
}

impl Default for Shell {
    fn default() -> (r: Self)
        ensures
            r == Shell::Bash,
    {
        Shell::Bash
    }
}

pub open spec fn shell_path(shell: Shell) -> Seq<char> {
    match shell {
        Shell::Bash => "/bin/bash"@,
        Shell::Zsh => "/bin/zsh"@,
        Shell::Fish => "/usr/bin/fish"@,
    }
}

impl Shell {
    /// Absolute path to the login shell binary on the installed target.
    pub fn path(&self) -> (r: &'static str)
        ensures
            r@ == shell_path(*self),
    {
        match self {
            Shell::Bash => "/bin/bash",
            Shell::Zsh => "/bin/zsh",
            Shell::Fish => "/usr/bin/fish",
        }
    }
}

#[derive(Debug, Clone, Copy, PartialEq, Eq, Structural)]
pub enum DiskLayout {
    Btrfs,
    LuksBtrfs,
    Zfs,
    Ext4,
}

impl Default for DiskLayout {
    fn default() -> (r: Self)
        ensures
            r == DiskLayout::Ext4,
    {
        DiskLayout::Ext4
    }
}

#[derive(Debug, Clone, Copy, PartialEq, Eq, Structural)]
pub enum Encryption {
    /// TPM-backed unlock. Planned, not provisioned yet.
    Tpm,
    /// Passphrase-backed LUKS unlock. Planned, not provisioned yet.
    Password,
    /// No disk encryption.
    Disabled,
}

impl Default for Encryption {
    fn default() -> (r: Self)
        ensures
            r == Encryption::Disabled,
    {
        Encryption::Disabled
    }
}

#[derive(Debug, Clone, Copy, PartialEq, Eq, Structural)]
pub enum GpuVendor {
    Amd,
    Intel,
    Nvidia,
}

/// Retired GPU selection, still accepted when reading older manifests.
#[derive(Debug, Clone, Copy, PartialEq, Eq, Structural)]
pub enum Gpu {
    Auto,
    Single(GpuVendor),
    Hybrid { igpu: GpuVendor, dgpu: GpuVendor },
}

impl Gpu {
    pub fn prime_offloading_enabled(&self) -> (r: bool)
        ensures
            r == (*self is Hybrid),
    {
        match self {
            Gpu::Hybrid { .. } => true,
            _ => false,
        }
    }
}

impl Default for Gpu {
    fn default() -> (r: Self)
        ensures
            r == Gpu::Auto,
    {
        Gpu::Auto
    }
}

#[derive(Debug, Clone, Copy, PartialEq, Eq, Structural)]
pub enum MakeOpts {
    Auto,
    Jobs(usize),
}

impl Default for MakeOpts {
    fn default() -> (r: Self)
        ensures
            r == MakeOpts::Auto,
    {
        MakeOpts::Auto
    }
}

#[derive(Debug, Clone, Copy, PartialEq, Eq, Structural)]
pub enum Power {
    Auto,
    Disabled,
    Tlp,
    AsusCtl,
}

impl Default for Power {
    fn default() -> (r: Self)
        ensures
            r == Power::Auto,
    {
        Power::Auto
    }
}

#[derive(Debug, Clone, Copy, PartialEq, Eq, Structural)]
pub enum JournalStorage {
    Auto,
    Persistent,
    Volatile,
}

impl Default for JournalStorage {
    fn default() -> (r: Self)
        ensures
            r == JournalStorage::Persistent,
    {
        JournalStorage::Persistent
    }
}

/// How a user's password is provisioned.
#[derive(Debug, Clone, PartialEq, Eq)]
pub enum Password {
    /// No password set; the account is created locked.
    Locked,
    /// Plaintext password baked into the config (stored verbatim in the
    /// manifest, so a compile-time warning is emitted).
    Plain(String),
    /// A pre-hashed password, applied with `chpasswd -e`.
    Hashed(String),
    /// Collected interactively by the installer at install time.
    Prompt,
}

impl Default for Password {
    fn default() -> (r: Self)
        ensures
            r == Password::Locked,
    {
        Password::Locked
    }
}

/// A user name, either fixed in the config or collected at install time.
#[derive(Debug, Clone, PartialEq, Eq)]
pub enum Username {
    Literal(String),
    Prompt,
}

pub open spec fn username_text(name: Username) -> Seq<char> {
    match name {
        Username::Literal(s) => s@,
        Username::Prompt => ""@,
    }
}

impl Username {
    /// The literal name, or an empty string for a still-unresolved prompt.
    pub fn as_str(&self) -> (r: &str)
        ensures
            r@ == username_text(*self),
    {
        match self {
            Username::Literal(name) => name.as_str(),
            Username::Prompt => "",
        }
    }
}

impl Default for Username {
    fn default() -> (r: Self)
        ensures
            r matches Username::Literal(s) && s@ == Seq::<char>::empty(),
    {
        Username::Literal(String::new())
    }
}

/// The system timezone, either fixed in the config or collected at install
/// time.
#[derive(Debug, Clone, PartialEq, Eq)]
pub enum Timezone {
    Literal(String),
    Prompt,
}

pub open spec fn timezone_text(tz: Timezone) -> Seq<char> {
    match tz {
        Timezone::Literal(s) => s@,
        Timezone::Prompt => ""@,
    }
}

impl Timezone {
    /// The literal zone name, or an empty string for a still-unresolved prompt.
    pub fn as_str(&self) -> (r: &str)
        ensures
            r@ == timezone_text(*self),
    {
        match self {
            Timezone::Literal(name) => name.as_str(),
            Timezone::Prompt => "",
        }
    }
}

impl Default for Timezone {
    fn default() -> (r: Self)
        ensures
            r matches Timezone::Literal(s) && s@ == Seq::<char>::empty(),
    {
        Timezone::Literal(String::new())
    }
}

impl Timezone {
    /// A fixed zone name.
    pub fn literal(value: &str) -> (r: Self)
        ensures
            r matches Timezone::Literal(s) && s@ == value@,
    {
        Timezone::Literal(owned(value))
    }
}

impl<'a> From<&'a str> for Timezone {
    /// Same as [`Timezone::literal`].
    fn from(value: &'a str) -> (r: Self) {
        Timezone::literal(value)
    }
}

impl<'a> vstd::std_specs::convert::FromSpecImpl<&'a str> for Timezone {
    open spec fn obeys_from_spec() -> bool {
        false
    }

    open spec fn from_spec(v: &'a str) -> Self {
        Timezone::Prompt
    }
}

// ---------------------------------------------------------------------------
// Graphics policy.
// ---------------------------------------------------------------------------

/// A Mesa `VIDEO_CARDS` value.
#[derive(Debug, Clone, Copy, PartialEq, Eq, Structural)]
pub enum VideoCard {
    Intel,
    Amdgpu,
    Radeon,
    Radeonsi,
    Nouveau,
    Virgl,
    Vmware,
    Lavapipe,
}

#[derive(Debug, Clone, PartialEq, Eq)]
pub enum VideoCards {
    Auto,
    Explicit(Vec<VideoCard>),
}

#[derive(Debug, Clone, Copy, PartialEq, Eq, Structural)]
pub enum SoftwareRenderer {
    Disabled,
    Optional,
    Required,
}

#[derive(Debug, Clone, PartialEq, Eq)]
pub struct MesaGraphics {
    pub video_cards: VideoCards,
    pub software_fallback: SoftwareRenderer,
}

impl Default for MesaGraphics {
    fn default() -> (r: Self)
        ensures
            r.video_cards == VideoCards::Auto,
            r.software_fallback == SoftwareRenderer::Optional,
    {
        MesaGraphics { video_cards: VideoCards::Auto, software_fallback: SoftwareRenderer::Optional }
    }
}

/// A kernel DRM driver.
#[derive(Debug, Clone, Copy, PartialEq, Eq, Structural)]
pub enum DrmDriver {
    Intel,
    Amdgpu,
    Radeon,
    Nouveau,
    VirtioGpu,
    Vmwgfx,
}

#[derive(Debug, Clone, PartialEq, Eq)]
pub enum DrmDrivers {
    Auto,
    Explicit(Vec<DrmDriver>),
}

#[derive(Debug, Clone, PartialEq, Eq)]
pub struct Drm {
    pub drivers: DrmDrivers,
}

impl Default for Drm {
    fn default() -> (r: Self)
        ensures
            r.drivers == DrmDrivers::Auto,
    {
        Drm { drivers: DrmDrivers::Auto }
    }
}

#[derive(Debug, Clone, Copy, PartialEq, Eq, Structural)]
pub enum NvidiaDriver {
    Proprietary,
    Nouveau,
}

#[derive(Debug, Clone, Copy, PartialEq, Eq, Structural)]
pub enum PrimeMode {
    Disabled,
    Primary,
    Offload,
}

#[derive(Debug, Clone, Copy, PartialEq, Eq, Structural)]
pub struct Nvidia {
    pub driver: NvidiaDriver,
    pub prime: PrimeMode,
    pub modeset: bool,
}

impl Default for Nvidia {
    fn default() -> (r: Self)
        ensures
            r == (Nvidia { driver: NvidiaDriver::Proprietary, prime: PrimeMode::Disabled, modeset: true }),
    {
        Nvidia { driver: NvidiaDriver::Proprietary, prime: PrimeMode::Disabled, modeset: true }
    }
}

#[derive(Debug, Clone, Copy, PartialEq, Eq, Structural)]
pub enum VmGraphics {
    Disabled,
    Virgl,
    Vmware,
}

/// The unified graphics policy of a manifest.
#[derive(Debug, Clone, PartialEq, Eq)]
pub struct Graphics {
    pub mesa: MesaGraphics,
    pub drm: Drm,
    pub nvidia: Option<Nvidia>,
    pub vm_support: VmGraphics,
}

impl Default for Graphics {
    fn default() -> (r: Self)
        ensures
            r.mesa.video_cards == VideoCards::Auto,
            r.mesa.software_fallback == SoftwareRenderer::Optional,
            r.drm.drivers == DrmDrivers::Auto,
            r.nvidia is None,
            r.vm_support == VmGraphics::Disabled,
    {
        Graphics {
            mesa: MesaGraphics::default(),
            drm: Drm::default(),
            nvidia: None,
            vm_support: VmGraphics::Disabled,
        }
    }
}

// ---------------------------------------------------------------------------
// Session policy.
// ---------------------------------------------------------------------------

#[derive(Debug, Clone, Copy, PartialEq, Eq, Structural)]
pub enum SessionMode {
    Auto,
    Text,
    Graphical,
}

#[derive(Debug, Clone, Copy, PartialEq, Eq, Structural)]
pub enum LoginFrontend {
    Tty { tty: u8 },
    OxysLogin { tty: u8, fallback_tty_login: bool },
}

#[derive(Debug, Clone, Copy, PartialEq, Eq, Structural)]
pub enum Compositor {
    Niri,
}

#[derive(Debug, Clone, Copy, PartialEq, Eq, Structural)]
pub enum SeatBackend {
    Auto,
    Seatd,
    Logind,
}

#[derive(Debug, Clone, Copy, PartialEq, Eq, Structural)]
pub enum SessionTracker {
    Auto,
    Elogind,
    Disabled,
}

#[derive(Debug, Clone, PartialEq, Eq)]
pub enum SessionUser {
    Auto,
    Named(String),
}

#[derive(Debug, Clone, Copy, PartialEq, Eq, Structural)]
pub enum DesktopShell {
    Noctalia,
}

#[derive(Debug, Clone, PartialEq, Eq)]
pub struct Session {
    pub mode: SessionMode,
    pub login: LoginFrontend,
    pub compositor: Compositor,
    pub user: SessionUser,
    pub desktop_shell: Option<DesktopShell>,
    pub seat: SeatBackend,
    pub session_tracker: SessionTracker,
}

pub open spec fn default_session() -> Session {
    Session {
        mode: SessionMode::Text,
        login: LoginFrontend::Tty { tty: 1 },
        compositor: Compositor::Niri,
        user: SessionUser::Auto,
        desktop_shell: None,
        seat: SeatBackend::Auto,
        session_tracker: SessionTracker::Auto,
    }
}

impl Default for Session {
    fn default() -> (r: Self)
        ensures
            r == default_session(),
    {
        Session {
            mode: SessionMode::Text,
            login: LoginFrontend::Tty { tty: 1 },
            compositor: Compositor::Niri,
            user: SessionUser::Auto,
            desktop_shell: None,
            seat: SeatBackend::Auto,
            session_tracker: SessionTracker::Auto,
        }
    }
}

} // verus!
