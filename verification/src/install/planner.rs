//! The system install planner: every check that can fail before the target
//! is touched, then the ordered steps of the install.
use vstd::prelude::*;

use super::boot::kernel_version_of;
use super::steps::{
    bool_text, firewall_text, initramfs_text, login_kind, prime_debug, seed_text, session_mode_name,
    step_description, step_kind, step_text, swap_text, tpath, StepKind, SystemInstallPlan,
    SystemInstallStep,
};
use crate::capability::{comparison_view, compare_source_capabilities, source_comparison, SourceProbe};
use crate::disk::under;
use crate::exec::command_text;
use crate::graphics::{
    graphics_failure, graphics_outcome, graphics_report_lines, is_invalid, resolve_graphics,
    GraphicsCapabilityComparison, GraphicsResolveError, RenderNode, ResolvedGraphics,
};
use crate::kernel_cmdline::{
    cmdline_text, cmdline_values, cmdline_view, resolve_kernel_cmdline_with_graphics,
    KernelCmdlineResolveError, ResolvedKernelCmdline,
};
use crate::manifest::queries::name_prompt_indices;
use crate::manifest::settings::{timezone_text, username_text};
use crate::manifest::swap::manifest_swap_spec;
use crate::manifest::{
    Bootloader, DiskLayout, FirewallValidationError, InitSystem, Package, PrimeMode, ResolvedSwap,
    SessionMode, SwapResolveError, SystemManifest, User,
};
use crate::text::{
    chars_of, decimal, join, owned, push_chars, push_decimal, push_str, string_of, sviews, trim,
    trim_str,
};

verus! {

/// What the caller found on the machine and in the source image before
/// planning.
#[derive(Debug, PartialEq, Eq)]
pub struct SourceImage {
    /// The source root exists.
    pub source_exists: bool,
    /// The target mount exists.
    pub target_exists: bool,
    /// The source image has a zoneinfo entry for the manifest's timezone.
    pub timezone_known: bool,
    /// The source image's glibc locale catalogue, when readable.
    pub locale_catalogue: Option<String>,
    /// RAM of the machine being installed, in bytes.
    pub ram_bytes: u64,
    /// DRM render nodes of the running system.
    pub render_nodes: Vec<RenderNode>,
    /// What was found in the source image for the graphics capability check.
    pub graphics_probe: SourceProbe,
    /// File name of the newest `vmlinuz*` file under the source `boot`.
    pub newest_kernel: Option<String>,
    /// Directory names under the source `lib/modules`.
    pub module_dirs: Vec<String>,
}

/// Why an install cannot be planned.
#[derive(Debug, Clone, PartialEq, Eq)]
pub enum SystemInstallError {
    TargetMissing(String),
    SourceMissing(String),
    UnsupportedLayout(DiskLayout),
    InvalidPlan(String),
    Graphics(GraphicsResolveError),
    KernelCmdline(KernelCmdlineResolveError),
    Swap(SwapResolveError),
    Firewall(FirewallValidationError),
    /// The manifest's packages cannot be installed into the target; the
    /// message says why.
    PackageInstall(String),
}

pub open spec fn layout_debug(l: DiskLayout) -> Seq<char> {
    match l {
        DiskLayout::Btrfs => "Btrfs"@,
        DiskLayout::LuksBtrfs => "LuksBtrfs"@,
        DiskLayout::Zfs => "Zfs"@,
        DiskLayout::Ext4 => "Ext4"@,
    }
}

pub open spec fn install_error_text(e: SystemInstallError) -> Seq<char> {
    match e {
        SystemInstallError::TargetMissing(p) => "target mount does not exist: "@ + p@,
        SystemInstallError::SourceMissing(p) => "source root does not exist: "@ + p@,
        SystemInstallError::UnsupportedLayout(l) => "unsupported layout for bootable system copy: "@
            + layout_debug(l),
        SystemInstallError::InvalidPlan(m) => "invalid install plan: "@ + m@,
        SystemInstallError::Graphics(g) => crate::graphics::graphics_error_text(g),
        SystemInstallError::KernelCmdline(k) => crate::kernel_cmdline::kernel_error_text(k),
        SystemInstallError::Swap(s) => crate::manifest::swap::swap_error_text(s),
        SystemInstallError::Firewall(f) => crate::manifest::firewall::firewall_error_text(f),
        SystemInstallError::PackageInstall(m) => m@,
    }
}

impl SystemInstallError {
    /// The human-readable error message.
    pub fn message(&self) -> (r: String)
        ensures
            r@ == install_error_text(*self),
    {
        let mut v: Vec<char> = Vec::new();
        match self {
            SystemInstallError::TargetMissing(p) => {
                push_str(&mut v, "target mount does not exist: ");
                push_str(&mut v, p.as_str());
            },
            SystemInstallError::SourceMissing(p) => {
                push_str(&mut v, "source root does not exist: ");
                push_str(&mut v, p.as_str());
            },
            SystemInstallError::UnsupportedLayout(l) => {
                push_str(&mut v, "unsupported layout for bootable system copy: ");
                match l {
                    DiskLayout::Btrfs => push_str(&mut v, "Btrfs"),
                    DiskLayout::LuksBtrfs => push_str(&mut v, "LuksBtrfs"),
                    DiskLayout::Zfs => push_str(&mut v, "Zfs"),
                    DiskLayout::Ext4 => push_str(&mut v, "Ext4"),
                }
            },
            SystemInstallError::InvalidPlan(m) => {
                push_str(&mut v, "invalid install plan: ");
                push_str(&mut v, m.as_str());
            },
            SystemInstallError::Graphics(g) => {
                return g.message();
            },
            SystemInstallError::KernelCmdline(k) => {
                return k.message();
            },
            SystemInstallError::Swap(s) => {
                return s.message();
            },
            SystemInstallError::Firewall(f) => {
                return f.message();
            },
            SystemInstallError::PackageInstall(m) => {
                return m.clone();
            },
        }
        string_of(&v)
    }
}

// ---------------------------------------------------------------------------
// What is checked before planning.
// ---------------------------------------------------------------------------

/// `s` as Rust's debug format quotes a string, for the characters an
/// identifier-like value holds: wrapped in `"`, with `"`, `\`, tab, carriage
/// return, line feed and NUL escaped.
pub open spec fn debug_quoted(s: Seq<char>) -> Seq<char> {
    "\""@ + escape_debug(s) + "\""@
}

pub open spec fn escape_char(c: char) -> Seq<char> {
    if c == '"' {
        "\\\""@
    } else if c == '\\' {
        "\\\\"@
    } else if c == '\n' {
        "\\n"@
    } else if c == '\r' {
        "\\r"@
    } else if c == '\t' {
        "\\t"@
    } else if c == '\0' {
        "\\0"@
    } else {
        seq![c]
    }
}

pub open spec fn escape_debug(s: Seq<char>) -> Seq<char>
    decreases s.len(),
{
    if s.len() == 0 {
        Seq::empty()
    } else {
        escape_debug(s.drop_last()) + escape_char(s.last())
    }
}

pub fn push_debug_quoted(v: &mut Vec<char>, s: &Vec<char>)
    ensures
        final(v)@ == old(v)@ + debug_quoted(s@),
{
    push_str(v, "\"");
    let ghost start = v@;
    let mut i: usize = 0;
    while i < s.len()
        invariant
            i <= s.len(),
            v@ == start + escape_debug(s@.subrange(0, i as int)),
        decreases s.len() - i,
    {
        let c = s[i];
        let ghost before = v@;
        if c == '"' {
            push_str(v, "\\\"");
        } else if c == '\\' {
            push_str(v, "\\\\");
        } else if c == '\n' {
            push_str(v, "\\n");
        } else if c == '\r' {
            push_str(v, "\\r");
        } else if c == '\t' {
            push_str(v, "\\t");
        } else if c == '\0' {
            push_str(v, "\\0");
        } else {
            v.push(c);
        }
        i = i + 1;
        proof {
            assert(s@.subrange(0, i as int).drop_last() =~= s@.subrange(0, i - 1));
            assert(v@ =~= before + escape_char(c));
        }
    }
    assert(s@.subrange(0, s.len() as int) =~= s@);
    push_str(v, "\"");
}

/// The manifest's timezone as the planner reads it.
pub open spec fn planned_timezone(m: SystemManifest) -> Seq<char> {
    trim(timezone_text(m.os.timezone))
}

pub open spec fn planned_locale(m: SystemManifest) -> Seq<char> {
    trim(m.os.locale@)
}

pub open spec fn unknown_timezone_message(tz: Seq<char>) -> Seq<char> {
    "unknown timezone "@ + debug_quoted(tz) + ": no such entry in the source image zoneinfo"@
}

pub open spec fn unsupported_locale_message(l: Seq<char>) -> Seq<char> {
    "unsupported locale "@ + debug_quoted(l)
        + ": no matching entry in the source image /usr/share/i18n/SUPPORTED"@
}

pub open spec fn username_prompt_message(index: int) -> Seq<char> {
    "username for user "@ + decimal(index as nat) + " was not collected before install"@
}

/// The message of the first failing check that needs nothing resolved, or
/// the unsupported layout (`Err`), or nothing.
pub open spec fn early_check(m: SystemManifest, timezone_known: bool) -> Option<Result<Seq<char>, DiskLayout>> {
    if name_prompt_indices(m.users@).len() > 0 {
        Some(Ok(username_prompt_message(name_prompt_indices(m.users@)[0])))
    } else if m.os.timezone is Prompt {
        Some(Ok("timezone was not collected before install"@))
    } else if planned_timezone(m).len() > 0 && !timezone_known {
        Some(Ok(unknown_timezone_message(planned_timezone(m))))
    } else if !(m.disk.layout == DiskLayout::Ext4 || m.disk.layout == DiskLayout::Zfs) {
        Some(Err(m.disk.layout))
    } else {
        None
    }
}

/// Some OpenRC runlevel is declared, so the declared runlevels are
/// authoritative.
pub open spec fn authoritative_openrc(m: SystemManifest) -> bool {
    m.services.openrc.boot@.len() > 0 || m.services.openrc.default@.len() > 0
}

pub open spec fn in_boot_runlevel(m: SystemManifest, service: Seq<char>) -> bool {
    exists|i: int|
        0 <= i < m.services.openrc.boot@.len() && #[trigger] m.services.openrc.boot@[i]@ == service
}

pub open spec fn zram_openrc_message() -> Seq<char> {
    "zram swap provisioning currently supports OpenRC through sys-block/zram-init"@
}

pub open spec fn zram_init_message() -> Seq<char> {
    "swap policy requires zram-init in services.openrc.boot"@
}

pub open spec fn zfs_service_message(service: Seq<char>) -> Seq<char> {
    "ZFS requires "@ + service + " in services.openrc.boot"@
}

pub open spec fn kernel_version_message() -> Seq<char> {
    "Could not detect kernel version from source boot directory or lib/modules"@
}

// ---------------------------------------------------------------------------
// The planned steps.
// ---------------------------------------------------------------------------

/// A step as the plan shows it: kind, description, body.
pub type StepSummary = (StepKind, Seq<char>, Seq<char>);

pub open spec fn summary(s: SystemInstallStep) -> StepSummary {
    (step_kind(s), step_description(s), step_text(s))
}

/// What a step carries for execution beyond its rendered text agrees with
/// the plan: a step that names the target mount names `t`, the swap step
/// carries the resolved swap policy `sw`, and the account step carries
/// exactly the user names `users` (never password material).
pub open spec fn step_carries(s: SystemInstallStep, t: Seq<char>, sw: ResolvedSwap, users: Seq<Seq<char>>) -> bool {
    match s {
        SystemInstallStep::ResolveSession { .. } => true,
        SystemInstallStep::ResolveGraphics { .. } => true,
        SystemInstallStep::ResolveKernelCmdline { .. } => true,
        SystemInstallStep::Command { .. } => true,
        SystemInstallStep::GenerateFstab { target_mount, .. } => target_mount@ == t,
        SystemInstallStep::ConfigureSwap { resolved_swap, target_mount, .. } => resolved_swap == sw
            && target_mount@ == t,
        SystemInstallStep::ConfigureFirewall { target_mount, .. } => target_mount@ == t,
        SystemInstallStep::ResetMachineId { target_mount, .. } => target_mount@ == t,
        SystemInstallStep::ConfigureHostname { target_mount, .. } => target_mount@ == t,
        SystemInstallStep::ConfigureTimezone { target_mount, .. } => target_mount@ == t,
        SystemInstallStep::ConfigureLocale { target_mount, .. } => target_mount@ == t,
        SystemInstallStep::SetupUsers { users: names, target_mount, .. } => sviews(names@) == users
            && target_mount@ == t,
        SystemInstallStep::InstallBootAssets { target_mount, .. } => target_mount@ == t,
        SystemInstallStep::GenerateSystemdBoot { target_mount, .. } => target_mount@ == t,
        SystemInstallStep::GenerateGrubConfig { target_mount, .. } => target_mount@ == t,
        SystemInstallStep::ActivateSystemdServices { target_mount, .. } => target_mount@ == t,
        SystemInstallStep::ActivateOpenrcServices { target_mount, .. } => target_mount@ == t,
        SystemInstallStep::BindMountPseudo { target_mount, .. } => target_mount@ == t,
        SystemInstallStep::VerifyTargetLayout { target_mount, .. } => target_mount@ == t,
        SystemInstallStep::EmergePackages { target_mount, .. } => target_mount@ == t,
        SystemInstallStep::SetupLogin { target_mount, .. } => target_mount@ == t,
        SystemInstallStep::ConfigureGraphicsRuntime { target_mount, .. } => target_mount@ == t,
        SystemInstallStep::GenerateInitramfs { target_mount, .. } => target_mount@ == t,
        SystemInstallStep::SeedOxysConfig { target_mount, .. } => target_mount@ == t,
        SystemInstallStep::Finalize { target_mount, .. } => target_mount@ == t,
    }
}

pub open spec fn steps_carry(steps: Seq<SystemInstallStep>, t: Seq<char>, sw: ResolvedSwap, users: Seq<Seq<char>>) -> bool {
    forall|i: int| 0 <= i < steps.len() ==> step_carries(#[trigger] steps[i], t, sw, users)
}

pub open spec fn summaries(s: Seq<SystemInstallStep>) -> Seq<StepSummary> {
    s.map_values(|x: SystemInstallStep| summary(x))
}

pub open spec fn cmd(description: Seq<char>, program: Seq<char>, args: Seq<Seq<char>>) -> StepSummary {
    (StepKind::Command, description, command_text(program, args))
}

/// `p` with a trailing `/`, as rsync reads a directory's contents.
pub open spec fn with_slash(p: Seq<char>) -> Seq<char> {
    if p.len() > 0 && p.last() == '/' {
        p
    } else {
        p + "/"@
    }
}

pub open spec fn rsync_excludes() -> Seq<Seq<char>> {
    seq![
        "/dev/*"@,
        "/proc/*"@,
        "/sys/*"@,
        "/run/*"@,
        "/tmp/*"@,
        "/mnt/*"@,
        "/media/*"@,
        "/lost+found"@,
        "/boot/efi/*"@,
        "/var/tmp/*"@,
        "/var/cache/binpkgs/*"@,
        "/var/cache/distfiles/*"@,
        "/root/.bash_history"@,
        "/etc/machine-id"@,
        "/etc/ssh/ssh_host_*"@,
    ]
}

/// The arguments that copy the live root onto the target, one filesystem,
/// keeping hard links, ACLs, xattrs and numeric owners.
pub open spec fn rsync_arg_list(source: Seq<char>, target: Seq<char>) -> Seq<Seq<char>> {
    seq!["-aHAXx"@, "--numeric-ids"@, "--info=progress2"@] + rsync_excludes().map_values(
        |e: Seq<char>| "--exclude="@ + e,
    ) + seq![source, target]
}

pub open spec fn boot_rsync_arg_list(source: Seq<char>, target: Seq<char>) -> Seq<Seq<char>> {
    seq!["-aHAX"@, "--numeric-ids"@, "--info=progress2"@, "--exclude=/efi/*"@, source, target]
}

pub open spec fn head_steps(
    m: SystemManifest,
    g: ResolvedGraphics,
    k: ResolvedKernelCmdline,
    s: Seq<char>,
    t: Seq<char>,
) -> Seq<StepSummary> {
    seq![
        (
            StepKind::ResolveSession,
            "Resolve and validate session policy"@,
            "session mode: "@ + session_mode_name(m.session.mode),
        ),
        (
            StepKind::ResolveGraphics,
            "Resolve and validate graphics policy"@,
            join(graphics_report_lines(g), "\n"@),
        ),
        (
            StepKind::ResolveKernelCmdline,
            "Resolve and validate kernel command line"@,
            cmdline_text(cmdline_view(k)),
        ),
        cmd("Copy live system into target"@, "rsync"@, rsync_arg_list(with_slash(s), with_slash(t))),
        cmd(
            "Copy live boot files into target"@,
            "rsync"@,
            boot_rsync_arg_list(with_slash(tpath(s, "boot"@)), with_slash(tpath(t, "boot"@))),
        ),
        (
            StepKind::VerifyTargetLayout,
            "Verify copied target layout"@,
            "verify critical system dirs copied and root-owned under "@ + t,
        ),
        cmd(
            "Create target runtime directories"@,
            "mkdir"@,
            seq![
                "-p"@,
                tpath(t, "dev"@),
                tpath(t, "proc"@),
                tpath(t, "sys"@),
                tpath(t, "run"@),
                tpath(t, "tmp"@),
                tpath(t, "mnt"@),
                tpath(t, "media"@),
            ],
        ),
        cmd("Set target /tmp permissions"@, "chmod"@, seq!["1777"@, tpath(t, "tmp"@)]),
        (StepKind::BindMountPseudo, "Bind mount pseudo filesystems"@, "bind mount /dev, /sys, /proc, /run to "@ + t),
    ]
}

pub open spec fn package_names(ps: Seq<Package>) -> Seq<Seq<char>> {
    ps.map_values(|p: Package| p.package@)
}

pub open spec fn user_names(us: Seq<User>) -> Seq<Seq<char>> {
    us.map_values(|u: User| username_text(u.name))
}

pub open spec fn system_steps(m: SystemManifest, sw: ResolvedSwap, t: Seq<char>) -> Seq<StepSummary> {
    (if m.packages@.len() > 0 {
        seq![
            (
                StepKind::EmergePackages,
                "Install "@ + decimal(m.packages@.len()) + " manifest package(s)"@,
                "resolve and emerge manifest package(s) into "@ + t + ": "@ + join(
                    package_names(m.packages@),
                    ", "@,
                ),
            ),
        ]
    } else {
        Seq::empty()
    }) + seq![
        (StepKind::GenerateFstab, "Write target fstab"@, "write generated "@ + tpath(t, "etc/fstab"@)),
        (StepKind::ConfigureSwap, "Configure target swap policy"@, swap_text(sw, t)),
        (
            StepKind::ConfigureFirewall,
            "Configure target firewall policy"@,
            firewall_text(!(m.firewall is Disabled), t),
        ),
        (StepKind::ResetMachineId, "Reset target machine-id"@, "truncate "@ + tpath(t, "etc/machine-id"@)),
        (
            StepKind::ConfigureHostname,
            "Configure target hostname"@,
            "write hostname "@ + m.os.hostname@ + " under "@ + tpath(t, "etc"@),
        ),
    ] + (if planned_timezone(m).len() > 0 {
        seq![
            (
                StepKind::ConfigureTimezone,
                "Configure target timezone"@,
                "link "@ + tpath(t, "etc/localtime"@) + " to zoneinfo "@ + planned_timezone(m),
            ),
        ]
    } else {
        Seq::empty()
    }) + (if planned_locale(m).len() > 0 {
        seq![
            (
                StepKind::ConfigureLocale,
                "Configure target locale"@,
                "generate locale "@ + planned_locale(m) + " and set it as LANG under "@ + tpath(
                    t,
                    "etc"@,
                ),
            ),
        ]
    } else {
        Seq::empty()
    }) + (if m.users@.len() > 0 {
        seq![
            (
                StepKind::SetupUsers,
                "Create "@ + decimal(m.users@.len()) + " user account(s)"@,
                "create user account(s): "@ + join(user_names(m.users@), ", "@),
            ),
        ]
    } else {
        Seq::empty()
    })
}

pub open spec fn zfs_steps(m: SystemManifest, g: ResolvedGraphics, t: Seq<char>, kver: Seq<char>) -> Seq<StepSummary> {
    if m.disk.layout == DiskLayout::Zfs {
        seq![
            cmd("Create target ZFS cache directory"@, "mkdir"@, seq!["-p"@, tpath(t, "etc/zfs"@)]),
            cmd("Copy hostid to target"@, "cp"@, seq!["/etc/hostid"@, tpath(t, "etc/hostid"@)]),
            cmd(
                "Refresh root pool import cache"@,
                "zpool"@,
                seq!["set"@, "cachefile="@ + tpath(t, "etc/zfs/zpool.cache"@), m.disk.zfs.pool@],
            ),
            cmd(
                "Refresh boot pool import cache"@,
                "zpool"@,
                seq!["set"@, "cachefile="@ + tpath(t, "etc/zfs/zpool.cache"@), m.disk.zfs.boot_pool@],
            ),
            (
                StepKind::GenerateInitramfs,
                "Generate ZFS-root initramfs ("@ + kver + ")"@,
                initramfs_text(kver, sviews(g.requirements.initramfs_modules@)),
            ),
        ]
    } else {
        Seq::empty()
    }
}

pub open spec fn boot_assets_step(m: SystemManifest, t: Seq<char>) -> StepSummary {
    (
        StepKind::InstallBootAssets,
        "Copy kernel and initramfs to ESP"@,
        "copy latest kernel/initramfs from "@ + tpath(t, "boot"@) + " to "@ + tpath(
            t,
            m.disk.partitions.efi.mount@,
        ),
    )
}

pub open spec fn bootloader_steps(m: SystemManifest, k: ResolvedKernelCmdline, t: Seq<char>) -> Seq<StepSummary> {
    let esp = tpath(t, m.disk.partitions.efi.mount@);
    let args = join(cmdline_values(k), " "@);
    match crate::manifest::queries::bootloader_of(m) {
        Bootloader::SystemdBoot => seq![
            cmd("Install systemd-boot"@, "bootctl"@, seq!["--esp-path"@, esp, "install"@]),
            boot_assets_step(m, t),
            (
                StepKind::GenerateSystemdBoot,
                "Write systemd-boot loader entry"@,
                "write ESP loader config and oxys boot entry under "@ + esp
                    + " with kernel arguments: "@ + args,
            ),
        ],
        Bootloader::Grub => (if m.disk.layout != DiskLayout::Zfs {
            seq![boot_assets_step(m, t)]
        } else {
            Seq::empty()
        }) + seq![
            cmd(
                "Install GRUB"@,
                "grub-install"@,
                seq![
                    "--target=x86_64-efi"@,
                    "--efi-directory="@ + esp,
                    "--boot-directory="@ + tpath(t, "boot"@),
                    "--removable"@,
                ],
            ),
            (
                StepKind::GenerateGrubConfig,
                "Write grub.cfg"@,
                "write grub.cfg under "@ + tpath(t, "boot/grub"@) + " with kernel arguments: "@
                    + args,
            ),
        ],
    }
}

/// How many services the declared OpenRC runlevels hold (saturating).
pub open spec fn openrc_service_count(m: SystemManifest) -> nat {
    let n = m.services.openrc.boot@.len() + m.services.openrc.default@.len();
    if n > usize::MAX {
        usize::MAX as nat
    } else {
        n
    }
}

/// The declared services need an activation step.
pub open spec fn activates_services(m: SystemManifest) -> bool {
    (m.init_system == InitSystem::Openrc && (authoritative_openrc(m) || m.services.enabled@.len()
        > 0 || m.disk.layout == DiskLayout::Zfs)) || m.services.enabled@.len() > 0
        || m.services.disabled@.len() > 0
}

pub open spec fn service_steps(m: SystemManifest) -> Seq<StepSummary> {
    if activates_services(m) {
        match m.init_system {
            InitSystem::Systemd => seq![
                (
                    StepKind::ActivateSystemdServices,
                    "Apply systemd service state"@,
                    "apply systemd service state ("@ + decimal(m.services.enabled@.len())
                        + " enable, "@ + decimal(m.services.disabled@.len()) + " disable)"@,
                ),
            ],
            InitSystem::Openrc => seq![
                (
                    StepKind::ActivateOpenrcServices,
                    "Apply openrc service state"@,
                    "apply openrc service state: reconcile authoritative runlevels ("@ + decimal(
                        openrc_service_count(m),
                    ) + " enabled)"@,
                ),
            ],
        }
    } else {
        Seq::empty()
    }
}

pub open spec fn prime_of(g: ResolvedGraphics) -> Option<crate::manifest::PrimeMode> {
    match g.policy.nvidia {
        Some(n) => Some(n.prime),
        None => None,
    }
}

pub open spec fn tail_steps(m: SystemManifest, g: ResolvedGraphics, t: Seq<char>, config: Option<Seq<char>>) -> Seq<StepSummary> {
    seq![
        (
            StepKind::SetupLogin,
            "Configure console login"@,
            "configure tty1 for "@ + login_kind(m.session.mode == SessionMode::Graphical) + " under "@
                + t,
        ),
        (
            StepKind::ConfigureGraphicsRuntime,
            "Configure graphics runtime policy and diagnostics"@,
            "write resolved NVIDIA/PRIME policy and graphics diagnostics under "@ + t + " ("@
                + prime_debug(prime_of(g)) + ")"@,
        ),
        (
            StepKind::SeedOxysConfig,
            "Seed /etc/oxys declarative config and applied state"@,
            match config {
                Some(c) => "seed "@ + tpath(tpath(t, "etc/oxys"@), "config.fe2o3"@) + " from "@ + c
                    + " and write current-manifest.toml"@,
                None => "write "@ + tpath(tpath(t, "etc/oxys"@), "current-manifest.toml"@)
                    + " (applied state)"@,
            },
        ),
        (
            StepKind::Finalize,
            "Finalize installation (unmount and export)"@,
            "finalize installation (unmount target and export pools under "@ + t + ")"@,
        ),
    ]
}

/// The steps of an install of manifest `m` (with every required package)
/// from `s` onto `t`.
pub open spec fn install_steps(
    m: SystemManifest,
    g: ResolvedGraphics,
    k: ResolvedKernelCmdline,
    sw: ResolvedSwap,
    s: Seq<char>,
    t: Seq<char>,
    config: Option<Seq<char>>,
    kver: Seq<char>,
) -> Seq<StepSummary> {
    head_steps(m, g, k, s, t) + system_steps(m, sw, t) + zfs_steps(m, g, t, kver) + bootloader_steps(
        m,
        k,
        t,
    ) + service_steps(m) + tail_steps(m, g, t, config)
}


// ---------------------------------------------------------------------------
// Laws of the planned order.
// ---------------------------------------------------------------------------

/// Every install plan resolves its policies before anything runs, copies the
/// live system and verifies the copy before anything else touches the
/// target, emerges the manifest's packages (when it has any) right after the
/// pseudo filesystems are mounted, and ends by seeding `/etc/oxys` and then
/// finalizing. A ZFS-root plan, and only one, generates an initramfs.
#[verifier::spinoff_prover]
#[verifier::rlimit(40)]
pub proof fn lemma_install_step_order(
    m: SystemManifest,
    g: ResolvedGraphics,
    k: ResolvedKernelCmdline,
    sw: ResolvedSwap,
    s: Seq<char>,
    t: Seq<char>,
    config: Option<Seq<char>>,
    kver: Seq<char>,
)
    ensures
        ({
            let p = install_steps(m, g, k, sw, s, t, config, kver);
            &&& p.len() >= 19
            &&& p[0].0 == StepKind::ResolveSession
            &&& p[1].0 == StepKind::ResolveGraphics
            &&& p[2].0 == StepKind::ResolveKernelCmdline
            &&& p[3].0 == StepKind::Command
            &&& p[4].0 == StepKind::Command
            &&& p[5].0 == StepKind::VerifyTargetLayout
            &&& p[8].0 == StepKind::BindMountPseudo
            &&& (p[9].0 == StepKind::EmergePackages <==> m.packages@.len() > 0)
            &&& p[p.len() - 2].0 == StepKind::SeedOxysConfig
            &&& p[p.len() - 1].0 == StepKind::Finalize
            &&& ((exists|i: int| 0 <= i < p.len() && #[trigger] p[i].0 == StepKind::GenerateInitramfs)
                <==> m.disk.layout == DiskLayout::Zfs)
        }),
{
    let h = head_steps(m, g, k, s, t);
    let sy = system_steps(m, sw, t);
    let z = zfs_steps(m, g, t, kver);
    let b = bootloader_steps(m, k, t);
    let sv = service_steps(m);
    let tl = tail_steps(m, g, t, config);
    let p = install_steps(m, g, k, sw, s, t, config, kver);
    assert(p == h + sy + z + b + sv + tl);
    assert(sy.len() >= 5);
    assert(b.len() >= 2);
    assert(sy[0].0 == if m.packages@.len() > 0 {
        StepKind::EmergePackages
    } else {
        StepKind::GenerateFstab
    });
    assert(p[9] == sy[0]);
    let n = p.len();
    assert(n >= 19);
    assert(p[0] == h[0] && p[1] == h[1] && p[2] == h[2] && p[3] == h[3] && p[4] == h[4]);
    assert(p[5] == h[5] && p[8] == h[8]);
    assert(p[n - 2] == tl[2] && p[n - 1] == tl[3]);
    assert(p[n - 2].0 == StepKind::SeedOxysConfig);
    assert(p[9].0 == StepKind::EmergePackages <==> m.packages@.len() > 0);
    if m.disk.layout == DiskLayout::Zfs {
        let i: int = (h.len() + sy.len() + 4) as int;
        assert(p[i] == z[4]);
        assert(p[i].0 == StepKind::GenerateInitramfs);
    } else {
        assert(z.len() == 0);
        assert forall|i: int| 0 <= i < p.len() implies #[trigger] p[i].0 != StepKind::GenerateInitramfs by {
            if i < h.len() {
                assert(p[i] == h[i]);
            } else if i < h.len() + sy.len() {
                assert(p[i] == sy[i - h.len()]);
            } else if i < h.len() + sy.len() + b.len() {
                assert(p[i] == b[i - h.len() - sy.len()]);
            } else if i < h.len() + sy.len() + b.len() + sv.len() {
                assert(p[i] == sv[i - h.len() - sy.len() - b.len()]);
            } else {
                assert(p[i] == tl[i - h.len() - sy.len() - b.len() - sv.len()]);
            }
        }
    }
}

// ---------------------------------------------------------------------------
// Building the steps.
// ---------------------------------------------------------------------------

fn push_step(
    steps: &mut Vec<SystemInstallStep>,
    s: SystemInstallStep,
    Ghost(t): Ghost<Seq<char>>,
    Ghost(sw): Ghost<ResolvedSwap>,
    Ghost(users): Ghost<Seq<Seq<char>>>,
)
    requires
        steps_carry(old(steps)@, t, sw, users),
        step_carries(s, t, sw, users),
    ensures
        summaries(final(steps)@) == summaries(old(steps)@).push(summary(s)),
        steps_carry(final(steps)@, t, sw, users),
{
    let ghost before = summaries(steps@);
    let ghost old_steps = steps@;
    steps.push(s);
    assert(summaries(steps@) =~= before.push(summary(s)));
    assert forall|i: int| 0 <= i < steps@.len() implies step_carries(#[trigger] steps@[i], t, sw, users) by {
        if i < old_steps.len() {
            assert(steps@[i] == old_steps[i]);
        }
    }
}

fn tp(target: &str, rel: &str) -> (r: String)
    ensures
        r@ == tpath(target@, rel@),
{
    under(target, rel)
}

fn prefixed(p: &str, s: &str) -> (r: String)
    ensures
        r@ == p@ + s@,
{
    let mut v = chars_of(p);
    push_str(&mut v, s);
    string_of(&v)
}

fn command_step(description: &str, program: &str, args: Vec<String>) -> (r: SystemInstallStep)
    ensures
        summary(r) == cmd(description@, program@, sviews(args@)),
        r is Command,
{
    SystemInstallStep::Command { description: owned(description), program: owned(program), args }
}

fn slashed(p: &str) -> (r: String)
    ensures
        r@ == with_slash(p@),
{
    let mut v = chars_of(p);
    if !(v.len() > 0 && v[v.len() - 1] == '/') {
        v.push('/');
        assert(v@ =~= p@ + "/"@) by {
            reveal_strlit("/");
        }
    }
    string_of(&v)
}

fn rsync_args(source: &str, target: &str) -> (r: Vec<String>)
    ensures
        sviews(r@) == rsync_arg_list(source@, target@),
{
    let mut a: Vec<String> = Vec::new();
    a.push(owned("-aHAXx"));
    a.push(owned("--numeric-ids"));
    a.push(owned("--info=progress2"));
    a.push(prefixed("--exclude=", "/dev/*"));
    a.push(prefixed("--exclude=", "/proc/*"));
    a.push(prefixed("--exclude=", "/sys/*"));
    a.push(prefixed("--exclude=", "/run/*"));
    a.push(prefixed("--exclude=", "/tmp/*"));
    a.push(prefixed("--exclude=", "/mnt/*"));
    a.push(prefixed("--exclude=", "/media/*"));
    a.push(prefixed("--exclude=", "/lost+found"));
    a.push(prefixed("--exclude=", "/boot/efi/*"));
    a.push(prefixed("--exclude=", "/var/tmp/*"));
    a.push(prefixed("--exclude=", "/var/cache/binpkgs/*"));
    a.push(prefixed("--exclude=", "/var/cache/distfiles/*"));
    a.push(prefixed("--exclude=", "/root/.bash_history"));
    a.push(prefixed("--exclude=", "/etc/machine-id"));
    a.push(prefixed("--exclude=", "/etc/ssh/ssh_host_*"));
    a.push(owned(source));
    a.push(owned(target));
    assert(sviews(a@) =~= rsync_arg_list(source@, target@));
    a
}

fn boot_rsync_args(source: &str, target: &str) -> (r: Vec<String>)
    ensures
        sviews(r@) == boot_rsync_arg_list(source@, target@),
{
    let mut a: Vec<String> = Vec::new();
    a.push(owned("-aHAX"));
    a.push(owned("--numeric-ids"));
    a.push(owned("--info=progress2"));
    a.push(owned("--exclude=/efi/*"));
    a.push(owned(source));
    a.push(owned(target));
    assert(sviews(a@) =~= boot_rsync_arg_list(source@, target@));
    a
}

fn push_head(
    steps: &mut Vec<SystemInstallStep>,
    m: &SystemManifest,
    g: &ResolvedGraphics,
    k: &ResolvedKernelCmdline,
    s: &str,
    t: &str,
    Ghost(sw): Ghost<ResolvedSwap>,
)
    requires
        steps_carry(old(steps)@, t@, sw, user_names(m.users@)),
        old(steps)@.len() == 0,
    ensures
        summaries(final(steps)@) == head_steps(*m, *g, *k, s@, t@),
        steps_carry(final(steps)@, t@, sw, user_names(m.users@)),
{
    let ghost s0 = summaries(steps@);
    assert(s0 =~= Seq::<StepSummary>::empty());
    let mode = m.session.mode;
    push_step(
        steps,
        SystemInstallStep::ResolveSession {
            description: owned("Resolve and validate session policy"),
            mode,
        },
        Ghost(t@),
        Ghost(sw),
        Ghost(user_names(m.users@)),
    );
    push_step(
        steps,
        SystemInstallStep::ResolveGraphics {
            description: owned("Resolve and validate graphics policy"),
            report: g.render(),
        },
        Ghost(t@),
        Ghost(sw),
        Ghost(user_names(m.users@)),
    );
    push_step(
        steps,
        SystemInstallStep::ResolveKernelCmdline {
            description: owned("Resolve and validate kernel command line"),
            report: k.render(),
        },
        Ghost(t@),
        Ghost(sw),
        Ghost(user_names(m.users@)),
    );
    let src = slashed(s);
    let dst = slashed(t);
    push_step(steps, command_step("Copy live system into target", "rsync", rsync_args(src.as_str(), dst.as_str())), Ghost(t@), Ghost(sw), Ghost(user_names(m.users@)));
    let sb = tp(s, "boot");
    let tb = tp(t, "boot");
    let sbs = slashed(sb.as_str());
    let tbs = slashed(tb.as_str());
    push_step(
        steps,
        command_step("Copy live boot files into target", "rsync", boot_rsync_args(sbs.as_str(), tbs.as_str())),
        Ghost(t@),
        Ghost(sw),
        Ghost(user_names(m.users@)),
    );
    push_step(
        steps,
        SystemInstallStep::VerifyTargetLayout {
            description: owned("Verify copied target layout"),
            target_mount: owned(t),
        },
        Ghost(t@),
        Ghost(sw),
        Ghost(user_names(m.users@)),
    );
    let mut dirs: Vec<String> = Vec::new();
    dirs.push(owned("-p"));
    dirs.push(tp(t, "dev"));
    dirs.push(tp(t, "proc"));
    dirs.push(tp(t, "sys"));
    dirs.push(tp(t, "run"));
    dirs.push(tp(t, "tmp"));
    dirs.push(tp(t, "mnt"));
    dirs.push(tp(t, "media"));
    assert(sviews(dirs@) =~= seq![
        "-p"@,
        tpath(t@, "dev"@),
        tpath(t@, "proc"@),
        tpath(t@, "sys"@),
        tpath(t@, "run"@),
        tpath(t@, "tmp"@),
        tpath(t@, "mnt"@),
        tpath(t@, "media"@),
    ]);
    push_step(steps, command_step("Create target runtime directories", "mkdir", dirs), Ghost(t@), Ghost(sw), Ghost(user_names(m.users@)));
    let mut perm: Vec<String> = Vec::new();
    perm.push(owned("1777"));
    perm.push(tp(t, "tmp"));
    assert(sviews(perm@) =~= seq!["1777"@, tpath(t@, "tmp"@)]);
    push_step(steps, command_step("Set target /tmp permissions", "chmod", perm), Ghost(t@), Ghost(sw), Ghost(user_names(m.users@)));
    push_step(
        steps,
        SystemInstallStep::BindMountPseudo {
            description: owned("Bind mount pseudo filesystems"),
            target_mount: owned(t),
        },
        Ghost(t@),
        Ghost(sw),
        Ghost(user_names(m.users@)),
    );
    proof {
        let h = head_steps(*m, *g, *k, s@, t@);
        assert(summaries(steps@).len() == h.len());
        assert(summaries(steps@)[0] == h[0]);
        assert(summaries(steps@)[1] == h[1]);
        assert(summaries(steps@)[2] == h[2]);
        assert(summaries(steps@)[3] == h[3]);
        assert(summaries(steps@)[4] == h[4]);
        assert(summaries(steps@)[5] == h[5]);
        assert(summaries(steps@)[6] == h[6]);
        assert(summaries(steps@)[7] == h[7]);
        assert(summaries(steps@)[8] == h[8]);
        assert(summaries(steps@) =~= h);
    }
}

fn names_of_packages(ps: &Vec<Package>) -> (r: Vec<String>)
    ensures
        sviews(r@) == package_names(ps@),
{
    let mut out: Vec<String> = Vec::new();
    let mut i: usize = 0;
    while i < ps.len()
        invariant
            i <= ps.len(),
            sviews(out@) == package_names(ps@.subrange(0, i as int)),
        decreases ps.len() - i,
    {
        let ghost before = sviews(out@);
        out.push(owned(ps[i].package.as_str()));
        i = i + 1;
        assert(package_names(ps@.subrange(0, i as int)) =~= package_names(ps@.subrange(0, i - 1)).push(
            ps@[i - 1].package@,
        ));
        assert(sviews(out@) =~= before.push(ps@[i - 1].package@));
    }
    assert(ps@.subrange(0, ps.len() as int) =~= ps@);
    out
}

fn names_of_users(us: &Vec<User>) -> (r: Vec<String>)
    ensures
        sviews(r@) == user_names(us@),
{
    let mut out: Vec<String> = Vec::new();
    let mut i: usize = 0;
    while i < us.len()
        invariant
            i <= us.len(),
            sviews(out@) == user_names(us@.subrange(0, i as int)),
        decreases us.len() - i,
    {
        let ghost before = sviews(out@);
        out.push(owned(us[i].name.as_str()));
        i = i + 1;
        assert(user_names(us@.subrange(0, i as int)) =~= user_names(us@.subrange(0, i - 1)).push(
            username_text(us@[i - 1].name),
        ));
        assert(sviews(out@) =~= before.push(username_text(us@[i - 1].name)));
    }
    assert(us@.subrange(0, us.len() as int) =~= us@);
    out
}

fn counted(prefix: &str, n: usize, suffix: &str) -> (r: String)
    ensures
        r@ == prefix@ + decimal(n as nat) + suffix@,
{
    let mut v = chars_of(prefix);
    push_decimal(&mut v, n as u64);
    push_str(&mut v, suffix);
    string_of(&v)
}

fn push_system(steps: &mut Vec<SystemInstallStep>, m: &SystemManifest, sw: ResolvedSwap, t: &str)
    requires
        steps_carry(old(steps)@, t@, sw, user_names(m.users@)),
    ensures
        summaries(final(steps)@) == summaries(old(steps)@) + system_steps(*m, sw, t@),
        steps_carry(final(steps)@, t@, sw, user_names(m.users@)),
{
    let ghost s0 = summaries(steps@);
    if m.packages.len() > 0 {
        push_step(
            steps,
            SystemInstallStep::EmergePackages {
                description: counted("Install ", m.packages.len(), " manifest package(s)"),
                packages: names_of_packages(&m.packages),
                target_mount: owned(t),
            },
            Ghost(t@),
            Ghost(sw),
            Ghost(user_names(m.users@)),
        );
    }
    let ghost s1 = summaries(steps@);
    push_step(
        steps,
        SystemInstallStep::GenerateFstab { description: owned("Write target fstab"), target_mount: owned(t) },
        Ghost(t@),
        Ghost(sw),
        Ghost(user_names(m.users@)),
    );
    push_step(
        steps,
        SystemInstallStep::ConfigureSwap {
            description: owned("Configure target swap policy"),
            resolved_swap: sw,
            target_mount: owned(t),
        },
        Ghost(t@),
        Ghost(sw),
        Ghost(user_names(m.users@)),
    );
    push_step(
        steps,
        SystemInstallStep::ConfigureFirewall {
            description: owned("Configure target firewall policy"),
            enabled: m.firewall.enabled(),
            target_mount: owned(t),
        },
        Ghost(t@),
        Ghost(sw),
        Ghost(user_names(m.users@)),
    );
    push_step(
        steps,
        SystemInstallStep::ResetMachineId {
            description: owned("Reset target machine-id"),
            target_mount: owned(t),
        },
        Ghost(t@),
        Ghost(sw),
        Ghost(user_names(m.users@)),
    );
    push_step(
        steps,
        SystemInstallStep::ConfigureHostname {
            description: owned("Configure target hostname"),
            hostname: owned(m.os.hostname.as_str()),
            target_mount: owned(t),
        },
        Ghost(t@),
        Ghost(sw),
        Ghost(user_names(m.users@)),
    );
    let ghost s2 = summaries(steps@);
    let tz = trim_str(m.os.timezone.as_str());
    if tz.len() > 0 {
        push_step(
            steps,
            SystemInstallStep::ConfigureTimezone {
                description: owned("Configure target timezone"),
                timezone: string_of(&tz),
                target_mount: owned(t),
            },
            Ghost(t@),
            Ghost(sw),
            Ghost(user_names(m.users@)),
        );
    }
    let ghost s3 = summaries(steps@);
    let locale = trim_str(m.os.locale.as_str());
    if locale.len() > 0 {
        push_step(
            steps,
            SystemInstallStep::ConfigureLocale {
                description: owned("Configure target locale"),
                locale: string_of(&locale),
                target_mount: owned(t),
            },
            Ghost(t@),
            Ghost(sw),
            Ghost(user_names(m.users@)),
        );
    }
    let ghost s4 = summaries(steps@);
    if m.users.len() > 0 {
        push_step(
            steps,
            SystemInstallStep::SetupUsers {
                description: counted("Create ", m.users.len(), " user account(s)"),
                users: names_of_users(&m.users),
                target_mount: owned(t),
            },
            Ghost(t@),
            Ghost(sw),
            Ghost(user_names(m.users@)),
        );
    }
    proof {
        let parts = system_steps(*m, sw, t@);
        assert(summaries(steps@) =~= s0 + parts);
    }
}

fn push_zfs(steps: &mut Vec<SystemInstallStep>, m: &SystemManifest, g: &ResolvedGraphics, t: &str, kver: &str, Ghost(sw): Ghost<ResolvedSwap>)
    requires
        steps_carry(old(steps)@, t@, sw, user_names(m.users@)),
    ensures
        summaries(final(steps)@) == summaries(old(steps)@) + zfs_steps(*m, *g, t@, kver@),
        steps_carry(final(steps)@, t@, sw, user_names(m.users@)),
{
    let ghost s0 = summaries(steps@);
    match m.disk.layout {
        DiskLayout::Zfs => {
            let mut a1: Vec<String> = Vec::new();
            a1.push(owned("-p"));
            a1.push(tp(t, "etc/zfs"));
            assert(sviews(a1@) =~= seq!["-p"@, tpath(t@, "etc/zfs"@)]);
            push_step(steps, command_step("Create target ZFS cache directory", "mkdir", a1), Ghost(t@), Ghost(sw), Ghost(user_names(m.users@)));
            let mut a2: Vec<String> = Vec::new();
            a2.push(owned("/etc/hostid"));
            a2.push(tp(t, "etc/hostid"));
            assert(sviews(a2@) =~= seq!["/etc/hostid"@, tpath(t@, "etc/hostid"@)]);
            push_step(steps, command_step("Copy hostid to target", "cp", a2), Ghost(t@), Ghost(sw), Ghost(user_names(m.users@)));
            let cache = tp(t, "etc/zfs/zpool.cache");
            let mut a3: Vec<String> = Vec::new();
            a3.push(owned("set"));
            a3.push(prefixed("cachefile=", cache.as_str()));
            a3.push(owned(m.disk.zfs.pool.as_str()));
            assert(sviews(a3@) =~= seq!["set"@, "cachefile="@ + tpath(t@, "etc/zfs/zpool.cache"@), m.disk.zfs.pool@]);
            push_step(steps, command_step("Refresh root pool import cache", "zpool", a3), Ghost(t@), Ghost(sw), Ghost(user_names(m.users@)));
            let mut a4: Vec<String> = Vec::new();
            a4.push(owned("set"));
            a4.push(prefixed("cachefile=", cache.as_str()));
            a4.push(owned(m.disk.zfs.boot_pool.as_str()));
            assert(sviews(a4@) =~= seq!["set"@, "cachefile="@ + tpath(t@, "etc/zfs/zpool.cache"@), m.disk.zfs.boot_pool@]);
            push_step(steps, command_step("Refresh boot pool import cache", "zpool", a4), Ghost(t@), Ghost(sw), Ghost(user_names(m.users@)));
            let mut d = chars_of("Generate ZFS-root initramfs (");
            push_str(&mut d, kver);
            push_str(&mut d, ")");
            push_step(
                steps,
                SystemInstallStep::GenerateInitramfs {
                    description: string_of(&d),
                    target_mount: owned(t),
                    kver: owned(kver),
                    drivers: crate::manifest::packages::copy_strings(&g.requirements.initramfs_modules),
                },
                Ghost(t@),
                Ghost(sw),
                Ghost(user_names(m.users@)),
            );
            assert(summaries(steps@) =~= s0 + zfs_steps(*m, *g, t@, kver@));
        },
        _ => {
            assert(summaries(steps@) =~= s0 + zfs_steps(*m, *g, t@, kver@));
        },
    }
}

fn boot_assets(m: &SystemManifest, t: &str) -> (r: SystemInstallStep)
    ensures
        summary(r) == boot_assets_step(*m, t@),
        r matches SystemInstallStep::InstallBootAssets { target_mount, .. } && target_mount@ == t@,
{
    SystemInstallStep::InstallBootAssets {
        description: owned("Copy kernel and initramfs to ESP"),
        target_mount: owned(t),
        efi_mount: owned(m.disk.partitions.efi.mount.as_str()),
    }
}

fn push_bootloader(steps: &mut Vec<SystemInstallStep>, m: &SystemManifest, k: &ResolvedKernelCmdline, t: &str, Ghost(sw): Ghost<ResolvedSwap>)
    requires
        steps_carry(old(steps)@, t@, sw, user_names(m.users@)),
    ensures
        summaries(final(steps)@) == summaries(old(steps)@) + bootloader_steps(*m, *k, t@),
        steps_carry(final(steps)@, t@, sw, user_names(m.users@)),
{
    let ghost s0 = summaries(steps@);
    let esp = tp(t, m.disk.partitions.efi.mount.as_str());
    match m.resolved_bootloader() {
        Bootloader::SystemdBoot => {
            let mut a: Vec<String> = Vec::new();
            a.push(owned("--esp-path"));
            a.push(owned(esp.as_str()));
            a.push(owned("install"));
            assert(sviews(a@) =~= seq!["--esp-path"@, tpath(t@, m.disk.partitions.efi.mount@), "install"@]);
            push_step(steps, command_step("Install systemd-boot", "bootctl", a), Ghost(t@), Ghost(sw), Ghost(user_names(m.users@)));
            push_step(steps, boot_assets(m, t), Ghost(t@), Ghost(sw), Ghost(user_names(m.users@)));
            push_step(
                steps,
                SystemInstallStep::GenerateSystemdBoot {
                    description: owned("Write systemd-boot loader entry"),
                    efi_mount: owned(m.disk.partitions.efi.mount.as_str()),
                    kernel_args: super::boot::cmdline_strings(k),
                    target_mount: owned(t),
                },
                Ghost(t@),
                Ghost(sw),
                Ghost(user_names(m.users@)),
            );
        },
        Bootloader::Grub => {
            if m.disk.layout != DiskLayout::Zfs {
                push_step(steps, boot_assets(m, t), Ghost(t@), Ghost(sw), Ghost(user_names(m.users@)));
            }
            let mut a: Vec<String> = Vec::new();
            a.push(owned("--target=x86_64-efi"));
            a.push(prefixed("--efi-directory=", esp.as_str()));
            let boot = tp(t, "boot");
            a.push(prefixed("--boot-directory=", boot.as_str()));
            a.push(owned("--removable"));
            assert(sviews(a@) =~= seq![
                "--target=x86_64-efi"@,
                "--efi-directory="@ + tpath(t@, m.disk.partitions.efi.mount@),
                "--boot-directory="@ + tpath(t@, "boot"@),
                "--removable"@,
            ]);
            push_step(steps, command_step("Install GRUB", "grub-install", a), Ghost(t@), Ghost(sw), Ghost(user_names(m.users@)));
            push_step(
                steps,
                SystemInstallStep::GenerateGrubConfig {
                    description: owned("Write grub.cfg"),
                    kernel_args: super::boot::cmdline_strings(k),
                    target_mount: owned(t),
                },
                Ghost(t@),
                Ghost(sw),
                Ghost(user_names(m.users@)),
            );
        },
    }
    assert(summaries(steps@) =~= s0 + bootloader_steps(*m, *k, t@));
}

fn push_services(steps: &mut Vec<SystemInstallStep>, m: &SystemManifest, t: &str, Ghost(sw): Ghost<ResolvedSwap>)
    requires
        steps_carry(old(steps)@, t@, sw, user_names(m.users@)),
    ensures
        summaries(final(steps)@) == summaries(old(steps)@) + service_steps(*m),
        steps_carry(final(steps)@, t@, sw, user_names(m.users@)),
{
    let ghost s0 = summaries(steps@);
    let authoritative = m.services.openrc.boot.len() > 0 || m.services.openrc.default.len() > 0;
    let openrc = match m.init_system {
        InitSystem::Openrc => true,
        InitSystem::Systemd => false,
    };
    let zfs = match m.disk.layout {
        DiskLayout::Zfs => true,
        _ => false,
    };
    if (openrc && (authoritative || m.services.enabled.len() > 0 || zfs)) || m.services.enabled.len()
        > 0 || m.services.disabled.len() > 0 {
        match m.init_system {
            InitSystem::Systemd => {
                push_step(
                    steps,
                    SystemInstallStep::ActivateSystemdServices {
                        description: owned("Apply systemd service state"),
                        enabled: m.services.enabled.len(),
                        disabled: m.services.disabled.len(),
                        target_mount: owned(t),
                    },
                    Ghost(t@),
                    Ghost(sw),
                    Ghost(user_names(m.users@)),
                );
            },
            InitSystem::Openrc => {
                push_step(
                    steps,
                    SystemInstallStep::ActivateOpenrcServices {
                        description: owned("Apply openrc service state"),
                        enabled: m.services.openrc.boot.len().saturating_add(m.services.openrc.default.len()),
                        target_mount: owned(t),
                    },
                    Ghost(t@),
                    Ghost(sw),
                    Ghost(user_names(m.users@)),
                );
            },
        }
    }
    assert(summaries(steps@) =~= s0 + service_steps(*m));
}

fn push_tail(
    steps: &mut Vec<SystemInstallStep>,
    m: &SystemManifest,
    g: &ResolvedGraphics,
    t: &str,
    config: Option<&str>,
    Ghost(sw): Ghost<ResolvedSwap>,
)
    requires
        steps_carry(old(steps)@, t@, sw, user_names(m.users@)),
    ensures
        summaries(final(steps)@) == summaries(old(steps)@) + tail_steps(
            *m,
            *g,
            t@,
            match config {
                Some(c) => Some(c@),
                None => None,
            },
        ),
        steps_carry(final(steps)@, t@, sw, user_names(m.users@)),
{
    let ghost s0 = summaries(steps@);
    let graphical = match m.session.mode {
        SessionMode::Graphical => true,
        _ => false,
    };
    push_step(
        steps,
        SystemInstallStep::SetupLogin {
            description: owned("Configure console login"),
            graphical,
            target_mount: owned(t),
        },
        Ghost(t@),
        Ghost(sw),
        Ghost(user_names(m.users@)),
    );
    let prime = match g.policy.nvidia {
        Some(n) => Some(n.prime),
        None => None,
    };
    push_step(
        steps,
        SystemInstallStep::ConfigureGraphicsRuntime {
            description: owned("Configure graphics runtime policy and diagnostics"),
            prime,
            target_mount: owned(t),
        },
        Ghost(t@),
        Ghost(sw),
        Ghost(user_names(m.users@)),
    );
    let source_fe2o3 = match config {
        Some(c) => Some(owned(c)),
        None => None,
    };
    push_step(
        steps,
        SystemInstallStep::SeedOxysConfig {
            description: owned("Seed /etc/oxys declarative config and applied state"),
            source_fe2o3,
            target_mount: owned(t),
        },
        Ghost(t@),
        Ghost(sw),
        Ghost(user_names(m.users@)),
    );
    push_step(
        steps,
        SystemInstallStep::Finalize {
            description: owned("Finalize installation (unmount and export)"),
            target_mount: owned(t),
        },
        Ghost(t@),
        Ghost(sw),
        Ghost(user_names(m.users@)),
    );
    assert(summaries(steps@) =~= s0 + tail_steps(
        *m,
        *g,
        t@,
        match config {
            Some(c) => Some(c@),
            None => None,
        },
    ));
}


// ---------------------------------------------------------------------------
// The planner.
// ---------------------------------------------------------------------------

pub open spec fn opt_view(o: Option<String>) -> Option<Seq<char>> {
    match o {
        Some(s) => Some(s@),
        None => None,
    }
}

/// The kernel version the image boots, as the planner reads it.
pub open spec fn image_kernel_version(image: SourceImage) -> Option<Seq<char>> {
    kernel_version_of(opt_view(image.newest_kernel), sviews(image.module_dirs@))
}

/// The locale check passes: no locale, or one the image's catalogue lists.
pub open spec fn locale_supported(m: SystemManifest, catalogue: Option<String>) -> bool {
    planned_locale(m).len() == 0 || match catalogue {
        Some(c) => crate::locales::supported_line(c@, m.os.locale@) is Some,
        None => false,
    }
}

/// The checks made once the swap policy is resolved, other than the
/// firewall's: the message of the first that fails.
pub open spec fn late_check(m: SystemManifest, sw: ResolvedSwap, image: SourceImage) -> Option<Seq<char>> {
    if sw.zram is Some && m.init_system != InitSystem::Openrc {
        Some(zram_openrc_message())
    } else if !locale_supported(m, image.locale_catalogue) {
        Some(unsupported_locale_message(planned_locale(m)))
    } else if authoritative_openrc(m) && sw.zram is Some && !in_boot_runlevel(m, "zram-init"@) {
        Some(zram_init_message())
    } else {
        None
    }
}

/// The checks after the firewall's: ZFS boot services and the kernel version.
pub open spec fn final_check(m: SystemManifest, image: SourceImage) -> Option<Seq<char>> {
    if authoritative_openrc(m) && m.disk.layout == DiskLayout::Zfs && !in_boot_runlevel(
        m,
        "zfs-import"@,
    ) {
        Some(zfs_service_message("zfs-import"@))
    } else if authoritative_openrc(m) && m.disk.layout == DiskLayout::Zfs && !in_boot_runlevel(
        m,
        "zfs-mount"@,
    ) {
        Some(zfs_service_message("zfs-mount"@))
    } else if m.disk.layout == DiskLayout::Zfs && image_kernel_version(image) is None {
        Some(kernel_version_message())
    } else {
        None
    }
}

fn in_boot(m: &SystemManifest, service: &str) -> (r: bool)
    ensures
        r == in_boot_runlevel(*m, service@),
{
    let v = &m.services.openrc.boot;
    let mut i: usize = 0;
    while i < v.len()
        invariant
            i <= v.len(),
            v == &m.services.openrc.boot,
            forall|k: int| 0 <= k < i ==> #[trigger] v@[k]@ != service@,
        decreases v.len() - i,
    {
        if crate::text::str_eq(v[i].as_str(), service) {
            return true;
        }
        i = i + 1;
    }
    false
}

fn invalid_plan(v: Vec<char>) -> (r: SystemInstallError)
    ensures
        r matches SystemInstallError::InvalidPlan(m) && m@ == v@,
{
    SystemInstallError::InvalidPlan(string_of(&v))
}

fn invalid_plan_str(s: &str) -> (r: SystemInstallError)
    ensures
        r matches SystemInstallError::InvalidPlan(m) && m@ == s@,
{
    SystemInstallError::InvalidPlan(owned(s))
}

/// Why pinning PRIME routing to the running system's render nodes fails, if
/// it does.
pub open spec fn nodes_failure(g: ResolvedGraphics, nodes: Seq<RenderNode>) -> Option<Seq<char>> {
    match g.requirements.prime {
        None => None,
        Some(p) => {
            let cv = crate::graphics::compositor_vendor(p.mode, g.policy.mesa_video_cards@);
            if p.mode == PrimeMode::Disabled {
                Some("disabled PRIME has no routing requirement"@)
            } else if !crate::graphics::has_node_of(nodes, cv) {
                Some(
                    "PRIME "@ + crate::graphics::prime_mode_name(p.mode)
                        + " could not find the required compositor render node for PCI vendor "@ + cv,
                )
            } else if p.mode == PrimeMode::Offload && !crate::graphics::has_node_of(nodes, "0x10de"@) {
                Some("PRIME offload could not find an NVIDIA render node"@)
            } else {
                None
            }
        },
    }
}

/// The package names of `m` once the packages `g` requires are added.
pub open spec fn names_after_graphics(m: SystemManifest, g: ResolvedGraphics) -> Seq<Seq<char>> {
    crate::graphics::names_with_required(
        crate::graphics::package_names(m.packages@),
        crate::manifest::accounts::views(g.requirements.packages@),
    )
}

/// The firewall check of `m` with the packages `g` requires added.
pub open spec fn firewall_passes(m: SystemManifest, g: ResolvedGraphics) -> bool {
    m.firewall is Disabled || (crate::manifest::firewall::zero_port_protocol(m.firewall) is None
        && m.init_system == InitSystem::Openrc && names_after_graphics(m, g).contains(
        crate::manifest::firewall::nftables_package(),
    ) && crate::manifest::firewall::has_string(
        m.services.openrc.default@,
        crate::manifest::firewall::nftables_service(),
    ))
}

/// The firewall error `e` is the first failing firewall check of `m` with
/// the packages `g` requires added.
pub open spec fn firewall_error_is(e: FirewallValidationError, m: SystemManifest, g: ResolvedGraphics) -> bool {
    if crate::manifest::firewall::zero_port_protocol(m.firewall) is Some {
        e matches FirewallValidationError::ZeroPort { protocol } && protocol@
            == crate::manifest::firewall::zero_port_protocol(m.firewall)->Some_0
    } else if m.init_system != InitSystem::Openrc {
        e == FirewallValidationError::UnsupportedInit(m.init_system)
    } else if !names_after_graphics(m, g).contains(crate::manifest::firewall::nftables_package()) {
        e == FirewallValidationError::MissingPackage
    } else {
        e == FirewallValidationError::MissingService
    }
}

/// Every check after graphics resolution passes for the resolution `g`.
pub open spec fn passes_after_graphics(m: SystemManifest, g: ResolvedGraphics, image: SourceImage, root: Seq<char>) -> bool {
    let sw = manifest_swap_spec(m.disk.partitions.swap, m.swap, image.ram_bytes);
    &&& nodes_failure(g, image.render_nodes@) is None
    &&& crate::kernel_cmdline::merge_all(crate::kernel_cmdline::kernel_entries(m, g)) is Ok
    &&& source_comparison(g.requirements, root, image.graphics_probe).missing.len() == 0
    &&& sw is Ok
    &&& late_check(m, sw->Ok_0, image) is None
    &&& firewall_passes(m, g)
    &&& final_check(m, image) is None
}

/// What planning returns once the manifest's graphics policy resolved to
/// `g`: the first failing check after it, in the order planning makes them,
/// or a plan.
pub open spec fn after_graphics(
    m: SystemManifest,
    g: ResolvedGraphics,
    image: SourceImage,
    root: Seq<char>,
    r: Result<SystemInstallPlan, SystemInstallError>,
) -> bool {
    match nodes_failure(g, image.render_nodes@) {
        Some(msg) => r matches Err(SystemInstallError::Graphics(e)) && is_invalid(e, msg),
        None => match crate::kernel_cmdline::merge_all(crate::kernel_cmdline::kernel_entries(m, g)) {
            Err(f) => r matches Err(SystemInstallError::KernelCmdline(e)) && crate::kernel_cmdline::merged_as(
                Err(e),
                Err(f),
            ),
            Ok(_) => {
                let c = source_comparison(g.requirements, root, image.graphics_probe);
                if c.missing.len() > 0 {
                    r matches Err(SystemInstallError::Graphics(GraphicsResolveError::Capability(msg))) && msg@
                        == join(c.missing, "; "@)
                } else {
                    match manifest_swap_spec(m.disk.partitions.swap, m.swap, image.ram_bytes) {
                        Err(e) => r == Err::<SystemInstallPlan, SystemInstallError>(SystemInstallError::Swap(e)),
                        Ok(sw) => match late_check(m, sw, image) {
                            Some(msg) => r matches Err(SystemInstallError::InvalidPlan(x)) && x@ == msg,
                            None => if !firewall_passes(m, g) {
                                r matches Err(SystemInstallError::Firewall(e)) && firewall_error_is(e, m, g)
                            } else {
                                match final_check(m, image) {
                                    Some(msg) => r matches Err(SystemInstallError::InvalidPlan(x)) && x@ == msg,
                                    None => r is Ok,
                                }
                            },
                        },
                    }
                }
            },
        },
    }
}

/// A package of `ps` is named `a` exactly when `a` is among their names.
proof fn lemma_has_package_names(ps: Seq<Package>, a: Seq<char>)
    ensures
        crate::manifest::swap::has_package(ps, a) <==> crate::graphics::package_names(ps).contains(a),
{
    let names = crate::graphics::package_names(ps);
    if crate::manifest::swap::has_package(ps, a) {
        let i = choose|i: int| 0 <= i < ps.len() && ps[i].package@ == a;
        assert(names[i] == a);
    }
    if names.contains(a) {
        let i = choose|i: int| 0 <= i < names.len() && names[i] == a;
        assert(ps[i].package@ == a);
    }
}

/// Plans the install once the manifest's graphics policy resolved to `g0`:
/// every check after graphics resolution runs in order, and the plan is
/// built from what they resolved.
#[verifier::rlimit(60)]
fn plan_resolved(
    manifest: SystemManifest,
    g0: ResolvedGraphics,
    source_root: &str,
    target_mount: &str,
    config_source: Option<&str>,
    image: SourceImage,
) -> (r: Result<SystemInstallPlan, SystemInstallError>)
    requires
        image.source_exists && image.target_exists,
        early_check(manifest, image.timezone_known) is None,
        graphics_outcome(manifest, Ok(g0)),
    ensures
        after_graphics(manifest, g0, image, source_root@, r),
        r is Ok ==> {
            let plan = r->Ok_0;
            &&& image.source_exists && image.target_exists
            &&& early_check(manifest, image.timezone_known) is None
            &&& manifest_swap_spec(manifest.disk.partitions.swap, manifest.swap, image.ram_bytes)
                == Ok::<ResolvedSwap, SwapResolveError>(plan.resolved_swap)
            &&& late_check(manifest, plan.resolved_swap, image) is None
            &&& final_check(manifest, image) is None
            &&& crate::manifest::firewall::firewall_ok(plan.manifest)
            &&& plan.source_root@ == source_root@
            &&& plan.target_mount@ == target_mount@
            &&& plan.manifest == (SystemManifest { packages: plan.manifest.packages, ..manifest })
            &&& plan.manifest.packages@.len() >= manifest.packages@.len()
            &&& plan.manifest.packages@.subrange(0, manifest.packages@.len() as int)
                == manifest.packages@
            &&& comparison_view(plan.resolved_graphics.capabilities) == source_comparison(
                plan.resolved_graphics.requirements,
                source_root@,
                image.graphics_probe,
            )
            &&& plan.resolved_graphics.policy.nvidia == manifest.hardware.graphics.nvidia
            &&& crate::kernel_cmdline::merged_as(
                Ok(plan.resolved_kernel_cmdline),
                crate::kernel_cmdline::merge_all(
                    crate::kernel_cmdline::kernel_entries(manifest, plan.resolved_graphics),
                ),
            )
            &&& steps_carry(
                plan.steps@,
                target_mount@,
                plan.resolved_swap,
                user_names(plan.manifest.users@),
            )
            &&& summaries(plan.steps@) == install_steps(
                plan.manifest,
                plan.resolved_graphics,
                plan.resolved_kernel_cmdline,
                plan.resolved_swap,
                source_root@,
                target_mount@,
                match config_source {
                    Some(c) => Some(c@),
                    None => None,
                },
                match image_kernel_version(image) {
                    Some(v) => v,
                    None => Seq::empty(),
                },
            )
        },
{
    let ghost m0 = manifest;
    let ghost img = image;
    let ghost root = source_root@;
    let SourceImage {
        source_exists,
        target_exists,
        timezone_known,
        locale_catalogue,
        ram_bytes,
        render_nodes,
        graphics_probe,
        newest_kernel,
        module_dirs,
    } = image;
    let g1 = match g0.resolve_runtime_nodes(&render_nodes) {
        Ok(g) => g,
        Err(e) => {
            let r = Err(SystemInstallError::Graphics(e));
            proof {
                assert(nodes_failure(g0, img.render_nodes@) is Some);
                assert(after_graphics(m0, g0, img, root, r));
            }
            return r;
        },
    };
    proof {
        assert(nodes_failure(g0, img.render_nodes@) is None);
        assert(g1.requirements.kernel_args == g0.requirements.kernel_args);
        assert(crate::kernel_cmdline::kernel_entries(m0, g1) == crate::kernel_cmdline::kernel_entries(m0, g0));
        crate::capability::lemma_comparison_ignores_prime(g0.requirements, g1.requirements, root, img.graphics_probe);
    }
    let kc = match resolve_kernel_cmdline_with_graphics(&manifest, &g1) {
        Ok(k) => k,
        Err(e) => {
            let r = Err(SystemInstallError::KernelCmdline(e));
            proof {
                assert(after_graphics(m0, g0, img, root, r));
            }
            return r;
        },
    };
    let capabilities = compare_source_capabilities(&g1.requirements, source_root, graphics_probe);
    let ghost caps = capabilities;
    let g2 = match g1.validate_source(capabilities) {
        Ok(g) => g,
        Err(e) => {
            let r = Err(SystemInstallError::Graphics(e));
            proof {
                assert(sviews(caps.missing@) == source_comparison(g0.requirements, root, img.graphics_probe).missing);
                assert(after_graphics(m0, g0, img, root, r));
            }
            return r;
        },
    };
    proof {
        assert(g2.requirements == g1.requirements);
        assert(crate::kernel_cmdline::kernel_entries(m0, g2) == crate::kernel_cmdline::kernel_entries(
            m0,
            g1,
        ));
        assert(sviews(caps.missing@) == source_comparison(g0.requirements, root, img.graphics_probe).missing);
        assert(source_comparison(g0.requirements, root, img.graphics_probe).missing.len() == 0);
    }
    let m1 = g2.materialize_manifest(manifest);
    let sw = match m1.resolved_swap_for_ram(ram_bytes) {
        Ok(s) => s,
        Err(e) => return Err(SystemInstallError::Swap(e)),
    };
    let zram = sw.zram.is_some();
    let openrc = match m1.init_system {
        InitSystem::Openrc => true,
        InitSystem::Systemd => false,
    };
    if zram && !openrc {
        return Err(invalid_plan_str("zram swap provisioning currently supports OpenRC through sys-block/zram-init"));
    }
    let locale = trim_str(m1.os.locale.as_str());
    if locale.len() > 0 {
        let found = match &locale_catalogue {
            Some(c) => crate::locales::supported_locale_line(c.as_str(), m1.os.locale.as_str()),
            None => None,
        };
        if found.is_none() {
            let mut v = chars_of("unsupported locale ");
            push_debug_quoted(&mut v, &locale);
            push_str(&mut v, ": no matching entry in the source image /usr/share/i18n/SUPPORTED");
            return Err(invalid_plan(v));
        }
    }
    let authoritative = m1.services.openrc.boot.len() > 0 || m1.services.openrc.default.len() > 0;
    if authoritative && zram && !in_boot(&m1, "zram-init") {
        return Err(invalid_plan_str("swap policy requires zram-init in services.openrc.boot"));
    }
    proof {
        assert(g2.requirements.packages == g0.requirements.packages);
        assert(crate::graphics::package_names(m1.packages@) == names_after_graphics(m0, g0));
        lemma_has_package_names(m1.packages@, crate::manifest::firewall::nftables_package());
    }
    match m1.validate_firewall() {
        Ok(_) => {},
        Err(e) => return Err(SystemInstallError::Firewall(e)),
    }
    proof {
        assert(firewall_passes(m0, g0));
        assert(late_check(m0, sw, img) is None);
    }
    let zfs = match m1.disk.layout {
        DiskLayout::Zfs => true,
        _ => false,
    };
    if authoritative && zfs {
        proof {
            reveal_strlit("ZFS requires zfs-import in services.openrc.boot");
            reveal_strlit("ZFS requires zfs-mount in services.openrc.boot");
            reveal_strlit("ZFS requires ");
            reveal_strlit(" in services.openrc.boot");
            reveal_strlit("zfs-import");
            reveal_strlit("zfs-mount");
        }
        if !in_boot(&m1, "zfs-import") {
            proof {
                assert(m1.services == m0.services && m1.disk == m0.disk);
                assert(zfs_service_message("zfs-import"@) =~= "ZFS requires zfs-import in services.openrc.boot"@);
                assert(final_check(m0, img) == Some(zfs_service_message("zfs-import"@)));
            }
            return Err(invalid_plan_str("ZFS requires zfs-import in services.openrc.boot"));
        }
        if !in_boot(&m1, "zfs-mount") {
            proof {
                assert(m1.services == m0.services && m1.disk == m0.disk);
                assert(zfs_service_message("zfs-mount"@) =~= "ZFS requires zfs-mount in services.openrc.boot"@);
                assert(final_check(m0, img) == Some(zfs_service_message("zfs-mount"@)));
            }
            return Err(invalid_plan_str("ZFS requires zfs-mount in services.openrc.boot"));
        }
    }
    let kver = match &newest_kernel {
        Some(k) => super::boot::kernel_version_from(Some(k.as_str()), &module_dirs),
        None => super::boot::kernel_version_from(None, &module_dirs),
    };
    if zfs && kver.is_none() {
        return Err(invalid_plan_str("Could not detect kernel version from source boot directory or lib/modules"));
    }
    let kver_text = match &kver {
        Some(v) => owned(v.as_str()),
        None => String::new(),
    };
    let ghost gm1 = m1;
    proof {
        assert(crate::manifest::firewall::firewall_ok(gm1));
    }
    let m2 = sw.materialize_manifest(m1);
    proof {
        if !(m2.packages@ == gm1.packages@) && crate::manifest::swap::has_package(
            gm1.packages@,
            crate::manifest::firewall::nftables_package(),
        ) {
            let i = choose|i: int| 0 <= i < gm1.packages@.len() && gm1.packages@[i].package@
                == crate::manifest::firewall::nftables_package();
            assert(m2.packages@[i] == m2.packages@.subrange(0, gm1.packages@.len() as int)[i]);
        }
        assert(crate::manifest::firewall::firewall_ok(m2));
    }
    let mut steps: Vec<SystemInstallStep> = Vec::new();
    push_head(&mut steps, &m2, &g2, &kc, source_root, target_mount, Ghost(sw));
    push_system(&mut steps, &m2, sw, target_mount);
    push_zfs(&mut steps, &m2, &g2, target_mount, kver_text.as_str(), Ghost(sw));
    push_bootloader(&mut steps, &m2, &kc, target_mount, Ghost(sw));
    push_services(&mut steps, &m2, target_mount, Ghost(sw));
    push_tail(&mut steps, &m2, &g2, target_mount, config_source, Ghost(sw));
    Ok(
        SystemInstallPlan {
            source_root: owned(source_root),
            target_mount: owned(target_mount),
            steps,
            manifest: m2,
            resolved_graphics: g2,
            resolved_kernel_cmdline: kc,
            resolved_swap: sw,
        },
    )
}

/// Plans the copy of the live system at `source_root` onto the disk mounted
/// at `target_mount`. `config_source` is the config the manifest was
/// compiled from, when known; `image` is what was found on the machine and
/// in the source image. Every check runs before a plan is returned, so a
/// failing install stops before the target is touched.
#[verifier::rlimit(50)]
pub fn plan_system_install(
    manifest: SystemManifest,
    source_root: &str,
    target_mount: &str,
    config_source: Option<&str>,
    image: SourceImage,
) -> (r: Result<SystemInstallPlan, SystemInstallError>)
    ensures
        !image.source_exists ==> (r matches Err(SystemInstallError::SourceMissing(p)) && p@
            == source_root@),
        image.source_exists && !image.target_exists ==> (r matches Err(
            SystemInstallError::TargetMissing(p),
        ) && p@ == target_mount@),
        image.source_exists && image.target_exists ==> match early_check(
            manifest,
            image.timezone_known,
        ) {
            Some(Ok(msg)) => r matches Err(SystemInstallError::InvalidPlan(m)) && m@ == msg,
            Some(Err(layout)) => r == Err::<SystemInstallPlan, SystemInstallError>(
                SystemInstallError::UnsupportedLayout(layout),
            ),
            None => true,
        },
        image.source_exists && image.target_exists && early_check(manifest, image.timezone_known) is None
            ==> match graphics_failure(manifest) {
            Some(msg) => r matches Err(SystemInstallError::Graphics(e)) && is_invalid(e, msg),
            None => exists|g: ResolvedGraphics|
                #[trigger] graphics_outcome(manifest, Ok(g)) && after_graphics(
                    manifest,
                    g,
                    image,
                    source_root@,
                    r,
                ),
        },
        image.source_exists && image.target_exists && early_check(manifest, image.timezone_known) is None
            && graphics_failure(manifest) is None && (forall|g: ResolvedGraphics|
            #[trigger] graphics_outcome(manifest, Ok(g)) ==> passes_after_graphics(
                manifest,
                g,
                image,
                source_root@,
            )) ==> r is Ok,
        !(r matches Err(SystemInstallError::PackageInstall(_))),
        r matches Err(SystemInstallError::Swap(e)) ==> manifest_swap_spec(
            manifest.disk.partitions.swap,
            manifest.swap,
            image.ram_bytes,
        ) == Err::<ResolvedSwap, SwapResolveError>(e),
        r matches Err(SystemInstallError::InvalidPlan(msg)) ==> early_check(
            manifest,
            image.timezone_known,
        ) is Some || ({
            let sw = manifest_swap_spec(manifest.disk.partitions.swap, manifest.swap, image.ram_bytes);
            sw is Ok && (late_check(manifest, sw->Ok_0, image) == Some(msg@) || (late_check(
                manifest,
                sw->Ok_0,
                image,
            ) is None && final_check(manifest, image) == Some(msg@)))
        }),
        r is Ok ==> {
            let plan = r->Ok_0;
            &&& image.source_exists && image.target_exists
            &&& early_check(manifest, image.timezone_known) is None
            &&& manifest_swap_spec(manifest.disk.partitions.swap, manifest.swap, image.ram_bytes)
                == Ok::<ResolvedSwap, SwapResolveError>(plan.resolved_swap)
            &&& late_check(manifest, plan.resolved_swap, image) is None
            &&& final_check(manifest, image) is None
            &&& crate::manifest::firewall::firewall_ok(plan.manifest)
            &&& plan.source_root@ == source_root@
            &&& plan.target_mount@ == target_mount@
            &&& plan.manifest == (SystemManifest { packages: plan.manifest.packages, ..manifest })
            &&& plan.manifest.packages@.len() >= manifest.packages@.len()
            &&& plan.manifest.packages@.subrange(0, manifest.packages@.len() as int)
                == manifest.packages@
            &&& comparison_view(plan.resolved_graphics.capabilities) == source_comparison(
                plan.resolved_graphics.requirements,
                source_root@,
                image.graphics_probe,
            )
            &&& plan.resolved_graphics.policy.nvidia == manifest.hardware.graphics.nvidia
            &&& crate::kernel_cmdline::merged_as(
                Ok(plan.resolved_kernel_cmdline),
                crate::kernel_cmdline::merge_all(
                    crate::kernel_cmdline::kernel_entries(manifest, plan.resolved_graphics),
                ),
            )
            &&& steps_carry(
                plan.steps@,
                target_mount@,
                plan.resolved_swap,
                user_names(plan.manifest.users@),
            )
            &&& summaries(plan.steps@) == install_steps(
                plan.manifest,
                plan.resolved_graphics,
                plan.resolved_kernel_cmdline,
                plan.resolved_swap,
                source_root@,
                target_mount@,
                match config_source {
                    Some(c) => Some(c@),
                    None => None,
                },
                match image_kernel_version(image) {
                    Some(v) => v,
                    None => Seq::empty(),
                },
            )
        },
{
    if !image.source_exists {
        return Err(SystemInstallError::SourceMissing(owned(source_root)));
    }
    if !image.target_exists {
        return Err(SystemInstallError::TargetMissing(owned(target_mount)));
    }
    let prompts = manifest.prompt_usernames();
    if prompts.len() > 0 {
        let mut v = chars_of("username for user ");
        push_decimal(&mut v, prompts[0] as u64);
        push_str(&mut v, " was not collected before install");
        proof {
            assert(prompts@.map_values(|i: usize| i as int)[0] == prompts@[0] as int);
        }
        return Err(invalid_plan(v));
    }
    proof {
        assert(prompts@.map_values(|i: usize| i as int).len() == 0);
    }
    if manifest.prompts_timezone() {
        return Err(invalid_plan_str("timezone was not collected before install"));
    }
    let timezone = trim_str(manifest.os.timezone.as_str());
    if timezone.len() > 0 && !image.timezone_known {
        let mut v = chars_of("unknown timezone ");
        push_debug_quoted(&mut v, &timezone);
        push_str(&mut v, ": no such entry in the source image zoneinfo");
        return Err(invalid_plan(v));
    }
    match manifest.disk.layout {
        DiskLayout::Ext4 => {},
        DiskLayout::Zfs => {},
        _ => {
            return Err(SystemInstallError::UnsupportedLayout(manifest.disk.layout));
        },
    }
    let g0 = match resolve_graphics(&manifest) {
        Ok(g) => g,
        Err(e) => return Err(SystemInstallError::Graphics(e)),
    };
    let ghost m0 = manifest;
    let ghost img = image;
    let r = plan_resolved(manifest, g0, source_root, target_mount, config_source, image);
    proof {
        assert(graphics_outcome(m0, Ok(g0)));
        if passes_after_graphics(m0, g0, img, source_root@) {
            assert(r is Ok);
        }
    }
    r
}

} // verus!
