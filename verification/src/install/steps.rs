//! The steps of a system install plan and how each is shown before it runs.
use vstd::prelude::*;

use crate::disk::{join_path, strip_leading_slashes, under};
use crate::exec::{command_text, numbered_entry, numbered_line, CommandStep};
use crate::graphics::{prime_mode_name, ResolvedGraphics};
use crate::kernel_cmdline::ResolvedKernelCmdline;
use crate::manifest::{PrimeMode, ResolvedSwap, SessionMode, SystemManifest};
use crate::text::{
    decimal, join, join_chars, join_strings, push_chars, push_decimal, push_str, string_of,
    sviews, vviews,
};

verus! {

/// Where the installed system keeps the nftables ruleset its init script
/// loads, relative to the system root.
pub const NFTABLES_RULES_PATH: &'static str = "var/lib/nftables/rules-save";

/// One step of a system install. Each step carries what it shows; the
/// manifest and the resolved policies it acts on are held once by the plan.
#[allow(inconsistent_fields)]
#[derive(Debug, Clone, PartialEq, Eq)]
pub enum SystemInstallStep {
    /// The declared session policy the install was planned with.
    ResolveSession { description: String, mode: SessionMode },
    /// The resolved graphics policy, as its report.
    ResolveGraphics { description: String, report: String },
    /// The resolved kernel command line, as its report.
    ResolveKernelCmdline { description: String, report: String },
    Command { description: String, program: String, args: Vec<String> },
    GenerateFstab { description: String, target_mount: String },
    ConfigureSwap { description: String, resolved_swap: ResolvedSwap, target_mount: String },
    ConfigureFirewall { description: String, enabled: bool, target_mount: String },
    ResetMachineId { description: String, target_mount: String },
    ConfigureHostname { description: String, hostname: String, target_mount: String },
    ConfigureTimezone { description: String, timezone: String, target_mount: String },
    ConfigureLocale { description: String, locale: String, target_mount: String },
    /// Account creation; only the names are shown, never password material.
    SetupUsers { description: String, users: Vec<String>, target_mount: String },
    InstallBootAssets { description: String, target_mount: String, efi_mount: String },
    GenerateSystemdBoot {
        description: String,
        efi_mount: String,
        kernel_args: Vec<String>,
        target_mount: String,
    },
    GenerateGrubConfig { description: String, kernel_args: Vec<String>, target_mount: String },
    ActivateSystemdServices {
        description: String,
        enabled: usize,
        disabled: usize,
        target_mount: String,
    },
    ActivateOpenrcServices { description: String, enabled: usize, target_mount: String },
    BindMountPseudo { description: String, target_mount: String },
    VerifyTargetLayout { description: String, target_mount: String },
    EmergePackages { description: String, packages: Vec<String>, target_mount: String },
    SetupLogin { description: String, graphical: bool, target_mount: String },
    ConfigureGraphicsRuntime {
        description: String,
        prime: Option<PrimeMode>,
        target_mount: String,
    },
    GenerateInitramfs {
        description: String,
        target_mount: String,
        kver: String,
        drivers: Vec<String>,
    },
    /// Seeds `/etc/oxys`: the config source when it is known, and the
    /// applied-state manifest either way.
    SeedOxysConfig { description: String, source_fe2o3: Option<String>, target_mount: String },
    Finalize { description: String, target_mount: String },
}

/// A fully resolved system install: the steps, and the manifest and policies
/// they act on.
#[derive(Debug, Clone, PartialEq, Eq)]
pub struct SystemInstallPlan {
    pub source_root: String,
    pub target_mount: String,
    pub steps: Vec<SystemInstallStep>,
    /// The manifest with every package the resolved policies require.
    pub manifest: SystemManifest,
    pub resolved_graphics: ResolvedGraphics,
    pub resolved_kernel_cmdline: ResolvedKernelCmdline,
    pub resolved_swap: ResolvedSwap,
}

/// The kind of a step, without its contents.
#[derive(Debug, Clone, Copy, PartialEq, Eq, Structural)]
pub enum StepKind {
    ResolveSession,
    ResolveGraphics,
    ResolveKernelCmdline,
    Command,
    GenerateFstab,
    ConfigureSwap,
    ConfigureFirewall,
    ResetMachineId,
    ConfigureHostname,
    ConfigureTimezone,
    ConfigureLocale,
    SetupUsers,
    InstallBootAssets,
    GenerateSystemdBoot,
    GenerateGrubConfig,
    ActivateSystemdServices,
    ActivateOpenrcServices,
    BindMountPseudo,
    VerifyTargetLayout,
    EmergePackages,
    SetupLogin,
    ConfigureGraphicsRuntime,
    GenerateInitramfs,
    SeedOxysConfig,
    Finalize,
}

/// `rel` under the target mount, as the plan shows paths.
pub open spec fn tpath(target: Seq<char>, rel: Seq<char>) -> Seq<char> {
    join_path(target, strip_leading_slashes(rel))
}

pub open spec fn bool_text(b: bool) -> Seq<char> {
    if b {
        "true"@
    } else {
        "false"@
    }
}

pub open spec fn session_mode_name(mode: SessionMode) -> Seq<char> {
    match mode {
        SessionMode::Auto => "auto"@,
        SessionMode::Text => "text"@,
        SessionMode::Graphical => "graphical"@,
    }
}

/// `Option<PrimeMode>` as its debug form.
pub open spec fn prime_debug(p: Option<PrimeMode>) -> Seq<char> {
    match p {
        None => "None"@,
        Some(m) => "Some("@ + prime_mode_name(m) + ")"@,
    }
}

pub open spec fn step_kind(s: SystemInstallStep) -> StepKind {
    match s {
        SystemInstallStep::ResolveSession { .. } => StepKind::ResolveSession,
        SystemInstallStep::ResolveGraphics { .. } => StepKind::ResolveGraphics,
        SystemInstallStep::ResolveKernelCmdline { .. } => StepKind::ResolveKernelCmdline,
        SystemInstallStep::Command { .. } => StepKind::Command,
        SystemInstallStep::GenerateFstab { .. } => StepKind::GenerateFstab,
        SystemInstallStep::ConfigureSwap { .. } => StepKind::ConfigureSwap,
        SystemInstallStep::ConfigureFirewall { .. } => StepKind::ConfigureFirewall,
        SystemInstallStep::ResetMachineId { .. } => StepKind::ResetMachineId,
        SystemInstallStep::ConfigureHostname { .. } => StepKind::ConfigureHostname,
        SystemInstallStep::ConfigureTimezone { .. } => StepKind::ConfigureTimezone,
        SystemInstallStep::ConfigureLocale { .. } => StepKind::ConfigureLocale,
        SystemInstallStep::SetupUsers { .. } => StepKind::SetupUsers,
        SystemInstallStep::InstallBootAssets { .. } => StepKind::InstallBootAssets,
        SystemInstallStep::GenerateSystemdBoot { .. } => StepKind::GenerateSystemdBoot,
        SystemInstallStep::GenerateGrubConfig { .. } => StepKind::GenerateGrubConfig,
        SystemInstallStep::ActivateSystemdServices { .. } => StepKind::ActivateSystemdServices,
        SystemInstallStep::ActivateOpenrcServices { .. } => StepKind::ActivateOpenrcServices,
        SystemInstallStep::BindMountPseudo { .. } => StepKind::BindMountPseudo,
        SystemInstallStep::VerifyTargetLayout { .. } => StepKind::VerifyTargetLayout,
        SystemInstallStep::EmergePackages { .. } => StepKind::EmergePackages,
        SystemInstallStep::SetupLogin { .. } => StepKind::SetupLogin,
        SystemInstallStep::ConfigureGraphicsRuntime { .. } => StepKind::ConfigureGraphicsRuntime,
        SystemInstallStep::GenerateInitramfs { .. } => StepKind::GenerateInitramfs,
        SystemInstallStep::SeedOxysConfig { .. } => StepKind::SeedOxysConfig,
        SystemInstallStep::Finalize { .. } => StepKind::Finalize,
    }
}

pub open spec fn step_description(s: SystemInstallStep) -> Seq<char> {
    match s {
        SystemInstallStep::ResolveSession { description, .. } => description@,
        SystemInstallStep::ResolveGraphics { description, .. } => description@,
        SystemInstallStep::ResolveKernelCmdline { description, .. } => description@,
        SystemInstallStep::Command { description, .. } => description@,
        SystemInstallStep::GenerateFstab { description, .. } => description@,
        SystemInstallStep::ConfigureSwap { description, .. } => description@,
        SystemInstallStep::ConfigureFirewall { description, .. } => description@,
        SystemInstallStep::ResetMachineId { description, .. } => description@,
        SystemInstallStep::ConfigureHostname { description, .. } => description@,
        SystemInstallStep::ConfigureTimezone { description, .. } => description@,
        SystemInstallStep::ConfigureLocale { description, .. } => description@,
        SystemInstallStep::SetupUsers { description, .. } => description@,
        SystemInstallStep::InstallBootAssets { description, .. } => description@,
        SystemInstallStep::GenerateSystemdBoot { description, .. } => description@,
        SystemInstallStep::GenerateGrubConfig { description, .. } => description@,
        SystemInstallStep::ActivateSystemdServices { description, .. } => description@,
        SystemInstallStep::ActivateOpenrcServices { description, .. } => description@,
        SystemInstallStep::BindMountPseudo { description, .. } => description@,
        SystemInstallStep::VerifyTargetLayout { description, .. } => description@,
        SystemInstallStep::EmergePackages { description, .. } => description@,
        SystemInstallStep::SetupLogin { description, .. } => description@,
        SystemInstallStep::ConfigureGraphicsRuntime { description, .. } => description@,
        SystemInstallStep::GenerateInitramfs { description, .. } => description@,
        SystemInstallStep::SeedOxysConfig { description, .. } => description@,
        SystemInstallStep::Finalize { description, .. } => description@,
    }
}

pub open spec fn swap_text(sw: ResolvedSwap, t: Seq<char>) -> Seq<char> {
    "write swap policy under "@ + tpath(t, "etc"@) + " (zram: "@ + bool_text(sw.zram is Some)
        + ", disk: "@ + bool_text(sw.disk is Some) + ", swappiness: "@ + decimal(
        sw.swappiness as nat,
    ) + ")"@
}

pub open spec fn firewall_text(enabled: bool, t: Seq<char>) -> Seq<char> {
    if enabled {
        "render nftables policy to "@ + tpath(t, NFTABLES_RULES_PATH@) + " (validated, mode 0600)"@
    } else {
        "firewall disabled: remove any Oxys-generated "@ + tpath(t, NFTABLES_RULES_PATH@)
    }
}

pub open spec fn initramfs_text(kver: Seq<char>, drivers: Seq<Seq<char>>) -> Seq<char> {
    "generate ZFS-root initramfs for kernel "@ + kver + if drivers.len() == 0 {
        Seq::empty()
    } else {
        " with drivers "@ + join(drivers, ","@)
    }
}

pub open spec fn seed_text(source: Option<String>, t: Seq<char>) -> Seq<char> {
    match source {
        Some(src) => "seed "@ + tpath(tpath(t, "etc/oxys"@), "config.fe2o3"@) + " from "@ + src@
            + " and write current-manifest.toml"@,
        None => "write "@ + tpath(tpath(t, "etc/oxys"@), "current-manifest.toml"@)
            + " (applied state)"@,
    }
}

pub open spec fn login_kind(graphical: bool) -> Seq<char> {
    if graphical {
        "oxys-login (Niri session)"@
    } else {
        "text login"@
    }
}

/// What a step shows as its body in a rendered plan.
pub open spec fn step_text(s: SystemInstallStep) -> Seq<char> {
    match s {
        SystemInstallStep::ResolveSession { mode, .. } => "session mode: "@ + session_mode_name(
            mode,
        ),
        SystemInstallStep::ResolveGraphics { report, .. } => report@,
        SystemInstallStep::ResolveKernelCmdline { report, .. } => report@,
        SystemInstallStep::Command { program, args, .. } => command_text(program@, sviews(args@)),
        SystemInstallStep::GenerateFstab { target_mount, .. } => "write generated "@ + tpath(
            target_mount@,
            "etc/fstab"@,
        ),
        SystemInstallStep::ConfigureSwap { resolved_swap, target_mount, .. } => swap_text(
            resolved_swap,
            target_mount@,
        ),
        SystemInstallStep::ConfigureFirewall { enabled, target_mount, .. } => firewall_text(
            enabled,
            target_mount@,
        ),
        SystemInstallStep::ResetMachineId { target_mount, .. } => "truncate "@ + tpath(
            target_mount@,
            "etc/machine-id"@,
        ),
        SystemInstallStep::ConfigureHostname { hostname, target_mount, .. } => "write hostname "@
            + hostname@ + " under "@ + tpath(target_mount@, "etc"@),
        SystemInstallStep::ConfigureTimezone { timezone, target_mount, .. } => "link "@ + tpath(
            target_mount@,
            "etc/localtime"@,
        ) + " to zoneinfo "@ + timezone@,
        SystemInstallStep::ConfigureLocale { locale, target_mount, .. } => "generate locale "@
            + locale@ + " and set it as LANG under "@ + tpath(target_mount@, "etc"@),
        SystemInstallStep::SetupUsers { users, .. } => "create user account(s): "@ + join(
            sviews(users@),
            ", "@,
        ),
        SystemInstallStep::InstallBootAssets { target_mount, efi_mount, .. } =>
            "copy latest kernel/initramfs from "@ + tpath(target_mount@, "boot"@) + " to "@ + tpath(
            target_mount@,
            efi_mount@,
        ),
        SystemInstallStep::GenerateSystemdBoot { efi_mount, kernel_args, target_mount, .. } =>
            "write ESP loader config and oxys boot entry under "@ + tpath(target_mount@, efi_mount@)
            + " with kernel arguments: "@ + join(sviews(kernel_args@), " "@),
        SystemInstallStep::GenerateGrubConfig { kernel_args, target_mount, .. } =>
            "write grub.cfg under "@ + tpath(target_mount@, "boot/grub"@)
            + " with kernel arguments: "@ + join(sviews(kernel_args@), " "@),
        SystemInstallStep::ActivateSystemdServices { enabled, disabled, .. } =>
            "apply systemd service state ("@ + decimal(enabled as nat) + " enable, "@ + decimal(
            disabled as nat,
        ) + " disable)"@,
        SystemInstallStep::ActivateOpenrcServices { enabled, .. } =>
            "apply openrc service state: reconcile authoritative runlevels ("@ + decimal(
            enabled as nat,
        ) + " enabled)"@,
        SystemInstallStep::BindMountPseudo { target_mount, .. } =>
            "bind mount /dev, /sys, /proc, /run to "@ + target_mount@,
        SystemInstallStep::VerifyTargetLayout { target_mount, .. } =>
            "verify critical system dirs copied and root-owned under "@ + target_mount@,
        SystemInstallStep::EmergePackages { packages, target_mount, .. } =>
            "resolve and emerge manifest package(s) into "@ + target_mount@ + ": "@ + join(
            sviews(packages@),
            ", "@,
        ),
        SystemInstallStep::SetupLogin { graphical, target_mount, .. } => "configure tty1 for "@
            + login_kind(graphical) + " under "@ + target_mount@,
        SystemInstallStep::ConfigureGraphicsRuntime { prime, target_mount, .. } =>
            "write resolved NVIDIA/PRIME policy and graphics diagnostics under "@ + target_mount@
            + " ("@ + prime_debug(prime) + ")"@,
        SystemInstallStep::GenerateInitramfs { kver, drivers, .. } => initramfs_text(
            kver@,
            sviews(drivers@),
        ),
        SystemInstallStep::SeedOxysConfig { source_fe2o3, target_mount, .. } => seed_text(
            source_fe2o3,
            target_mount@,
        ),
        SystemInstallStep::Finalize { target_mount, .. } =>
            "finalize installation (unmount target and export pools under "@ + target_mount@
            + ")"@,
    }
}

/// A plan as shown to the user: one numbered entry per step.
pub open spec fn install_plan_text(steps: Seq<SystemInstallStep>) -> Seq<char> {
    join(
        steps.map(|i: int, s: SystemInstallStep| numbered_entry(i, step_description(s), step_text(s))),
        "\n"@,
    )
}

fn push_tpath(v: &mut Vec<char>, target: &str, rel: &str)
    ensures
        final(v)@ == old(v)@ + tpath(target@, rel@),
{
    let p = under(target, rel);
    push_str(v, p.as_str());
}

fn push_bool(v: &mut Vec<char>, b: bool)
    ensures
        final(v)@ == old(v)@ + bool_text(b),
{
    if b {
        push_str(v, "true");
    } else {
        push_str(v, "false");
    }
}

fn push_joined(v: &mut Vec<char>, parts: &Vec<String>, sep: &str)
    ensures
        final(v)@ == old(v)@ + join(sviews(parts@), sep@),
{
    let j = join_strings(parts, sep);
    push_chars(v, &j);
}

fn session_mode_str(mode: SessionMode) -> (r: &'static str)
    ensures
        r@ == session_mode_name(mode),
{
    match mode {
        SessionMode::Auto => "auto",
        SessionMode::Text => "text",
        SessionMode::Graphical => "graphical",
    }
}

fn push_prime(v: &mut Vec<char>, p: Option<PrimeMode>)
    ensures
        final(v)@ == old(v)@ + prime_debug(p),
{
    match p {
        None => push_str(v, "None"),
        Some(m) => {
            push_str(v, "Some(");
            match m {
                PrimeMode::Disabled => push_str(v, "Disabled"),
                PrimeMode::Primary => push_str(v, "Primary"),
                PrimeMode::Offload => push_str(v, "Offload"),
            }
            push_str(v, ")");
        },
    }
}

impl SystemInstallStep {
    /// What the step does, as shown in progress and logs.
    pub fn description(&self) -> (r: &str)
        ensures
            r@ == step_description(*self),
    {
        match self {
            SystemInstallStep::ResolveSession { description, .. } => description.as_str(),
            SystemInstallStep::ResolveGraphics { description, .. } => description.as_str(),
            SystemInstallStep::ResolveKernelCmdline { description, .. } => description.as_str(),
            SystemInstallStep::Command { description, .. } => description.as_str(),
            SystemInstallStep::GenerateFstab { description, .. } => description.as_str(),
            SystemInstallStep::ConfigureSwap { description, .. } => description.as_str(),
            SystemInstallStep::ConfigureFirewall { description, .. } => description.as_str(),
            SystemInstallStep::ResetMachineId { description, .. } => description.as_str(),
            SystemInstallStep::ConfigureHostname { description, .. } => description.as_str(),
            SystemInstallStep::ConfigureTimezone { description, .. } => description.as_str(),
            SystemInstallStep::ConfigureLocale { description, .. } => description.as_str(),
            SystemInstallStep::SetupUsers { description, .. } => description.as_str(),
            SystemInstallStep::InstallBootAssets { description, .. } => description.as_str(),
            SystemInstallStep::GenerateSystemdBoot { description, .. } => description.as_str(),
            SystemInstallStep::GenerateGrubConfig { description, .. } => description.as_str(),
            SystemInstallStep::ActivateSystemdServices { description, .. } => description.as_str(),
            SystemInstallStep::ActivateOpenrcServices { description, .. } => description.as_str(),
            SystemInstallStep::BindMountPseudo { description, .. } => description.as_str(),
            SystemInstallStep::VerifyTargetLayout { description, .. } => description.as_str(),
            SystemInstallStep::EmergePackages { description, .. } => description.as_str(),
            SystemInstallStep::SetupLogin { description, .. } => description.as_str(),
            SystemInstallStep::ConfigureGraphicsRuntime { description, .. } => description.as_str(),
            SystemInstallStep::GenerateInitramfs { description, .. } => description.as_str(),
            SystemInstallStep::SeedOxysConfig { description, .. } => description.as_str(),
            SystemInstallStep::Finalize { description, .. } => description.as_str(),
        }
    }

    /// The step's body as shown in a rendered plan. Account steps show the
    /// account names only.
    pub fn render(&self) -> (r: String)
        ensures
            r@ == step_text(*self),
    {
        let mut v: Vec<char> = Vec::new();
        match self {
            SystemInstallStep::ResolveSession { mode, .. } => {
                push_str(&mut v, "session mode: ");
                push_str(&mut v, session_mode_str(*mode));
            },
            SystemInstallStep::ResolveGraphics { report, .. } => {
                push_str(&mut v, report.as_str());
            },
            SystemInstallStep::ResolveKernelCmdline { report, .. } => {
                push_str(&mut v, report.as_str());
            },
            SystemInstallStep::Command { description, program, args } => {
                let c = CommandStep {
                    description: description.clone(),
                    program: program.clone(),
                    args: crate::manifest::packages::copy_strings(args),
                };
                let line = c.command_line();
                push_str(&mut v, line.as_str());
            },
            SystemInstallStep::GenerateFstab { target_mount, .. } => {
                push_str(&mut v, "write generated ");
                push_tpath(&mut v, target_mount.as_str(), "etc/fstab");
            },
            SystemInstallStep::ConfigureSwap { resolved_swap, target_mount, .. } => {
                push_str(&mut v, "write swap policy under ");
                push_tpath(&mut v, target_mount.as_str(), "etc");
                push_str(&mut v, " (zram: ");
                push_bool(&mut v, resolved_swap.zram.is_some());
                push_str(&mut v, ", disk: ");
                push_bool(&mut v, resolved_swap.disk.is_some());
                push_str(&mut v, ", swappiness: ");
                push_decimal(&mut v, resolved_swap.swappiness as u64);
                push_str(&mut v, ")");
            },
            SystemInstallStep::ConfigureFirewall { enabled, target_mount, .. } => {
                if *enabled {
                    push_str(&mut v, "render nftables policy to ");
                    push_tpath(&mut v, target_mount.as_str(), NFTABLES_RULES_PATH);
                    push_str(&mut v, " (validated, mode 0600)");
                } else {
                    push_str(&mut v, "firewall disabled: remove any Oxys-generated ");
                    push_tpath(&mut v, target_mount.as_str(), NFTABLES_RULES_PATH);
                }
            },
            SystemInstallStep::ResetMachineId { target_mount, .. } => {
                push_str(&mut v, "truncate ");
                push_tpath(&mut v, target_mount.as_str(), "etc/machine-id");
            },
            SystemInstallStep::ConfigureHostname { hostname, target_mount, .. } => {
                push_str(&mut v, "write hostname ");
                push_str(&mut v, hostname.as_str());
                push_str(&mut v, " under ");
                push_tpath(&mut v, target_mount.as_str(), "etc");
            },
            SystemInstallStep::ConfigureTimezone { timezone, target_mount, .. } => {
                push_str(&mut v, "link ");
                push_tpath(&mut v, target_mount.as_str(), "etc/localtime");
                push_str(&mut v, " to zoneinfo ");
                push_str(&mut v, timezone.as_str());
            },
            SystemInstallStep::ConfigureLocale { locale, target_mount, .. } => {
                push_str(&mut v, "generate locale ");
                push_str(&mut v, locale.as_str());
                push_str(&mut v, " and set it as LANG under ");
                push_tpath(&mut v, target_mount.as_str(), "etc");
            },
            SystemInstallStep::SetupUsers { users, .. } => {
                push_str(&mut v, "create user account(s): ");
                push_joined(&mut v, users, ", ");
            },
            SystemInstallStep::InstallBootAssets { target_mount, efi_mount, .. } => {
                push_str(&mut v, "copy latest kernel/initramfs from ");
                push_tpath(&mut v, target_mount.as_str(), "boot");
                push_str(&mut v, " to ");
                push_tpath(&mut v, target_mount.as_str(), efi_mount.as_str());
            },
            SystemInstallStep::GenerateSystemdBoot { efi_mount, kernel_args, target_mount, .. } => {
                push_str(&mut v, "write ESP loader config and oxys boot entry under ");
                push_tpath(&mut v, target_mount.as_str(), efi_mount.as_str());
                push_str(&mut v, " with kernel arguments: ");
                push_joined(&mut v, kernel_args, " ");
            },
            SystemInstallStep::GenerateGrubConfig { kernel_args, target_mount, .. } => {
                push_str(&mut v, "write grub.cfg under ");
                push_tpath(&mut v, target_mount.as_str(), "boot/grub");
                push_str(&mut v, " with kernel arguments: ");
                push_joined(&mut v, kernel_args, " ");
            },
            SystemInstallStep::ActivateSystemdServices { enabled, disabled, .. } => {
                push_str(&mut v, "apply systemd service state (");
                push_decimal(&mut v, *enabled as u64);
                push_str(&mut v, " enable, ");
                push_decimal(&mut v, *disabled as u64);
                push_str(&mut v, " disable)");
            },
            SystemInstallStep::ActivateOpenrcServices { enabled, .. } => {
                push_str(&mut v, "apply openrc service state: reconcile authoritative runlevels (");
                push_decimal(&mut v, *enabled as u64);
                push_str(&mut v, " enabled)");
            },
            SystemInstallStep::BindMountPseudo { target_mount, .. } => {
                push_str(&mut v, "bind mount /dev, /sys, /proc, /run to ");
                push_str(&mut v, target_mount.as_str());
            },
            SystemInstallStep::VerifyTargetLayout { target_mount, .. } => {
                push_str(&mut v, "verify critical system dirs copied and root-owned under ");
                push_str(&mut v, target_mount.as_str());
            },
            SystemInstallStep::EmergePackages { packages, target_mount, .. } => {
                push_str(&mut v, "resolve and emerge manifest package(s) into ");
                push_str(&mut v, target_mount.as_str());
                push_str(&mut v, ": ");
                push_joined(&mut v, packages, ", ");
            },
            SystemInstallStep::SetupLogin { graphical, target_mount, .. } => {
                push_str(&mut v, "configure tty1 for ");
                if *graphical {
                    push_str(&mut v, "oxys-login (Niri session)");
                } else {
                    push_str(&mut v, "text login");
                }
                push_str(&mut v, " under ");
                push_str(&mut v, target_mount.as_str());
            },
            SystemInstallStep::ConfigureGraphicsRuntime { prime, target_mount, .. } => {
                push_str(&mut v, "write resolved NVIDIA/PRIME policy and graphics diagnostics under ");
                push_str(&mut v, target_mount.as_str());
                push_str(&mut v, " (");
                push_prime(&mut v, *prime);
                push_str(&mut v, ")");
            },
            SystemInstallStep::GenerateInitramfs { kver, drivers, .. } => {
                push_str(&mut v, "generate ZFS-root initramfs for kernel ");
                push_str(&mut v, kver.as_str());
                if drivers.len() > 0 {
                    push_str(&mut v, " with drivers ");
                    push_joined(&mut v, drivers, ",");
                }
            },
            SystemInstallStep::SeedOxysConfig { source_fe2o3, target_mount, .. } => {
                let dir = under(target_mount.as_str(), "etc/oxys");
                match source_fe2o3 {
                    Some(src) => {
                        push_str(&mut v, "seed ");
                        push_tpath(&mut v, dir.as_str(), "config.fe2o3");
                        push_str(&mut v, " from ");
                        push_str(&mut v, src.as_str());
                        push_str(&mut v, " and write current-manifest.toml");
                    },
                    None => {
                        push_str(&mut v, "write ");
                        push_tpath(&mut v, dir.as_str(), "current-manifest.toml");
                        push_str(&mut v, " (applied state)");
                    },
                }
            },
            SystemInstallStep::Finalize { target_mount, .. } => {
                push_str(&mut v, "finalize installation (unmount target and export pools under ");
                push_str(&mut v, target_mount.as_str());
                push_str(&mut v, ")");
            },
        }
        proof {
            match self {
                SystemInstallStep::GenerateInitramfs { kver, drivers, .. } => {
                    if drivers@.len() == 0 {
                        assert(v@ =~= initramfs_text(kver@, sviews(drivers@)));
                    }
                },
                _ => {},
            }
        }
        string_of(&v)
    }
}

impl SystemInstallPlan {
    /// The plan as shown before it runs: numbered steps with what each does.
    pub fn render(&self) -> (r: String)
        ensures
            r@ == install_plan_text(self.steps@),
    {
        let ghost f = |i: int, s: SystemInstallStep| numbered_entry(i, step_description(s), step_text(s));
        let mut lines: Vec<Vec<char>> = Vec::new();
        let mut i: usize = 0;
        while i < self.steps.len()
            invariant
                i <= self.steps.len(),
                f == (|i: int, s: SystemInstallStep| numbered_entry(i, step_description(s), step_text(s))),
                vviews(lines@) == self.steps@.subrange(0, i as int).map(f),
            decreases self.steps.len() - i,
        {
            let body = self.steps[i].render();
            let line = numbered_line(i, self.steps[i].description(), body.as_str());
            let ghost before = vviews(lines@);
            lines.push(line);
            i = i + 1;
            proof {
                assert(self.steps@.subrange(0, i as int).map(f) =~= self.steps@.subrange(
                    0,
                    i - 1,
                ).map(f).push(f(i - 1, self.steps@[i - 1])));
                assert(vviews(lines@) =~= before.push(f(i - 1, self.steps@[i - 1])));
            }
        }
        assert(self.steps@.subrange(0, self.steps.len() as int) =~= self.steps@);
        let j = join_chars(&lines, "\n");
        string_of(&j)
    }
}

} // verus!
