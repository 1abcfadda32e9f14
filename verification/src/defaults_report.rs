//! Which notable settings of a compiled manifest are the built-in defaults,
//! so that opinionated values (`-fuse-ld=mold`, ccache, the binhost march, ...)
//! are never applied invisibly.
//!
//! A setting is reported when it equals the default, whether or not the
//! config spelled it out: the point is showing the effective value.
use vstd::prelude::*;

use crate::manifest::compiler::{binhost_for, march_value};
use crate::manifest::queries::bootloader_of;
use crate::manifest::swap::compression_name;
use crate::manifest::{
    Bootloader, BuildOptimisation, Compositor, DiskLayout, InitSystem, LoginFrontend, March,
    SeatBackend, SessionMode, SessionTracker, Shell, Swap, SwapConfig, SwapSize, SwapStrategy,
    SystemManifest, GB, MB,
};
use crate::text::{decimal, push_decimal, push_str, string_of};

verus! {

/// One manifest setting whose effective value equals the built-in default.
#[derive(Debug, PartialEq, Eq)]
pub struct DefaultedSetting {
    /// Dotted path of the field, e.g. `compiler.ldflags`.
    pub path: &'static str,
    /// Human-readable effective value.
    pub value: String,
}

pub open spec fn setting_view(s: DefaultedSetting) -> (Seq<char>, Seq<char>) {
    (s.path@, s.value@)
}

pub open spec fn row(path: Seq<char>, is_default: bool, value: Seq<char>) -> Seq<(Seq<char>, Seq<char>)> {
    if is_default {
        seq![(path, value)]
    } else {
        Seq::empty()
    }
}

pub open spec fn quoted(s: Seq<char>) -> Seq<char> {
    "\""@ + s + "\""@
}

pub open spec fn bool_text(b: bool) -> Seq<char> {
    if b {
        "true"@
    } else {
        "false"@
    }
}

pub open spec fn optimisation_name(o: BuildOptimisation) -> Seq<char> {
    match o {
        BuildOptimisation::Fast => "fast"@,
        BuildOptimisation::Balanced => "balanced"@,
        BuildOptimisation::Performance => "performance"@,
    }
}

pub open spec fn init_name(i: InitSystem) -> Seq<char> {
    match i {
        InitSystem::Systemd => "systemd"@,
        InitSystem::Openrc => "openrc"@,
    }
}

pub open spec fn bootloader_name(b: Bootloader) -> Seq<char> {
    match b {
        Bootloader::SystemdBoot => "systemdboot"@,
        Bootloader::Grub => "grub"@,
    }
}

pub open spec fn shell_name(s: Shell) -> Seq<char> {
    match s {
        Shell::Bash => "bash"@,
        Shell::Zsh => "zsh"@,
        Shell::Fish => "fish"@,
    }
}

pub open spec fn mode_name(m: SessionMode) -> Seq<char> {
    match m {
        SessionMode::Auto => "auto"@,
        SessionMode::Text => "text"@,
        SessionMode::Graphical => "graphical"@,
    }
}

pub open spec fn login_text(l: LoginFrontend) -> Seq<char> {
    match l {
        LoginFrontend::Tty { tty } => "tty (tty "@ + decimal(tty as nat) + ")"@,
        LoginFrontend::OxysLogin { tty, fallback_tty_login } => "oxys_login (tty "@ + decimal(
            tty as nat,
        ) + ", fallback_tty_login "@ + bool_text(fallback_tty_login) + ")"@,
    }
}

pub open spec fn compositor_name(c: Compositor) -> Seq<char> {
    match c {
        Compositor::Niri => "niri"@,
    }
}

pub open spec fn seat_name(s: SeatBackend) -> Seq<char> {
    match s {
        SeatBackend::Auto => "auto"@,
        SeatBackend::Seatd => "seatd"@,
        SeatBackend::Logind => "logind"@,
    }
}

pub open spec fn tracker_name(t: SessionTracker) -> Seq<char> {
    match t {
        SessionTracker::Auto => "auto"@,
        SessionTracker::Elogind => "elogind"@,
        SessionTracker::Disabled => "none"@,
    }
}

pub open spec fn layout_name(l: DiskLayout) -> Seq<char> {
    match l {
        DiskLayout::Btrfs => "btrfs"@,
        DiskLayout::LuksBtrfs => "luksbtrfs"@,
        DiskLayout::Zfs => "zfs"@,
        DiskLayout::Ext4 => "ext4"@,
    }
}

/// A byte count: whole GiB when exact, else whole MiB, else bytes.
pub open spec fn human_size(bytes: u64) -> Seq<char> {
    if bytes >= GB && bytes % GB == 0 {
        decimal((bytes / GB) as nat) + " GiB"@
    } else if bytes >= MB {
        decimal((bytes / MB) as nat) + " MiB"@
    } else {
        decimal(bytes as nat) + " B"@
    }
}

pub open spec fn swap_size_text(s: SwapSize) -> Seq<char> {
    match s {
        SwapSize::MatchRam => "match RAM"@,
        SwapSize::Fixed(b) => human_size(b),
    }
}

pub open spec fn swap_text(s: SwapStrategy) -> Seq<char> {
    match s {
        SwapStrategy::Disk { size } => "disk ("@ + swap_size_text(size) + ")"@,
        SwapStrategy::Hybrid { zram, disk } => "hybrid (zram "@ + decimal(zram.fraction.numerator as nat)
            + "/"@ + decimal(zram.fraction.denominator as nat) + ", "@ + compression_name(zram.algorithm)
            + ", disk "@ + swap_size_text(disk.size) + ")"@,
        SwapStrategy::ZramOnly { algorithm, fraction } => "zram-only ("@ + decimal(
            fraction.numerator as nat,
        ) + "/"@ + decimal(fraction.denominator as nat) + ", "@ + compression_name(algorithm) + ")"@,
        SwapStrategy::Disabled => "disabled"@,
    }
}

pub open spec fn legacy_swap_text(s: SwapConfig) -> Seq<char> {
    match s {
        SwapConfig::Unspecified => "top-level policy"@,
        SwapConfig::Partition { size } => "partition ("@ + human_size(size) + ")"@,
        SwapConfig::File { size } => "file ("@ + human_size(size) + ")"@,
        SwapConfig::Zram { size } => "zram ("@ + human_size(size) + ")"@,
        SwapConfig::Disabled => "none"@,
    }
}

pub open spec fn default_binhost() -> Option<Seq<char>> {
    binhost_for(March::X86_64V3)
}

pub open spec fn opt_view(o: Option<String>) -> Option<Seq<char>> {
    match o {
        Some(s) => Some(s@),
        None => None,
    }
}

pub open spec fn compiler_flag_rows(m: SystemManifest) -> Seq<(Seq<char>, Seq<char>)> {
    let c = m.compiler;
    row("compiler.cflags"@, c.cflags@ == "-O2 -pipe"@, quoted(c.cflags@)) + row(
        "compiler.cxxflags"@,
        c.cxxflags@ == "-O2 -pipe"@,
        quoted(c.cxxflags@),
    ) + row("compiler.march"@, c.march == March::X86_64V3, march_value(c.march)) + row(
        "compiler.binhost"@,
        opt_view(c.binhost) == default_binhost(),
        match c.binhost {
            Some(b) => b@,
            None => "disabled"@,
        },
    )
}

pub open spec fn compiler_build_rows(m: SystemManifest, cpu_count: usize) -> Seq<(Seq<char>, Seq<char>)> {
    let c = m.compiler;
    row("compiler.ldflags"@, c.ldflags@ == "-fuse-ld=mold"@, quoted(c.ldflags@)) + row(
        "compiler.makeopts_jobs"@,
        c.makeopts_jobs == cpu_count,
        decimal(c.makeopts_jobs as nat) + " (detected CPU count)"@,
    ) + row("compiler.emerge_jobs"@, c.emerge_jobs == 2, decimal(c.emerge_jobs as nat)) + row(
        "compiler.ccache"@,
        c.ccache,
        bool_text(c.ccache),
    ) + row(
        "compiler.optimisation"@,
        c.optimisation == BuildOptimisation::Balanced,
        optimisation_name(c.optimisation),
    )
}

/// The compiler settings that carry their defaults on a machine with
/// `cpu_count` CPUs.
pub open spec fn compiler_rows(m: SystemManifest, cpu_count: usize) -> Seq<(Seq<char>, Seq<char>)> {
    compiler_flag_rows(m) + compiler_build_rows(m, cpu_count)
}

pub open spec fn platform_rows(m: SystemManifest) -> Seq<(Seq<char>, Seq<char>)> {
    row("init_system"@, m.init_system == InitSystem::Openrc, init_name(m.init_system)) + row(
        "bootloader"@,
        bootloader_of(m) == Bootloader::Grub,
        bootloader_name(bootloader_of(m)),
    ) + row("os.shell"@, m.os.shell == Shell::Bash, shell_name(m.os.shell))
}

pub open spec fn session_rows(m: SystemManifest) -> Seq<(Seq<char>, Seq<char>)> {
    let s = m.session;
    row("session.mode"@, s.mode == SessionMode::Text, mode_name(s.mode)) + row(
        "session.login"@,
        s.login == (LoginFrontend::Tty { tty: 1 }),
        login_text(s.login),
    ) + row("session.compositor"@, s.compositor == Compositor::Niri, compositor_name(s.compositor))
        + row("session.seat"@, s.seat == SeatBackend::Auto, seat_name(s.seat)) + row(
        "session.session_tracker"@,
        s.session_tracker == SessionTracker::Auto,
        tracker_name(s.session_tracker),
    )
}

pub open spec fn disk_rows(m: SystemManifest) -> Seq<(Seq<char>, Seq<char>)> {
    row("disk.layout"@, m.disk.layout == DiskLayout::Ext4, layout_name(m.disk.layout)) + row(
        "swap"@,
        m.disk.partitions.swap == SwapConfig::Unspecified && m.swap == Swap::default_spec(),
        if m.disk.partitions.swap == SwapConfig::Unspecified {
            swap_text(m.swap.strategy)
        } else {
            legacy_swap_text(m.disk.partitions.swap)
        },
    )
}

/// The system, session and disk settings that carry their defaults.
pub open spec fn system_rows(m: SystemManifest) -> Seq<(Seq<char>, Seq<char>)> {
    platform_rows(m) + session_rows(m) + disk_rows(m)
}

pub open spec fn defaults_rows(m: SystemManifest, cpu_count: usize) -> Seq<(Seq<char>, Seq<char>)> {
    compiler_rows(m, cpu_count) + system_rows(m)
}

fn note(report: &mut Vec<DefaultedSetting>, path: &'static str, is_default: bool, value: String)
    ensures
        final(report)@.map_values(|s: DefaultedSetting| setting_view(s)) == old(report)@.map_values(
            |s: DefaultedSetting| setting_view(s),
        ) + row(path@, is_default, value@),
{
    let ghost before = report@.map_values(|s: DefaultedSetting| setting_view(s));
    if is_default {
        report.push(DefaultedSetting { path, value });
        assert(report@.map_values(|s: DefaultedSetting| setting_view(s)) =~= before.push((path@, value@)));
    } else {
        assert(before + Seq::<(Seq<char>, Seq<char>)>::empty() =~= before);
    }
}

fn quote(s: &str) -> (r: String)
    ensures
        r@ == quoted(s@),
{
    let mut v: Vec<char> = Vec::new();
    push_str(&mut v, "\"");
    push_str(&mut v, s);
    push_str(&mut v, "\"");
    string_of(&v)
}

fn bool_str(b: bool) -> (r: &'static str)
    ensures
        r@ == bool_text(b),
{
    if b {
        "true"
    } else {
        "false"
    }
}

fn number(n: u64) -> (r: Vec<char>)
    ensures
        r@ == decimal(n as nat),
{
    let mut v: Vec<char> = Vec::new();
    push_decimal(&mut v, n);
    v
}

pub fn human_size_text(bytes: u64) -> (r: String)
    ensures
        r@ == human_size(bytes),
{
    let mut v: Vec<char>;
    if bytes >= GB && bytes % GB == 0 {
        v = number(bytes / GB);
        push_str(&mut v, " GiB");
    } else if bytes >= MB {
        v = number(bytes / MB);
        push_str(&mut v, " MiB");
    } else {
        v = number(bytes);
        push_str(&mut v, " B");
    }
    string_of(&v)
}

fn swap_size_string(s: SwapSize) -> (r: String)
    ensures
        r@ == swap_size_text(s),
{
    match s {
        SwapSize::MatchRam => "match RAM".to_owned(),
        SwapSize::Fixed(b) => human_size_text(b),
    }
}

fn render_swap(s: SwapStrategy) -> (r: String)
    ensures
        r@ == swap_text(s),
{
    let mut v: Vec<char> = Vec::new();
    match s {
        SwapStrategy::Disk { size } => {
            push_str(&mut v, "disk (");
            push_str(&mut v, swap_size_string(size).as_str());
            push_str(&mut v, ")");
        },
        SwapStrategy::Hybrid { zram, disk } => {
            push_str(&mut v, "hybrid (zram ");
            push_decimal(&mut v, zram.fraction.numerator as u64);
            push_str(&mut v, "/");
            push_decimal(&mut v, zram.fraction.denominator as u64);
            push_str(&mut v, ", ");
            push_str(&mut v, zram.algorithm.kernel_name());
            push_str(&mut v, ", disk ");
            push_str(&mut v, swap_size_string(disk.size).as_str());
            push_str(&mut v, ")");
        },
        SwapStrategy::ZramOnly { algorithm, fraction } => {
            push_str(&mut v, "zram-only (");
            push_decimal(&mut v, fraction.numerator as u64);
            push_str(&mut v, "/");
            push_decimal(&mut v, fraction.denominator as u64);
            push_str(&mut v, ", ");
            push_str(&mut v, algorithm.kernel_name());
            push_str(&mut v, ")");
        },
        SwapStrategy::Disabled => {
            push_str(&mut v, "disabled");
        },
    }
    string_of(&v)
}

fn render_legacy_swap(s: SwapConfig) -> (r: String)
    ensures
        r@ == legacy_swap_text(s),
{
    let mut v: Vec<char> = Vec::new();
    match s {
        SwapConfig::Unspecified => push_str(&mut v, "top-level policy"),
        SwapConfig::Partition { size } => {
            push_str(&mut v, "partition (");
            push_str(&mut v, human_size_text(size).as_str());
            push_str(&mut v, ")");
        },
        SwapConfig::File { size } => {
            push_str(&mut v, "file (");
            push_str(&mut v, human_size_text(size).as_str());
            push_str(&mut v, ")");
        },
        SwapConfig::Zram { size } => {
            push_str(&mut v, "zram (");
            push_str(&mut v, human_size_text(size).as_str());
            push_str(&mut v, ")");
        },
        SwapConfig::Disabled => push_str(&mut v, "none"),
    }
    string_of(&v)
}

fn render_login(l: LoginFrontend) -> (r: String)
    ensures
        r@ == login_text(l),
{
    let mut v: Vec<char> = Vec::new();
    match l {
        LoginFrontend::Tty { tty } => {
            push_str(&mut v, "tty (tty ");
            push_decimal(&mut v, tty as u64);
            push_str(&mut v, ")");
        },
        LoginFrontend::OxysLogin { tty, fallback_tty_login } => {
            push_str(&mut v, "oxys_login (tty ");
            push_decimal(&mut v, tty as u64);
            push_str(&mut v, ", fallback_tty_login ");
            push_str(&mut v, bool_str(fallback_tty_login));
            push_str(&mut v, ")");
        },
    }
    string_of(&v)
}

fn name_of<'a>(s: &'a str) -> (r: String)
    ensures
        r@ == s@,
{
    s.to_owned()
}

fn same_text(a: &String, b: &str) -> (r: bool)
    ensures
        r == (a@ == b@),
{
    crate::text::str_eq(a.as_str(), b)
}

fn note_compiler_flags(report: &mut Vec<DefaultedSetting>, manifest: &SystemManifest)
    ensures
        final(report)@.map_values(|s: DefaultedSetting| setting_view(s)) == old(report)@.map_values(
            |s: DefaultedSetting| setting_view(s),
        ) + compiler_flag_rows(*manifest),
{
    let ghost start = report@.map_values(|s: DefaultedSetting| setting_view(s));
    let c = &manifest.compiler;
    note(report, "compiler.cflags", same_text(&c.cflags, "-O2 -pipe"), quote(c.cflags.as_str()));
    note(report, "compiler.cxxflags", same_text(&c.cxxflags, "-O2 -pipe"), quote(c.cxxflags.as_str()));
    note(report, "compiler.march", c.march == March::X86_64V3, name_of(c.march.value()));
    let base_binhost = March::X86_64V3.binhost_url();
    let binhost_default = match (&c.binhost, &base_binhost) {
        (Some(a), Some(b)) => crate::text::str_eq(a.as_str(), b.as_str()),
        (None, None) => true,
        _ => false,
    };
    let binhost_value = match &c.binhost {
        Some(b) => b.clone(),
        None => "disabled".to_owned(),
    };
    note(report, "compiler.binhost", binhost_default, binhost_value);
    assert(report@.map_values(|s: DefaultedSetting| setting_view(s)) =~= start + compiler_flag_rows(*manifest));
}

fn note_compiler_build(report: &mut Vec<DefaultedSetting>, manifest: &SystemManifest, cpu_count: usize)
    ensures
        final(report)@.map_values(|s: DefaultedSetting| setting_view(s)) == old(report)@.map_values(
            |s: DefaultedSetting| setting_view(s),
        ) + compiler_build_rows(*manifest, cpu_count),
{
    let ghost start = report@.map_values(|s: DefaultedSetting| setting_view(s));
    let c = &manifest.compiler;
    note(report, "compiler.ldflags", same_text(&c.ldflags, "-fuse-ld=mold"), quote(c.ldflags.as_str()));
    let mut jobs = number(c.makeopts_jobs as u64);
    push_str(&mut jobs, " (detected CPU count)");
    note(report, "compiler.makeopts_jobs", c.makeopts_jobs == cpu_count, string_of(&jobs));
    note(report, "compiler.emerge_jobs", c.emerge_jobs == 2, string_of(&number(c.emerge_jobs as u64)));
    note(report, "compiler.ccache", c.ccache, name_of(bool_str(c.ccache)));
    let opt = match c.optimisation {
        BuildOptimisation::Fast => "fast",
        BuildOptimisation::Balanced => "balanced",
        BuildOptimisation::Performance => "performance",
    };
    note(report, "compiler.optimisation", c.optimisation == BuildOptimisation::Balanced, name_of(opt));
    assert(report@.map_values(|s: DefaultedSetting| setting_view(s)) =~= start + compiler_build_rows(
        *manifest,
        cpu_count,
    ));
}

fn note_session(report: &mut Vec<DefaultedSetting>, manifest: &SystemManifest)
    ensures
        final(report)@.map_values(|s: DefaultedSetting| setting_view(s)) == old(report)@.map_values(
            |s: DefaultedSetting| setting_view(s),
        ) + session_rows(*manifest),
{
    let ghost start = report@.map_values(|s: DefaultedSetting| setting_view(s));
    let s = &manifest.session;
    let mode = match s.mode {
        SessionMode::Auto => "auto",
        SessionMode::Text => "text",
        SessionMode::Graphical => "graphical",
    };
    note(report, "session.mode", s.mode == SessionMode::Text, name_of(mode));
    note(report, "session.login", s.login == (LoginFrontend::Tty { tty: 1 }), render_login(s.login));
    note(report, "session.compositor", s.compositor == Compositor::Niri, name_of("niri"));
    let seat = match s.seat {
        SeatBackend::Auto => "auto",
        SeatBackend::Seatd => "seatd",
        SeatBackend::Logind => "logind",
    };
    note(report, "session.seat", s.seat == SeatBackend::Auto, name_of(seat));
    let tracker = match s.session_tracker {
        SessionTracker::Auto => "auto",
        SessionTracker::Elogind => "elogind",
        SessionTracker::Disabled => "none",
    };
    note(report, "session.session_tracker", s.session_tracker == SessionTracker::Auto, name_of(tracker));
    assert(report@.map_values(|s: DefaultedSetting| setting_view(s)) =~= start + session_rows(*manifest));
}

fn note_platform(report: &mut Vec<DefaultedSetting>, manifest: &SystemManifest)
    ensures
        final(report)@.map_values(|s: DefaultedSetting| setting_view(s)) == old(report)@.map_values(
            |s: DefaultedSetting| setting_view(s),
        ) + platform_rows(*manifest),
{
    let ghost start = report@.map_values(|s: DefaultedSetting| setting_view(s));
    let init = match manifest.init_system {
        InitSystem::Systemd => "systemd",
        InitSystem::Openrc => "openrc",
    };
    note(report, "init_system", manifest.init_system == InitSystem::Openrc, name_of(init));
    let boot = manifest.resolved_bootloader();
    let boot_name = match boot {
        Bootloader::SystemdBoot => "systemdboot",
        Bootloader::Grub => "grub",
    };
    note(report, "bootloader", boot == Bootloader::Grub, name_of(boot_name));
    let shell = match manifest.os.shell {
        Shell::Bash => "bash",
        Shell::Zsh => "zsh",
        Shell::Fish => "fish",
    };
    note(report, "os.shell", manifest.os.shell == Shell::Bash, name_of(shell));
    assert(report@.map_values(|s: DefaultedSetting| setting_view(s)) =~= start + platform_rows(*manifest));
}

fn note_disk(report: &mut Vec<DefaultedSetting>, manifest: &SystemManifest)
    ensures
        final(report)@.map_values(|s: DefaultedSetting| setting_view(s)) == old(report)@.map_values(
            |s: DefaultedSetting| setting_view(s),
        ) + disk_rows(*manifest),
{
    let ghost start = report@.map_values(|s: DefaultedSetting| setting_view(s));
    let layout = match manifest.disk.layout {
        DiskLayout::Btrfs => "btrfs",
        DiskLayout::LuksBtrfs => "luksbtrfs",
        DiskLayout::Zfs => "zfs",
        DiskLayout::Ext4 => "ext4",
    };
    note(report, "disk.layout", manifest.disk.layout == DiskLayout::Ext4, name_of(layout));
    let legacy = manifest.disk.partitions.swap;
    let unspecified = legacy.is_unspecified();
    let swap_value = if unspecified {
        render_swap(manifest.swap.strategy)
    } else {
        render_legacy_swap(legacy)
    };
    note(report, "swap", unspecified && manifest.swap == Swap::default(), swap_value);
    assert(report@.map_values(|s: DefaultedSetting| setting_view(s)) =~= start + disk_rows(*manifest));
}

/// The notable settings of `manifest` that carry their default values, the
/// defaults being those of a machine with `cpu_count` logical CPUs.
pub fn defaulted_settings(manifest: &SystemManifest, cpu_count: usize) -> (r: Vec<DefaultedSetting>)
    ensures
        r@.map_values(|s: DefaultedSetting| setting_view(s)) == defaults_rows(*manifest, cpu_count),
{
    let mut report: Vec<DefaultedSetting> = Vec::new();
    note_compiler_flags(&mut report, manifest);
    note_compiler_build(&mut report, manifest, cpu_count);
    note_platform(&mut report, manifest);
    note_session(&mut report, manifest);
    note_disk(&mut report, manifest);
    assert(report@.map_values(|s: DefaultedSetting| setting_view(s)) =~= defaults_rows(*manifest, cpu_count));
    report
}

pub open spec fn report_line(s: (Seq<char>, Seq<char>)) -> Seq<char> {
    s.0 + " = "@ + s.1 + " (default)"@
}

/// Report lines like `compiler.ldflags = "-fuse-ld=mold" (default)`.
pub fn render_defaults_report(settings: &Vec<DefaultedSetting>) -> (r: Vec<String>)
    ensures
        r@.map_values(|s: String| s@) == settings@.map_values(|s: DefaultedSetting| report_line(setting_view(s))),
{
    let mut out: Vec<String> = Vec::new();
    let mut i: usize = 0;
    while i < settings.len()
        invariant
            i <= settings.len(),
            out@.map_values(|s: String| s@) == settings@.subrange(0, i as int).map_values(
                |s: DefaultedSetting| report_line(setting_view(s)),
            ),
        decreases settings.len() - i,
    {
        let mut v: Vec<char> = Vec::new();
        push_str(&mut v, settings[i].path);
        push_str(&mut v, " = ");
        push_str(&mut v, settings[i].value.as_str());
        push_str(&mut v, " (default)");
        let ghost before = out@.map_values(|s: String| s@);
        out.push(string_of(&v));
        i = i + 1;
        proof {
            assert(out@.map_values(|s: String| s@) =~= before.push(report_line(setting_view(settings@[i - 1]))));
            assert(settings@.subrange(0, i as int).map_values(|s: DefaultedSetting| report_line(setting_view(s)))
                =~= settings@.subrange(0, i - 1).map_values(|s: DefaultedSetting| report_line(setting_view(s))).push(
                report_line(setting_view(settings@[i - 1])),
            ));
        }
    }
    assert(settings@.subrange(0, settings.len() as int) =~= settings@);
    out
}

} // verus!
