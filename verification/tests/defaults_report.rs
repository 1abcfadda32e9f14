use oxys::defaults_report::{defaulted_settings, render_defaults_report, DefaultedSetting};
use oxys::manifest::compiler::FALLBACK_CPU_COUNT;
use oxys::manifest::{Bootloader, Compiler, InitSystem, SwapConfig, SystemManifest, GB};

fn paths(settings: &[DefaultedSetting]) -> Vec<&'static str> {
    settings.iter().map(|setting| setting.path).collect()
}

#[test]
fn default_manifest_reports_the_notable_set() {
    let report = defaulted_settings(&SystemManifest::default(), FALLBACK_CPU_COUNT);
    let paths = paths(&report);
    for expected in [
        "compiler.cflags",
        "compiler.march",
        "compiler.binhost",
        "compiler.ldflags",
        "compiler.makeopts_jobs",
        "compiler.emerge_jobs",
        "compiler.ccache",
        "compiler.optimisation",
        "init_system",
        "bootloader",
        "os.shell",
        "session.mode",
        "session.login",
        "session.compositor",
        "disk.layout",
        "swap",
    ] {
        assert!(paths.contains(&expected), "missing {expected} in {paths:?}");
    }
}

#[test]
fn overridden_values_drop_out() {
    let manifest = SystemManifest {
        compiler: Compiler {
            ldflags: "-fuse-ld=lld".to_owned(),
            ..Compiler::default()
        },
        init_system: InitSystem::Systemd,
        ..SystemManifest::default()
    };
    let report = defaulted_settings(&manifest, FALLBACK_CPU_COUNT);
    let paths = paths(&report);
    assert!(!paths.contains(&"compiler.ldflags"));
    assert!(!paths.contains(&"init_system"));
    assert!(paths.contains(&"compiler.ccache"));
}

#[test]
fn explicit_grub_still_reports_as_default_bootloader() {
    let manifest = SystemManifest {
        bootloader: Some(Bootloader::Grub),
        ..SystemManifest::default()
    };
    assert!(paths(&defaulted_settings(&manifest, FALLBACK_CPU_COUNT)).contains(&"bootloader"));
    let manifest = SystemManifest {
        bootloader: Some(Bootloader::SystemdBoot),
        ..SystemManifest::default()
    };
    assert!(!paths(&defaulted_settings(&manifest, FALLBACK_CPU_COUNT)).contains(&"bootloader"));
}

#[test]
fn report_lines_carry_value_and_marker() {
    let report = defaulted_settings(&SystemManifest::default(), FALLBACK_CPU_COUNT);
    let lines = render_defaults_report(&report);
    assert!(lines
        .iter()
        .any(|line| line == "compiler.ldflags = \"-fuse-ld=mold\" (default)"));
}

#[test]
fn default_values_are_rendered_exactly() {
    let report = defaulted_settings(&SystemManifest::default(), 4);
    let lines = render_defaults_report(&report);
    assert!(lines.contains(&"compiler.march = x86-64-v3 (default)".to_owned()));
    assert!(lines.contains(&"compiler.ccache = true (default)".to_owned()));
    assert!(lines.contains(&"session.login = tty (tty 1) (default)".to_owned()));
    assert!(lines.contains(&"session.session_tracker = auto (default)".to_owned()));
    assert!(lines.contains(&"swap = disabled (default)".to_owned()));
    // The default manifest assumed one CPU; four were detected.
    assert!(!paths(&report).contains(&"compiler.makeopts_jobs"));
}

#[test]
fn legacy_swap_declaration_is_not_a_default() {
    let mut manifest = SystemManifest::default();
    manifest.disk.partitions.swap = SwapConfig::Partition { size: 4 * GB };
    let report = defaulted_settings(&manifest, FALLBACK_CPU_COUNT);
    assert!(!paths(&report).contains(&"swap"));
}
