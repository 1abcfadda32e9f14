use oxys::decision::DecisionSource;
use oxys::kernel_cmdline::{resolve_kernel_cmdline, KernelCmdlineResolveError};
use oxys::manifest::{Graphics, Hardware, Kernel, Nvidia, SystemManifest};

fn with_cmdline(args: &[&str]) -> SystemManifest {
    SystemManifest {
        kernel: Kernel {
            cmdline: args.iter().map(|a| a.to_string()).collect(),
        },
        ..SystemManifest::default()
    }
}

#[test]
fn explicit_arguments_are_merged_and_identical_values_are_deduplicated() {
    let manifest = with_cmdline(&["quiet", "loglevel=3", "quiet"]);

    let resolved = resolve_kernel_cmdline(&manifest).unwrap();
    assert_eq!(resolved.values(), ["quiet", "loglevel=3"]);
    assert!(resolved
        .decisions
        .iter()
        .any(|decision| { decision.value == "quiet" && decision.reason.contains("deduplicated") }));
    assert!(resolved.render().contains("kernel merge: quiet"));
}

#[test]
fn contradictory_values_for_the_same_key_are_rejected() {
    let manifest = with_cmdline(&["console=tty0", "console=ttyS0"]);

    let error = resolve_kernel_cmdline(&manifest).unwrap_err();
    assert!(matches!(
        error,
        KernelCmdlineResolveError::Conflict { ref key, .. } if key == "console"
    ));
}

#[test]
fn nvidia_modesetting_is_derived_and_conflicts_with_explicit_disable() {
    let graphics = Graphics {
        nvidia: Some(Nvidia::default()),
        ..Graphics::default()
    };
    let manifest = SystemManifest {
        hardware: Hardware {
            graphics,
            ..Hardware::default()
        },
        kernel: Kernel {
            cmdline: vec!["nvidia_drm.modeset=0".into()],
        },
        ..SystemManifest::default()
    };

    let error = resolve_kernel_cmdline(&manifest).unwrap_err();
    assert!(matches!(
        error,
        KernelCmdlineResolveError::Conflict {
            ref key,
            ref incoming_source,
            ..
        } if key == "nvidia_drm.modeset"
            && incoming_source == "hardware.graphics.nvidia.modeset"
    ));
}

#[test]
fn nvidia_modesetting_decision_records_provenance() {
    let manifest = SystemManifest {
        hardware: Hardware {
            graphics: Graphics {
                nvidia: Some(Nvidia::default()),
                ..Graphics::default()
            },
            ..Hardware::default()
        },
        ..SystemManifest::default()
    };

    let resolved = resolve_kernel_cmdline(&manifest).unwrap();
    let arg = &resolved.args[0];
    assert_eq!(arg.value, "nvidia_drm.modeset=1");
    assert_eq!(arg.source, DecisionSource::Dependency);
    assert_eq!(arg.source_field, "hardware.graphics.nvidia.modeset");
}

#[test]
fn empty_argument_is_rejected_with_its_source() {
    let manifest = with_cmdline(&["quiet", "   "]);
    let error = resolve_kernel_cmdline(&manifest).unwrap_err();
    assert_eq!(
        error,
        KernelCmdlineResolveError::EmptyArgument {
            source_field: "kernel.cmdline".to_owned()
        }
    );
    assert_eq!(
        error.message(),
        "invalid kernel command line: argument from kernel.cmdline is empty"
    );
}

#[test]
fn arguments_are_trimmed_and_keyed_before_the_first_equals() {
    let manifest = with_cmdline(&["  root=/dev/sda2 ", "root=/dev/sda2", "init=/sbin/init=x"]);
    let resolved = resolve_kernel_cmdline(&manifest).unwrap();
    assert_eq!(resolved.values(), ["root=/dev/sda2", "init=/sbin/init=x"]);
    assert_eq!(resolved.decisions.len(), 3);
    assert_eq!(
        resolved.decisions[1].reason,
        "deduplicated identical argument; first supplied by kernel.cmdline"
    );
}

#[test]
fn repeating_an_argument_changes_no_argument() {
    let once = resolve_kernel_cmdline(&with_cmdline(&["quiet", "splash"])).unwrap();
    let twice = resolve_kernel_cmdline(&with_cmdline(&["quiet", "splash", "quiet"])).unwrap();
    assert_eq!(once.args, twice.args);
    assert_eq!(twice.decisions.len(), 3);
}

#[test]
fn empty_command_line_renders_a_notice() {
    let resolved = resolve_kernel_cmdline(&SystemManifest::default()).unwrap();
    assert!(resolved.args.is_empty());
    assert_eq!(resolved.render(), "kernel command line: no policy arguments");
}

#[test]
fn render_lists_each_argument_with_provenance() {
    let resolved = resolve_kernel_cmdline(&with_cmdline(&["quiet"])).unwrap();
    assert_eq!(
        resolved.render(),
        "kernel argument: quiet\n      source: explicit (kernel.cmdline)\n      reason: declared explicitly in kernel.cmdline"
    );
}

#[test]
fn conflict_message_names_both_sources() {
    let error = resolve_kernel_cmdline(&with_cmdline(&["console=tty0", "console=ttyS0"])).unwrap_err();
    assert_eq!(
        error.message(),
        "conflicting kernel arguments for `console`: `console=tty0` from kernel.cmdline conflicts with `console=ttyS0` from kernel.cmdline"
    );
}
