use oxys::capability::{KernelConfigRead, NvidiaProbe, SourceProbe};
use oxys::install::boot::{
    boot_options, kernel_version_from, render_grub_config, render_systemd_boot_entry,
    BootOptionsError,
};
use oxys::install::portage::{emerge_event, requested_linker, EmergeLine};
use oxys::install::{
    plan_system_install, SourceImage, SystemInstallError, SystemInstallPlan, SystemInstallStep,
};
use oxys::exec::StepEvent;
use oxys::kernel_cmdline::resolve_kernel_cmdline;
use oxys::locales::supported_locale_line;
use oxys::manifest::{
    Bootloader, Disk, DiskLayout, DiskPartitions, EfiPartition, Ext4Options, Graphics, Hardware,
    InitSystem, Kernel, MesaGraphics, Nvidia, Package, Password, Services, Swap, SwapDiskOptions,
    SwapSize, SwapStrategy, SystemManifest, Timezone, User, VideoCard, VideoCards, VmGraphics,
    ZramOptions, GB, MB,
};

const SOURCE: &str = "/run/oxys/source";
const TARGET: &str = "/mnt/oxys";

fn image() -> SourceImage {
    SourceImage {
        source_exists: true,
        target_exists: true,
        timezone_known: true,
        locale_catalogue: None,
        ram_bytes: 16 * GB,
        render_nodes: Vec::new(),
        graphics_probe: empty_probe(),
        newest_kernel: None,
        module_dirs: Vec::new(),
    }
}

fn empty_probe() -> SourceProbe {
    SourceProbe {
        capability_manifest: None,
        present_files: Vec::new(),
        kernel_config: None,
        nvidia: NvidiaProbe {
            driver_entries: Vec::new(),
            boot_entries: Vec::new(),
            module_abis: Vec::new(),
        },
    }
}

fn zfs_image() -> SourceImage {
    SourceImage {
        newest_kernel: Some("vmlinuz-6.6.21-gentoo".to_owned()),
        ..image()
    }
}

fn plan(manifest: SystemManifest, image: SourceImage) -> SystemInstallPlan {
    plan_system_install(manifest, SOURCE, TARGET, None, image).unwrap()
}

fn plan_error(manifest: SystemManifest, image: SourceImage) -> SystemInstallError {
    plan_system_install(manifest, SOURCE, TARGET, None, image).unwrap_err()
}

fn vda(layout: DiskLayout) -> Disk {
    Disk {
        device: "/dev/vda".to_owned(),
        layout,
        ..Disk::default()
    }
}

fn ext4_manifest() -> SystemManifest {
    SystemManifest {
        disk: vda(DiskLayout::Ext4),
        ..SystemManifest::default()
    }
}

fn position(plan: &SystemInstallPlan, pred: impl Fn(&SystemInstallStep) -> bool) -> Option<usize> {
    plan.steps.iter().position(pred)
}

#[test]
fn boot_system_install_plan_uses_custom_efi_mount() {
    let manifest = SystemManifest {
        disk: Disk {
            device: "/dev/vda".to_owned(),
            layout: DiskLayout::Ext4,
            partitions: DiskPartitions {
                efi: EfiPartition {
                    size: 512 * MB,
                    mount: "/efi".to_owned(),
                },
                ..DiskPartitions::default()
            },
            ext4: Ext4Options {
                separate_home: false,
                root_size: 32 * GB,
            },
            ..Disk::default()
        },
        bootloader: Some(Bootloader::SystemdBoot),
        ..SystemManifest::default()
    };

    let plan = plan(manifest, image());
    assert!(plan.render().contains("--esp-path"));
    assert!(plan.render().contains("/efi"));
    assert!(matches!(
        plan.steps.iter().rev().nth(4),
        Some(SystemInstallStep::GenerateSystemdBoot { .. })
    ));
}

#[test]
fn boot_grub_bootloader_replaces_systemd_boot_steps() {
    let manifest = SystemManifest {
        disk: vda(DiskLayout::Ext4),
        bootloader: Some(Bootloader::Grub),
        ..SystemManifest::default()
    };

    let plan = plan(manifest, image());
    let rendered = plan.render();
    assert!(rendered.contains("grub-install"));
    assert!(rendered.contains("--removable"));
    assert!(!rendered.contains("bootctl"));
    assert!(plan
        .steps
        .iter()
        .any(|step| matches!(step, SystemInstallStep::GenerateGrubConfig { .. })));
    assert!(!plan
        .steps
        .iter()
        .any(|step| matches!(step, SystemInstallStep::GenerateSystemdBoot { .. })));
}

#[test]
fn kernel_cmdline_conflicts_are_rejected_before_a_plan_is_returned() {
    let manifest = SystemManifest {
        hardware: Hardware {
            graphics: Graphics {
                nvidia: Some(Nvidia::default()),
                ..Graphics::default()
            },
            ..Hardware::default()
        },
        kernel: Kernel {
            cmdline: vec!["nvidia_drm.modeset=0".to_owned()],
        },
        ..SystemManifest::default()
    };

    let error = plan_error(manifest, image());
    assert!(error.message().contains("conflicting kernel arguments"));
    assert!(error.message().contains("hardware.graphics.nvidia.modeset"));
}

fn virgl_manifest() -> SystemManifest {
    SystemManifest {
        hardware: Hardware {
            graphics: Graphics {
                mesa: MesaGraphics {
                    video_cards: VideoCards::Explicit(vec![VideoCard::Virgl]),
                    ..MesaGraphics::default()
                },
                vm_support: VmGraphics::Virgl,
                ..Graphics::default()
            },
            ..Hardware::default()
        },
        ..SystemManifest::default()
    }
}

#[test]
fn graphics_capabilities_are_validated_and_rendered_before_copy() {
    let probe = SourceProbe {
        present_files: vec!["usr/lib64/dri/virtio_gpu_dri.so".to_owned()],
        kernel_config: Some(KernelConfigRead {
            path: format!("{SOURCE}/boot/config-test"),
            contents: Ok("CONFIG_DRM=y\nCONFIG_DRM_KMS_HELPER=y\nCONFIG_DRM_GEM_SHMEM_HELPER=y\nCONFIG_DRM_VIRTIO_GPU=m\nCONFIG_VIRTIO=y\nCONFIG_VIRTIO_PCI=y\n".to_owned()),
        }),
        ..empty_probe()
    };
    let plan = plan(
        virgl_manifest(),
        SourceImage {
            graphics_probe: probe,
            ..image()
        },
    );
    assert!(matches!(
        plan.steps.get(1),
        Some(SystemInstallStep::ResolveGraphics { .. })
    ));
    let rendered = plan.render();
    assert!(rendered.contains("Mesa capability check: passed"));
    assert!(rendered.contains("boot/config-test"));
    assert!(rendered.find("graphics policy:").unwrap() < rendered.find("rsync").unwrap());
}

#[test]
fn missing_graphics_capability_rejects_install_plan() {
    let probe = SourceProbe {
        kernel_config: Some(KernelConfigRead {
            path: format!("{SOURCE}/boot/config-test"),
            contents: Ok("CONFIG_DRM=y\n".to_owned()),
        }),
        ..empty_probe()
    };
    let error = plan_error(
        virgl_manifest(),
        SourceImage {
            graphics_probe: probe,
            ..image()
        },
    );
    assert!(error.message().contains("video_cards_virgl"));
    assert!(error.message().contains("CONFIG_DRM_VIRTIO_GPU"));
}

#[test]
fn boot_grub_is_the_default_bootloader() {
    let plan = plan(ext4_manifest(), image());
    assert!(plan
        .steps
        .iter()
        .any(|step| matches!(step, SystemInstallStep::GenerateGrubConfig { .. })));
}

#[test]
fn boot_openrc_manifest_adds_symlink_service_activation() {
    let manifest = SystemManifest {
        disk: vda(DiskLayout::Ext4),
        init_system: InitSystem::Openrc,
        services: Services {
            enabled: vec!["NetworkManager".to_owned()],
            disabled: vec!["sshd".to_owned()],
            ..Services::default()
        },
        ..SystemManifest::default()
    };

    let plan = plan(manifest, image());
    assert!(matches!(
        plan.steps.iter().rev().nth(4),
        Some(SystemInstallStep::ActivateOpenrcServices { .. })
    ));
    assert!(plan.render().contains("apply openrc service state"));
    assert!(!plan
        .steps
        .iter()
        .any(|step| matches!(step, SystemInstallStep::ActivateSystemdServices { .. })));
}

#[test]
fn boot_explicit_systemd_manifest_adds_service_activation_step() {
    let manifest = SystemManifest {
        disk: vda(DiskLayout::Ext4),
        init_system: InitSystem::Systemd,
        services: Services {
            enabled: vec!["systemd-networkd.service".to_owned()],
            disabled: vec!["sshd.service".to_owned()],
            ..Services::default()
        },
        ..SystemManifest::default()
    };

    let plan = plan(manifest, image());
    assert!(matches!(
        plan.steps.iter().rev().nth(4),
        Some(SystemInstallStep::ActivateSystemdServices { .. })
    ));
    assert!(plan.render().contains("1 enable, 1 disable"));
}

#[test]
fn boot_zfs_system_install_plan_generates_initramfs_step() {
    let manifest = SystemManifest {
        disk: vda(DiskLayout::Zfs),
        bootloader: Some(Bootloader::Grub),
        ..SystemManifest::default()
    };

    let plan = plan(manifest, zfs_image());
    let rendered = plan.render();
    assert!(rendered.contains("generate ZFS-root initramfs for kernel 6.6.21-gentoo"));
    assert!(plan.steps.iter().any(|step| matches!(
        step,
        SystemInstallStep::GenerateInitramfs { kver, .. } if kver == "6.6.21-gentoo"
    )));
}

#[test]
fn zfs_plan_without_a_kernel_is_rejected() {
    let manifest = SystemManifest {
        disk: vda(DiskLayout::Zfs),
        ..SystemManifest::default()
    };
    let error = plan_error(manifest, image());
    assert_eq!(
        error,
        SystemInstallError::InvalidPlan(
            "Could not detect kernel version from source boot directory or lib/modules".to_owned()
        )
    );
}

#[test]
fn unresolved_prompt_timezone_is_rejected_before_planning() {
    let mut manifest = ext4_manifest();
    manifest.os.timezone = Timezone::Prompt;

    let error = plan_error(manifest, image());
    assert!(
        error.message().contains("timezone was not collected"),
        "got: {}",
        error.message()
    );
}

#[test]
fn unknown_timezone_is_rejected_before_planning() {
    let mut manifest = ext4_manifest();
    manifest.os.timezone = "Europe/Lodnon".into();

    let error = plan_error(
        manifest,
        SourceImage {
            timezone_known: false,
            ..image()
        },
    );
    assert!(
        error.message().contains("unknown timezone \"Europe/Lodnon\""),
        "got: {}",
        error.message()
    );
}

#[test]
fn declared_timezone_adds_a_configure_step_after_hostname() {
    let mut manifest = ext4_manifest();
    manifest.os.timezone = "Europe/London".into();

    let plan = plan(manifest, image());
    let hostname_at = position(&plan, |step| {
        matches!(step, SystemInstallStep::ConfigureHostname { .. })
    })
    .expect("hostname step present");
    let timezone_at = position(&plan, |step| {
        matches!(step, SystemInstallStep::ConfigureTimezone { timezone, .. } if timezone == "Europe/London")
    })
    .expect("timezone step present");
    assert!(hostname_at < timezone_at);
}

#[test]
fn empty_timezone_adds_no_configure_step() {
    let plan = plan(ext4_manifest(), image());
    assert!(!plan
        .steps
        .iter()
        .any(|step| matches!(step, SystemInstallStep::ConfigureTimezone { .. })));
}

#[test]
fn unsupported_locale_is_rejected_before_planning() {
    let mut manifest = ext4_manifest();
    manifest.os.locale = "not_A_LOCALE.UTF-8".to_owned();

    let error = plan_error(
        manifest,
        SourceImage {
            locale_catalogue: Some("en_US.UTF-8 UTF-8\n".to_owned()),
            ..image()
        },
    );
    assert!(
        error.message().contains("unsupported locale \"not_A_LOCALE.UTF-8\""),
        "got: {}",
        error.message()
    );
}

#[test]
fn declared_locale_adds_a_configure_step_after_timezone() {
    let mut manifest = ext4_manifest();
    manifest.os.timezone = "Europe/London".into();
    manifest.os.locale = "en_US.UTF-8".to_owned();

    let plan = plan(
        manifest,
        SourceImage {
            locale_catalogue: Some("en_US.UTF-8 UTF-8\n".to_owned()),
            ..image()
        },
    );
    let timezone_at = position(&plan, |step| {
        matches!(step, SystemInstallStep::ConfigureTimezone { .. })
    })
    .expect("timezone step present");
    let locale_at = position(&plan, |step| {
        matches!(step, SystemInstallStep::ConfigureLocale { locale, .. } if locale == "en_US.UTF-8")
    })
    .expect("locale step present");
    assert!(timezone_at < locale_at);
}

#[test]
fn empty_locale_adds_no_configure_step() {
    let plan = plan(ext4_manifest(), image());
    assert!(!plan
        .steps
        .iter()
        .any(|step| matches!(step, SystemInstallStep::ConfigureLocale { .. })));
}

#[test]
fn seed_oxys_config_step_carries_source_and_precedes_finalize() {
    let manifest = SystemManifest {
        disk: vda(DiskLayout::Zfs),
        bootloader: Some(Bootloader::Grub),
        ..SystemManifest::default()
    };
    let config = "/root/config.fe2o3";

    let plan = plan_system_install(manifest, SOURCE, TARGET, Some(config), zfs_image()).unwrap();
    let seed_idx = position(&plan, |step| {
        matches!(step, SystemInstallStep::SeedOxysConfig { source_fe2o3: Some(path), .. } if path == config)
    })
    .expect("seed step with source path missing");
    let finalize_idx = position(&plan, |step| matches!(step, SystemInstallStep::Finalize { .. }))
        .expect("finalize step missing");
    assert!(seed_idx < finalize_idx, "seed must run before finalize");
    assert!(plan.render().contains("from /root/config.fe2o3"));
}

#[test]
fn installation_manifest_packages_are_emerged_after_bind_mounts_before_initramfs() {
    let manifest = SystemManifest {
        disk: vda(DiskLayout::Zfs),
        packages: vec![Package::new("gui-wm/niri")],
        ..SystemManifest::default()
    };

    let plan = plan(manifest, zfs_image());
    let bind_idx = position(&plan, |step| matches!(step, SystemInstallStep::BindMountPseudo { .. }))
        .expect("bind mount step missing");
    let emerge_idx = position(&plan, |step| matches!(step, SystemInstallStep::EmergePackages { .. }))
        .expect("emerge packages step missing");
    let initramfs_idx = position(&plan, |step| {
        matches!(step, SystemInstallStep::GenerateInitramfs { .. })
    })
    .expect("initramfs step missing");
    let finalize_idx = position(&plan, |step| matches!(step, SystemInstallStep::Finalize { .. }))
        .expect("finalize step missing");

    assert_eq!(emerge_idx, bind_idx + 1);
    assert!(emerge_idx < initramfs_idx);
    assert!(emerge_idx < finalize_idx);
}

#[test]
fn installation_package_emerge_step_is_omitted_without_manifest_packages() {
    let manifest = SystemManifest {
        disk: vda(DiskLayout::Ext4),
        swap: Swap {
            strategy: SwapStrategy::Disabled,
            swappiness: 180,
        },
        ..SystemManifest::default()
    };

    let plan = plan(manifest, image());
    assert!(!plan
        .steps
        .iter()
        .any(|step| matches!(step, SystemInstallStep::EmergePackages { .. })));
}

#[test]
fn swap_policy_is_resolved_and_configured_before_service_activation() {
    let manifest = SystemManifest {
        disk: Disk {
            device: "/dev/vda".to_owned(),
            ..Disk::default()
        },
        swap: Swap {
            strategy: SwapStrategy::Hybrid {
                zram: ZramOptions::default(),
                disk: SwapDiskOptions {
                    size: SwapSize::Fixed(4 * GB),
                },
            },
            swappiness: 180,
        },
        services: Services {
            enabled: vec!["sshd".to_owned()],
            disabled: Vec::new(),
            ..Default::default()
        },
        ..SystemManifest::default()
    };

    let plan = plan(manifest, image());
    assert_eq!(plan.resolved_swap.zram.as_ref().unwrap().priority, 100);
    assert_eq!(plan.resolved_swap.disk.as_ref().unwrap().priority, 10);
    let swap_idx = position(&plan, |step| matches!(step, SystemInstallStep::ConfigureSwap { .. }))
        .unwrap();
    let service_idx = position(&plan, |step| {
        matches!(step, SystemInstallStep::ActivateOpenrcServices { .. })
    })
    .unwrap();
    assert!(swap_idx < service_idx);
    assert!(plan
        .manifest
        .packages
        .iter()
        .any(|package| package.package == "sys-block/zram-init"));
}

#[test]
fn zram_swap_requires_openrc() {
    let manifest = SystemManifest {
        disk: vda(DiskLayout::Ext4),
        init_system: InitSystem::Systemd,
        swap: Swap {
            strategy: SwapStrategy::Hybrid {
                zram: ZramOptions::default(),
                disk: SwapDiskOptions {
                    size: SwapSize::Fixed(4 * GB),
                },
            },
            swappiness: 180,
        },
        ..SystemManifest::default()
    };
    let error = plan_error(manifest, image());
    assert_eq!(
        error.message(),
        "invalid install plan: zram swap provisioning currently supports OpenRC through sys-block/zram-init"
    );
}

#[test]
fn users_users_add_a_setup_step_that_never_renders_secrets() {
    let manifest = SystemManifest {
        disk: vda(DiskLayout::Ext4),
        users: vec![
            User::new("testuser")
                .wheel()
                .password(Password::Plain("super-secret".to_owned())),
            User::new("bot").password(Password::Prompt),
        ],
        ..SystemManifest::default()
    };

    let plan = plan(manifest, image());
    let setup = plan
        .steps
        .iter()
        .find(|step| matches!(step, SystemInstallStep::SetupUsers { .. }))
        .expect("plan should contain a SetupUsers step");

    let rendered = setup.render();
    assert!(rendered.contains("testuser"));
    assert!(rendered.contains("bot"));
    assert!(!rendered.contains("super-secret"));
    assert!(!plan.render().contains("super-secret"));
}

#[test]
fn users_unresolved_prompt_username_is_rejected_before_planning() {
    let manifest = SystemManifest {
        disk: vda(DiskLayout::Ext4),
        users: vec![User::prompt().password(Password::Plain("super-secret".to_owned()))],
        ..SystemManifest::default()
    };

    let error = plan_error(manifest, image());
    assert!(matches!(error, SystemInstallError::InvalidPlan(_)));
    assert_eq!(
        error.message(),
        "invalid install plan: username for user 0 was not collected before install"
    );
}

#[test]
fn users_users_are_omitted_when_none_configured() {
    let plan = plan(ext4_manifest(), image());
    assert!(!plan
        .steps
        .iter()
        .any(|step| matches!(step, SystemInstallStep::SetupUsers { .. })));
}

#[test]
fn verify_target_layout_step_runs_immediately_after_copy() {
    let plan = plan(SystemManifest::default(), image());
    let verify_at = position(&plan, |step| {
        matches!(step, SystemInstallStep::VerifyTargetLayout { .. })
    })
    .expect("verify step present");
    assert!(verify_at >= 2);
    assert!(matches!(
        plan.steps[verify_at - 1],
        SystemInstallStep::Command { .. }
    ));
    let bind_at = position(&plan, |step| matches!(step, SystemInstallStep::BindMountPseudo { .. }))
        .expect("bind step present");
    assert!(verify_at < bind_at);
}

#[test]
fn missing_source_and_target_are_reported_first() {
    let error = plan_error(
        ext4_manifest(),
        SourceImage {
            source_exists: false,
            target_exists: false,
            ..image()
        },
    );
    assert_eq!(error.message(), "source root does not exist: /run/oxys/source");
    let error = plan_error(
        ext4_manifest(),
        SourceImage {
            target_exists: false,
            ..image()
        },
    );
    assert_eq!(error.message(), "target mount does not exist: /mnt/oxys");
}

#[test]
fn unsupported_layouts_are_rejected() {
    let error = plan_error(
        SystemManifest {
            disk: vda(DiskLayout::Btrfs),
            ..SystemManifest::default()
        },
        image(),
    );
    assert_eq!(error, SystemInstallError::UnsupportedLayout(DiskLayout::Btrfs));
    assert_eq!(
        error.message(),
        "unsupported layout for bootable system copy: Btrfs"
    );
}

#[test]
fn copy_steps_use_trailing_slashes_and_exclusions() {
    let plan = plan(ext4_manifest(), image());
    let rendered = plan.render();
    assert!(rendered.contains("rsync -aHAXx --numeric-ids --info=progress2 '--exclude=/dev/*'"));
    assert!(rendered.contains("/run/oxys/source/ /mnt/oxys/"));
    assert!(rendered.contains("/run/oxys/source/boot/ /mnt/oxys/boot/"));
    assert!(rendered.starts_with(" 1. Resolve and validate session policy\n    session mode: text"));
}

#[test]
fn grub_renders_resolved_arguments_in_order() {
    let manifest = SystemManifest {
        kernel: Kernel {
            cmdline: vec!["quiet".into(), "loglevel=3".into(), "quiet".into()],
        },
        ..SystemManifest::default()
    };
    let resolved = resolve_kernel_cmdline(&manifest).unwrap();

    let options = format!("root=UUID=test rw {}", resolved.values().join(" "));
    let config = render_grub_config("esp-test", &options, true);

    assert!(config.contains("linux /EFI/oxys/vmlinuz root=UUID=test rw quiet loglevel=3"));
    assert!(config.contains("search --no-floppy --fs-uuid --set=root esp-test"));
    assert!(config.contains("initrd /EFI/oxys/initramfs.img"));
}

#[test]
fn boot_options_name_the_root_filesystem() {
    let manifest = SystemManifest {
        kernel: Kernel {
            cmdline: vec!["quiet".into()],
        },
        ..SystemManifest::default()
    };
    let resolved = resolve_kernel_cmdline(&manifest).unwrap();
    assert_eq!(
        boot_options(&vda(DiskLayout::Ext4), "abcd", &resolved).unwrap(),
        "root=UUID=abcd rw quiet"
    );
    assert_eq!(
        boot_options(&vda(DiskLayout::Zfs), "", &resolved).unwrap(),
        "root=ZFS=rpool/ROOT/os rw quiet"
    );
    assert_eq!(
        boot_options(&vda(DiskLayout::Btrfs), "", &resolved),
        Err(BootOptionsError::UnsupportedLayout(DiskLayout::Btrfs))
    );
    assert_eq!(
        render_systemd_boot_entry("root=UUID=abcd rw", false),
        "title Oxys\nlinux /EFI/oxys/vmlinuz\noptions root=UUID=abcd rw\n"
    );
}

#[test]
fn kernel_version_prefers_the_boot_image_then_modules() {
    let modules = vec!["6.1.0".to_owned(), "6.12.3".to_owned(), "6.6.21".to_owned()];
    assert_eq!(
        kernel_version_from(Some("vmlinuz-6.6.21-gentoo"), &modules).as_deref(),
        Some("6.6.21-gentoo")
    );
    assert_eq!(kernel_version_from(Some("vmlinuz"), &modules).as_deref(), Some("6.6.21"));
    assert_eq!(kernel_version_from(None, &Vec::new()), None);
}

#[test]
fn requested_linker_parses_fuse_ld_flags() {
    assert_eq!(requested_linker("-fuse-ld=mold").as_deref(), Some("mold"));
    assert_eq!(requested_linker("-Wl,-O1 -fuse-ld=lld").as_deref(), Some("lld"));
    assert_eq!(
        requested_linker("-fuse-ld=bfd -fuse-ld=mold").as_deref(),
        Some("mold"),
        "the last -fuse-ld wins, matching gcc"
    );
    assert_eq!(requested_linker(""), None);
    assert_eq!(requested_linker("-Wl,--as-needed"), None);
    assert_eq!(requested_linker("-fuse-ld="), None);
}

#[test]
fn completed_package_event_exposes_count_for_installer_progress() {
    let event = emerge_event(&EmergeLine::BuildComplete {
        package: "sys-apps/iucode_tool".to_owned(),
        completed: 12,
        total: Some(133),
    });
    assert_eq!(
        event,
        StepEvent::StepOutput {
            line: "completed sys-apps/iucode_tool (12/133)".to_owned(),
        }
    );
}

#[test]
fn finds_exact_supported_locale_and_rejects_unsafe_values() {
    let catalogue = "# generated catalogue\nen_GB.UTF-8 UTF-8\nen_US.UTF-8 UTF-8\n";
    assert_eq!(
        supported_locale_line(catalogue, "en_US.UTF-8"),
        Some("en_US.UTF-8 UTF-8".to_owned())
    );
    assert_eq!(supported_locale_line(catalogue, "en_US"), None);
    assert_eq!(supported_locale_line(catalogue, "../../etc/passwd"), None);
    assert_eq!(
        supported_locale_line(catalogue, "  en_GB.UTF-8 "),
        Some("en_GB.UTF-8 UTF-8".to_owned())
    );
}

#[test]
fn steps_carry_the_plan_they_belong_to() {
    let manifest = SystemManifest {
        disk: vda(DiskLayout::Ext4),
        users: vec![
            User::new("testuser")
                .wheel()
                .password(Password::Plain("super-secret".to_owned())),
            User::new("bot"),
        ],
        ..SystemManifest::default()
    };

    let plan = plan(manifest, image());
    assert_eq!(plan.manifest.users.len(), 2);
    let mut saw_users = false;
    let mut saw_swap = false;
    for step in &plan.steps {
        match step {
            SystemInstallStep::SetupUsers { users, target_mount, .. } => {
                assert_eq!(users, &vec!["testuser".to_string(), "bot".to_string()]);
                assert_eq!(target_mount, TARGET);
                saw_users = true;
            }
            SystemInstallStep::ConfigureSwap { resolved_swap, target_mount, .. } => {
                assert_eq!(resolved_swap, &plan.resolved_swap);
                assert_eq!(target_mount, TARGET);
                saw_swap = true;
            }
            SystemInstallStep::GenerateFstab { target_mount, .. }
            | SystemInstallStep::Finalize { target_mount, .. }
            | SystemInstallStep::VerifyTargetLayout { target_mount, .. } => {
                assert_eq!(target_mount, TARGET);
            }
            _ => {}
        }
    }
    assert!(saw_users && saw_swap);
}
