use oxys::manifest::{
    resolve_swap_for_ram, Compiler, Compression, Disk, DiskLayout, EfiPartition, Encryption,
    Firewall, FirewallPolicy, FirewallValidationError, March, Package, Password, RamFraction,
    Shell, Swap, SwapDiskOptions, SwapResolveError, SwapSize, SwapStrategy, SystemManifest,
    Timezone, User, Username, ZramOptions, GB, MB, NFTABLES_PACKAGE, NFTABLES_SERVICE,
};
use oxys::manifest::{InitSystem, Os};

#[test]
fn native_march_has_no_binhost_url() {
    assert_eq!(March::Native.binhost_url(), None);
}

#[test]
fn baseline_marches_map_to_short_oxys_binhost_urls() {
    assert_eq!(
        March::X86_64.binhost_url().as_deref(),
        Some("https://packages.oxysos.org/x86-64/ https://kernel.oxysos.org/x86-64/")
    );
    assert_eq!(
        March::X86_64V3.binhost_url().as_deref(),
        Some("https://packages.oxysos.org/x86-64-v3/ https://kernel.oxysos.org/x86-64-v3/")
    );
}

#[test]
fn compiler_default_binhost_follows_default_march() {
    let compiler = Compiler::default();
    assert_eq!(compiler.binhost, compiler.march.binhost_url());
}

#[test]
fn user_builder_populates_expected_fields() {
    let user = User::new("testuser")
        .wheel()
        .groups(["video", "audio"])
        .wheel()
        .shell(Shell::Zsh)
        .password(Password::Prompt);

    assert_eq!(user.name, Username::Literal("testuser".into()));
    assert_eq!(user.shell, Shell::Zsh);
    assert_eq!(user.password, Password::Prompt);
    assert_eq!(user.groups, vec!["video", "audio", "wheel"]);
    assert!(user.is_wheel());
}

#[test]
fn prompt_users_lists_only_prompt_passwords() {
    let manifest = SystemManifest {
        users: vec![
            User::new("root").password(Password::Hashed("$6$x".into())),
            User::new("testuser").password(Password::Prompt),
            User::new("guest").password(Password::Locked),
            User::new("dev").password(Password::Prompt),
        ],
        ..SystemManifest::default()
    };
    assert_eq!(manifest.prompt_users(), vec!["testuser", "dev"]);
}

#[test]
fn prompt_usernames_lists_only_prompt_names() {
    let manifest = SystemManifest {
        users: vec![
            User::new("root"),
            User::prompt().password(Password::Prompt),
            User::new("guest"),
            User::prompt(),
        ],
        ..SystemManifest::default()
    };
    assert_eq!(manifest.prompt_usernames(), vec![1, 3]);
}

#[test]
fn timezone_from_str_builds_a_literal() {
    let os = Os {
        timezone: "Europe/London".into(),
        ..Os::default()
    };
    assert_eq!(os.timezone, Timezone::Literal("Europe/London".into()));
    assert_eq!(os.timezone.as_str(), "Europe/London");
    assert!(!SystemManifest {
        os,
        ..SystemManifest::default()
    }
    .prompts_timezone());
}

#[test]
fn prompt_timezone_is_reported() {
    let manifest = SystemManifest {
        os: Os {
            timezone: Timezone::Prompt,
            ..Os::default()
        },
        ..SystemManifest::default()
    };
    assert!(manifest.prompts_timezone());
    assert_eq!(manifest.os.timezone.as_str(), "");
}

#[test]
fn password_warnings_flag_plaintext_only() {
    let manifest = SystemManifest {
        users: vec![
            User::new("testuser").password(Password::Plain("hunter2".into())),
            User::new("root").password(Password::Hashed("$6$x".into())),
            User::new("bot").password(Password::Prompt),
        ],
        ..SystemManifest::default()
    };
    let warnings = manifest.password_warnings();
    assert_eq!(warnings.len(), 1);
    assert!(warnings[0].contains("testuser"));
    assert!(warnings[0].contains("Password::Plain"));
}

#[test]
fn shell_paths_are_absolute() {
    assert_eq!(Shell::Bash.path(), "/bin/bash");
    assert_eq!(Shell::Zsh.path(), "/bin/zsh");
    assert_eq!(Shell::Fish.path(), "/usr/bin/fish");
}

#[test]
fn package_builder_populates_expected_fields() {
    let package = Package::new("gui-wm/niri")
        .binary(true)
        .version("25.11-r1")
        .use_flags(["screencast", "-debug"]);

    assert_eq!(package.package, "gui-wm/niri");
    assert!(package.binary);
    assert_eq!(package.version.as_deref(), Some("25.11-r1"));
    assert_eq!(package.use_flags, vec!["screencast", "-debug"]);
}

#[test]
fn disk_default_uses_ext4_whole_disk() {
    let disk = Disk::default();

    assert_eq!(disk.layout, DiskLayout::Ext4);
    assert_eq!(disk.encryption, Encryption::Disabled);
    assert!(!disk.ext4.separate_home);
}

#[test]
fn efi_partition_default_uses_512mb() {
    assert_eq!(EfiPartition::default().size, 512 * MB);
}

fn nftables(tcp_ports: Vec<u16>, udp_ports: Vec<u16>) -> Firewall {
    Firewall::Nftables {
        incoming: FirewallPolicy::Drop,
        forwarding: FirewallPolicy::Drop,
        outgoing: FirewallPolicy::Accept,
        allow_icmp: true,
        tcp_ports,
        udp_ports,
    }
}

#[test]
fn firewall_validation_covers_ports_package_service_and_init() {
    let firewall = nftables(vec![22], vec![0]);
    assert_eq!(
        firewall.validate(),
        Err(FirewallValidationError::ZeroPort { protocol: "udp" })
    );

    let mut manifest = SystemManifest {
        firewall: nftables(vec![], vec![]),
        ..SystemManifest::default()
    };
    assert_eq!(
        manifest.validate_firewall(),
        Err(FirewallValidationError::MissingPackage)
    );
    manifest.packages.push(Package::new(NFTABLES_PACKAGE));
    assert_eq!(
        manifest.validate_firewall(),
        Err(FirewallValidationError::MissingService)
    );
    manifest
        .services
        .openrc
        .default
        .push(NFTABLES_SERVICE.to_owned());
    assert_eq!(manifest.validate_firewall(), Ok(()));

    manifest.init_system = InitSystem::Systemd;
    assert_eq!(
        manifest.validate_firewall(),
        Err(FirewallValidationError::UnsupportedInit(InitSystem::Systemd))
    );

    assert_eq!(SystemManifest::default().validate_firewall(), Ok(()));
}

#[test]
fn missing_firewall_defaults_to_disabled() {
    let manifest = SystemManifest::default();
    assert_eq!(manifest.firewall, Firewall::Disabled);
    assert!(!manifest.firewall.enabled());
    assert!(nftables(vec![22], vec![]).enabled());
}

fn policy_for(gib: u64) -> SwapStrategy {
    match gib {
        0..=8 => SwapStrategy::Disk {
            size: SwapSize::MatchRam,
        },
        9..=16 => SwapStrategy::Hybrid {
            zram: ZramOptions::default(),
            disk: SwapDiskOptions {
                size: SwapSize::Fixed(4 * GB),
            },
        },
        _ => SwapStrategy::ZramOnly {
            algorithm: Compression::Zstd,
            fraction: RamFraction::half(),
        },
    }
}

#[test]
fn policy_has_expected_ram_boundaries() {
    for (gib, want_disk, want_zram) in [
        (8, true, false),
        (9, true, true),
        (16, true, true),
        (17, false, true),
    ] {
        let resolved = resolve_swap_for_ram(
            &Swap {
                strategy: policy_for(gib),
                swappiness: 180,
            },
            gib * GB,
        )
        .unwrap();
        assert_eq!(resolved.disk.is_some(), want_disk, "{gib} GiB");
        assert_eq!(resolved.zram.is_some(), want_zram, "{gib} GiB");
    }
}

#[test]
fn hybrid_uses_half_ram_and_prefers_zram() {
    let resolved = resolve_swap_for_ram(
        &Swap {
            strategy: policy_for(16),
            swappiness: 180,
        },
        16 * GB,
    )
    .unwrap();
    assert_eq!(resolved.zram.as_ref().unwrap().size, 8 * GB);
    assert_eq!(resolved.disk.as_ref().unwrap().size, 4 * GB);
    assert!(resolved.zram.as_ref().unwrap().priority > resolved.disk.as_ref().unwrap().priority);
}

#[test]
fn rejects_invalid_values() {
    assert!(matches!(
        resolve_swap_for_ram(
            &Swap {
                strategy: SwapStrategy::Disabled,
                swappiness: 201,
            },
            8 * GB,
        ),
        Err(SwapResolveError::InvalidSwappiness(201))
    ));
    assert!(matches!(
        RamFraction::new(1, 0).bytes(8 * GB),
        Err(SwapResolveError::InvalidFraction { .. })
    ));
}

#[test]
fn legacy_partition_swap_resolves_to_disk_swap() {
    let mut manifest = SystemManifest::default();
    manifest.disk.partitions.swap = oxys::manifest::SwapConfig::Partition { size: 4 * GB };
    let resolved = manifest.resolved_swap_for_ram(16 * GB).unwrap();
    assert_eq!(resolved.disk.unwrap().size, 4 * GB);
    assert!(resolved.zram.is_none());
}
