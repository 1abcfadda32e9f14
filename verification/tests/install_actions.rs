use oxys::exec::CommandStep;
use oxys::install::host::{
    bind_mount_commands, check_source_init, finalize_commands, PartitionMap,
};
use oxys::install::services::{
    activate_openrc_services, systemd_service_commands, OpenrcTarget, RunlevelAction, RunlevelEntry,
};
use oxys::install::users::{user_setup_actions, UserAction};
use oxys::install::SystemInstallError;
use oxys::manifest::{
    Disk, DiskLayout, Ext4Options, InitSystem, OpenrcServices, Password, ResolvedDiskSwap,
    ResolvedSwap, Services, SessionMode, Shell, SystemManifest, User,
};
use oxys::world::{add_packages_to_manifest, AtomError};
use oxys::install::portage::{check_build_tools, check_target_portage_tree, linker_candidates};
use oxys::install::target_files::{locale_files, timezone_files};
use oxys::install::login::rewrite_inittab;

fn strings(v: &[&str]) -> Vec<String> {
    v.iter().map(|s| s.to_string()).collect()
}

fn step(description: &str, program: &str, args: &[&str]) -> CommandStep {
    CommandStep { description: description.to_owned(), program: program.to_owned(), args: strings(args) }
}

fn no_swap() -> ResolvedSwap {
    ResolvedSwap { zram: None, disk: None, swappiness: 60 }
}

fn disk_swap() -> ResolvedSwap {
    ResolvedSwap { zram: None, disk: Some(ResolvedDiskSwap { size: 1 << 30, priority: 10 }), swappiness: 60 }
}

fn disk(device: &str, layout: DiskLayout) -> Disk {
    Disk { device: device.to_owned(), layout, ..Disk::default() }
}

fn link(rl: &str, s: &str) -> RunlevelAction {
    RunlevelAction::Link { runlevel: rl.to_owned(), service: s.to_owned() }
}

fn unlink(rl: &str, s: &str) -> RunlevelAction {
    RunlevelAction::Unlink { runlevel: rl.to_owned(), service: s.to_owned() }
}

fn empty_target() -> OpenrcTarget {
    OpenrcTarget { init_scripts: Vec::new(), boot_entries: Vec::new(), default_entries: Vec::new() }
}

fn services(enabled: &[&str], disabled: &[&str]) -> Services {
    Services { enabled: strings(enabled), disabled: strings(disabled), openrc: OpenrcServices::default() }
}

#[test]
fn ext4_partition_map_numbers_swap_root_and_home() {
    let mut d = disk("/dev/nvme0n1", DiskLayout::Ext4);
    d.ext4 = Ext4Options { separate_home: true, ..d.ext4 };
    let m = PartitionMap::from_disk_with_swap(&d, &disk_swap());
    assert_eq!(m.efi, "/dev/nvme0n1p1");
    assert_eq!(m.swap.as_deref(), Some("/dev/nvme0n1p2"));
    assert_eq!(m.root, "/dev/nvme0n1p3");
    assert_eq!(m.home.as_deref(), Some("/dev/nvme0n1p4"));

    let plain = PartitionMap::from_disk_with_swap(&disk("/dev/sda", DiskLayout::Btrfs), &no_swap());
    assert_eq!(plain.efi, "/dev/sda1");
    assert_eq!(plain.swap, None);
    assert_eq!(plain.root, "/dev/sda2");
    assert_eq!(plain.home, None);
}

#[test]
fn zfs_partition_map_leaves_room_for_the_boot_pool() {
    let with_swap = PartitionMap::from_disk_with_swap(&disk("/dev/vda", DiskLayout::Zfs), &disk_swap());
    assert_eq!(with_swap.swap.as_deref(), Some("/dev/vda3"));
    assert_eq!(with_swap.root, "/dev/vda4");
    let without = PartitionMap::from_disk_with_swap(&disk("/dev/vda", DiskLayout::Zfs), &no_swap());
    assert_eq!(without.swap, None);
    assert_eq!(without.root, "/dev/vda3");
    assert_eq!(without.home, None);
}

#[test]
fn pseudo_filesystems_are_bound_recursively_and_made_slaves() {
    let steps = bind_mount_commands("/mnt/oxys");
    assert_eq!(steps.len(), 8);
    assert_eq!(steps[0], step("Mounting /dev to /mnt/oxys/dev", "mount", &["--rbind", "/dev", "/mnt/oxys/dev"]));
    assert_eq!(steps[1], step("Mounting /dev to /mnt/oxys/dev", "mount", &["--make-rslave", "/mnt/oxys/dev"]));
    assert_eq!(steps[7], step("Mounting /run to /mnt/oxys/run", "mount", &["--make-rslave", "/mnt/oxys/run"]));
}

#[test]
fn finalize_unmounts_everything_and_exports_zfs_pools() {
    let steps = finalize_commands(&disk("/dev/vda", DiskLayout::Zfs), &disk_swap(), "/mnt/oxys");
    let programs: Vec<&str> = steps.iter().map(|s| s.program.as_str()).collect();
    assert_eq!(programs, ["swapoff", "umount", "umount", "umount", "umount", "umount", "zpool", "zpool"]);
    assert_eq!(steps[0].args, strings(&["/dev/vda3"]));
    assert_eq!(steps[1], step("Unmounting /mnt/oxys/run", "umount", &["-R", "/mnt/oxys/run"]));
    assert_eq!(steps[5], step("Recursively unmounting target /mnt/oxys", "umount", &["-R", "/mnt/oxys"]));
    assert_eq!(steps[6], step("Exporting ZFS pool bpool", "zpool", &["export", "bpool"]));
    assert_eq!(steps[7], step("Exporting ZFS pool rpool", "zpool", &["export", "rpool"]));

    let ext4 = finalize_commands(&disk("/dev/sda", DiskLayout::Ext4), &no_swap(), "/mnt/oxys");
    assert_eq!(ext4.len(), 5);
    assert_eq!(ext4[0].program, "umount");
}

#[test]
fn blank_zfs_pool_names_are_not_exported() {
    let mut d = disk("/dev/vda", DiskLayout::Zfs);
    d.zfs.boot_pool = "  ".to_owned();
    let steps = finalize_commands(&d, &no_swap(), "/mnt/oxys");
    assert_eq!(steps.last().unwrap(), &step("Exporting ZFS pool rpool", "zpool", &["export", "rpool"]));
    assert_eq!(steps.iter().filter(|s| s.program == "zpool").count(), 1);
}

#[test]
fn openrc_config_refuses_a_systemd_source_root() {
    let err = check_source_init(InitSystem::Openrc, Some("/run/src/usr/lib/systemd/systemd")).unwrap_err();
    assert!(err.starts_with("config sets init_system: Openrc, but the live source root has full sys-apps/systemd installed (/run/src/usr/lib/systemd/systemd)."));
    assert!(err.contains("set init_system: Systemd to match the medium"));
    assert_eq!(check_source_init(InitSystem::Openrc, None), Ok(()));
    assert_eq!(check_source_init(InitSystem::Systemd, Some("/usr/lib/systemd/systemd")), Ok(()));
}

#[test]
fn users_are_created_with_shell_groups_and_passwords() {
    let users = vec![
        User::new("alice").groups(["wheel", "video"]).shell(Shell::Zsh).password(Password::Hashed("$6$x".to_owned())),
        User::new("bob"),
    ];
    let actions = user_setup_actions(&users);
    assert_eq!(
        actions,
        vec![
            UserAction::Chroot { args: strings(&["useradd", "-m", "-s", "/bin/zsh", "-G", "wheel,video", "alice"]) },
            UserAction::SetPassword { name: "alice".to_owned(), secret: "$6$x".to_owned(), hashed: true },
            UserAction::Chroot { args: strings(&["useradd", "-m", "-s", "/bin/bash", "bob"]) },
            UserAction::Chroot { args: strings(&["passwd", "-l", "bob"]) },
            UserAction::GrantWheelSudo,
            UserAction::Chroot { args: strings(&["passwd", "-l", "root"]) },
        ]
    );
}

#[test]
fn an_uncollected_password_stops_account_setup() {
    let users = vec![User::new("carol").password(Password::Prompt)];
    let actions = user_setup_actions(&users);
    assert_eq!(
        actions[1],
        UserAction::Refuse { message: "password for user 'carol' was not collected before install".to_owned() }
    );
    let plain = user_setup_actions(&vec![User::new("dave").password(Password::Plain("pw".to_owned()))]);
    assert_eq!(plain[1], UserAction::SetPassword { name: "dave".to_owned(), secret: "pw".to_owned(), hashed: false });
    assert_eq!(plain.len(), 3);
}

#[test]
fn systemd_units_are_enabled_and_disabled_under_the_target_root() {
    let steps = systemd_service_commands(&services(&["sshd", "NetworkManager"], &["getty@tty2"]), "/mnt/oxys");
    assert_eq!(
        steps,
        vec![
            step("Enable systemd services", "systemctl", &["--root", "/mnt/oxys", "enable", "sshd", "NetworkManager"]),
            step("Disable systemd services", "systemctl", &["--root", "/mnt/oxys", "disable", "getty@tty2"]),
        ]
    );
    assert!(systemd_service_commands(&services(&[], &[]), "/mnt/oxys").is_empty());
}

#[test]
fn boot_openrc_service_activation_manages_runlevel_symlinks() {
    let manifest = SystemManifest { services: services(&["NetworkManager"], &["sshd"]), ..SystemManifest::default() };
    let actions = activate_openrc_services(&manifest.services, false, "/mnt/oxys", &empty_target()).unwrap();
    assert_eq!(
        actions,
        vec![link("default", "NetworkManager"), unlink("default", "sshd"), unlink("boot", "sshd")]
    );
}

#[test]
fn boot_zfs_openrc_services_are_implicit_boot_runlevel_links() {
    let manifest = SystemManifest {
        disk: disk("/dev/vda", DiskLayout::Zfs),
        init_system: InitSystem::Openrc,
        ..SystemManifest::default()
    };
    let zfs_root = manifest.disk.layout == DiskLayout::Zfs;
    let actions = activate_openrc_services(&manifest.services, zfs_root, "/mnt/oxys", &empty_target()).unwrap();
    assert_eq!(actions, vec![link("boot", "zfs-import"), link("boot", "zfs-mount")]);
    assert!(!actions.contains(&link("default", "zfs-import")));
    assert!(!actions.contains(&link("default", "zfs-mount")));
}

fn authoritative() -> Services {
    Services {
        enabled: Vec::new(),
        disabled: Vec::new(),
        openrc: OpenrcServices { boot: strings(&["zfs-import"]), default: strings(&["sshd", "dbus"]) },
    }
}

fn entry(name: &str, is_dir: bool) -> RunlevelEntry {
    RunlevelEntry { name: name.to_owned(), is_dir }
}

#[test]
fn authoritative_runlevels_hold_exactly_their_lists() {
    let found = OpenrcTarget {
        init_scripts: strings(&["zfs-import", "sshd", "dbus", "cronie"]),
        boot_entries: Vec::new(),
        default_entries: vec![entry("cronie", false), entry("sshd", false)],
    };
    let actions = activate_openrc_services(&authoritative(), false, "/mnt/oxys", &found).unwrap();
    assert_eq!(
        actions,
        vec![link("boot", "zfs-import"), unlink("default", "cronie"), link("default", "sshd"), link("default", "dbus")]
    );
}

#[test]
fn authoritative_runlevels_refuse_bad_lists() {
    let mut found = OpenrcTarget {
        init_scripts: strings(&["zfs-import", "sshd"]),
        boot_entries: Vec::new(),
        default_entries: Vec::new(),
    };
    let err = activate_openrc_services(&authoritative(), false, "/mnt/oxys", &found).unwrap_err();
    assert_eq!(
        err,
        SystemInstallError::InvalidPlan(
            "OpenRC service \"dbus\" is listed in default but /mnt/oxys/etc/init.d/dbus is missing".to_owned()
        )
    );
    found.init_scripts.push("dbus".to_owned());
    found.boot_entries.push(entry("old", true));
    let err = activate_openrc_services(&authoritative(), false, "/mnt/oxys", &found).unwrap_err();
    assert_eq!(
        err,
        SystemInstallError::InvalidPlan("unexpected directory in OpenRC runlevel: /mnt/oxys/etc/runlevels/boot/old".to_owned())
    );
    let mut dup = authoritative();
    dup.openrc.default = strings(&["sshd", "sshd"]);
    let err = activate_openrc_services(&dup, false, "/mnt/oxys", &empty_target()).unwrap_err();
    assert_eq!(
        err,
        SystemInstallError::InvalidPlan("OpenRC service \"zfs-import\" is listed in boot but /mnt/oxys/etc/init.d/zfs-import is missing".to_owned())
    );
    dup.openrc.boot = strings(&["../x"]);
    let err = activate_openrc_services(&dup, false, "/mnt/oxys", &empty_target()).unwrap_err();
    assert_eq!(err, SystemInstallError::InvalidPlan("invalid OpenRC service name \"../x\" in boot".to_owned()));
    dup.openrc.boot = Vec::new();
    let scripts = OpenrcTarget { init_scripts: strings(&["sshd"]), ..empty_target() };
    let err = activate_openrc_services(&dup, false, "/mnt/oxys", &scripts).unwrap_err();
    assert_eq!(
        err,
        SystemInstallError::InvalidPlan("OpenRC service \"sshd\" is listed more than once in default".to_owned())
    );
}

#[test]
fn requested_packages_are_trimmed_and_added_once() {
    let mut manifest = SystemManifest::default();
    manifest.packages.push(oxys::manifest::Package::new("app-editors/vim"));
    let added = add_packages_to_manifest(
        &mut manifest,
        &strings(&[" gui-wm/niri ", "app-editors/vim", "gui-wm/niri", "dev-vcs/git"]),
    )
    .unwrap();
    assert_eq!(added, strings(&["gui-wm/niri", "dev-vcs/git"]));
    let names: Vec<&str> = manifest.packages.iter().map(|p| p.package.as_str()).collect();
    assert_eq!(names, ["app-editors/vim", "gui-wm/niri", "dev-vcs/git"]);
    assert!(manifest.packages[1].version.is_none() && manifest.packages[1].use_flags.is_empty());
}

#[test]
fn requested_packages_refuse_blank_and_flag_like_atoms() {
    let mut manifest = SystemManifest::default();
    let err = add_packages_to_manifest(&mut manifest, &strings(&["dev-vcs/git", "  "])).unwrap_err();
    assert_eq!(err, AtomError::Empty);
    assert_eq!(err.message(), "package atom cannot be empty");
    assert_eq!(manifest.packages.len(), 1);
    let err = add_packages_to_manifest(&mut manifest, &strings(&["--ask"])).unwrap_err();
    assert_eq!(err, AtomError::Invalid("--ask".to_owned()));
    assert_eq!(err.message(), "invalid package atom `--ask`");
    assert_eq!(manifest.packages.len(), 1);
}

#[test]
fn missing_portage_tree_fails_package_install() {
    let manifest = SystemManifest {
        packages: vec![oxys::manifest::Package::new("app-misc/example")],
        ..SystemManifest::default()
    };
    assert!(!manifest.packages.is_empty());
    let error = check_target_portage_tree("/tmp/oxys-target", false)
        .expect_err("missing package metadata must fail the install");
    assert!(matches!(error, SystemInstallError::PackageInstall(_)));
    assert!(error.message().contains("Portage tree is missing or incomplete"));
    assert_eq!(
        error.message(),
        "target Portage tree is missing or incomplete: /tmp/oxys-target/var/db/repos/gentoo"
    );
    assert_eq!(check_target_portage_tree("/tmp/oxys-target", true), Ok(()));
}

#[test]
fn missing_requested_linker_fails_before_emerge() {
    let manifest = SystemManifest::default();
    assert_eq!(manifest.compiler.ldflags, "-fuse-ld=mold");
    let error = check_build_tools(&manifest.compiler.ldflags, false, manifest.compiler.ccache, false)
        .expect_err("a target without mold must fail the preflight");
    assert!(matches!(error, SystemInstallError::PackageInstall(_)));
    assert!(error.message().contains("no 'mold' linker"));
    assert!(error.message().contains("compiler.ldflags is \"-fuse-ld=mold\"; every source build"));
}

#[test]
fn present_linker_passes_and_missing_ccache_only_warns() {
    let manifest = SystemManifest::default();
    assert!(manifest.compiler.ccache);
    let (ld, bare) = linker_candidates("/mnt/oxys", "mold");
    assert_eq!(ld, "/mnt/oxys/usr/bin/ld.mold");
    assert_eq!(bare, "/mnt/oxys/usr/bin/mold");
    let warning = check_build_tools(&manifest.compiler.ldflags, true, manifest.compiler.ccache, false)
        .expect("linker present: preflight must pass")
        .expect("a ccache warning");
    assert!(warning.contains("ccache is not installed"));
    assert_eq!(check_build_tools("-O2", false, true, true), Ok(None));
}

#[test]
fn requesting_the_same_packages_twice_adds_nothing_more() {
    let mut manifest = SystemManifest::default();
    let reqs = strings(&["gui-wm/niri", " dev-vcs/git", "gui-wm/niri"]);
    let first = add_packages_to_manifest(&mut manifest, &reqs).unwrap();
    assert_eq!(first, strings(&["gui-wm/niri", "dev-vcs/git"]));
    let again = add_packages_to_manifest(&mut manifest, &reqs).unwrap();
    assert!(again.is_empty());
    assert_eq!(manifest.packages.len(), 2);
}

#[test]
fn world_set_follows_added_and_removed_packages() {
    let current = vec![oxys::manifest::Package::new("app-editors/vim"), oxys::manifest::Package::new("net-misc/curl")];
    let mut desired = vec![oxys::manifest::Package::new("app-editors/vim"), oxys::manifest::Package::new("gui-wm/niri")];
    desired[0].use_flags.push("python".to_owned());
    let changes = oxys::diff::diff_packages(&current, &desired);
    let update = oxys::diff::reconcile_world(&changes);
    assert_eq!(update.select, strings(&["gui-wm/niri"]));
    assert_eq!(update.deselect, strings(&["net-misc/curl"]));
}

#[test]
fn write_timezone_links_localtime_and_records_the_zone() {
    let files = timezone_files("Europe/London", true).unwrap();
    assert_eq!(files.timezone, "Europe/London\n");
    assert_eq!(files.localtime_link, "../usr/share/zoneinfo/Europe/London");

    let err = timezone_files("Europe/Lodnon", false).expect_err("unknown zone must fail");
    assert!(err.message().contains("Europe/Lodnon"), "got: {}", err.message());
}

#[test]
fn write_locale_enables_catalogue_entry_and_sets_lang() {
    let catalogue = "en_GB.UTF-8 UTF-8\nen_US.UTF-8 UTF-8\n";
    let files = locale_files(catalogue, "en_US.UTF-8").unwrap();
    assert_eq!(files.locale_gen, "# generated by oxys\nen_US.UTF-8 UTF-8\n");
    assert_eq!(files.env, "# generated by oxys\nLANG=\"en_US.UTF-8\"\n");
    let err = locale_files(catalogue, "de_DE.UTF-8").unwrap_err();
    assert!(err.message().contains("\"de_DE.UTF-8\""));
}

const LIVE_INITTAB: &str = "c1:12345:respawn:/sbin/agetty --autologin root --noclear 38400 tty1 linux\n";

#[test]
fn installation_graphical_config_without_users_falls_back_to_text_login() {
    let manifest = SystemManifest {
        packages: vec![oxys::manifest::Package::new("gui-wm/niri")],
        ..SystemManifest::default()
    };
    let graphical = manifest.session.mode == SessionMode::Graphical && !manifest.users.is_empty();
    let inittab = rewrite_inittab(LIVE_INITTAB, graphical);
    assert!(inittab.contains("c1:12345:respawn:/sbin/agetty --noclear 38400 tty1 linux"));
    assert!(!inittab.contains("--autologin"));
    assert!(!inittab.contains("oxys-login"));
}

#[test]
fn installation_non_graphical_config_uses_plain_text_login() {
    let manifest = SystemManifest::default();
    let inittab = rewrite_inittab(LIVE_INITTAB, manifest.session.mode == SessionMode::Graphical);
    assert!(inittab.contains("c1:12345:respawn:/sbin/agetty --noclear 38400 tty1 linux"));
    assert!(!inittab.contains("oxys-login"));
    assert!(!inittab.contains("--autologin root"));
}

#[test]
fn graphical_login_replaces_tty1_in_place_and_keeps_other_lines() {
    let existing = "id:3:initdefault:\n  c1:12345:respawn:/sbin/agetty --autologin root tty1 linux\r\nc2:2345:respawn:/sbin/agetty 38400 tty2 linux\n";
    assert_eq!(
        rewrite_inittab(existing, true),
        "id:3:initdefault:\nc1:12345:respawn:/sbin/agetty --noclear --skip-login --login-program /usr/local/bin/oxys-login 38400 tty1 linux\nc2:2345:respawn:/sbin/agetty 38400 tty2 linux\n"
    );
    assert_eq!(rewrite_inittab("", false), "c1:12345:respawn:/sbin/agetty --noclear 38400 tty1 linux\n");
    assert_eq!(
        rewrite_inittab("id:3:initdefault:", false),
        "id:3:initdefault:\nc1:12345:respawn:/sbin/agetty --noclear 38400 tty1 linux\n"
    );
}
