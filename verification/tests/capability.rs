use oxys::capability::{
    compare_source_capabilities, parse_enabled_kernel_options, render_nodes_from,
    CapabilityManifestRead, DrmEntry, ImageCapabilities, ImageManifestError, KernelConfigRead,
    NvidiaProbe, SourceProbe,
};
use oxys::graphics::{resolve_graphics, ResolvedGraphics};
use oxys::manifest::{
    Graphics, Hardware, MesaGraphics, Nvidia, PrimeMode, SystemManifest, VideoCard, VideoCards,
    VmGraphics,
};

const ROOT: &str = "/run/oxys/source";

fn manifest_with_graphics(graphics: Graphics) -> SystemManifest {
    SystemManifest {
        hardware: Hardware {
            graphics,
            ..Hardware::default()
        },
        ..SystemManifest::default()
    }
}

fn virgl() -> ResolvedGraphics {
    resolve_graphics(&manifest_with_graphics(Graphics {
        mesa: MesaGraphics {
            video_cards: VideoCards::Explicit(vec![VideoCard::Virgl]),
            ..MesaGraphics::default()
        },
        vm_support: VmGraphics::Virgl,
        ..Graphics::default()
    }))
    .unwrap()
}

fn no_nvidia() -> NvidiaProbe {
    NvidiaProbe {
        driver_entries: Vec::new(),
        boot_entries: Vec::new(),
        module_abis: Vec::new(),
    }
}

fn probe(files: &[&str], kernel_config: Option<&str>) -> SourceProbe {
    SourceProbe {
        capability_manifest: None,
        present_files: files.iter().map(|f| f.to_string()).collect(),
        kernel_config: kernel_config.map(|contents| KernelConfigRead {
            path: format!("{ROOT}/boot/config-test"),
            contents: Ok(contents.to_owned()),
        }),
        nvidia: no_nvidia(),
    }
}

const VIRGL_CONFIG: &str = "CONFIG_DRM=y\nCONFIG_DRM_KMS_HELPER=y\nCONFIG_DRM_GEM_SHMEM_HELPER=y\nCONFIG_DRM_VIRTIO_GPU=m\nCONFIG_VIRTIO=y\nCONFIG_VIRTIO_PCI=y\n";

#[test]
fn source_capability_comparison_accepts_matching_virgl_image() {
    let resolved = virgl();
    let comparison = compare_source_capabilities(
        &resolved.requirements,
        ROOT,
        probe(&["usr/lib64/dri/virtio_gpu_dri.so"], Some(VIRGL_CONFIG)),
    );
    let resolved = resolved.validate_source(comparison).unwrap();
    assert!(resolved.capabilities.missing.is_empty());
    assert!(resolved.capabilities.mesa_checked);
    assert_eq!(
        resolved.capabilities.available_mesa_artifacts,
        vec!["usr/lib64/dri/virtio_gpu_dri.so"]
    );
    assert_eq!(resolved.capabilities.source_root.as_deref(), Some(ROOT));
}

#[test]
fn source_capability_comparison_reports_missing_artifact_and_kernel_option() {
    let resolved = virgl();
    let comparison =
        compare_source_capabilities(&resolved.requirements, ROOT, probe(&[], Some("CONFIG_DRM=y\n")));
    let error = resolved.validate_source(comparison).unwrap_err().message();
    assert!(error.contains("video_cards_virgl"));
    assert!(error.contains("CONFIG_DRM_VIRTIO_GPU"));
}

#[test]
fn missing_kernel_config_is_reported() {
    let resolved = virgl();
    let comparison = compare_source_capabilities(
        &resolved.requirements,
        ROOT,
        probe(&["usr/lib64/dri/virtio_gpu_dri.so"], None),
    );
    assert_eq!(
        comparison.missing,
        vec!["kernel DRM requirements exist but the source image has no readable boot/config-* or usr/src/linux/.config"]
    );
}

fn virgl_capabilities() -> ImageCapabilities {
    ImageCapabilities {
        format_version: 1,
        mesa_video_cards: vec!["video_cards_virgl".to_owned()],
        mesa_artifacts: vec!["usr/lib64/dri/virtio_gpu_dri.so".to_owned()],
        kernel_config_path: "boot/config-test".to_owned(),
        kernel_enabled: [
            "CONFIG_DRM",
            "CONFIG_DRM_KMS_HELPER",
            "CONFIG_DRM_GEM_SHMEM_HELPER",
            "CONFIG_DRM_VIRTIO_GPU",
            "CONFIG_VIRTIO",
            "CONFIG_VIRTIO_PCI",
        ]
        .iter()
        .map(|s| s.to_string())
        .collect(),
        nvidia_proprietary: false,
        nvidia_driver_version: None,
        nvidia_kernel_abi: None,
        vm_virgl: true,
        vm_vmware: false,
        virgl_launch_device: Some("virtio-vga-gl".to_owned()),
        vmware_launch_device: None,
    }
}

#[test]
fn checksummed_image_capability_manifest_is_preferred_over_legacy_probing() {
    let resolved = virgl();
    let probe = SourceProbe {
        capability_manifest: Some(CapabilityManifestRead::Read {
            expected_checksum: Some("0123abcd".to_owned()),
            actual_checksum: "0123abcd".to_owned(),
            parsed: Ok(virgl_capabilities()),
        }),
        present_files: vec![
            "usr/lib64/dri/virtio_gpu_dri.so".to_owned(),
            "boot/config-test".to_owned(),
        ],
        kernel_config: None,
        nvidia: no_nvidia(),
    };
    let comparison = compare_source_capabilities(&resolved.requirements, ROOT, probe);
    let resolved = resolved.validate_source(comparison).unwrap();
    assert!(resolved.capabilities.capability_manifest_checksum_verified);
    assert_eq!(
        resolved.capabilities.capability_manifest_path.as_deref(),
        Some("/run/oxys/source/usr/share/oxys/image-capabilities.toml")
    );
    assert_eq!(
        resolved.capabilities.kernel_config_path.as_deref(),
        Some("/run/oxys/source/boot/config-test")
    );
}

#[test]
fn tampered_image_capability_manifest_is_rejected() {
    let resolved = virgl();
    let probe = SourceProbe {
        capability_manifest: Some(CapabilityManifestRead::Read {
            expected_checksum: Some("0123abcd".to_owned()),
            actual_checksum: "ffff0000".to_owned(),
            parsed: Ok(virgl_capabilities()),
        }),
        present_files: Vec::new(),
        kernel_config: None,
        nvidia: no_nvidia(),
    };
    let comparison = compare_source_capabilities(&resolved.requirements, ROOT, probe);
    let error = resolved.validate_source(comparison).unwrap_err().message();
    assert!(error.contains("checksum mismatch"));
    assert!(error.contains("expected 0123abcd, calculated ffff0000"));
}

#[test]
fn capability_manifest_problems_are_reported_in_order() {
    let resolved = virgl();
    let without_checksum = SourceProbe {
        capability_manifest: Some(CapabilityManifestRead::Read {
            expected_checksum: None,
            actual_checksum: "ab".to_owned(),
            parsed: Ok(virgl_capabilities()),
        }),
        present_files: Vec::new(),
        kernel_config: None,
        nvidia: no_nvidia(),
    };
    let c = compare_source_capabilities(&resolved.requirements, ROOT, without_checksum);
    assert_eq!(
        c.missing,
        vec!["image capability manifest has no readable checksum at /run/oxys/source/usr/share/oxys/image-capabilities.toml.sha256"]
    );
    let invalid = SourceProbe {
        capability_manifest: Some(CapabilityManifestRead::Read {
            expected_checksum: Some("ab".to_owned()),
            actual_checksum: "ab".to_owned(),
            parsed: Err(ImageManifestError::Invalid("expected a table".to_owned())),
        }),
        present_files: Vec::new(),
        kernel_config: None,
        nvidia: no_nvidia(),
    };
    let c = compare_source_capabilities(&resolved.requirements, ROOT, invalid);
    assert!(c.capability_manifest_checksum_verified);
    assert_eq!(c.missing, vec!["invalid image capability manifest: expected a table"]);
    let undeclared = SourceProbe {
        capability_manifest: Some(CapabilityManifestRead::Read {
            expected_checksum: Some("ab".to_owned()),
            actual_checksum: "ab".to_owned(),
            parsed: Ok(ImageCapabilities {
                mesa_video_cards: Vec::new(),
                virgl_launch_device: None,
                ..virgl_capabilities()
            }),
        }),
        present_files: vec!["boot/config-test".to_owned()],
        kernel_config: None,
        nvidia: no_nvidia(),
    };
    let c = compare_source_capabilities(&resolved.requirements, ROOT, undeclared);
    assert_eq!(
        c.missing,
        vec![
            "image capability manifest does not provide video_cards_virgl",
            "image capability manifest lacks the Virgl launch-device contract",
        ]
    );
}

#[test]
fn proprietary_nvidia_capability_requires_driver_and_matching_kernel_module() {
    let resolved = resolve_graphics(&manifest_with_graphics(Graphics {
        nvidia: Some(Nvidia {
            prime: PrimeMode::Primary,
            ..Nvidia::default()
        }),
        ..Graphics::default()
    }))
    .unwrap();
    let probe = SourceProbe {
        capability_manifest: None,
        present_files: Vec::new(),
        kernel_config: None,
        nvidia: NvidiaProbe {
            driver_entries: vec!["nvidia-drivers-580.1".to_owned()],
            boot_entries: vec!["vmlinuz-6.12-test".to_owned()],
            module_abis: vec![("6.12-test".to_owned(), true)],
        },
    };
    let comparison = compare_source_capabilities(&resolved.requirements, ROOT, probe);
    let resolved = resolved.validate_source(comparison).unwrap();
    assert_eq!(
        resolved.capabilities.nvidia_driver_version.as_deref(),
        Some("580.1")
    );
    assert_eq!(
        resolved.capabilities.nvidia_kernel_abi.as_deref(),
        Some("6.12-test")
    );
}

#[test]
fn nvidia_module_must_match_the_boot_kernel() {
    let resolved = resolve_graphics(&manifest_with_graphics(Graphics {
        nvidia: Some(Nvidia::default()),
        ..Graphics::default()
    }))
    .unwrap();
    let probe = SourceProbe {
        capability_manifest: None,
        present_files: Vec::new(),
        kernel_config: None,
        nvidia: NvidiaProbe {
            driver_entries: Vec::new(),
            boot_entries: vec!["vmlinuz-6.12-test".to_owned(), "config-6.12-test".to_owned()],
            module_abis: vec![("6.6-old".to_owned(), true)],
        },
    };
    let comparison = compare_source_capabilities(&resolved.requirements, ROOT, probe);
    assert_eq!(
        comparison.missing,
        vec![
            "proprietary NVIDIA policy requires an installed x11-drivers/nvidia-drivers capability",
            "proprietary NVIDIA module nvidia_drm is missing for installed kernel ABI 6.12-test",
        ]
    );
}

#[test]
fn render_node_detection_maps_drm_nodes_to_pci_vendors() {
    let entries = vec![
        DrmEntry {
            name: "renderD129".to_owned(),
            vendor: Some("0x10DE\n".to_owned()),
        },
        DrmEntry {
            name: "card0".to_owned(),
            vendor: Some("0x8086\n".to_owned()),
        },
        DrmEntry {
            name: "renderD128".to_owned(),
            vendor: Some("0x8086\n".to_owned()),
        },
        DrmEntry {
            name: "renderD130".to_owned(),
            vendor: None,
        },
    ];
    let nodes = render_nodes_from(&entries);
    assert_eq!(nodes.len(), 2);
    assert_eq!(nodes[0].path, "/dev/dri/renderD128");
    assert_eq!(nodes[0].vendor, "0x8086");
    assert_eq!(nodes[1].vendor, "0x10de");
}

#[test]
fn kernel_config_options_are_sorted_and_unique() {
    let options = parse_enabled_kernel_options(
        "# CONFIG_FOO is not set\nCONFIG_ZZ=m\nCONFIG_AA = y \nCONFIG_BB=n\nCONFIG_ZZ=y\r\nCONFIG_CC=\"y\"",
    );
    assert_eq!(options, vec!["CONFIG_AA", "CONFIG_ZZ"]);
}
