use oxys::graphics::{
    resolve_graphics, GraphicsCapabilityComparison, GraphicsResolveError, RenderNode,
};
use oxys::decision::DecisionSource;
use oxys::manifest::{
    Drm, DrmDriver, DrmDrivers, Gpu, GpuVendor, Graphics, Hardware, MesaGraphics, Nvidia, NvidiaDriver, PrimeMode,
    SoftwareRenderer, VideoCard, VideoCards, VmGraphics,
};
use oxys::manifest::SystemManifest;

fn manifest_with_graphics(graphics: Graphics) -> SystemManifest {
    SystemManifest {
        hardware: Hardware {
            graphics,
            ..Hardware::default()
        },
        ..SystemManifest::default()
    }
}

fn virgl_graphics() -> Graphics {
    Graphics {
        mesa: MesaGraphics {
            video_cards: VideoCards::Explicit(vec![VideoCard::Virgl]),
            ..MesaGraphics::default()
        },
        vm_support: VmGraphics::Virgl,
        ..Graphics::default()
    }
}

#[test]
fn virgl_policy_derives_mesa_artifact_and_kernel_requirements() {
    let manifest = manifest_with_graphics(Graphics {
        mesa: MesaGraphics {
            video_cards: VideoCards::Explicit(vec![VideoCard::Virgl]),
            ..MesaGraphics::default()
        },
        drm: Drm {
            drivers: DrmDrivers::Auto,
        },
        vm_support: VmGraphics::Virgl,
        ..Graphics::default()
    });

    let resolved = resolve_graphics(&manifest).unwrap();
    assert_eq!(resolved.policy.drm_drivers, [DrmDriver::VirtioGpu]);
    assert!(resolved
        .requirements
        .kernel_config
        .contains(&"CONFIG_DRM_VIRTIO_GPU".to_owned()));
    assert_eq!(
        resolved.requirements.mesa_artifacts[0].capability,
        "video_cards_virgl"
    );
    assert_eq!(resolved.mesa_build_values(), ["virgl"]);
    assert_eq!(resolved.drm_build_values(), ["virtio_gpu"]);
}

#[test]
fn proprietary_nvidia_and_nouveau_are_mutually_exclusive() {
    let manifest = manifest_with_graphics(Graphics {
        mesa: MesaGraphics {
            video_cards: VideoCards::Explicit(vec![VideoCard::Nouveau]),
            ..MesaGraphics::default()
        },
        nvidia: Some(Nvidia::default()),
        ..Graphics::default()
    });

    assert!(resolve_graphics(&manifest)
        .unwrap_err()
        .message()
        .contains("conflicts with VideoCard::Nouveau"));
}

#[test]
fn offload_requires_and_records_an_integrated_gpu() {
    let manifest = manifest_with_graphics(Graphics {
        mesa: MesaGraphics {
            video_cards: VideoCards::Explicit(vec![VideoCard::Intel]),
            ..MesaGraphics::default()
        },
        nvidia: Some(Nvidia {
            prime: PrimeMode::Offload,
            ..Nvidia::default()
        }),
        ..Graphics::default()
    });

    let resolved = resolve_graphics(&manifest).unwrap();
    let prime = resolved.requirements.prime.unwrap();
    assert_eq!(prime.mode, PrimeMode::Offload);
    assert!(prime.compositor_gpu.contains("Intel"));
    assert!(prime.offload_gpu.unwrap().contains("prime-run"));
}

#[test]
fn explicit_empty_video_cards_are_rejected() {
    let manifest = manifest_with_graphics(Graphics {
        mesa: MesaGraphics {
            video_cards: VideoCards::Explicit(Vec::new()),
            ..MesaGraphics::default()
        },
        ..Graphics::default()
    });
    let err = resolve_graphics(&manifest).unwrap_err();
    assert!(matches!(err, GraphicsResolveError::Invalid(_)));
    assert!(err.message().contains("explicit but empty"));
}

#[test]
fn nouveau_driver_rejects_prime_routing() {
    let manifest = manifest_with_graphics(Graphics {
        nvidia: Some(Nvidia {
            driver: NvidiaDriver::Nouveau,
            prime: PrimeMode::Primary,
            modeset: true,
        }),
        ..Graphics::default()
    });
    assert!(resolve_graphics(&manifest)
        .unwrap_err()
        .message()
        .contains("Nouveau PRIME routing is not supported"));
}

#[test]
fn required_software_fallback_adds_lavapipe() {
    let manifest = manifest_with_graphics(Graphics {
        mesa: MesaGraphics {
            video_cards: VideoCards::Explicit(vec![VideoCard::Intel]),
            software_fallback: SoftwareRenderer::Required,
        },
        ..Graphics::default()
    });
    let resolved = resolve_graphics(&manifest).unwrap();
    assert_eq!(resolved.policy.mesa_video_cards, [VideoCard::Intel, VideoCard::Lavapipe]);
    assert_eq!(resolved.mesa_build_values(), ["intel", "lavapipe"]);
}

#[test]
fn missing_source_capabilities_are_joined_into_one_error() {
    let resolved = resolve_graphics(&manifest_with_graphics(virgl_graphics())).unwrap();
    let comparison = GraphicsCapabilityComparison {
        missing: vec![
            "Mesa capability video_cards_virgl requires one of: a".to_owned(),
            "kernel config is missing CONFIG_DRM_VIRTIO_GPU".to_owned(),
        ],
        ..GraphicsCapabilityComparison::default()
    };
    let err = resolved.validate_source(comparison).unwrap_err();
    assert_eq!(
        err,
        GraphicsResolveError::Capability(
            "Mesa capability video_cards_virgl requires one of: a; kernel config is missing CONFIG_DRM_VIRTIO_GPU"
                .to_owned()
        )
    );
}

#[test]
fn complete_source_capabilities_are_recorded() {
    let resolved = resolve_graphics(&manifest_with_graphics(virgl_graphics())).unwrap();
    let comparison = GraphicsCapabilityComparison {
        mesa_checked: true,
        ..GraphicsCapabilityComparison::default()
    };
    let validated = resolved.validate_source(comparison).unwrap();
    assert!(validated.capabilities.mesa_checked);
    assert!(validated.capabilities.missing.is_empty());
}

#[test]
fn prime_offload_is_pinned_to_detected_render_nodes() {
    let manifest = manifest_with_graphics(Graphics {
        mesa: MesaGraphics {
            video_cards: VideoCards::Explicit(vec![VideoCard::Intel]),
            ..MesaGraphics::default()
        },
        nvidia: Some(Nvidia {
            prime: PrimeMode::Offload,
            ..Nvidia::default()
        }),
        ..Graphics::default()
    });
    let nodes = vec![
        RenderNode { path: "/dev/dri/renderD128".to_owned(), vendor: "0x8086".to_owned() },
        RenderNode { path: "/dev/dri/renderD129".to_owned(), vendor: "0x10de".to_owned() },
    ];
    let resolved = resolve_graphics(&manifest).unwrap().resolve_runtime_nodes(&nodes).unwrap();
    let prime = resolved.requirements.prime.unwrap();
    assert_eq!(prime.compositor_gpu, "/dev/dri/renderD128");
    assert_eq!(prime.offload_gpu.unwrap(), "/dev/dri/renderD129 via prime-run");

    let only_intel = vec![nodes[0].clone()];
    assert!(resolve_graphics(&manifest).unwrap().resolve_runtime_nodes(&only_intel).is_err());
}

#[test]
fn graphics_without_prime_ignores_render_nodes() {
    let resolved = resolve_graphics(&manifest_with_graphics(virgl_graphics())).unwrap();
    let same = resolved.clone().resolve_runtime_nodes(&Vec::new()).unwrap();
    assert_eq!(same, resolved);
}

#[test]
fn materializing_required_packages_twice_adds_nothing_more() {
    let manifest = manifest_with_graphics(Graphics {
        mesa: MesaGraphics {
            video_cards: VideoCards::Explicit(vec![VideoCard::Intel]),
            ..MesaGraphics::default()
        },
        nvidia: Some(Nvidia::default()),
        ..Graphics::default()
    });
    let resolved = resolve_graphics(&manifest).unwrap();
    assert!(!resolved.requirements.packages.is_empty());
    let once = resolved.materialize_manifest(manifest.clone());
    assert!(once.packages.len() > manifest.packages.len());
    assert!(once.packages.iter().any(|p| p.package == "x11-drivers/nvidia-drivers"
        && p.accept_licenses == vec!["NVIDIA-r2".to_owned()]));
    let twice = resolved.materialize_manifest(once.clone());
    assert_eq!(twice, once);
}

#[test]
fn converted_retired_gpu_setting_records_both_forms() {
    let mut manifest = manifest_with_graphics(Graphics {
        mesa: MesaGraphics {
            video_cards: VideoCards::Explicit(vec![VideoCard::Intel]),
            ..MesaGraphics::default()
        },
        nvidia: Some(Nvidia {
            prime: PrimeMode::Offload,
            ..Nvidia::default()
        }),
        ..Graphics::default()
    });
    manifest.legacy_gpu = Some(Gpu::Hybrid {
        igpu: GpuVendor::Intel,
        dgpu: GpuVendor::Nvidia,
    });

    let resolved = resolve_graphics(&manifest).unwrap();
    let legacy = &resolved.decisions[0];
    assert_eq!(legacy.field, "hardware.gpu");
    assert_eq!(legacy.source, DecisionSource::LegacyInference);
    assert!(legacy.value.contains("Offload"));
    assert_eq!(
        legacy.value,
        "Hybrid { igpu: Intel, dgpu: Nvidia } -> Graphics { mesa: MesaGraphics { video_cards: \
         Explicit([Intel]), software_fallback: Optional }, drm: Drm { drivers: Auto }, nvidia: \
         Some(Nvidia { driver: Proprietary, prime: Offload, modeset: true }), vm_support: Disabled }"
    );
    assert_eq!(legacy.affected, vec!["hardware.graphics".to_string()]);
    assert_eq!(resolved.decisions[1].field, "hardware.graphics.mesa.video_cards");
    assert_eq!(resolved.decisions[1].value, "Intel");
    assert_eq!(resolved.decisions[2].field, "hardware.graphics.drm.drivers");
    assert_eq!(resolved.decisions[2].source, DecisionSource::Dependency);
    assert_eq!(resolved.decisions[2].value, "Intel");
    assert_eq!(resolved.decisions[3].field, "graphics.requirement.video_card");
    assert_eq!(resolved.decisions[3].value, "Intel");
}
