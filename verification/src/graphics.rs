//! Resolution of the manifest's graphics policy into concrete Mesa, kernel
//! DRM, NVIDIA and PRIME requirements.
use vstd::prelude::*;

use crate::decision::{
    contains_card, contains_driver, copy_vec, push_unique, push_unique_card, push_unique_driver,
    DecisionSource,
};
use crate::manifest::accounts::views;
use crate::manifest::packages::Package;
use crate::manifest::{
    DrmDriver, DrmDrivers, Gpu, GpuVendor, Graphics, Nvidia, NvidiaDriver, PrimeMode,
    SoftwareRenderer, SystemManifest, VideoCard, VideoCards, VmGraphics,
};
use crate::text::{
    join, join_chars, owned, push_str, starts_with, str_starts_with, string_of, sviews, vviews,
};

verus! {

#[derive(Debug, Clone, PartialEq, Eq)]
pub struct GraphicsDecision {
    pub field: String,
    pub value: String,
    pub source: DecisionSource,
    pub reason: String,
    pub affected: Vec<String>,
}

#[derive(Debug, Clone, PartialEq, Eq)]
pub struct MesaArtifactRequirement {
    pub capability: String,
    pub alternatives: Vec<String>,
}

#[derive(Debug, Clone, PartialEq, Eq)]
pub struct PrimeRouting {
    pub mode: PrimeMode,
    pub compositor_gpu: String,
    pub offload_gpu: Option<String>,
}

#[derive(Debug, Clone, PartialEq, Eq)]
pub struct RequiredKernelArg {
    pub value: String,
    pub source_field: String,
    pub reason: String,
}

#[derive(Debug, Clone, PartialEq, Eq)]
pub struct GraphicsRequirements {
    pub mesa_video_cards: Vec<VideoCard>,
    pub mesa_artifacts: Vec<MesaArtifactRequirement>,
    pub drm_drivers: Vec<DrmDriver>,
    pub kernel_config: Vec<String>,
    pub packages: Vec<String>,
    pub kernel_modules: Vec<String>,
    pub initramfs_modules: Vec<String>,
    pub module_blacklist: Vec<String>,
    pub kernel_args: Vec<RequiredKernelArg>,
    pub prime: Option<PrimeRouting>,
    pub diagnostics: Vec<String>,
    pub proprietary_nvidia: bool,
    pub vm_support: VmGraphics,
}

#[derive(Debug, Clone, PartialEq, Eq)]
pub struct GraphicsPolicy {
    pub mesa_video_cards: Vec<VideoCard>,
    pub drm_drivers: Vec<DrmDriver>,
    pub software_fallback: SoftwareRenderer,
    pub nvidia: Option<Nvidia>,
    pub vm_support: VmGraphics,
}

/// What a source image was found to provide. Filled by the image inspection
/// that runs outside the resolver; the resolver starts from the empty value.
#[derive(Debug, Clone, PartialEq, Eq)]
pub struct GraphicsCapabilityComparison {
    pub source_root: Option<String>,
    pub capability_manifest_path: Option<String>,
    pub capability_manifest_checksum_verified: bool,
    pub mesa_checked: bool,
    pub kernel_config_path: Option<String>,
    pub available_mesa_artifacts: Vec<String>,
    pub available_kernel_config: Vec<String>,
    pub missing: Vec<String>,
    pub nvidia_driver_version: Option<String>,
    pub nvidia_kernel_abi: Option<String>,
}

impl Default for GraphicsCapabilityComparison {
    fn default() -> (r: Self)
        ensures
            r.source_root is None,
            r.capability_manifest_path is None,
            !r.capability_manifest_checksum_verified,
            !r.mesa_checked,
            r.kernel_config_path is None,
            r.available_mesa_artifacts@.len() == 0,
            r.available_kernel_config@.len() == 0,
            r.missing@.len() == 0,
            r.nvidia_driver_version is None,
            r.nvidia_kernel_abi is None,
    {
        GraphicsCapabilityComparison {
            source_root: None,
            capability_manifest_path: None,
            capability_manifest_checksum_verified: false,
            mesa_checked: false,
            kernel_config_path: None,
            available_mesa_artifacts: Vec::new(),
            available_kernel_config: Vec::new(),
            missing: Vec::new(),
            nvidia_driver_version: None,
            nvidia_kernel_abi: None,
        }
    }
}

#[derive(Debug, Clone, PartialEq, Eq)]
pub struct ResolvedGraphics {
    pub policy: GraphicsPolicy,
    pub requirements: GraphicsRequirements,
    pub capabilities: GraphicsCapabilityComparison,
    pub decisions: Vec<GraphicsDecision>,
    pub warnings: Vec<String>,
}

#[derive(Debug, Clone, PartialEq, Eq)]
pub enum GraphicsResolveError {
    /// The declared policy is contradictory or unsupported.
    Invalid(String),
    /// The source image lacks something the policy requires.
    Capability(String),
}

/// `e` is the invalid-configuration error with message `msg`.
pub open spec fn is_invalid(e: GraphicsResolveError, msg: Seq<char>) -> bool {
    match e {
        GraphicsResolveError::Invalid(s) => s@ == msg,
        _ => false,
    }
}

pub open spec fn graphics_error_text(e: GraphicsResolveError) -> Seq<char> {
    match e {
        GraphicsResolveError::Invalid(m) => "invalid graphics configuration: "@ + m@,
        GraphicsResolveError::Capability(m) => "source image does not satisfy graphics policy: "@
            + m@,
    }
}

impl GraphicsResolveError {
    /// The human-readable error message.
    pub fn message(&self) -> (r: String)
        ensures
            r@ == graphics_error_text(*self),
    {
        let mut v: Vec<char> = Vec::new();
        match self {
            GraphicsResolveError::Invalid(m) => {
                push_str(&mut v, "invalid graphics configuration: ");
                push_str(&mut v, m.as_str());
            },
            GraphicsResolveError::Capability(m) => {
                push_str(&mut v, "source image does not satisfy graphics policy: ");
                push_str(&mut v, m.as_str());
            },
        }
        string_of(&v)
    }
}

// ---------------------------------------------------------------------------
// Static tables.
// ---------------------------------------------------------------------------

/// The kernel DRM driver a Mesa card needs, if any.
pub open spec fn card_drm(c: VideoCard) -> Option<DrmDriver> {
    match c {
        VideoCard::Intel => Some(DrmDriver::Intel),
        VideoCard::Amdgpu => Some(DrmDriver::Amdgpu),
        VideoCard::Radeonsi => Some(DrmDriver::Amdgpu),
        VideoCard::Radeon => Some(DrmDriver::Radeon),
        VideoCard::Nouveau => Some(DrmDriver::Nouveau),
        VideoCard::Virgl => Some(DrmDriver::VirtioGpu),
        VideoCard::Vmware => Some(DrmDriver::Vmwgfx),
        VideoCard::Lavapipe => None,
    }
}

pub fn drm_for_card(card: VideoCard) -> (r: Option<DrmDriver>)
    ensures
        r == card_drm(card),
{
    match card {
        VideoCard::Intel => Some(DrmDriver::Intel),
        VideoCard::Amdgpu => Some(DrmDriver::Amdgpu),
        VideoCard::Radeonsi => Some(DrmDriver::Amdgpu),
        VideoCard::Radeon => Some(DrmDriver::Radeon),
        VideoCard::Nouveau => Some(DrmDriver::Nouveau),
        VideoCard::Virgl => Some(DrmDriver::VirtioGpu),
        VideoCard::Vmware => Some(DrmDriver::Vmwgfx),
        VideoCard::Lavapipe => None,
    }
}

/// The kernel config options a DRM driver needs.
pub open spec fn driver_options(d: DrmDriver) -> Seq<Seq<char>> {
    match d {
        DrmDriver::Intel => seq!["CONFIG_DRM"@, "CONFIG_DRM_KMS_HELPER"@, "CONFIG_DRM_I915"@],
        DrmDriver::Amdgpu => seq!["CONFIG_DRM"@, "CONFIG_DRM_KMS_HELPER"@, "CONFIG_DRM_AMDGPU"@],
        DrmDriver::Radeon => seq!["CONFIG_DRM"@, "CONFIG_DRM_KMS_HELPER"@, "CONFIG_DRM_RADEON"@],
        DrmDriver::Nouveau => seq!["CONFIG_DRM"@, "CONFIG_DRM_KMS_HELPER"@, "CONFIG_DRM_NOUVEAU"@],
        DrmDriver::VirtioGpu => seq![
            "CONFIG_DRM"@,
            "CONFIG_DRM_KMS_HELPER"@,
            "CONFIG_DRM_GEM_SHMEM_HELPER"@,
            "CONFIG_DRM_VIRTIO_GPU"@,
            "CONFIG_VIRTIO"@,
            "CONFIG_VIRTIO_PCI"@,
        ],
        DrmDriver::Vmwgfx => seq!["CONFIG_DRM"@, "CONFIG_DRM_KMS_HELPER"@, "CONFIG_DRM_VMWGFX"@],
    }
}

fn kernel_options(driver: DrmDriver) -> (r: Vec<&'static str>)
    ensures
        r@.map_values(|s: &str| s@) == driver_options(driver),
{
    let mut v: Vec<&'static str> = Vec::new();
    v.push("CONFIG_DRM");
    v.push("CONFIG_DRM_KMS_HELPER");
    match driver {
        DrmDriver::Intel => v.push("CONFIG_DRM_I915"),
        DrmDriver::Amdgpu => v.push("CONFIG_DRM_AMDGPU"),
        DrmDriver::Radeon => v.push("CONFIG_DRM_RADEON"),
        DrmDriver::Nouveau => v.push("CONFIG_DRM_NOUVEAU"),
        DrmDriver::VirtioGpu => {
            v.push("CONFIG_DRM_GEM_SHMEM_HELPER");
            v.push("CONFIG_DRM_VIRTIO_GPU");
            v.push("CONFIG_VIRTIO");
            v.push("CONFIG_VIRTIO_PCI");
        },
        DrmDriver::Vmwgfx => v.push("CONFIG_DRM_VMWGFX"),
    }
    assert(v@.map_values(|s: &str| s@) =~= driver_options(driver));
    v
}

/// The Portage capability flag a Mesa card corresponds to.
pub open spec fn card_capability(c: VideoCard) -> Seq<char> {
    match c {
        VideoCard::Intel => "video_cards_intel"@,
        VideoCard::Amdgpu => "video_cards_amdgpu"@,
        VideoCard::Radeonsi => "video_cards_radeonsi"@,
        VideoCard::Radeon => "video_cards_radeon"@,
        VideoCard::Nouveau => "video_cards_nouveau"@,
        VideoCard::Virgl => "video_cards_virgl"@,
        VideoCard::Vmware => "video_cards_vmware"@,
        VideoCard::Lavapipe => "video_cards_lavapipe"@,
    }
}

/// The library files that provide a Mesa card's driver.
pub open spec fn card_libraries(c: VideoCard) -> Seq<Seq<char>> {
    match c {
        VideoCard::Intel => seq!["iris_dri.so"@, "crocus_dri.so"@],
        VideoCard::Amdgpu => seq!["radeonsi_dri.so"@],
        VideoCard::Radeonsi => seq!["radeonsi_dri.so"@],
        VideoCard::Radeon => seq!["r600_dri.so"@, "radeon_dri.so"@],
        VideoCard::Nouveau => seq!["nouveau_dri.so"@],
        VideoCard::Virgl => seq!["virtio_gpu_dri.so"@],
        VideoCard::Vmware => seq!["vmwgfx_dri.so"@],
        VideoCard::Lavapipe => seq!["libvulkan_lvp.so"@, "libvulkan_lvp.so.1"@],
    }
}

fn library_names(card: VideoCard) -> (r: Vec<&'static str>)
    ensures
        r@.map_values(|s: &str| s@) == card_libraries(card),
{
    let mut v: Vec<&'static str> = Vec::new();
    match card {
        VideoCard::Intel => {
            v.push("iris_dri.so");
            v.push("crocus_dri.so");
        },
        VideoCard::Amdgpu => v.push("radeonsi_dri.so"),
        VideoCard::Radeonsi => v.push("radeonsi_dri.so"),
        VideoCard::Radeon => {
            v.push("r600_dri.so");
            v.push("radeon_dri.so");
        },
        VideoCard::Nouveau => v.push("nouveau_dri.so"),
        VideoCard::Virgl => v.push("virtio_gpu_dri.so"),
        VideoCard::Vmware => v.push("vmwgfx_dri.so"),
        VideoCard::Lavapipe => {
            v.push("libvulkan_lvp.so");
            v.push("libvulkan_lvp.so.1");
        },
    }
    assert(v@.map_values(|s: &str| s@) =~= card_libraries(card));
    v
}

/// Where a library is looked for under one library directory: Vulkan
/// loaders sit in the directory itself, DRI drivers in its `dri/`.
pub open spec fn library_path(base: Seq<char>, name: Seq<char>) -> Seq<char> {
    if starts_with(name, "libvulkan"@) {
        base + "/"@ + name
    } else {
        base + "/dri/"@ + name
    }
}

pub open spec fn paths_under(base: Seq<char>, names: Seq<Seq<char>>) -> Seq<Seq<char>> {
    names.map_values(|n: Seq<char>| library_path(base, n))
}

/// Every location a card's libraries may be found at, per library directory.
pub open spec fn card_artifact_paths(c: VideoCard) -> Seq<Seq<char>> {
    paths_under("usr/lib64"@, card_libraries(c)) + paths_under("usr/lib"@, card_libraries(c))
        + paths_under("usr/lib/x86_64-linux-gnu"@, card_libraries(c))
}

fn push_paths_under(out: &mut Vec<String>, base: &str, names: &Vec<&'static str>)
    ensures
        sviews(final(out)@) == sviews(old(out)@) + paths_under(base@, names@.map_values(|s: &str| s@)),
{
    let ghost start = sviews(out@);
    let ghost ns = names@.map_values(|s: &str| s@);
    let mut i: usize = 0;
    while i < names.len()
        invariant
            i <= names.len(),
            ns == names@.map_values(|s: &str| s@),
            sviews(out@) == start + paths_under(base@, ns.subrange(0, i as int)),
        decreases names.len() - i,
    {
        let ghost before = sviews(out@);
        let name = names[i];
        let mut v: Vec<char> = Vec::new();
        push_str(&mut v, base);
        if str_starts_with(name, "libvulkan") {
            push_str(&mut v, "/");
        } else {
            push_str(&mut v, "/dri/");
        }
        push_str(&mut v, name);
        out.push(string_of(&v));
        i = i + 1;
        proof {
            assert(ns[i - 1] == name@);
            assert(paths_under(base@, ns.subrange(0, i as int)) =~= paths_under(
                base@,
                ns.subrange(0, i - 1),
            ).push(library_path(base@, name@)));
            assert(sviews(out@) =~= before.push(library_path(base@, name@)));
        }
    }
    assert(ns.subrange(0, names.len() as int) =~= ns);
}

pub open spec fn artifact_row(a: MesaArtifactRequirement) -> (Seq<char>, Seq<Seq<char>>) {
    (a.capability@, sviews(a.alternatives@))
}

pub open spec fn artifact_rows(s: Seq<MesaArtifactRequirement>) -> Seq<(Seq<char>, Seq<Seq<char>>)> {
    s.map_values(|a: MesaArtifactRequirement| artifact_row(a))
}

pub open spec fn card_artifact_row(c: VideoCard) -> (Seq<char>, Seq<Seq<char>>) {
    (card_capability(c), card_artifact_paths(c))
}

fn mesa_artifact_requirement(card: VideoCard) -> (r: MesaArtifactRequirement)
    ensures
        artifact_row(r) == card_artifact_row(card),
{
    let capability = match card {
        VideoCard::Intel => "video_cards_intel",
        VideoCard::Amdgpu => "video_cards_amdgpu",
        VideoCard::Radeonsi => "video_cards_radeonsi",
        VideoCard::Radeon => "video_cards_radeon",
        VideoCard::Nouveau => "video_cards_nouveau",
        VideoCard::Virgl => "video_cards_virgl",
        VideoCard::Vmware => "video_cards_vmware",
        VideoCard::Lavapipe => "video_cards_lavapipe",
    };
    let names = library_names(card);
    let mut alternatives: Vec<String> = Vec::new();
    push_paths_under(&mut alternatives, "usr/lib64", &names);
    push_paths_under(&mut alternatives, "usr/lib", &names);
    push_paths_under(&mut alternatives, "usr/lib/x86_64-linux-gnu", &names);
    assert(sviews(alternatives@) =~= card_artifact_paths(card));
    MesaArtifactRequirement { capability: owned(capability), alternatives }
}

/// Debug names of cards and drivers, as they appear in decisions and errors.
pub open spec fn card_name(c: VideoCard) -> Seq<char> {
    match c {
        VideoCard::Intel => "Intel"@,
        VideoCard::Amdgpu => "Amdgpu"@,
        VideoCard::Radeon => "Radeon"@,
        VideoCard::Radeonsi => "Radeonsi"@,
        VideoCard::Nouveau => "Nouveau"@,
        VideoCard::Virgl => "Virgl"@,
        VideoCard::Vmware => "Vmware"@,
        VideoCard::Lavapipe => "Lavapipe"@,
    }
}

pub fn card_debug(c: VideoCard) -> (r: &'static str)
    ensures
        r@ == card_name(c),
{
    match c {
        VideoCard::Intel => "Intel",
        VideoCard::Amdgpu => "Amdgpu",
        VideoCard::Radeon => "Radeon",
        VideoCard::Radeonsi => "Radeonsi",
        VideoCard::Nouveau => "Nouveau",
        VideoCard::Virgl => "Virgl",
        VideoCard::Vmware => "Vmware",
        VideoCard::Lavapipe => "Lavapipe",
    }
}

pub open spec fn driver_name(d: DrmDriver) -> Seq<char> {
    match d {
        DrmDriver::Intel => "Intel"@,
        DrmDriver::Amdgpu => "Amdgpu"@,
        DrmDriver::Radeon => "Radeon"@,
        DrmDriver::Nouveau => "Nouveau"@,
        DrmDriver::VirtioGpu => "VirtioGpu"@,
        DrmDriver::Vmwgfx => "Vmwgfx"@,
    }
}

pub fn driver_debug(d: DrmDriver) -> (r: &'static str)
    ensures
        r@ == driver_name(d),
{
    match d {
        DrmDriver::Intel => "Intel",
        DrmDriver::Amdgpu => "Amdgpu",
        DrmDriver::Radeon => "Radeon",
        DrmDriver::Nouveau => "Nouveau",
        DrmDriver::VirtioGpu => "VirtioGpu",
        DrmDriver::Vmwgfx => "Vmwgfx",
    }
}

/// Portage `VIDEO_CARDS` value of a card.
pub open spec fn card_build_value(c: VideoCard) -> Seq<char> {
    match c {
        VideoCard::Intel => "intel"@,
        VideoCard::Amdgpu => "amdgpu"@,
        VideoCard::Radeon => "radeon"@,
        VideoCard::Radeonsi => "radeonsi"@,
        VideoCard::Nouveau => "nouveau"@,
        VideoCard::Virgl => "virgl"@,
        VideoCard::Vmware => "vmware"@,
        VideoCard::Lavapipe => "lavapipe"@,
    }
}

/// Build-script name of a DRM driver.
pub open spec fn driver_build_value(d: DrmDriver) -> Seq<char> {
    match d {
        DrmDriver::Intel => "intel"@,
        DrmDriver::Amdgpu => "amdgpu"@,
        DrmDriver::Radeon => "radeon"@,
        DrmDriver::Nouveau => "nouveau"@,
        DrmDriver::VirtioGpu => "virtio_gpu"@,
        DrmDriver::Vmwgfx => "vmwgfx"@,
    }
}

// ---------------------------------------------------------------------------
// The resolution, stated over plain values.
// ---------------------------------------------------------------------------

/// Drivers required by the cards, first occurrence first.
pub open spec fn derived_drivers(cards: Seq<VideoCard>) -> Seq<DrmDriver>
    decreases cards.len(),
{
    if cards.len() == 0 {
        Seq::empty()
    } else {
        match card_drm(cards.last()) {
            Some(d) => push_unique(derived_drivers(cards.drop_last()), d),
            None => derived_drivers(cards.drop_last()),
        }
    }
}

/// `s` extended by each of `xs` not already present.
pub open spec fn push_all_unique(s: Seq<Seq<char>>, xs: Seq<Seq<char>>) -> Seq<Seq<char>>
    decreases xs.len(),
{
    if xs.len() == 0 {
        s
    } else {
        push_unique(push_all_unique(s, xs.drop_last()), xs.last())
    }
}

/// Kernel options of all drivers, each once, in first-use order.
pub open spec fn kernel_config_for(drivers: Seq<DrmDriver>) -> Seq<Seq<char>>
    decreases drivers.len(),
{
    if drivers.len() == 0 {
        Seq::empty()
    } else {
        push_all_unique(kernel_config_for(drivers.drop_last()), driver_options(drivers.last()))
    }
}

/// The cards with repeats removed, first occurrence first.
pub open spec fn distinct_cards(cards: Seq<VideoCard>) -> Seq<VideoCard>
    decreases cards.len(),
{
    if cards.len() == 0 {
        Seq::empty()
    } else {
        push_unique(distinct_cards(cards.drop_last()), cards.last())
    }
}

/// Cards declared before the VM, software and Nouveau additions; `None`
/// when an explicit list is empty.
pub open spec fn declared_cards(g: Graphics) -> Option<Seq<VideoCard>> {
    match g.mesa.video_cards {
        VideoCards::Auto => Some(Seq::empty()),
        VideoCards::Explicit(c) => if c@.len() == 0 {
            None
        } else {
            Some(c@)
        },
    }
}

/// Declared cards plus those implied by VM support and a required software
/// renderer.
pub open spec fn cards_with_vm(g: Graphics, base: Seq<VideoCard>) -> Seq<VideoCard> {
    let c1 = match g.vm_support {
        VmGraphics::Virgl => push_unique(base, VideoCard::Virgl),
        VmGraphics::Vmware => push_unique(base, VideoCard::Vmware),
        VmGraphics::Disabled => base,
    };
    if g.mesa.software_fallback == SoftwareRenderer::Required {
        push_unique(c1, VideoCard::Lavapipe)
    } else {
        c1
    }
}

pub open spec fn uses_nouveau(g: Graphics) -> bool {
    g.nvidia is Some && g.nvidia->Some_0.driver == NvidiaDriver::Nouveau
}

pub open spec fn uses_proprietary(g: Graphics) -> bool {
    g.nvidia is Some && g.nvidia->Some_0.driver == NvidiaDriver::Proprietary
}

/// The final Mesa card set.
pub open spec fn final_cards(g: Graphics, base: Seq<VideoCard>) -> Seq<VideoCard> {
    if uses_nouveau(g) {
        push_unique(cards_with_vm(g, base), VideoCard::Nouveau)
    } else {
        cards_with_vm(g, base)
    }
}

/// Drivers declared or derived, before VM and Nouveau additions; `None` when
/// an explicit list is empty.
pub open spec fn declared_drivers(g: Graphics, cards: Seq<VideoCard>) -> Option<Seq<DrmDriver>> {
    match g.drm.drivers {
        DrmDrivers::Auto => Some(derived_drivers(cards)),
        DrmDrivers::Explicit(d) => if d@.len() == 0 {
            None
        } else {
            Some(d@)
        },
    }
}

/// The final DRM driver set.
pub open spec fn final_drivers(g: Graphics, base: Seq<DrmDriver>) -> Seq<DrmDriver> {
    let d1 = match g.vm_support {
        VmGraphics::Virgl => push_unique(base, DrmDriver::VirtioGpu),
        VmGraphics::Vmware => push_unique(base, DrmDriver::Vmwgfx),
        VmGraphics::Disabled => base,
    };
    if uses_nouveau(g) {
        push_unique(d1, DrmDriver::Nouveau)
    } else {
        d1
    }
}

/// Index of the first card whose DRM driver is missing from `drivers`.
pub open spec fn unpaired_card(cards: Seq<VideoCard>, drivers: Seq<DrmDriver>, i: int) -> bool {
    0 <= i < cards.len() && card_drm(cards[i]) is Some && !drivers.contains(
        card_drm(cards[i])->Some_0,
    ) && forall|k: int|
        0 <= k < i ==> (card_drm(#[trigger] cards[k]) is Some ==> drivers.contains(
            card_drm(cards[k])->Some_0,
        ))
}

pub open spec fn all_paired(cards: Seq<VideoCard>, drivers: Seq<DrmDriver>) -> bool {
    forall|k: int|
        0 <= k < cards.len() ==> (card_drm(#[trigger] cards[k]) is Some ==> drivers.contains(
            card_drm(cards[k])->Some_0,
        ))
}

pub open spec fn pairing_message(c: VideoCard) -> Seq<char> {
    "hardware.graphics Mesa card "@ + card_name(c) + " requires DRM driver "@ + driver_name(
        card_drm(c)->Some_0,
    )
}

/// Some declared package is the proprietary NVIDIA driver.
pub open spec fn declares_nvidia_package(ps: Seq<Package>) -> bool {
    exists|i: int| 0 <= i < ps.len() && starts_with(ps[i].package@, "x11-drivers/nvidia-drivers"@)
}

/// The vendor of the integrated GPU that PRIME offload composites on.
pub open spec fn integrated_vendor(cards: Seq<VideoCard>) -> Option<Seq<char>> {
    if cards.contains(VideoCard::Intel) {
        Some("Intel"@)
    } else if cards.contains(VideoCard::Amdgpu) || cards.contains(VideoCard::Radeonsi) {
        Some("AMD"@)
    } else {
        None
    }
}

pub open spec fn msg_cards_empty() -> Seq<char> {
    "hardware.graphics.mesa.video_cards is explicit but empty"@
}

pub open spec fn msg_proprietary_nouveau_card() -> Seq<char> {
    "hardware.graphics.nvidia.driver = proprietary conflicts with VideoCard::Nouveau"@
}

pub open spec fn msg_nouveau_prime() -> Seq<char> {
    "Nouveau PRIME routing is not supported by the initial graphics resolver; use prime = disabled"@
}

pub open spec fn msg_drivers_empty() -> Seq<char> {
    "hardware.graphics.drm.drivers is explicit but empty"@
}

pub open spec fn msg_proprietary_nouveau() -> Seq<char> {
    "proprietary NVIDIA and Nouveau cannot be active in the same resolved target"@
}

pub open spec fn msg_nouveau_package() -> Seq<char> {
    "hardware.graphics.nvidia.driver = nouveau conflicts with package x11-drivers/nvidia-drivers"@
}

pub open spec fn msg_prime_modeset() -> Seq<char> {
    "NVIDIA PRIME primary/offload routing requires hardware.graphics.nvidia.modeset = true"@
}

pub open spec fn msg_offload_integrated() -> Seq<char> {
    "hardware.graphics.nvidia.prime = offload requires an Intel or AMD integrated Mesa path"@
}

/// The message of the first check the manifest's graphics policy fails, or
/// `None` when it resolves.
pub open spec fn graphics_failure(m: SystemManifest) -> Option<Seq<char>> {
    let g = m.hardware.graphics;
    match declared_cards(g) {
        None => Some(msg_cards_empty()),
        Some(base) => {
            let c2 = cards_with_vm(g, base);
            if uses_proprietary(g) && c2.contains(VideoCard::Nouveau) {
                Some(msg_proprietary_nouveau_card())
            } else if uses_nouveau(g) && g.nvidia->Some_0.prime != PrimeMode::Disabled {
                Some(msg_nouveau_prime())
            } else {
                let cards = final_cards(g, base);
                match declared_drivers(g, cards) {
                    None => Some(msg_drivers_empty()),
                    Some(dbase) => {
                        let drivers = final_drivers(g, dbase);
                        if !all_paired(cards, drivers) {
                            let i = choose|i: int| unpaired_card(cards, drivers, i);
                            Some(pairing_message(cards[i]))
                        } else if uses_proprietary(g) && (cards.contains(VideoCard::Nouveau)
                            || drivers.contains(DrmDriver::Nouveau)) {
                            Some(msg_proprietary_nouveau())
                        } else if uses_nouveau(g) && declares_nvidia_package(m.packages@) {
                            Some(msg_nouveau_package())
                        } else if g.nvidia is Some && g.nvidia->Some_0.prime != PrimeMode::Disabled
                            && !g.nvidia->Some_0.modeset {
                            Some(msg_prime_modeset())
                        } else if g.nvidia is Some && g.nvidia->Some_0.prime == PrimeMode::Offload
                            && integrated_vendor(cards) is None {
                            Some(msg_offload_integrated())
                        } else {
                            None
                        }
                    },
                }
            }
        },
    }
}

/// The resolved card set of a manifest whose policy resolves.
pub open spec fn resolved_cards(m: SystemManifest) -> Seq<VideoCard> {
    final_cards(m.hardware.graphics, declared_cards(m.hardware.graphics)->Some_0)
}

/// The resolved driver set of a manifest whose policy resolves.
pub open spec fn resolved_drivers(m: SystemManifest) -> Seq<DrmDriver> {
    let g = m.hardware.graphics;
    final_drivers(g, declared_drivers(g, resolved_cards(m))->Some_0)
}

pub open spec fn kernel_arg_row(a: RequiredKernelArg) -> (Seq<char>, Seq<char>, Seq<char>) {
    (a.value@, a.source_field@, a.reason@)
}

pub open spec fn kernel_arg_rows(s: Seq<RequiredKernelArg>) -> Seq<(Seq<char>, Seq<char>, Seq<char>)> {
    s.map_values(|a: RequiredKernelArg| kernel_arg_row(a))
}

pub open spec fn nvidia_modules() -> Seq<Seq<char>> {
    seq!["nvidia"@, "nvidia_modeset"@, "nvidia_uvm"@, "nvidia_drm"@]
}

pub open spec fn diagnostics_list() -> Seq<Seq<char>> {
    seq![
        "report LIBSEAT_BACKEND and active session backend"@,
        "list /dev/dri/card* and /dev/dri/renderD* nodes"@,
        "report loaded DRM modules and Mesa renderer"@,
    ]
}

/// The routing a PRIME mode asks for.
pub open spec fn prime_matches(p: Option<PrimeRouting>, g: Graphics, cards: Seq<VideoCard>) -> bool {
    match g.nvidia {
        None => p is None,
        Some(n) => match n.prime {
            PrimeMode::Disabled => p is None,
            PrimeMode::Primary => p is Some && p->Some_0.mode == PrimeMode::Primary
                && p->Some_0.compositor_gpu@ == "NVIDIA primary render node"@
                && p->Some_0.offload_gpu is None,
            PrimeMode::Offload => p is Some && p->Some_0.mode == PrimeMode::Offload
                && p->Some_0.compositor_gpu@ == integrated_vendor(cards)->Some_0
                + " integrated render node"@ && p->Some_0.offload_gpu is Some
                && p->Some_0.offload_gpu->Some_0@ == "NVIDIA render node via prime-run"@,
        },
    }
}

/// The requirements a resolved policy implies.
pub open spec fn requirements_match(
    r: GraphicsRequirements,
    g: Graphics,
    cards: Seq<VideoCard>,
    drivers: Seq<DrmDriver>,
) -> bool {
    &&& r.mesa_video_cards@ == cards
    &&& r.drm_drivers@ == drivers
    &&& artifact_rows(r.mesa_artifacts@) == distinct_cards(cards).map_values(
        |c: VideoCard| card_artifact_row(c),
    )
    &&& views(r.kernel_config@) == kernel_config_for(drivers)
    &&& views(r.diagnostics@) == diagnostics_list()
    &&& r.vm_support == g.vm_support
    &&& r.proprietary_nvidia == uses_proprietary(g)
    &&& views(r.packages@) == if uses_proprietary(g) {
        seq!["x11-drivers/nvidia-drivers"@]
    } else {
        Seq::empty()
    }
    &&& views(r.kernel_modules@) == if uses_proprietary(g) {
        nvidia_modules()
    } else {
        Seq::empty()
    }
    &&& views(r.initramfs_modules@) == views(r.kernel_modules@)
    &&& views(r.module_blacklist@) == if uses_proprietary(g) {
        seq!["nouveau"@]
    } else if uses_nouveau(g) {
        seq!["nvidia"@]
    } else {
        Seq::empty()
    }
    &&& kernel_arg_rows(r.kernel_args@) == if uses_proprietary(g) && g.nvidia->Some_0.modeset {
        seq![
            (
                "nvidia_drm.modeset=1"@,
                "hardware.graphics.nvidia.modeset"@,
                "proprietary NVIDIA DRM modesetting requested"@,
            ),
        ]
    } else {
        Seq::empty()
    }
    &&& prime_matches(r.prime, g, cards)
}

// ---------------------------------------------------------------------------
// The executable resolver.
// ---------------------------------------------------------------------------

fn invalid(message: &str) -> (r: GraphicsResolveError)
    ensures
        is_invalid(r, message@),
{
    GraphicsResolveError::Invalid(owned(message))
}

proof fn lemma_derived_step(cards: Seq<VideoCard>, i: int)
    requires
        0 <= i < cards.len(),
    ensures
        derived_drivers(cards.subrange(0, i + 1)) == match card_drm(cards[i]) {
            Some(d) => push_unique(derived_drivers(cards.subrange(0, i)), d),
            None => derived_drivers(cards.subrange(0, i)),
        },
{
    assert(cards.subrange(0, i + 1).drop_last() =~= cards.subrange(0, i));
}

fn derive_drivers(cards: &Vec<VideoCard>) -> (r: Vec<DrmDriver>)
    ensures
        r@ == derived_drivers(cards@),
{
    let mut out: Vec<DrmDriver> = Vec::new();
    let mut i: usize = 0;
    while i < cards.len()
        invariant
            i <= cards.len(),
            out@ == derived_drivers(cards@.subrange(0, i as int)),
        decreases cards.len() - i,
    {
        proof {
            lemma_derived_step(cards@, i as int);
        }
        match drm_for_card(cards[i]) {
            Some(d) => push_unique_driver(&mut out, d),
            None => {},
        }
        i = i + 1;
    }
    assert(cards@.subrange(0, cards.len() as int) =~= cards@);
    out
}

/// Appends `x` to a list of strings unless an equal string is present.
fn push_unique_string(v: &mut Vec<String>, x: &str)
    ensures
        views(final(v)@) == push_unique(views(old(v)@), x@),
{
    let mut i: usize = 0;
    while i < v.len()
        invariant
            i <= v.len(),
            forall|k: int| 0 <= k < i ==> v@[k]@ != x@,
        decreases v.len() - i,
    {
        if crate::text::str_eq(v[i].as_str(), x) {
            assert(views(v@)[i as int] == x@);
            assert(views(v@).contains(x@));
            return;
        }
        i = i + 1;
    }
    assert(!views(v@).contains(x@)) by {
        if views(v@).contains(x@) {
            let k = choose|k: int| 0 <= k < views(v@).len() && views(v@)[k] == x@;
            assert(v@[k]@ == x@);
        }
    }
    let ghost before = views(v@);
    v.push(owned(x));
    assert(views(v@) =~= before.push(x@));
}

fn kernel_config(drivers: &Vec<DrmDriver>) -> (r: Vec<String>)
    ensures
        views(r@) == kernel_config_for(drivers@),
{
    let mut out: Vec<String> = Vec::new();
    let mut i: usize = 0;
    assert(views(out@) =~= Seq::<Seq<char>>::empty());
    while i < drivers.len()
        invariant
            i <= drivers.len(),
            views(out@) == kernel_config_for(drivers@.subrange(0, i as int)),
        decreases drivers.len() - i,
    {
        let opts = kernel_options(drivers[i]);
        let ghost os = opts@.map_values(|s: &str| s@);
        let ghost start = views(out@);
        let mut j: usize = 0;
        while j < opts.len()
            invariant
                j <= opts.len(),
                os == opts@.map_values(|s: &str| s@),
                views(out@) == push_all_unique(start, os.subrange(0, j as int)),
            decreases opts.len() - j,
        {
            push_unique_string(&mut out, opts[j]);
            j = j + 1;
            assert(os.subrange(0, j as int).drop_last() =~= os.subrange(0, j - 1));
        }
        assert(os.subrange(0, opts.len() as int) =~= os);
        i = i + 1;
        assert(drivers@.subrange(0, i as int).drop_last() =~= drivers@.subrange(0, i - 1));
    }
    assert(drivers@.subrange(0, drivers.len() as int) =~= drivers@);
    out
}

fn mesa_artifacts(cards: &Vec<VideoCard>) -> (r: Vec<MesaArtifactRequirement>)
    ensures
        artifact_rows(r@) == distinct_cards(cards@).map_values(|c: VideoCard| card_artifact_row(c)),
{
    let mut seen: Vec<VideoCard> = Vec::new();
    let mut out: Vec<MesaArtifactRequirement> = Vec::new();
    let mut i: usize = 0;
    while i < cards.len()
        invariant
            i <= cards.len(),
            seen@ == distinct_cards(cards@.subrange(0, i as int)),
            artifact_rows(out@) == seen@.map_values(|c: VideoCard| card_artifact_row(c)),
        decreases cards.len() - i,
    {
        let card = cards[i];
        assert(cards@.subrange(0, i + 1).drop_last() =~= cards@.subrange(0, i as int));
        if !contains_card(&seen, card) {
            let ghost before = out@;
            let ghost seen_before = seen@;
            out.push(mesa_artifact_requirement(card));
            push_unique_card(&mut seen, card);
            assert(seen@ == seen_before.push(card));
            assert(artifact_rows(out@) =~= artifact_rows(before).push(card_artifact_row(card)));
            assert(seen@.map_values(|c: VideoCard| card_artifact_row(c)) =~= seen_before.map_values(
                |c: VideoCard| card_artifact_row(c),
            ).push(card_artifact_row(card)));
        }
        i = i + 1;
    }
    assert(cards@.subrange(0, cards.len() as int) =~= cards@);
    out
}

fn integrated_gpu(cards: &Vec<VideoCard>) -> (r: Option<&'static str>)
    ensures
        match (r, integrated_vendor(cards@)) {
            (Some(s), Some(t)) => s@ == t,
            (None, None) => true,
            _ => false,
        },
{
    if contains_card(cards, VideoCard::Intel) {
        Some("Intel")
    } else if contains_card(cards, VideoCard::Amdgpu) || contains_card(cards, VideoCard::Radeonsi) {
        Some("AMD")
    } else {
        None
    }
}

fn strings_from(items: &Vec<&'static str>) -> (r: Vec<String>)
    ensures
        views(r@) == items@.map_values(|s: &str| s@),
{
    let mut out: Vec<String> = Vec::new();
    let mut i: usize = 0;
    while i < items.len()
        invariant
            i <= items.len(),
            out@.len() == i,
            forall|k: int| 0 <= k < i ==> #[trigger] out@[k]@ == items@[k]@,
        decreases items.len() - i,
    {
        out.push(owned(items[i]));
        i = i + 1;
    }
    assert(views(out@) =~= items@.map_values(|s: &str| s@));
    out
}

fn nvidia_module_list() -> (r: Vec<String>)
    ensures
        views(r@) == nvidia_modules(),
{
    let mut v: Vec<&'static str> = Vec::new();
    v.push("nvidia");
    v.push("nvidia_modeset");
    v.push("nvidia_uvm");
    v.push("nvidia_drm");
    let r = strings_from(&v);
    assert(v@.map_values(|s: &str| s@) =~= nvidia_modules());
    r
}

fn single(s: &str) -> (r: Vec<String>)
    ensures
        views(r@) == seq![s@],
{
    let mut v: Vec<String> = Vec::new();
    v.push(owned(s));
    assert(views(v@) =~= seq![s@]);
    v
}

fn build_requirements(g: &Graphics, cards: &Vec<VideoCard>, drivers: &Vec<DrmDriver>) -> (r: Result<
    GraphicsRequirements,
    GraphicsResolveError,
>)
    ensures
        match r {
            Ok(req) => !(g.nvidia is Some && g.nvidia->Some_0.prime != PrimeMode::Disabled
                && !g.nvidia->Some_0.modeset) && !(g.nvidia is Some && g.nvidia->Some_0.prime
                == PrimeMode::Offload && integrated_vendor(cards@) is None) && requirements_match(
                req,
                *g,
                cards@,
                drivers@,
            ),
            Err(e) => (g.nvidia is Some && g.nvidia->Some_0.prime != PrimeMode::Disabled
                && !g.nvidia->Some_0.modeset && is_invalid(e, msg_prime_modeset())) || (!(
            g.nvidia is Some && g.nvidia->Some_0.prime != PrimeMode::Disabled
                && !g.nvidia->Some_0.modeset) && g.nvidia is Some && g.nvidia->Some_0.prime
                == PrimeMode::Offload && integrated_vendor(cards@) is None && is_invalid(
                e,
                msg_offload_integrated(),
            )),
        },
{
    let mut diagnostics: Vec<String> = Vec::new();
    diagnostics.push(owned("report LIBSEAT_BACKEND and active session backend"));
    diagnostics.push(owned("list /dev/dri/card* and /dev/dri/renderD* nodes"));
    diagnostics.push(owned("report loaded DRM modules and Mesa renderer"));
    assert(views(diagnostics@) =~= diagnostics_list());
    let mut requirements = GraphicsRequirements {
        mesa_video_cards: copy_vec(cards),
        mesa_artifacts: mesa_artifacts(cards),
        drm_drivers: copy_vec(drivers),
        kernel_config: kernel_config(drivers),
        packages: Vec::new(),
        kernel_modules: Vec::new(),
        initramfs_modules: Vec::new(),
        module_blacklist: Vec::new(),
        kernel_args: Vec::new(),
        prime: None,
        diagnostics,
        proprietary_nvidia: false,
        vm_support: g.vm_support,
    };
    assert(views(requirements.packages@) =~= Seq::<Seq<char>>::empty());
    assert(views(requirements.kernel_modules@) =~= Seq::<Seq<char>>::empty());
    assert(views(requirements.initramfs_modules@) =~= Seq::<Seq<char>>::empty());
    assert(views(requirements.module_blacklist@) =~= Seq::<Seq<char>>::empty());
    assert(kernel_arg_rows(requirements.kernel_args@) =~= Seq::<(Seq<char>, Seq<char>, Seq<char>)>::empty());
    if let Some(nvidia) = g.nvidia {
        if nvidia.prime != PrimeMode::Disabled && !nvidia.modeset {
            return Err(invalid("NVIDIA PRIME primary/offload routing requires hardware.graphics.nvidia.modeset = true"));
        }
        match nvidia.driver {
            NvidiaDriver::Proprietary => {
                requirements.proprietary_nvidia = true;
                requirements.packages = single("x11-drivers/nvidia-drivers");
                requirements.kernel_modules = nvidia_module_list();
                requirements.initramfs_modules = nvidia_module_list();
                requirements.module_blacklist = single("nouveau");
                if nvidia.modeset {
                    requirements.kernel_args.push(
                        RequiredKernelArg {
                            value: owned("nvidia_drm.modeset=1"),
                            source_field: owned("hardware.graphics.nvidia.modeset"),
                            reason: owned("proprietary NVIDIA DRM modesetting requested"),
                        },
                    );
                    assert(kernel_arg_rows(requirements.kernel_args@) =~= seq![
                        (
                            "nvidia_drm.modeset=1"@,
                            "hardware.graphics.nvidia.modeset"@,
                            "proprietary NVIDIA DRM modesetting requested"@,
                        ),
                    ]);
                }
            },
            NvidiaDriver::Nouveau => {
                requirements.module_blacklist = single("nvidia");
            },
        }
        match nvidia.prime {
            PrimeMode::Disabled => {},
            PrimeMode::Primary => {
                requirements.prime = Some(
                    PrimeRouting {
                        mode: PrimeMode::Primary,
                        compositor_gpu: owned("NVIDIA primary render node"),
                        offload_gpu: None,
                    },
                );
            },
            PrimeMode::Offload => {
                let integrated = match integrated_gpu(cards) {
                    Some(v) => v,
                    None => {
                        return Err(invalid("hardware.graphics.nvidia.prime = offload requires an Intel or AMD integrated Mesa path"));
                    },
                };
                let mut name: Vec<char> = Vec::new();
                push_str(&mut name, integrated);
                push_str(&mut name, " integrated render node");
                requirements.prime = Some(
                    PrimeRouting {
                        mode: PrimeMode::Offload,
                        compositor_gpu: string_of(&name),
                        offload_gpu: Some(owned("NVIDIA render node via prime-run")),
                    },
                );
            },
        }
    }
    Ok(requirements)
}

fn validate_card_driver_pairs(cards: &Vec<VideoCard>, drivers: &Vec<DrmDriver>) -> (r: Result<
    (),
    GraphicsResolveError,
>)
    ensures
        r is Ok <==> all_paired(cards@, drivers@),
        r is Err ==> is_invalid(
            r->Err_0,
            pairing_message(cards@[choose|i: int| unpaired_card(cards@, drivers@, i)]),
        ),
{
    let mut i: usize = 0;
    while i < cards.len()
        invariant
            i <= cards.len(),
            forall|k: int|
                0 <= k < i ==> (card_drm(#[trigger] cards@[k]) is Some ==> drivers@.contains(
                    card_drm(cards@[k])->Some_0,
                )),
        decreases cards.len() - i,
    {
        let card = cards[i];
        match drm_for_card(card) {
            Some(driver) => {
                if !contains_driver(drivers, driver) {
                    proof {
                        assert(unpaired_card(cards@, drivers@, i as int));
                        let j = choose|j: int| unpaired_card(cards@, drivers@, j);
                        if j < i {
                            assert(card_drm(cards@[j]) is Some);
                        } else if j > i {
                            assert(card_drm(cards@[i as int]) is Some);
                        }
                        assert(j == i);
                    }
                    let mut v: Vec<char> = Vec::new();
                    push_str(&mut v, "hardware.graphics Mesa card ");
                    push_str(&mut v, card_debug(card));
                    push_str(&mut v, " requires DRM driver ");
                    push_str(&mut v, driver_debug(driver));
                    return Err(GraphicsResolveError::Invalid(string_of(&v)));
                }
            },
            None => {},
        }
        i = i + 1;
    }
    Ok(())
}

fn has_nvidia_package(ps: &Vec<Package>) -> (r: bool)
    ensures
        r == declares_nvidia_package(ps@),
{
    let mut i: usize = 0;
    while i < ps.len()
        invariant
            i <= ps.len(),
            forall|k: int| 0 <= k < i ==> !starts_with(ps@[k].package@, "x11-drivers/nvidia-drivers"@),
        decreases ps.len() - i,
    {
        if str_starts_with(ps[i].package.as_str(), "x11-drivers/nvidia-drivers") {
            return true;
        }
        i = i + 1;
    }
    false
}

/// A decision as plain values: field, value, source, reason and the
/// affected items.
pub type DecisionView = (Seq<char>, Seq<char>, DecisionSource, Seq<char>, Seq<Seq<char>>);

pub open spec fn decision_view(d: GraphicsDecision) -> DecisionView {
    (d.field@, d.value@, d.source, d.reason@, views(d.affected@))
}

pub open spec fn decision_views(s: Seq<GraphicsDecision>) -> Seq<DecisionView> {
    s.map_values(|d: GraphicsDecision| decision_view(d))
}

pub open spec fn decision_entry(
    field: Seq<char>,
    value: Seq<char>,
    source: DecisionSource,
    reason: Seq<char>,
    affected: Seq<char>,
) -> DecisionView {
    (field, value, source, reason, seq![affected])
}

pub open spec fn card_requirement_decision(c: VideoCard) -> DecisionView {
    decision_entry(
        "graphics.requirement.video_card"@,
        card_name(c),
        DecisionSource::Dependency,
        "required by the resolved graphics policy"@,
        "media-libs/mesa"@,
    )
}

pub open spec fn kernel_requirement_decision(option: Seq<char>) -> DecisionView {
    decision_entry(
        "graphics.requirement.kernel_config"@,
        option,
        DecisionSource::Dependency,
        "required by the resolved DRM driver set"@,
        "kernel config"@,
    )
}

/// The decision recorded for a converted retired `hardware.gpu` setting.
pub open spec fn legacy_decisions(m: SystemManifest) -> Seq<DecisionView> {
    match m.legacy_gpu {
        Some(l) => seq![
            decision_entry(
                "hardware.gpu"@,
                legacy_conversion_text(l, m.hardware.graphics),
                DecisionSource::LegacyInference,
                "retired hardware.gpu was converted to the unified graphics policy"@,
                "hardware.graphics"@,
            ),
        ],
        None => Seq::empty(),
    }
}

/// The decision recorded for an explicit Mesa card list.
pub open spec fn mesa_decisions(g: Graphics) -> Seq<DecisionView> {
    match g.mesa.video_cards {
        VideoCards::Explicit(c) => seq![
            decision_entry(
                "hardware.graphics.mesa.video_cards"@,
                card_list_text(c@),
                DecisionSource::Explicit,
                "Mesa VIDEO_CARDS were selected explicitly"@,
                "media-libs/mesa"@,
            ),
        ],
        VideoCards::Auto => Seq::empty(),
    }
}

/// The decision recorded for an explicit driver list, or for drivers derived
/// from the cards `cards`.
pub open spec fn drm_decisions(g: Graphics, cards: Seq<VideoCard>) -> Seq<DecisionView> {
    match g.drm.drivers {
        DrmDrivers::Explicit(d) => seq![
            decision_entry(
                "hardware.graphics.drm.drivers"@,
                driver_list_text(d@),
                DecisionSource::Explicit,
                "kernel DRM drivers were selected explicitly"@,
                "kernel config"@,
            ),
        ],
        DrmDrivers::Auto => if derived_drivers(cards).len() > 0 {
            seq![
                decision_entry(
                    "hardware.graphics.drm.drivers"@,
                    driver_list_text(derived_drivers(cards)),
                    DecisionSource::Dependency,
                    "derived kernel DRM drivers from the resolved Mesa and VM policy"@,
                    "kernel config"@,
                ),
            ]
        } else {
            Seq::empty()
        },
    }
}

/// The decisions recorded before the requirement rows.
pub open spec fn policy_decisions(m: SystemManifest) -> Seq<DecisionView> {
    legacy_decisions(m) + mesa_decisions(m.hardware.graphics) + drm_decisions(
        m.hardware.graphics,
        resolved_cards(m),
    )
}

/// Every decision that resolving the graphics policy of `m` records, in
/// order: the policy decisions, one row per resolved card and one per
/// required kernel option.
pub open spec fn resolution_decisions(m: SystemManifest) -> Seq<DecisionView> {
    policy_decisions(m) + resolved_cards(m).map_values(|c: VideoCard| card_requirement_decision(c))
        + kernel_config_for(resolved_drivers(m)).map_values(
        |o: Seq<char>| kernel_requirement_decision(o),
    )
}

fn decision(field: &str, value: String, source: DecisionSource, reason: &str, affected: &str) -> (r:
    GraphicsDecision)
    ensures
        decision_view(r) == decision_entry(field@, value@, source, reason@, affected@),
{
    GraphicsDecision {
        field: owned(field),
        value,
        source,
        reason: owned(reason),
        affected: single(affected),
    }
}

/// `card1, card2, ...` with Debug names.
pub open spec fn card_list_text(cards: Seq<VideoCard>) -> Seq<char> {
    join(cards.map_values(|c: VideoCard| card_name(c)), ", "@)
}

pub open spec fn driver_list_text(drivers: Seq<DrmDriver>) -> Seq<char> {
    join(drivers.map_values(|d: DrmDriver| driver_name(d)), ", "@)
}

fn card_list(cards: &Vec<VideoCard>) -> (r: String)
    ensures
        r@ == card_list_text(cards@),
{
    let mut parts: Vec<Vec<char>> = Vec::new();
    let mut i: usize = 0;
    while i < cards.len()
        invariant
            i <= cards.len(),
            parts@.len() == i,
            forall|k: int| 0 <= k < i ==> #[trigger] parts@[k]@ == card_name(cards@[k]),
        decreases cards.len() - i,
    {
        let mut v: Vec<char> = Vec::new();
        push_str(&mut v, card_debug(cards[i]));
        parts.push(v);
        i = i + 1;
    }
    assert(vviews(parts@) =~= cards@.map_values(|c: VideoCard| card_name(c)));
    let j = join_chars(&parts, ", ");
    string_of(&j)
}

fn driver_list(drivers: &Vec<DrmDriver>) -> (r: String)
    ensures
        r@ == driver_list_text(drivers@),
{
    let mut parts: Vec<Vec<char>> = Vec::new();
    let mut i: usize = 0;
    while i < drivers.len()
        invariant
            i <= drivers.len(),
            parts@.len() == i,
            forall|k: int| 0 <= k < i ==> #[trigger] parts@[k]@ == driver_name(drivers@[k]),
        decreases drivers.len() - i,
    {
        let mut v: Vec<char> = Vec::new();
        push_str(&mut v, driver_debug(drivers[i]));
        parts.push(v);
        i = i + 1;
    }
    assert(vviews(parts@) =~= drivers@.map_values(|d: DrmDriver| driver_name(d)));
    let j = join_chars(&parts, ", ");
    string_of(&j)
}

/// Debug forms of the graphics settings, as recorded for a converted
/// retired `hardware.gpu` setting.
pub open spec fn gpu_vendor_name(v: GpuVendor) -> Seq<char> {
    match v {
        GpuVendor::Amd => "Amd"@,
        GpuVendor::Intel => "Intel"@,
        GpuVendor::Nvidia => "Nvidia"@,
    }
}

pub open spec fn gpu_debug(g: Gpu) -> Seq<char> {
    match g {
        Gpu::Auto => "Auto"@,
        Gpu::Single(v) => "Single("@ + gpu_vendor_name(v) + ")"@,
        Gpu::Hybrid { igpu, dgpu } => "Hybrid { igpu: "@ + gpu_vendor_name(igpu) + ", dgpu: "@
            + gpu_vendor_name(dgpu) + " }"@,
    }
}

pub open spec fn software_renderer_name(s: SoftwareRenderer) -> Seq<char> {
    match s {
        SoftwareRenderer::Disabled => "Disabled"@,
        SoftwareRenderer::Optional => "Optional"@,
        SoftwareRenderer::Required => "Required"@,
    }
}

pub open spec fn vm_graphics_name(v: VmGraphics) -> Seq<char> {
    match v {
        VmGraphics::Disabled => "Disabled"@,
        VmGraphics::Virgl => "Virgl"@,
        VmGraphics::Vmware => "Vmware"@,
    }
}

pub open spec fn nvidia_driver_name(d: NvidiaDriver) -> Seq<char> {
    match d {
        NvidiaDriver::Proprietary => "Proprietary"@,
        NvidiaDriver::Nouveau => "Nouveau"@,
    }
}

pub open spec fn flag_name(b: bool) -> Seq<char> {
    if b {
        "true"@
    } else {
        "false"@
    }
}

pub open spec fn video_cards_debug(v: VideoCards) -> Seq<char> {
    match v {
        VideoCards::Auto => "Auto"@,
        VideoCards::Explicit(c) => "Explicit(["@ + card_list_text(c@) + "])"@,
    }
}

pub open spec fn drm_drivers_debug(d: DrmDrivers) -> Seq<char> {
    match d {
        DrmDrivers::Auto => "Auto"@,
        DrmDrivers::Explicit(v) => "Explicit(["@ + driver_list_text(v@) + "])"@,
    }
}

pub open spec fn nvidia_debug(n: Option<Nvidia>) -> Seq<char> {
    match n {
        None => "None"@,
        Some(n) => "Some(Nvidia { driver: "@ + nvidia_driver_name(n.driver) + ", prime: "@
            + prime_mode_name(n.prime) + ", modeset: "@ + flag_name(n.modeset) + " })"@,
    }
}

pub open spec fn graphics_debug(g: Graphics) -> Seq<char> {
    "Graphics { mesa: MesaGraphics { video_cards: "@ + video_cards_debug(g.mesa.video_cards)
        + ", software_fallback: "@ + software_renderer_name(g.mesa.software_fallback)
        + " }, drm: Drm { drivers: "@ + drm_drivers_debug(g.drm.drivers) + " }, nvidia: "@
        + nvidia_debug(g.nvidia) + ", vm_support: "@ + vm_graphics_name(g.vm_support) + " }"@
}

/// The value recorded when a retired `hardware.gpu` setting was converted.
pub open spec fn legacy_conversion_text(legacy: Gpu, g: Graphics) -> Seq<char> {
    gpu_debug(legacy) + " -> "@ + graphics_debug(g)
}

fn vendor_debug(v: GpuVendor) -> (r: &'static str)
    ensures
        r@ == gpu_vendor_name(v),
{
    match v {
        GpuVendor::Amd => "Amd",
        GpuVendor::Intel => "Intel",
        GpuVendor::Nvidia => "Nvidia",
    }
}

fn push_gpu_debug(out: &mut Vec<char>, g: &Gpu)
    ensures
        final(out)@ == old(out)@ + gpu_debug(*g),
{
    let ghost start = out@;
    match g {
        Gpu::Auto => push_str(out, "Auto"),
        Gpu::Single(v) => {
            push_str(out, "Single(");
            push_str(out, vendor_debug(*v));
            push_str(out, ")");
        },
        Gpu::Hybrid { igpu, dgpu } => {
            push_str(out, "Hybrid { igpu: ");
            push_str(out, vendor_debug(*igpu));
            push_str(out, ", dgpu: ");
            push_str(out, vendor_debug(*dgpu));
            push_str(out, " }");
        },
    }
    assert(out@ =~= start + gpu_debug(*g));
}

fn push_video_cards_debug(out: &mut Vec<char>, v: &VideoCards)
    ensures
        final(out)@ == old(out)@ + video_cards_debug(*v),
{
    let ghost a = out@;
    match v {
        VideoCards::Auto => push_str(out, "Auto"),
        VideoCards::Explicit(c) => {
            push_str(out, "Explicit([");
            let l = card_list(c);
            push_str(out, l.as_str());
            push_str(out, "])");
        },
    }
    assert(out@ =~= a + video_cards_debug(*v));
}

fn push_drm_drivers_debug(out: &mut Vec<char>, d: &DrmDrivers)
    ensures
        final(out)@ == old(out)@ + drm_drivers_debug(*d),
{
    let ghost a = out@;
    match d {
        DrmDrivers::Auto => push_str(out, "Auto"),
        DrmDrivers::Explicit(v) => {
            push_str(out, "Explicit([");
            let l = driver_list(v);
            push_str(out, l.as_str());
            push_str(out, "])");
        },
    }
    assert(out@ =~= a + drm_drivers_debug(*d));
}

fn push_nvidia_debug(out: &mut Vec<char>, n: Option<Nvidia>)
    ensures
        final(out)@ == old(out)@ + nvidia_debug(n),
{
    let ghost a = out@;
    match n {
        None => push_str(out, "None"),
        Some(n) => {
            let driver = match n.driver {
                NvidiaDriver::Proprietary => "Proprietary",
                NvidiaDriver::Nouveau => "Nouveau",
            };
            let modeset = if n.modeset {
                "true"
            } else {
                "false"
            };
            push_str(out, "Some(Nvidia { driver: ");
            push_str(out, driver);
            push_str(out, ", prime: ");
            push_str(out, prime_mode_debug(n.prime));
            push_str(out, ", modeset: ");
            push_str(out, modeset);
            push_str(out, " })");
        },
    }
    assert(out@ =~= a + nvidia_debug(n));
}

fn push_graphics_debug(out: &mut Vec<char>, g: &Graphics)
    ensures
        final(out)@ == old(out)@ + graphics_debug(*g),
{
    let ghost start = out@;
    let fallback = match g.mesa.software_fallback {
        SoftwareRenderer::Disabled => "Disabled",
        SoftwareRenderer::Optional => "Optional",
        SoftwareRenderer::Required => "Required",
    };
    let vm = match g.vm_support {
        VmGraphics::Disabled => "Disabled",
        VmGraphics::Virgl => "Virgl",
        VmGraphics::Vmware => "Vmware",
    };
    push_str(out, "Graphics { mesa: MesaGraphics { video_cards: ");
    push_video_cards_debug(out, &g.mesa.video_cards);
    push_str(out, ", software_fallback: ");
    push_str(out, fallback);
    push_str(out, " }, drm: Drm { drivers: ");
    push_drm_drivers_debug(out, &g.drm.drivers);
    push_str(out, " }, nvidia: ");
    push_nvidia_debug(out, g.nvidia);
    push_str(out, ", vm_support: ");
    push_str(out, vm);
    push_str(out, " }");
    assert(out@ =~= start + graphics_debug(*g));
}

fn legacy_conversion(legacy: &Gpu, g: &Graphics) -> (r: String)
    ensures
        r@ == legacy_conversion_text(*legacy, *g),
{
    let mut v: Vec<char> = Vec::new();
    push_gpu_debug(&mut v, legacy);
    push_str(&mut v, " -> ");
    push_graphics_debug(&mut v, g);
    assert(v@ =~= legacy_conversion_text(*legacy, *g));
    string_of(&v)
}

/// The warning recorded when automatic detection found no physical GPU.
pub open spec fn auto_cards_warning() -> Seq<char> {
    "hardware.graphics.mesa.video_cards = auto detected no physical GPU; only explicitly requested VM/NVIDIA capabilities will be validated"@
}

/// The outcome of resolving the graphics policy of `m`: the first failing
/// check's message, or the resolved policy and requirements.
pub open spec fn graphics_outcome(m: SystemManifest, r: Result<ResolvedGraphics, GraphicsResolveError>) -> bool {
        match graphics_failure(m) {
            Some(msg) => r is Err && is_invalid(r->Err_0, msg),
            None => r is Ok && {
                let rg = r->Ok_0;
                &&& rg.policy.mesa_video_cards@ == resolved_cards(m)
                &&& rg.policy.drm_drivers@ == resolved_drivers(m)
                &&& rg.policy.software_fallback == m.hardware.graphics.mesa.software_fallback
                &&& rg.policy.nvidia == m.hardware.graphics.nvidia
                &&& rg.policy.vm_support == m.hardware.graphics.vm_support
                &&& requirements_match(
                    rg.requirements,
                    m.hardware.graphics,
                    resolved_cards(m),
                    resolved_drivers(m),
                )
                &&& rg.capabilities.source_root is None
                &&& rg.capabilities.missing@.len() == 0
                &&& decision_views(rg.decisions@) == resolution_decisions(m)
                &&& views(rg.warnings@) == if m.hardware.graphics.mesa.video_cards is Auto {
                    seq![auto_cards_warning()]
                } else {
                    Seq::empty()
                }
            },
        }
}

fn push_card_decisions(decisions: &mut Vec<GraphicsDecision>, cards: &Vec<VideoCard>)
    ensures
        decision_views(final(decisions)@) == decision_views(old(decisions)@) + cards@.map_values(
            |c: VideoCard| card_requirement_decision(c),
        ),
{
    let ghost start = decision_views(decisions@);
    let mut i: usize = 0;
    while i < cards.len()
        invariant
            i <= cards.len(),
            decision_views(decisions@) == start + cards@.subrange(0, i as int).map_values(
                |c: VideoCard| card_requirement_decision(c),
            ),
        decreases cards.len() - i,
    {
        let ghost before = decisions@;
        let mut v: Vec<char> = Vec::new();
        push_str(&mut v, card_debug(cards[i]));
        let d = decision(
            "graphics.requirement.video_card",
            string_of(&v),
            DecisionSource::Dependency,
            "required by the resolved graphics policy",
            "media-libs/mesa",
        );
        decisions.push(d);
        proof {
            assert(decision_views(decisions@) =~= decision_views(before).push(decision_view(d)));
            assert(cards@.subrange(0, i + 1).map_values(|c: VideoCard| card_requirement_decision(c))
                =~= cards@.subrange(0, i as int).map_values(
                |c: VideoCard| card_requirement_decision(c),
            ).push(card_requirement_decision(cards@[i as int])));
        }
        i = i + 1;
    }
    assert(cards@.subrange(0, cards@.len() as int) =~= cards@);
}

fn push_kernel_decisions(decisions: &mut Vec<GraphicsDecision>, options: &Vec<String>)
    ensures
        decision_views(final(decisions)@) == decision_views(old(decisions)@) + views(options@).map_values(
            |o: Seq<char>| kernel_requirement_decision(o),
        ),
{
    let ghost start = decision_views(decisions@);
    let mut k: usize = 0;
    while k < options.len()
        invariant
            k <= options.len(),
            decision_views(decisions@) == start + views(options@).subrange(0, k as int).map_values(
                |o: Seq<char>| kernel_requirement_decision(o),
            ),
        decreases options.len() - k,
    {
        let ghost before = decisions@;
        let d = decision(
            "graphics.requirement.kernel_config",
            options[k].clone(),
            DecisionSource::Dependency,
            "required by the resolved DRM driver set",
            "kernel config",
        );
        decisions.push(d);
        proof {
            assert(decision_views(decisions@) =~= decision_views(before).push(decision_view(d)));
            assert(views(options@).subrange(0, k + 1).map_values(
                |o: Seq<char>| kernel_requirement_decision(o),
            ) =~= views(options@).subrange(0, k as int).map_values(
                |o: Seq<char>| kernel_requirement_decision(o),
            ).push(kernel_requirement_decision(options@[k as int]@)));
        }
        k = k + 1;
    }
    assert(views(options@).subrange(0, options@.len() as int) =~= views(options@));
}

/// The decisions recorded for a policy that resolved to the cards `cards`
/// and the kernel options `options`.
fn graphics_decisions(m: &SystemManifest, cards: &Vec<VideoCard>, options: &Vec<String>) -> (r: Vec<
    GraphicsDecision,
>)
    requires
        cards@ == resolved_cards(*m),
    ensures
        decision_views(r@) == policy_decisions(*m) + cards@.map_values(
            |c: VideoCard| card_requirement_decision(c),
        ) + views(options@).map_values(|o: Seq<char>| kernel_requirement_decision(o)),
{
    let input = &m.hardware.graphics;
    let mut decisions: Vec<GraphicsDecision> = Vec::new();
    if let Some(legacy) = &m.legacy_gpu {
        decisions.push(
            decision(
                "hardware.gpu",
                legacy_conversion(legacy, input),
                DecisionSource::LegacyInference,
                "retired hardware.gpu was converted to the unified graphics policy",
                "hardware.graphics",
            ),
        );
    }
    assert(decision_views(decisions@) =~= legacy_decisions(*m));
    if let VideoCards::Explicit(explicit) = &input.mesa.video_cards {
        decisions.push(
            decision(
                "hardware.graphics.mesa.video_cards",
                card_list(explicit),
                DecisionSource::Explicit,
                "Mesa VIDEO_CARDS were selected explicitly",
                "media-libs/mesa",
            ),
        );
    }
    assert(decision_views(decisions@) =~= legacy_decisions(*m) + mesa_decisions(*input));
    match &input.drm.drivers {
        DrmDrivers::Explicit(explicit) => {
            decisions.push(
                decision(
                    "hardware.graphics.drm.drivers",
                    driver_list(explicit),
                    DecisionSource::Explicit,
                    "kernel DRM drivers were selected explicitly",
                    "kernel config",
                ),
            );
        },
        DrmDrivers::Auto => {
            let derived = derive_drivers(cards);
            if derived.len() > 0 {
                decisions.push(
                    decision(
                        "hardware.graphics.drm.drivers",
                        driver_list(&derived),
                        DecisionSource::Dependency,
                        "derived kernel DRM drivers from the resolved Mesa and VM policy",
                        "kernel config",
                    ),
                );
            }
        },
    }
    assert(decision_views(decisions@) =~= policy_decisions(*m));
    push_card_decisions(&mut decisions, cards);
    push_kernel_decisions(&mut decisions, options);
    decisions
}

/// Resolves the manifest's graphics policy. Resolution uses only what the
/// manifest declares: automatic card selection contributes no physical GPU.
pub fn resolve_graphics(manifest: &SystemManifest) -> (r: Result<ResolvedGraphics, GraphicsResolveError>)
    ensures
        graphics_outcome(*manifest, r),
{
    let input = &manifest.hardware.graphics;
    let mut warnings: Vec<String> = Vec::new();

    let ghost base: Seq<VideoCard>;
    let mut cards: Vec<VideoCard> = match &input.mesa.video_cards {
        VideoCards::Explicit(explicit) => {
            if explicit.len() == 0 {
                return Err(invalid("hardware.graphics.mesa.video_cards is explicit but empty"));
            }
            proof {
                base = explicit@;
            }
            copy_vec(explicit)
        },
        VideoCards::Auto => {
            warnings.push(owned("hardware.graphics.mesa.video_cards = auto detected no physical GPU; only explicitly requested VM/NVIDIA capabilities will be validated"));
            proof {
                base = Seq::empty();
            }
            Vec::new()
        },
    };
    assert(declared_cards(*input) == Some(base));
    match input.vm_support {
        VmGraphics::Virgl => push_unique_card(&mut cards, VideoCard::Virgl),
        VmGraphics::Vmware => push_unique_card(&mut cards, VideoCard::Vmware),
        VmGraphics::Disabled => {},
    }
    if input.mesa.software_fallback == SoftwareRenderer::Required {
        push_unique_card(&mut cards, VideoCard::Lavapipe);
    }
    assert(cards@ == cards_with_vm(*input, base));
    if let Some(nvidia) = input.nvidia {
        match nvidia.driver {
            NvidiaDriver::Proprietary => {
                if contains_card(&cards, VideoCard::Nouveau) {
                    return Err(invalid("hardware.graphics.nvidia.driver = proprietary conflicts with VideoCard::Nouveau"));
                }
            },
            NvidiaDriver::Nouveau => {
                if nvidia.prime != PrimeMode::Disabled {
                    return Err(invalid("Nouveau PRIME routing is not supported by the initial graphics resolver; use prime = disabled"));
                }
                push_unique_card(&mut cards, VideoCard::Nouveau);
            },
        }
    }
    assert(cards@ == final_cards(*input, base));

    let ghost dbase: Seq<DrmDriver>;
    let mut drivers: Vec<DrmDriver> = match &input.drm.drivers {
        DrmDrivers::Explicit(explicit) => {
            if explicit.len() == 0 {
                return Err(invalid("hardware.graphics.drm.drivers is explicit but empty"));
            }
            proof {
                dbase = explicit@;
            }
            copy_vec(explicit)
        },
        DrmDrivers::Auto => {
            let derived = derive_drivers(&cards);
            proof {
                dbase = derived@;
            }
            derived
        },
    };
    assert(declared_drivers(*input, cards@) == Some(dbase));
    match input.vm_support {
        VmGraphics::Virgl => push_unique_driver(&mut drivers, DrmDriver::VirtioGpu),
        VmGraphics::Vmware => push_unique_driver(&mut drivers, DrmDriver::Vmwgfx),
        VmGraphics::Disabled => {},
    }
    let nouveau = match input.nvidia {
        Some(n) => n.driver == NvidiaDriver::Nouveau,
        None => false,
    };
    if nouveau {
        push_unique_driver(&mut drivers, DrmDriver::Nouveau);
    }
    assert(drivers@ == final_drivers(*input, dbase));

    validate_card_driver_pairs(&cards, &drivers)?;
    if let Some(nvidia) = input.nvidia {
        match nvidia.driver {
            NvidiaDriver::Proprietary => {
                if contains_card(&cards, VideoCard::Nouveau) || contains_driver(&drivers, DrmDriver::Nouveau) {
                    return Err(invalid("proprietary NVIDIA and Nouveau cannot be active in the same resolved target"));
                }
            },
            NvidiaDriver::Nouveau => {
                if has_nvidia_package(&manifest.packages) {
                    return Err(invalid("hardware.graphics.nvidia.driver = nouveau conflicts with package x11-drivers/nvidia-drivers"));
                }
            },
        }
    }
    let requirements = build_requirements(input, &cards, &drivers)?;

    assert(cards@ == resolved_cards(*manifest));
    let decisions = graphics_decisions(manifest, &cards, &requirements.kernel_config);
    assert(views(warnings@) =~= if manifest.hardware.graphics.mesa.video_cards is Auto {
        seq![auto_cards_warning()]
    } else {
        Seq::<Seq<char>>::empty()
    });
    Ok(
        ResolvedGraphics {
            policy: GraphicsPolicy {
                mesa_video_cards: cards,
                drm_drivers: drivers,
                software_fallback: input.mesa.software_fallback,
                nvidia: input.nvidia,
                vm_support: input.vm_support,
            },
            requirements,
            capabilities: GraphicsCapabilityComparison::default(),
            decisions,
            warnings,
        },
    )
}

impl SystemManifest {
    /// See [`resolve_graphics`].
    pub fn resolved_graphics(&self) -> (r: Result<ResolvedGraphics, GraphicsResolveError>)
        ensures
            graphics_outcome(*self, r),
    {
        resolve_graphics(self)
    }
}

} // verus!

verus! {

/// A DRM render node found on the running system.
#[derive(Debug, Clone, PartialEq, Eq)]
pub struct RenderNode {
    /// Device path, such as `/dev/dri/renderD128`.
    pub path: String,
    /// PCI vendor id, such as `0x10de`.
    pub vendor: String,
}

/// The first node with the given vendor.
pub open spec fn first_node_of(nodes: Seq<RenderNode>, vendor: Seq<char>, i: int) -> bool {
    0 <= i < nodes.len() && nodes[i].vendor@ == vendor && forall|k: int|
        0 <= k < i ==> nodes[k].vendor@ != vendor
}

pub open spec fn has_node_of(nodes: Seq<RenderNode>, vendor: Seq<char>) -> bool {
    exists|i: int| 0 <= i < nodes.len() && nodes[i].vendor@ == vendor
}

fn find_node(nodes: &Vec<RenderNode>, vendor: &str) -> (r: Option<usize>)
    ensures
        match r {
            Some(i) => first_node_of(nodes@, vendor@, i as int),
            None => !has_node_of(nodes@, vendor@),
        },
{
    let mut i: usize = 0;
    while i < nodes.len()
        invariant
            i <= nodes.len(),
            forall|k: int| 0 <= k < i ==> nodes@[k].vendor@ != vendor@,
        decreases nodes.len() - i,
    {
        if crate::text::str_eq(nodes[i].vendor.as_str(), vendor) {
            return Some(i);
        }
        i = i + 1;
    }
    None
}

/// The PCI vendor whose render node composites for a PRIME mode.
pub open spec fn compositor_vendor(mode: PrimeMode, cards: Seq<VideoCard>) -> Seq<char> {
    match mode {
        PrimeMode::Primary => "0x10de"@,
        PrimeMode::Offload => if cards.contains(VideoCard::Intel) {
            "0x8086"@
        } else {
            "0x1002"@
        },
        PrimeMode::Disabled => "0x10de"@,
    }
}

pub open spec fn prime_mode_name(mode: PrimeMode) -> Seq<char> {
    match mode {
        PrimeMode::Disabled => "Disabled"@,
        PrimeMode::Primary => "Primary"@,
        PrimeMode::Offload => "Offload"@,
    }
}

fn prime_mode_debug(mode: PrimeMode) -> (r: &'static str)
    ensures
        r@ == prime_mode_name(mode),
{
    match mode {
        PrimeMode::Disabled => "Disabled",
        PrimeMode::Primary => "Primary",
        PrimeMode::Offload => "Offload",
    }
}

/// The paths of nodes of a vendor, picked as the first such node.
pub open spec fn node_path_of(nodes: Seq<RenderNode>, vendor: Seq<char>) -> Seq<char> {
    nodes[choose|i: int| first_node_of(nodes, vendor, i)].path@
}

impl ResolvedGraphics {
    /// Portage `VIDEO_CARDS` values required when building Mesa.
    pub fn mesa_build_values(&self) -> (r: Vec<&'static str>)
        ensures
            r@.map_values(|s: &str| s@) == self.policy.mesa_video_cards@.map_values(
                |c: VideoCard| card_build_value(c),
            ),
    {
        let cards = &self.policy.mesa_video_cards;
        let mut out: Vec<&'static str> = Vec::new();
        let mut i: usize = 0;
        while i < cards.len()
            invariant
                i <= cards.len(),
                out@.len() == i,
                forall|k: int| 0 <= k < i ==> #[trigger] out@[k]@ == card_build_value(cards@[k]),
            decreases cards.len() - i,
        {
            let v = match cards[i] {
                VideoCard::Intel => "intel",
                VideoCard::Amdgpu => "amdgpu",
                VideoCard::Radeon => "radeon",
                VideoCard::Radeonsi => "radeonsi",
                VideoCard::Nouveau => "nouveau",
                VideoCard::Virgl => "virgl",
                VideoCard::Vmware => "vmware",
                VideoCard::Lavapipe => "lavapipe",
            };
            out.push(v);
            i = i + 1;
        }
        assert(out@.map_values(|s: &str| s@) =~= cards@.map_values(|c: VideoCard| card_build_value(c)));
        out
    }

    /// Build-script names of the required kernel DRM drivers.
    pub fn drm_build_values(&self) -> (r: Vec<&'static str>)
        ensures
            r@.map_values(|s: &str| s@) == self.policy.drm_drivers@.map_values(
                |d: DrmDriver| driver_build_value(d),
            ),
    {
        let drivers = &self.policy.drm_drivers;
        let mut out: Vec<&'static str> = Vec::new();
        let mut i: usize = 0;
        while i < drivers.len()
            invariant
                i <= drivers.len(),
                out@.len() == i,
                forall|k: int| 0 <= k < i ==> #[trigger] out@[k]@ == driver_build_value(drivers@[k]),
            decreases drivers.len() - i,
        {
            let v = match drivers[i] {
                DrmDriver::Intel => "intel",
                DrmDriver::Amdgpu => "amdgpu",
                DrmDriver::Radeon => "radeon",
                DrmDriver::Nouveau => "nouveau",
                DrmDriver::VirtioGpu => "virtio_gpu",
                DrmDriver::Vmwgfx => "vmwgfx",
            };
            out.push(v);
            i = i + 1;
        }
        assert(out@.map_values(|s: &str| s@) =~= drivers@.map_values(|d: DrmDriver| driver_build_value(d)));
        out
    }

    /// Pins PRIME routing to the render nodes found on the running system:
    /// the compositor node of the mode's vendor and, for offload, the NVIDIA
    /// node. Without PRIME routing the resolution is returned unchanged.
    pub fn resolve_runtime_nodes(self, nodes: &Vec<RenderNode>) -> (r: Result<Self, GraphicsResolveError>)
        ensures
            match self.requirements.prime {
                None => r == Ok::<ResolvedGraphics, GraphicsResolveError>(self),
                Some(p) => {
                    let cv = compositor_vendor(p.mode, self.policy.mesa_video_cards@);
                    if p.mode == PrimeMode::Disabled {
                        is_invalid(r->Err_0, "disabled PRIME has no routing requirement"@) && r is Err
                    } else if !has_node_of(nodes@, cv) {
                        r is Err && is_invalid(
                            r->Err_0,
                            "PRIME "@ + prime_mode_name(p.mode)
                                + " could not find the required compositor render node for PCI vendor "@ + cv,
                        )
                    } else if p.mode == PrimeMode::Offload && !has_node_of(nodes@, "0x10de"@) {
                        r is Err && is_invalid(r->Err_0, "PRIME offload could not find an NVIDIA render node"@)
                    } else {
                        &&& r is Ok
                        &&& r->Ok_0 == (ResolvedGraphics {
                            requirements: GraphicsRequirements {
                                prime: r->Ok_0.requirements.prime,
                                ..self.requirements
                            },
                            ..self
                        })
                        &&& r->Ok_0.requirements.prime is Some
                        &&& r->Ok_0.requirements.prime->Some_0.mode == p.mode
                        &&& r->Ok_0.requirements.prime->Some_0.compositor_gpu@ == node_path_of(nodes@, cv)
                        &&& if p.mode == PrimeMode::Offload {
                            &&& r->Ok_0.requirements.prime->Some_0.offload_gpu is Some
                            &&& r->Ok_0.requirements.prime->Some_0.offload_gpu->Some_0@ == node_path_of(
                                nodes@,
                                "0x10de"@,
                            ) + " via prime-run"@
                        } else {
                            r->Ok_0.requirements.prime->Some_0.offload_gpu == p.offload_gpu
                        }
                    }
                },
            },
    {
        let mode = match &self.requirements.prime {
            None => return Ok(self),
            Some(p) => p.mode,
        };
        let vendor = match mode {
            PrimeMode::Primary => "0x10de",
            PrimeMode::Offload => if contains_card(&self.policy.mesa_video_cards, VideoCard::Intel) {
                "0x8086"
            } else {
                "0x1002"
            },
            PrimeMode::Disabled => {
                return Err(invalid("disabled PRIME has no routing requirement"));
            },
        };
        let compositor = match find_node(nodes, vendor) {
            Some(i) => i,
            None => {
                let mut v: Vec<char> = Vec::new();
                push_str(&mut v, "PRIME ");
                push_str(&mut v, prime_mode_debug(mode));
                push_str(&mut v, " could not find the required compositor render node for PCI vendor ");
                push_str(&mut v, vendor);
                return Err(GraphicsResolveError::Invalid(string_of(&v)));
            },
        };
        let offload = if mode == PrimeMode::Offload {
            match find_node(nodes, "0x10de") {
                Some(i) => {
                    let mut v: Vec<char> = Vec::new();
                    push_str(&mut v, nodes[i].path.as_str());
                    push_str(&mut v, " via prime-run");
                    Some(string_of(&v))
                },
                None => {
                    return Err(invalid("PRIME offload could not find an NVIDIA render node"));
                },
            }
        } else {
            None
        };
        let mut result = self;
        let old_offload = match &result.requirements.prime {
            Some(p) => crate::manifest::packages::copy_opt_string(&p.offload_gpu),
            None => None,
        };
        result.requirements.prime = Some(
            PrimeRouting {
                mode,
                compositor_gpu: nodes[compositor].path.clone(),
                offload_gpu: if mode == PrimeMode::Offload {
                    offload
                } else {
                    old_offload
                },
            },
        );
        Ok(result)
    }

    /// Records what the source image was found to provide; fails with every
    /// missing capability, joined by `; `, when anything is missing.
    pub fn validate_source(self, capabilities: GraphicsCapabilityComparison) -> (r: Result<
        Self,
        GraphicsResolveError,
    >)
        ensures
            capabilities.missing@.len() == 0 ==> r == Ok::<ResolvedGraphics, GraphicsResolveError>(
                ResolvedGraphics { capabilities, ..self },
            ),
            capabilities.missing@.len() > 0 ==> (r matches Err(GraphicsResolveError::Capability(m))
                && m@ == join(sviews(capabilities.missing@), "; "@)),
    {
        if capabilities.missing.len() > 0 {
            let j = crate::text::join_strings(&capabilities.missing, "; ");
            return Err(GraphicsResolveError::Capability(string_of(&j)));
        }
        Ok(ResolvedGraphics { capabilities, ..self })
    }
}

} // verus!

verus! {

/// Some declared package name, trimmed, starts with `atom`.
pub open spec fn covers(names: Seq<Seq<char>>, atom: Seq<char>) -> bool {
    exists|i: int| 0 <= i < names.len() && starts_with(crate::text::trim(names[i]), atom)
}

/// Package names after adding each required atom not already covered.
pub open spec fn names_with_required(names: Seq<Seq<char>>, atoms: Seq<Seq<char>>) -> Seq<Seq<char>>
    decreases atoms.len(),
{
    if atoms.len() == 0 {
        names
    } else {
        let prev = names_with_required(names, atoms.drop_last());
        if covers(prev, atoms.last()) {
            prev
        } else {
            prev.push(atoms.last())
        }
    }
}

pub open spec fn package_names(ps: Seq<Package>) -> Seq<Seq<char>> {
    ps.map_values(|p: Package| p.package@)
}

/// A package request added for a graphics requirement: plain, except that
/// the proprietary NVIDIA driver accepts its license.
pub open spec fn is_required_request(p: Package) -> bool {
    &&& p.version is None
    &&& p.use_flags@.len() == 0
    &&& p.keywords@.len() == 0
    &&& !p.binary
    &&& !p.from_source
    &&& views(p.accept_licenses@) == if p.package@ == "x11-drivers/nvidia-drivers"@ {
        seq!["NVIDIA-r2"@]
    } else {
        Seq::empty()
    }
}

fn covered(ps: &Vec<Package>, atom: &str) -> (r: bool)
    ensures
        r == covers(package_names(ps@), atom@),
{
    let atomv = crate::text::chars_of(atom);
    let mut i: usize = 0;
    while i < ps.len()
        invariant
            i <= ps.len(),
            atomv@ == atom@,
            forall|k: int| 0 <= k < i ==> !starts_with(crate::text::trim(ps@[k].package@), atom@),
        decreases ps.len() - i,
    {
        let t = crate::text::trim_str(ps[i].package.as_str());
        if crate::text::matches_at(&t, &atomv, 0) {
            assert(package_names(ps@)[i as int] == ps@[i as int].package@);
            return true;
        }
        i = i + 1;
    }
    assert forall|k: int| 0 <= k < package_names(ps@).len() implies !starts_with(
        crate::text::trim(#[trigger] package_names(ps@)[k]),
        atom@,
    ) by {
        assert(package_names(ps@)[k] == ps@[k].package@);
    }
    false
}

impl ResolvedGraphics {
    /// The manifest with a package request added for every required package
    /// that no declared package (trimmed) starts with; everything else is
    /// unchanged.
    pub fn materialize_manifest(&self, manifest: SystemManifest) -> (r: SystemManifest)
        ensures
            r == (SystemManifest { packages: r.packages, ..manifest }),
            r.packages@.len() >= manifest.packages@.len(),
            r.packages@.subrange(0, manifest.packages@.len() as int) == manifest.packages@,
            package_names(r.packages@) == names_with_required(
                package_names(manifest.packages@),
                views(self.requirements.packages@),
            ),
            forall|i: int|
                manifest.packages@.len() <= i < r.packages@.len() ==> is_required_request(
                    #[trigger] r.packages@[i],
                ),
    {
        let mut result = manifest;
        let atoms = &self.requirements.packages;
        let ghost orig = result.packages@;
        let mut i: usize = 0;
        while i < atoms.len()
            invariant
                i <= atoms.len(),
                result == (SystemManifest { packages: result.packages, ..manifest }),
                orig == manifest.packages@,
                result.packages@.len() >= orig.len(),
                result.packages@.subrange(0, orig.len() as int) == orig,
                package_names(result.packages@) == names_with_required(
                    package_names(orig),
                    views(atoms@).subrange(0, i as int),
                ),
                forall|k: int|
                    orig.len() <= k < result.packages@.len() ==> is_required_request(
                        #[trigger] result.packages@[k],
                    ),
            decreases atoms.len() - i,
        {
            let atom = atoms[i].as_str();
            let ghost prev = result.packages@;
            assert(views(atoms@).subrange(0, i + 1).drop_last() =~= views(atoms@).subrange(0, i as int));
            assert(views(atoms@).subrange(0, i + 1).last() == atom@);
            if !covered(&result.packages, atom) {
                let mut package = Package::new(atom);
                if crate::text::str_eq(atom, "x11-drivers/nvidia-drivers") {
                    package = package.accept_licenses(["NVIDIA-r2"]);
                    assert(["NVIDIA-r2"]@.map_values(|g: &str| g@) =~= seq!["NVIDIA-r2"@]);
                } else {
                    assert(views(package.accept_licenses@) =~= Seq::<Seq<char>>::empty());
                }
                result.packages.push(package);
                assert(package_names(result.packages@) =~= package_names(prev).push(atom@));
                assert(result.packages@.subrange(0, orig.len() as int) =~= prev.subrange(0, orig.len() as int));
            }
            i = i + 1;
        }
        assert(views(atoms@).subrange(0, atoms.len() as int) =~= views(atoms@));
        result
    }
}

} // verus!

verus! {

pub open spec fn decision_line(d: GraphicsDecision) -> Seq<char> {
    d.field@ + " = "@ + d.value@ + " ["@ + crate::decision::source_label(d.source) + "]: "@ + d.reason@
}

pub open spec fn opt_line(o: Option<String>, prefix: Seq<char>) -> Seq<Seq<char>> {
    match o {
        Some(s) => seq![prefix + s@],
        None => Seq::empty(),
    }
}

pub open spec fn list_line(v: Seq<String>, prefix: Seq<char>) -> Seq<Seq<char>> {
    if v.len() == 0 {
        Seq::empty()
    } else {
        seq![prefix + join(sviews(v), ", "@)]
    }
}

pub open spec fn manifest_line(c: GraphicsCapabilityComparison) -> Seq<Seq<char>> {
    match c.capability_manifest_path {
        Some(p) => seq![
            "image capability manifest: "@ + p@ + " (checksum "@ + (if c.capability_manifest_checksum_verified {
                "verified"@
            } else {
                "not verified"@
            }) + ")"@,
        ],
        None => Seq::empty(),
    }
}

pub open spec fn nvidia_line(c: GraphicsCapabilityComparison) -> Seq<Seq<char>> {
    match (c.nvidia_driver_version, c.nvidia_kernel_abi) {
        (Some(v), Some(a)) => seq!["NVIDIA capability: driver "@ + v@ + ", kernel ABI "@ + a@],
        _ => Seq::empty(),
    }
}

/// Lines describing what the source image was checked for.
pub open spec fn capability_lines(c: GraphicsCapabilityComparison) -> Seq<Seq<char>> {
    match c.source_root {
        None => Seq::empty(),
        Some(root) => seq!["source image: "@ + root@] + manifest_line(c) + seq![
            "Mesa capability check: "@ + (if c.mesa_checked {
                "passed"@
            } else {
                "not required"@
            }),
        ] + opt_line(c.kernel_config_path, "kernel capability check: "@) + nvidia_line(c),
    }
}

pub open spec fn prime_lines(p: Option<PrimeRouting>) -> Seq<Seq<char>> {
    match p {
        None => Seq::empty(),
        Some(r) => seq!["PRIME mode: "@ + prime_mode_name(r.mode), "compositor GPU: "@ + r.compositor_gpu@]
            + opt_line(r.offload_gpu, "offload GPU: "@),
    }
}

/// The lines of a resolved graphics report, in order.
pub open spec fn graphics_report_lines(g: ResolvedGraphics) -> Seq<Seq<char>> {
    seq![
        "graphics policy: Mesa ["@ + card_list_text(g.policy.mesa_video_cards@) + "], DRM ["@
            + driver_list_text(g.policy.drm_drivers@) + "]"@,
    ] + g.decisions@.map_values(|d: GraphicsDecision| decision_line(d)) + sviews(g.warnings@).map_values(
        |w: Seq<char>| "warning: "@ + w,
    ) + capability_lines(g.capabilities) + prime_lines(g.requirements.prime) + list_line(
        g.requirements.packages@,
        "packages: "@,
    ) + list_line(g.requirements.kernel_modules@, "kernel modules: "@) + list_line(
        g.requirements.initramfs_modules@,
        "initramfs modules: "@,
    ) + list_line(g.requirements.module_blacklist@, "module blacklist: "@) + sviews(
        g.requirements.diagnostics@,
    ).map_values(|d: Seq<char>| "diagnostic: "@ + d)
}

/// Appends `prefix + s` as a line.
fn push_line(lines: &mut Vec<Vec<char>>, prefix: &str, s: &str)
    ensures
        vviews(final(lines)@) == vviews(old(lines)@).push(prefix@ + s@),
{
    let mut v: Vec<char> = Vec::new();
    push_str(&mut v, prefix);
    push_str(&mut v, s);
    let ghost before = vviews(lines@);
    lines.push(v);
    assert(vviews(lines@) =~= before.push(prefix@ + s@));
}

/// Appends one `prefix + item` line per item.
fn push_each(lines: &mut Vec<Vec<char>>, prefix: &str, items: &Vec<String>)
    ensures
        vviews(final(lines)@) == vviews(old(lines)@) + sviews(items@).map_values(
            |w: Seq<char>| prefix@ + w,
        ),
{
    let ghost start = vviews(lines@);
    let mut i: usize = 0;
    while i < items.len()
        invariant
            i <= items.len(),
            vviews(lines@) == start + sviews(items@.subrange(0, i as int)).map_values(
                |w: Seq<char>| prefix@ + w,
            ),
        decreases items.len() - i,
    {
        push_line(lines, prefix, items[i].as_str());
        i = i + 1;
        assert(sviews(items@.subrange(0, i as int)).map_values(|w: Seq<char>| prefix@ + w) =~= sviews(
            items@.subrange(0, i - 1),
        ).map_values(|w: Seq<char>| prefix@ + w).push(prefix@ + items@[i - 1]@));
    }
    assert(items@.subrange(0, items.len() as int) =~= items@);
}

/// Appends one `prefix + joined items` line unless the list is empty.
fn push_list(lines: &mut Vec<Vec<char>>, prefix: &str, items: &Vec<String>)
    ensures
        vviews(final(lines)@) == vviews(old(lines)@) + list_line(items@, prefix@),
{
    if items.len() == 0 {
        assert(vviews(lines@) + Seq::<Seq<char>>::empty() =~= vviews(lines@));
        return;
    }
    let j = crate::text::join_strings(items, ", ");
    let js = string_of(&j);
    let ghost before = vviews(lines@);
    push_line(lines, prefix, js.as_str());
    assert(vviews(lines@) =~= before + list_line(items@, prefix@));
}

/// Appends the capability-check lines of a report.
fn push_capability_lines(lines: &mut Vec<Vec<char>>, c: &GraphicsCapabilityComparison)
    ensures
        vviews(final(lines)@) == vviews(old(lines)@) + capability_lines(*c),
{
    let ghost l1 = vviews(lines@);
    match &c.source_root {
        None => {
            assert(l1 + Seq::<Seq<char>>::empty() =~= l1);
        },
        Some(root) => {
            push_line(lines, "source image: ", root.as_str());
            let ghost la = vviews(lines@);
            match &c.capability_manifest_path {
                Some(p) => {
                    let mut v: Vec<char> = Vec::new();
                    push_str(&mut v, "image capability manifest: ");
                    push_str(&mut v, p.as_str());
                    push_str(&mut v, " (checksum ");
                    if c.capability_manifest_checksum_verified {
                        push_str(&mut v, "verified");
                    } else {
                        push_str(&mut v, "not verified");
                    }
                    push_str(&mut v, ")");
                    lines.push(v);
                },
                None => {},
            }
            assert(vviews(lines@) =~= la + manifest_line(*c));
            let ghost lb = vviews(lines@);
            if c.mesa_checked {
                push_line(lines, "Mesa capability check: ", "passed");
            } else {
                push_line(lines, "Mesa capability check: ", "not required");
            }
            let ghost lc = vviews(lines@);
            match &c.kernel_config_path {
                Some(k) => push_line(lines, "kernel capability check: ", k.as_str()),
                None => {},
            }
            assert(vviews(lines@) =~= lc + opt_line(c.kernel_config_path, "kernel capability check: "@));
            let ghost ld = vviews(lines@);
            match (&c.nvidia_driver_version, &c.nvidia_kernel_abi) {
                (Some(v), Some(a)) => {
                    let mut t: Vec<char> = Vec::new();
                    push_str(&mut t, "NVIDIA capability: driver ");
                    push_str(&mut t, v.as_str());
                    push_str(&mut t, ", kernel ABI ");
                    push_str(&mut t, a.as_str());
                    lines.push(t);
                },
                _ => {},
            }
            assert(vviews(lines@) =~= ld + nvidia_line(*c));
            assert(vviews(lines@) =~= l1 + capability_lines(*c));
        },
    }
}

impl ResolvedGraphics {
    /// A human-readable report of the resolved policy.
    pub fn render(&self) -> (r: String)
        ensures
            r@ == join(graphics_report_lines(*self), "\n"@),
    {
        let mut lines: Vec<Vec<char>> = Vec::new();
        let cl = card_list(&self.policy.mesa_video_cards);
        let dl = driver_list(&self.policy.drm_drivers);
        let mut head: Vec<char> = Vec::new();
        push_str(&mut head, "graphics policy: Mesa [");
        push_str(&mut head, cl.as_str());
        push_str(&mut head, "], DRM [");
        push_str(&mut head, dl.as_str());
        push_str(&mut head, "]");
        lines.push(head);
        let ghost l0 = vviews(lines@);
        let mut i: usize = 0;
        while i < self.decisions.len()
            invariant
                i <= self.decisions.len(),
                vviews(lines@) == l0 + self.decisions@.subrange(0, i as int).map_values(
                    |d: GraphicsDecision| decision_line(d),
                ),
            decreases self.decisions.len() - i,
        {
            let d = &self.decisions[i];
            let mut v: Vec<char> = Vec::new();
            push_str(&mut v, d.field.as_str());
            push_str(&mut v, " = ");
            push_str(&mut v, d.value.as_str());
            push_str(&mut v, " [");
            push_str(&mut v, d.source.label());
            push_str(&mut v, "]: ");
            push_str(&mut v, d.reason.as_str());
            let ghost before = vviews(lines@);
            lines.push(v);
            i = i + 1;
            assert(vviews(lines@) =~= before.push(decision_line(self.decisions@[i - 1])));
            assert(self.decisions@.subrange(0, i as int).map_values(|d: GraphicsDecision| decision_line(d))
                =~= self.decisions@.subrange(0, i - 1).map_values(|d: GraphicsDecision| decision_line(d)).push(
                decision_line(self.decisions@[i - 1]),
            ));
        }
        assert(self.decisions@.subrange(0, self.decisions.len() as int) =~= self.decisions@);
        push_each(&mut lines, "warning: ", &self.warnings);
        push_capability_lines(&mut lines, &self.capabilities);
        let ghost l2 = vviews(lines@);
        match &self.requirements.prime {
            None => {},
            Some(p) => {
                push_line(&mut lines, "PRIME mode: ", prime_mode_debug(p.mode));
                push_line(&mut lines, "compositor GPU: ", p.compositor_gpu.as_str());
                match &p.offload_gpu {
                    Some(o) => push_line(&mut lines, "offload GPU: ", o.as_str()),
                    None => {},
                }
            },
        }
        assert(vviews(lines@) =~= l2 + prime_lines(self.requirements.prime));
        push_list(&mut lines, "packages: ", &self.requirements.packages);
        push_list(&mut lines, "kernel modules: ", &self.requirements.kernel_modules);
        push_list(&mut lines, "initramfs modules: ", &self.requirements.initramfs_modules);
        push_list(&mut lines, "module blacklist: ", &self.requirements.module_blacklist);
        push_each(&mut lines, "diagnostic: ", &self.requirements.diagnostics);
        assert(vviews(lines@) =~= graphics_report_lines(*self));
        let j = join_chars(&lines, "\n");
        string_of(&j)
    }
}

} // verus!

verus! {

proof fn lemma_covers_extended(names: Seq<Seq<char>>, more: Seq<Seq<char>>, atom: Seq<char>)
    requires
        covers(names, atom),
    ensures
        covers(names + more, atom),
{
    let i = choose|i: int| 0 <= i < names.len() && starts_with(crate::text::trim(names[i]), atom);
    assert((names + more)[i] == names[i]);
}

proof fn lemma_required_covered(names: Seq<Seq<char>>, atoms: Seq<Seq<char>>)
    requires
        forall|i: int| 0 <= i < atoms.len() ==> crate::text::trim(#[trigger] atoms[i]) == atoms[i],
    ensures
        forall|i: int| 0 <= i < atoms.len() ==> covers(names_with_required(names, atoms), #[trigger] atoms[i]),
    decreases atoms.len(),
{
    if atoms.len() > 0 {
        let pre = atoms.drop_last();
        assert forall|i: int| 0 <= i < pre.len() implies crate::text::trim(#[trigger] pre[i]) == pre[i] by {
            assert(pre[i] == atoms[i]);
        }
        lemma_required_covered(names, pre);
        let prev = names_with_required(names, pre);
        let r = names_with_required(names, atoms);
        let a = atoms.last();
        assert forall|i: int| 0 <= i < atoms.len() implies covers(r, #[trigger] atoms[i]) by {
            if i < pre.len() {
                assert(pre[i] == atoms[i]);
                assert(covers(prev, pre[i]));
                if !covers(prev, a) {
                    lemma_covers_extended(prev, seq![a], pre[i]);
                    assert(prev + seq![a] =~= prev.push(a));
                }
            } else if !covers(prev, a) {
                assert(r[r.len() - 1] == a);
                assert(crate::text::trim(a) == a);
                assert(a.subrange(0, a.len() as int) =~= a);
                assert(starts_with(crate::text::trim(r[r.len() - 1]), a));
            }
        }
    }
}

proof fn lemma_nothing_required(known: Seq<Seq<char>>, atoms: Seq<Seq<char>>)
    requires
        forall|i: int| 0 <= i < atoms.len() ==> covers(known, #[trigger] atoms[i]),
    ensures
        names_with_required(known, atoms) == known,
    decreases atoms.len(),
{
    if atoms.len() > 0 {
        let pre = atoms.drop_last();
        assert forall|i: int| 0 <= i < pre.len() implies covers(known, #[trigger] pre[i]) by {
            assert(pre[i] == atoms[i]);
        }
        lemma_nothing_required(known, pre);
        assert(covers(known, atoms[atoms.len() - 1]));
    }
}

proof fn lemma_push_all_unique_keeps(s: Seq<Seq<char>>, xs: Seq<Seq<char>>)
    ensures
        forall|x: Seq<char>| s.contains(x) ==> #[trigger] push_all_unique(s, xs).contains(x),
        forall|x: Seq<char>| xs.contains(x) ==> #[trigger] push_all_unique(s, xs).contains(x),
    decreases xs.len(),
{
    if xs.len() > 0 {
        lemma_push_all_unique_keeps(s, xs.drop_last());
        let prev = push_all_unique(s, xs.drop_last());
        let r = push_all_unique(s, xs);
        assert forall|x: Seq<char>| prev.contains(x) implies r.contains(x) by {
            let i = choose|i: int| 0 <= i < prev.len() && prev[i] == x;
            if !prev.contains(xs.last()) {
                assert(r[i] == prev[i]);
            }
        }
        if !prev.contains(xs.last()) {
            assert(r[prev.len() as int] == xs.last());
        }
        assert forall|x: Seq<char>| xs.contains(x) implies r.contains(x) by {
            let i = choose|i: int| 0 <= i < xs.len() && xs[i] == x;
            if i < xs.len() - 1 {
                assert(xs.drop_last()[i] == x);
            }
        }
    }
}

proof fn lemma_kernel_config_has_options(drivers: Seq<DrmDriver>)
    ensures
        forall|j: int, x: Seq<char>|
            #![trigger kernel_config_for(drivers).contains(x), drivers[j]]
            0 <= j < drivers.len() && driver_options(drivers[j]).contains(x) ==> kernel_config_for(
                drivers,
            ).contains(x),
    decreases drivers.len(),
{
    if drivers.len() > 0 {
        let d = drivers.drop_last();
        lemma_kernel_config_has_options(d);
        lemma_push_all_unique_keeps(kernel_config_for(d), driver_options(drivers.last()));
        assert forall|j: int, x: Seq<char>|
            0 <= j < drivers.len() && driver_options(drivers[j]).contains(x) implies kernel_config_for(
                drivers,
            ).contains(x) by {
            if j < drivers.len() - 1 {
                assert(d[j] == drivers[j]);
                assert(kernel_config_for(d).contains(x));
            }
        }
    }
}

proof fn lemma_derived_from_cards(cards: Seq<VideoCard>)
    ensures
        forall|j: int|
            0 <= j < derived_drivers(cards).len() ==> exists|i: int|
                0 <= i < cards.len() && card_drm(cards[i]) == Some(#[trigger] derived_drivers(cards)[j]),
    decreases cards.len(),
{
    if cards.len() > 0 {
        let c = cards.drop_last();
        lemma_derived_from_cards(c);
        let prev = derived_drivers(c);
        let r = derived_drivers(cards);
        assert forall|j: int| 0 <= j < r.len() implies exists|i: int|
            0 <= i < cards.len() && card_drm(cards[i]) == Some(#[trigger] r[j]) by {
            if j < prev.len() {
                assert(r[j] == prev[j]);
                let i = choose|i: int| 0 <= i < c.len() && card_drm(c[i]) == Some(prev[j]);
                assert(c[i] == cards[i]);
            } else {
                assert(card_drm(cards[cards.len() - 1]) == Some(r[j]));
            }
        }
    }
}

/// Every Mesa card of a resolved policy has its kernel DRM driver among the
/// resolved drivers: Intel needs Intel, Amdgpu and Radeonsi need Amdgpu,
/// Radeon needs Radeon, Nouveau needs Nouveau, Virgl needs VirtioGpu and
/// Vmware needs Vmwgfx; Lavapipe needs none. The kernel configuration
/// enables the module of every resolved driver.
pub proof fn lemma_cards_have_their_kernel_drivers(m: SystemManifest, r: ResolvedGraphics)
    requires
        graphics_outcome(m, Ok(r)),
    ensures
        forall|i: int|
            0 <= i < r.policy.mesa_video_cards@.len() ==> {
                let c = #[trigger] r.policy.mesa_video_cards@[i];
                let d = r.policy.drm_drivers@;
                &&& c == VideoCard::Intel ==> d.contains(DrmDriver::Intel)
                &&& c == VideoCard::Amdgpu ==> d.contains(DrmDriver::Amdgpu)
                &&& c == VideoCard::Radeonsi ==> d.contains(DrmDriver::Amdgpu)
                &&& c == VideoCard::Radeon ==> d.contains(DrmDriver::Radeon)
                &&& c == VideoCard::Nouveau ==> d.contains(DrmDriver::Nouveau)
                &&& c == VideoCard::Virgl ==> d.contains(DrmDriver::VirtioGpu)
                &&& c == VideoCard::Vmware ==> d.contains(DrmDriver::Vmwgfx)
            },
        forall|j: int|
            0 <= j < r.policy.drm_drivers@.len() ==> {
                let d = #[trigger] r.policy.drm_drivers@[j];
                let k = views(r.requirements.kernel_config@);
                &&& k.contains("CONFIG_DRM"@)
                &&& d == DrmDriver::Intel ==> k.contains("CONFIG_DRM_I915"@)
                &&& d == DrmDriver::Amdgpu ==> k.contains("CONFIG_DRM_AMDGPU"@)
                &&& d == DrmDriver::Radeon ==> k.contains("CONFIG_DRM_RADEON"@)
                &&& d == DrmDriver::Nouveau ==> k.contains("CONFIG_DRM_NOUVEAU"@)
                &&& d == DrmDriver::VirtioGpu ==> k.contains("CONFIG_DRM_VIRTIO_GPU"@)
                &&& d == DrmDriver::Vmwgfx ==> k.contains("CONFIG_DRM_VMWGFX"@)
            },
{
    let g = m.hardware.graphics;
    let cards = resolved_cards(m);
    let drivers = resolved_drivers(m);
    assert(graphics_failure(m) is None);
    assert(all_paired(cards, drivers));
    assert(r.policy.mesa_video_cards@ == cards);
    assert(r.policy.drm_drivers@ == drivers);
    lemma_kernel_config_has_options(drivers);
    assert forall|i: int| 0 <= i < cards.len() implies {
        let c = #[trigger] cards[i];
        &&& c == VideoCard::Intel ==> drivers.contains(DrmDriver::Intel)
        &&& c == VideoCard::Amdgpu ==> drivers.contains(DrmDriver::Amdgpu)
        &&& c == VideoCard::Radeonsi ==> drivers.contains(DrmDriver::Amdgpu)
        &&& c == VideoCard::Radeon ==> drivers.contains(DrmDriver::Radeon)
        &&& c == VideoCard::Nouveau ==> drivers.contains(DrmDriver::Nouveau)
        &&& c == VideoCard::Virgl ==> drivers.contains(DrmDriver::VirtioGpu)
        &&& c == VideoCard::Vmware ==> drivers.contains(DrmDriver::Vmwgfx)
    } by {
        assert(card_drm(cards[i]) is Some ==> drivers.contains(card_drm(cards[i])->Some_0));
    }
    assert forall|j: int| 0 <= j < drivers.len() implies {
        let d = #[trigger] drivers[j];
        let k = kernel_config_for(drivers);
        &&& k.contains("CONFIG_DRM"@)
        &&& d == DrmDriver::Intel ==> k.contains("CONFIG_DRM_I915"@)
        &&& d == DrmDriver::Amdgpu ==> k.contains("CONFIG_DRM_AMDGPU"@)
        &&& d == DrmDriver::Radeon ==> k.contains("CONFIG_DRM_RADEON"@)
        &&& d == DrmDriver::Nouveau ==> k.contains("CONFIG_DRM_NOUVEAU"@)
        &&& d == DrmDriver::VirtioGpu ==> k.contains("CONFIG_DRM_VIRTIO_GPU"@)
        &&& d == DrmDriver::Vmwgfx ==> k.contains("CONFIG_DRM_VMWGFX"@)
    } by {
        let opts = driver_options(drivers[j]);
        assert(opts[0] == "CONFIG_DRM"@);
        assert(opts.contains(opts[0]));
        assert(drivers[j] == DrmDriver::VirtioGpu ==> opts[3] == "CONFIG_DRM_VIRTIO_GPU"@ && opts.contains(
            opts[3],
        ));
        assert(drivers[j] != DrmDriver::VirtioGpu ==> opts.contains(opts[2]));
    }
}

/// With drivers chosen automatically, no VM support and no NVIDIA policy,
/// every resolved driver is the kernel driver of a resolved card: Intel for
/// an Intel card, Amdgpu for an Amdgpu or Radeonsi card, Radeon for a Radeon
/// card, Nouveau for a Nouveau card, VirtioGpu for Virgl and Vmwgfx for
/// Vmware.
pub proof fn lemma_auto_drivers_come_from_cards(m: SystemManifest, r: ResolvedGraphics)
    requires
        graphics_outcome(m, Ok(r)),
        m.hardware.graphics.drm.drivers is Auto,
        m.hardware.graphics.vm_support == VmGraphics::Disabled,
        m.hardware.graphics.nvidia is None,
    ensures
        forall|j: int|
            0 <= j < r.policy.drm_drivers@.len() ==> {
                let d = #[trigger] r.policy.drm_drivers@[j];
                let c = r.policy.mesa_video_cards@;
                &&& d == DrmDriver::Intel ==> c.contains(VideoCard::Intel)
                &&& d == DrmDriver::Amdgpu ==> c.contains(VideoCard::Amdgpu) || c.contains(
                    VideoCard::Radeonsi,
                )
                &&& d == DrmDriver::Radeon ==> c.contains(VideoCard::Radeon)
                &&& d == DrmDriver::Nouveau ==> c.contains(VideoCard::Nouveau)
                &&& d == DrmDriver::VirtioGpu ==> c.contains(VideoCard::Virgl)
                &&& d == DrmDriver::Vmwgfx ==> c.contains(VideoCard::Vmware)
            },
{
    let cards = resolved_cards(m);
    let drivers = resolved_drivers(m);
    assert(drivers == derived_drivers(cards));
    lemma_derived_from_cards(cards);
    assert forall|j: int| 0 <= j < drivers.len() implies {
        let d = #[trigger] drivers[j];
        &&& d == DrmDriver::Intel ==> cards.contains(VideoCard::Intel)
        &&& d == DrmDriver::Amdgpu ==> cards.contains(VideoCard::Amdgpu) || cards.contains(
            VideoCard::Radeonsi,
        )
        &&& d == DrmDriver::Radeon ==> cards.contains(VideoCard::Radeon)
        &&& d == DrmDriver::Nouveau ==> cards.contains(VideoCard::Nouveau)
        &&& d == DrmDriver::VirtioGpu ==> cards.contains(VideoCard::Virgl)
        &&& d == DrmDriver::Vmwgfx ==> cards.contains(VideoCard::Vmware)
    } by {
        let i = choose|i: int| 0 <= i < cards.len() && card_drm(cards[i]) == Some(drivers[j]);
        assert(cards.contains(cards[i]));
    }
}

/// `drivers` holds the kernel DRM driver of the Mesa card `c`, if it needs
/// one.
pub open spec fn has_kernel_driver_for(c: VideoCard, drivers: Seq<DrmDriver>) -> bool {
    &&& c == VideoCard::Intel ==> drivers.contains(DrmDriver::Intel)
    &&& c == VideoCard::Amdgpu ==> drivers.contains(DrmDriver::Amdgpu)
    &&& c == VideoCard::Radeonsi ==> drivers.contains(DrmDriver::Amdgpu)
    &&& c == VideoCard::Radeon ==> drivers.contains(DrmDriver::Radeon)
    &&& c == VideoCard::Nouveau ==> drivers.contains(DrmDriver::Nouveau)
    &&& c == VideoCard::Virgl ==> drivers.contains(DrmDriver::VirtioGpu)
    &&& c == VideoCard::Vmware ==> drivers.contains(DrmDriver::Vmwgfx)
}

/// With explicit card and driver lists, no VM support and no NVIDIA policy,
/// the policy resolves exactly when every listed card's kernel driver is
/// listed: Intel for Intel, Amdgpu for Amdgpu and Radeonsi, Radeon for
/// Radeon, Nouveau for Nouveau, VirtioGpu for Virgl, Vmwgfx for Vmware.
pub proof fn lemma_explicit_lists_resolve_when_paired(
    m: SystemManifest,
    r: Result<ResolvedGraphics, GraphicsResolveError>,
    cards: Seq<VideoCard>,
    drivers: Seq<DrmDriver>,
)
    requires
        graphics_outcome(m, r),
        m.hardware.graphics.mesa.video_cards matches VideoCards::Explicit(c) && c@ == cards,
        m.hardware.graphics.drm.drivers matches DrmDrivers::Explicit(d) && d@ == drivers,
        cards.len() > 0,
        drivers.len() > 0,
        m.hardware.graphics.vm_support == VmGraphics::Disabled,
        m.hardware.graphics.nvidia is None,
    ensures
        r is Ok <==> forall|i: int| 0 <= i < cards.len() ==> has_kernel_driver_for(#[trigger] cards[i], drivers),
{
    let g = m.hardware.graphics;
    let fc = final_cards(g, cards);
    assert(declared_cards(g) == Some(cards));
    assert(declared_drivers(g, fc) == Some(drivers));
    assert(final_drivers(g, drivers) == drivers);
    assert forall|c: VideoCard| #![auto]
        has_kernel_driver_for(c, drivers) <==> (card_drm(c) is Some ==> drivers.contains(card_drm(c)->Some_0)) by {
    }
    if forall|i: int| 0 <= i < cards.len() ==> has_kernel_driver_for(#[trigger] cards[i], drivers) {
        assert forall|k: int| 0 <= k < fc.len() implies (card_drm(#[trigger] fc[k]) is Some ==> drivers.contains(
            card_drm(fc[k])->Some_0,
        )) by {
            if k < cards.len() {
                assert(fc[k] == cards[k]);
                assert(has_kernel_driver_for(cards[k], drivers));
            } else {
                assert(fc[k] == VideoCard::Lavapipe);
            }
        }
        assert(all_paired(fc, drivers));
        assert(graphics_failure(m) is None);
    } else {
        let i = choose|i: int| 0 <= i < cards.len() && !has_kernel_driver_for(#[trigger] cards[i], drivers);
        assert(fc[i] == cards[i]);
        assert(!all_paired(fc, drivers));
        assert(graphics_failure(m) is Some);
    }
}

/// Materializing the required packages a second time adds nothing: once
/// added, every required atom is covered. Required atoms are package atoms,
/// with no surrounding whitespace.
pub proof fn lemma_materialize_is_idempotent(names: Seq<Seq<char>>, atoms: Seq<Seq<char>>)
    requires
        forall|i: int| 0 <= i < atoms.len() ==> crate::text::trim(#[trigger] atoms[i]) == atoms[i],
    ensures
        names_with_required(names_with_required(names, atoms), atoms) == names_with_required(names, atoms),
{
    lemma_required_covered(names, atoms);
    lemma_nothing_required(names_with_required(names, atoms), atoms);
}

} // verus!

verus! {

impl SystemManifest {
    /// The manifest's graphics policy resolved and checked against what a
    /// source image provides. Planning stays deterministic: only the policy
    /// the manifest declares is resolved, no hardware is probed.
    pub fn resolved_graphics_for_source(&self, source_root: &str, probe: crate::capability::SourceProbe) -> (r:
        Result<ResolvedGraphics, GraphicsResolveError>)
        ensures
            match graphics_failure(*self) {
                Some(msg) => r is Err && is_invalid(r->Err_0, msg),
                None => exists|g: ResolvedGraphics|
                    #[trigger] graphics_outcome(*self, Ok(g)) && {
                        let c = crate::capability::source_comparison(g.requirements, source_root@, probe);
                        if c.missing.len() == 0 {
                            &&& r is Ok
                            &&& r->Ok_0 == (ResolvedGraphics { capabilities: r->Ok_0.capabilities, ..g })
                            &&& crate::capability::comparison_view(r->Ok_0.capabilities) == c
                            &&& crate::capability::opt_seq(r->Ok_0.capabilities.source_root) == Some(source_root@)
                        } else {
                            r matches Err(GraphicsResolveError::Capability(m)) && m@ == join(c.missing, "; "@)
                        }
                    },
            },
    {
        let g = match resolve_graphics(self) {
            Ok(g) => g,
            Err(e) => return Err(e),
        };
        let ghost g0 = g;
        assert(graphics_outcome(*self, Ok(g0)));
        let c = crate::capability::compare_source_capabilities(&g.requirements, source_root, probe);
        assert(sviews(c.missing@) == crate::capability::source_comparison(g0.requirements, source_root@, probe).missing);
        g.validate_source(c)
    }
}

} // verus!
