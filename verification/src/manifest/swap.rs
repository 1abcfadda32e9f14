//! Swap policy and its resolution against the machine's RAM.
use vstd::prelude::*;

use super::disk::SwapConfig;
use super::packages::Package;
use super::SystemManifest;
use crate::text::str_eq;

verus! {

pub const DEFAULT_SWAPPINESS: u16 = 180;

pub const ZRAM_SWAP_PRIORITY: i16 = 100;

pub const DISK_SWAP_PRIORITY: i16 = 10;

/// The largest accepted `vm.swappiness`.
pub const MAX_SWAPPINESS: u16 = 200;

#[derive(Debug, Clone, Copy, PartialEq, Eq, Structural)]
pub struct Swap {
    pub strategy: SwapStrategy,
    pub swappiness: u16,
}

impl Swap {
    /// No swap, with the default swappiness.
    pub open spec fn default_spec() -> Swap {
        Swap { strategy: SwapStrategy::Disabled, swappiness: DEFAULT_SWAPPINESS }
    }
}

impl Default for Swap {
    fn default() -> (r: Self)
        ensures
            r == Swap::default_spec(),
    {
        Swap { strategy: SwapStrategy::Disabled, swappiness: DEFAULT_SWAPPINESS }
    }
}

#[derive(Debug, Clone, Copy, PartialEq, Eq, Structural)]
pub enum SwapStrategy {
    Disk { size: SwapSize },
    Hybrid { zram: ZramOptions, disk: SwapDiskOptions },
    ZramOnly { algorithm: Compression, fraction: RamFraction },
    Disabled,
}

impl Default for SwapStrategy {
    fn default() -> (r: Self)
        ensures
            r == SwapStrategy::Disabled,
    {
        SwapStrategy::Disabled
    }
}

#[derive(Debug, Clone, Copy, PartialEq, Eq, Structural)]
pub enum SwapSize {
    MatchRam,
    Fixed(u64),
}

#[derive(Debug, Clone, Copy, PartialEq, Eq, Structural)]
pub struct SwapDiskOptions {
    pub size: SwapSize,
}

impl Default for SwapDiskOptions {
    fn default() -> (r: Self)
        ensures
            r.size == SwapSize::MatchRam,
    {
        SwapDiskOptions { size: SwapSize::MatchRam }
    }
}

#[derive(Debug, Clone, Copy, PartialEq, Eq, Structural)]
pub struct ZramOptions {
    pub algorithm: Compression,
    pub fraction: RamFraction,
}

impl Default for ZramOptions {
    fn default() -> (r: Self)
        ensures
            r == (ZramOptions {
                algorithm: Compression::Zstd,
                fraction: RamFraction { numerator: 1, denominator: 2 },
            }),
    {
        ZramOptions { algorithm: Compression::Zstd, fraction: RamFraction::half() }
    }
}

#[derive(Debug, Clone, Copy, PartialEq, Eq, Structural)]
pub enum Compression {
    Zstd,
    LzoRle,
    Lz4,
}

pub open spec fn compression_name(c: Compression) -> Seq<char> {
    match c {
        Compression::Zstd => "zstd"@,
        Compression::LzoRle => "lzo-rle"@,
        Compression::Lz4 => "lz4"@,
    }
}

impl Compression {
    /// The name the kernel's zram driver uses for this algorithm.
    pub fn kernel_name(self) -> (r: &'static str)
        ensures
            r@ == compression_name(self),
    {
        match self {
            Compression::Zstd => "zstd",
            Compression::LzoRle => "lzo-rle",
            Compression::Lz4 => "lz4",
        }
    }
}

impl Default for Compression {
    fn default() -> (r: Self)
        ensures
            r == Compression::Zstd,
    {
        Compression::Zstd
    }
}

/// An exact fraction of system RAM.
#[derive(Debug, Clone, Copy, PartialEq, Eq, Structural)]
pub struct RamFraction {
    pub numerator: u32,
    pub denominator: u32,
}

impl RamFraction {
    /// One half of RAM.
    pub fn half() -> (r: Self)
        ensures
            r == (RamFraction { numerator: 1, denominator: 2 }),
    {
        RamFraction { numerator: 1, denominator: 2 }
    }

    pub fn new(numerator: u32, denominator: u32) -> (r: Self)
        ensures
            r == (RamFraction { numerator, denominator }),
    {
        RamFraction { numerator, denominator }
    }

    /// `ram_bytes * numerator / denominator`, rounded down.
    pub fn bytes(self, ram_bytes: u64) -> (r: Result<u64, SwapResolveError>)
        ensures
            r == fraction_bytes(self, ram_bytes as int),
    {
        if self.numerator == 0 || self.denominator == 0 {
            return Err(
                SwapResolveError::InvalidFraction {
                    numerator: self.numerator,
                    denominator: self.denominator,
                },
            );
        }
        let num = self.numerator as u64;
        if ram_bytes > u64::MAX / num {
            proof {
                assert(ram_bytes * num > u64::MAX) by (nonlinear_arith)
                    requires
                        ram_bytes > u64::MAX / num,
                        num > 0,
                ;
            }
            return Err(SwapResolveError::SizeOverflow);
        }
        proof {
            assert(ram_bytes * num <= u64::MAX) by (nonlinear_arith)
                requires
                    ram_bytes <= u64::MAX / num,
                    num > 0,
            ;
        }
        let bytes = ram_bytes * num / (self.denominator as u64);
        if bytes == 0 {
            return Err(SwapResolveError::SizeOverflow);
        }
        Ok(bytes)
    }
}

impl Default for RamFraction {
    fn default() -> (r: Self)
        ensures
            r == (RamFraction { numerator: 1, denominator: 2 }),
    {
        RamFraction::half()
    }
}

/// The zram size for a fraction of `ram` bytes. A product beyond `u64` and a
/// size that rounds down to zero are both reported as overflow.
pub open spec fn fraction_bytes(f: RamFraction, ram: int) -> Result<u64, SwapResolveError> {
    if f.numerator == 0 || f.denominator == 0 {
        Err(SwapResolveError::InvalidFraction { numerator: f.numerator, denominator: f.denominator })
    } else if ram * f.numerator > u64::MAX {
        Err(SwapResolveError::SizeOverflow)
    } else if (ram * f.numerator) / (f.denominator as int) == 0 {
        Err(SwapResolveError::SizeOverflow)
    } else {
        Ok(((ram * f.numerator) / (f.denominator as int)) as u64)
    }
}

#[derive(Debug, Clone, Copy, PartialEq, Eq, Structural)]
pub struct ResolvedZram {
    pub size: u64,
    pub algorithm: Compression,
    pub priority: i16,
}

#[derive(Debug, Clone, Copy, PartialEq, Eq, Structural)]
pub struct ResolvedDiskSwap {
    pub size: u64,
    pub priority: i16,
}

/// Concrete swap devices for one machine.
#[derive(Debug, Clone, Copy, PartialEq, Eq, Structural)]
pub struct ResolvedSwap {
    pub zram: Option<ResolvedZram>,
    pub disk: Option<ResolvedDiskSwap>,
    pub swappiness: u16,
}

#[derive(Debug, Clone, Copy, PartialEq, Eq, Structural)]
pub enum SwapResolveError {
    /// `vm.swappiness` above 200.
    InvalidSwappiness(u16),
    /// A RAM fraction with a zero numerator or denominator.
    InvalidFraction { numerator: u32, denominator: u32 },
    /// A swap size of zero, or zero RAM.
    ZeroSize,
    /// A size that overflowed `u64` (or rounded down to nothing).
    SizeOverflow,
    /// The retired swapfile configuration.
    LegacySwapFile,
    /// Both a top-level policy and a legacy partition-table swap declaration.
    ConflictingLegacyPolicy,
}

pub open spec fn swap_error_text(e: SwapResolveError) -> Seq<char> {
    match e {
        SwapResolveError::InvalidSwappiness(v) => "vm.swappiness must be between 0 and 200 (got "@
            + crate::text::decimal(v as nat) + ")"@,
        SwapResolveError::InvalidFraction { numerator, denominator } =>
            "RAM fraction must have non-zero numerator and denominator (got "@ + crate::text::decimal(
            numerator as nat,
        ) + "/"@ + crate::text::decimal(denominator as nat) + ")"@,
        SwapResolveError::ZeroSize => "swap size must be greater than zero"@,
        SwapResolveError::SizeOverflow => "swap size overflowed u64"@,
        SwapResolveError::LegacySwapFile =>
            "legacy swapfile configuration is not supported; choose disk partition, hybrid, zram-only, or disabled"@,
        SwapResolveError::ConflictingLegacyPolicy =>
            "top-level swap policy and legacy disk.partitions.swap cannot both be configured"@,
    }
}

impl SwapResolveError {
    /// The human-readable error message.
    pub fn message(&self) -> (r: String)
        ensures
            r@ == swap_error_text(*self),
    {
        let mut v: Vec<char> = Vec::new();
        match self {
            SwapResolveError::InvalidSwappiness(x) => {
                crate::text::push_str(&mut v, "vm.swappiness must be between 0 and 200 (got ");
                crate::text::push_decimal(&mut v, *x as u64);
                crate::text::push_str(&mut v, ")");
            },
            SwapResolveError::InvalidFraction { numerator, denominator } => {
                crate::text::push_str(
                    &mut v,
                    "RAM fraction must have non-zero numerator and denominator (got ",
                );
                crate::text::push_decimal(&mut v, *numerator as u64);
                crate::text::push_str(&mut v, "/");
                crate::text::push_decimal(&mut v, *denominator as u64);
                crate::text::push_str(&mut v, ")");
            },
            SwapResolveError::ZeroSize => {
                crate::text::push_str(&mut v, "swap size must be greater than zero");
            },
            SwapResolveError::SizeOverflow => {
                crate::text::push_str(&mut v, "swap size overflowed u64");
            },
            SwapResolveError::LegacySwapFile => {
                crate::text::push_str(
                    &mut v,
                    "legacy swapfile configuration is not supported; choose disk partition, hybrid, zram-only, or disabled",
                );
            },
            SwapResolveError::ConflictingLegacyPolicy => {
                crate::text::push_str(
                    &mut v,
                    "top-level swap policy and legacy disk.partitions.swap cannot both be configured",
                );
            },
        }
        crate::text::string_of(&v)
    }
}

pub open spec fn size_for(size: SwapSize, ram: u64) -> Result<u64, SwapResolveError> {
    match size {
        SwapSize::MatchRam => Ok(ram),
        SwapSize::Fixed(b) => if b == 0 {
            Err(SwapResolveError::ZeroSize)
        } else {
            Ok(b)
        },
    }
}

pub open spec fn disk_swap_for(size: SwapSize, ram: u64) -> Result<ResolvedDiskSwap, SwapResolveError> {
    match size_for(size, ram) {
        Ok(b) => Ok(ResolvedDiskSwap { size: b, priority: DISK_SWAP_PRIORITY }),
        Err(e) => Err(e),
    }
}

pub open spec fn zram_for(options: ZramOptions, ram: u64) -> Result<ResolvedZram, SwapResolveError> {
    match fraction_bytes(options.fraction, ram as int) {
        Ok(b) => Ok(ResolvedZram { size: b, algorithm: options.algorithm, priority: ZRAM_SWAP_PRIORITY }),
        Err(e) => Err(e),
    }
}

/// The swap devices `swap` asks for on a machine with `ram` bytes of RAM.
pub open spec fn resolved_swap_spec(swap: Swap, ram: u64) -> Result<ResolvedSwap, SwapResolveError> {
    if swap.swappiness > MAX_SWAPPINESS {
        Err(SwapResolveError::InvalidSwappiness(swap.swappiness))
    } else if ram == 0 {
        Err(SwapResolveError::ZeroSize)
    } else {
        match swap.strategy {
            SwapStrategy::Disk { size } => match disk_swap_for(size, ram) {
                Ok(d) => Ok(ResolvedSwap { zram: None, disk: Some(d), swappiness: swap.swappiness }),
                Err(e) => Err(e),
            },
            SwapStrategy::Hybrid { zram, disk } => match zram_for(zram, ram) {
                Ok(z) => match disk_swap_for(disk.size, ram) {
                    Ok(d) => Ok(ResolvedSwap { zram: Some(z), disk: Some(d), swappiness: swap.swappiness }),
                    Err(e) => Err(e),
                },
                Err(e) => Err(e),
            },
            SwapStrategy::ZramOnly { algorithm, fraction } => match zram_for(
                ZramOptions { algorithm, fraction },
                ram,
            ) {
                Ok(z) => Ok(ResolvedSwap { zram: Some(z), disk: None, swappiness: swap.swappiness }),
                Err(e) => Err(e),
            },
            SwapStrategy::Disabled => Ok(ResolvedSwap { zram: None, disk: None, swappiness: swap.swappiness }),
        }
    }
}

fn resolve_size(size: SwapSize, ram_bytes: u64) -> (r: Result<u64, SwapResolveError>)
    ensures
        r == size_for(size, ram_bytes),
{
    match size {
        SwapSize::MatchRam => Ok(ram_bytes),
        SwapSize::Fixed(bytes) => if bytes == 0 {
            Err(SwapResolveError::ZeroSize)
        } else {
            Ok(bytes)
        },
    }
}

fn resolve_disk(size: SwapSize, ram_bytes: u64) -> (r: Result<ResolvedDiskSwap, SwapResolveError>)
    ensures
        r == disk_swap_for(size, ram_bytes),
{
    match resolve_size(size, ram_bytes) {
        Ok(size) => Ok(ResolvedDiskSwap { size, priority: DISK_SWAP_PRIORITY }),
        Err(e) => Err(e),
    }
}

fn resolve_zram(options: ZramOptions, ram_bytes: u64) -> (r: Result<ResolvedZram, SwapResolveError>)
    ensures
        r == zram_for(options, ram_bytes),
{
    match options.fraction.bytes(ram_bytes) {
        Ok(size) => Ok(ResolvedZram { size, algorithm: options.algorithm, priority: ZRAM_SWAP_PRIORITY }),
        Err(e) => Err(e),
    }
}

/// Resolves a swap policy against the machine's RAM.
pub fn resolve_swap_for_ram(swap: &Swap, ram_bytes: u64) -> (r: Result<ResolvedSwap, SwapResolveError>)
    ensures
        r == resolved_swap_spec(*swap, ram_bytes),
{
    if swap.swappiness > MAX_SWAPPINESS {
        return Err(SwapResolveError::InvalidSwappiness(swap.swappiness));
    }
    if ram_bytes == 0 {
        return Err(SwapResolveError::ZeroSize);
    }
    match swap.strategy {
        SwapStrategy::Disk { size } => {
            let d = resolve_disk(size, ram_bytes)?;
            Ok(ResolvedSwap { zram: None, disk: Some(d), swappiness: swap.swappiness })
        },
        SwapStrategy::Hybrid { zram, disk } => {
            let z = resolve_zram(zram, ram_bytes)?;
            let d = resolve_disk(disk.size, ram_bytes)?;
            Ok(ResolvedSwap { zram: Some(z), disk: Some(d), swappiness: swap.swappiness })
        },
        SwapStrategy::ZramOnly { algorithm, fraction } => {
            let z = resolve_zram(ZramOptions { algorithm, fraction }, ram_bytes)?;
            Ok(ResolvedSwap { zram: Some(z), disk: None, swappiness: swap.swappiness })
        },
        SwapStrategy::Disabled => Ok(ResolvedSwap { zram: None, disk: None, swappiness: swap.swappiness }),
    }
}

/// The swap a manifest asks for, honouring the legacy partition-table
/// declaration when the top-level policy is left at its default.
pub open spec fn manifest_swap_spec(legacy: SwapConfig, swap: Swap, ram: u64) -> Result<ResolvedSwap, SwapResolveError> {
    if legacy != SwapConfig::Unspecified && swap != Swap::default_spec() {
        Err(SwapResolveError::ConflictingLegacyPolicy)
    } else {
        match legacy {
            SwapConfig::Unspecified => resolved_swap_spec(swap, ram),
            SwapConfig::Partition { size } => resolved_swap_spec(
                Swap { strategy: SwapStrategy::Disk { size: SwapSize::Fixed(size) }, swappiness: swap.swappiness },
                ram,
            ),
            SwapConfig::Zram { size } => if swap.swappiness > MAX_SWAPPINESS {
                Err(SwapResolveError::InvalidSwappiness(swap.swappiness))
            } else if size == 0 {
                Err(SwapResolveError::ZeroSize)
            } else {
                Ok(
                    ResolvedSwap {
                        zram: Some(ResolvedZram { size, algorithm: Compression::Zstd, priority: ZRAM_SWAP_PRIORITY }),
                        disk: None,
                        swappiness: swap.swappiness,
                    },
                )
            },
            SwapConfig::Disabled => resolved_swap_spec(
                Swap { strategy: SwapStrategy::Disabled, swappiness: swap.swappiness },
                ram,
            ),
            SwapConfig::File { .. } => Err(SwapResolveError::LegacySwapFile),
        }
    }
}

/// The package that provides the zram init service.
pub open spec fn zram_init_atom() -> Seq<char> {
    "sys-block/zram-init"@
}

/// Resolves a swap policy given both its top-level form and the legacy
/// partition-table declaration, for a machine with `ram_bytes` of RAM.
pub fn resolve_manifest_swap(legacy: SwapConfig, swap: Swap, ram_bytes: u64) -> (r: Result<ResolvedSwap, SwapResolveError>)
    ensures
        r == manifest_swap_spec(legacy, swap, ram_bytes),
{
    if !legacy.is_unspecified() && swap != Swap::default() {
        return Err(SwapResolveError::ConflictingLegacyPolicy);
    }
    match legacy {
        SwapConfig::Unspecified => resolve_swap_for_ram(&swap, ram_bytes),
        SwapConfig::Partition { size } => resolve_swap_for_ram(
            &Swap { strategy: SwapStrategy::Disk { size: SwapSize::Fixed(size) }, swappiness: swap.swappiness },
            ram_bytes,
        ),
        SwapConfig::Zram { size } => {
            if swap.swappiness > MAX_SWAPPINESS {
                return Err(SwapResolveError::InvalidSwappiness(swap.swappiness));
            }
            if size == 0 {
                return Err(SwapResolveError::ZeroSize);
            }
            Ok(
                ResolvedSwap {
                    zram: Some(ResolvedZram { size, algorithm: Compression::Zstd, priority: ZRAM_SWAP_PRIORITY }),
                    disk: None,
                    swappiness: swap.swappiness,
                },
            )
        },
        SwapConfig::Disabled => resolve_swap_for_ram(
            &Swap { strategy: SwapStrategy::Disabled, swappiness: swap.swappiness },
            ram_bytes,
        ),
        SwapConfig::File { .. } => Err(SwapResolveError::LegacySwapFile),
    }
}

impl SystemManifest {
    /// Resolves the manifest's swap policy for a machine with `ram_bytes` of
    /// RAM.
    pub fn resolved_swap_for_ram(&self, ram_bytes: u64) -> (r: Result<ResolvedSwap, SwapResolveError>)
        ensures
            r == manifest_swap_spec(self.disk.partitions.swap, self.swap, ram_bytes),
    {
        resolve_manifest_swap(self.disk.partitions.swap, self.swap, ram_bytes)
    }
}

/// Some package of `ps` is exactly `atom`.
pub open spec fn has_package(ps: Seq<Package>, atom: Seq<char>) -> bool {
    exists|i: int| 0 <= i < ps.len() && ps[i].package@ == atom
}

/// `ps` extended with a plain request for `atom`.
pub open spec fn is_plain_request(p: Package, atom: Seq<char>) -> bool {
    &&& p.package@ == atom
    &&& p.version is None
    &&& p.use_flags@.len() == 0
    &&& p.keywords@.len() == 0
    &&& p.accept_licenses@.len() == 0
    &&& !p.binary
    &&& !p.from_source
}

/// The index of a package named exactly `atom`, if any.
pub fn find_package(ps: &Vec<Package>, atom: &str) -> (r: bool)
    ensures
        r == has_package(ps@, atom@),
{
    let mut i: usize = 0;
    while i < ps.len()
        invariant
            i <= ps.len(),
            forall|k: int| 0 <= k < i ==> ps@[k].package@ != atom@,
        decreases ps.len() - i,
    {
        if str_eq(ps[i].package.as_str(), atom) {
            return true;
        }
        i = i + 1;
    }
    false
}

impl ResolvedSwap {
    /// The manifest with `sys-block/zram-init` added when zram is in use and
    /// the package is not already declared; everything else is unchanged.
    pub fn materialize_manifest(&self, manifest: SystemManifest) -> (r: SystemManifest)
        ensures
            r == (SystemManifest { packages: r.packages, ..manifest }),
            if self.zram is Some && !has_package(manifest.packages@, zram_init_atom()) {
                &&& r.packages@.len() == manifest.packages@.len() + 1
                &&& r.packages@.subrange(0, manifest.packages@.len() as int) == manifest.packages@
                &&& is_plain_request(r.packages@.last(), zram_init_atom())
            } else {
                r.packages@ == manifest.packages@
            },
    {
        let mut result = manifest;
        if self.zram.is_some() && !find_package(&result.packages, "sys-block/zram-init") {
            result.packages.push(Package::new("sys-block/zram-init"));
        }
        result
    }
}

/// Zram, when present together with disk swap, has the higher priority.
pub open spec fn zram_first(r: ResolvedSwap) -> bool {
    (r.zram is Some && r.disk is Some) ==> r.zram->Some_0.priority > r.disk->Some_0.priority
}

/// When a policy yields both a zram device and a disk swap device, zram is
/// used first: its priority is strictly higher.
pub proof fn lemma_zram_preferred_over_disk(swap: Swap, ram: u64)
    ensures
        resolved_swap_spec(swap, ram) is Ok ==> zram_first(resolved_swap_spec(swap, ram)->Ok_0),
{
    if swap.swappiness <= MAX_SWAPPINESS && ram != 0 {
        match swap.strategy {
            SwapStrategy::Hybrid { zram, disk } => {
                match zram_for(zram, ram) {
                    Ok(z) => {
                        assert(z.priority == ZRAM_SWAP_PRIORITY);
                        match disk_swap_for(disk.size, ram) {
                            Ok(d) => {
                                assert(d.priority == DISK_SWAP_PRIORITY);
                            },
                            Err(_) => {},
                        }
                    },
                    Err(_) => {},
                }
            },
            _ => {},
        }
    }
}

/// A resolved policy keeps the declared swappiness.
pub proof fn lemma_swappiness_kept(swap: Swap, ram: u64)
    ensures
        resolved_swap_spec(swap, ram) matches Ok(r) ==> r.swappiness == swap.swappiness,
{
}

/// A swap policy resolves exactly when its swappiness is at most 200, the
/// RAM is non-zero, and every device it asks for has a non-zero size that
/// fits in `u64`.
pub proof fn lemma_swap_resolves_iff(swap: Swap, ram: u64)
    ensures
        resolved_swap_spec(swap, ram) is Ok <==> {
            &&& swap.swappiness <= MAX_SWAPPINESS
            &&& ram > 0
            &&& match swap.strategy {
                SwapStrategy::Disk { size } => size_for(size, ram) is Ok,
                SwapStrategy::Hybrid { zram, disk } => fraction_bytes(zram.fraction, ram as int) is Ok
                    && size_for(disk.size, ram) is Ok,
                SwapStrategy::ZramOnly { fraction, .. } => fraction_bytes(fraction, ram as int) is Ok,
                SwapStrategy::Disabled => true,
            }
        },
{
}

/// A disk swap device has the size that was asked for: as many bytes as the
/// machine has RAM for a size matching RAM, and exactly `n` bytes for a fixed
/// size `n`. A fixed size of zero is refused, and any other fixed size
/// resolves whenever the swappiness is valid and the RAM is known.
pub proof fn lemma_disk_swap_has_requested_size(swap: Swap, ram: u64)
    ensures
        match swap.strategy {
            SwapStrategy::Disk { size } => {
                &&& resolved_swap_spec(swap, ram) matches Ok(r) ==> r.disk is Some && r.disk->Some_0.size
                    == match size {
                    SwapSize::MatchRam => ram,
                    SwapSize::Fixed(n) => n,
                }
                &&& (swap.swappiness <= 200 && ram > 0 && size != SwapSize::Fixed(0))
                    ==> resolved_swap_spec(swap, ram) is Ok
                &&& size == SwapSize::Fixed(0) ==> resolved_swap_spec(swap, ram) is Err
            },
            SwapStrategy::Hybrid { disk, .. } => resolved_swap_spec(swap, ram) matches Ok(r) ==> r.disk
                is Some && r.disk->Some_0.size == match disk.size {
                SwapSize::MatchRam => ram,
                SwapSize::Fixed(n) => n,
            },
            _ => resolved_swap_spec(swap, ram) matches Ok(r) ==> r.disk is None,
        },
{
    assert(MAX_SWAPPINESS == 200);
}

/// A zram device sized from a fraction holds exactly
/// `floor(ram * numerator / denominator)` bytes, which never exceeds
/// `ram * numerator`.
pub proof fn lemma_zram_size_is_fraction(options: ZramOptions, ram: u64)
    ensures
        zram_for(options, ram) matches Ok(z) ==> z.size * options.fraction.denominator
            <= ram * options.fraction.numerator,
{
    if let Ok(z) = zram_for(options, ram) {
        let p = ram * options.fraction.numerator;
        let d = options.fraction.denominator as int;
        assert((p / d) * d <= p) by (nonlinear_arith)
            requires
                d > 0,
                p >= 0,
        ;
    }
}

} // verus!
