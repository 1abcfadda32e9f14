use oxys::apply::{validate_swap_transition, SwapTransitionError};
use oxys::manifest::{Compression, ResolvedDiskSwap, ResolvedSwap, ResolvedZram, GB};

fn resolved_swap(zram: bool, disk: bool) -> ResolvedSwap {
    ResolvedSwap {
        zram: zram.then_some(ResolvedZram {
            size: 4 * GB,
            algorithm: Compression::Zstd,
            priority: 100,
        }),
        disk: disk.then_some(ResolvedDiskSwap {
            size: 4 * GB,
            priority: 10,
        }),
        swappiness: 180,
    }
}

#[test]
fn apply_rejects_disk_swap_without_a_trusted_current_layout() {
    let desired = resolved_swap(false, true);
    let error = validate_swap_transition(None, &desired).unwrap_err();
    assert!(matches!(error, SwapTransitionError::Unsupported(_)));
    let SwapTransitionError::Unsupported(message) = error;
    assert!(message.contains("existing Oxys manifest"));
}

#[test]
fn apply_requires_reboot_for_any_zram_transition() {
    let disabled = resolved_swap(false, false);
    let zram = resolved_swap(true, false);

    assert!(validate_swap_transition(Some(&disabled), &zram).unwrap());
    assert!(validate_swap_transition(Some(&zram), &disabled).unwrap());
    assert!(!validate_swap_transition(Some(&zram), &zram).unwrap());
}

#[test]
fn changing_disk_swap_needs_repartitioning() {
    let disk = resolved_swap(false, true);
    let none = resolved_swap(false, false);
    assert!(matches!(
        validate_swap_transition(Some(&none), &disk),
        Err(SwapTransitionError::Unsupported(ref m)) if m.contains("repartitioning")
    ));
    assert!(!validate_swap_transition(Some(&disk), &disk).unwrap());
}
