//! Decisions taken when a manifest is applied to the running system.
use vstd::prelude::*;

use crate::manifest::ResolvedSwap;

verus! {

/// Why a swap change cannot be applied to the running system.
#[derive(Debug, Clone, PartialEq, Eq)]
pub enum SwapTransitionError {
    /// The change needs a fresh install; the message says why.
    Unsupported(String),
}

pub open spec fn no_layout_message() -> Seq<char> {
    "disk-backed swap requires an existing Oxys manifest proving the partition layout; use oxys install system to repartition"@
}

pub open spec fn repartition_message() -> Seq<char> {
    "changing disk-backed swap requires repartitioning and is not supported by oxys apply"@
}

/// Whether moving from the applied swap policy (`current`, absent when no
/// manifest was applied before) to `desired` can be done in place, and if so
/// whether a reboot is needed to reconcile the zram device.
///
/// Disk-backed swap is only accepted unchanged from an applied manifest that
/// proves the partition layout; any zram change needs a reboot.
pub fn validate_swap_transition(current: Option<&ResolvedSwap>, desired: &ResolvedSwap) -> (r: Result<
    bool,
    SwapTransitionError,
>)
    ensures
        match current {
            None => if desired.disk is Some {
                r matches Err(SwapTransitionError::Unsupported(m)) && m@ == no_layout_message()
            } else {
                r == Ok::<bool, SwapTransitionError>(desired.zram is Some)
            },
            Some(c) => if c.disk != desired.disk {
                r matches Err(SwapTransitionError::Unsupported(m)) && m@ == repartition_message()
            } else {
                r == Ok::<bool, SwapTransitionError>(c.zram != desired.zram)
            },
        },
{
    match current {
        None => {
            if desired.disk.is_some() {
                return Err(
                    SwapTransitionError::Unsupported(
                        "disk-backed swap requires an existing Oxys manifest proving the partition layout; use oxys install system to repartition".to_owned(),
                    ),
                );
            }
            Ok(desired.zram.is_some())
        },
        Some(c) => {
            if c.disk != desired.disk {
                return Err(
                    SwapTransitionError::Unsupported(
                        "changing disk-backed swap requires repartitioning and is not supported by oxys apply".to_owned(),
                    ),
                );
            }
            Ok(c.zram != desired.zram)
        },
    }
}

} // verus!
