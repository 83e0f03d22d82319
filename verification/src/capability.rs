//! What a device can do.

use vstd::prelude::*;

verus! {

/// The capabilities of a device: CAN, UART, signal generator.
#[derive(Debug, Clone, Copy, PartialEq, Eq, Structural)]
pub struct CapabilitySet {
    pub can: bool,
    pub uart: bool,
    pub gen: bool,
}

impl CapabilitySet {
    /// No capability.
    #[verifier::allow_in_spec]
    pub fn none() -> Self
        returns
            (CapabilitySet { can: false, uart: false, gen: false }),
    {
        CapabilitySet { can: false, uart: false, gen: false }
    }

    /// CAN alone.
    #[verifier::allow_in_spec]
    pub fn can_only() -> Self
        returns
            (CapabilitySet { can: true, uart: false, gen: false }),
    {
        CapabilitySet { can: true, uart: false, gen: false }
    }

    /// Every capability.
    #[verifier::allow_in_spec]
    pub fn all() -> Self
        returns
            (CapabilitySet { can: true, uart: true, gen: true }),
    {
        CapabilitySet { can: true, uart: true, gen: true }
    }
}

impl Default for CapabilitySet {
    fn default() -> (c: Self)
        ensures
            c == CapabilitySet::none(),
    {
        CapabilitySet::none()
    }
}

} // verus!
