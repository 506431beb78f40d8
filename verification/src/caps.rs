//! The capability selector: which logical columns a stream decodes.
//!
//! A column whose capability is off is skipped — its raw bytes are passed
//! over to find the next delimiter, and no conversion or allocation is
//! done for it. The selector is fixed for the lifetime of one stream;
//! two streams over the same source may use different selectors.

use vstd::prelude::*;

verus! {

/// One flag per logical column. The FORMAT key list is bundled with the
/// sample block under `samples`.
#[derive(Clone, Copy, Debug, PartialEq, Eq, Structural)]
pub struct CapabilityMask {
    pub chromosome: bool,
    pub position: bool,
    pub id: bool,
    pub reference: bool,
    pub alternate: bool,
    pub quality: bool,
    pub filter: bool,
    pub info: bool,
    pub end: bool,
    pub samples: bool,
}

/// The mask that decodes every column.
pub open spec fn full_mask() -> CapabilityMask {
    CapabilityMask {
        chromosome: true,
        position: true,
        id: true,
        reference: true,
        alternate: true,
        quality: true,
        filter: true,
        info: true,
        end: true,
        samples: true,
    }
}

/// The mask that decodes no column.
pub open spec fn empty_mask() -> CapabilityMask {
    CapabilityMask {
        chromosome: false,
        position: false,
        id: false,
        reference: false,
        alternate: false,
        quality: false,
        filter: false,
        info: false,
        end: false,
        samples: false,
    }
}

impl CapabilityMask {
    /// Request every column.
    pub fn all() -> (r: Self)
        ensures
            r == full_mask(),
    {
        CapabilityMask {
            chromosome: true,
            position: true,
            id: true,
            reference: true,
            alternate: true,
            quality: true,
            filter: true,
            info: true,
            end: true,
            samples: true,
        }
    }

    /// Request no column.
    pub fn none() -> (r: Self)
        ensures
            r == empty_mask(),
    {
        CapabilityMask {
            chromosome: false,
            position: false,
            id: false,
            reference: false,
            alternate: false,
            quality: false,
            filter: false,
            info: false,
            end: false,
            samples: false,
        }
    }
}

} // verus!
