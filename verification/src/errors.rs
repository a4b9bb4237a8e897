//! The error taxonomy of the library.

use vstd::prelude::*;

verus! {

/// Hard failures a caller can see.  Missing or malformed telemetry fields
/// never raise one of these: they degrade to unknown values instead.
#[derive(Debug, Clone, Copy, PartialEq, Eq, Structural)]
pub enum BatteryError {
    /// No battery device was found (attribute-file platform only).
    NoBatteryFound,
    /// A telemetry helper process could not be run.
    SourceUnavailable,
    /// A required, non-degradable field was malformed.
    ParseError,
    /// The history store failed to open, write, or answer a query.
    StorageError,
    /// A malformed duration string.
    InvalidFormat,
}

} // verus!
