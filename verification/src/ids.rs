//! Identifier types and table capacities shared across the kernel.
use vstd::prelude::*;

verus! {

/// Maximum number of compositor surfaces alive at once.
pub const MAX_SURFACES: usize = 32;

/// Compositor surface identifier. `0` is the reserved "none" value; real
/// identifiers start at `1` and are never reused.
#[derive(Debug, Clone, Copy, PartialEq, Eq, Structural)]
pub struct SurfaceId(pub u64);

impl SurfaceId {
    /// The reserved "no surface" identifier.
    pub fn none() -> (r: SurfaceId)
        ensures
            r.0 == 0,
    {
        SurfaceId(0)
    }

    pub open spec fn spec_is_none(self) -> bool {
        self.0 == 0
    }

    /// True for the reserved "none" identifier.
    #[verifier::when_used_as_spec(spec_is_none)]
    pub fn is_none(self) -> (r: bool)
        ensures
            r == self.spec_is_none(),
    {
        self.0 == 0
    }
}

/// Process identifier (index into the process table).
#[derive(Debug, Clone, Copy, PartialEq, Eq, Structural)]
pub struct ProcessId(pub u32);

/// Thread identifier (index into the thread table).
#[derive(Debug, Clone, Copy, PartialEq, Eq, Structural)]
pub struct ThreadId(pub u32);

/// IPC channel identifier (index into the channel table).
#[derive(Debug, Clone, Copy, PartialEq, Eq, Structural)]
pub struct ChannelId(pub u32);

/// Shared-memory region identifier (index into the region table).
#[derive(Debug, Clone, Copy, PartialEq, Eq, Structural)]
pub struct SharedMemoryId(pub u32);

/// Notification object identifier (index into the notification table).
#[derive(Debug, Clone, Copy, PartialEq, Eq, Structural)]
pub struct NotificationId(pub u32);

/// Capability token identifier; `0` is never handed out.
#[derive(Debug, Clone, Copy, PartialEq, Eq, Structural)]
pub struct CapabilityTokenId(pub u64);

/// The compositor's own process: it owns the desktop-shell surfaces.
pub const COMPOSITOR_PID: u32 = 10;

} // verus!
