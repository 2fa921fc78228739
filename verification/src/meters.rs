//! Settings of the signal-level meters.

use vstd::prelude::*;

verus! {

/// Configuration for meter collection.
#[derive(Debug, Clone, Copy, PartialEq, Eq, Structural)]
pub struct MeterConfig {
    /// Whether metering is enabled
    pub enabled: bool,
    /// Refresh rate in Hz
    pub refresh_rate: u32,
    /// Channel buffer size
    pub buffer_size: usize,
}

impl Default for MeterConfig {
    /// Metering on, 30 updates a second, room for 4 pending batches.
    fn default() -> (r: Self)
        ensures
            r == (MeterConfig { enabled: true, refresh_rate: 30, buffer_size: 4 }),
    {
        MeterConfig { enabled: true, refresh_rate: 30, buffer_size: 4 }
    }
}

}
