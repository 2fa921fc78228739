//! Safety mode controller: protection against accidental destructive actions.

use vstd::prelude::*;

use crate::text::{owned, push_str};

verus! {

/// Safety mode for the application.
#[derive(Debug, Clone, Copy, PartialEq, Eq, Hash, Structural)]
pub enum SafetyMode {
    /// Normal operation - all actions allowed
    Normal,
    /// Read-only mode - no changes can be made
    ReadOnly,
    /// Stage mode - read-only + routing lock + quick panic access
    Stage,
}

impl Default for SafetyMode {
    fn default() -> (r: Self)
        ensures
            r == SafetyMode::Normal,
    {
        SafetyMode::Normal
    }
}

impl SafetyMode {
    /// Returns true if routing changes are allowed (only in normal mode).
    pub fn allows_routing(&self) -> (r: bool)
        ensures
            r == (*self == SafetyMode::Normal),
    {
        match self {
            SafetyMode::Normal => true,
            _ => false,
        }
    }

    /// Returns true if volume changes are allowed (only in normal mode).
    pub fn allows_volume(&self) -> (r: bool)
        ensures
            r == (*self == SafetyMode::Normal),
    {
        match self {
            SafetyMode::Normal => true,
            _ => false,
        }
    }

    /// The display name of a mode.
    pub open spec fn spec_display_name(self) -> Seq<char> {
        match self {
            SafetyMode::Normal => "Normal"@,
            SafetyMode::ReadOnly => "Read-Only"@,
            SafetyMode::Stage => "Stage"@,
        }
    }

    /// The short indicator of a mode.
    pub open spec fn spec_indicator(self) -> Seq<char> {
        match self {
            SafetyMode::Normal => ""@,
            SafetyMode::ReadOnly => "RO"@,
            SafetyMode::Stage => "STAGE"@,
        }
    }

    /// Returns the display name for this mode.
    pub fn display_name(&self) -> (r: &'static str)
        ensures
            r@ == self.spec_display_name(),
    {
        match self {
            SafetyMode::Normal => "Normal",
            SafetyMode::ReadOnly => "Read-Only",
            SafetyMode::Stage => "Stage",
        }
    }

    /// Returns a short indicator string for the mode.
    pub fn indicator(&self) -> (r: &'static str)
        ensures
            r@ == self.spec_indicator(),
    {
        match self {
            SafetyMode::Normal => "",
            SafetyMode::ReadOnly => "RO",
            SafetyMode::Stage => "STAGE",
        }
    }
}

/// Result of attempting an action under safety constraints.
#[derive(Debug, Clone, PartialEq, Eq)]
pub enum SafetyCheckResult {
    /// Action is allowed
    Allowed,
    /// Action is blocked with a reason
    Blocked(String),
}

impl SafetyCheckResult {
    /// Returns true if the action is allowed.
    pub fn is_allowed(&self) -> (r: bool)
        ensures
            r == (*self is Allowed),
    {
        match self {
            SafetyCheckResult::Allowed => true,
            SafetyCheckResult::Blocked(_) => false,
        }
    }
}

/// Controller for safety features.
#[derive(Debug, Clone, Copy, PartialEq, Eq, Structural)]
pub struct SafetyController {
    /// Current safety mode
    pub mode: SafetyMode,
}

impl Default for SafetyController {
    fn default() -> (r: Self)
        ensures
            r.mode == SafetyMode::Normal,
    {
        SafetyController { mode: SafetyMode::Normal }
    }
}

/// The reason given when routing is blocked in a mode.
pub open spec fn routing_blocked_reason(mode: SafetyMode) -> Seq<char> {
    "Routing changes blocked in "@ + mode.spec_display_name() + " mode"@
}

/// The reason given when volume changes are blocked in a mode.
pub open spec fn volume_blocked_reason(mode: SafetyMode) -> Seq<char> {
    "Volume changes blocked in "@ + mode.spec_display_name() + " mode"@
}

/// What a routing check answers in a mode.
pub open spec fn routing_check_outcome(mode: SafetyMode, r: SafetyCheckResult) -> bool {
    match r {
        SafetyCheckResult::Allowed => mode == SafetyMode::Normal,
        SafetyCheckResult::Blocked(reason) => mode != SafetyMode::Normal && reason@ == routing_blocked_reason(mode),
    }
}

impl SafetyController {
    /// Sets the safety mode.
    pub fn set_mode(&mut self, mode: SafetyMode)
        ensures
            final(self).mode == mode,
    {
        self.mode = mode;
    }

    /// Checks if a link creation is allowed: only in normal mode.
    pub fn check_create_link(&self) -> (r: SafetyCheckResult)
        ensures
            routing_check_outcome(self.mode, r),
    {
        if !self.mode.allows_routing() {
            let mut reason = owned("Routing changes blocked in ");
            push_str(&mut reason, self.mode.display_name());
            push_str(&mut reason, " mode");
            return SafetyCheckResult::Blocked(reason);
        }
        SafetyCheckResult::Allowed
    }

    /// Checks if a link removal is allowed (same rules as creation).
    pub fn check_remove_link(&self) -> (r: SafetyCheckResult)
        ensures
            routing_check_outcome(self.mode, r),
    {
        self.check_create_link()
    }

    /// Checks if a volume change is allowed: only in normal mode.
    pub fn check_volume_change(&self) -> (r: SafetyCheckResult)
        ensures
            match r {
                SafetyCheckResult::Allowed => self.mode == SafetyMode::Normal,
                SafetyCheckResult::Blocked(reason) => self.mode != SafetyMode::Normal
                    && reason@ == volume_blocked_reason(self.mode),
            },
    {
        if !self.mode.allows_volume() {
            let mut reason = owned("Volume changes blocked in ");
            push_str(&mut reason, self.mode.display_name());
            push_str(&mut reason, " mode");
            return SafetyCheckResult::Blocked(reason);
        }
        SafetyCheckResult::Allowed
    }

    /// Checks if a mute toggle is allowed: always, even in read-only mode.
    pub fn check_mute_toggle(&self) -> (r: SafetyCheckResult)
        ensures
            r is Allowed,
    {
        SafetyCheckResult::Allowed
    }

    /// Returns true if the UI should show safety indicators.
    pub fn should_show_indicator(&self) -> (r: bool)
        ensures
            r == (self.mode != SafetyMode::Normal),
    {
        self.mode != SafetyMode::Normal
    }

    /// Returns a summary of the current safety state: the mode's indicator.
    pub fn status_summary(&self) -> (r: String)
        ensures
            r@ == self.mode.spec_indicator(),
    {
        if self.mode != SafetyMode::Normal {
            owned(self.mode.indicator())
        } else {
            proof {
                reveal_strlit("");
            }
            String::new()
        }
    }
}

}
