//! Checking commands for the PipeWire thread against the safety mode.

use vstd::prelude::*;

use crate::ids::{LinkId, NodeId, PortId, opt_view};
use crate::safety::{SafetyCheckResult, SafetyController, SafetyMode, routing_blocked_reason, volume_blocked_reason};
use crate::text::{owned, push_str};

verus! {

/// Errors that can occur when executing commands.
#[derive(Debug, Clone, PartialEq, Eq)]
pub enum CommandError {
    /// Command was blocked by the safety controller.
    SafetyBlocked(String),
    /// The command was invalid or could not be sent.
    InvalidOperation(String),
}

impl CommandError {
    /// The text of the error.
    pub open spec fn text(&self) -> Seq<char> {
        match self {
            CommandError::SafetyBlocked(r) => "Command blocked by safety mode: "@ + r@,
            CommandError::InvalidOperation(r) => "Invalid operation: "@ + r@,
        }
    }

    /// Returns the text of the error.
    pub fn message(&self) -> (r: String)
        ensures
            r@ == self.text(),
    {
        match self {
            CommandError::SafetyBlocked(reason) => {
                let mut s = owned("Command blocked by safety mode: ");
                push_str(&mut s, reason.as_str());
                s
            },
            CommandError::InvalidOperation(reason) => {
                let mut s = owned("Invalid operation: ");
                push_str(&mut s, reason.as_str());
                s
            },
        }
    }
}

/// The kinds of command that can be sent to the PipeWire thread.
#[derive(Debug, Clone, Copy, PartialEq, Eq, Structural)]
pub enum CommandKind {
    /// Create a link between two ports
    CreateLink,
    /// Remove an existing link
    RemoveLink,
    /// Enable or disable a link
    ToggleLink,
    /// Set the volume of a node
    SetVolume,
    /// Set the mute state of a node
    SetMute,
    /// Set the volume of one channel of a node
    SetChannelVolume,
    /// Disconnect from PipeWire
    Disconnect,
    /// Start metering all audio nodes
    StartAllMeters,
    /// Stop all metering
    StopAllMeters,
}

/// What the safety rules answer a command of a kind in a mode: routing changes
/// (creating, removing and toggling links) and volume changes only in normal
/// mode, with the reason the mode gives; muting, disconnecting and metering always.
pub open spec fn validation_outcome(kind: CommandKind, mode: SafetyMode) -> Result<(), Seq<char>> {
    match kind {
        CommandKind::CreateLink | CommandKind::RemoveLink | CommandKind::ToggleLink => {
            if mode == SafetyMode::Normal { Ok(()) } else { Err(routing_blocked_reason(mode)) }
        },
        CommandKind::SetVolume | CommandKind::SetChannelVolume => {
            if mode == SafetyMode::Normal { Ok(()) } else { Err(volume_blocked_reason(mode)) }
        },
        CommandKind::SetMute | CommandKind::Disconnect | CommandKind::StartAllMeters | CommandKind::StopAllMeters => Ok(()),
    }
}

/// Whether a command kind changes the routing: creating, removing or toggling a link.
pub open spec fn is_routing_kind(kind: CommandKind) -> bool {
    kind is CreateLink || kind is RemoveLink || kind is ToggleLink
}

/// Routing changes go ahead exactly in normal mode; in read-only mode they are
/// refused with "Routing changes blocked in Read-Only mode", in stage mode with
/// "Routing changes blocked in Stage mode". Volume changes likewise go ahead
/// exactly in normal mode. Muting, disconnecting and metering go ahead in every
/// mode.
pub proof fn lemma_routing_needs_normal(kind: CommandKind, mode: SafetyMode)
    ensures
        is_routing_kind(kind) ==> (validation_outcome(kind, mode) is Ok <==> mode == SafetyMode::Normal),
        is_routing_kind(kind) && mode == SafetyMode::ReadOnly
            ==> validation_outcome(kind, mode) == Err::<(), Seq<char>>("Routing changes blocked in Read-Only mode"@),
        is_routing_kind(kind) && mode == SafetyMode::Stage
            ==> validation_outcome(kind, mode) == Err::<(), Seq<char>>("Routing changes blocked in Stage mode"@),
        (kind is SetMute || kind is Disconnect || kind is StartAllMeters || kind is StopAllMeters)
            ==> validation_outcome(kind, mode) is Ok,
        (kind is SetVolume || kind is SetChannelVolume) ==> (validation_outcome(kind, mode) is Ok <==> mode == SafetyMode::Normal),
{
    reveal_strlit("Routing changes blocked in ");
    reveal_strlit(" mode");
    reveal_strlit("Read-Only");
    reveal_strlit("Stage");
    reveal_strlit("Routing changes blocked in Read-Only mode");
    reveal_strlit("Routing changes blocked in Stage mode");
    assert("Routing changes blocked in "@ + "Read-Only"@ + " mode"@ =~= "Routing changes blocked in Read-Only mode"@);
    assert("Routing changes blocked in "@ + "Stage"@ + " mode"@ =~= "Routing changes blocked in Stage mode"@);
}

/// Validates a command of the given kind against the safety constraints; a
/// blocked command fails with the controller's reason. A routing change is
/// allowed exactly in normal mode.
pub fn validate(kind: CommandKind, safety: &SafetyController) -> (r: Result<(), CommandError>)
    ensures
        match validation_outcome(kind, safety.mode) {
            Ok(()) => r is Ok,
            Err(reason) => r matches Err(CommandError::SafetyBlocked(m)) && m@ == reason,
        },
        is_routing_kind(kind) ==> (r is Ok <==> safety.mode == SafetyMode::Normal),
        is_routing_kind(kind) && safety.mode == SafetyMode::ReadOnly
            ==> (r matches Err(CommandError::SafetyBlocked(m)) && m@ == "Routing changes blocked in Read-Only mode"@),
        is_routing_kind(kind) && safety.mode == SafetyMode::Stage
            ==> (r matches Err(CommandError::SafetyBlocked(m)) && m@ == "Routing changes blocked in Stage mode"@),
{
    proof {
        lemma_routing_needs_normal(kind, safety.mode);
    }
    let check = match kind {
        CommandKind::CreateLink => safety.check_create_link(),
        CommandKind::RemoveLink => safety.check_remove_link(),
        CommandKind::ToggleLink => safety.check_create_link(),
        CommandKind::SetVolume | CommandKind::SetChannelVolume => safety.check_volume_change(),
        CommandKind::SetMute => safety.check_mute_toggle(),
        CommandKind::Disconnect | CommandKind::StartAllMeters | CommandKind::StopAllMeters => SafetyCheckResult::Allowed,
    };
    match check {
        SafetyCheckResult::Allowed => Ok(()),
        SafetyCheckResult::Blocked(reason) => Err(CommandError::SafetyBlocked(reason)),
    }
}

/// Commands for the PipeWire thread that carry no audio levels (volume
/// commands are built by the application and checked by their kind).
#[derive(Debug, Clone, Copy, PartialEq, Eq, Structural)]
pub enum AppCommand {
    /// Create a link between two ports
    CreateLink {
        /// Source port ID.
        output_port: PortId,
        /// Destination port ID.
        input_port: PortId,
    },
    /// Remove an existing link
    RemoveLink(LinkId),
    /// Toggle link state (enable/disable)
    ToggleLink {
        /// Link to toggle.
        link_id: LinkId,
        /// New active state.
        active: bool,
    },
    /// Set mute state for a node
    SetMute {
        /// Target node.
        node_id: NodeId,
        /// Whether to mute.
        muted: bool,
    },
    /// Disconnect from PipeWire
    Disconnect,
    /// Start metering all audio nodes
    StartAllMeters,
    /// Stop all metering
    StopAllMeters,
}

impl AppCommand {
    /// The kind of the command.
    pub open spec fn spec_kind(self) -> CommandKind {
        match self {
            AppCommand::CreateLink { .. } => CommandKind::CreateLink,
            AppCommand::RemoveLink(_) => CommandKind::RemoveLink,
            AppCommand::ToggleLink { .. } => CommandKind::ToggleLink,
            AppCommand::SetMute { .. } => CommandKind::SetMute,
            AppCommand::Disconnect => CommandKind::Disconnect,
            AppCommand::StartAllMeters => CommandKind::StartAllMeters,
            AppCommand::StopAllMeters => CommandKind::StopAllMeters,
        }
    }

    /// Returns the kind of the command.
    pub fn kind(&self) -> (r: CommandKind)
        ensures
            r == self.spec_kind(),
    {
        match self {
            AppCommand::CreateLink { .. } => CommandKind::CreateLink,
            AppCommand::RemoveLink(_) => CommandKind::RemoveLink,
            AppCommand::ToggleLink { .. } => CommandKind::ToggleLink,
            AppCommand::SetMute { .. } => CommandKind::SetMute,
            AppCommand::Disconnect => CommandKind::Disconnect,
            AppCommand::StartAllMeters => CommandKind::StartAllMeters,
            AppCommand::StopAllMeters => CommandKind::StopAllMeters,
        }
    }

    /// Validates the command against safety constraints; a link creation,
    /// removal or toggle is allowed exactly in normal mode.
    pub fn validate(&self, safety: &SafetyController) -> (r: Result<(), CommandError>)
        ensures
            match validation_outcome(self.spec_kind(), safety.mode) {
                Ok(()) => r is Ok,
                Err(reason) => r matches Err(CommandError::SafetyBlocked(m)) && m@ == reason,
            },
            (*self is CreateLink || *self is RemoveLink || *self is ToggleLink)
                ==> (r is Ok <==> safety.mode == SafetyMode::Normal),
            (*self is CreateLink || *self is RemoveLink || *self is ToggleLink) && safety.mode == SafetyMode::ReadOnly
                ==> (r matches Err(CommandError::SafetyBlocked(m)) && m@ == "Routing changes blocked in Read-Only mode"@),
            (*self is CreateLink || *self is RemoveLink || *self is ToggleLink) && safety.mode == SafetyMode::Stage
                ==> (r matches Err(CommandError::SafetyBlocked(m)) && m@ == "Routing changes blocked in Stage mode"@),
    {
        validate(self.kind(), safety)
    }
}

/// Commands for the user interface. Node positions are measurements and are
/// set by the application directly.
#[derive(Debug, Clone)]
pub enum UiCommand {
    /// Select a node
    SelectNode(NodeId),
    /// Add node to selection
    AddToSelection(NodeId),
    /// Toggle node selection
    ToggleSelection(NodeId),
    /// Clear selection
    ClearSelection,
    /// Create a group from selected nodes
    CreateGroupFromSelection(Option<String>),
    /// Set safety mode
    SetSafetyMode(SafetyMode),
    /// Toggle uninteresting status for nodes
    ToggleUninteresting(Vec<NodeId>),
    /// Set custom display name for a node (None clears it)
    SetCustomName(NodeId, Option<String>),
}

/// The view of a user interface command: the same variants, with node lists
/// and names as sequences.
pub enum UiCommandView {
    /// Select a node.
    SelectNode(NodeId),
    /// Add a node to the selection.
    AddToSelection(NodeId),
    /// Toggle a node's selection.
    ToggleSelection(NodeId),
    /// Clear the selection.
    ClearSelection,
    /// Group the selection, with an optional name.
    CreateGroupFromSelection(Option<Seq<char>>),
    /// Set the safety mode.
    SetSafetyMode(SafetyMode),
    /// Toggle the uninteresting mark of the nodes.
    ToggleUninteresting(Seq<NodeId>),
    /// Set or clear a node's custom name.
    SetCustomName(NodeId, Option<Seq<char>>),
}

impl View for UiCommand {
    type V = UiCommandView;

    open spec fn view(&self) -> UiCommandView {
        match *self {
            UiCommand::SelectNode(id) => UiCommandView::SelectNode(id),
            UiCommand::AddToSelection(id) => UiCommandView::AddToSelection(id),
            UiCommand::ToggleSelection(id) => UiCommandView::ToggleSelection(id),
            UiCommand::ClearSelection => UiCommandView::ClearSelection,
            UiCommand::CreateGroupFromSelection(name) => UiCommandView::CreateGroupFromSelection(opt_view(name)),
            UiCommand::SetSafetyMode(mode) => UiCommandView::SetSafetyMode(mode),
            UiCommand::ToggleUninteresting(ids) => UiCommandView::ToggleUninteresting(ids@),
            UiCommand::SetCustomName(id, name) => UiCommandView::SetCustomName(id, opt_view(name)),
        }
    }
}

impl UiCommand {
    /// Copies the command.
    pub fn duplicate(&self) -> (r: UiCommand)
        ensures
            r@ == self@,
    {
        match self {
            UiCommand::SelectNode(id) => UiCommand::SelectNode(*id),
            UiCommand::AddToSelection(id) => UiCommand::AddToSelection(*id),
            UiCommand::ToggleSelection(id) => UiCommand::ToggleSelection(*id),
            UiCommand::ClearSelection => UiCommand::ClearSelection,
            UiCommand::CreateGroupFromSelection(name) => UiCommand::CreateGroupFromSelection(match name {
                Some(n) => Some(n.clone()),
                None => None,
            }),
            UiCommand::SetSafetyMode(mode) => UiCommand::SetSafetyMode(*mode),
            UiCommand::ToggleUninteresting(ids) => {
                let copy = ids.clone();
                proof {
                    assert(copy@ =~= ids@);
                }
                UiCommand::ToggleUninteresting(copy)
            },
            UiCommand::SetCustomName(id, name) => UiCommand::SetCustomName(*id, match name {
                Some(n) => Some(n.clone()),
                None => None,
            }),
        }
    }
}

/// Action associated with a command.
#[derive(Debug, Clone)]
pub enum CommandAction {
    /// Execute a UI command
    Ui(UiCommand),
    /// Custom action (identified by string)
    Custom(String),
}

/// An entry in the command registry.
#[derive(Debug, Clone)]
pub struct CommandEntry {
    /// Command name
    pub name: String,
    /// Description
    pub description: String,
    /// Keyboard shortcut (if any)
    pub shortcut: Option<String>,
    /// Action to execute
    pub action: CommandAction,
}

/// Registry of available commands for the command palette.
#[derive(Debug)]
pub struct CommandRegistry {
    /// Registered commands
    commands: Vec<CommandEntry>,
}

/// The entry has the name, description and shortcut.
pub open spec fn entry_labels(e: CommandEntry, name: Seq<char>, description: Seq<char>, shortcut: Option<Seq<char>>) -> bool {
    &&& e.name@ == name
    &&& e.description@ == description
    &&& match (e.shortcut, shortcut) {
        (Some(a), Some(b)) => a@ == b,
        (None, None) => true,
        _ => false,
    }
}

/// The entry runs the custom action with the name.
pub open spec fn custom_action(e: CommandEntry, name: Seq<char>) -> bool {
    match e.action {
        CommandAction::Custom(n) => n@ == name,
        _ => false,
    }
}

/// The default commands, in order: read-only mode, clearing the selection,
/// zooming in and out, resetting the view, and grouping the selection.
pub open spec fn default_entries(v: Seq<CommandEntry>) -> bool {
    &&& v.len() == 6
    &&& entry_labels(v[0], "Toggle Read-Only Mode"@, "Toggle read-only mode"@, None)
    &&& v[0].action matches CommandAction::Ui(UiCommand::SetSafetyMode(SafetyMode::ReadOnly))
    &&& entry_labels(v[1], "Clear Selection"@, "Deselect all nodes"@, Some("Escape"@))
    &&& v[1].action matches CommandAction::Ui(UiCommand::ClearSelection)
    &&& entry_labels(v[2], "Zoom In"@, "Increase zoom level"@, Some("Ctrl++"@))
    &&& custom_action(v[2], "zoom_in"@)
    &&& entry_labels(v[3], "Zoom Out"@, "Decrease zoom level"@, Some("Ctrl+-"@))
    &&& custom_action(v[3], "zoom_out"@)
    &&& entry_labels(v[4], "Reset View"@, "Reset zoom and pan"@, Some("Ctrl+0"@))
    &&& custom_action(v[4], "reset_view"@)
    &&& entry_labels(v[5], "Create Group"@, "Create a group from selected nodes"@, Some("Ctrl+G"@))
    &&& v[5].action matches CommandAction::Ui(UiCommand::CreateGroupFromSelection(None))
}

/// An entry with labels and an action.
fn entry(name: &str, description: &str, shortcut: Option<&str>, action: CommandAction) -> (e: CommandEntry)
    ensures
        e.name@ == name@,
        e.description@ == description@,
        match (e.shortcut, shortcut) {
            (Some(a), Some(b)) => a@ == b@,
            (None, None) => true,
            _ => false,
        },
        e.action == action,
{
    CommandEntry {
        name: owned(name),
        description: owned(description),
        shortcut: match shortcut {
            Some(s) => Some(owned(s)),
            None => None,
        },
        action,
    }
}

impl CommandRegistry {
    /// The registered commands.
    pub closed spec fn entries(&self) -> Seq<CommandEntry> {
        self.commands@
    }

    /// Creates a new command registry with the default commands.
    pub fn new() -> (r: Self)
        ensures
            default_entries(r.entries()),
    {
        let mut registry = CommandRegistry { commands: Vec::new() };
        registry.register_defaults();
        registry
    }

    /// Registers the default commands.
    fn register_defaults(&mut self)
        ensures
            final(self).commands@.len() == old(self).commands@.len() + 6,
            old(self).commands@.len() == 0 ==> default_entries(final(self).commands@),
    {
        let ghost start = self.commands@.len();
        self.register(entry("Toggle Read-Only Mode", "Toggle read-only mode", None,
            CommandAction::Ui(UiCommand::SetSafetyMode(SafetyMode::ReadOnly))));
        self.register(entry("Clear Selection", "Deselect all nodes", Some("Escape"),
            CommandAction::Ui(UiCommand::ClearSelection)));
        self.register(entry("Zoom In", "Increase zoom level", Some("Ctrl++"), CommandAction::Custom(owned("zoom_in"))));
        self.register(entry("Zoom Out", "Decrease zoom level", Some("Ctrl+-"), CommandAction::Custom(owned("zoom_out"))));
        self.register(entry("Reset View", "Reset zoom and pan", Some("Ctrl+0"), CommandAction::Custom(owned("reset_view"))));
        self.register(entry("Create Group", "Create a group from selected nodes", Some("Ctrl+G"),
            CommandAction::Ui(UiCommand::CreateGroupFromSelection(None))));
    }

    /// Registers a command at the end.
    fn register(&mut self, entry: CommandEntry)
        ensures
            final(self).commands@ == old(self).commands@.push(entry),
    {
        self.commands.push(entry);
    }

    /// Returns all commands, in registration order.
    pub fn all(&self) -> (r: &[CommandEntry])
        ensures
            r@ == self.entries(),
    {
        self.commands.as_slice()
    }
}

impl Default for CommandRegistry {
    fn default() -> (r: Self)
        ensures
            default_entries(r.entries()),
    {
        Self::new()
    }
}

/// What the user is told to do after a command failed, by safety mode.
pub open spec fn follow_up_text(mode: SafetyMode) -> Seq<char> {
    match mode {
        SafetyMode::Normal => "Try again or check the PipeWire state."@,
        SafetyMode::ReadOnly => "Switch Safety back to Normal to make changes."@,
        SafetyMode::Stage => "Stage mode locks routing and volume. Switch Safety to Normal to edit the patch."@,
    }
}

/// Returns the advice shown after a failed command in the safety mode.
pub fn failure_follow_up(mode: SafetyMode) -> (r: &'static str)
    ensures
        r@ == follow_up_text(mode),
{
    match mode {
        SafetyMode::Normal => "Try again or check the PipeWire state.",
        SafetyMode::ReadOnly => "Switch Safety back to Normal to make changes.",
        SafetyMode::Stage => "Stage mode locks routing and volume. Switch Safety to Normal to edit the patch.",
    }
}

/// The status message for a failed command: the error, a space, and the advice
/// for the safety mode.
pub fn failure_message(err: &CommandError, mode: SafetyMode) -> (r: String)
    ensures
        r@ == err.text() + " "@ + follow_up_text(mode),
{
    let mut s = err.message();
    push_str(&mut s, " ");
    push_str(&mut s, failure_follow_up(mode));
    s
}

}
