//! Small pieces of application state: layer visibility and connection status.

use vstd::prelude::*;

use crate::graph::NodeLayer;

verus! {

/// Visibility settings for PipeWire stack layers.
#[derive(Debug, Clone, Copy, PartialEq, Eq, Structural)]
pub struct LayerVisibility {
    /// Show hardware layer nodes (ALSA devices, etc.)
    pub hardware: bool,
    /// Show PipeWire layer nodes (splits, adapters, etc.)
    pub pipewire: bool,
    /// Show session layer nodes (WirePlumber-managed app nodes)
    pub session: bool,
}

impl Default for LayerVisibility {
    fn default() -> (r: Self)
        ensures
            r.hardware && r.pipewire && r.session,
    {
        LayerVisibility { hardware: true, pipewire: true, session: true }
    }
}

impl LayerVisibility {
    /// Whether a layer is visible.
    pub open spec fn spec_is_visible(self, layer: NodeLayer) -> bool {
        match layer {
            NodeLayer::Hardware => self.hardware,
            NodeLayer::Pipewire => self.pipewire,
            NodeLayer::Session => self.session,
        }
    }

    /// Returns true if the given layer is visible.
    pub fn is_visible(&self, layer: NodeLayer) -> (r: bool)
        ensures
            r == self.spec_is_visible(layer),
    {
        match layer {
            NodeLayer::Hardware => self.hardware,
            NodeLayer::Pipewire => self.pipewire,
            NodeLayer::Session => self.session,
        }
    }

    /// The settings with one layer's visibility flipped.
    pub open spec fn toggled(self, layer: NodeLayer) -> LayerVisibility {
        match layer {
            NodeLayer::Hardware => LayerVisibility { hardware: !self.hardware, ..self },
            NodeLayer::Pipewire => LayerVisibility { pipewire: !self.pipewire, ..self },
            NodeLayer::Session => LayerVisibility { session: !self.session, ..self },
        }
    }

    /// Toggles visibility for the given layer; the other layers are unchanged.
    pub fn toggle(&mut self, layer: NodeLayer)
        ensures
            *final(self) == old(self).toggled(layer),
            final(self).spec_is_visible(layer) == !old(self).spec_is_visible(layer),
            forall|other: NodeLayer| other != layer ==> final(self).spec_is_visible(other) == old(self).spec_is_visible(other),
    {
        match layer {
            NodeLayer::Hardware => self.hardware = !self.hardware,
            NodeLayer::Pipewire => self.pipewire = !self.pipewire,
            NodeLayer::Session => self.session = !self.session,
        }
    }
}

/// Toggling the same layer twice restores the visibility settings.
pub proof fn lemma_toggle_twice(v: LayerVisibility, layer: NodeLayer)
    ensures
        v.toggled(layer).toggled(layer) == v,
{
}

/// PipeWire connection state.
#[derive(Debug, Clone, Copy, PartialEq, Eq, Structural)]
pub enum ConnectionState {
    /// Not connected
    Disconnected,
    /// Attempting to connect
    Connecting,
    /// Connected and receiving updates
    Connected,
    /// Connection error
    Error,
}

impl Default for ConnectionState {
    fn default() -> (r: Self)
        ensures
            r == ConnectionState::Disconnected,
    {
        ConnectionState::Disconnected
    }
}

impl ConnectionState {
    /// Returns true if connected.
    pub fn is_connected(&self) -> (r: bool)
        ensures
            r == (*self == ConnectionState::Connected),
    {
        match self {
            ConnectionState::Connected => true,
            _ => false,
        }
    }
}

}
