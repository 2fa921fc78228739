//! Typed error hierarchy, with the text each error is shown as.

use vstd::prelude::*;

use crate::ids::{LinkId, NodeId, PortId};
use crate::text::{decimal, owned, push_decimal, push_str, seq_starts_with};

verus! {

/// An I/O failure (std's `io::Error`); the library only carries it.
#[verifier::external_type_specification]
#[verifier::external_body]
pub struct ExIoError(std::io::Error);

/// The text of an I/O failure (std's `Display` for `io::Error`), which depends on
/// the operating system; nothing is stated of it.
#[verifier::external_body]
fn io_error_text(e: &std::io::Error) -> String {
    format!("{}", e)
}

/// Top-level application error.
#[derive(Debug)]
pub enum PipeflowError {
    /// A graph operation failed.
    Graph(GraphError),
    /// Configuration loading or saving failed.
    Config(ConfigError),
    /// PipeWire connection or communication failed.
    PipeWire(PipeWireError),
}

/// Errors related to graph operations.
#[derive(Debug)]
pub enum GraphError {
    /// Attempted to operate on a node that doesn't exist.
    NodeNotFound(NodeId),
    /// Attempted to operate on a port that doesn't exist.
    PortNotFound(PortId),
    /// Attempted to operate on a link that doesn't exist.
    LinkNotFound(LinkId),
    /// Attempted to create a link between incompatible ports.
    IncompatiblePorts {
        /// The output port ID.
        output: PortId,
        /// The input port ID.
        input: PortId,
        /// Reason for incompatibility.
        reason: String,
    },
}

/// Errors related to configuration.
#[derive(Debug)]
pub enum ConfigError {
    /// Failed to determine the config file path.
    PathResolution(String),
    /// Failed to read or write config file.
    Io(std::io::Error),
    /// Failed to parse config file.
    Parse(String),
}

/// Errors related to PipeWire connection.
#[derive(Debug)]
pub enum PipeWireError {
    /// Connection to PipeWire daemon failed.
    ConnectionFailed(String),
    /// PipeWire daemon disconnected unexpectedly.
    Disconnected,
    /// A PipeWire command timed out.
    Timeout,
}

impl GraphError {
    /// The text of the error.
    pub open spec fn text(&self) -> Seq<char> {
        match self {
            GraphError::NodeNotFound(id) => "Node "@ + decimal(id.0 as nat) + " not found"@,
            GraphError::PortNotFound(id) => "Port "@ + decimal(id.0 as nat) + " not found"@,
            GraphError::LinkNotFound(id) => "Link "@ + decimal(id.0 as nat) + " not found"@,
            GraphError::IncompatiblePorts { output, input, reason } => "Cannot link port "@ + decimal(output.0 as nat)
                + " to port "@ + decimal(input.0 as nat) + ": "@ + reason@,
        }
    }

    /// Returns the text of the error, e.g. "Node 42 not found".
    pub fn message(&self) -> (r: String)
        ensures
            r@ == self.text(),
    {
        match self {
            GraphError::NodeNotFound(id) => {
                let mut s = owned("Node ");
                push_decimal(&mut s, id.raw() as u64);
                push_str(&mut s, " not found");
                s
            },
            GraphError::PortNotFound(id) => {
                let mut s = owned("Port ");
                push_decimal(&mut s, id.raw() as u64);
                push_str(&mut s, " not found");
                s
            },
            GraphError::LinkNotFound(id) => {
                let mut s = owned("Link ");
                push_decimal(&mut s, id.raw() as u64);
                push_str(&mut s, " not found");
                s
            },
            GraphError::IncompatiblePorts { output, input, reason } => {
                let mut s = owned("Cannot link port ");
                push_decimal(&mut s, output.raw() as u64);
                push_str(&mut s, " to port ");
                push_decimal(&mut s, input.raw() as u64);
                push_str(&mut s, ": ");
                push_str(&mut s, reason.as_str());
                s
            },
        }
    }
}

impl ConfigError {
    /// The text of the error, for the errors that do not carry an I/O failure.
    pub open spec fn text(&self) -> Seq<char> {
        match self {
            ConfigError::PathResolution(s) => "Cannot determine config path: "@ + s@,
            ConfigError::Io(_) => "Config I/O error: "@,
            ConfigError::Parse(s) => "Config parse error: "@ + s@,
        }
    }

    /// Returns the text of the error; for an I/O failure it is "Config I/O error: "
    /// followed by the failure's own text.
    pub fn message(&self) -> (r: String)
        ensures
            !(self is Io) ==> r@ == self.text(),
            self is Io ==> seq_starts_with(r@, self.text()),
    {
        match self {
            ConfigError::PathResolution(p) => {
                let mut s = owned("Cannot determine config path: ");
                push_str(&mut s, p.as_str());
                s
            },
            ConfigError::Io(e) => {
                let mut s = owned("Config I/O error: ");
                let t = io_error_text(e);
                push_str(&mut s, t.as_str());
                proof {
                    assert(s@.take(self.text().len() as int) =~= self.text());
                }
                s
            },
            ConfigError::Parse(p) => {
                let mut s = owned("Config parse error: ");
                push_str(&mut s, p.as_str());
                s
            },
        }
    }
}

impl PipeWireError {
    /// The text of the error.
    pub open spec fn text(&self) -> Seq<char> {
        match self {
            PipeWireError::ConnectionFailed(s) => "Connection failed: "@ + s@,
            PipeWireError::Disconnected => "Disconnected from PipeWire"@,
            PipeWireError::Timeout => "Command timed out"@,
        }
    }

    /// Returns the text of the error.
    pub fn message(&self) -> (r: String)
        ensures
            r@ == self.text(),
    {
        match self {
            PipeWireError::ConnectionFailed(c) => {
                let mut s = owned("Connection failed: ");
                push_str(&mut s, c.as_str());
                s
            },
            PipeWireError::Disconnected => owned("Disconnected from PipeWire"),
            PipeWireError::Timeout => owned("Command timed out"),
        }
    }
}

impl PipeflowError {
    /// Returns the text of the error: the kind of failure, then the inner error's text.
    pub fn message(&self) -> (r: String)
        ensures
            match self {
                PipeflowError::Graph(e) => r@ == "Graph error: "@ + e.text(),
                PipeflowError::Config(e) => if e is Io {
                    seq_starts_with(r@, "Config error: "@ + e.text())
                } else {
                    r@ == "Config error: "@ + e.text()
                },
                PipeflowError::PipeWire(e) => r@ == "PipeWire error: "@ + e.text(),
            },
    {
        match self {
            PipeflowError::Graph(e) => {
                let mut s = owned("Graph error: ");
                let t = e.message();
                push_str(&mut s, t.as_str());
                s
            },
            PipeflowError::Config(e) => {
                let mut s = owned("Config error: ");
                let t = e.message();
                push_str(&mut s, t.as_str());
                proof {
                    if e is Io {
                        assert(s@.take(("Config error: "@ + e.text()).len() as int) =~= "Config error: "@ + e.text());
                    }
                }
                s
            },
            PipeflowError::PipeWire(e) => {
                let mut s = owned("PipeWire error: ");
                let t = e.message();
                push_str(&mut s, t.as_str());
                s
            },
        }
    }
}

impl From<GraphError> for PipeflowError {
    /// Wraps a graph error.
    fn from(e: GraphError) -> (r: PipeflowError) {
        PipeflowError::Graph(e)
    }
}

impl vstd::std_specs::convert::FromSpecImpl<GraphError> for PipeflowError {
    open spec fn obeys_from_spec() -> bool {
        true
    }

    open spec fn from_spec(v: GraphError) -> PipeflowError {
        PipeflowError::Graph(v)
    }
}

impl From<ConfigError> for PipeflowError {
    /// Wraps a configuration error.
    fn from(e: ConfigError) -> (r: PipeflowError) {
        PipeflowError::Config(e)
    }
}

impl vstd::std_specs::convert::FromSpecImpl<ConfigError> for PipeflowError {
    open spec fn obeys_from_spec() -> bool {
        true
    }

    open spec fn from_spec(v: ConfigError) -> PipeflowError {
        PipeflowError::Config(v)
    }
}

impl From<PipeWireError> for PipeflowError {
    /// Wraps a PipeWire error.
    fn from(e: PipeWireError) -> (r: PipeflowError) {
        PipeflowError::PipeWire(e)
    }
}

impl vstd::std_specs::convert::FromSpecImpl<PipeWireError> for PipeflowError {
    open spec fn obeys_from_spec() -> bool {
        true
    }

    open spec fn from_spec(v: PipeWireError) -> PipeflowError {
        PipeflowError::PipeWire(v)
    }
}

impl From<std::io::Error> for ConfigError {
    /// Wraps an I/O failure.
    fn from(e: std::io::Error) -> (r: ConfigError) {
        ConfigError::Io(e)
    }
}

impl vstd::std_specs::convert::FromSpecImpl<std::io::Error> for ConfigError {
    open spec fn obeys_from_spec() -> bool {
        true
    }

    open spec fn from_spec(v: std::io::Error) -> ConfigError {
        ConfigError::Io(v)
    }
}

}
