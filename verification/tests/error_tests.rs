use pipeflow::errors::{ConfigError, GraphError, PipeWireError, PipeflowError};
use pipeflow::ids::{NodeId, PortId};

#[test]
fn test_error_display() {
    let err = GraphError::NodeNotFound(NodeId::new(42));
    assert!(err.message().contains("42"));

    let err = GraphError::IncompatiblePorts {
        output: PortId::new(1),
        input: PortId::new(2),
        reason: "same direction".into(),
    };
    assert!(err.message().contains("same direction"));
}

#[test]
fn test_error_conversion() {
    let graph_err = GraphError::NodeNotFound(NodeId::new(1));
    let app_err: PipeflowError = graph_err.into();
    assert!(matches!(app_err, PipeflowError::Graph(_)));
}

#[test]
fn test_config_error_display() {
    let err = ConfigError::Parse("unexpected field".into());
    assert!(err.message().contains("unexpected field"));
}

#[test]
fn test_pipewire_error_display() {
    let err = PipeWireError::Disconnected;
    assert!(err.message().contains("Disconnected"));
}

#[test]
fn error_texts_exact() {
    assert_eq!(GraphError::NodeNotFound(NodeId::new(42)).message(), "Node 42 not found");
    assert_eq!(GraphError::PortNotFound(PortId::new(7)).message(), "Port 7 not found");
    assert_eq!(
        GraphError::IncompatiblePorts { output: PortId::new(1), input: PortId::new(2), reason: "same direction".into() }
            .message(),
        "Cannot link port 1 to port 2: same direction"
    );
    assert_eq!(PipeWireError::Timeout.message(), "Command timed out");
    let e: PipeflowError = PipeWireError::ConnectionFailed("refused".into()).into();
    assert_eq!(e.message(), "PipeWire error: Connection failed: refused");
    let e: PipeflowError = ConfigError::PathResolution("no home".into()).into();
    assert_eq!(e.message(), "Config error: Cannot determine config path: no home");
}

#[test]
fn io_error_converts_to_config_error() {
    let io = std::io::Error::new(std::io::ErrorKind::Other, "disk full");
    let e: ConfigError = io.into();
    assert!(matches!(e, ConfigError::Io(_)));
    let text = e.message();
    assert!(text.starts_with("Config I/O error: "));
    assert!(text.contains("disk full"));
}
