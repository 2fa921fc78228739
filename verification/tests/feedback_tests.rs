use pipeflow::commands::{failure_follow_up, failure_message, CommandError};
use pipeflow::feedback::{
    push_persistent_issue, report_volume_control_failed, resolve_persistent_issue, resolve_volume_issue, FeedbackLevel,
    PersistentIssue,
};
use pipeflow::graph::Link;
use pipeflow::graph_state::GraphState;
use pipeflow::ids::{LinkId, NodeId, PortId};
use pipeflow::safety::SafetyMode;

#[test]
fn issues_are_kept_one_per_key() {
    let mut issues: Vec<PersistentIssue> = Vec::new();
    push_persistent_issue(&mut issues, "save".to_string(), FeedbackLevel::Warning, "Could not save".to_string(), None);
    push_persistent_issue(&mut issues, "volume".to_string(), FeedbackLevel::Error, "Volume failed".to_string(), Some("busy".to_string()));
    assert_eq!(issues.len(), 2);
    push_persistent_issue(&mut issues, "save".to_string(), FeedbackLevel::Error, "Still not saved".to_string(), Some("disk full".to_string()));
    assert_eq!(issues.len(), 2);
    assert_eq!(issues[0].key, "save");
    assert_eq!(issues[0].level, FeedbackLevel::Error);
    assert_eq!(issues[0].summary, "Still not saved");
    assert_eq!(issues[0].detail, Some("disk full".to_string()));
    assert_eq!(issues[1].key, "volume");

    resolve_persistent_issue(&mut issues, "save");
    assert_eq!(issues.len(), 1);
    assert_eq!(issues[0].key, "volume");
    resolve_persistent_issue(&mut issues, "unknown");
    assert_eq!(issues.len(), 1);
}

#[test]
fn failed_command_messages() {
    let err = CommandError::SafetyBlocked("Read-only mode".to_string());
    assert_eq!(
        failure_message(&err, SafetyMode::ReadOnly),
        "Command blocked by safety mode: Read-only mode Switch Safety back to Normal to make changes."
    );
    assert_eq!(failure_follow_up(SafetyMode::Normal), "Try again or check the PipeWire state.");
    assert!(failure_follow_up(SafetyMode::Stage).starts_with("Stage mode locks routing"));
}

#[test]
fn finding_the_link_between_two_ports() {
    let mut g = GraphState::default();
    g.add_link(Link::new(LinkId::new(5), PortId::new(1), PortId::new(2), NodeId::new(10), NodeId::new(20)));
    assert_eq!(g.find_link_between(PortId::new(1), PortId::new(2)), Some(LinkId::new(5)));
    assert_eq!(g.find_link_between(PortId::new(2), PortId::new(1)), None);
}

#[test]
fn volume_warnings_are_reported_and_resolved_per_node() {
    let mut issues: Vec<PersistentIssue> = Vec::new();
    push_persistent_issue(&mut issues, "other".to_string(), FeedbackLevel::Error, "x".to_string(), None);
    report_volume_control_failed(&mut issues, NodeId::new(42), "no mixer".to_string());
    report_volume_control_failed(&mut issues, NodeId::new(7), "busy".to_string());
    assert_eq!(issues.len(), 3);
    assert_eq!(issues[1].key, "volume-control-failed-42");
    assert_eq!(issues[1].level, FeedbackLevel::Warning);
    assert_eq!(issues[1].summary, "Volume control is unavailable for a node");
    assert_eq!(issues[1].detail, Some("no mixer".to_string()));
    report_volume_control_failed(&mut issues, NodeId::new(42), "still no mixer".to_string());
    assert_eq!(issues.len(), 3);
    assert_eq!(issues[1].detail, Some("still no mixer".to_string()));
    resolve_volume_issue(&mut issues, NodeId::new(42));
    assert_eq!(issues.len(), 2);
    assert_eq!(issues[0].key, "other");
    assert_eq!(issues[1].key, "volume-control-failed-7");
    resolve_volume_issue(&mut issues, NodeId::new(99));
    assert_eq!(issues.len(), 2);
}
