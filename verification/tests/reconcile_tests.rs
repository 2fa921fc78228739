use pipeflow::graph::{Link, Node, Port, PortDirection};
use pipeflow::graph_state::GraphState;
use pipeflow::ids::{LinkId, NodeId, PortId};
use pipeflow::commands::AppCommand;
use pipeflow::reconcile::{apply_rule_now, reconcile_rules_for_node};
use pipeflow::rules::{ConnectionRule, ConnectionSpec, MatchPattern, RuleManager, RuleTrigger};

fn graph() -> GraphState {
    let mut g = GraphState::default();
    let mut src = Node::new(NodeId::new(1), "synth".to_string());
    src.application_name = Some("Synth".to_string());
    g.add_node(src);
    g.add_node(Node::new(NodeId::new(2), "alsa_output".to_string()));
    g.add_node(Node::new(NodeId::new(3), "recorder".to_string()));
    g.add_port(Port::new(PortId::new(10), NodeId::new(1), "out_L".to_string(), PortDirection::Output));
    g.add_port(Port::new(PortId::new(20), NodeId::new(2), "playback_FL".to_string(), PortDirection::Input));
    g.add_port(Port::new(PortId::new(30), NodeId::new(3), "in_L".to_string(), PortDirection::Input));
    g.add_link(Link::new(LinkId::new(100), PortId::new(10), PortId::new(30), NodeId::new(1), NodeId::new(3)));
    g
}

fn rule(exclusive: bool, trigger: RuleTrigger) -> ConnectionRule {
    let mut r = ConnectionRule::new("synth to speakers".to_string());
    r.connections.push(ConnectionSpec::new(
        MatchPattern::new("Synth", "*", "out_*"),
        MatchPattern::new("", "alsa_*", "playback_*"),
    ));
    r.exclusive = exclusive;
    r.trigger = trigger;
    r
}

#[test]
fn appearing_source_is_connected() {
    let g = graph();
    let mut rules = RuleManager::new();
    let id = rules.add_rule(rule(false, RuleTrigger::OnSourceAppear));
    reconcile_rules_for_node(&g, &mut rules, NodeId::new(1));
    let pending = rules.take_pending_connections();
    assert_eq!(pending.len(), 1);
    assert_eq!(pending[0].output_port, PortId::new(10));
    assert_eq!(pending[0].input_port, PortId::new(20));
    assert_eq!(pending[0].rule_id, id);
    assert!(rules.take_pending_disconnections().is_empty());
}

#[test]
fn trigger_must_concern_the_node() {
    let g = graph();
    let mut rules = RuleManager::new();
    rules.add_rule(rule(false, RuleTrigger::OnTargetAppear));
    reconcile_rules_for_node(&g, &mut rules, NodeId::new(1));
    assert!(rules.take_pending_connections().is_empty());
    reconcile_rules_for_node(&g, &mut rules, NodeId::new(2));
    assert_eq!(rules.take_pending_connections().len(), 1);
    let mut manual = RuleManager::new();
    manual.add_rule(rule(false, RuleTrigger::ManualOnly));
    reconcile_rules_for_node(&g, &mut manual, NodeId::new(1));
    assert!(manual.take_pending_connections().is_empty());
}

#[test]
fn exclusive_rule_removes_other_links() {
    let g = graph();
    let mut rules = RuleManager::new();
    rules.add_rule(rule(true, RuleTrigger::OnBothPresent));
    reconcile_rules_for_node(&g, &mut rules, NodeId::new(1));
    assert_eq!(rules.take_pending_connections().len(), 1);
    assert_eq!(rules.take_pending_disconnections(), vec![LinkId::new(100)]);
}

#[test]
fn disabled_rules_and_missing_nodes_do_nothing() {
    let g = graph();
    let mut rules = RuleManager::new();
    let id = rules.add_rule(rule(true, RuleTrigger::OnBothPresent));
    rules.toggle_enabled(&id);
    reconcile_rules_for_node(&g, &mut rules, NodeId::new(1));
    assert!(rules.take_pending_connections().is_empty());
    rules.toggle_enabled(&id);
    reconcile_rules_for_node(&g, &mut rules, NodeId::new(99));
    assert!(rules.take_pending_connections().is_empty());
    assert!(rules.take_pending_disconnections().is_empty());
}

#[test]
fn existing_link_is_not_queued_again() {
    let mut g = graph();
    g.add_link(Link::new(LinkId::new(101), PortId::new(10), PortId::new(20), NodeId::new(1), NodeId::new(2)));
    let mut rules = RuleManager::new();
    rules.add_rule(rule(false, RuleTrigger::OnBothPresent));
    reconcile_rules_for_node(&g, &mut rules, NodeId::new(1));
    assert!(rules.take_pending_connections().is_empty());
}

#[test]
fn each_rule_and_specification_queues_its_own_entry() {
    let g = graph();
    let mut rules = RuleManager::new();
    let mut r = rule(false, RuleTrigger::OnSourceAppear);
    r.connections.push(ConnectionSpec::new(
        MatchPattern::new("", "synth", "out_L"),
        MatchPattern::new("", "alsa_output", "playback_FL"),
    ));
    let first = rules.add_rule(r);
    let second = rules.add_rule(rule(false, RuleTrigger::OnBothPresent));
    reconcile_rules_for_node(&g, &mut rules, NodeId::new(1));
    let pending = rules.take_pending_connections();
    assert_eq!(pending.len(), 3);
    assert_eq!(pending[0].rule_id, first);
    assert_eq!(pending[1].rule_id, first);
    assert_eq!(pending[2].rule_id, second);
    for p in &pending {
        assert_eq!(p.output_port, PortId::new(10));
        assert_eq!(p.input_port, PortId::new(20));
    }
}

#[test]
fn applying_a_rule_by_hand_creates_one_link_per_specification_and_pair() {
    let g = graph();
    let mut rules = RuleManager::new();
    let mut r = rule(false, RuleTrigger::ManualOnly);
    r.connections.push(ConnectionSpec::new(
        MatchPattern::new("", "synth", "out_L"),
        MatchPattern::new("", "*", "*"),
    ));
    let id = rules.add_rule(r);
    let cmds = apply_rule_now(&g, &rules, &id);
    let to_speakers = AppCommand::CreateLink { output_port: PortId::new(10), input_port: PortId::new(20) };
    assert_eq!(cmds.len(), 2);
    assert_eq!(cmds[0], to_speakers);
    assert_eq!(cmds[1], to_speakers);
    assert!(apply_rule_now(&g, &rules, &pipeflow::ids::RuleId::new()).is_empty());
}
