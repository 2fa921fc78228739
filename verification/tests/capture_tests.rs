use pipeflow::capture::{capture_connections, create_rule_from_node_connections, node_connection_specs};
use pipeflow::commands::{AppCommand, CommandAction, CommandRegistry, UiCommand};
use pipeflow::filters::FilterPredicate;
use pipeflow::graph::{Link, Node, NodeLayer, Port, PortDirection};
use pipeflow::graph_state::GraphState;
use pipeflow::ids::{LinkId, NodeId, NodeIdentifier, PortId};
use pipeflow::reconcile::apply_rule_now;
use pipeflow::rules::{ConnectionRule, ConnectionSpec, MatchPattern, RuleManager, RuleTrigger};
use pipeflow::ui_state::UiState;
use pipeflow::workspace::graph_visibility_summary;

fn graph() -> GraphState {
    let mut g = GraphState::default();
    let mut src = Node::new(NodeId::new(1), "synth".to_string());
    src.application_name = Some("Synth".to_string());
    src.description = Some("Synth Output".to_string());
    g.add_node(src);
    g.add_node(Node::new(NodeId::new(2), "alsa_output".to_string()));
    g.add_node(Node::new(NodeId::new(3), "recorder".to_string()));
    g.add_port(Port::new(PortId::new(10), NodeId::new(1), "out_L".to_string(), PortDirection::Output));
    g.add_port(Port::new(PortId::new(11), NodeId::new(1), "out_R".to_string(), PortDirection::Output));
    g.add_port(Port::new(PortId::new(20), NodeId::new(2), "playback_FL".to_string(), PortDirection::Input));
    g.add_port(Port::new(PortId::new(30), NodeId::new(3), "in_L".to_string(), PortDirection::Input));
    g.add_link(Link::new(LinkId::new(100), PortId::new(10), PortId::new(30), NodeId::new(1), NodeId::new(3)));
    g
}

#[test]
fn rule_from_node_connections() {
    let g = graph();
    let mut rules = RuleManager::new();
    let id = create_rule_from_node_connections(&g, &mut rules, NodeId::new(1)).unwrap();
    assert_eq!(rules.len(), 1);
    let rule = rules.get_rule(&id).unwrap();
    assert_eq!(rule.name, "Synth Output connections");
    assert_eq!(rule.primary_node, Some("Synth Output".to_string()));
    assert!(rule.enabled);
    assert_eq!(rule.trigger, RuleTrigger::OnBothPresent);
    assert!(!rule.exclusive);
    assert_eq!(rule.connections.len(), 1);
    let c = &rule.connections[0];
    assert_eq!(c.output_pattern.app_name, "Synth");
    assert_eq!(c.output_pattern.node_name, "synth");
    assert_eq!(c.output_pattern.port_name, "out_L");
    assert_eq!(c.input_pattern.app_name, "");
    assert_eq!(c.input_pattern.node_name, "recorder");
    assert_eq!(c.input_pattern.port_name, "in_L");
}

#[test]
fn no_rule_without_connections() {
    let g = graph();
    let mut rules = RuleManager::new();
    assert!(create_rule_from_node_connections(&g, &mut rules, NodeId::new(2)).is_none());
    assert!(rules.is_empty());
    assert_eq!(rules.next_rule_number, 0);
}

#[test]
fn unresolved_links_are_skipped() {
    let mut g = graph();
    g.add_link(Link::new(LinkId::new(101), PortId::new(11), PortId::new(99), NodeId::new(1), NodeId::new(2)));
    assert_eq!(node_connection_specs(&g, NodeId::new(1)).len(), 1);
    g.add_link(Link::new(LinkId::new(102), PortId::new(11), PortId::new(20), NodeId::new(1), NodeId::new(2)));
    assert_eq!(node_connection_specs(&g, NodeId::new(1)).len(), 2);
    assert_eq!(node_connection_specs(&g, NodeId::new(2)).len(), 1);
}

#[test]
fn snapshot_connections_name_both_ends() {
    let mut g = graph();
    g.add_link(Link::new(LinkId::new(101), PortId::new(11), PortId::new(99), NodeId::new(1), NodeId::new(2)));
    let conns = capture_connections(&g, |n: &Node, _g: &GraphState| {
        NodeIdentifier::new(n.name.clone(), n.application_name.clone(), None)
    });
    assert_eq!(conns.len(), 1);
    assert_eq!(conns[0].output_node.name, "synth");
    assert_eq!(conns[0].output_node.application_name, Some("Synth".to_string()));
    assert_eq!(conns[0].output_port_name, "out_L");
    assert_eq!(conns[0].input_node.name, "recorder");
    assert_eq!(conns[0].input_port_name, "in_L");
}

fn speakers_rule() -> ConnectionRule {
    let mut r = ConnectionRule::new("synth to speakers".to_string());
    r.connections.push(ConnectionSpec::new(
        MatchPattern::new("Synth", "*", "out_*"),
        MatchPattern::new("", "*", "*"),
    ));
    r.trigger = RuleTrigger::ManualOnly;
    r
}

#[test]
fn applying_a_rule_by_hand_creates_missing_links() {
    let g = graph();
    let mut rules = RuleManager::new();
    let id = rules.add_rule(speakers_rule());
    let cmds = apply_rule_now(&g, &rules, &id);
    // out_L and out_R to both inputs, except out_L -> in_L which is linked already.
    assert_eq!(cmds.len(), 3);
    assert!(cmds.contains(&AppCommand::CreateLink { output_port: PortId::new(10), input_port: PortId::new(20) }));
    assert!(cmds.contains(&AppCommand::CreateLink { output_port: PortId::new(11), input_port: PortId::new(20) }));
    assert!(cmds.contains(&AppCommand::CreateLink { output_port: PortId::new(11), input_port: PortId::new(30) }));
    assert!(!cmds.contains(&AppCommand::CreateLink { output_port: PortId::new(10), input_port: PortId::new(30) }));
}

#[test]
fn applying_an_unknown_rule_does_nothing() {
    let g = graph();
    let rules = RuleManager::new();
    let other = speakers_rule();
    assert!(apply_rule_now(&g, &rules, &other.id).is_empty());
}

#[test]
fn visibility_summary_counts_each_reason() {
    let mut g = graph();
    let mut hw = Node::new(NodeId::new(4), "alsa_card".to_string());
    hw.layer = NodeLayer::Hardware;
    g.add_node(hw);
    let mut ui = UiState::new();

    let s = graph_visibility_summary(&g, &ui);
    assert_eq!(s.total_nodes, 4);
    assert_eq!(s.visible_nodes, 4);
    assert!(!s.has_hidden_state());

    ui.uninteresting_nodes.insert(3);
    let s = graph_visibility_summary(&g, &ui);
    assert_eq!(s.visible_nodes, 4);
    assert_eq!(s.dimmed_background, 1);

    ui.hide_uninteresting = true;
    ui.layer_visibility.hardware = false;
    ui.filters.add_include(FilterPredicate::NodeName("synth".to_string()));
    let s = graph_visibility_summary(&g, &ui);
    assert_eq!(s.hidden_background, 1);
    assert_eq!(s.hidden_by_layer, 1);
    assert_eq!(s.hidden_by_focus, 1);
    assert_eq!(s.visible_nodes, 1);
    assert_eq!(s.dimmed_background, 0);
    assert_eq!(s.hidden_internal_meter_nodes, 0);
    assert!(s.has_hidden_state());
}

#[test]
fn test_command_registry() {
    let registry = CommandRegistry::new();
    assert!(!registry.all().is_empty());
}

#[test]
fn default_commands() {
    let registry = CommandRegistry::default();
    let all = registry.all();
    assert_eq!(all.len(), 6);
    assert_eq!(all[0].name, "Toggle Read-Only Mode");
    assert!(all[0].shortcut.is_none());
    assert_eq!(all[1].shortcut, Some("Escape".to_string()));
    assert!(matches!(all[1].action, CommandAction::Ui(UiCommand::ClearSelection)));
    match &all[2].action {
        CommandAction::Custom(name) => assert_eq!(name, "zoom_in"),
        _ => panic!("Expected a custom action"),
    }
    assert_eq!(all[5].name, "Create Group");
    assert_eq!(all[5].shortcut, Some("Ctrl+G".to_string()));
}
