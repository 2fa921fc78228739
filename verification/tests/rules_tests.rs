use pipeflow::ids::{LinkId, PortId, RuleId};
use pipeflow::rules::{ConnectionRule, ConnectionSpec, MatchPattern, RuleManager, RuleTrigger};

#[test]
fn test_match_pattern_exact() {
    let pattern = MatchPattern::exact(Some("Firefox"), "firefox", "playback_FL");

    assert!(pattern.matches(Some("Firefox"), "firefox", "playback_FL"));
    assert!(!pattern.matches(Some("Chrome"), "firefox", "playback_FL"));
    assert!(!pattern.matches(Some("Firefox"), "chrome", "playback_FL"));
    assert!(!pattern.matches(Some("Firefox"), "firefox", "playback_FR"));
}

#[test]
fn test_match_pattern_glob() {
    let pattern = MatchPattern::new("*DAW*", "alsa_*", "playback_*");

    assert!(pattern.matches(Some("MyDAWApp"), "alsa_output", "playback_FL"));
    assert!(pattern.matches(Some("DAW"), "alsa_input", "playback_FR"));
    assert!(!pattern.matches(Some("Firefox"), "alsa_output", "playback_FL"));
    assert!(!pattern.matches(Some("MyDAWApp"), "pulse_output", "playback_FL"));
}

#[test]
fn test_match_pattern_empty() {
    let pattern = MatchPattern::new("", "", "");

    assert!(pattern.matches(Some("Any"), "anything", "whatever"));
    assert!(pattern.matches(None, "node", "port"));
}

#[test]
fn test_rule_manager_crud() {
    let mut manager = RuleManager::new();

    let rule = ConnectionRule::new("Test Rule".to_string());
    let id = manager.add_rule(rule);

    assert_eq!(manager.len(), 1);
    assert!(manager.get_rule(&id).is_some());

    assert!(manager.get_rule(&id).unwrap().enabled);
    manager.toggle_enabled(&id);
    assert!(!manager.get_rule(&id).unwrap().enabled);

    let removed = manager.remove_rule(&id);
    assert!(removed.is_some());
    assert!(manager.is_empty());
}

#[test]
fn test_rule_manager_snapshot() {
    let mut manager = RuleManager::new();

    let connections = vec![ConnectionSpec::new(
        MatchPattern::exact(Some("App"), "node1", "out"),
        MatchPattern::exact(Some("App2"), "node2", "in"),
    )];

    let id = manager.create_from_snapshot(None, connections, Some("MyApp".to_string()));

    let rule = manager.get_rule(&id).unwrap();
    assert_eq!(rule.name, "Rule 1");
    assert_eq!(rule.connections.len(), 1);
    assert!(rule.enabled);
    assert_eq!(rule.trigger, RuleTrigger::OnBothPresent);
    assert_eq!(rule.primary_node, Some("MyApp".to_string()));
}

#[test]
fn rule_names_count_up() {
    let mut manager = RuleManager::new();
    let a = manager.create_from_snapshot(None, vec![], None);
    let b = manager.create_from_snapshot(Some("Mine".to_string()), vec![], None);
    let c = manager.create_from_snapshot(None, vec![], None);
    assert_eq!(manager.get_rule(&a).unwrap().name, "Rule 1");
    assert_eq!(manager.get_rule(&b).unwrap().name, "Mine");
    assert_eq!(manager.get_rule(&c).unwrap().name, "Rule 3");
    assert_ne!(a, c);
}

#[test]
fn pending_queues() {
    let mut manager = RuleManager::new();
    let rid = RuleId::new();
    manager.queue_connection(PortId::new(1), PortId::new(2), rid);
    manager.queue_connection(PortId::new(1), PortId::new(2), rid);
    manager.queue_disconnection(LinkId::new(9));
    manager.queue_disconnection(LinkId::new(9));
    let conns = manager.take_pending_connections();
    assert_eq!(conns.len(), 2);
    assert_eq!(conns[0].output_port, PortId::new(1));
    assert_eq!(manager.take_pending_disconnections(), vec![LinkId::new(9)]);
    assert!(manager.take_pending_connections().is_empty());
    assert!(manager.take_pending_disconnections().is_empty());
}

#[test]
fn enabled_rules_skip_disabled() {
    let mut manager = RuleManager::new();
    let a = manager.add_rule(ConnectionRule::new("a".to_string()));
    let _b = manager.add_rule(ConnectionRule::new("b".to_string()));
    manager.toggle_enabled(&a);
    let enabled = manager.enabled_rules();
    assert_eq!(enabled.len(), 1);
    assert_eq!(enabled[0].name, "b");
    assert_eq!(RuleTrigger::all().len(), 4);
    assert_eq!(RuleTrigger::default(), RuleTrigger::OnBothPresent);
}

#[test]
fn exact_patterns_match_names_with_glob_characters() {
    let pattern = MatchPattern::exact(Some("App {x,y}"), "in[1]", "!out\\1");
    assert!(pattern.matches(Some("App {x,y}"), "in[1]", "!out\\1"));
    assert!(!pattern.matches(Some("App x"), "in[1]", "!out\\1"));
    assert!(!pattern.matches(Some("App {x,y}"), "in1", "!out\\1"));
    assert!(!pattern.matches(Some("App {x,y}"), "in[1]", "zzz"));
}

#[test]
fn only_star_and_question_mark_are_wildcards() {
    let pattern = MatchPattern::new("", "in[1]*", "p?");
    assert!(pattern.matches(None, "in[1]_left", "p1"));
    assert!(!pattern.matches(None, "in1_left", "p1"));
    assert!(!pattern.matches(None, "in[1]_left", "p12"));
    let braces = MatchPattern::new("", "{a,b}", "");
    assert!(braces.matches(None, "{a,b}", "x"));
    assert!(!braces.matches(None, "a", "x"));
}
