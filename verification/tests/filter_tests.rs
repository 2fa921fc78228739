use std::collections::HashMap;

use pipeflow::filters::{FilterPredicate, FilterSet};
use pipeflow::graph::{MediaClass, Node, Port, PortDirection};
use pipeflow::ids::{NodeId, PortId};

fn make_node(name: &str, media_class: Option<MediaClass>, app_name: Option<&str>) -> Node {
    let mut node = Node::new(NodeId::new(1), name.to_string());
    node.media_class = media_class;
    node.application_name = app_name.map(String::from);
    node
}

#[test]
fn test_filter_media_class() {
    let predicate = FilterPredicate::MediaClass(MediaClass::AudioSink);
    let sink = make_node("Speakers", Some(MediaClass::AudioSink), None);
    let source = make_node("Mic", Some(MediaClass::AudioSource), None);
    assert!(predicate.matches(&sink));
    assert!(!predicate.matches(&source));
}

#[test]
fn test_filter_application_name() {
    let predicate = FilterPredicate::ApplicationName("fire".to_string());
    let firefox = make_node("Firefox", None, Some("Firefox"));
    let chrome = make_node("Chrome", None, Some("Google Chrome"));
    assert!(predicate.matches(&firefox));
    assert!(!predicate.matches(&chrome));
}

#[test]
fn test_filter_audio_only() {
    let predicate = FilterPredicate::AudioOnly;
    let audio = make_node("Audio", Some(MediaClass::AudioSink), None);
    let video = make_node("Video", Some(MediaClass::VideoSource), None);
    assert!(predicate.matches(&audio));
    assert!(!predicate.matches(&video));
}

#[test]
fn test_filter_set_include() {
    let mut filters = FilterSet::new();
    filters.add_include(FilterPredicate::AudioOnly);
    let audio = make_node("Audio", Some(MediaClass::AudioSink), None);
    let video = make_node("Video", Some(MediaClass::VideoSource), None);
    assert!(filters.matches(&audio));
    assert!(!filters.matches(&video));
}

#[test]
fn test_filter_set_exclude() {
    let mut filters = FilterSet::new();
    filters.add_exclude(FilterPredicate::VideoOnly);
    let audio = make_node("Audio", Some(MediaClass::AudioSink), None);
    let video = make_node("Video", Some(MediaClass::VideoSource), None);
    assert!(filters.matches(&audio));
    assert!(!filters.matches(&video));
}

#[test]
fn test_filter_set_search() {
    let mut filters = FilterSet::new();
    filters.set_search(Some("speak".to_string()));
    let speakers = make_node("Speakers", None, None);
    let mic = make_node("Microphone", None, None);
    assert!(filters.matches(&speakers));
    assert!(!filters.matches(&mic));
}

#[test]
fn test_filter_set_combined() {
    let mut filters = FilterSet::new();
    filters.add_include(FilterPredicate::AudioOnly);
    filters.add_exclude(FilterPredicate::ApplicationName("ignored".to_string()));
    let good = make_node("Good", Some(MediaClass::AudioSink), Some("Wanted App"));
    let ignored = make_node("Ignored", Some(MediaClass::AudioSink), Some("Ignored App"));
    let video = make_node("Video", Some(MediaClass::VideoSource), None);
    assert!(filters.matches(&good));
    assert!(!filters.matches(&ignored));
    assert!(!filters.matches(&video));
}

#[test]
fn test_filter_empty_passes_all() {
    let filters = FilterSet::new();
    assert!(filters.is_empty());
    let node = make_node("Anything", None, None);
    assert!(filters.matches(&node));
}

#[test]
fn test_filter_set_clear() {
    let mut filters = FilterSet::new();
    filters.add_include(FilterPredicate::AudioOnly);
    filters.set_search(Some("test".into()));
    assert!(!filters.is_empty());
    filters.clear();
    assert!(filters.is_empty());
}

#[test]
fn test_filter_description_formats() {
    let mut filters = FilterSet::new();
    assert_eq!(filters.description(), "No filters");

    filters.add_include(FilterPredicate::AudioOnly);
    assert!(filters.description().contains("Include"));

    filters.add_exclude(FilterPredicate::VideoOnly);
    assert!(filters.description().contains("Exclude"));

    filters.set_search(Some("test".into()));
    assert!(filters.description().contains("Search"));
}

#[test]
fn test_filter_add_include_deduplication() {
    let mut filters = FilterSet::new();
    filters.add_include(FilterPredicate::AudioOnly);
    filters.add_include(FilterPredicate::AudioOnly);
    assert_eq!(filters.includes.len(), 1);
}

#[test]
fn test_filter_set_search_empty_becomes_none() {
    let mut filters = FilterSet::new();
    filters.set_search(Some("".into()));
    assert!(filters.search.is_none());
}

#[test]
fn test_filter_search_case_insensitive() {
    let mut filters = FilterSet::new();
    filters.set_search(Some("SPEAK".into()));
    let node = make_node("speakers", None, None);
    assert!(filters.matches(&node));
}

#[test]
fn test_filter_search_matches_app_name() {
    let mut filters = FilterSet::new();
    filters.set_search(Some("fire".into()));
    let node = make_node("some_node", None, Some("Firefox"));
    assert!(filters.matches(&node));
}

#[test]
fn test_filter_node_name_predicate() {
    let predicate = FilterPredicate::NodeName("speak".to_string());
    let matching = make_node("Speakers", None, None);
    let non_matching = make_node("Microphone", None, None);
    assert!(predicate.matches(&matching));
    assert!(!predicate.matches(&non_matching));
}

#[test]
fn test_filter_active_only() {
    let predicate = FilterPredicate::ActiveOnly;
    let mut active_node = make_node("Active", None, None);
    active_node.is_active = true;
    let mut inactive_node = make_node("Inactive", None, None);
    inactive_node.is_active = false;
    assert!(predicate.matches(&active_node));
    assert!(!predicate.matches(&inactive_node));
}

#[test]
fn test_filter_midi_only() {
    let predicate = FilterPredicate::MidiOnly;
    let midi = make_node("MIDI", Some(MediaClass::MidiSource), None);
    let audio = make_node("Audio", Some(MediaClass::AudioSink), None);
    assert!(predicate.matches(&midi));
    assert!(!predicate.matches(&audio));
}

#[test]
fn test_filter_video_only() {
    let predicate = FilterPredicate::VideoOnly;
    let video = make_node("Video", Some(MediaClass::VideoSource), None);
    let audio = make_node("Audio", Some(MediaClass::AudioSink), None);
    assert!(predicate.matches(&video));
    assert!(!predicate.matches(&audio));
}

#[test]
fn test_filter_remove_include() {
    let mut filters = FilterSet::new();
    filters.add_include(FilterPredicate::AudioOnly);
    filters.add_include(FilterPredicate::VideoOnly);
    assert_eq!(filters.includes.len(), 2);
    filters.remove_include(&FilterPredicate::AudioOnly);
    assert_eq!(filters.includes.len(), 1);
}

#[test]
fn test_filter_direction_with_ports() {
    let predicate = FilterPredicate::Direction(PortDirection::Input);
    let mut node = Node::new(NodeId::new(1), "test".into());
    node.port_ids = vec![PortId::new(10)];

    let mut ports = HashMap::new();
    ports.insert(
        10u32,
        Port {
            id: PortId::new(10),
            node_id: NodeId::new(1),
            name: "in".into(),
            direction: PortDirection::Input,
            channel: None,
            physical_path: None,
            alias: None,
            is_monitor: false,
            is_control: false,
        },
    );

    assert!(predicate.matches_with_ports(&node, &ports));
    assert!(predicate.matches(&node));
}

#[test]
fn filter_description_exact_text() {
    let mut filters = FilterSet::new();
    filters.add_include(FilterPredicate::AudioOnly);
    filters.add_include(FilterPredicate::ApplicationName("fire".to_string()));
    filters.add_exclude(FilterPredicate::VideoOnly);
    filters.set_search(Some("mic".into()));
    assert_eq!(filters.description(), "Include: Audio, App: fire | Exclude: Video | Search: \"mic\"");
}

#[test]
fn active_only_filter_follows_activity() {
    let mut filters = FilterSet::new();
    filters.add_include(FilterPredicate::ActiveOnly);
    for active in [true, false] {
        let mut node = make_node("n", None, Some("app"));
        node.is_active = active;
        assert_eq!(filters.matches(&node), active);
    }
}
