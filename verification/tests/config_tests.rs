use pipeflow::cli::{parse_remote_target, run_mode, RunMode};
use pipeflow::config::{join_path, BehaviorConfig, LayoutManager, MeterConfig, MeterScale, ShortcutConfig, ThemePreference};
use pipeflow::errors::ConfigError;
use pipeflow::groups::GroupColor;
use pipeflow::ids::{GroupId, NodeId};
use pipeflow::meters;
use pipeflow::safety::SafetyMode;
use pipeflow::workspace::{CenterViewMode, GraphVisibilitySummary, RenameNodeDialog, WorkspaceSection};

#[test]
fn test_meter_config_default() {
    let config = meters::MeterConfig::default();
    assert!(config.enabled);
    assert_eq!(config.refresh_rate, 30);
    assert_eq!(config.buffer_size, 4);
}

#[test]
fn test_group_color_palette() {
    let palette = GroupColor::palette();
    assert!(!palette.is_empty());

    let color = GroupColor::from_palette(0);
    assert_eq!(color, palette[0]);

    let color = GroupColor::from_palette(palette.len());
    assert_eq!(color, palette[0]);
}

#[test]
fn group_colors() {
    assert_eq!(GroupColor::default(), GroupColor::new(99, 155, 255));
    assert_eq!(GroupColor::from_palette(11), GroupColor::new(255, 99, 132));
    assert_eq!(GroupColor::palette().len(), 10);
}

#[test]
fn preference_defaults() {
    let m = MeterConfig::default();
    assert!(m.enabled);
    assert_eq!(m.refresh_rate, 30);
    assert!(m.show_peak_hold);
    assert_eq!(m.peak_hold_decay_ms, 1500);
    assert_eq!(m.scale, MeterScale::Logarithmic);
    let b = BehaviorConfig::default();
    assert_eq!(b.startup_safety_mode, SafetyMode::Normal);
    assert!(b.auto_reconnect);
    assert_eq!(b.reconnect_delay_ms, 1000);
    assert!(!b.confirm_link_removal);
    let s = ShortcutConfig::default();
    assert_eq!(s.command_palette, "Ctrl+K");
    assert_eq!(s.panic_mute, "Ctrl+Shift+M");
    assert_eq!(s.toggle_mute, "M");
    assert_eq!(ThemePreference::default(), ThemePreference::System);
}

#[test]
fn layout_file_location() {
    let m = LayoutManager::new(Some("/home/u/.local/share/pipeflow".to_string())).unwrap();
    assert_eq!(m.path(), "/home/u/.local/share/pipeflow/layout.json");
    assert_eq!(join_path("/data/", "layout.json"), "/data/layout.json");
    assert_eq!(join_path("", "layout.json"), "layout.json");
    match LayoutManager::new(None) {
        Err(ConfigError::PathResolution(m)) => assert_eq!(m, "Failed to determine data directory"),
        _ => panic!("expected a path resolution error"),
    }
}

#[test]
fn test_default_mode_is_local() {
    assert_eq!(run_mode(false, &None), RunMode::Local);
}

#[test]
fn test_headless_mode() {
    assert_eq!(run_mode(true, &None), RunMode::Headless);
    assert_eq!(run_mode(true, &Some("user@host".to_string())), RunMode::Headless);
}

#[test]
fn test_remote_mode() {
    let remote = Some("user@host.local".to_string());
    assert_eq!(run_mode(false, &remote), RunMode::Remote);

    let target = parse_remote_target(&remote, 22, "root").unwrap();
    assert_eq!(target.user, "user");
    assert_eq!(target.host, "host.local");
    assert_eq!(target.port, 22);
    assert_eq!(target.ssh_target(), "user@host.local");
}

#[test]
fn test_remote_without_user() {
    let target = parse_remote_target(&Some("192.168.1.100".to_string()), 22, "testuser").unwrap();
    assert_eq!(target.user, "testuser");
    assert_eq!(target.host, "192.168.1.100");
}

#[test]
fn remote_splits_at_first_at_sign() {
    let target = parse_remote_target(&Some("a@b@c".to_string()), 2222, "x").unwrap();
    assert_eq!(target.user, "a");
    assert_eq!(target.host, "b@c");
    assert_eq!(target.port, 2222);
    assert!(parse_remote_target(&None, 22, "x").is_none());
}

#[test]
fn rename_dialog_open_close() {
    let mut d = RenameNodeDialog::default();
    assert!(d.node_id.is_none());
    d.open(NodeId::new(4), "Speakers");
    assert_eq!(d.node_id, Some(NodeId::new(4)));
    assert_eq!(d.input, "Speakers");
    d.close();
    assert!(d.node_id.is_none());
    assert!(d.input.is_empty());
}

#[test]
fn workspace_labels_and_visibility() {
    assert_eq!(WorkspaceSection::Patch.label(), "Patch");
    assert_eq!(WorkspaceSection::AutoConnect.label(), "Auto Connect");
    assert_eq!(WorkspaceSection::SavedSetups.label(), "Saved Setups");
    let mut s = GraphVisibilitySummary::default();
    s.total_nodes = 5;
    s.visible_nodes = 5;
    assert!(!s.has_hidden_state());
    s.dimmed_background = 1;
    assert!(s.has_hidden_state());
    let g = GroupId::new();
    assert_ne!(CenterViewMode::GroupMixer(g), CenterViewMode::Graph);
}
