use cosmic_panel::config::{
    CosmicPanelBackground, CosmicPanelConfig, CosmicPanelOuput, PanelAnchor, PanelSize, Rgba,
};
use cosmic_panel::orchestrator::{PanelInstance, SpaceContainer, UpdateOutcome};

const LIGHT: Rgba = Rgba { r: 240, g: 240, b: 240, a: 255 };
const DARK: Rgba = Rgba { r: 20, g: 20, b: 20, a: 255 };

fn config(name: &str) -> CosmicPanelConfig {
    let mut c = CosmicPanelConfig::default();
    c.name = String::from(name);
    c
}

fn container(configs: Vec<CosmicPanelConfig>, outputs: &[&str]) -> SpaceContainer {
    let mut space_list = Vec::new();
    for c in &configs {
        for o in outputs {
            space_list.push(PanelInstance {
                config: c.duplicate(),
                output: Some(o.to_string()),
                bg_color: LIGHT,
            });
        }
    }
    SpaceContainer {
        config_list: configs,
        space_list,
        outputs: outputs.iter().map(|o| o.to_string()).collect(),
        is_dark: false,
        light_bg: LIGHT,
        dark_bg: DARK,
    }
}

fn recreated(outcome: UpdateOutcome) -> Vec<(String, Option<String>, u32)> {
    match outcome {
        UpdateOutcome::Recreated(list) => {
            list.into_iter().map(|r| (r.name, r.output, r.priority)).collect()
        }
        other => panic!("expected recreation, got {:?}", other),
    }
}

#[test]
fn unchanged_config_is_a_no_op() {
    let mut c = container(vec![config("panel")], &["DP-1", "HDMI-1"]);
    let out = c.update_space(config("panel"));
    assert!(matches!(out, UpdateOutcome::NoOp));
    assert_eq!(c.space_list.len(), 2);
}

#[test]
fn opacity_change_updates_in_place() {
    let mut c = container(vec![config("panel")], &["DP-1"]);
    let mut entry = config("panel");
    entry.opacity = 100;
    assert_eq!(entry.size, PanelSize::M);
    let out = c.update_space(entry);
    assert!(matches!(out, UpdateOutcome::Updated));
    assert_eq!(c.space_list.len(), 1);
    assert_eq!(c.space_list[0].config.opacity, 100);
    assert_eq!(c.space_list[0].bg_color, Rgba { a: 100, ..LIGHT });
    assert_eq!(c.space_list[0].output, Some(String::from("DP-1")));
    assert_eq!(c.config_list.len(), 1);
    assert_eq!(c.config_list[0].opacity, 100);
}

#[test]
fn flipping_anchor_recreates() {
    let mut c = container(vec![config("panel")], &["DP-1"]);
    let mut entry = config("panel");
    entry.anchor = PanelAnchor::Bottom;
    let list = recreated(c.update_space(entry));
    assert_eq!(list, vec![(String::from("panel"), Some(String::from("DP-1")), 1110)]);
    assert_eq!(c.space_list.len(), 1);
    assert_eq!(c.space_list[0].config.anchor, PanelAnchor::Bottom);
}

#[test]
fn size_change_recreates_on_every_output() {
    let mut c = container(vec![config("panel")], &["DP-1", "HDMI-1"]);
    let mut entry = config("panel");
    entry.size = PanelSize::L;
    let list = recreated(c.update_space(entry));
    assert_eq!(list.len(), 2);
    assert_eq!(list[0].1, Some(String::from("DP-1")));
    assert_eq!(list[1].1, Some(String::from("HDMI-1")));
    assert_eq!(c.space_list.len(), 2);
    assert!(c.space_list.iter().all(|s| s.config.size == PanelSize::L));
}

#[test]
fn missing_instance_recreates() {
    let mut c = container(vec![config("panel")], &["DP-1"]);
    c.outputs.push(String::from("HDMI-1"));
    let list = recreated(c.update_space(config("panel")));
    assert_eq!(list.len(), 2);
    assert_eq!(c.space_list.len(), 2);
}

#[test]
fn cascade_recreates_panels_passed_over_in_priority() {
    // dock: 0 + 100 (no gap) = 100; the panel: 1000 + 100 + 10 = 1110
    let mut dock = config("dock");
    dock.expand_to_edges = false;
    dock.anchor = PanelAnchor::Bottom;
    let mut c = container(vec![config("panel"), dock.duplicate()], &["DP-1"]);
    assert_eq!(c.config_list[0].get_priority(), 1310 - 200);
    assert_eq!(c.config_list[1].get_priority(), 100);
    // the dock drops its margin: 100 -> 300, passing nothing
    let mut entry = dock.duplicate();
    entry.margin = 0;
    entry.size = PanelSize::S;
    let list = recreated(c.update_space(entry));
    assert_eq!(list, vec![(String::from("dock"), Some(String::from("DP-1")), 300)]);
    // the panel falls below the dock: 1110 -> 10, passing the dock at 300
    let mut entry = config("panel");
    entry.expand_to_edges = false;
    entry.anchor_gap = true;
    entry.size = PanelSize::S;
    let list = recreated(c.update_space(entry));
    assert_eq!(
        list,
        vec![
            (String::from("dock"), Some(String::from("DP-1")), 300),
            (String::from("panel"), Some(String::from("DP-1")), 10),
        ]
    );
}

#[test]
fn active_output_recreates_one_instance() {
    let mut c = container(vec![config("panel")], &["DP-1"]);
    let mut entry = config("panel");
    entry.output = CosmicPanelOuput::Active;
    let list = recreated(c.update_space(entry));
    assert_eq!(list, vec![(String::from("panel"), None, 1110)]);
    assert_eq!(c.space_list.len(), 1);
    assert_eq!(c.space_list[0].output, None);
}

#[test]
fn removing_a_space_drops_its_instances() {
    let mut c = container(vec![config("panel"), config("dock")], &["DP-1", "HDMI-1"]);
    assert_eq!(c.space_list.len(), 4);
    c.remove_space(String::from("panel"));
    assert_eq!(c.space_list.len(), 2);
    assert!(c.space_list.iter().all(|s| s.config.name == "dock"));
    assert_eq!(c.config_list.len(), 1);
    assert_eq!(c.outputs.len(), 2);
    let empty = SpaceContainer::new(vec![config("x")], true, LIGHT, DARK);
    assert_eq!(empty.cur_bg_color(), DARK);
    assert_eq!(empty.config_list.len(), 1);
    assert!(empty.space_list.is_empty());
}

#[test]
fn theme_colors_reach_following_panels() {
    let mut dark_panel = config("dark");
    dark_panel.background = CosmicPanelBackground::Dark;
    let mut custom = config("custom");
    custom.background = CosmicPanelBackground::Color(1, 2, 3);
    let mut c = container(vec![config("panel"), dark_panel, custom], &["DP-1"]);
    let new_light = Rgba { r: 250, g: 250, b: 250, a: 255 };
    c.set_light(new_light);
    // the default opacity is 204
    assert_eq!(c.space_list[0].bg_color, Rgba { a: 204, ..new_light });
    assert_eq!(c.space_list[1].bg_color, LIGHT);
    assert_eq!(c.space_list[2].bg_color, LIGHT);
    let new_dark = Rgba { r: 5, g: 5, b: 5, a: 255 };
    c.set_dark(new_dark);
    assert_eq!(c.space_list[0].bg_color, Rgba { a: 204, ..new_light });
    assert_eq!(c.space_list[1].bg_color, new_dark);
    c.set_theme_mode(true);
    assert_eq!(c.cur_bg_color(), new_dark);
    assert_eq!(c.space_list[0].bg_color, Rgba { a: 204, ..new_dark });
    c.space_list[2].set_theme_window_color(new_light);
    assert_eq!(c.space_list[2].bg_color, new_light);
}

#[test]
fn custom_background_takes_opacity() {
    let mut c = container(vec![config("panel")], &["DP-1"]);
    let mut entry = config("panel");
    entry.background = CosmicPanelBackground::Color(10, 20, 30);
    entry.opacity = 128;
    let _ = c.update_space(entry);
    assert_eq!(c.space_list[0].bg_color, Rgba { r: 10, g: 20, b: 30, a: 128 });
}

#[test]
fn cascade_includes_panels_on_the_opposite_edge() {
    // a dock at the top with priority 300, and the panel (1110) at the top
    let mut dock = config("dock");
    dock.expand_to_edges = false;
    dock.margin = 0;
    let mut c = container(vec![config("panel"), dock.duplicate()], &["DP-1"]);
    assert_eq!(c.config_list[1].get_priority(), 300);
    // the panel moves to the bottom and falls to 10, passing the dock
    let mut entry = config("panel");
    entry.anchor = PanelAnchor::Bottom;
    entry.expand_to_edges = false;
    entry.anchor_gap = true;
    let list = recreated(c.update_space(entry));
    assert_eq!(
        list,
        vec![
            (String::from("dock"), Some(String::from("DP-1")), 300),
            (String::from("panel"), Some(String::from("DP-1")), 10),
        ]
    );
    // old instances are replaced, one per name and output
    assert_eq!(c.space_list.len(), 2);
    assert_eq!(c.space_list[0].config.name, "dock");
    assert_eq!(c.space_list[1].config.name, "panel");
    assert_eq!(c.space_list[1].config.anchor, PanelAnchor::Bottom);
    assert_eq!(c.space_list[1].config.output, CosmicPanelOuput::Name(String::from("DP-1")));
}

#[test]
fn recreation_keeps_unrelated_instances() {
    let mut other = config("other");
    other.expand_to_edges = false;
    other.anchor_gap = true;
    other.margin = 3;
    let mut c = container(vec![config("panel"), other], &["DP-1", "HDMI-1"]);
    let mut entry = config("panel");
    entry.size = PanelSize::XL;
    let list = recreated(c.update_space(entry));
    assert_eq!(list.len(), 2);
    assert_eq!(c.space_list.len(), 4);
    assert_eq!(c.space_list[0].config.name, "other");
    assert_eq!(c.space_list[1].config.name, "other");
    assert!(c.space_list[2..].iter().all(|s| s.config.size == PanelSize::XL));
}

#[test]
fn recreated_instances_take_their_background() {
    let mut c = container(vec![config("panel")], &["DP-1"]);
    let mut entry = config("panel");
    entry.size = PanelSize::S;
    entry.background = CosmicPanelBackground::Dark;
    entry.opacity = 77;
    let _ = recreated(c.update_space(entry));
    assert_eq!(c.space_list.len(), 1);
    assert_eq!(c.space_list[0].bg_color, Rgba { a: 77, ..DARK });
}
