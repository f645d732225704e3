use std::str::FromStr;
use cosmic_panel::config::{
    priority_score, AutoHide, CosmicPanelConfig, CosmicPanelOuput, PanelAnchor, PanelSize, ParseError,
    SizeRange,
};

fn names(v: &[&str]) -> Vec<String> {
    v.iter().map(|s| s.to_string()).collect()
}

#[test]
fn priority_counts_each_part() {
    assert_eq!(priority_score(true, 0, false, true), 1310);
    assert_eq!(priority_score(false, 3, true, false), 0);
    assert_eq!(priority_score(false, 0, true, false), 200);
    assert_eq!(priority_score(true, 4, false, false), 1100);
}

#[test]
fn priority_matches_panel_in_any_case() {
    let mut c = CosmicPanelConfig::default();
    c.name = String::from("MyPANEL");
    assert_eq!(c.get_priority(), 1000 + 100 + 10);
    c.name = String::from("dock");
    assert_eq!(c.get_priority(), 1000 + 100);
    c.name = String::from("pane");
    assert_eq!(c.get_priority(), 1100);
    c.margin = 0;
    c.anchor_gap = true;
    c.expand_to_edges = false;
    assert_eq!(c.get_priority(), 200);
}

#[test]
fn defaults() {
    let c = CosmicPanelConfig::default();
    assert_eq!(c.anchor(), PanelAnchor::Top);
    assert_eq!(c.size, PanelSize::M);
    assert_eq!(c.padding(), 4);
    assert_eq!(c.spacing(), 4);
    assert!(c.expand_to_edges());
    assert!(c.exclusive_zone());
    assert_eq!(c.autohide(), None);
    assert_eq!(c.get_margin(), 4);
    assert_eq!(c.get_effective_anchor_gap(), 0);
    assert_eq!(c.get_applet_icon_size(), 36);
    assert!(c.is_horizontal());
    assert_eq!(PanelAnchor::default(), PanelAnchor::Top);
    let a = AutoHide::default();
    assert_eq!((a.wait_time, a.transition_time, a.handle_size), (1000, 200, 4));
}

#[test]
fn autohide_getters() {
    let mut c = CosmicPanelConfig::default();
    assert_eq!(c.get_hide_wait(), None);
    assert_eq!(c.get_hide_transition(), None);
    assert_eq!(c.get_hide_handle(), None);
    c.autohide = Some(AutoHide { wait_time: 500, transition_time: 150, handle_size: 2 });
    assert_eq!(c.get_hide_wait(), Some(500));
    assert_eq!(c.get_hide_transition(), Some(150));
    assert_eq!(c.get_hide_handle(), Some(2));
    c.anchor_gap = true;
    c.margin = 7;
    assert_eq!(c.get_effective_anchor_gap(), 7);
}

#[test]
fn dimensions_by_anchor() {
    let mut c = CosmicPanelConfig::default();
    c.size = PanelSize::M;
    c.padding = 4;
    let (w, h) = c.get_dimensions(Some((1920, 1080)), None);
    assert_eq!(w, Some(SizeRange { start: 1920, end: 1921 }));
    assert_eq!(h, Some(SizeRange { start: 8, end: 93 }));
    let (w, h) = c.get_dimensions(Some((1920, 1080)), Some(1280));
    assert_eq!(w, Some(SizeRange { start: 1280, end: 1281 }));
    assert_eq!(h, Some(SizeRange { start: 8, end: 93 }));
    c.anchor = PanelAnchor::Right;
    c.size = PanelSize::XL;
    c.padding = 0;
    let (w, h) = c.get_dimensions(Some((1920, 1080)), None);
    assert_eq!(w, Some(SizeRange { start: 8, end: 141 }));
    assert_eq!(h, Some(SizeRange { start: 1080, end: 1081 }));
    let (_, h) = c.get_dimensions(None, None);
    assert_eq!(h, Some(SizeRange { start: 0, end: 1 }));
}

#[test]
fn icon_sizes() {
    let mut c = CosmicPanelConfig::default();
    let sizes = [
        (PanelSize::XS, 18),
        (PanelSize::S, 24),
        (PanelSize::M, 36),
        (PanelSize::L, 48),
        (PanelSize::XL, 64),
    ];
    for (s, px) in sizes {
        c.size = s;
        assert_eq!(c.get_applet_icon_size(), px);
    }
}

#[test]
fn dock_gathers_plugins_in_center() {
    let mut c = CosmicPanelConfig::default();
    c.plugins_wings = Some((names(&["a", "b"]), names(&["z"])));
    c.plugins_center = Some(names(&["m"]));
    assert_eq!(c.plugins_left(), Some(names(&["a", "b"])));
    assert_eq!(c.plugins_center(), Some(names(&["m"])));
    assert_eq!(c.plugins_right(), Some(names(&["z"])));
    c.expand_to_edges = false;
    assert_eq!(c.plugins_left(), None);
    assert_eq!(c.plugins_right(), None);
    assert_eq!(c.plugins_center(), Some(names(&["a", "b", "m", "z"])));
    c.plugins_center = None;
    assert_eq!(c.plugins_center(), Some(names(&["a", "b", "z"])));
    c.plugins_wings = None;
    assert_eq!(c.plugins_center(), None);
}

#[test]
fn duplicate_keeps_everything() {
    let mut c = CosmicPanelConfig::default();
    c.name = String::from("bar");
    c.output = CosmicPanelOuput::Name(String::from("DP-2"));
    c.plugins_center = Some(names(&["x"]));
    let d = c.duplicate();
    assert_eq!(d.name, "bar");
    assert_eq!(d.output, CosmicPanelOuput::Name(String::from("DP-2")));
    assert_eq!(d.plugins_center, Some(names(&["x"])));
    assert!(d.outputs().same(&c.output));
    assert_eq!(d.name(), "bar");
    assert_eq!(PanelAnchor::Left.opposite(), PanelAnchor::Right);
    assert_eq!(PanelAnchor::Bottom.opposite(), PanelAnchor::Top);
}

#[test]
fn names_parse_back() {
    for a in [PanelAnchor::Left, PanelAnchor::Right, PanelAnchor::Top, PanelAnchor::Bottom] {
        assert_eq!(PanelAnchor::from_str(a.name()), Ok(a));
    }
    for s in [PanelSize::XS, PanelSize::S, PanelSize::M, PanelSize::L, PanelSize::XL] {
        assert_eq!(PanelSize::from_str(s.name()), Ok(s));
    }
    assert_eq!(PanelAnchor::Bottom.name(), "Bottom");
    assert_eq!(PanelSize::XL.name(), "XL");
    assert_eq!("top".parse::<PanelAnchor>(), Err(ParseError::InvalidAnchor));
    assert_eq!("XXL".parse::<PanelSize>(), Err(ParseError::InvalidSize));
}

#[test]
fn outputs_parse_back() {
    assert_eq!("All".parse::<CosmicPanelOuput>(), Ok(CosmicPanelOuput::All));
    assert_eq!("Active".parse::<CosmicPanelOuput>(), Ok(CosmicPanelOuput::Active));
    assert_eq!(
        "Name(DP-1)".parse::<CosmicPanelOuput>(),
        Ok(CosmicPanelOuput::Name(String::from("DP-1")))
    );
    assert_eq!("Name()".parse::<CosmicPanelOuput>(), Ok(CosmicPanelOuput::Name(String::new())));
    assert_eq!("Name(".parse::<CosmicPanelOuput>(), Err(ParseError::InvalidOutput));
    assert_eq!("Nome(x)".parse::<CosmicPanelOuput>(), Err(ParseError::InvalidOutput));
    assert_eq!("Name(x".parse::<CosmicPanelOuput>(), Err(ParseError::InvalidOutput));
    let o = CosmicPanelOuput::Name(String::from("HDMI-A-1"));
    assert_eq!(o.to_name(), "Name(HDMI-A-1)");
    assert_eq!(CosmicPanelOuput::from_name(&o.to_name()), Some(o));
    assert_eq!(CosmicPanelOuput::Active.to_name(), "Active");
}
