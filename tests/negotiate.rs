use cosmic_panel::config::{AutoHide, CosmicPanelConfig, PanelAnchor};
use cosmic_panel::geometry::{Alignment, Point, Rect, Size};
use cosmic_panel::minimize::{set_rectangles, MinimizeApplet, MinimizeTargets};
use cosmic_panel::negotiate::TickStep;
use cosmic_panel::overflow::{Message, OverflowButton, OverflowRequest};
use cosmic_panel::space::PanelSpace;
use cosmic_panel::windows::AppletWindow;

#[test]
fn configure_clamps_and_clears_pending() {
    let mut c = CosmicPanelConfig::default();
    c.anchor_gap = true;
    c.margin = 5;
    let mut s = PanelSpace::new(c, String::from("DP-1"), Some((1920, 1080)), 0);
    s.pending_dimensions = Some(Size { w: 1920, h: 40 });
    let out = s.configure_panel_layer(1600, 500);
    assert_eq!(s.suggested_length, Some(1600));
    // 500 less the gap, clamped to 92
    assert_eq!(s.dimensions, Size { w: 1600, h: 92 });
    assert_eq!(s.pending_dimensions, None);
    assert!(s.is_dirty);
    assert_eq!(out.surface_size, Size { w: 1600, h: 97 });
    assert_eq!(out.exclusive_zone, Some(97));
    assert_eq!(out.margin, 0);
    // the same proposal again gives the same outcome
    let again = s.configure_panel_layer(1600, 500);
    assert_eq!(again, out);
    assert_eq!(s.dimensions, Size { w: 1600, h: 92 });
    // a side of 0 keeps the current one
    let keep = s.configure_panel_layer(0, 0);
    assert_eq!(keep, out);
}

#[test]
fn configure_with_autohide_reserves_the_handle() {
    let mut c = CosmicPanelConfig::default();
    c.anchor = PanelAnchor::Left;
    c.autohide = Some(AutoHide { wait_time: 1000, transition_time: 200, handle_size: 4 });
    let mut s = PanelSpace::new(c, String::from("DP-1"), Some((1920, 1080)), 0);
    let out = s.configure_panel_layer(40, 0);
    assert_eq!(s.dimensions, Size { w: 40, h: 1080 });
    assert_eq!(out.exclusive_zone, Some(44));
    // hidden: the handle stays on screen
    assert_eq!(out.margin, 4 - 40);
    assert_eq!(s.edge_margin, -36);
}

#[test]
fn constrain_dim_fixes_length() {
    let s = PanelSpace::new(CosmicPanelConfig::default(), String::from("DP-1"), Some((1920, 1080)), 0);
    assert_eq!(s.constrain_dim(Size { w: 10, h: 3 }), Size { w: 1920, h: 8 });
    assert_eq!(s.constrain_dim(Size { w: 5000, h: 50 }), Size { w: 1920, h: 50 });
}

#[test]
fn minimize_target_sent_on_change_only() {
    let mut c = CosmicPanelConfig::default();
    c.expand_to_edges = false;
    let mut s = PanelSpace::new(c, String::from("DP-1"), Some((1920, 1080)), 0);
    s.attach_surface();
    s.add_window(Alignment::Center, AppletWindow { index: 0, width: 40, height: 30, is_minimize: true });
    assert!(s.layout().is_err());
    let p = s.pending_dimensions.unwrap();
    s.configure_panel_layer(p.w as u32, p.h as u32);
    assert_eq!(s.layout(), Ok(()));
    s.update_minimize_target();
    assert_eq!(s.minimize_targets.len(), 1);
    let t = &s.minimize_targets[0];
    assert_eq!(t.output, "DP-1");
    assert_eq!(t.priority, 1);
    let pos = (1920 - 48) / 2;
    assert_eq!(t.rect, Rect { x: pos + 4, y: 4, w: 40, h: 30 });
    s.update_minimize_target();
    assert_eq!(s.minimize_targets.len(), 1);
}

#[test]
fn set_rectangles_prefers_higher_priority() {
    let mut m = MinimizeTargets { entries: Vec::new() };
    let r = Rect { x: 1, y: 2, w: 3, h: 3 };
    let a = MinimizeApplet { priority: 0, rect: r, surface: 1, surface_alive: true };
    assert!(set_rectangles(&mut m, String::from("DP-1"), a));
    let b = MinimizeApplet { priority: 0, rect: Rect { x: 9, y: 9, w: 3, h: 3 }, surface: 2, surface_alive: true };
    assert!(!set_rectangles(&mut m, String::from("DP-1"), b));
    assert_eq!(m.entries[0].1, a);
    let c = MinimizeApplet { priority: 1, ..b };
    assert!(set_rectangles(&mut m, String::from("DP-1"), c));
    assert_eq!(m.entries.len(), 1);
    assert_eq!(m.entries[0].1, c);
    assert!(set_rectangles(&mut m, String::from("HDMI-1"), a));
    assert_eq!(m.entries.len(), 2);
    let mut gone = m.entries[1].1;
    gone.surface_alive = false;
    m.entries[1].1 = gone;
    assert!(set_rectangles(&mut m, String::from("HDMI-1"), b));
    assert_eq!(m.entries[1].1, b);
}

#[test]
fn set_rectangles_follows_a_moved_surface() {
    let mut m = MinimizeTargets { entries: Vec::new() };
    let a = MinimizeApplet { priority: 1, rect: Rect { x: 1, y: 2, w: 3, h: 3 }, surface: 1, surface_alive: true };
    assert!(set_rectangles(&mut m, String::from("DP-1"), a));
    // same surface, lower priority, new rectangle: the rectangle is taken
    let moved = MinimizeApplet { priority: 0, rect: Rect { x: 50, y: 2, w: 3, h: 3 }, ..a };
    assert!(set_rectangles(&mut m, String::from("DP-1"), moved));
    assert_eq!(m.entries[0].1, MinimizeApplet { rect: moved.rect, ..a });
    // the same rectangle again changes nothing
    assert!(!set_rectangles(&mut m, String::from("DP-1"), moved));
}

#[test]
fn overflow_button_requests_toggle() {
    let mut b = OverflowButton { id: 7, pos: Point { x: 10, y: 20 }, icon_size: 16, selected: false };
    assert_eq!(b.update(Message::TogglePopup), OverflowRequest::TogglePopup(7));
    assert_eq!(b.bbox(), Rect { x: 10, y: 20, w: 16, h: 16 });
    assert!(b.is_in_input_region(Point { x: 10, y: 20 }));
    assert!(b.is_in_input_region(Point { x: 25, y: 35 }));
    assert!(!b.is_in_input_region(Point { x: 26, y: 20 }));
    b.set_selected(true);
    assert!(b.selected);
}

#[test]
fn tick_negotiates_size_before_drawing() {
    let mut s = PanelSpace::new(CosmicPanelConfig::default(), String::from("DP-1"), Some((1920, 1080)), 0);
    s.attach_surface();
    s.add_window(Alignment::Left, AppletWindow { index: 0, width: 40, height: 30, is_minimize: false });
    let none = Vec::new();
    assert_eq!(s.tick(&none, 1).1, TickStep::Skip);
    assert_eq!(s.pending_dimensions, Some(Size { w: 1920, h: 38 }));
    let step = s.tick(&none, 2).1;
    assert_eq!(
        step,
        TickStep::RequestSize { width: 0, height: 38, exclusive_zone: Some(38), margin: Some(0) }
    );
    assert_eq!(s.pending_dimensions, None);
    assert_eq!(s.tick(&none, 3).1, TickStep::Waiting);
    assert_eq!(s.placements.len(), 0);
    s.configure_panel_layer(1920, 38);
    assert_eq!(s.tick(&none, 4).1, TickStep::Render);
    assert!(!s.is_dirty);
    assert_eq!(s.placements.len(), 1);
    assert!(s.minimize_targets.is_empty());
    assert_eq!(s.tick(&none, 5).1, TickStep::Render);
}

#[test]
fn tick_forwards_minimize_target_after_layout() {
    let mut s = PanelSpace::new(CosmicPanelConfig::default(), String::from("DP-1"), Some((1920, 1080)), 0);
    assert!(!s.is_dirty);
    s.attach_surface();
    s.add_window(Alignment::Left, AppletWindow { index: 0, width: 40, height: 30, is_minimize: true });
    let none = Vec::new();
    s.tick(&none, 1);
    s.tick(&none, 2);
    s.configure_panel_layer(1920, 38);
    assert_eq!(s.tick(&none, 3).1, TickStep::Render);
    assert_eq!(s.minimize_targets.len(), 1);
    assert_eq!(s.minimize_targets[0].rect, Rect { x: 4, y: 4, w: 40, h: 30 });
    assert_eq!(s.minimize_targets[0].priority, 0);
    // nothing moved: nothing more is sent
    s.add_window(Alignment::Right, AppletWindow { index: 0, width: 10, height: 30, is_minimize: false });
    assert_eq!(s.tick(&none, 4).1, TickStep::Render);
    assert_eq!(s.minimize_targets.len(), 1);
}

#[test]
fn autohide_step_runs_last_and_not_on_resize_ticks() {
    let mut c = CosmicPanelConfig::default();
    c.autohide = Some(AutoHide { wait_time: 1000, transition_time: 200, handle_size: 4 });
    let mut s = PanelSpace::new(c, String::from("DP-1"), Some((1920, 1080)), 0);
    s.attach_surface();
    s.add_window(Alignment::Left, AppletWindow { index: 0, width: 40, height: 30, is_minimize: false });
    let focused = vec![cosmic_panel::visibility::FocusEntry {
        is_own: true,
        status: cosmic_panel::visibility::FocusStatus::Focused,
    }];
    // layout asks for a resize: no autohide step this tick
    let (a, step) = s.tick(&focused, 10);
    assert_eq!(step, TickStep::Skip);
    assert_eq!(s.visibility, cosmic_panel::visibility::Visibility::Hidden);
    assert_eq!(a.margin, None);
    // the size request is sent: still none
    let (_, step) = s.tick(&focused, 20);
    assert!(matches!(step, TickStep::RequestSize { .. }));
    assert_eq!(s.visibility, cosmic_panel::visibility::Visibility::Hidden);
    // waiting for the host: the autohide step runs
    let (_, step) = s.tick(&focused, 30);
    assert_eq!(step, TickStep::Waiting);
    assert!(matches!(s.visibility, cosmic_panel::visibility::Visibility::TransitionToVisible { since: 30, .. }));
}

#[test]
fn clamping_twice_equals_clamping_once() {
    let mut c = CosmicPanelConfig::default();
    c.size = cosmic_panel::config::PanelSize::XS;
    c.padding = 26;
    let s = PanelSpace::new(c, String::from("DP-1"), Some((1920, 1080)), 0);
    for h in [0i64, 7, 8, 9, 100] {
        let once = s.constrain_dim(Size { w: 5, h });
        assert_eq!(once.h, 8);
        assert_eq!(s.constrain_dim(once), once);
    }
}
