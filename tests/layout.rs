use cosmic_panel::config::{CosmicPanelConfig, PanelAnchor, PanelSize};
use cosmic_panel::geometry::{Alignment, Point, Rect, Size};
use cosmic_panel::layout::LayoutError;
use cosmic_panel::space::PanelSpace;
use cosmic_panel::windows::{make_indices_contiguous, region_sum_of, AppletWindow};

fn win(index: usize, width: u32, height: u32) -> AppletWindow {
    AppletWindow { index, width, height, is_minimize: false }
}

fn names(v: &[&str]) -> Vec<String> {
    v.iter().map(|s| s.to_string()).collect()
}

fn bar_config() -> CosmicPanelConfig {
    let mut c = CosmicPanelConfig::default();
    c.name = String::from("panel");
    c.anchor = PanelAnchor::Top;
    c.size = PanelSize::M;
    c.padding = 4;
    c.spacing = 4;
    c.plugins_wings = Some((names(&["a", "b", "c"]), names(&["d"])));
    c.plugins_center = Some(names(&["e"]));
    c
}

fn space_with(config: CosmicPanelConfig) -> PanelSpace {
    let mut s = PanelSpace::new(config, String::from("DP-1"), Some((1920, 1080)), 0);
    s.attach_surface();
    s
}

/// Lays out once, acknowledges the requested size, and lays out again.
fn settle(s: &mut PanelSpace) {
    if let Err(LayoutError::ResizePending) = s.layout() {
        let p = s.pending_dimensions.unwrap();
        s.configure_panel_layer(p.w as u32, p.h as u32);
    }
    assert_eq!(s.layout(), Ok(()));
}

#[test]
fn three_left_windows_on_top_bar() {
    let mut s = space_with(bar_config());
    for i in 0..3 {
        s.add_window(Alignment::Left, win(i, 40, 30));
    }
    assert_eq!(region_sum_of(&s.windows_left, true, 4), 128);
    // first pass asks the host for the new thickness
    assert_eq!(s.layout(), Err(LayoutError::ResizePending));
    assert_eq!(s.pending_dimensions, Some(Size { w: 1920, h: 38 }));
    assert!(s.is_dirty);
    s.configure_panel_layer(1920, 38);
    assert_eq!(s.pending_dimensions, None);
    assert_eq!(s.dimensions, Size { w: 1920, h: 38 });
    assert_eq!(s.layout(), Ok(()));
    // 128 + 2 * padding; the length is not clamped, the thickness is
    assert_eq!(s.actual_size, Size { w: 136, h: 38 });
    assert_eq!(s.container_length, 1920);
    let xs: Vec<i64> = s.placements.iter().map(|p| p.loc.x).collect();
    assert_eq!(xs, vec![4, 48, 92]);
    assert!(s.placements.iter().all(|p| p.loc.y == 4 && p.region == Alignment::Left));
}

#[test]
fn thickness_is_clamped_into_size_class() {
    let mut s = space_with(bar_config());
    s.add_window(Alignment::Left, win(0, 40, 300));
    assert_eq!(s.layout(), Err(LayoutError::ResizePending));
    // M ends at 101, less twice the padding: largest thickness is 92
    assert_eq!(s.pending_dimensions, Some(Size { w: 1920, h: 92 }));
    let mut t = space_with(bar_config());
    t.add_window(Alignment::Left, win(0, 40, 0));
    assert_eq!(t.layout(), Err(LayoutError::ResizePending));
    assert_eq!(t.pending_dimensions, Some(Size { w: 1920, h: 8 }));
}

#[test]
fn region_sums_add_up_to_total_length() {
    let mut s = space_with(bar_config());
    s.add_window(Alignment::Left, win(0, 10, 20));
    s.add_window(Alignment::Left, win(1, 20, 20));
    s.add_window(Alignment::Center, win(0, 30, 20));
    s.add_window(Alignment::Right, win(0, 50, 20));
    settle(&mut s);
    let l = region_sum_of(&s.windows_left, true, 4);
    let c = region_sum_of(&s.windows_center, true, 4);
    let r = region_sum_of(&s.windows_right, true, 4);
    assert_eq!((l, c, r), (34, 30, 50));
    // three non-empty regions: two spacings between them
    assert_eq!(s.actual_size.w as u64, l + c + r + 2 * 4 + 4 * 2);
}

#[test]
fn layout_twice_places_windows_identically() {
    let mut s = space_with(bar_config());
    s.add_window(Alignment::Left, win(0, 10, 20));
    s.add_window(Alignment::Center, win(0, 30, 24));
    s.add_window(Alignment::Right, win(0, 50, 20));
    settle(&mut s);
    let first = s.placements.clone();
    let rect = s.panel_rect;
    let region = s.input_region;
    assert_eq!(s.layout(), Ok(()));
    assert_eq!(s.placements, first);
    assert_eq!(s.panel_rect, rect);
    assert_eq!(s.input_region, region);
}

#[test]
fn bar_regions_placement() {
    let mut s = space_with(bar_config());
    s.add_window(Alignment::Left, win(0, 10, 20));
    s.add_window(Alignment::Center, win(0, 30, 20));
    s.add_window(Alignment::Right, win(0, 50, 20));
    settle(&mut s);
    // thickness 28: windows of 20 are centered at 4
    // thirds of 1920 are 640 wide, every region fits one: left third leaves
    // 640 - 10 - 4, center third leaves (640 - 30) / 2 on each side
    let left = s.placements[0];
    let center = s.placements[1];
    let right = s.placements[2];
    assert_eq!(left.loc, Point { x: 4, y: 4 });
    assert_eq!(center.loc, Point { x: 4 + 10 + (640 - 10 - 4) + 305, y: 4 });
    assert_eq!(right.loc, Point { x: 1920 - 4 - 50, y: 4 });
    assert_eq!(s.input_region, Some(Rect { x: 0, y: 0, w: 1920, h: 28 }));
}

#[test]
fn crowded_bar_centers_by_leftover_space() {
    let mut s = space_with(bar_config());
    s.output_dims = Some((300, 1000));
    s.add_window(Alignment::Left, win(0, 150, 20));
    s.add_window(Alignment::Center, win(0, 30, 20));
    settle(&mut s);
    // left region overflows its third: center offset is half the leftover
    let center = s.placements[1];
    assert_eq!(center.loc.x, 4 + 150 + (300 - 150 - 30 - 8) / 2);
}

#[test]
fn spacing_grows_with_window_index() {
    let mut c = bar_config();
    c.spacing = 10;
    let mut s = space_with(c);
    s.add_window(Alignment::Right, win(0, 20, 20));
    s.add_window(Alignment::Right, win(1, 20, 20));
    s.add_window(Alignment::Right, win(2, 20, 20));
    settle(&mut s);
    // right sum = 60 + 2 * 10; start = 1920 - 4 - 80
    let xs: Vec<i64> = s.placements.iter().map(|p| p.loc.x).collect();
    let start = 1920 - 4 - 80;
    assert_eq!(xs, vec![start, start + 20 + 10, start + 40 + 20]);
}

#[test]
fn dock_hugs_its_content() {
    let mut c = bar_config();
    c.expand_to_edges = false;
    c.border_radius = 8;
    let mut s = space_with(c);
    s.add_window(Alignment::Center, win(0, 40, 30));
    s.add_window(Alignment::Center, win(1, 40, 30));
    settle(&mut s);
    // 40 + 40 + 4 + 2 * 4
    assert_eq!(s.container_length, 92);
    let pos = (1920 - 92) / 2;
    assert_eq!(s.input_region, Some(Rect { x: pos, y: 0, w: 92, h: 38 }));
    assert_eq!(s.panel_rect.loc, Point { x: pos, y: 38 });
    assert_eq!(s.panel_rect.size, Size { w: 92, h: 38 });
    // anchored at the top without a gap: only the bottom corners round
    assert_eq!((s.panel_rect.rad_tl, s.panel_rect.rad_tr), (0, 0));
    assert_eq!((s.panel_rect.rad_bl, s.panel_rect.rad_br), (8, 8));
    assert_eq!(s.placements[0].loc.x, pos + 4);
    assert_eq!(s.placements[1].loc.x, pos + 4 + 40 + 4);
}

#[test]
fn border_radius_is_clamped_to_half_the_panel() {
    let mut c = bar_config();
    c.border_radius = 1000;
    c.anchor_gap = true;
    c.margin = 6;
    let mut s = space_with(c);
    s.add_window(Alignment::Left, win(0, 40, 30));
    settle(&mut s);
    // thickness 38 with a gap: every corner rounds, by at most 19
    let r = s.panel_rect;
    assert_eq!((r.rad_tl, r.rad_tr, r.rad_bl, r.rad_br), (19, 19, 19, 19));
    assert!(r.rad_tl <= r.size.w / 2 && r.rad_tl <= r.size.h / 2);
    // the gap offsets windows on a top panel
    assert_eq!(s.placements[0].loc.y, 6 + 4);
    assert_eq!(s.input_region, Some(Rect { x: 0, y: 0, w: 1920, h: 44 }));
}

#[test]
fn vertical_panel_swaps_axes() {
    let mut c = bar_config();
    c.anchor = PanelAnchor::Left;
    let mut s = space_with(c);
    s.add_window(Alignment::Left, win(0, 30, 40));
    s.add_window(Alignment::Left, win(1, 20, 40));
    assert_eq!(s.layout(), Err(LayoutError::ResizePending));
    assert_eq!(s.pending_dimensions, Some(Size { w: 38, h: 1080 }));
    s.configure_panel_layer(38, 1080);
    assert_eq!(s.layout(), Ok(()));
    assert_eq!(s.actual_size, Size { w: 38, h: 40 + 40 + 4 + 8 });
    assert_eq!(s.placements[0].loc, Point { x: 4, y: 4 });
    assert_eq!(s.placements[1].loc, Point { x: 9, y: 4 + 40 + 4 });
    let r = s.panel_rect;
    assert_eq!((r.rad_tl, r.rad_tr, r.rad_bl, r.rad_br), (0, 8, 0, 8));
}

#[test]
fn layout_without_surface_fails() {
    let mut s = PanelSpace::new(bar_config(), String::from("DP-1"), Some((1920, 1080)), 0);
    s.add_window(Alignment::Left, win(0, 40, 30));
    assert_eq!(s.layout(), Err(LayoutError::MissingSurface));
    assert_eq!(s.pending_dimensions, None);
}

#[test]
fn empty_panel_is_padding_only() {
    let mut s = space_with(bar_config());
    settle(&mut s);
    assert_eq!(s.actual_size, Size { w: 8, h: 8 });
    assert!(s.placements.is_empty());
}

#[test]
fn indices_become_contiguous() {
    let mut ws = vec![win(7, 1, 1), win(2, 2, 2), win(5, 3, 3)];
    make_indices_contiguous(&mut ws);
    let got: Vec<(usize, u32)> = ws.iter().map(|w| (w.index, w.width)).collect();
    assert_eq!(got, vec![(0, 2), (1, 3), (2, 1)]);
}

#[test]
fn removing_a_window_renumbers() {
    let mut s = space_with(bar_config());
    s.add_window(Alignment::Center, win(0, 10, 10));
    s.add_window(Alignment::Center, win(1, 20, 10));
    s.add_window(Alignment::Center, win(2, 30, 10));
    s.remove_window(Alignment::Center, 1);
    let got: Vec<(usize, u32)> = s.windows_center.iter().map(|w| (w.index, w.width)).collect();
    assert_eq!(got, vec![(0, 10), (1, 30)]);
    s.resize_window(Alignment::Center, 1, 44, 12);
    assert_eq!(s.windows_center[1].width, 44);
    assert_eq!(s.windows_center[1].height, 12);
}
