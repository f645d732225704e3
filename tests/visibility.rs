use cosmic_panel::config::{AutoHide, CosmicPanelConfig};
use cosmic_panel::space::PanelSpace;
use cosmic_panel::visibility::{
    combine_focus, next_visibility, smoothstep, FocusEntry, FocusStatus, SurfaceAction,
    Visibility, EASE_SCALE,
};

fn autohide() -> AutoHide {
    AutoHide { wait_time: 1000, transition_time: 200, handle_size: 4 }
}

fn no_action() -> SurfaceAction {
    SurfaceAction { exclusive_zone: None, margin: None, close_popups: false }
}

#[test]
fn smoothstep_values() {
    assert_eq!(smoothstep(0, 200), 0);
    assert_eq!(smoothstep(100, 200), EASE_SCALE / 2);
    // t = 1/4: 3/16 - 2/64 = 10/64
    assert_eq!(smoothstep(50, 200), 10240);
    // t = 3/4: 27/16 - 54/64 = 54/64
    assert_eq!(smoothstep(150, 200), 55296);
    assert_eq!(smoothstep(200, 200), EASE_SCALE);
    assert_eq!(smoothstep(500, 200), EASE_SCALE);
    assert_eq!(smoothstep(5, 0), EASE_SCALE);
    let mut prev = 0;
    for p in 0..=200u64 {
        let e = smoothstep(p, 200);
        assert!(e >= prev);
        prev = e;
    }
}

#[test]
fn autohide_hides_after_wait_and_eases() {
    let ah = Some(autohide());
    let lost = FocusStatus::LastFocused(0);
    // not yet: 999 ms without focus
    let (v, a) = next_visibility(Visibility::Visible, lost, 999, ah, 38, 0, true);
    assert_eq!(v, Visibility::Visible);
    assert_eq!(a, no_action());
    // 1000 ms without focus: the hide transition starts
    let (v, a) = next_visibility(Visibility::Visible, lost, 1000, ah, 38, 0, true);
    assert_eq!(v, Visibility::TransitionToHidden { since: 1000, elapsed: 0, prev_margin: 0 });
    assert_eq!(a, no_action());
    // 100 ms later, half way: smoothstep(0.5) of the hidden offset 4 - 38
    let (v, a) = next_visibility(v, lost, 1100, ah, 38, 0, true);
    let target: i64 = 4 - 38;
    let expected = target * smoothstep(100, 200) as i64 / EASE_SCALE as i64;
    assert_eq!(expected, -17);
    assert_eq!(v, Visibility::TransitionToHidden { since: 1100, elapsed: 100, prev_margin: expected });
    assert_eq!(a.margin, Some(expected));
    assert_eq!(a.exclusive_zone, Some(38 + 17));
    assert!(a.close_popups);
    // a quarter in, the eased offset lags the linear one
    let (_, a) = next_visibility(
        Visibility::TransitionToHidden { since: 1000, elapsed: 0, prev_margin: 0 },
        lost,
        1050,
        ah,
        38,
        0,
        true,
    );
    assert_eq!(a.margin, Some(-34 * 10240 / 65536));
    assert_ne!(a.margin, Some(-34 / 4));
    // the transition ends exactly at the hidden offset
    let (v, a) = next_visibility(v, lost, 1200, ah, 38, 0, true);
    assert_eq!(v, Visibility::Hidden);
    assert_eq!(a.margin, Some(-34));
    assert_eq!(a.exclusive_zone, Some(38 + 4));
}

#[test]
fn unchanged_offset_sends_nothing() {
    let ah = Some(autohide());
    let lost = FocusStatus::LastFocused(0);
    let v = Visibility::TransitionToHidden { since: 0, elapsed: 0, prev_margin: 0 };
    let (v, a) = next_visibility(v, lost, 1, ah, 38, 0, false);
    // 1 ms of 200 moves the offset by less than a pixel
    assert_eq!(v, Visibility::TransitionToHidden { since: 1, elapsed: 1, prev_margin: 0 });
    assert_eq!(a.margin, None);
    assert_eq!(a.exclusive_zone, None);
}

#[test]
fn reversal_is_time_symmetric() {
    let ah = Some(autohide());
    let v = Visibility::TransitionToHidden { since: 1000, elapsed: 30, prev_margin: -3 };
    let (v, a) = next_visibility(v, FocusStatus::Focused, 1040, ah, 38, 0, true);
    assert_eq!(v, Visibility::TransitionToVisible { since: 1040, elapsed: 200 - 70, prev_margin: -3 });
    assert_eq!(a, no_action());
    let (v, a) = next_visibility(v, FocusStatus::LastFocused(1040), 1050, ah, 38, 0, true);
    assert_eq!(v, Visibility::TransitionToHidden { since: 1050, elapsed: 200 - 140, prev_margin: -3 });
    assert!(a.close_popups);
}

#[test]
fn reveal_completes_at_zero_offset() {
    let ah = Some(autohide());
    let (v, a) = next_visibility(Visibility::Hidden, FocusStatus::Focused, 10, ah, 38, 0, true);
    assert_eq!(v, Visibility::TransitionToVisible { since: 10, elapsed: 0, prev_margin: -34 });
    assert_eq!(a, no_action());
    let (v, a) = next_visibility(v, FocusStatus::Focused, 110, ah, 38, 0, true);
    assert_eq!(v, Visibility::TransitionToVisible { since: 110, elapsed: 100, prev_margin: -17 });
    assert_eq!(a.margin, Some(-17));
    let (v, a) = next_visibility(v, FocusStatus::Focused, 400, ah, 38, 0, true);
    assert_eq!(v, Visibility::Visible);
    assert_eq!(a.margin, Some(0));
    assert_eq!(a.exclusive_zone, Some(38));
}

#[test]
fn clock_going_back_changes_nothing() {
    let ah = Some(autohide());
    let v = Visibility::TransitionToHidden { since: 1000, elapsed: 10, prev_margin: -1 };
    let (w, a) = next_visibility(v, FocusStatus::LastFocused(0), 900, ah, 38, 0, true);
    assert_eq!(w, v);
    assert_eq!(a, no_action());
}

#[test]
fn without_autohide_always_visible() {
    let (v, a) = next_visibility(Visibility::Hidden, FocusStatus::LastFocused(0), 5000, None, 38, 0, true);
    assert_eq!(v, Visibility::Visible);
    assert_eq!(a, no_action());
}

#[test]
fn focus_of_own_surfaces_only() {
    let entries = vec![
        FocusEntry { is_own: false, status: FocusStatus::Focused },
        FocusEntry { is_own: true, status: FocusStatus::LastFocused(50) },
        FocusEntry { is_own: true, status: FocusStatus::LastFocused(30) },
    ];
    assert_eq!(combine_focus(&entries, 10), FocusStatus::LastFocused(50));
    assert_eq!(combine_focus(&entries, 90), FocusStatus::LastFocused(90));
    let mut with_focus = entries.clone();
    with_focus.push(FocusEntry { is_own: true, status: FocusStatus::Focused });
    assert_eq!(combine_focus(&with_focus, 10), FocusStatus::Focused);
    assert_eq!(combine_focus(&Vec::new(), 7), FocusStatus::LastFocused(7));
}

#[test]
fn panel_focus_tick_records_offsets() {
    let mut c = CosmicPanelConfig::default();
    c.autohide = Some(autohide());
    let mut s = PanelSpace::new(c, String::from("DP-1"), Some((1920, 1080)), 0);
    assert_eq!(s.visibility, Visibility::Hidden);
    s.configure_panel_layer(1920, 38);
    let focused = vec![FocusEntry { is_own: true, status: FocusStatus::Focused }];
    s.handle_focus(&focused, 100);
    assert_eq!(s.visibility, Visibility::TransitionToVisible { since: 100, elapsed: 0, prev_margin: -34 });
    let a = s.handle_focus(&focused, 200);
    assert_eq!(a.margin, Some(-17));
    assert_eq!(s.edge_margin, -17);
    assert_eq!(s.exclusive_zone, 38 + 17);
}
