//! Autohide: a timed state machine that slides the panel off and on screen.

use vstd::prelude::*;

use crate::config::AutoHide;

verus! {

/// Visibility of a panel. Times are in milliseconds.
#[derive(Debug, Clone, Copy, PartialEq, Eq, Structural)]
pub enum Visibility {
    Visible,
    Hidden,
    /// sliding in: `elapsed` of the transition has passed as of `since`
    TransitionToVisible { since: u64, elapsed: u64, prev_margin: i64 },
    /// sliding out: `elapsed` of the transition has passed as of `since`
    TransitionToHidden { since: u64, elapsed: u64, prev_margin: i64 },
}

/// Focus of the pointer or keyboard on a surface.
#[derive(Debug, Clone, Copy, PartialEq, Eq, Structural)]
pub enum FocusStatus {
    Focused,
    /// not focused since the given time, in milliseconds
    LastFocused(u64),
}

/// A focus report: whether the surface belongs to this panel (the panel
/// itself or one of its popups), and its status.
#[derive(Debug, Clone, Copy, PartialEq, Eq, Structural)]
pub struct FocusEntry {
    pub is_own: bool,
    pub status: FocusStatus,
}

/// What the surface must be told after a visibility step.
#[derive(Debug, Clone, Copy, PartialEq, Eq, Structural)]
pub struct SurfaceAction {
    /// new exclusive zone, where it changes and the panel reserves one
    pub exclusive_zone: Option<i64>,
    /// new offset of the panel from its anchored edge, where it changes
    pub margin: Option<i64>,
    /// whether the panel's popups are to be closed
    pub close_popups: bool,
}

pub open spec fn no_action() -> SurfaceAction {
    SurfaceAction { exclusive_zone: None, margin: None, close_popups: false }
}

/// Fixed-point scale of the easing curve: 1.0 is `EASE_SCALE`.
pub const EASE_SCALE: u64 = 65536;

/// Smoothstep `3t² − 2t³` of `t = progress / total`, clamped to `[0, 1]`,
/// in units of `1 / EASE_SCALE`, rounded down.
pub open spec fn ease(progress: int, total: int) -> int {
    if total <= 0 || progress >= total {
        EASE_SCALE as int
    } else {
        (3 * (progress * progress * total) - 2 * (progress * progress * progress)) * EASE_SCALE as int
            / (total * total * total)
    }
}

/// `x / d` rounded toward zero, for `d > 0`.
pub open spec fn div_toward_zero(x: int, d: int) -> int {
    if x >= 0 {
        x / d
    } else {
        -((-x) / d)
    }
}

/// `value` scaled by the eased progress, rounded toward zero.
pub open spec fn eased(value: int, progress: int, total: int) -> int {
    div_toward_zero(value * ease(progress, total), EASE_SCALE as int)
}

/// `value` scaled by what remains of the eased progress, rounded toward zero.
pub open spec fn eased_rest(value: int, progress: int, total: int) -> int {
    div_toward_zero(value * (EASE_SCALE - ease(progress, total)), EASE_SCALE as int)
}

proof fn lemma_ease_numerator(p: int, t: int)
    requires
        0 <= p < t,
    ensures
        0 <= 3 * (p * p * t) - 2 * (p * p * p) <= t * t * t,
        t * t * t > 0,
{
    assert(3 * (p * p * t) - 2 * (p * p * p) == p * p * (3 * t - 2 * p)) by (nonlinear_arith);
    assert(p * p * (3 * t - 2 * p) >= 0) by (nonlinear_arith)
        requires
            0 <= p < t,
    ;
    assert(t * t * t - (3 * (p * p * t) - 2 * (p * p * p)) == (t - p) * (t - p) * (t + 2 * p))
        by (nonlinear_arith);
    assert((t - p) * (t - p) * (t + 2 * p) >= 0) by (nonlinear_arith)
        requires
            0 <= p < t,
    ;
    assert(t * t * t > 0) by (nonlinear_arith)
        requires
            t > 0,
    ;
}

pub proof fn lemma_ease_bounds(progress: int, total: int)
    requires
        progress >= 0,
    ensures
        0 <= ease(progress, total) <= EASE_SCALE,
{
    if total > 0 && progress < total {
        lemma_ease_numerator(progress, total);
        let n = 3 * (progress * progress * total) - 2 * (progress * progress * progress);
        let d = total * total * total;
        assert(n * EASE_SCALE <= d * EASE_SCALE) by (nonlinear_arith)
            requires
                0 <= n <= d,
        ;
        vstd::arithmetic::div_mod::lemma_div_is_ordered(n * EASE_SCALE, d * EASE_SCALE, d);
        vstd::arithmetic::div_mod::lemma_div_multiples_vanish(EASE_SCALE as int, d);
        assert(d * EASE_SCALE == EASE_SCALE * d) by (nonlinear_arith);
        vstd::arithmetic::div_mod::lemma_div_pos_is_pos(n * EASE_SCALE, d);
    }
}

/// Eased progress of a transition (see `ease`).
pub fn smoothstep(progress: u64, total: u32) -> (r: u64)
    ensures
        r == ease(progress as int, total as int),
        r <= EASE_SCALE,
{
    proof {
        lemma_ease_bounds(progress as int, total as int);
    }
    if total == 0 || progress >= total as u64 {
        return EASE_SCALE;
    }
    let p = progress as u128;
    let t = total as u128;
    proof {
        lemma_ease_numerator(p as int, t as int);
        assert(p * p <= 0xffff_ffff * 0xffff_ffffu128) by (nonlinear_arith)
            requires
                p < t <= 0xffff_ffff,
        ;
        assert(p * p * t <= 0xffff_ffff * 0xffff_ffffu128 * 0xffff_ffff) by (nonlinear_arith)
            requires
                p * p <= 0xffff_ffff * 0xffff_ffffu128,
                t <= 0xffff_ffff,
        ;
        assert(p * p * p <= p * p * t) by (nonlinear_arith)
            requires
                p < t,
        ;
        assert(t * t <= 0xffff_ffff * 0xffff_ffffu128) by (nonlinear_arith)
            requires
                t <= 0xffff_ffff,
        ;
        assert(t * t * t <= 0xffff_ffff * 0xffff_ffffu128 * 0xffff_ffff) by (nonlinear_arith)
            requires
                t * t <= 0xffff_ffff * 0xffff_ffffu128,
                t <= 0xffff_ffff,
        ;
    }
    let pp = p * p;
    let a = pp * t;
    let b = pp * p;
    assert(a == p * p * t);
    assert(b == p * p * p);
    let num = 3 * a - 2 * b;
    proof {
        assert(num * 65536 <= 0xffff_ffff * 0xffff_ffffu128 * 0xffff_ffff * 65536) by (nonlinear_arith)
            requires
                num <= t * t * t,
                t * t * t <= 0xffff_ffff * 0xffff_ffffu128 * 0xffff_ffff,
        ;
    }
    let den = t * t * t;
    let q = num * EASE_SCALE as u128 / den;
    assert(q == ease(progress as int, total as int));
    q as u64
}

/// `value` times `factor / EASE_SCALE`, rounded toward zero.
fn scale_toward_zero(value: i64, factor: u64) -> (r: i64)
    requires
        -0x100_0000_0000 <= value <= 0x100_0000_0000,
        factor <= EASE_SCALE,
    ensures
        r == div_toward_zero(value * factor, EASE_SCALE as int),
        value >= 0 ==> 0 <= r <= value,
        value < 0 ==> value <= r <= 0,
{
    proof {
        if value >= 0 {
            assert(0 <= value * factor <= value * 65536) by (nonlinear_arith)
                requires
                    value >= 0,
                    0 <= factor <= 65536,
            ;
            vstd::arithmetic::div_mod::lemma_div_is_ordered(value * factor, value * 65536, 65536);
            vstd::arithmetic::div_mod::lemma_div_multiples_vanish(value as int, 65536);
            assert(value * 65536 == 65536 * value) by (nonlinear_arith);
        } else {
            assert(0 <= -(value * factor) <= (-value) * 65536) by (nonlinear_arith)
                requires
                    value < 0,
                    0 <= factor <= 65536,
            ;
            vstd::arithmetic::div_mod::lemma_div_is_ordered(-(value * factor), (-value) * 65536, 65536);
            vstd::arithmetic::div_mod::lemma_div_multiples_vanish(-value, 65536);
            assert((-value) * 65536 == 65536 * (-value)) by (nonlinear_arith);
        }
        assert(-0x100_0000_0000 * 65536 <= value * factor <= 0x100_0000_0000 * 65536)
            by (nonlinear_arith)
            requires
                -0x100_0000_0000 <= value <= 0x100_0000_0000,
                0 <= factor <= 65536,
        ;
    }
    let f = factor as i64;
    assert(f == factor);
    let x = value * f;
    if x >= 0 {
        x / EASE_SCALE as i64
    } else {
        -((-x) / EASE_SCALE as i64)
    }
}

/// Focus of a panel from all reports: focused if any of its own surfaces is;
/// otherwise the latest time one of them lost focus, and no earlier than `start`.
pub open spec fn combined_focus(entries: Seq<FocusEntry>, start: u64) -> FocusStatus
    decreases entries.len(),
{
    if entries.len() == 0 {
        FocusStatus::LastFocused(start)
    } else {
        let acc = combined_focus(entries.drop_last(), start);
        let e = entries.last();
        if !e.is_own {
            acc
        } else {
            match (acc, e.status) {
                (FocusStatus::LastFocused(ta), FocusStatus::LastFocused(tc)) => if tc > ta {
                    e.status
                } else {
                    acc
                },
                (FocusStatus::LastFocused(_), FocusStatus::Focused) => FocusStatus::Focused,
                _ => acc,
            }
        }
    }
}

/// Combines focus reports into the focus of one panel (see `combined_focus`).
pub fn combine_focus(entries: &Vec<FocusEntry>, start: u64) -> (r: FocusStatus)
    ensures
        r == combined_focus(entries@, start),
{
    let mut acc = FocusStatus::LastFocused(start);
    let mut i: usize = 0;
    while i < entries.len()
        invariant
            0 <= i <= entries@.len(),
            acc == combined_focus(entries@.take(i as int), start),
        decreases entries@.len() - i,
    {
        let e = entries[i];
        proof {
            assert(entries@.take(i + 1).drop_last() =~= entries@.take(i as int));
        }
        if e.is_own {
            acc = match (acc, e.status) {
                (FocusStatus::LastFocused(ta), FocusStatus::LastFocused(tc)) => if tc > ta {
                    e.status
                } else {
                    acc
                },
                (FocusStatus::LastFocused(_), FocusStatus::Focused) => FocusStatus::Focused,
                _ => acc,
            };
        }
        i += 1;
    }
    proof {
        assert(entries@.take(i as int) =~= entries@);
    }
    acc
}

/// Elapsed time of a transition after a tick at `now`: `None` where the clock
/// went backwards or the sum does not fit.
pub open spec fn advanced(since: u64, elapsed: u64, now: u64) -> Option<u64> {
    if now < since || elapsed + (now - since) > u64::MAX {
        None
    } else {
        Some((elapsed + (now - since)) as u64)
    }
}

/// Elapsed time of the reversed transition: what the current one had left.
pub open spec fn reversed(total: u64, progress: u64) -> u64 {
    if progress <= total {
        (total - progress) as u64
    } else {
        0
    }
}

/// One tick of the autohide state machine.
///
/// `thickness` is the panel's crosswise size and `gap` its anchor gap; while
/// hidden the panel sits at `handle_size − (thickness + gap)` from its edge.
pub open spec fn visibility_step(
    v: Visibility,
    focus: FocusStatus,
    now: u64,
    ah: AutoHide,
    thickness: int,
    gap: int,
    exclusive: bool,
) -> (Visibility, SurfaceAction) {
    let total = ah.transition_time as u64;
    let handle = ah.handle_size as int;
    let panel_size = thickness + gap;
    let hidden_margin = handle - panel_size;
    match v {
        Visibility::Hidden => match focus {
            FocusStatus::Focused => (
                Visibility::TransitionToVisible {
                    since: now,
                    elapsed: 0,
                    prev_margin: (handle - thickness) as i64,
                },
                no_action(),
            ),
            _ => (v, no_action()),
        },
        Visibility::Visible => match focus {
            FocusStatus::LastFocused(t) if now >= t && now - t >= ah.wait_time => (
                Visibility::TransitionToHidden { since: now, elapsed: 0, prev_margin: 0 },
                no_action(),
            ),
            _ => (v, no_action()),
        },
        Visibility::TransitionToHidden { since, elapsed, prev_margin } => match advanced(
            since,
            elapsed,
            now,
        ) {
            None => (v, no_action()),
            Some(progress) => if focus is Focused {
                (
                    Visibility::TransitionToVisible {
                        since: now,
                        elapsed: reversed(total, progress),
                        prev_margin,
                    },
                    no_action(),
                )
            } else if progress >= total {
                (
                    Visibility::Hidden,
                    SurfaceAction {
                        exclusive_zone: if exclusive {
                            Some((panel_size + handle) as i64)
                        } else {
                            None
                        },
                        margin: Some(hidden_margin as i64),
                        close_popups: false,
                    },
                )
            } else {
                let cur = eased(hidden_margin, progress as int, total as int);
                (
                    Visibility::TransitionToHidden {
                        since: now,
                        elapsed: progress,
                        prev_margin: cur as i64,
                    },
                    SurfaceAction {
                        exclusive_zone: if exclusive && prev_margin != cur {
                            Some((panel_size - cur) as i64)
                        } else {
                            None
                        },
                        margin: if prev_margin != cur {
                            Some(cur as i64)
                        } else {
                            None
                        },
                        close_popups: true,
                    },
                )
            },
        },
        Visibility::TransitionToVisible { since, elapsed, prev_margin } => match advanced(
            since,
            elapsed,
            now,
        ) {
            None => (v, no_action()),
            Some(progress) => if focus is LastFocused {
                (
                    Visibility::TransitionToHidden {
                        since: now,
                        elapsed: reversed(total, progress),
                        prev_margin,
                    },
                    SurfaceAction { exclusive_zone: None, margin: None, close_popups: true },
                )
            } else if progress >= total {
                (
                    Visibility::Visible,
                    SurfaceAction {
                        exclusive_zone: if exclusive {
                            Some(panel_size as i64)
                        } else {
                            None
                        },
                        margin: Some(0),
                        close_popups: false,
                    },
                )
            } else {
                let cur = eased_rest(hidden_margin, progress as int, total as int);
                (
                    Visibility::TransitionToVisible {
                        since: now,
                        elapsed: progress,
                        prev_margin: cur as i64,
                    },
                    SurfaceAction {
                        exclusive_zone: if exclusive && prev_margin != cur {
                            Some((panel_size - cur) as i64)
                        } else {
                            None
                        },
                        margin: if prev_margin != cur {
                            Some(cur as i64)
                        } else {
                            None
                        },
                        close_popups: false,
                    },
                )
            },
        },
    }
}

/// One tick of the autohide state machine (see `visibility_step`). Without
/// autohide the panel stays visible and nothing is done.
pub fn next_visibility(
    v: Visibility,
    focus: FocusStatus,
    now: u64,
    autohide: Option<AutoHide>,
    thickness: i64,
    gap: u32,
    exclusive: bool,
) -> (r: (Visibility, SurfaceAction))
    requires
        0 <= thickness <= u32::MAX,
        gap <= u16::MAX,
    ensures
        autohide is None ==> r == (Visibility::Visible, no_action()),
        autohide is Some ==> r == visibility_step(
            v,
            focus,
            now,
            autohide->0,
            thickness as int,
            gap as int,
            exclusive,
        ),
{
    let ah = match autohide {
        None => {
            return (Visibility::Visible, SurfaceAction { exclusive_zone: None, margin: None, close_popups: false });
        },
        Some(ah) => ah,
    };
    let none = SurfaceAction { exclusive_zone: None, margin: None, close_popups: false };
    let total = ah.transition_time as u64;
    let handle = ah.handle_size as i64;
    let panel_size = thickness + gap as i64;
    let hidden_margin = handle - panel_size;
    match v {
        Visibility::Hidden => match focus {
            FocusStatus::Focused => (
                Visibility::TransitionToVisible { since: now, elapsed: 0, prev_margin: handle - thickness },
                none,
            ),
            _ => (v, none),
        },
        Visibility::Visible => match focus {
            FocusStatus::LastFocused(t) => {
                if now >= t && now - t >= ah.wait_time as u64 {
                    (Visibility::TransitionToHidden { since: now, elapsed: 0, prev_margin: 0 }, none)
                } else {
                    (v, none)
                }
            },
            _ => (v, none),
        },
        Visibility::TransitionToHidden { since, elapsed, prev_margin } => {
            if now < since || elapsed > u64::MAX - (now - since) {
                return (v, none);
            }
            let progress = elapsed + (now - since);
            if let FocusStatus::Focused = focus {
                let back = if progress <= total { total - progress } else { 0 };
                (Visibility::TransitionToVisible { since: now, elapsed: back, prev_margin }, none)
            } else if progress >= total {
                (
                    Visibility::Hidden,
                    SurfaceAction {
                        exclusive_zone: if exclusive { Some(panel_size + handle) } else { None },
                        margin: Some(hidden_margin),
                        close_popups: false,
                    },
                )
            } else {
                let e = smoothstep(progress, ah.transition_time);
                let cur = scale_toward_zero(hidden_margin, e);
                let changed = prev_margin != cur;
                (
                    Visibility::TransitionToHidden { since: now, elapsed: progress, prev_margin: cur },
                    SurfaceAction {
                        exclusive_zone: if exclusive && changed { Some(panel_size - cur) } else { None },
                        margin: if changed { Some(cur) } else { None },
                        close_popups: true,
                    },
                )
            }
        },
        Visibility::TransitionToVisible { since, elapsed, prev_margin } => {
            if now < since || elapsed > u64::MAX - (now - since) {
                return (v, none);
            }
            let progress = elapsed + (now - since);
            if let FocusStatus::LastFocused(_) = focus {
                let back = if progress <= total { total - progress } else { 0 };
                (
                    Visibility::TransitionToHidden { since: now, elapsed: back, prev_margin },
                    SurfaceAction { exclusive_zone: None, margin: None, close_popups: true },
                )
            } else if progress >= total {
                (
                    Visibility::Visible,
                    SurfaceAction {
                        exclusive_zone: if exclusive { Some(panel_size) } else { None },
                        margin: Some(0),
                        close_popups: false,
                    },
                )
            } else {
                let e = smoothstep(progress, ah.transition_time);
                let cur = scale_toward_zero(hidden_margin, EASE_SCALE - e);
                let changed = prev_margin != cur;
                (
                    Visibility::TransitionToVisible { since: now, elapsed: progress, prev_margin: cur },
                    SurfaceAction {
                        exclusive_zone: if exclusive && changed { Some(panel_size - cur) } else { None },
                        margin: if changed { Some(cur) } else { None },
                        close_popups: false,
                    },
                )
            }
        },
    }
}

proof fn lemma_smoothstep_numerator_monotonic(lo: int, hi: int, t: int)
    requires
        0 <= lo <= hi < t,
    ensures
        3 * (lo * lo * t) - 2 * (lo * lo * lo) <= 3 * (hi * hi * t) - 2 * (hi * hi * hi),
{
    let d = hi - lo;
    let bracket = 3 * t * (lo + hi) - 2 * (lo * lo + lo * hi + hi * hi);
    assert(hi * hi * t - lo * lo * t == (hi - lo) * ((lo + hi) * t)) by (nonlinear_arith);
    assert(hi * hi * hi - lo * lo * lo == (hi - lo) * (lo * lo + lo * hi + hi * hi))
        by (nonlinear_arith);
    assert(3 * ((hi - lo) * ((lo + hi) * t)) - 2 * ((hi - lo) * (lo * lo + lo * hi + hi * hi)) == d
        * bracket) by (nonlinear_arith)
        requires
            d == hi - lo,
            bracket == 3 * t * (lo + hi) - 2 * (lo * lo + lo * hi + hi * hi),
    ;
    assert(3 * t * (lo + hi) >= 3 * hi * (lo + hi)) by (nonlinear_arith)
        requires
            0 <= lo <= hi < t,
    ;
    assert(3 * hi * (lo + hi) - 2 * (lo * lo + lo * hi + hi * hi) == lo * hi + hi * hi - 2 * (lo
        * lo)) by (nonlinear_arith);
    assert(lo * hi >= lo * lo) by (nonlinear_arith)
        requires
            0 <= lo <= hi,
    ;
    assert(hi * hi >= lo * lo) by (nonlinear_arith)
        requires
            0 <= lo <= hi,
    ;
    assert(d * bracket >= 0) by (nonlinear_arith)
        requires
            d >= 0,
            bracket >= 0,
    ;
}

/// The eased progress of a transition never decreases as its elapsed time grows.
pub proof fn law_ease_monotonic(lo: int, hi: int, total: int)
    requires
        0 <= lo <= hi,
    ensures
        ease(lo, total) <= ease(hi, total),
{
    lemma_ease_bounds(lo, total);
    lemma_ease_bounds(hi, total);
    if total > 0 && hi < total {
        lemma_smoothstep_numerator_monotonic(lo, hi, total);
        lemma_ease_numerator(lo, total);
        let n1 = 3 * (lo * lo * total) - 2 * (lo * lo * lo);
        let n2 = 3 * (hi * hi * total) - 2 * (hi * hi * hi);
        assert(n1 * EASE_SCALE <= n2 * EASE_SCALE) by (nonlinear_arith)
            requires
                n1 <= n2,
        ;
        vstd::arithmetic::div_mod::lemma_div_is_ordered(
            n1 * EASE_SCALE,
            n2 * EASE_SCALE,
            total * total * total,
        );
    }
}

/// Within one direction, a tick never lowers the elapsed time of a
/// transition: a transition that stays a transition to hidden (or to visible)
/// has at least the elapsed time it had.
pub proof fn law_elapsed_monotonic(
    v: Visibility,
    focus: FocusStatus,
    now: u64,
    ah: AutoHide,
    thickness: int,
    gap: int,
    exclusive: bool,
)
    ensures
        ({
            let next = visibility_step(v, focus, now, ah, thickness, gap, exclusive).0;
            &&& (v is TransitionToHidden && next is TransitionToHidden) ==> next->TransitionToHidden_elapsed
                >= v->TransitionToHidden_elapsed
            &&& (v is TransitionToVisible && next is TransitionToVisible)
                ==> next->TransitionToVisible_elapsed >= v->TransitionToVisible_elapsed
        }),
{
}

/// Reversing mid-transition is time-symmetric: the reversed transition
/// starts now with what the interrupted one had left, `total − elapsed`
/// (nothing where it had run over), and keeps the last offset; reversing a
/// reveal also closes the popups.
pub proof fn law_reversal_symmetric(
    since: u64,
    elapsed: u64,
    prev_margin: i64,
    now: u64,
    t: u64,
    ah: AutoHide,
    thickness: int,
    gap: int,
    exclusive: bool,
)
    requires
        since <= now,
        elapsed + (now - since) <= u64::MAX,
    ensures
        ({
            let progress = (elapsed + (now - since)) as u64;
            let total = ah.transition_time as u64;
            let back = if progress <= total { (total - progress) as u64 } else { 0u64 };
            let hiding = Visibility::TransitionToHidden { since, elapsed, prev_margin };
            let showing = Visibility::TransitionToVisible { since, elapsed, prev_margin };
            let r1 = visibility_step(hiding, FocusStatus::Focused, now, ah, thickness, gap, exclusive);
            let r2 = visibility_step(showing, FocusStatus::LastFocused(t), now, ah, thickness, gap, exclusive);
            &&& back == reversed(total, progress)
            &&& r1.0 == (Visibility::TransitionToVisible { since: now, elapsed: back, prev_margin })
            &&& r2.0 == (Visibility::TransitionToHidden { since: now, elapsed: back, prev_margin })
            &&& r2.1.close_popups
        }),
{
}

proof fn lemma_eased_between(value: int, e1: int, e2: int)
    requires
        value <= 0,
        0 <= e1 <= e2 <= EASE_SCALE,
    ensures
        value <= div_toward_zero(value * e2, EASE_SCALE as int) <= div_toward_zero(
            value * e1,
            EASE_SCALE as int,
        ) <= 0,
{
    let s = EASE_SCALE as int;
    assert(0 <= -(value * e1) <= -(value * e2) <= (-value) * s) by (nonlinear_arith)
        requires
            value <= 0,
            0 <= e1 <= e2 <= s,
    ;
    vstd::arithmetic::div_mod::lemma_div_is_ordered(-(value * e1), -(value * e2), s);
    vstd::arithmetic::div_mod::lemma_div_is_ordered(-(value * e2), (-value) * s, s);
    vstd::arithmetic::div_mod::lemma_div_multiples_vanish(-value, s);
    assert((-value) * s == s * (-value)) by (nonlinear_arith);
    vstd::arithmetic::div_mod::lemma_div_pos_is_pos(-(value * e1), s);
    if value * e1 == 0 {
        assert(div_toward_zero(value * e1, s) == 0);
    }
    if value * e2 == 0 {
        assert(value * e1 == 0) by (nonlinear_arith)
            requires
                0 <= -(value * e1) <= -(value * e2),
                value * e2 == 0,
        ;
    }
}

/// During a transition the offset only moves one way: while hiding it goes
/// from 0 toward the hidden offset, while showing from the hidden offset
/// toward 0. A tick that does not end or reverse the transition emits the
/// eased offset of the new elapsed time, between the last one and the end.
pub proof fn law_margin_monotonic(
    since: u64,
    elapsed: u64,
    now: u64,
    t: u64,
    ah: AutoHide,
    thickness: int,
    gap: int,
    exclusive: bool,
)
    requires
        since <= now,
        elapsed + (now - since) < ah.transition_time,
        0 <= thickness <= u32::MAX,
        0 <= gap <= u16::MAX,
        ah.handle_size <= thickness + gap,
    ensures
        ({
            let hm = ah.handle_size - (thickness + gap);
            let total = ah.transition_time as int;
            let progress = elapsed + (now - since);
            let m_hide = eased(hm, elapsed as int, total);
            let m_show = eased_rest(hm, elapsed as int, total);
            let n_hide = visibility_step(
                Visibility::TransitionToHidden { since, elapsed, prev_margin: m_hide as i64 },
                FocusStatus::LastFocused(t),
                now,
                ah,
                thickness,
                gap,
                exclusive,
            ).0;
            let n_show = visibility_step(
                Visibility::TransitionToVisible { since, elapsed, prev_margin: m_show as i64 },
                FocusStatus::Focused,
                now,
                ah,
                thickness,
                gap,
                exclusive,
            ).0;
            &&& hm <= m_hide <= 0
            &&& hm <= m_show <= 0
            &&& n_hide is TransitionToHidden
            &&& hm <= n_hide->TransitionToHidden_prev_margin <= m_hide
            &&& n_show is TransitionToVisible
            &&& m_show <= n_show->TransitionToVisible_prev_margin <= 0
        }),
{
    let hm = ah.handle_size - (thickness + gap);
    let total = ah.transition_time as int;
    let progress = elapsed + (now - since);
    law_ease_monotonic(elapsed as int, progress, total);
    lemma_ease_bounds(elapsed as int, total);
    lemma_ease_bounds(progress, total);
    let e1 = ease(elapsed as int, total);
    let e2 = ease(progress, total);
    lemma_eased_between(hm, e1, e2);
    lemma_eased_between(hm, EASE_SCALE - e2, EASE_SCALE - e1);
    lemma_eased_between(hm, 0, e1);
    lemma_eased_between(hm, EASE_SCALE - e1, EASE_SCALE as int);
    lemma_eased_between(hm, 0, e2);
    lemma_eased_between(hm, EASE_SCALE - e2, EASE_SCALE as int);
}

} // verus!
