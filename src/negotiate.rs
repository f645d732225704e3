//! Size negotiation with the host, and the per-tick focus step of a panel.

use vstd::prelude::*;

use crate::config::SizeRange;
use crate::geometry::Size;
use crate::minimize::minimize_fold;
use crate::space::{MinimizeTarget, PanelSpace};
use crate::visibility::{
    combine_focus, combined_focus, next_visibility, visibility_step, FocusEntry, SurfaceAction,
    Visibility,
};

verus! {

/// `x` brought into the half-open range `r`.
pub open spec fn clamp_range(x: int, r: SizeRange) -> int {
    if x < r.start {
        r.start as int
    } else if x >= r.end {
        r.end - 1
    } else {
        x
    }
}

/// What the surface is told after the host proposed a size.
#[derive(Debug, Clone, Copy, PartialEq, Eq, Structural)]
pub struct ConfigureOutcome {
    /// size of the surface, anchor gap included
    pub surface_size: Size,
    /// exclusive zone to reserve, where the panel reserves one
    pub exclusive_zone: Option<i64>,
    /// offset of the panel from its anchored edge
    pub margin: i64,
}

impl PanelSpace {
    /// `size` with its length fixed by the output and its thickness clamped
    /// into the size class.
    pub open spec fn constrained(&self, size: Size) -> Size {
        let o = self.output_length() as i64;
        let r = self.config.thickness_range();
        if self.horizontal() {
            Size { w: o, h: clamp_range(size.h as int, r) as i64 }
        } else {
            Size { w: clamp_range(size.w as int, r) as i64, h: o }
        }
    }

    /// Clamps a size to the admissible ranges of this panel.
    pub fn constrain_dim(&self, size: Size) -> (r: Size)
        requires
            self.config.padding_fits(),
            self.output_length() < u32::MAX,
            0 <= size.w,
            0 <= size.h,
        ensures
            r == self.constrained(size),
    {
        let mut w = size.w;
        let mut h = size.h;
        let (w_range, h_range) = self.config.get_dimensions(self.output_dims, self.suggested_length);
        if let Some(wr) = w_range {
            if w < wr.start as i64 {
                w = wr.start as i64;
            } else if w >= wr.end as i64 {
                w = wr.end as i64 - 1;
            }
        }
        if let Some(hr) = h_range {
            if h < hr.start as i64 {
                h = hr.start as i64;
            } else if h >= hr.end as i64 {
                h = hr.end as i64 - 1;
            }
        }
        Size { w, h }
    }

    /// Thickness of the surface as it stands, without the anchor gap.
    pub open spec fn surface_thickness(&self) -> int {
        if self.horizontal() {
            self.dimensions.h as int
        } else {
            self.dimensions.w as int
        }
    }

    /// Length the host suggests after proposing `w` by `h`: the proposed
    /// length where it gives one, else the earlier suggestion.
    pub open spec fn suggestion_after(&self, w: u32, h: u32) -> Option<u32> {
        if self.horizontal() {
            if w != 0 { Some(w) } else { self.suggested_length }
        } else {
            if h != 0 { Some(h) } else { self.suggested_length }
        }
    }

    /// The surface size proposed by the host, without the anchor gap: a side
    /// of 0 keeps the current one.
    pub open spec fn proposed_inner(&self, w: u32, h: u32) -> Size {
        let g = self.gap();
        let pw: int = if w != 0 { w as int } else if self.horizontal() { self.dimensions.w as int } else { self.dimensions.w + g };
        let ph: int = if h != 0 { h as int } else if self.horizontal() { self.dimensions.h + g } else { self.dimensions.h as int };
        if self.horizontal() {
            Size { w: pw as i64, h: (if ph > g { ph - g } else { 0 }) as i64 }
        } else {
            Size { w: (if pw > g { pw - g } else { 0 }) as i64, h: ph as i64 }
        }
    }

    /// Offset from the anchored edge that goes with a visibility state.
    pub open spec fn margin_for(&self, v: Visibility) -> int {
        match v {
            Visibility::Visible => 0,
            Visibility::Hidden => match self.config.autohide {
                Some(ah) => ah.handle_size - (self.surface_thickness() + self.gap()),
                None => 0,
            },
            Visibility::TransitionToVisible { prev_margin, .. } => prev_margin as int,
            Visibility::TransitionToHidden { prev_margin, .. } => prev_margin as int,
        }
    }

    /// Sizes this panel works with fit their integer types.
    pub open spec fn sizes_fit(&self) -> bool {
        &&& self.config.padding_fits()
        &&& 0 <= self.dimensions.w <= u32::MAX
        &&& 0 <= self.dimensions.h <= u32::MAX
        &&& self.output_dims matches Some((ow, oh)) ==> ow < u32::MAX && oh < u32::MAX
        &&& self.suggested_length matches Some(l) ==> l < u32::MAX
    }

    fn proposed_inner_exec(&self, w: u32, h: u32) -> (r: Size)
        requires
            self.sizes_fit(),
        ensures
            r == self.proposed_inner(w, h),
            0 <= r.w <= u32::MAX + u16::MAX,
            0 <= r.h <= u32::MAX + u16::MAX,
    {
        let horizontal = self.config.is_horizontal();
        let gap = self.config.get_effective_anchor_gap() as i64;
        let pw: i64 = if w != 0 {
            w as i64
        } else if horizontal {
            self.dimensions.w
        } else {
            self.dimensions.w + gap
        };
        let ph: i64 = if h != 0 {
            h as i64
        } else if horizontal {
            self.dimensions.h + gap
        } else {
            self.dimensions.h
        };
        if horizontal {
            Size { w: pw, h: if ph > gap { ph - gap } else { 0 } }
        } else {
            Size { w: if pw > gap { pw - gap } else { 0 }, h: ph }
        }
    }

    /// Acknowledges a size proposed by the host (0 for a side it leaves to the
    /// panel): takes its length as the suggested one, clamps the surface to
    /// the size class, clears the pending request and marks the panel for a
    /// new layout. Returns the surface size, exclusive zone and edge offset
    /// to commit.
    #[verifier::rlimit(30)]
    pub fn configure_panel_layer(&mut self, w: u32, h: u32) -> (r: ConfigureOutcome)
        requires
            old(self).sizes_fit(),
            w < u32::MAX,
            h < u32::MAX,
        ensures
            final(self).suggested_length == old(self).suggestion_after(w, h),
            final(self).dimensions == final(self).constrained(old(self).proposed_inner(w, h)),
            final(self).pending_dimensions is None,
            final(self).is_dirty,
            final(self).config == old(self).config,
            final(self).windows_left == old(self).windows_left,
            final(self).windows_center == old(self).windows_center,
            final(self).windows_right == old(self).windows_right,
            final(self).visibility == old(self).visibility,
            final(self).output_dims == old(self).output_dims,
            r.surface_size == (if final(self).horizontal() {
                Size { w: final(self).dimensions.w, h: (final(self).dimensions.h + final(self).gap()) as i64 }
            } else {
                Size { w: (final(self).dimensions.w + final(self).gap()) as i64, h: final(self).dimensions.h }
            }),
            r.exclusive_zone == (if old(self).config.exclusive_zone {
                Some((final(self).surface_thickness() + final(self).gap() + match old(self).config.autohide {
                    Some(ah) => ah.handle_size as int,
                    None => 0int,
                }) as i64)
            } else {
                None
            }),
            r.margin == final(self).margin_for(old(self).visibility),
            final(self).exclusive_zone == (match r.exclusive_zone {
                Some(z) => z,
                None => old(self).exclusive_zone,
            }),
            final(self).edge_margin == r.margin,
            final(self).sizes_fit(),
            !final(self).awaiting_configure,
            final(self).start_instant == old(self).start_instant,
            final(self).panel_rect == old(self).panel_rect,
            final(self).container_length == old(self).container_length,
            final(self).placements == old(self).placements,
    {
        let horizontal = self.config.is_horizontal();
        let gap = self.config.get_effective_anchor_gap() as i64;
        if horizontal {
            if w != 0 {
                self.suggested_length = Some(w);
            }
        } else {
            if h != 0 {
                self.suggested_length = Some(h);
            }
        }
        let inner = self.proposed_inner_exec(w, h);
        let ghost o = self.output_length();
        assert(o < u32::MAX);
        let dim = self.constrain_dim(inner);
        self.dimensions = dim;
        self.pending_dimensions = None;
        self.awaiting_configure = false;
        self.is_dirty = true;
        let thickness = if horizontal { dim.h } else { dim.w };
        let handle: i64 = match &self.config.autohide {
            Some(ah) => ah.handle_size as i64,
            None => 0,
        };
        let exclusive_zone = if self.config.exclusive_zone {
            Some(thickness + gap + handle)
        } else {
            None
        };
        let margin: i64 = match self.visibility {
            Visibility::Visible => 0,
            Visibility::Hidden => match &self.config.autohide {
                Some(ah) => ah.handle_size as i64 - (thickness + gap),
                None => 0,
            },
            Visibility::TransitionToVisible { prev_margin, .. } => prev_margin,
            Visibility::TransitionToHidden { prev_margin, .. } => prev_margin,
        };
        if let Some(z) = exclusive_zone {
            self.exclusive_zone = z;
        }
        self.edge_margin = margin;
        let surface_size = if horizontal {
            Size { w: dim.w, h: dim.h + gap }
        } else {
            Size { w: dim.w + gap, h: dim.h }
        };
        ConfigureOutcome { surface_size, exclusive_zone, margin }
    }

    /// One autohide tick at time `now` (milliseconds): combines the focus
    /// reports, steps the visibility state and records the exclusive zone and
    /// edge offset it sets. Returns what to tell the surface.
    pub fn handle_focus(&mut self, entries: &Vec<FocusEntry>, now: u64) -> (r: SurfaceAction)
        requires
            old(self).sizes_fit(),
        ensures
            ({
                let focus = combined_focus(entries@, old(self).start_instant);
                let step = match old(self).config.autohide {
                    Some(ah) => visibility_step(
                        old(self).visibility,
                        focus,
                        now,
                        ah,
                        old(self).surface_thickness(),
                        old(self).gap(),
                        old(self).config.exclusive_zone,
                    ),
                    None => (Visibility::Visible, crate::visibility::no_action()),
                };
                &&& final(self).visibility == step.0
                &&& r == step.1
            }),
            final(self).exclusive_zone == (match r.exclusive_zone {
                Some(z) => z,
                None => old(self).exclusive_zone,
            }),
            final(self).edge_margin == (match r.margin {
                Some(m) => m,
                None => old(self).edge_margin,
            }),
            final(self).config == old(self).config,
            final(self).dimensions == old(self).dimensions,
            final(self).windows_left == old(self).windows_left,
            final(self).windows_center == old(self).windows_center,
            final(self).windows_right == old(self).windows_right,
            final(self).placements == old(self).placements,
            final(self).pending_dimensions == old(self).pending_dimensions,
            final(self).output_dims == old(self).output_dims,
            final(self).suggested_length == old(self).suggested_length,
            final(self).awaiting_configure == old(self).awaiting_configure,
            final(self).is_dirty == old(self).is_dirty,
            final(self).input_region == old(self).input_region,
            final(self).actual_size == old(self).actual_size,
            final(self).minimize_rect == old(self).minimize_rect,
            final(self).minimize_targets == old(self).minimize_targets,
            final(self).output_name == old(self).output_name,
            final(self).start_instant == old(self).start_instant,
            final(self).panel_rect == old(self).panel_rect,
            final(self).container_length == old(self).container_length,
    {
        let focus = combine_focus(entries, self.start_instant);
        let thickness = if self.config.is_horizontal() {
            self.dimensions.h
        } else {
            self.dimensions.w
        };
        let (v, action) = next_visibility(
            self.visibility,
            focus,
            now,
            self.config.autohide,
            thickness,
            self.config.get_effective_anchor_gap(),
            self.config.exclusive_zone,
        );
        self.visibility = v;
        if let Some(z) = action.exclusive_zone {
            self.exclusive_zone = z;
        }
        if let Some(m) = action.margin {
            self.edge_margin = m;
        }
        action
    }
}

/// What a tick asks of the surface.
#[derive(Debug, Clone, Copy, PartialEq, Eq, Structural)]
pub enum TickStep {
    /// a size request is unanswered: nothing to do until the host configures
    Waiting,
    /// ask the host for this size (0 leaves a side to the host), set the
    /// exclusive zone and edge offset where given, commit, and wait
    RequestSize { width: i64, height: i64, exclusive_zone: Option<i64>, margin: Option<i64> },
    /// the layout is current: draw
    Render,
    /// layout stopped this tick: skip drawing
    Skip,
}

impl PanelSpace {
    /// The size request made for pending dimensions `p`: the thickness
    /// (with the gap) only, as the host decides the length; an exclusive zone
    /// and edge offset that keep the handle of an autohiding panel on screen.
    pub open spec fn size_request(&self, p: Size) -> TickStep {
        let thickness: int = if self.horizontal() { p.h as int } else { p.w as int };
        let (ez, m) = match self.config.autohide {
            Some(ah) => (
                if self.config.exclusive_zone {
                    Some((thickness + ah.handle_size) as i64)
                } else {
                    None
                },
                Some((ah.handle_size - thickness) as i64),
            ),
            None => (
                if self.config.exclusive_zone {
                    Some(thickness as i64)
                } else {
                    None
                },
                if self.config.exclusive_zone && self.config.margin > 0 {
                    Some(0i64)
                } else {
                    None
                },
            ),
        };
        TickStep::RequestSize {
            width: if self.horizontal() { 0 } else { p.w },
            height: if self.horizontal() { p.h } else { 0 },
            exclusive_zone: ez,
            margin: m,
        }
    }

    /// One tick of the panel: the size negotiation (wait for an unanswered
    /// request, send the pending size, or lay out again where the panel is
    /// dirty), then the autohide step. A tick that sends a size request or
    /// whose layout stops skips the autohide step.
    pub fn tick(&mut self, entries: &Vec<FocusEntry>, now: u64) -> (r: (SurfaceAction, TickStep))
        requires
            old(self).sizes_fit(),
            old(self).layout_fits(),
            old(self).pending_dimensions matches Some(p) ==> 0 <= p.w <= u32::MAX && 0 <= p.h <= u32::MAX,
        ensures
            ({
                let focus = combined_focus(entries@, old(self).start_instant);
                let step = match old(self).config.autohide {
                    Some(ah) => visibility_step(
                        old(self).visibility,
                        focus,
                        now,
                        ah,
                        old(self).surface_thickness(),
                        old(self).gap(),
                        old(self).config.exclusive_zone,
                    ),
                    None => (Visibility::Visible, crate::visibility::no_action()),
                };
                if r.1 is Waiting || r.1 is Render {
                    final(self).visibility == step.0 && r.0 == step.1
                } else {
                    final(self).visibility == old(self).visibility && r.0
                        == crate::visibility::no_action()
                }
            }),
            final(self).config == old(self).config,
            final(self).dimensions == old(self).dimensions,
            final(self).start_instant == old(self).start_instant,
            (r.1 is Waiting || r.1 is RequestSize || r.1 is Skip || !old(self).is_dirty) ==> {
                &&& final(self).panel_rect == old(self).panel_rect
                &&& final(self).container_length == old(self).container_length
                &&& final(self).placements == old(self).placements
            },
            old(self).awaiting_configure ==> r.1 == TickStep::Waiting && final(self).pending_dimensions
                == old(self).pending_dimensions,
            !old(self).awaiting_configure && old(self).pending_dimensions is Some ==> {
                &&& r.1 == old(self).size_request(old(self).pending_dimensions->0)
                &&& final(self).pending_dimensions is None
                &&& final(self).awaiting_configure
                &&& final(self).placements == old(self).placements
                &&& final(self).actual_size == old(self).actual_size
                &&& final(self).is_dirty == old(self).is_dirty
                &&& final(self).minimize_targets == old(self).minimize_targets
            },
            !old(self).awaiting_configure && old(self).pending_dimensions is None && !old(self).is_dirty
                ==> r.1 == TickStep::Render,
            !old(self).awaiting_configure && old(self).pending_dimensions is None && old(self).is_dirty
                ==> {
                &&& old(self).input_region is Some && !old(self).needs_resize() ==> {
                    let (last, sent) = minimize_fold(
                        old(self).all_windows(),
                        old(self).placements_spec(),
                        old(self).minimize_rect,
                        old(self).all_windows().len() as int,
                    );
                    &&& r.1 == TickStep::Render
                    &&& !final(self).is_dirty
                    &&& final(self).placements@ == old(self).placements_spec()
                    &&& final(self).panel_rect == old(self).panel_rect_spec()
                    &&& final(self).container_length == old(self).container_length_spec()
                    &&& final(self).input_region == Some(old(self).input_region_spec())
                    &&& final(self).minimize_rect == last
                    &&& final(self).minimize_targets@ =~= old(self).minimize_targets@ + Seq::new(
                        sent.len(),
                        |k: int| (MinimizeTarget {
                            output: final(self).minimize_targets@[old(self).minimize_targets@.len() + k].output,
                            rect: sent[k],
                            priority: old(self).target_priority(),
                        }),
                    )
                    &&& forall|k: int| 0 <= k < sent.len() ==> (#[trigger] final(self).minimize_targets@[old(self).minimize_targets@.len() + k]).output@ == old(self).output_name@
                }
                &&& old(self).input_region is None ==> r.1 == TickStep::Skip
                &&& old(self).input_region is Some && old(self).needs_resize() ==> r.1
                    == TickStep::Skip && final(self).pending_dimensions == Some(
                    old(self).requested_size(),
                )
            },
    {
        let none = SurfaceAction { exclusive_zone: None, margin: None, close_popups: false };
        if self.awaiting_configure {
            let action = self.handle_focus(entries, now);
            return (action, TickStep::Waiting);
        }
        if let Some(p) = self.pending_dimensions {
            self.pending_dimensions = None;
            self.awaiting_configure = true;
            let horizontal = self.config.is_horizontal();
            let thickness: i64 = if horizontal { p.h } else { p.w };
            let (exclusive_zone, margin) = match self.config.autohide {
                Some(ah) => (
                    if self.config.exclusive_zone {
                        Some(thickness + ah.handle_size as i64)
                    } else {
                        None
                    },
                    Some(ah.handle_size as i64 - thickness),
                ),
                None => (
                    if self.config.exclusive_zone {
                        Some(thickness)
                    } else {
                        None
                    },
                    if self.config.exclusive_zone && self.config.margin > 0 {
                        Some(0i64)
                    } else {
                        None
                    },
                ),
            };
            let step = TickStep::RequestSize {
                width: if horizontal { 0 } else { p.w },
                height: if horizontal { p.h } else { 0 },
                exclusive_zone,
                margin,
            };
            return (none, step);
        }
        if !self.is_dirty {
            let action = self.handle_focus(entries, now);
            return (action, TickStep::Render);
        }
        match self.layout() {
            Ok(()) => {
                self.is_dirty = false;
                self.update_minimize_target();
                let action = self.handle_focus(entries, now);
                (action, TickStep::Render)
            },
            Err(_) => (none, TickStep::Skip),
        }
    }
}

/// Clamping is idempotent: a clamped size is clamped to itself, and a size
/// already inside both ranges is left as it is.
pub proof fn law_constrain_idempotent(s: PanelSpace, size: Size)
    requires
        s.config.padding_fits(),
    ensures
        s.constrained(s.constrained(size)) == s.constrained(size),
        ({
            let r = s.config.thickness_range();
            let t = if s.horizontal() { size.h as int } else { size.w as int };
            let l = if s.horizontal() { size.w as int } else { size.h as int };
            (r.start <= t < r.end && l == s.output_length()) ==> s.constrained(size) == size
        }),
{
}

/// Acknowledging the same proposal twice changes nothing the second time:
/// the suggested length and the surface size stay as the first
/// acknowledgment left them.
pub proof fn law_configure_idempotent(s0: PanelSpace, s1: PanelSpace, w: u32, h: u32)
    requires
        s0.config.padding_fits(),
        s1.config == s0.config,
        s1.output_dims == s0.output_dims,
        s1.suggested_length == s0.suggestion_after(w, h),
        s1.dimensions == s1.constrained(s0.proposed_inner(w, h)),
    ensures
        s1.suggestion_after(w, h) == s1.suggested_length,
        s1.constrained(s1.proposed_inner(w, h)) == s1.dimensions,
{
}

} // verus!
