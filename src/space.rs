//! State of one panel instance on one output.

use vstd::prelude::*;

use crate::config::CosmicPanelConfig;
use crate::geometry::{Alignment, Point, Rect, Size};
use crate::visibility::Visibility;
use crate::windows::{contiguous, make_indices_contiguous, with_index, sorted_by_index, AppletWindow};

verus! {

/// Where layout put one window.
#[derive(Debug, Clone, Copy, PartialEq, Eq, Structural)]
pub struct WindowPlacement {
    pub region: Alignment,
    pub index: usize,
    pub loc: Point,
}

/// The rounded background rectangle of the panel.
#[derive(Debug, Clone, Copy, PartialEq, Eq, Structural)]
pub struct PanelRect {
    pub rad_tl: i64,
    pub rad_tr: i64,
    pub rad_bl: i64,
    pub rad_br: i64,
    pub loc: Point,
    pub size: Size,
}

/// A minimize-target rectangle to forward for an output.
#[derive(Debug, Clone, PartialEq, Eq)]
pub struct MinimizeTarget {
    pub output: String,
    pub rect: Rect,
    pub priority: i32,
}

/// One panel instance.
#[derive(Debug)]
pub struct PanelSpace {
    pub config: CosmicPanelConfig,
    /// name of the output the panel is on
    pub output_name: String,
    /// current mode size of that output, if known
    pub output_dims: Option<(u32, u32)>,
    /// length the host proposed for the panel, if any
    pub suggested_length: Option<u32>,
    pub windows_left: Vec<AppletWindow>,
    pub windows_center: Vec<AppletWindow>,
    pub windows_right: Vec<AppletWindow>,
    /// size of the surface, without the anchor gap
    pub dimensions: Size,
    /// size taken by the content
    pub actual_size: Size,
    /// size requested from the host and not yet acknowledged
    pub pending_dimensions: Option<Size>,
    pub is_dirty: bool,
    /// lengthwise extent the content container occupies
    pub container_length: i64,
    pub placements: Vec<WindowPlacement>,
    pub panel_rect: PanelRect,
    /// clickable area; `None` until the surface exists
    pub input_region: Option<Rect>,
    pub visibility: Visibility,
    /// last rectangle sent for the minimize target
    pub minimize_rect: Rect,
    /// minimize targets waiting to be forwarded
    pub minimize_targets: Vec<MinimizeTarget>,
    /// exclusive zone last set on the surface
    pub exclusive_zone: i64,
    /// offset of the panel from its edge, last set on the surface
    pub edge_margin: i64,
    /// time the panel was created, in milliseconds
    pub start_instant: u64,
    /// a size was requested and the host has not answered yet
    pub awaiting_configure: bool,
}

pub open spec fn zero_rect() -> Rect {
    Rect { x: 0, y: 0, w: 0, h: 0 }
}

/// Windows renumbered after a change: the same windows, ordered by their
/// previous index, numbered from 0.
pub open spec fn renumbered(before: Seq<AppletWindow>, after: Seq<AppletWindow>) -> bool {
    &&& after.len() == before.len()
    &&& contiguous(after)
    &&& exists|s: Seq<AppletWindow>|
        #![trigger s.to_multiset()]
        s.to_multiset() == before.to_multiset()
            && sorted_by_index(s)
            && s.len() == after.len()
            && forall|i: int| 0 <= i < s.len() ==> #[trigger] after[i] == with_index(s[i], i)
}

impl PanelSpace {
    /// A panel for `config` on the output `output_name`, with no windows and
    /// no surface yet: visible, or hidden where autohide is configured.
    pub fn new(config: CosmicPanelConfig, output_name: String, output_dims: Option<(u32, u32)>, start_instant: u64) -> (r: PanelSpace)
        ensures
            r.config == config,
            r.output_name == output_name,
            r.output_dims == output_dims,
            r.start_instant == start_instant,
            r.visibility == (if config.autohide is Some { Visibility::Hidden } else { Visibility::Visible }),
            r.windows_left@.len() == 0,
            r.windows_center@.len() == 0,
            r.windows_right@.len() == 0,
            r.placements@.len() == 0,
            r.minimize_targets@.len() == 0,
            r.input_region is None,
            r.pending_dimensions is None,
            r.suggested_length is None,
            !r.is_dirty,
            r.dimensions == (Size { w: 0, h: 0 }),
            r.actual_size == (Size { w: 0, h: 0 }),
            r.container_length == 0,
            r.minimize_rect == zero_rect(),
            r.exclusive_zone == 0,
            r.edge_margin == 0,
            !r.awaiting_configure,
    {
        let visibility = if config.autohide.is_some() {
            Visibility::Hidden
        } else {
            Visibility::Visible
        };
        let zero = Size { w: 0, h: 0 };
        PanelSpace {
            config,
            output_name,
            output_dims,
            suggested_length: None,
            windows_left: Vec::new(),
            windows_center: Vec::new(),
            windows_right: Vec::new(),
            dimensions: zero,
            actual_size: zero,
            pending_dimensions: None,
            is_dirty: false,
            container_length: 0,
            placements: Vec::new(),
            panel_rect: PanelRect {
                rad_tl: 0,
                rad_tr: 0,
                rad_bl: 0,
                rad_br: 0,
                loc: Point { x: 0, y: 0 },
                size: zero,
            },
            input_region: None,
            visibility,
            minimize_rect: Rect { x: 0, y: 0, w: 0, h: 0 },
            minimize_targets: Vec::new(),
            exclusive_zone: 0,
            edge_margin: 0,
            start_instant,
            awaiting_configure: false,
        }
    }

    /// Records that the surface and its input region now exist.
    pub fn attach_surface(&mut self)
        ensures
            final(self).input_region == Some(zero_rect()),
            final(self).is_dirty,
            final(self).config == old(self).config,
            final(self).dimensions == old(self).dimensions,
            final(self).windows_left == old(self).windows_left,
            final(self).windows_center == old(self).windows_center,
            final(self).windows_right == old(self).windows_right,
    {
        self.input_region = Some(Rect { x: 0, y: 0, w: 0, h: 0 });
        self.is_dirty = true;
    }

    pub open spec fn region_windows(&self, region: Alignment) -> Seq<AppletWindow> {
        match region {
            Alignment::Left => self.windows_left@,
            Alignment::Center => self.windows_center@,
            Alignment::Right => self.windows_right@,
        }
    }

    /// The other regions and everything else but the dirty flag are unchanged.
    pub open spec fn only_region_changed(a: PanelSpace, b: PanelSpace, region: Alignment) -> bool {
        &&& a.config == b.config
        &&& a.dimensions == b.dimensions
        &&& a.output_dims == b.output_dims
        &&& a.suggested_length == b.suggested_length
        &&& a.visibility == b.visibility
        &&& a.input_region == b.input_region
        &&& region != Alignment::Left ==> a.windows_left == b.windows_left
        &&& region != Alignment::Center ==> a.windows_center == b.windows_center
        &&& region != Alignment::Right ==> a.windows_right == b.windows_right
    }

    fn region_mut(&mut self, region: Alignment) -> (r: &mut Vec<AppletWindow>)
        ensures
            *r == match region {
                Alignment::Left => old(self).windows_left,
                Alignment::Center => old(self).windows_center,
                Alignment::Right => old(self).windows_right,
            },
            PanelSpace::only_region_changed(*final(self), *old(self), region),
            final(self).is_dirty == old(self).is_dirty,
            match region {
                Alignment::Left => final(self).windows_left == *final(r),
                Alignment::Center => final(self).windows_center == *final(r),
                Alignment::Right => final(self).windows_right == *final(r),
            },
    {
        match region {
            Alignment::Left => &mut self.windows_left,
            Alignment::Center => &mut self.windows_center,
            Alignment::Right => &mut self.windows_right,
        }
    }

    /// Adds a window to a region, then renumbers the region's windows and
    /// marks the panel for a new layout.
    pub fn add_window(&mut self, region: Alignment, w: AppletWindow)
        ensures
            renumbered(old(self).region_windows(region).push(w), final(self).region_windows(region)),
            PanelSpace::only_region_changed(*final(self), *old(self), region),
            final(self).is_dirty,
    {
        let ws = self.region_mut(region);
        ws.push(w);
        make_indices_contiguous(ws);
        self.is_dirty = true;
    }

    /// Removes the window at `position` of a region, then renumbers the
    /// region's windows and marks the panel for a new layout.
    pub fn remove_window(&mut self, region: Alignment, position: usize)
        requires
            position < old(self).region_windows(region).len(),
        ensures
            renumbered(old(self).region_windows(region).remove(position as int), final(self).region_windows(region)),
            PanelSpace::only_region_changed(*final(self), *old(self), region),
            final(self).is_dirty,
    {
        let ws = self.region_mut(region);
        ws.remove(position);
        make_indices_contiguous(ws);
        self.is_dirty = true;
    }

    /// Records the size a window reports and marks the panel for a new layout.
    pub fn resize_window(&mut self, region: Alignment, position: usize, width: u32, height: u32)
        requires
            position < old(self).region_windows(region).len(),
        ensures
            final(self).region_windows(region) == old(self).region_windows(region).update(
                position as int,
                AppletWindow { width, height, ..old(self).region_windows(region)[position as int] },
            ),
            PanelSpace::only_region_changed(*final(self), *old(self), region),
            final(self).is_dirty,
    {
        let ws = self.region_mut(region);
        let old_w = ws[position];
        ws.set(position, AppletWindow { width, height, ..old_w });
        self.is_dirty = true;
    }
}

} // verus!
