//! Layout: region sums, panel size, container position and window placement.

use vstd::prelude::*;

use crate::config::PanelAnchor;
use crate::geometry::{half, half_toward_zero, min_int, Alignment, Point, Rect, Size};
use crate::space::{PanelRect, PanelSpace, WindowPlacement};
use crate::windows::{
    contiguous, cross_of, lemma_sum_lengths_nonneg, lemma_sum_lengths_prefix,
    lemma_sum_lengths_step, length_of, max_cross, max_cross_of, region_sum, region_sum_of,
    sum_lengths, AppletWindow,
};

verus! {

/// Why a layout pass produced no placement.
#[derive(Debug, Clone, Copy, PartialEq, Eq, Structural)]
pub enum LayoutError {
    /// the surface or its input region does not exist yet
    MissingSurface,
    /// a new size was requested from the host; lay out again once it is acknowledged
    ResizePending,
}

/// A size given along and across the panel.
pub open spec fn oriented(horizontal: bool, length: int, thickness: int) -> Size {
    if horizontal {
        Size { w: length as i64, h: thickness as i64 }
    } else {
        Size { w: thickness as i64, h: length as i64 }
    }
}

/// Placement of the `k`-th window of a region whose first window starts at `start`.
pub open spec fn place(
    ws: Seq<AppletWindow>,
    k: int,
    region: Alignment,
    start: int,
    horizontal: bool,
    spacing: int,
    thickness: int,
    margin_offset: int,
) -> WindowPlacement {
    let along = start + sum_lengths(ws.take(k), horizontal) + spacing * ws[k].index;
    let across = margin_offset + half_toward_zero(thickness - cross_of(ws[k], horizontal));
    WindowPlacement {
        region,
        index: ws[k].index,
        loc: if horizontal {
            Point { x: along as i64, y: across as i64 }
        } else {
            Point { x: across as i64, y: along as i64 }
        },
    }
}

/// Placements of all windows of a region.
pub open spec fn region_placements(
    ws: Seq<AppletWindow>,
    region: Alignment,
    start: int,
    horizontal: bool,
    spacing: int,
    thickness: int,
    margin_offset: int,
) -> Seq<WindowPlacement> {
    Seq::new(
        ws.len(),
        |k: int| place(ws, k, region, start, horizontal, spacing, thickness, margin_offset),
    )
}

/// A dock, or a bar whose regions each fit in a third of the container,
/// shares the container in equal thirds.
pub open spec fn even_split_spec(dock: bool, cl: int, left: int, center: int, right: int) -> bool {
    dock || (3 * left < cl && 3 * center < cl && 3 * right < cl)
}

/// Space before the center region: with equal thirds, what the left third
/// leaves plus half of what the center third leaves; otherwise half of the
/// space no region takes.
pub open spec fn center_left_spacing_spec(
    even: bool,
    cl: int,
    left: int,
    center: int,
    right: int,
    padding: int,
) -> int {
    if even {
        let eq = cl / 3;
        (eq - left - padding) + half_toward_zero(eq - center)
    } else {
        half_toward_zero(cl - left - center - right - 2 * padding)
    }
}

/// Space before the center region (see `center_left_spacing_spec`).
pub fn center_left_spacing_of(
    dock: bool,
    cl: i64,
    left: i64,
    center: i64,
    right: i64,
    padding: i64,
) -> (r: i64)
    requires
        0 <= cl <= length_bound(),
        0 <= left <= length_bound(),
        0 <= center <= length_bound(),
        0 <= right <= length_bound(),
        0 <= padding <= 70,
    ensures
        r == center_left_spacing_spec(
            even_split_spec(dock, cl as int, left as int, center as int, right as int),
            cl as int,
            left as int,
            center as int,
            right as int,
            padding as int,
        ),
        -4 * length_bound() <= r <= length_bound(),
{
    if dock || (3 * left < cl && 3 * center < cl && 3 * right < cl) {
        let eq = cl / 3;
        (eq - left - padding) + half(eq - center)
    } else {
        half(cl - left - center - right - 2 * padding)
    }
}

/// Bound on every lengthwise quantity the layout handles.
pub open spec fn length_bound() -> int {
    i32::MAX as int
}

impl PanelSpace {
    pub open spec fn horizontal(&self) -> bool {
        self.config.anchor.is_horizontal_spec()
    }

    pub open spec fn is_dock(&self) -> bool {
        !self.config.expand_to_edges
    }

    pub open spec fn left_sum(&self) -> int {
        region_sum(self.windows_left@, self.horizontal(), self.config.spacing as int)
    }

    pub open spec fn center_sum(&self) -> int {
        region_sum(self.windows_center@, self.horizontal(), self.config.spacing as int)
    }

    pub open spec fn right_sum(&self) -> int {
        region_sum(self.windows_right@, self.horizontal(), self.config.spacing as int)
    }

    /// Number of regions holding at least one window.
    pub open spec fn nonempty_regions(&self) -> int {
        (if self.windows_left@.len() > 0 { 1int } else { 0int }) + (if self.windows_center@.len()
            > 0 {
            1int
        } else {
            0int
        }) + (if self.windows_right@.len() > 0 { 1int } else { 0int })
    }

    /// Spacing between the non-empty regions.
    pub open spec fn region_spacing(&self) -> int {
        self.config.spacing as int * (if self.nonempty_regions() == 0 {
            0
        } else {
            self.nonempty_regions() - 1
        })
    }

    /// Lengthwise extent of the content, padding included.
    pub open spec fn total_length(&self) -> int {
        self.left_sum() + self.center_sum() + self.right_sum() + 2 * self.config.padding
            + self.region_spacing()
    }

    pub open spec fn max_window_cross(&self) -> int {
        let h = self.horizontal();
        let a = max_cross(self.windows_left@, h);
        let b = max_cross(self.windows_center@, h);
        let c = max_cross(self.windows_right@, h);
        if a >= b && a >= c {
            a
        } else if b >= c {
            b
        } else {
            c
        }
    }

    /// Crosswise extent of the content, padding included.
    pub open spec fn content_thickness(&self) -> int {
        2 * self.config.padding + self.max_window_cross()
    }

    /// The thickness clamped into the range of the size class.
    pub open spec fn thickness(&self) -> int {
        let r = self.config.thickness_range();
        let t = self.content_thickness();
        if t < r.start {
            r.start as int
        } else if t >= r.end {
            r.end - 1
        } else {
            t
        }
    }

    pub open spec fn output_length(&self) -> int {
        self.config.output_length(self.output_dims, self.suggested_length) as int
    }

    pub open spec fn gap(&self) -> int {
        self.config.effective_gap() as int
    }

    /// Surface size (without gap) the content asks for.
    pub open spec fn desired_size(&self) -> Size {
        oriented(self.horizontal(), self.output_length(), self.thickness())
    }

    pub open spec fn needs_resize(&self) -> bool {
        self.desired_size() != self.dimensions
    }

    /// Size requested from the host: the desired size plus the anchor gap.
    pub open spec fn requested_size(&self) -> Size {
        oriented(self.horizontal(), self.output_length(), self.thickness() + self.gap())
    }

    /// Size of the content: its own length, the clamped thickness.
    pub open spec fn content_size(&self) -> Size {
        oriented(self.horizontal(), self.total_length(), self.thickness())
    }

    pub open spec fn container_length_spec(&self) -> int {
        if self.is_dock() {
            self.total_length()
        } else {
            self.output_length()
        }
    }

    /// Lengthwise offset of the container, centered on the surface.
    pub open spec fn container_pos(&self) -> int {
        half_toward_zero(self.output_length() - self.container_length_spec())
    }

    /// Whether the regions share the container in equal thirds.
    pub open spec fn even_split(&self) -> bool {
        even_split_spec(
            self.is_dock(),
            self.container_length_spec(),
            self.left_sum(),
            self.center_sum(),
            self.right_sum(),
        )
    }

    /// Space between the end of the left region and the start of the center one.
    pub open spec fn center_left_spacing(&self) -> int {
        center_left_spacing_spec(
            self.even_split(),
            self.container_length_spec(),
            self.left_sum(),
            self.center_sum(),
            self.right_sum(),
            self.config.padding as int,
        )
    }

    pub open spec fn has_left_plugins(&self) -> bool {
        match self.config.plugins_left_spec() {
            Some(l) => l.len() > 0,
            None => false,
        }
    }

    pub open spec fn left_start(&self) -> int {
        self.container_pos() + self.config.padding
    }

    pub open spec fn center_start(&self) -> int {
        self.left_start() + sum_lengths(self.windows_left@, self.horizontal()) + (
        if self.has_left_plugins() {
            self.center_left_spacing()
        } else {
            0
        })
    }

    pub open spec fn right_start(&self) -> int {
        self.container_pos() + self.container_length_spec() - self.config.padding
            - self.right_sum()
    }

    /// Crosswise offset: the gap on the edges whose coordinates start at the anchor.
    pub open spec fn margin_offset(&self) -> int {
        match self.config.anchor {
            PanelAnchor::Top | PanelAnchor::Left => self.gap(),
            _ => 0,
        }
    }

    pub open spec fn region_placements_of(&self, ws: Seq<AppletWindow>, region: Alignment, start: int) -> Seq<
        WindowPlacement,
    > {
        region_placements(
            ws,
            region,
            start,
            self.horizontal(),
            self.config.spacing as int,
            self.thickness(),
            self.margin_offset(),
        )
    }

    /// Placement of every window: left, then center, then right.
    pub open spec fn placements_spec(&self) -> Seq<WindowPlacement> {
        self.region_placements_of(self.windows_left@, Alignment::Left, self.left_start())
            + self.region_placements_of(
            self.windows_center@,
            Alignment::Center,
            self.center_start(),
        ) + self.region_placements_of(self.windows_right@, Alignment::Right, self.right_start())
    }

    /// Border radius clamped to half of each side of the container.
    pub open spec fn radius(&self) -> int {
        let size = oriented(self.horizontal(), self.container_length_spec(), self.thickness());
        min_int(min_int(self.config.border_radius as int, size.w / 2), size.h / 2)
    }

    /// Background rectangle: corners on the anchored edge stay square unless a gap is set.
    pub open spec fn panel_rect_spec(&self) -> PanelRect {
        let r = self.radius() as i64;
        let pos = self.container_pos();
        let g = self.gap();
        let square = g == 0;
        let (tl, tr, bl, br) = match self.config.anchor {
            PanelAnchor::Right if square => (r, 0i64, r, 0i64),
            PanelAnchor::Left if square => (0i64, r, 0i64, r),
            PanelAnchor::Bottom if square => (r, r, 0i64, 0i64),
            PanelAnchor::Top if square => (0i64, 0i64, r, r),
            _ => (r, r, r, r),
        };
        let loc = match self.config.anchor {
            PanelAnchor::Left => Point { x: g as i64, y: pos as i64 },
            PanelAnchor::Right => Point { x: 0, y: pos as i64 },
            PanelAnchor::Top => Point { x: pos as i64, y: (self.thickness() - g) as i64 },
            PanelAnchor::Bottom => Point { x: pos as i64, y: g as i64 },
        };
        PanelRect {
            rad_tl: tl,
            rad_tr: tr,
            rad_bl: bl,
            rad_br: br,
            loc,
            size: oriented(self.horizontal(), self.container_length_spec(), self.thickness()),
        }
    }

    /// Clickable area: the content's extent for a dock, the whole surface for a bar.
    pub open spec fn input_region_spec(&self) -> Rect {
        let req = self.requested_size();
        if self.is_dock() {
            let pos = self.container_pos() as i64;
            let len = self.total_length() as i64;
            if self.horizontal() {
                Rect { x: pos, y: 0, w: len, h: req.h }
            } else {
                Rect { x: 0, y: pos, w: req.w, h: len }
            }
        } else {
            Rect { x: 0, y: 0, w: req.w, h: req.h }
        }
    }

    /// The sizes layout works with fit its integer types, as they must for the
    /// panel to be shown at all.
    pub open spec fn layout_fits(&self) -> bool {
        &&& self.config.padding_fits()
        &&& self.total_length() <= length_bound()
        &&& self.output_length() <= length_bound()
        &&& contiguous(self.windows_left@)
        &&& contiguous(self.windows_center@)
        &&& contiguous(self.windows_right@)
    }

    /// Everything but what a layout pass computes is the same in `a` and `b`.
    pub open spec fn same_inputs(a: PanelSpace, b: PanelSpace) -> bool {
        &&& a.config == b.config
        &&& a.output_name == b.output_name
        &&& a.output_dims == b.output_dims
        &&& a.suggested_length == b.suggested_length
        &&& a.windows_left == b.windows_left
        &&& a.windows_center == b.windows_center
        &&& a.windows_right == b.windows_right
        &&& a.dimensions == b.dimensions
        &&& a.visibility == b.visibility
        &&& a.minimize_rect == b.minimize_rect
        &&& a.minimize_targets == b.minimize_targets
        &&& a.exclusive_zone == b.exclusive_zone
        &&& a.edge_margin == b.edge_margin
        &&& a.start_instant == b.start_instant
        &&& a.awaiting_configure == b.awaiting_configure
    }
}

proof fn lemma_region_sum_parts(ws: Seq<AppletWindow>, horizontal: bool, spacing: int)
    requires
        spacing >= 0,
    ensures
        sum_lengths(ws, horizontal) >= 0,
        spacing * (if ws.len() == 0 { 0 } else { ws.len() - 1 }) >= 0,
        region_sum(ws, horizontal, spacing) >= sum_lengths(ws, horizontal),
{
    lemma_sum_lengths_nonneg(ws, horizontal);
    let n: int = if ws.len() == 0 { 0 } else { ws.len() - 1 };
    assert(spacing * n >= 0) by (nonlinear_arith)
        requires
            spacing >= 0,
            n >= 0,
    ;
}

proof fn lemma_layout_bounds(s: &PanelSpace)
    requires
        s.layout_fits(),
    ensures
        0 <= s.left_sum() <= length_bound(),
        0 <= s.center_sum() <= length_bound(),
        0 <= s.right_sum() <= length_bound(),
        0 <= s.region_spacing(),
        0 <= s.total_length() <= length_bound(),
        0 <= s.output_length() <= length_bound(),
        0 <= s.max_window_cross() <= u32::MAX,
        s.config.padding <= 70,
{
    let h = s.horizontal();
    let sp = s.config.spacing as int;
    lemma_region_sum_parts(s.windows_left@, h, sp);
    lemma_region_sum_parts(s.windows_center@, h, sp);
    lemma_region_sum_parts(s.windows_right@, h, sp);
    let n = s.nonempty_regions();
    let m: int = if n == 0 { 0 } else { n - 1 };
    assert(sp * m >= 0) by (nonlinear_arith)
        requires
            sp >= 0,
            m >= 0,
    ;
    crate::windows::lemma_max_cross_bounds(s.windows_left@, h);
    crate::windows::lemma_max_cross_bounds(s.windows_center@, h);
    crate::windows::lemma_max_cross_bounds(s.windows_right@, h);
}

/// Appends the placements of one region's windows to `out`.
fn place_region(
    ws: &Vec<AppletWindow>,
    region: Alignment,
    start: i64,
    horizontal: bool,
    spacing: u32,
    thickness: i64,
    margin_offset: i64,
    out: &mut Vec<WindowPlacement>,
)
    requires
        contiguous(ws@),
        -4 * length_bound() <= start <= 4 * length_bound(),
        region_sum(ws@, horizontal, spacing as int) <= length_bound(),
        0 <= thickness <= u32::MAX,
        0 <= margin_offset <= u16::MAX,
    ensures
        final(out)@ == old(out)@ + region_placements(
            ws@,
            region,
            start as int,
            horizontal,
            spacing as int,
            thickness as int,
            margin_offset as int,
        ),
{
    let ghost target = region_placements(
        ws@,
        region,
        start as int,
        horizontal,
        spacing as int,
        thickness as int,
        margin_offset as int,
    );
    let ghost base = out@;
    proof {
        lemma_region_sum_parts(ws@, horizontal, spacing as int);
        lemma_sum_lengths_prefix(ws@, horizontal, 0);
    }
    let mut prev: i64 = start;
    let mut i: usize = 0;
    while i < ws.len()
        invariant
            0 <= i <= ws@.len(),
            contiguous(ws@),
            -4 * length_bound() <= start <= 4 * length_bound(),
            region_sum(ws@, horizontal, spacing as int) <= length_bound(),
            sum_lengths(ws@, horizontal) >= 0,
            spacing * (if ws@.len() == 0 { 0 } else { ws@.len() - 1 }) >= 0,
            0 <= thickness <= u32::MAX,
            0 <= margin_offset <= u16::MAX,
            prev == start + sum_lengths(ws@.take(i as int), horizontal),
            target == region_placements(
                ws@,
                region,
                start as int,
                horizontal,
                spacing as int,
                thickness as int,
                margin_offset as int,
            ),
            out@ == base + target.take(i as int),
        decreases ws@.len() - i,
    {
        let w = ws[i];
        proof {
            lemma_sum_lengths_prefix(ws@, horizontal, i as int);
            lemma_sum_lengths_step(ws@, horizontal, i as int);
            lemma_sum_lengths_prefix(ws@, horizontal, i + 1);
            assert(ws@[i as int].index == i);
            let n = ws@.len() - 1;
            assert(spacing * i <= spacing * n) by (nonlinear_arith)
                requires
                    spacing >= 0,
                    i <= n,
            ;
            assert(spacing * i >= 0) by (nonlinear_arith)
                requires
                    spacing >= 0,
                    i >= 0,
            ;
        }
        let along: i64 = prev + (spacing as u64 * i as u64) as i64;
        let (len, cross): (u32, u32) = if horizontal {
            (w.width, w.height)
        } else {
            (w.height, w.width)
        };
        let across: i64 = margin_offset + half(thickness - cross as i64);
        let loc = if horizontal {
            Point { x: along, y: across }
        } else {
            Point { x: across, y: along }
        };
        let p = WindowPlacement { region, index: w.index, loc };
        out.push(p);
        proof {
            assert(target[i as int] == place(
                ws@,
                i as int,
                region,
                start as int,
                horizontal,
                spacing as int,
                thickness as int,
                margin_offset as int,
            ));
            assert(p == target[i as int]);
            assert(target.take(i + 1) =~= target.take(i as int).push(p));
        }
        prev = prev + len as i64;
        i += 1;
    }
    proof {
        assert(target.take(i as int) =~= target);
    }
}

impl PanelSpace {
    /// Lengthwise sums: (left, center, right, total).
    fn compute_sums(&self) -> (r: (i64, i64, i64, i64))
        requires
            self.layout_fits(),
        ensures
            r.0 == self.left_sum(),
            r.1 == self.center_sum(),
            r.2 == self.right_sum(),
            r.3 == self.total_length(),
    {
        proof {
            lemma_layout_bounds(self);
        }
        let horizontal = self.config.is_horizontal();
        let padding = self.config.padding as i64;
        let spacing = self.config.spacing;
        let left_sum = region_sum_of(&self.windows_left, horizontal, spacing) as i64;
        let center_sum = region_sum_of(&self.windows_center, horizontal, spacing) as i64;
        let right_sum = region_sum_of(&self.windows_right, horizontal, spacing) as i64;
        let mut nonempty: i64 = 0;
        if self.windows_left.len() > 0 {
            nonempty += 1;
        }
        if self.windows_center.len() > 0 {
            nonempty += 1;
        }
        if self.windows_right.len() > 0 {
            nonempty += 1;
        }
        let gaps: i64 = if nonempty == 0 { 0 } else { nonempty - 1 };
        let total_length: i64 = left_sum + center_sum + right_sum + 2 * padding + spacing as i64 * gaps;
        (left_sum, center_sum, right_sum, total_length)
    }

    /// Thickness of the content clamped into the size class.
    fn compute_thickness(&self) -> (r: i64)
        requires
            self.layout_fits(),
        ensures
            r == self.thickness(),
            0 <= r <= 141,
    {
        proof {
            lemma_layout_bounds(self);
        }
        let horizontal = self.config.is_horizontal();
        let padding = self.config.padding as i64;
        let a = max_cross_of(&self.windows_left, horizontal);
        let b = max_cross_of(&self.windows_center, horizontal);
        let c = max_cross_of(&self.windows_right, horizontal);
        let max_cross: u32 = if a >= b && a >= c {
            a
        } else if b >= c {
            b
        } else {
            c
        };
        let content_thickness: i64 = 2 * padding + max_cross as i64;
        let t_end = (self.config.size.thickness_end() - 2 * self.config.padding) as i64;
        let t_start = crate::config::MIN_THICKNESS as i64;
        if content_thickness < t_start {
            t_start
        } else if content_thickness >= t_end {
            t_end - 1
        } else {
            content_thickness
        }
    }

    fn compute_output_length(&self) -> (r: i64)
        ensures
            r == self.output_length(),
    {
        match self.suggested_length {
            Some(l) => l as i64,
            None => match self.output_dims {
                Some((w, h)) => if self.config.is_horizontal() {
                    w as i64
                } else {
                    h as i64
                },
                None => 0,
            },
        }
    }

    fn compute_panel_rect(&self, cl: i64, pos: i64, thickness: i64) -> (r: PanelRect)
        requires
            self.layout_fits(),
            cl == self.container_length_spec(),
            pos == self.container_pos(),
            thickness == self.thickness(),
            0 <= thickness <= 141,
        ensures
            r == self.panel_rect_spec(),
    {
        proof {
            lemma_layout_bounds(self);
        }
        let horizontal = self.config.is_horizontal();
        let gap = self.config.get_effective_anchor_gap() as i64;
        let (pw, ph) = if horizontal {
            (cl, thickness)
        } else {
            (thickness, cl)
        };
        let mut radius: i64 = self.config.border_radius as i64;
        if pw / 2 < radius {
            radius = pw / 2;
        }
        if ph / 2 < radius {
            radius = ph / 2;
        }
        let square = gap == 0;
        let (tl, tr, bl, br) = match self.config.anchor {
            PanelAnchor::Right if square => (radius, 0i64, radius, 0i64),
            PanelAnchor::Left if square => (0i64, radius, 0i64, radius),
            PanelAnchor::Bottom if square => (radius, radius, 0i64, 0i64),
            PanelAnchor::Top if square => (0i64, 0i64, radius, radius),
            _ => (radius, radius, radius, radius),
        };
        let loc = match self.config.anchor {
            PanelAnchor::Left => Point { x: gap, y: pos },
            PanelAnchor::Right => Point { x: 0, y: pos },
            PanelAnchor::Top => Point { x: pos, y: thickness - gap },
            PanelAnchor::Bottom => Point { x: pos, y: gap },
        };
        PanelRect { rad_tl: tl, rad_tr: tr, rad_bl: bl, rad_br: br, loc, size: Size { w: pw, h: ph } }
    }

    fn compute_input_region(&self, pos: i64, total_length: i64, requested: Size) -> (r: Rect)
        requires
            pos == self.container_pos(),
            total_length == self.total_length(),
            requested == self.requested_size(),
        ensures
            r == self.input_region_spec(),
    {
        if !self.config.expand_to_edges {
            if self.config.is_horizontal() {
                Rect { x: pos, y: 0, w: total_length, h: requested.h }
            } else {
                Rect { x: 0, y: pos, w: requested.w, h: total_length }
            }
        } else {
            Rect { x: 0, y: 0, w: requested.w, h: requested.h }
        }
    }

    /// Lengthwise start of each region: (left, center, right).
    fn compute_starts(&self, sums: (i64, i64, i64), cl: i64, pos: i64) -> (r: (i64, i64, i64))
        requires
            self.layout_fits(),
            sums.0 == self.left_sum(),
            sums.1 == self.center_sum(),
            sums.2 == self.right_sum(),
            cl == self.container_length_spec(),
            pos == self.container_pos(),
        ensures
            r.0 == self.left_start(),
            r.1 == self.center_start(),
            r.2 == self.right_start(),
            -4 * length_bound() <= r.0 <= 4 * length_bound(),
            -4 * length_bound() <= r.1 <= 4 * length_bound(),
            -4 * length_bound() <= r.2 <= 4 * length_bound(),
    {
        proof {
            lemma_layout_bounds(self);
            lemma_region_sum_parts(self.windows_left@, self.horizontal(), self.config.spacing as int);
        }
        let (left_sum, center_sum, right_sum) = sums;
        let horizontal = self.config.is_horizontal();
        let padding = self.config.padding as i64;
        let is_dock = !self.config.expand_to_edges;
        let center_left_spacing = center_left_spacing_of(
            is_dock,
            cl,
            left_sum,
            center_sum,
            right_sum,
            padding,
        );
        let has_left = match &self.config.plugins_wings {
            Some((wl, _)) => self.config.expand_to_edges && wl.len() > 0,
            None => false,
        };
        assert(has_left == self.has_left_plugins());
        let left_len = crate::windows::total_length_of(&self.windows_left, horizontal) as i64;
        let left_start = pos + padding;
        let center_start = left_start + left_len + if has_left {
            center_left_spacing
        } else {
            0
        };
        let right_start = pos + cl - padding - right_sum;
        (left_start, center_start, right_start)
    }

    fn compute_placements(&self, sums: (i64, i64, i64), cl: i64, pos: i64, thickness: i64) -> (r: Vec<
        WindowPlacement,
    >)
        requires
            self.layout_fits(),
            sums.0 == self.left_sum(),
            sums.1 == self.center_sum(),
            sums.2 == self.right_sum(),
            cl == self.container_length_spec(),
            pos == self.container_pos(),
            thickness == self.thickness(),
            0 <= thickness <= 141,
        ensures
            r@ == self.placements_spec(),
    {
        proof {
            lemma_layout_bounds(self);
            lemma_sum_lengths_nonneg(self.windows_left@, self.horizontal());
            lemma_region_sum_parts(self.windows_left@, self.horizontal(), self.config.spacing as int);
        }
        let horizontal = self.config.is_horizontal();
        let spacing = self.config.spacing;
        let gap = self.config.get_effective_anchor_gap() as i64;
        let margin_offset: i64 = match self.config.anchor {
            PanelAnchor::Top | PanelAnchor::Left => gap,
            _ => 0,
        };
        let (left_start, center_start, right_start) = self.compute_starts(sums, cl, pos);
        let mut placements: Vec<WindowPlacement> = Vec::new();
        place_region(
            &self.windows_left,
            Alignment::Left,
            left_start,
            horizontal,
            spacing,
            thickness,
            margin_offset,
            &mut placements,
        );
        place_region(
            &self.windows_center,
            Alignment::Center,
            center_start,
            horizontal,
            spacing,
            thickness,
            margin_offset,
            &mut placements,
        );
        place_region(
            &self.windows_right,
            Alignment::Right,
            right_start,
            horizontal,
            spacing,
            thickness,
            margin_offset,
            &mut placements,
        );
        proof {
            assert(placements@ =~= self.placements_spec());
        }
        placements
    }
}

impl PanelSpace {
    /// Lays out the panel: computes its content size, and either requests a
    /// new surface size from the host and stops, or positions the container,
    /// the background, the input region and every window.
    #[verifier::rlimit(40)]
    pub fn layout(&mut self) -> (r: Result<(), LayoutError>)
        requires
            old(self).layout_fits(),
        ensures
            old(self).input_region is None ==> r == Err::<(), LayoutError>(
                LayoutError::MissingSurface,
            ) && *final(self) == *old(self),
            old(self).input_region is Some && old(self).needs_resize() ==> {
                &&& r == Err::<(), LayoutError>(LayoutError::ResizePending)
                &&& PanelSpace::same_inputs(*final(self), *old(self))
                &&& final(self).pending_dimensions == Some(old(self).requested_size())
                &&& final(self).is_dirty
                &&& final(self).actual_size == old(self).content_size()
                &&& final(self).container_length == old(self).container_length
                &&& final(self).placements == old(self).placements
                &&& final(self).panel_rect == old(self).panel_rect
                &&& final(self).input_region == old(self).input_region
            },
            old(self).input_region is Some && !old(self).needs_resize() ==> {
                &&& r == Ok::<(), LayoutError>(())
                &&& PanelSpace::same_inputs(*final(self), *old(self))
                &&& final(self).pending_dimensions == old(self).pending_dimensions
                &&& final(self).is_dirty == old(self).is_dirty
                &&& final(self).actual_size == old(self).content_size()
                &&& final(self).container_length == old(self).container_length_spec()
                &&& final(self).placements@ == old(self).placements_spec()
                &&& final(self).panel_rect == old(self).panel_rect_spec()
                &&& final(self).input_region == Some(old(self).input_region_spec())
            },
    {
        if self.input_region.is_none() {
            return Err(LayoutError::MissingSurface);
        }
        proof {
            lemma_layout_bounds(self);
        }
        let horizontal = self.config.is_horizontal();
        let is_dock = !self.config.expand_to_edges;
        let gap = self.config.get_effective_anchor_gap() as i64;
        let (left_sum, center_sum, right_sum, total_length) = self.compute_sums();
        let thickness = self.compute_thickness();
        let o = self.compute_output_length();

        self.actual_size = if horizontal {
            Size { w: total_length, h: thickness }
        } else {
            Size { w: thickness, h: total_length }
        };
        let desired = if horizontal {
            Size { w: o, h: thickness }
        } else {
            Size { w: thickness, h: o }
        };
        let requested = if horizontal {
            Size { w: o, h: thickness + gap }
        } else {
            Size { w: thickness + gap, h: o }
        };
        if desired.w != self.dimensions.w || desired.h != self.dimensions.h {
            self.pending_dimensions = Some(requested);
            self.is_dirty = true;
            return Err(LayoutError::ResizePending);
        }

        let cl: i64 = if is_dock {
            total_length
        } else {
            o
        };
        let pos: i64 = half(o - cl);
        self.panel_rect = self.compute_panel_rect(cl, pos, thickness);
        self.container_length = cl;
        self.input_region = Some(self.compute_input_region(pos, total_length, requested));
        let placements = self.compute_placements(
            (left_sum, center_sum, right_sum),
            cl,
            pos,
            thickness,
        );
        self.placements = placements;
        Ok(())
    }
}

/// The lengthwise content size is the windows of each region, one spacing
/// between neighbouring windows and between non-empty regions, and the
/// padding at both ends.
pub proof fn law_region_sums(s: PanelSpace)
    ensures
        s.content_size() == oriented(s.horizontal(), s.total_length(), s.thickness()),
        s.left_sum() + s.center_sum() + s.right_sum() + s.region_spacing() == s.total_length() - 2
            * s.config.padding,
        s.left_sum() == sum_lengths(s.windows_left@, s.horizontal()) + s.config.spacing * (if s.windows_left@.len() == 0 {
            0
        } else {
            s.windows_left@.len() - 1
        }),
        s.center_sum() == sum_lengths(s.windows_center@, s.horizontal()) + s.config.spacing * (
        if s.windows_center@.len() == 0 {
            0
        } else {
            s.windows_center@.len() - 1
        }),
        s.right_sum() == sum_lengths(s.windows_right@, s.horizontal()) + s.config.spacing * (if s.windows_right@.len() == 0 {
            0
        } else {
            s.windows_right@.len() - 1
        }),
{
}

/// The thickness layout gives a panel lies in the range of its size class,
/// less the padding.
pub proof fn law_thickness_in_class(s: PanelSpace)
    requires
        s.config.padding_fits(),
    ensures
        s.config.thickness_range().start <= s.thickness() < s.config.thickness_range().end,
        s.content_size() == oriented(s.horizontal(), s.total_length(), s.thickness()),
{
}

/// Every corner radius of the background lies between 0 and half of the
/// shorter side, whatever border radius is configured.
pub proof fn law_radius_bounded(s: PanelSpace)
    requires
        s.layout_fits(),
    ensures
        ({
            let r = s.panel_rect_spec();
            &&& 0 <= r.rad_tl <= r.size.w / 2 && r.rad_tl <= r.size.h / 2
            &&& 0 <= r.rad_tr <= r.size.w / 2 && r.rad_tr <= r.size.h / 2
            &&& 0 <= r.rad_bl <= r.size.w / 2 && r.rad_bl <= r.size.h / 2
            &&& 0 <= r.rad_br <= r.size.w / 2 && r.rad_br <= r.size.h / 2
        }),
{
    lemma_layout_bounds(&s);
}

/// Layout depends on its inputs alone: two panels that agree on them get the
/// same size request, content size, background, input region and window
/// placements. As a layout pass keeps its inputs, laying out twice places
/// every window where the first pass did.
pub proof fn law_layout_idempotent(a: PanelSpace, b: PanelSpace)
    requires
        PanelSpace::same_inputs(a, b),
    ensures
        a.needs_resize() == b.needs_resize(),
        a.requested_size() == b.requested_size(),
        a.content_size() == b.content_size(),
        a.container_length_spec() == b.container_length_spec(),
        a.panel_rect_spec() == b.panel_rect_spec(),
        a.input_region_spec() == b.input_region_spec(),
        a.placements_spec() == b.placements_spec(),
{
}

} // verus!
