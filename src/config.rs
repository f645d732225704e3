//! Panel configuration: anchor edge, size class, autohide and derived values.

use vstd::prelude::*;

verus! {

/// Edge to which the panel is anchored.
#[derive(Debug, Clone, Copy, PartialEq, Eq, Structural)]
pub enum PanelAnchor {
    Left,
    Right,
    Top,
    Bottom,
}

impl PanelAnchor {
    pub open spec fn is_horizontal_spec(self) -> bool {
        self is Top || self is Bottom
    }

    /// The edge across the output from this one.
    pub open spec fn opposite_spec(self) -> PanelAnchor {
        match self {
            PanelAnchor::Left => PanelAnchor::Right,
            PanelAnchor::Right => PanelAnchor::Left,
            PanelAnchor::Top => PanelAnchor::Bottom,
            PanelAnchor::Bottom => PanelAnchor::Top,
        }
    }

    pub fn opposite(&self) -> (r: PanelAnchor)
        ensures
            r == self.opposite_spec(),
    {
        match self {
            PanelAnchor::Left => PanelAnchor::Right,
            PanelAnchor::Right => PanelAnchor::Left,
            PanelAnchor::Top => PanelAnchor::Bottom,
            PanelAnchor::Bottom => PanelAnchor::Top,
        }
    }
}

impl Default for PanelAnchor {
    fn default() -> (r: PanelAnchor)
        ensures
            r == PanelAnchor::Top,
    {
        PanelAnchor::Top
    }
}

/// Size class of the panel.
#[derive(Debug, Clone, Copy, PartialEq, Eq, Structural)]
pub enum PanelSize {
    XS,
    S,
    M,
    L,
    XL,
}

impl PanelSize {
    /// Exclusive upper end of the thickness range of this class, before padding.
    pub open spec fn thickness_end_spec(self) -> u32 {
        match self {
            PanelSize::XS => 61,
            PanelSize::S => 81,
            PanelSize::M => 101,
            PanelSize::L => 121,
            PanelSize::XL => 141,
        }
    }

    pub fn thickness_end(&self) -> (r: u32)
        ensures
            r == self.thickness_end_spec(),
    {
        match self {
            PanelSize::XS => 61,
            PanelSize::S => 81,
            PanelSize::M => 101,
            PanelSize::L => 121,
            PanelSize::XL => 141,
        }
    }
}

/// Lower end of every thickness range.
pub const MIN_THICKNESS: u32 = 8;

/// A color with 8-bit channels.
#[derive(Debug, Clone, Copy, PartialEq, Eq, Structural)]
pub struct Rgba {
    pub r: u8,
    pub g: u8,
    pub b: u8,
    pub a: u8,
}

/// Background of the panel. A custom color is given in 8-bit channels.
#[derive(Debug, Clone, Copy, PartialEq, Eq, Structural)]
pub enum CosmicPanelBackground {
    ThemeDefault,
    Dark,
    Light,
    Color(u8, u8, u8),
}

/// Autohide behaviour; times in milliseconds, handle in logical pixels.
#[derive(Debug, Clone, Copy, PartialEq, Eq, Structural)]
pub struct AutoHide {
    /// time without pointer focus before hiding starts
    pub wait_time: u32,
    /// duration of a hide or show transition
    pub transition_time: u32,
    /// size of the strip left on screen while hidden
    pub handle_size: u32,
}

impl Default for AutoHide {
    fn default() -> (r: AutoHide)
        ensures
            r.wait_time == 1000 && r.transition_time == 200 && r.handle_size == 4,
    {
        AutoHide { wait_time: 1000, transition_time: 200, handle_size: 4 }
    }
}

/// Which outputs a panel is shown on.
#[derive(Debug, Clone, PartialEq, Eq)]
pub enum CosmicPanelOuput {
    All,
    Active,
    Name(String),
}

impl CosmicPanelOuput {
    pub open spec fn same_spec(self, o: CosmicPanelOuput) -> bool {
        match (self, o) {
            (CosmicPanelOuput::All, CosmicPanelOuput::All) => true,
            (CosmicPanelOuput::Active, CosmicPanelOuput::Active) => true,
            (CosmicPanelOuput::Name(a), CosmicPanelOuput::Name(b)) => a@ == b@,
            _ => false,
        }
    }

    /// Whether two output targets are the same.
    pub fn same(&self, o: &CosmicPanelOuput) -> (r: bool)
        ensures
            r == self.same_spec(*o),
    {
        match (self, o) {
            (CosmicPanelOuput::All, CosmicPanelOuput::All) => true,
            (CosmicPanelOuput::Active, CosmicPanelOuput::Active) => true,
            (CosmicPanelOuput::Name(a), CosmicPanelOuput::Name(b)) => a.eq(b),
            _ => false,
        }
    }
}

/// Layer of the shell the panel is placed on.
#[derive(Debug, Clone, Copy, PartialEq, Eq, Structural)]
pub enum Layer {
    Background,
    Bottom,
    Top,
    Overlay,
}

/// Keyboard interactivity requested for the panel surface.
#[derive(Debug, Clone, Copy, PartialEq, Eq, Structural)]
pub enum KeyboardInteractivity {
    NoFocus,
    Exclusive,
    OnDemand,
}

/// Half-open range `start..end` of admissible sizes.
#[derive(Debug, Clone, Copy, PartialEq, Eq, Structural)]
pub struct SizeRange {
    pub start: u32,
    pub end: u32,
}

/// The text of each string in a list.
pub open spec fn names_view(v: Seq<String>) -> Seq<Seq<char>> {
    v.map_values(|s: String| s@)
}

/// Whether two lists of names hold the same names in the same order.
pub fn names_eq(a: &Vec<String>, b: &Vec<String>) -> (r: bool)
    ensures
        r == (names_view(a@) == names_view(b@)),
{
    if a.len() != b.len() {
        proof {
            assert(names_view(a@).len() != names_view(b@).len());
        }
        return false;
    }
    let mut i: usize = 0;
    while i < a.len()
        invariant
            a@.len() == b@.len(),
            0 <= i <= a@.len(),
            forall|j: int| 0 <= j < i ==> a@[j]@ == b@[j]@,
        decreases a@.len() - i,
    {
        if !a[i].eq(&b[i]) {
            proof {
                assert(names_view(a@)[i as int] != names_view(b@)[i as int]);
            }
            return false;
        }
        i += 1;
    }
    proof {
        assert(names_view(a@) =~= names_view(b@));
    }
    true
}

pub open spec fn opt_names_view(v: Option<Vec<String>>) -> Option<Seq<Seq<char>>> {
    match v {
        Some(l) => Some(names_view(l@)),
        None => None,
    }
}

pub fn opt_names_eq(a: &Option<Vec<String>>, b: &Option<Vec<String>>) -> (r: bool)
    ensures
        r == (opt_names_view(*a) == opt_names_view(*b)),
{
    match (a, b) {
        (Some(x), Some(y)) => names_eq(x, y),
        (None, None) => true,
        _ => false,
    }
}

pub open spec fn wings_view(v: Option<(Vec<String>, Vec<String>)>) -> Option<
    (Seq<Seq<char>>, Seq<Seq<char>>),
> {
    match v {
        Some((l, r)) => Some((names_view(l@), names_view(r@))),
        None => None,
    }
}

pub fn wings_eq(a: &Option<(Vec<String>, Vec<String>)>, b: &Option<(Vec<String>, Vec<String>)>) -> (r:
    bool)
    ensures
        r == (wings_view(*a) == wings_view(*b)),
{
    match (a, b) {
        (Some((al, ar)), Some((bl, br))) => {
            let l = names_eq(al, bl);
            let r = names_eq(ar, br);
            l && r
        },
        (None, None) => true,
        _ => false,
    }
}

/// Appends clones of the names of `src` to `dst`.
fn append_names(dst: &mut Vec<String>, src: &Vec<String>)
    ensures
        names_view(final(dst)@) == names_view(old(dst)@) + names_view(src@),
{
    let ghost start = dst@;
    let mut i: usize = 0;
    while i < src.len()
        invariant
            0 <= i <= src@.len(),
            names_view(dst@) == names_view(start) + names_view(src@.take(i as int)),
        decreases src@.len() - i,
    {
        let c = src[i].clone();
        let ghost before = dst@;
        dst.push(c);
        i += 1;
        proof {
            assert(c@ == src@[i - 1]@);
            assert(names_view(dst@) =~= names_view(before).push(c@));
            assert(names_view(src@.take(i as int)) =~= names_view(src@.take(i - 1)).push(c@));
            assert(names_view(dst@) =~= names_view(start) + names_view(src@.take(i as int)));
        }
    }
    proof {
        assert(src@.take(i as int) =~= src@);
    }
}

fn clone_names(src: &Vec<String>) -> (r: Vec<String>)
    ensures
        names_view(r@) == names_view(src@),
{
    let mut r: Vec<String> = Vec::new();
    append_names(&mut r, src);
    proof {
        assert(names_view(Seq::<String>::empty()) + names_view(src@) =~= names_view(src@));
    }
    r
}

fn clone_opt_names(src: &Option<Vec<String>>) -> (r: Option<Vec<String>>)
    ensures
        opt_names_view(r) == opt_names_view(*src),
{
    match src {
        Some(v) => Some(clone_names(v)),
        None => None,
    }
}

/// Configuration of one panel.
#[derive(Debug, Clone)]
pub struct CosmicPanelConfig {
    /// profile name, unique among panels
    pub name: String,
    /// edge the panel is locked to
    pub anchor: PanelAnchor,
    /// whether a gap of `margin` separates the panel from its edge
    pub anchor_gap: bool,
    pub layer: Layer,
    pub keyboard_interactivity: KeyboardInteractivity,
    pub size: PanelSize,
    pub output: CosmicPanelOuput,
    pub background: CosmicPanelBackground,
    /// plugins at the start and at the end of the panel
    pub plugins_wings: Option<(Vec<String>, Vec<String>)>,
    /// plugins in the center of the panel
    pub plugins_center: Option<Vec<String>>,
    /// whether the panel spans the whole edge (bar) or hugs its content (dock)
    pub expand_to_edges: bool,
    pub padding: u32,
    /// space between applets
    pub spacing: u32,
    pub border_radius: u32,
    pub exclusive_zone: bool,
    pub autohide: Option<AutoHide>,
    /// margin between the panel and the edge of the output
    pub margin: u16,
    /// opacity of the background, 0 (transparent) to 255 (opaque)
    pub opacity: u8,
}

/// Whether `needle` occurs in `hay` as a contiguous run.
#[verifier::opaque]
pub open spec fn seq_contains(hay: Seq<char>, needle: Seq<char>) -> bool {
    exists|i: int| 0 <= i <= hay.len() - needle.len() && #[trigger] hay.subrange(i, i + needle.len()) == needle
}

/// The lower-case form of a text, as std's Unicode case mapping gives it.
pub uninterp spec fn lower_of(s: Seq<char>) -> Seq<char>;

/// Relies on `str::to_lowercase`: the result depends on the characters alone.
#[verifier::external_body]
fn lowercase(s: &str) -> (r: String)
    ensures
        r@ == lower_of(s@),
        s@.len() == 0 ==> r@.len() == 0,
{
    s.to_lowercase()
}

/// Whether `pat` occurs in `s` as a run of characters.
fn contains_str(s: &str, pat: &str) -> (r: bool)
    ensures
        r == seq_contains(s@, pat@),
{
    reveal(seq_contains);
    let n = s.unicode_len();
    let m = pat.unicode_len();
    if m > n {
        return false;
    }
    if m == 0 {
        assert(s@.subrange(0int, 0int + pat@.len()) =~= pat@);
        return true;
    }
    let mut i: usize = 0;
    while i <= n - m
        invariant
            n == s@.len(),
            m == pat@.len(),
            1 <= m <= n,
            0 <= i <= n - m + 1,
            forall|k: int| 0 <= k < i ==> #[trigger] s@.subrange(k, k + pat@.len()) != pat@,
        decreases n - m + 1 - i,
    {
        let mut j: usize = 0;
        let mut ok = true;
        while j < m && ok
            invariant
                n == s@.len(),
                m == pat@.len(),
                i + m <= n,
                0 <= j <= m,
                forall|k: int| 0 <= k < j ==> s@[i + k] == pat@[k],
                !ok ==> s@.subrange(i as int, i + m) != pat@,
            decreases m - j + (if ok { 1int } else { 0int }),
        {
            if s.get_char(i + j) != pat.get_char(j) {
                ok = false;
                assert(s@.subrange(i as int, i + m)[j as int] != pat@[j as int]);
            } else {
                j += 1;
            }
        }
        if ok {
            assert(s@.subrange(i as int, i + m) =~= pat@);
            proof {
                reveal(seq_contains);
                assert(s@.subrange(i as int, i + pat@.len()) == pat@);
            }
            return true;
        }
        i += 1;
    }
    proof {
        reveal(seq_contains);
    }
    false
}

/// The text whose presence in a lower-cased name raises a panel's priority.
pub open spec fn panel_word() -> Seq<char> {
    seq!['p', 'a', 'n', 'e', 'l']
}

/// Priority score used to order recreation of co-anchored panels.
pub open spec fn priority_spec(expand_to_edges: bool, margin: u16, anchor_gap: bool, named_panel: bool) -> u32 {
    ((if expand_to_edges { 1000u32 } else { 0u32 }) + (if margin == 0 { 200u32 } else { 0u32 }) + (if !anchor_gap { 100u32 } else { 0u32 }) + (if named_panel { 10u32 } else { 0u32 })) as u32
}

/// Priority score from its parts: 1000 for a bar that spans its edge, 200 for no
/// margin, 100 for no anchor gap and 10 for a name that mentions "panel".
pub fn priority_score(expand_to_edges: bool, margin: u16, anchor_gap: bool, named_panel: bool) -> (r: u32)
    ensures
        r == priority_spec(expand_to_edges, margin, anchor_gap, named_panel),
        r <= 1310,
{
    let mut priority: u32 = if expand_to_edges { 1000 } else { 0 };
    if margin == 0 {
        priority += 200;
    }
    if !anchor_gap {
        priority += 100;
    }
    if named_panel {
        priority += 10;
    }
    priority
}

impl CosmicPanelConfig {
    pub open spec fn names_panel(&self) -> bool {
        seq_contains(lower_of(self.name@), panel_word())
    }

    pub open spec fn priority(&self) -> u32 {
        priority_spec(self.expand_to_edges, self.margin, self.anchor_gap, self.names_panel())
    }

    pub open spec fn effective_gap(&self) -> u32 {
        if self.anchor_gap { self.margin as u32 } else { 0 }
    }

    /// Applet icon size of the configured size class.
    pub fn get_applet_icon_size(&self) -> (r: u32)
        ensures
            r == match self.size {
                PanelSize::XS => 18u32,
                PanelSize::S => 24u32,
                PanelSize::M => 36u32,
                PanelSize::L => 48u32,
                PanelSize::XL => 64u32,
            },
    {
        match self.size {
            PanelSize::XS => 18,
            PanelSize::S => 24,
            PanelSize::M => 36,
            PanelSize::L => 48,
            PanelSize::XL => 64,
        }
    }

    /// Priority of the panel; higher priority panels are created first.
    pub fn get_priority(&self) -> (r: u32)
        ensures
            r == self.priority(),
    {
        let lower = lowercase(self.name.as_str());
        let word = "panel";
        proof {
            reveal_strlit("panel");
            assert(word@ =~= panel_word());
        }
        let named_panel = contains_str(lower.as_str(), word);
        priority_score(self.expand_to_edges, self.margin, self.anchor_gap, named_panel)
    }

    pub fn get_margin(&self) -> (r: u16)
        ensures
            r == self.margin,
    {
        self.margin
    }

    /// Gap between the panel and its edge: the margin where an anchor gap is set.
    pub fn get_effective_anchor_gap(&self) -> (r: u32)
        ensures
            r == self.effective_gap(),
    {
        if self.anchor_gap {
            self.margin as u32
        } else {
            0
        }
    }

    /// Wait before hiding, in milliseconds, where autohide is configured.
    pub fn get_hide_wait(&self) -> (r: Option<u32>)
        ensures
            r == match self.autohide {
                Some(a) => Some(a.wait_time),
                None => None::<u32>,
            },
    {
        match &self.autohide {
            Some(a) => Some(a.wait_time),
            None => None,
        }
    }

    /// Duration of a hide or show transition, in milliseconds, where autohide is configured.
    pub fn get_hide_transition(&self) -> (r: Option<u32>)
        ensures
            r == match self.autohide {
                Some(a) => Some(a.transition_time),
                None => None::<u32>,
            },
    {
        match &self.autohide {
            Some(a) => Some(a.transition_time),
            None => None,
        }
    }

    /// Size of the handle left visible while hidden, where autohide is configured.
    pub fn get_hide_handle(&self) -> (r: Option<u32>)
        ensures
            r == match self.autohide {
                Some(a) => Some(a.handle_size),
                None => None::<u32>,
            },
    {
        match &self.autohide {
            Some(a) => Some(a.handle_size),
            None => None,
        }
    }

    pub fn background(&self) -> (r: CosmicPanelBackground)
        ensures
            r == self.background,
    {
        self.background
    }

    pub fn spacing(&self) -> (r: u32)
        ensures
            r == self.spacing,
    {
        self.spacing
    }

    pub fn exclusive_zone(&self) -> (r: bool)
        ensures
            r == self.exclusive_zone,
    {
        self.exclusive_zone
    }

    pub fn autohide(&self) -> (r: Option<AutoHide>)
        ensures
            r == self.autohide,
    {
        self.autohide
    }

    pub fn expand_to_edges(&self) -> (r: bool)
        ensures
            r == self.expand_to_edges,
    {
        self.expand_to_edges
    }

    pub open spec fn plugins_left_spec(&self) -> Option<Seq<Seq<char>>> {
        match self.plugins_wings {
            Some((l, _)) if self.expand_to_edges => Some(names_view(l@)),
            _ => None,
        }
    }

    pub open spec fn plugins_right_spec(&self) -> Option<Seq<Seq<char>>> {
        match self.plugins_wings {
            Some((_, r)) if self.expand_to_edges => Some(names_view(r@)),
            _ => None,
        }
    }

    /// Center plugins; a dock gathers all of its plugins in the center.
    pub open spec fn plugins_center_spec(&self) -> Option<Seq<Seq<char>>> {
        match self.plugins_wings {
            Some((l, r)) if !self.expand_to_edges => match self.plugins_center {
                Some(c) => Some(names_view(l@) + names_view(c@) + names_view(r@)),
                None => Some(names_view(l@) + names_view(r@)),
            },
            _ => opt_names_view(self.plugins_center),
        }
    }

    /// Plugins at the start of a bar; a dock has none there.
    pub fn plugins_left(&self) -> (r: Option<Vec<String>>)
        ensures
            opt_names_view(r) == self.plugins_left_spec(),
    {
        if self.expand_to_edges {
            match &self.plugins_wings {
                Some(w) => Some(clone_names(&w.0)),
                None => None,
            }
        } else {
            None
        }
    }

    pub fn plugins_center(&self) -> (r: Option<Vec<String>>)
        ensures
            opt_names_view(r) == self.plugins_center_spec(),
    {
        if self.expand_to_edges {
            return clone_opt_names(&self.plugins_center);
        }
        match &self.plugins_wings {
            None => clone_opt_names(&self.plugins_center),
            Some((left, right)) => {
                let mut all = clone_names(left);
                if let Some(center) = &self.plugins_center {
                    append_names(&mut all, center);
                }
                append_names(&mut all, right);
                Some(all)
            },
        }
    }

    /// Plugins at the end of a bar; a dock has none there.
    pub fn plugins_right(&self) -> (r: Option<Vec<String>>)
        ensures
            opt_names_view(r) == self.plugins_right_spec(),
    {
        if self.expand_to_edges {
            match &self.plugins_wings {
                Some(w) => Some(clone_names(&w.1)),
                None => None,
            }
        } else {
            None
        }
    }

    pub fn anchor(&self) -> (r: PanelAnchor)
        ensures
            r == self.anchor,
    {
        self.anchor
    }

    pub fn padding(&self) -> (r: u32)
        ensures
            r == self.padding,
    {
        self.padding
    }

    pub fn layer(&self) -> (r: Layer)
        ensures
            r == self.layer,
    {
        self.layer
    }

    pub fn keyboard_interactivity(&self) -> (r: KeyboardInteractivity)
        ensures
            r == self.keyboard_interactivity,
    {
        self.keyboard_interactivity
    }

    pub fn is_horizontal(&self) -> (r: bool)
        ensures
            r == self.anchor.is_horizontal_spec(),
    {
        match self.anchor {
            PanelAnchor::Top | PanelAnchor::Bottom => true,
            _ => false,
        }
    }

    pub fn name(&self) -> (r: &str)
        ensures
            r@ == self.name@,
    {
        self.name.as_str()
    }

    pub fn outputs(&self) -> (r: CosmicPanelOuput)
        ensures
            r.same_spec(self.output),
    {
        match &self.output {
            CosmicPanelOuput::All => CosmicPanelOuput::All,
            CosmicPanelOuput::Active => CosmicPanelOuput::Active,
            CosmicPanelOuput::Name(n) => CosmicPanelOuput::Name(n.clone()),
        }
    }

    /// Thickness range of the size class, less the padding on both sides.
    pub open spec fn thickness_range(&self) -> SizeRange {
        SizeRange {
            start: MIN_THICKNESS,
            end: (self.size.thickness_end_spec() - 2 * self.padding) as u32,
        }
    }

    /// Whether the padding leaves room in the size class: the thickness
    /// range less the padding on both sides is not empty. A configuration
    /// where it is cannot be laid out.
    pub open spec fn padding_fits(&self) -> bool {
        MIN_THICKNESS + 2 * self.padding < self.size.thickness_end_spec()
    }

    /// The lengthwise extent a panel takes on its output.
    pub open spec fn output_length(&self, output_dims: Option<(u32, u32)>, suggested_length: Option<u32>) -> u32 {
        match suggested_length {
            Some(l) => l,
            None => match output_dims {
                Some((w, h)) => if self.anchor.is_horizontal_spec() { w } else { h },
                None => 0,
            },
        }
    }

    /// Admissible (width, height) ranges: the size class bounds the thickness,
    /// the output (or the length the host suggested) fixes the length.
    pub fn get_dimensions(&self, output_dims: Option<(u32, u32)>, suggested_length: Option<u32>) -> (r:
        (Option<SizeRange>, Option<SizeRange>))
        requires
            self.padding_fits(),
            self.output_length(output_dims, suggested_length) < u32::MAX,
        ensures
            ({
                let o = self.output_length(output_dims, suggested_length);
                let len = SizeRange { start: o, end: (o + 1) as u32 };
                if self.anchor.is_horizontal_spec() {
                    r == (Some(len), Some(self.thickness_range()))
                } else {
                    r == (Some(self.thickness_range()), Some(len))
                }
            }),
    {
        let end = self.size.thickness_end();
        let bar_thickness = SizeRange { start: MIN_THICKNESS, end: end - 2 * self.padding };
        let (o_w, o_h) = match suggested_length {
            Some(l) => (l, l),
            None => match output_dims {
                Some((w, h)) => (w, h),
                None => (0, 0),
            },
        };
        match self.anchor {
            PanelAnchor::Left | PanelAnchor::Right => (
                Some(bar_thickness),
                Some(SizeRange { start: o_h, end: o_h + 1 }),
            ),
            PanelAnchor::Top | PanelAnchor::Bottom => (
                Some(SizeRange { start: o_w, end: o_w + 1 }),
                Some(bar_thickness),
            ),
        }
    }
}

impl Default for CosmicPanelConfig {
    fn default() -> (r: CosmicPanelConfig)
        ensures
            r.name@.len() == 0,
            r.anchor == PanelAnchor::Top,
            !r.anchor_gap,
            r.layer == Layer::Top,
            r.keyboard_interactivity == KeyboardInteractivity::NoFocus,
            r.size == PanelSize::M,
            r.output == CosmicPanelOuput::All,
            r.background == CosmicPanelBackground::ThemeDefault,
            r.plugins_wings.is_none(),
            r.plugins_center.is_none(),
            r.expand_to_edges,
            r.padding == 4,
            r.spacing == 4,
            r.exclusive_zone,
            r.autohide.is_none(),
            r.border_radius == 8,
            r.margin == 4,
            r.opacity == 204,
    {
        CosmicPanelConfig {
            name: String::new(),
            anchor: PanelAnchor::Top,
            anchor_gap: false,
            layer: Layer::Top,
            keyboard_interactivity: KeyboardInteractivity::NoFocus,
            size: PanelSize::M,
            output: CosmicPanelOuput::All,
            background: CosmicPanelBackground::ThemeDefault,
            plugins_wings: None,
            plugins_center: None,
            expand_to_edges: true,
            padding: 4,
            spacing: 4,
            exclusive_zone: true,
            autohide: None,
            border_radius: 8,
            margin: 4,
            opacity: 204,
        }
    }
}

pub open spec fn output_view(o: CosmicPanelOuput) -> Option<Option<Seq<char>>> {
    match o {
        CosmicPanelOuput::All => None,
        CosmicPanelOuput::Active => Some(None),
        CosmicPanelOuput::Name(n) => Some(Some(n@)),
    }
}

/// Two configurations agree in everything but, possibly, their output.
pub open spec fn same_but_output(a: CosmicPanelConfig, b: CosmicPanelConfig) -> bool {
    &&& a.name@ == b.name@
    &&& a.anchor == b.anchor
    &&& a.anchor_gap == b.anchor_gap
    &&& a.layer == b.layer
    &&& a.keyboard_interactivity == b.keyboard_interactivity
    &&& a.size == b.size
    &&& a.background == b.background
    &&& wings_view(a.plugins_wings) == wings_view(b.plugins_wings)
    &&& opt_names_view(a.plugins_center) == opt_names_view(b.plugins_center)
    &&& a.expand_to_edges == b.expand_to_edges
    &&& a.padding == b.padding
    &&& a.spacing == b.spacing
    &&& a.border_radius == b.border_radius
    &&& a.exclusive_zone == b.exclusive_zone
    &&& a.autohide == b.autohide
    &&& a.margin == b.margin
    &&& a.opacity == b.opacity
}

pub open spec fn configs_equal(a: CosmicPanelConfig, b: CosmicPanelConfig) -> bool {
    same_but_output(a, b) && output_view(a.output) == output_view(b.output)
}

pub fn same_but_output_exec(a: &CosmicPanelConfig, b: &CosmicPanelConfig) -> (r: bool)
    ensures
        r == same_but_output(*a, *b),
{
    let w = wings_eq(&a.plugins_wings, &b.plugins_wings);
    let c = opt_names_eq(&a.plugins_center, &b.plugins_center);
    a.name.eq(&b.name) && a.anchor == b.anchor && a.anchor_gap == b.anchor_gap && a.layer == b.layer
        && a.keyboard_interactivity == b.keyboard_interactivity && a.size == b.size
        && a.background == b.background && w && c && a.expand_to_edges == b.expand_to_edges
        && a.padding == b.padding && a.spacing == b.spacing && a.border_radius == b.border_radius
        && a.exclusive_zone == b.exclusive_zone && a.autohide == b.autohide && a.margin == b.margin
        && a.opacity == b.opacity
}

pub fn output_eq(a: &CosmicPanelOuput, b: &CosmicPanelOuput) -> (r: bool)
    ensures
        r == (output_view(*a) == output_view(*b)),
{
    match (a, b) {
        (CosmicPanelOuput::All, CosmicPanelOuput::All) => true,
        (CosmicPanelOuput::Active, CosmicPanelOuput::Active) => true,
        (CosmicPanelOuput::Name(x), CosmicPanelOuput::Name(y)) => x.eq(y),
        _ => false,
    }
}

impl CosmicPanelConfig {
    /// A copy of this configuration.
    pub fn duplicate(&self) -> (r: CosmicPanelConfig)
        ensures
            configs_equal(r, *self),
    {
        let plugins_wings = match &self.plugins_wings {
            Some((l, r)) => Some((clone_names(l), clone_names(r))),
            None => None,
        };
        CosmicPanelConfig {
            name: self.name.clone(),
            anchor: self.anchor,
            anchor_gap: self.anchor_gap,
            layer: self.layer,
            keyboard_interactivity: self.keyboard_interactivity,
            size: self.size,
            output: self.outputs(),
            background: self.background,
            plugins_wings,
            plugins_center: clone_opt_names(&self.plugins_center),
            expand_to_edges: self.expand_to_edges,
            padding: self.padding,
            spacing: self.spacing,
            border_radius: self.border_radius,
            exclusive_zone: self.exclusive_zone,
            autohide: self.autohide,
            margin: self.margin,
            opacity: self.opacity,
        }
    }
}

/// Why a name did not parse.
#[derive(Debug, Clone, Copy, PartialEq, Eq, Structural)]
pub enum ParseError {
    InvalidAnchor,
    InvalidSize,
    InvalidOutput,
}

/// Whether two texts hold the same characters.
pub fn str_eq(a: &str, b: &str) -> (r: bool)
    ensures
        r == (a@ == b@),
{
    let n = a.unicode_len();
    if n != b.unicode_len() {
        return false;
    }
    let mut i: usize = 0;
    while i < n
        invariant
            n == a@.len(),
            n == b@.len(),
            0 <= i <= n,
            forall|j: int| 0 <= j < i ==> a@[j] == b@[j],
        decreases n - i,
    {
        if a.get_char(i) != b.get_char(i) {
            return false;
        }
        i += 1;
    }
    assert(a@ =~= b@);
    true
}

impl PanelAnchor {
    pub open spec fn name_spec(self) -> Seq<char> {
        match self {
            PanelAnchor::Left => "Left"@,
            PanelAnchor::Right => "Right"@,
            PanelAnchor::Top => "Top"@,
            PanelAnchor::Bottom => "Bottom"@,
        }
    }

    /// Name of the edge.
    pub fn name(&self) -> (r: &'static str)
        ensures
            r@ == self.name_spec(),
    {
        match self {
            PanelAnchor::Left => "Left",
            PanelAnchor::Right => "Right",
            PanelAnchor::Top => "Top",
            PanelAnchor::Bottom => "Bottom",
        }
    }

    pub open spec fn from_name_spec(s: Seq<char>) -> Option<PanelAnchor> {
        if s == "Left"@ {
            Some(PanelAnchor::Left)
        } else if s == "Right"@ {
            Some(PanelAnchor::Right)
        } else if s == "Top"@ {
            Some(PanelAnchor::Top)
        } else if s == "Bottom"@ {
            Some(PanelAnchor::Bottom)
        } else {
            None
        }
    }

    /// The edge of that name.
    pub fn from_name(s: &str) -> (r: Option<PanelAnchor>)
        ensures
            r == PanelAnchor::from_name_spec(s@),
    {
        if str_eq(s, "Left") {
            Some(PanelAnchor::Left)
        } else if str_eq(s, "Right") {
            Some(PanelAnchor::Right)
        } else if str_eq(s, "Top") {
            Some(PanelAnchor::Top)
        } else if str_eq(s, "Bottom") {
            Some(PanelAnchor::Bottom)
        } else {
            None
        }
    }
}

impl std::str::FromStr for PanelAnchor {
    type Err = ParseError;

    fn from_str(s: &str) -> Result<PanelAnchor, ParseError> {
        match PanelAnchor::from_name(s) {
            Some(a) => Ok(a),
            None => Err(ParseError::InvalidAnchor),
        }
    }
}

impl PanelSize {
    pub open spec fn name_spec(self) -> Seq<char> {
        match self {
            PanelSize::XS => "XS"@,
            PanelSize::S => "S"@,
            PanelSize::M => "M"@,
            PanelSize::L => "L"@,
            PanelSize::XL => "XL"@,
        }
    }

    /// Name of the size class.
    pub fn name(&self) -> (r: &'static str)
        ensures
            r@ == self.name_spec(),
    {
        match self {
            PanelSize::XS => "XS",
            PanelSize::S => "S",
            PanelSize::M => "M",
            PanelSize::L => "L",
            PanelSize::XL => "XL",
        }
    }

    pub open spec fn from_name_spec(s: Seq<char>) -> Option<PanelSize> {
        if s == "XS"@ {
            Some(PanelSize::XS)
        } else if s == "S"@ {
            Some(PanelSize::S)
        } else if s == "M"@ {
            Some(PanelSize::M)
        } else if s == "L"@ {
            Some(PanelSize::L)
        } else if s == "XL"@ {
            Some(PanelSize::XL)
        } else {
            None
        }
    }

    /// The size class of that name.
    pub fn from_name(s: &str) -> (r: Option<PanelSize>)
        ensures
            r == PanelSize::from_name_spec(s@),
    {
        if str_eq(s, "XS") {
            Some(PanelSize::XS)
        } else if str_eq(s, "S") {
            Some(PanelSize::S)
        } else if str_eq(s, "M") {
            Some(PanelSize::M)
        } else if str_eq(s, "L") {
            Some(PanelSize::L)
        } else if str_eq(s, "XL") {
            Some(PanelSize::XL)
        } else {
            None
        }
    }
}

impl std::str::FromStr for PanelSize {
    type Err = ParseError;

    fn from_str(s: &str) -> Result<PanelSize, ParseError> {
        match PanelSize::from_name(s) {
            Some(a) => Ok(a),
            None => Err(ParseError::InvalidSize),
        }
    }
}

/// Output target written `All`, `Active` or `Name(<output>)` (see `output_view`).
pub open spec fn output_from_name_spec(s: Seq<char>) -> Option<Option<Option<Seq<char>>>> {
    if s == "All"@ {
        Some(None)
    } else if s == "Active"@ {
        Some(Some(None))
    } else if s.len() >= 6 && s.subrange(0, 5) == "Name("@ && s.last() == ')' {
        Some(Some(Some(s.subrange(5, s.len() - 1))))
    } else {
        None
    }
}

impl CosmicPanelOuput {
    /// The output target written `All`, `Active` or `Name(<output>)`.
    pub fn from_name(s: &str) -> (r: Option<CosmicPanelOuput>)
        ensures
            match r {
                Some(o) => output_from_name_spec(s@) == Some(output_view(o)),
                None => output_from_name_spec(s@) is None,
            },
    {
        if str_eq(s, "All") {
            return Some(CosmicPanelOuput::All);
        }
        if str_eq(s, "Active") {
            return Some(CosmicPanelOuput::Active);
        }
        let n = s.unicode_len();
        if n >= 6 && str_eq(s.substring_char(0, 5), "Name(") && s.get_char(n - 1) == ')' {
            let inner = s.substring_char(5, n - 1);
            return Some(CosmicPanelOuput::Name(String::from_str(inner)));
        }
        None
    }

    /// The target written as `from_name` reads it.
    pub fn to_name(&self) -> (r: String)
        ensures
            output_from_name_spec(r@) == Some(output_view(*self)),
    {
        proof {
            reveal_strlit("All");
            reveal_strlit("Active");
            reveal_strlit("Name(");
            reveal_strlit(")");
        }
        match self {
            CosmicPanelOuput::All => {
                let r = String::from_str("All");
                assert(r@ == "All"@);
                r
            },
            CosmicPanelOuput::Active => {
                let r = String::from_str("Active");
                assert(r@.len() != "All"@.len());
                r
            },
            CosmicPanelOuput::Name(n) => {
                let mut r = String::from_str("Name(");
                r.append(n.as_str());
                r.append(")");
                assert(r@.subrange(0, 5) =~= "Name("@);
                assert(r@.subrange(5, r@.len() - 1) =~= n@);
                assert(r@[0] == 'N');
                assert(r@.len() != "All"@.len());
                assert(r@[0] != "Active"@[0]);
                r
            },
        }
    }
}

/// Reading the name of an edge gives the edge back.
pub proof fn law_anchor_name_round_trip(a: PanelAnchor)
    ensures
        PanelAnchor::from_name_spec(a.name_spec()) == Some(a),
{
    reveal_strlit("Left");
    reveal_strlit("Right");
    reveal_strlit("Top");
    reveal_strlit("Bottom");
    assert("Left"@.len() != "Right"@.len());
    assert("Left"@.len() != "Top"@.len());
    assert("Left"@[0] != "Bottom"@[0]);
    assert("Right"@[0] != "Top"@[0]);
    assert("Right"@[0] != "Bottom"@[0]);
    assert("Top"@.len() != "Bottom"@.len());
}

/// Reading the name of a size class gives the class back.
pub proof fn law_size_name_round_trip(a: PanelSize)
    ensures
        PanelSize::from_name_spec(a.name_spec()) == Some(a),
{
    reveal_strlit("XS");
    reveal_strlit("S");
    reveal_strlit("M");
    reveal_strlit("L");
    reveal_strlit("XL");
    assert("XS"@.len() != "S"@.len());
    assert("XS"@.len() != "M"@.len());
    assert("XS"@.len() != "L"@.len());
    assert("XS"@[1] != "XL"@[1]);
    assert("S"@[0] != "M"@[0]);
    assert("S"@[0] != "L"@[0]);
    assert("S"@.len() != "XL"@.len());
    assert("M"@[0] != "L"@[0]);
    assert("M"@.len() != "XL"@.len());
    assert("L"@.len() != "XL"@.len());
}

impl std::str::FromStr for CosmicPanelOuput {
    type Err = ParseError;

    fn from_str(s: &str) -> Result<CosmicPanelOuput, ParseError> {
        match CosmicPanelOuput::from_name(s) {
            Some(o) => Ok(o),
            None => Err(ParseError::InvalidOutput),
        }
    }
}

/// Background color of a panel: the theme's current color for the theme
/// default, the dark or light theme color where one is chosen, or the custom
/// color; always with the panel's opacity.
pub open spec fn background_color(c: CosmicPanelConfig, current: Rgba, dark: Rgba, light: Rgba) -> Rgba {
    let base = match c.background {
        CosmicPanelBackground::ThemeDefault => current,
        CosmicPanelBackground::Dark => dark,
        CosmicPanelBackground::Light => light,
        CosmicPanelBackground::Color(r, g, b) => Rgba { r, g, b, a: 255 },
    };
    Rgba { a: c.opacity, ..base }
}

/// Background color of a panel (see `background_color`).
pub fn background_color_of(c: &CosmicPanelConfig, current: Rgba, dark: Rgba, light: Rgba) -> (r: Rgba)
    ensures
        r == background_color(*c, current, dark, light),
{
    let base = match c.background {
        CosmicPanelBackground::ThemeDefault => current,
        CosmicPanelBackground::Dark => dark,
        CosmicPanelBackground::Light => light,
        CosmicPanelBackground::Color(r, g, b) => Rgba { r, g, b, a: 255 },
    };
    Rgba { a: c.opacity, ..base }
}

/// A theme color as a panel shows it: with the panel's opacity where the
/// panel follows the theme.
pub open spec fn themed_color(c: CosmicPanelConfig, color: Rgba) -> Rgba {
    if c.background is ThemeDefault {
        Rgba { a: c.opacity, ..color }
    } else {
        color
    }
}

} // verus!
