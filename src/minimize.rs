//! Minimize targets: where minimized windows animate to, per output.

use vstd::prelude::*;

use crate::geometry::{Alignment, Rect};
use crate::space::{MinimizeTarget, PanelSpace, WindowPlacement};
use crate::windows::AppletWindow;

verus! {

/// The minimize target a panel offers on an output.
#[derive(Debug, Clone, Copy, PartialEq, Eq, Structural)]
pub struct MinimizeApplet {
    pub priority: i32,
    pub rect: Rect,
    /// identity of the panel surface offering the target
    pub surface: u64,
    /// whether that surface still exists
    pub surface_alive: bool,
}

/// The minimize target of each output, one entry per output name.
#[derive(Debug)]
pub struct MinimizeTargets {
    pub entries: Vec<(String, MinimizeApplet)>,
}

/// The target recorded for an output, if any.
pub open spec fn lookup(entries: Seq<(String, MinimizeApplet)>, output: Seq<char>) -> Option<MinimizeApplet>
    decreases entries.len(),
{
    if entries.len() == 0 {
        None
    } else if entries.last().0@ == output {
        Some(entries.last().1)
    } else {
        lookup(entries.drop_last(), output)
    }
}

impl MinimizeTargets {
    /// Output names are distinct.
    pub open spec fn wf(&self) -> bool {
        forall|i: int, j: int|
            0 <= i < j < self.entries@.len() ==> self.entries@[i].0@ != self.entries@[j].0@
    }

    /// The target recorded after `info` is offered, where it changes: the
    /// offer where none is recorded; the offered rectangle where the same
    /// surface moved; the offer where it has a higher priority or the
    /// recorded surface is gone. `None` where the record stays as it is.
    pub open spec fn offered(old: Option<MinimizeApplet>, info: MinimizeApplet) -> Option<MinimizeApplet> {
        match old {
            None => Some(info),
            Some(o) => if o.surface == info.surface && o.rect != info.rect {
                Some(MinimizeApplet { rect: info.rect, ..o })
            } else if o.priority < info.priority || !o.surface_alive {
                Some(info)
            } else {
                None
            },
        }
    }
}

/// Offers `info` as the minimize target of `output`; returns whether the
/// recorded target changed, in which case it is to be sent to the
/// toplevels of that output.
pub fn set_rectangles(state: &mut MinimizeTargets, output: String, info: MinimizeApplet) -> (changed: bool)
    requires
        old(state).wf(),
    ensures
        final(state).wf(),
        changed == MinimizeTargets::offered(lookup(old(state).entries@, output@), info) is Some,
        lookup(final(state).entries@, output@) == match MinimizeTargets::offered(
            lookup(old(state).entries@, output@),
            info,
        ) {
            Some(n) => Some(n),
            None => lookup(old(state).entries@, output@),
        },
        forall|o: Seq<char>| o != output@ ==> lookup(final(state).entries@, o) == lookup(old(state).entries@, o),
{
    let n = state.entries.len();
    let mut i: usize = 0;
    while i < n
        invariant
            n == state.entries@.len(),
            0 <= i <= n,
            state.entries == old(state).entries,
            old(state).wf(),
            forall|j: int| 0 <= j < i ==> state.entries@[j].0@ != output@,
        decreases n - i,
    {
        if state.entries[i].0.eq(&output) {
            let old_info = state.entries[i].1;
            proof {
                lemma_lookup_unique(state.entries@, i as int);
            }
            let new_info = if old_info.surface == info.surface && old_info.rect != info.rect {
                MinimizeApplet { rect: info.rect, ..old_info }
            } else {
                info
            };
            if (old_info.surface == info.surface && old_info.rect != info.rect)
                || old_info.priority < info.priority || !old_info.surface_alive {
                let ghost before = state.entries@;
                let ghost key = output;
                state.entries.set(i, (output, new_info));
                proof {
                    lemma_lookup_set(before, i as int, key, new_info);
                    assert(state.entries@ == before.update(i as int, (key, new_info)));
                    assert forall|a: int, b: int|
                        0 <= a < b < state.entries@.len() implies state.entries@[a].0@ != state.entries@[b].0@ by {
                        assert(before[a].0@ != before[b].0@);
                    }
                }
                return true;
            }
            return false;
        }
        i += 1;
    }
    let ghost before = state.entries@;
    proof {
        lemma_lookup_absent(before, output@);
    }
    state.entries.push((output, info));
    proof {
        assert(state.entries@.drop_last() =~= before);
    }
    true
}

proof fn lemma_lookup_absent(entries: Seq<(String, MinimizeApplet)>, output: Seq<char>)
    requires
        forall|j: int| 0 <= j < entries.len() ==> entries[j].0@ != output,
    ensures
        lookup(entries, output) is None,
    decreases entries.len(),
{
    if entries.len() > 0 {
        lemma_lookup_absent(entries.drop_last(), output);
    }
}

proof fn lemma_lookup_unique(entries: Seq<(String, MinimizeApplet)>, i: int)
    requires
        0 <= i < entries.len(),
        forall|a: int, b: int| 0 <= a < b < entries.len() ==> entries[a].0@ != entries[b].0@,
    ensures
        lookup(entries, entries[i].0@) == Some(entries[i].1),
    decreases entries.len(),
{
    if i < entries.len() - 1 {
        assert(entries.last().0@ != entries[i].0@);
        assert(entries.drop_last()[i] == entries[i]);
        lemma_lookup_unique(entries.drop_last(), i);
    }
}

proof fn lemma_lookup_set(entries: Seq<(String, MinimizeApplet)>, i: int, key: String, info: MinimizeApplet)
    requires
        0 <= i < entries.len(),
        key@ == entries[i].0@,
        forall|a: int, b: int| 0 <= a < b < entries.len() ==> entries[a].0@ != entries[b].0@,
    ensures
        forall|o: Seq<char>| o != entries[i].0@ ==> #[trigger] lookup(entries.update(i, (key, info)), o) == lookup(entries, o),
        lookup(entries.update(i, (key, info)), entries[i].0@) == Some(info),
    decreases entries.len(),
{
    let upd = entries.update(i, (key, info));
    if i < entries.len() - 1 {
        assert(upd.drop_last() =~= entries.drop_last().update(i, (key, info)));
        assert(entries.drop_last()[i] == entries[i]);
        lemma_lookup_set(entries.drop_last(), i, key, info);
        assert(upd.last() == entries.last());
        assert(entries.last().0@ != entries[i].0@);
        assert forall|o: Seq<char>| o != entries[i].0@ implies #[trigger] lookup(upd, o) == lookup(entries, o) by {
            if entries.last().0@ != o {
                assert(lookup(upd.drop_last(), o) == lookup(entries.drop_last(), o));
            }
        }
    } else {
        assert(upd.drop_last() =~= entries.drop_last());
        assert forall|o: Seq<char>| o != entries[i].0@ implies #[trigger] lookup(upd, o) == lookup(entries, o) by {
        }
    }
}

/// Rectangle forwarded for a minimize-target window placed at `p`: the
/// window's size, at least one pixel each way.
pub open spec fn target_rect(w: AppletWindow, p: WindowPlacement) -> Rect {
    let rw: i64 = if w.width >= 1 { w.width as i64 } else { 1 };
    let rh: i64 = if w.height >= 1 { w.height as i64 } else { 1 };
    Rect { x: p.loc.x, y: p.loc.y, w: rw, h: rh }
}

/// Over the first `n` windows: the last rectangle forwarded and the
/// rectangles forwarded, each only where it differs from the one before.
pub open spec fn minimize_fold(ws: Seq<AppletWindow>, ps: Seq<WindowPlacement>, last: Rect, n: int) -> (
    Rect,
    Seq<Rect>,
)
    decreases n,
{
    if n <= 0 {
        (last, Seq::empty())
    } else {
        let (l, e) = minimize_fold(ws, ps, last, n - 1);
        if ws[n - 1].is_minimize && target_rect(ws[n - 1], ps[n - 1]) != l {
            (target_rect(ws[n - 1], ps[n - 1]), e.push(target_rect(ws[n - 1], ps[n - 1])))
        } else {
            (l, e)
        }
    }
}

impl PanelSpace {
    /// All windows, in placement order.
    pub open spec fn all_windows(&self) -> Seq<AppletWindow> {
        self.windows_left@ + self.windows_center@ + self.windows_right@
    }

    pub open spec fn target_priority(&self) -> i32 {
        if self.config.expand_to_edges { 0 } else { 1 }
    }

    /// Queues, for each minimize-target window in placement order, its
    /// rectangle where it differs from the last one forwarded.
    pub fn update_minimize_target(&mut self)
        requires
            old(self).placements@.len() == old(self).all_windows().len(),
        ensures
            ({
                let (last, sent) = minimize_fold(
                    old(self).all_windows(),
                    old(self).placements@,
                    old(self).minimize_rect,
                    old(self).all_windows().len() as int,
                );
                &&& final(self).minimize_rect == last
                &&& final(self).minimize_targets@.len() == old(self).minimize_targets@.len() + sent.len()
                &&& forall|k: int| 0 <= k < old(self).minimize_targets@.len() ==> #[trigger] final(self).minimize_targets@[k] == old(self).minimize_targets@[k]
                &&& forall|k: int|
                    0 <= k < sent.len() ==> {
                        let t = #[trigger] final(self).minimize_targets@[old(self).minimize_targets@.len() + k];
                        &&& t.rect == sent[k]
                        &&& t.output@ == old(self).output_name@
                        &&& t.priority == old(self).target_priority()
                    }
            }),
            final(self).placements == old(self).placements,
            final(self).windows_left == old(self).windows_left,
            final(self).windows_center == old(self).windows_center,
            final(self).windows_right == old(self).windows_right,
            final(self).config == old(self).config,
            *final(self) == (PanelSpace {
                minimize_rect: final(self).minimize_rect,
                minimize_targets: final(self).minimize_targets,
                ..*old(self)
            }),
    {
        let mut all: Vec<AppletWindow> = Vec::new();
        all.extend_from_slice(self.windows_left.as_slice());
        all.extend_from_slice(self.windows_center.as_slice());
        all.extend_from_slice(self.windows_right.as_slice());
        assert(all@ =~= self.all_windows());
        let priority: i32 = if self.config.expand_to_edges { 0 } else { 1 };
        let ghost base = self.minimize_targets@;
        let n = all.len();
        let mut i: usize = 0;
        while i < n
            invariant
                n == all@.len(),
                all@ == old(self).all_windows(),
                0 <= i <= n,
                self.placements == old(self).placements,
                self.placements@.len() == n,
                self.windows_left == old(self).windows_left,
                self.windows_center == old(self).windows_center,
                self.windows_right == old(self).windows_right,
                self.config == old(self).config,
                *self == (PanelSpace {
                    minimize_rect: self.minimize_rect,
                    minimize_targets: self.minimize_targets,
                    ..*old(self)
                }),
                base == old(self).minimize_targets@,
                priority == old(self).target_priority(),
                ({
                    let (last, sent) = minimize_fold(all@, self.placements@, old(self).minimize_rect, i as int);
                    &&& self.minimize_rect == last
                    &&& self.minimize_targets@.len() == base.len() + sent.len()
                    &&& forall|k: int| 0 <= k < base.len() ==> #[trigger] self.minimize_targets@[k] == base[k]
                    &&& forall|k: int|
                        0 <= k < sent.len() ==> {
                            let t = #[trigger] self.minimize_targets@[base.len() + k];
                            &&& t.rect == sent[k]
                            &&& t.output@ == old(self).output_name@
                            &&& t.priority == priority
                        }
                }),
            decreases n - i,
        {
            let w = all[i];
            if w.is_minimize {
                let p = self.placements[i];
                let rw: i64 = if w.width >= 1 { w.width as i64 } else { 1 };
                let rh: i64 = if w.height >= 1 { w.height as i64 } else { 1 };
                let rect = Rect { x: p.loc.x, y: p.loc.y, w: rw, h: rh };
                if rect != self.minimize_rect {
                    self.minimize_rect = rect;
                    let t = MinimizeTarget { output: self.output_name.clone(), rect, priority };
                    self.minimize_targets.push(t);
                }
            }
            i += 1;
        }
    }
}

} // verus!
