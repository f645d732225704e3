//! Applet windows of one region and the sums the layout is built from.

use vstd::prelude::*;

verus! {

/// An applet window: its order within its region, its current size and
/// whether it is the target of minimize animations.
#[derive(Debug, Clone, Copy, PartialEq, Eq, Structural)]
pub struct AppletWindow {
    pub index: usize,
    pub width: u32,
    pub height: u32,
    pub is_minimize: bool,
}

/// Extent of a window along the panel.
pub open spec fn length_of(w: AppletWindow, horizontal: bool) -> int {
    if horizontal {
        w.width as int
    } else {
        w.height as int
    }
}

/// Extent of a window across the panel.
pub open spec fn cross_of(w: AppletWindow, horizontal: bool) -> int {
    if horizontal {
        w.height as int
    } else {
        w.width as int
    }
}

/// Sum of the lengthwise extents of the windows.
pub open spec fn sum_lengths(ws: Seq<AppletWindow>, horizontal: bool) -> int
    decreases ws.len(),
{
    if ws.len() == 0 {
        0
    } else {
        sum_lengths(ws.drop_last(), horizontal) + length_of(ws.last(), horizontal)
    }
}

/// Largest crosswise extent of the windows, 0 for none.
pub open spec fn max_cross(ws: Seq<AppletWindow>, horizontal: bool) -> int
    decreases ws.len(),
{
    if ws.len() == 0 {
        0
    } else {
        let m = max_cross(ws.drop_last(), horizontal);
        let c = cross_of(ws.last(), horizontal);
        if m >= c {
            m
        } else {
            c
        }
    }
}

/// Lengthwise sum of a region: the windows plus one spacing between each two.
pub open spec fn region_sum(ws: Seq<AppletWindow>, horizontal: bool, spacing: int) -> int {
    sum_lengths(ws, horizontal) + spacing * (if ws.len() == 0 { 0 } else { ws.len() - 1 })
}

/// Indices run from 0 in order.
pub open spec fn contiguous(ws: Seq<AppletWindow>) -> bool {
    forall|i: int| 0 <= i < ws.len() ==> #[trigger] ws[i].index == i
}

/// Indices never decrease along the sequence.
pub open spec fn sorted_by_index(ws: Seq<AppletWindow>) -> bool {
    forall|i: int, j: int| 0 <= i < j < ws.len() ==> ws[i].index <= ws[j].index
}

/// The window with its index replaced.
pub open spec fn with_index(w: AppletWindow, i: int) -> AppletWindow {
    AppletWindow { index: i as usize, ..w }
}

pub proof fn lemma_sum_lengths_nonneg(ws: Seq<AppletWindow>, horizontal: bool)
    ensures
        sum_lengths(ws, horizontal) >= 0,
    decreases ws.len(),
{
    if ws.len() > 0 {
        lemma_sum_lengths_nonneg(ws.drop_last(), horizontal);
    }
}

pub proof fn lemma_sum_lengths_prefix(ws: Seq<AppletWindow>, horizontal: bool, k: int)
    requires
        0 <= k <= ws.len(),
    ensures
        0 <= sum_lengths(ws.take(k), horizontal) <= sum_lengths(ws, horizontal),
    decreases ws.len(),
{
    lemma_sum_lengths_nonneg(ws.take(k), horizontal);
    if k < ws.len() {
        assert(ws.take(k) =~= ws.drop_last().take(k));
        lemma_sum_lengths_prefix(ws.drop_last(), horizontal, k);
    } else {
        assert(ws.take(k) =~= ws);
    }
}

pub proof fn lemma_sum_lengths_step(ws: Seq<AppletWindow>, horizontal: bool, k: int)
    requires
        0 <= k < ws.len(),
    ensures
        sum_lengths(ws.take(k + 1), horizontal) == sum_lengths(ws.take(k), horizontal) + length_of(
            ws[k],
            horizontal,
        ),
{
    assert(ws.take(k + 1).drop_last() =~= ws.take(k));
}

pub proof fn lemma_max_cross_step(ws: Seq<AppletWindow>, horizontal: bool, k: int)
    requires
        0 <= k < ws.len(),
    ensures
        max_cross(ws.take(k + 1), horizontal) == (if max_cross(ws.take(k), horizontal) >= cross_of(
            ws[k],
            horizontal,
        ) {
            max_cross(ws.take(k), horizontal)
        } else {
            cross_of(ws[k], horizontal)
        }),
{
    assert(ws.take(k + 1).drop_last() =~= ws.take(k));
}

pub proof fn lemma_max_cross_bounds(ws: Seq<AppletWindow>, horizontal: bool)
    ensures
        0 <= max_cross(ws, horizontal) <= u32::MAX,
    decreases ws.len(),
{
    if ws.len() > 0 {
        lemma_max_cross_bounds(ws.drop_last(), horizontal);
    }
}

/// Sum of the lengthwise extents of the windows.
pub fn total_length_of(ws: &Vec<AppletWindow>, horizontal: bool) -> (r: u64)
    requires
        sum_lengths(ws@, horizontal) <= u32::MAX * 1024,
    ensures
        r == sum_lengths(ws@, horizontal),
{
    let mut acc: u64 = 0;
    let mut i: usize = 0;
    while i < ws.len()
        invariant
            0 <= i <= ws@.len(),
            sum_lengths(ws@, horizontal) <= u32::MAX * 1024,
            acc == sum_lengths(ws@.take(i as int), horizontal),
        decreases ws@.len() - i,
    {
        proof {
            lemma_sum_lengths_step(ws@, horizontal, i as int);
            lemma_sum_lengths_prefix(ws@, horizontal, i + 1);
        }
        let l: u32 = if horizontal { ws[i].width } else { ws[i].height };
        acc = acc + l as u64;
        i += 1;
    }
    proof {
        assert(ws@.take(i as int) =~= ws@);
    }
    acc
}

/// Largest crosswise extent of the windows, 0 for none.
pub fn max_cross_of(ws: &Vec<AppletWindow>, horizontal: bool) -> (r: u32)
    ensures
        r == max_cross(ws@, horizontal),
{
    let mut m: u32 = 0;
    let mut i: usize = 0;
    while i < ws.len()
        invariant
            0 <= i <= ws@.len(),
            m == max_cross(ws@.take(i as int), horizontal),
        decreases ws@.len() - i,
    {
        proof {
            lemma_max_cross_step(ws@, horizontal, i as int);
        }
        let c: u32 = if horizontal { ws[i].height } else { ws[i].width };
        if c > m {
            m = c;
        }
        i += 1;
    }
    proof {
        assert(ws@.take(i as int) =~= ws@);
    }
    m
}

/// Lengthwise sum of a region: the windows plus one spacing between each two.
pub fn region_sum_of(ws: &Vec<AppletWindow>, horizontal: bool, spacing: u32) -> (r: u64)
    requires
        region_sum(ws@, horizontal, spacing as int) <= u32::MAX * 1024,
    ensures
        r == region_sum(ws@, horizontal, spacing as int),
{
    proof {
        lemma_sum_lengths_nonneg(ws@, horizontal);
        let n: int = if ws@.len() == 0 { 0 } else { ws@.len() - 1 };
        assert(spacing as int * n >= 0) by (nonlinear_arith)
            requires spacing >= 0, n >= 0;
    }
    let sum = total_length_of(ws, horizontal);
    let n: u64 = if ws.len() == 0 { 0 } else { (ws.len() - 1) as u64 };
    sum + spacing as u64 * n
}

/// Windows reordered by index, stable among equal indices.
fn sorted_copy(ws: &Vec<AppletWindow>) -> (r: Vec<AppletWindow>)
    ensures
        r@.to_multiset() == ws@.to_multiset(),
        sorted_by_index(r@),
        r@.len() == ws@.len(),
{
    let mut r: Vec<AppletWindow> = Vec::new();
    let mut i: usize = 0;
    proof {
        broadcast use vstd::seq_lib::group_to_multiset_ensures;

        assert(ws@.take(0) =~= Seq::<AppletWindow>::empty());
        assert(r@ =~= Seq::<AppletWindow>::empty());
    }
    while i < ws.len()
        invariant
            0 <= i <= ws@.len(),
            r@.to_multiset() == ws@.take(i as int).to_multiset(),
            r@.len() == i,
            sorted_by_index(r@),
        decreases ws@.len() - i,
    {
        let x = ws[i];
        let mut pos: usize = 0;
        while pos < r.len() && r[pos].index <= x.index
            invariant
                0 <= pos <= r@.len(),
                forall|j: int| 0 <= j < pos ==> r@[j].index <= x.index,
            decreases r@.len() - pos,
        {
            pos += 1;
        }
        let ghost before = r@;
        r.insert(pos, x);
        proof {
            vstd::seq_lib::to_multiset_insert(before, pos as int, x);
            assert(ws@.take(i + 1) =~= ws@.take(i as int).push(x));
            ws@.take(i as int).to_multiset_ensures();
            assert(r@ =~= before.insert(pos as int, x));
            assert forall|a: int, b: int| 0 <= a < b < r@.len() implies r@[a].index <= r@[b].index by {
                if b < pos {
                } else if b == pos {
                } else if a < pos {
                    assert(r@[b] == before[b - 1]);
                } else if a == pos {
                    assert(r@[b] == before[b - 1]);
                    assert(pos < before.len());
                    assert(before[pos as int].index > x.index);
                    if b - 1 > pos {
                        assert(before[pos as int].index <= before[b - 1].index);
                    }
                } else {
                    assert(r@[b] == before[b - 1]);
                    assert(r@[a] == before[a - 1]);
                }
            }
        }
        i += 1;
    }
    proof {
        assert(ws@.take(i as int) =~= ws@);
    }
    r
}

/// Sorts windows by index, then renumbers them 0, 1, 2, ... in that order.
pub fn make_indices_contiguous(ws: &mut Vec<AppletWindow>)
    ensures
        final(ws)@.len() == old(ws)@.len(),
        contiguous(final(ws)@),
        exists|s: Seq<AppletWindow>|
            #![trigger s.to_multiset()]
            s.to_multiset() == old(ws)@.to_multiset()
                && sorted_by_index(s)
                && s.len() == final(ws)@.len()
                && forall|i: int| 0 <= i < s.len() ==> #[trigger] final(ws)@[i] == with_index(s[i], i),
{
    let sorted = sorted_copy(ws);
    let ghost s = sorted@;
    let mut out: Vec<AppletWindow> = Vec::new();
    let mut j: usize = 0;
    while j < sorted.len()
        invariant
            0 <= j <= sorted@.len(),
            s == sorted@,
            out@.len() == j,
            forall|i: int| 0 <= i < j ==> #[trigger] out@[i] == with_index(s[i], i),
        decreases sorted@.len() - j,
    {
        let w = sorted[j];
        out.push(AppletWindow { index: j, ..w });
        j += 1;
    }
    *ws = out;
    proof {
        assert(s.to_multiset() == old(ws)@.to_multiset());
    }
}

} // verus!
