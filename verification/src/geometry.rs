//! Rectangles in terminal cells and the solver that tiles one along an axis.
//!
//! The solver works in two steps. First every entry asks for a size (`want`)
//! and is granted it in order of rank as long as room is left: fixed entries
//! first, then percentages and ratios, then minimum and maximum entries; inside
//! one rank the earlier entry is served first. Then the cells that nobody
//! asked for are handed to the entries that may grow: the `Min` entries if
//! there are any, else the percentages and ratios, else every entry. Each of
//! them receives the same share, and the cells that the division leaves over
//! go one by one to the earliest of them.

use vstd::prelude::*;

verus! {

#[derive(Clone, Copy, Debug, PartialEq, Eq, Structural)]
pub struct Rect {
    pub x: u16,
    pub y: u16,
    pub width: u16,
    pub height: u16,
}

#[derive(Clone, Copy, Debug, PartialEq, Eq, Structural)]
pub enum Direction {
    Horizontal,
    Vertical,
}

#[derive(Clone, Copy, Debug, PartialEq, Eq, Structural)]
pub enum Constraint {
    Fixed(u16),
    Percentage(u16),
    Min(u16),
    Max(u16),
    Ratio(u32, u32),
}

pub open spec fn capped(limit: int, v: int) -> int {
    if v < limit { v } else { limit }
}

impl Rect {
    /// Both far edges are addressable with a `u16`.
    pub open spec fn wf(self) -> bool {
        self.x + self.width <= 0xFFFF && self.y + self.height <= 0xFFFF
    }

    pub open spec fn contains(self, x: int, y: int) -> bool {
        self.x <= x < self.x + self.width && self.y <= y < self.y + self.height
    }

    /// The rectangle left after `margin` cells are taken from every side; a
    /// rectangle too small for the margin shrinks to nothing at its origin.
    pub open spec fn inner_spec(self, margin: u16) -> Rect {
        if self.width < 2 * margin || self.height < 2 * margin {
            Rect { x: self.x, y: self.y, width: 0, height: 0 }
        } else {
            Rect {
                x: (self.x + margin) as u16,
                y: (self.y + margin) as u16,
                width: (self.width - 2 * margin) as u16,
                height: (self.height - 2 * margin) as u16,
            }
        }
    }

    /// A rectangle at `(x, y)`, its size cut so that its far edges stay
    /// addressable.
    pub fn new(x: u16, y: u16, width: u16, height: u16) -> (r: Rect)
        ensures
            r.wf(),
            r.x == x,
            r.y == y,
            r.width == capped(0xFFFF - x, width as int),
            r.height == capped(0xFFFF - y, height as int),
    {
        let w: u16 = if width < 0xFFFF - x { width } else { 0xFFFF - x };
        let h: u16 = if height < 0xFFFF - y { height } else { 0xFFFF - y };
        Rect { x, y, width: w, height: h }
    }

    pub fn area(&self) -> (a: u32)
        ensures
            a == self.width * self.height,
    {
        assert(self.width * self.height <= 0xFFFF * 0xFFFF) by (nonlinear_arith)
            requires
                self.width <= 0xFFFF,
                self.height <= 0xFFFF,
        ;
        (self.width as u32) * (self.height as u32)
    }

    pub fn inner(&self, margin: u16) -> (r: Rect)
        requires
            self.wf(),
        ensures
            r == self.inner_spec(margin),
            r.wf(),
    {
        if (self.width as u32) < 2 * (margin as u32) || (self.height as u32) < 2 * (margin as u32) {
            Rect { x: self.x, y: self.y, width: 0, height: 0 }
        } else {
            Rect {
                x: self.x + margin,
                y: self.y + margin,
                width: self.width - 2 * margin,
                height: self.height - 2 * margin,
            }
        }
    }
}

/// The size an entry asks for on an axis of `s` cells, never more than `s`.
pub open spec fn want(c: Constraint, s: int) -> int {
    match c {
        Constraint::Fixed(v) => capped(s, v as int),
        Constraint::Min(v) => capped(s, v as int),
        Constraint::Max(v) => capped(s, v as int),
        Constraint::Percentage(p) => (capped(100, p as int) * s) / 100,
        Constraint::Ratio(a, b) => if b == 0 {
            0
        } else {
            capped(s, (a * s) / (b as int))
        },
    }
}

/// The order in which entries are served: fixed sizes, then shares of the
/// axis, then bounds.
pub open spec fn rank(c: Constraint) -> int {
    match c {
        Constraint::Fixed(_) => 0,
        Constraint::Percentage(_) => 1,
        Constraint::Ratio(_, _) => 1,
        Constraint::Min(_) => 2,
        Constraint::Max(_) => 2,
    }
}

/// What the entries of rank `r` among the first `n` ask for, together.
pub open spec fn rank_total(cs: Seq<Constraint>, s: int, r: int, n: int) -> int
    decreases n,
{
    if n <= 0 {
        0
    } else {
        rank_total(cs, s, r, n - 1) + if rank(cs[n - 1]) == r {
            want(cs[n - 1], s)
        } else {
            0
        }
    }
}

/// What all entries of a rank below `r` ask for, together.
pub open spec fn rank_base(cs: Seq<Constraint>, s: int, r: int) -> int {
    if r <= 0 {
        0
    } else if r == 1 {
        rank_total(cs, s, 0, cs.len() as int)
    } else {
        rank_total(cs, s, 0, cs.len() as int) + rank_total(cs, s, 1, cs.len() as int)
    }
}

/// What was asked for by the entries served before entry `i`.
pub open spec fn claimed_before(cs: Seq<Constraint>, s: int, i: int) -> int {
    rank_base(cs, s, rank(cs[i])) + rank_total(cs, s, rank(cs[i]), i)
}

/// What entry `i` is granted of its wish: all of it while room is left, the
/// rest of the axis where the room ends, nothing after that.
pub open spec fn granted(cs: Seq<Constraint>, s: int, i: int) -> int {
    let room = s - claimed_before(cs, s, i);
    if room <= 0 {
        0
    } else {
        capped(room, want(cs[i], s))
    }
}

/// What all entries ask for, together.
pub open spec fn total_wanted(cs: Seq<Constraint>, s: int) -> int {
    rank_base(cs, s, 2) + rank_total(cs, s, 2, cs.len() as int)
}

/// The cells that no entry asked for.
pub open spec fn leftover(cs: Seq<Constraint>, s: int) -> int {
    s - capped(s, total_wanted(cs, s))
}

/// Whether an entry belongs to a class of entries that may grow.
pub open spec fn is_member(c: Constraint, class: int) -> bool {
    if class == 0 {
        c is Min
    } else if class == 1 {
        rank(c) == 1
    } else {
        true
    }
}

/// How many of the first `n` entries belong to `class`.
pub open spec fn members_before(cs: Seq<Constraint>, class: int, n: int) -> int
    decreases n,
{
    if n <= 0 {
        0
    } else {
        members_before(cs, class, n - 1) + if is_member(cs[n - 1], class) {
            1int
        } else {
            0int
        }
    }
}

/// The class that receives the leftover cells of this list.
pub open spec fn grow_class(cs: Seq<Constraint>) -> int {
    if members_before(cs, 0, cs.len() as int) > 0 {
        0
    } else if members_before(cs, 1, cs.len() as int) > 0 {
        1
    } else {
        2
    }
}

/// The leftover cells that entry `i` receives.
pub open spec fn extra(cs: Seq<Constraint>, s: int, i: int) -> int {
    let class = grow_class(cs);
    let k = members_before(cs, class, cs.len() as int);
    if k > 0 && is_member(cs[i], class) {
        leftover(cs, s) / k + if members_before(cs, class, i) < leftover(cs, s) % k {
            1int
        } else {
            0int
        }
    } else {
        0
    }
}

/// The size of entry `i` on an axis of `s` cells.
pub open spec fn size(cs: Seq<Constraint>, s: int, i: int) -> int {
    granted(cs, s, i) + extra(cs, s, i)
}

/// Where entry `i` starts, counted from the start of the axis: the sizes of
/// the entries before it, together.
pub open spec fn offset(cs: Seq<Constraint>, s: int, i: int) -> int
    decreases i,
{
    if i <= 0 {
        0
    } else {
        offset(cs, s, i - 1) + size(cs, s, i - 1)
    }
}

/// The size of `r` along `d`.
pub open spec fn axis_len(r: Rect, d: Direction) -> int {
    match d {
        Direction::Horizontal => r.width as int,
        Direction::Vertical => r.height as int,
    }
}

/// The rectangle of entry `i` when `inner` is split along `d`.
pub open spec fn chunk(inner: Rect, d: Direction, cs: Seq<Constraint>, i: int) -> Rect {
    match d {
        Direction::Horizontal => Rect {
            x: (inner.x + offset(cs, inner.width as int, i)) as u16,
            y: inner.y,
            width: size(cs, inner.width as int, i) as u16,
            height: inner.height,
        },
        Direction::Vertical => Rect {
            x: inner.x,
            y: (inner.y + offset(cs, inner.height as int, i)) as u16,
            width: inner.width,
            height: size(cs, inner.height as int, i) as u16,
        },
    }
}

pub proof fn lemma_want_bounds(c: Constraint, s: int)
    requires
        0 <= s,
    ensures
        0 <= want(c, s) <= s,
{
    match c {
        Constraint::Percentage(p) => {
            let q = capped(100, p as int);
            assert(0 <= (q * s) / 100 <= s) by (nonlinear_arith)
                requires
                    0 <= q <= 100,
                    0 <= s,
            ;
        },
        Constraint::Ratio(a, b) => {
            if b != 0 {
                assert(0 <= (a * s) / (b as int)) by (nonlinear_arith)
                    requires
                        0 <= a,
                        0 < b,
                        0 <= s,
                ;
            }
        },
        _ => {},
    }
}

proof fn lemma_rank_total_nonneg(cs: Seq<Constraint>, s: int, r: int, n: int)
    requires
        0 <= s,
    ensures
        0 <= rank_total(cs, s, r, n),
    decreases n,
{
    if n > 0 {
        lemma_rank_total_nonneg(cs, s, r, n - 1);
        lemma_want_bounds(cs[n - 1], s);
    }
}

proof fn lemma_members_bounds(cs: Seq<Constraint>, class: int, n: int)
    requires
        0 <= n,
    ensures
        0 <= members_before(cs, class, n) <= n,
        class == 2 ==> members_before(cs, class, n) == n,
    decreases n,
{
    if n > 0 {
        lemma_members_bounds(cs, class, n - 1);
    }
}

/// The share of the axis that the entries of rank `r` among the first `m`
/// were granted.
pub open spec fn granted_upto(cs: Seq<Constraint>, s: int, r: int, m: int) -> int {
    capped(s, rank_base(cs, s, r) + rank_total(cs, s, r, m)) - capped(s, rank_base(cs, s, r))
}

/// The leftover cells that the first `m` entries received.
pub open spec fn extra_upto(cs: Seq<Constraint>, s: int, m: int) -> int {
    let class = grow_class(cs);
    let k = members_before(cs, class, cs.len() as int);
    let mb = members_before(cs, class, m);
    if k > 0 {
        (leftover(cs, s) / k) * mb + capped(leftover(cs, s) % k, mb)
    } else {
        0
    }
}

proof fn lemma_offset_closed_form(cs: Seq<Constraint>, s: int, m: int)
    requires
        0 <= s,
        0 <= m <= cs.len(),
    ensures
        offset(cs, s, m) == granted_upto(cs, s, 0, m) + granted_upto(cs, s, 1, m) + granted_upto(
            cs,
            s,
            2,
            m,
        ) + extra_upto(cs, s, m),
    decreases m,
{
    if m > 0 {
        lemma_offset_closed_form(cs, s, m - 1);
        let i = m - 1;
        lemma_want_bounds(cs[i], s);
        let class = grow_class(cs);
        let k = members_before(cs, class, cs.len() as int);
        let mb = members_before(cs, class, i);
        let q = leftover(cs, s) / k;
        if k > 0 && is_member(cs[i], class) {
            assert(q * (mb + 1) == q * mb + q) by (nonlinear_arith);
        }
        assert(extra_upto(cs, s, m) == extra_upto(cs, s, i) + extra(cs, s, i));
        assert(granted_upto(cs, s, 0, m) + granted_upto(cs, s, 1, m) + granted_upto(cs, s, 2, m)
            == granted_upto(cs, s, 0, i) + granted_upto(cs, s, 1, i) + granted_upto(cs, s, 2, i)
            + granted(cs, s, i));
    }
}

/// Every entry has a size between nothing and the whole axis.
pub proof fn lemma_size_nonneg(cs: Seq<Constraint>, s: int, i: int)
    requires
        0 <= s,
        0 <= i < cs.len(),
    ensures
        0 <= granted(cs, s, i) <= want(cs[i], s),
        0 <= extra(cs, s, i),
        0 <= size(cs, s, i),
{
    lemma_want_bounds(cs[i], s);
    let class = grow_class(cs);
    let k = members_before(cs, class, cs.len() as int);
    let l = leftover(cs, s);
    if k > 0 {
        assert(0 <= l / k) by (nonlinear_arith)
            requires
                0 <= l,
                0 < k,
        ;
    }
}

/// The starts of the entries never go backwards.
pub proof fn lemma_offset_monotone(cs: Seq<Constraint>, s: int, i: int, j: int)
    requires
        0 <= s,
        0 <= i <= j <= cs.len(),
    ensures
        0 <= offset(cs, s, i) <= offset(cs, s, j),
    decreases j,
{
    if i < j {
        lemma_offset_monotone(cs, s, i, j - 1);
        lemma_size_nonneg(cs, s, j - 1);
    } else if j > 0 {
        lemma_offset_monotone(cs, s, 0, j - 1);
        lemma_size_nonneg(cs, s, j - 1);
    }
}

/// The sizes of a list that is not empty add up to the axis exactly: the
/// rectangles leave no gap, do not overlap and drop no cell.
pub proof fn lemma_sizes_fill_axis(cs: Seq<Constraint>, s: int)
    requires
        0 <= s,
        cs.len() > 0,
    ensures
        offset(cs, s, cs.len() as int) == s,
{
    let n = cs.len() as int;
    lemma_offset_closed_form(cs, s, n);
    lemma_members_bounds(cs, 2, n);
    lemma_members_bounds(cs, 1, n);
    lemma_members_bounds(cs, 0, n);
    let class = grow_class(cs);
    let k = members_before(cs, class, n);
    let l = leftover(cs, s);
    assert(k > 0);
    assert(l == (l / k) * k + l % k && 0 <= l % k < k) by (nonlinear_arith)
        requires
            0 <= l,
            0 < k,
    ;
}

/// An entry is never larger than the axis, and ends on it.
pub proof fn lemma_chunk_on_axis(cs: Seq<Constraint>, s: int, i: int)
    requires
        0 <= s,
        0 <= i < cs.len(),
    ensures
        0 <= offset(cs, s, i),
        0 <= size(cs, s, i),
        offset(cs, s, i) + size(cs, s, i) <= s,
{
    lemma_sizes_fill_axis(cs, s);
    lemma_offset_monotone(cs, s, i + 1, cs.len() as int);
    lemma_offset_monotone(cs, s, 0, i);
    lemma_size_nonneg(cs, s, i);
}

/// The percentages of the first `n` entries, together; an entry of another
/// kind counts as none.
pub open spec fn percent_sum(cs: Seq<Constraint>, n: int) -> int
    decreases n,
{
    if n <= 0 {
        0
    } else {
        percent_sum(cs, n - 1) + match cs[n - 1] {
            Constraint::Percentage(p) => p as int,
            _ => 0,
        }
    }
}

/// Percentages that add up to a hundred fill the axis, whatever the
/// divisions round away.
pub proof fn lemma_percentages_fill_axis(cs: Seq<Constraint>, s: int)
    requires
        0 <= s,
        forall|i: int| 0 <= i < cs.len() ==> #[trigger] cs[i] is Percentage,
        percent_sum(cs, cs.len() as int) == 100,
    ensures
        offset(cs, s, cs.len() as int) == s,
{
    lemma_sizes_fill_axis(cs, s);
}

/// A fixed entry never grows while the list holds an entry of another kind
/// that may, and it has exactly its size where the fixed entries before it
/// leave that much room.
pub proof fn lemma_fixed_is_exact(cs: Seq<Constraint>, s: int, i: int)
    requires
        0 <= s,
        0 <= i < cs.len(),
        cs[i] is Fixed,
        grow_class(cs) != 2,
    ensures
        size(cs, s, i) == granted(cs, s, i),
        size(cs, s, i) <= cs[i]->Fixed_0,
        rank_total(cs, s, 0, i) + cs[i]->Fixed_0 <= s ==> size(cs, s, i) == cs[i]->Fixed_0,
{
    lemma_rank_total_nonneg(cs, s, 0, i);
}

/// A percentage is the floor of its share of the axis where the entries
/// served before it leave that much room and a `Min` entry takes the cells
/// left over.
pub proof fn lemma_percentage_is_floor(cs: Seq<Constraint>, s: int, i: int)
    requires
        0 <= s,
        0 <= i < cs.len(),
        cs[i] is Percentage,
        cs[i]->Percentage_0 <= 100,
        grow_class(cs) == 0,
        claimed_before(cs, s, i) + want(cs[i], s) <= s,
    ensures
        size(cs, s, i) == (cs[i]->Percentage_0 * s) / 100,
{
    lemma_want_bounds(cs[i], s);
}

/// A ratio is the floor of its share of the axis, under the same conditions.
pub proof fn lemma_ratio_is_floor(cs: Seq<Constraint>, s: int, i: int)
    requires
        0 <= s,
        0 <= i < cs.len(),
        cs[i] is Ratio,
        0 < cs[i]->Ratio_1,
        cs[i]->Ratio_0 <= cs[i]->Ratio_1,
        grow_class(cs) == 0,
        claimed_before(cs, s, i) + want(cs[i], s) <= s,
    ensures
        size(cs, s, i) == (cs[i]->Ratio_0 * s) / (cs[i]->Ratio_1 as int),
{
    lemma_want_bounds(cs[i], s);
    let a = cs[i]->Ratio_0 as int;
    let b = cs[i]->Ratio_1 as int;
    assert((a * s) / b <= s) by (nonlinear_arith)
        requires
            0 <= a <= b,
            0 < b,
            0 <= s,
    ;
}

/// A `Max` entry is never larger than it asks while the list holds an entry
/// of another kind that may grow.
pub proof fn lemma_max_is_at_most(cs: Seq<Constraint>, s: int, i: int)
    requires
        0 <= s,
        0 <= i < cs.len(),
        cs[i] is Max,
        grow_class(cs) != 2,
    ensures
        size(cs, s, i) <= cs[i]->Max_0,
{
    lemma_size_nonneg(cs, s, i);
}

/// A `Min` entry is at least as large as it asks where the entries served
/// before it leave that much room.
pub proof fn lemma_min_is_at_least(cs: Seq<Constraint>, s: int, i: int)
    requires
        0 <= s,
        0 <= i < cs.len(),
        cs[i] is Min,
        claimed_before(cs, s, i) + cs[i]->Min_0 <= s,
    ensures
        size(cs, s, i) >= cs[i]->Min_0,
{
    lemma_size_nonneg(cs, s, i);
    lemma_rank_total_nonneg(cs, s, 0, cs.len() as int);
    lemma_rank_total_nonneg(cs, s, 1, cs.len() as int);
    lemma_rank_total_nonneg(cs, s, 2, i);
}

/// The entry on which position `p` of the axis falls, among the first `m`.
proof fn lemma_position_has_entry(cs: Seq<Constraint>, s: int, p: int, m: int) -> (i: int)
    requires
        0 <= s,
        0 <= m <= cs.len(),
        0 <= p < offset(cs, s, m),
    ensures
        0 <= i < m,
        offset(cs, s, i) <= p < offset(cs, s, i) + size(cs, s, i),
    decreases m,
{
    if p < offset(cs, s, m - 1) {
        lemma_position_has_entry(cs, s, p, m - 1)
    } else {
        m - 1
    }
}

/// The rectangles of a list that is not empty tile the interior: each lies
/// inside it, and every cell of the interior lies in one of them and in no
/// other.
pub proof fn lemma_chunks_tile(inner: Rect, d: Direction, cs: Seq<Constraint>, x: int, y: int)
    requires
        inner.wf(),
        cs.len() > 0,
    ensures
        forall|i: int|
            0 <= i < cs.len() && (#[trigger] chunk(inner, d, cs, i)).contains(x, y)
                ==> inner.contains(x, y),
        inner.contains(x, y) ==> exists|i: int|
            0 <= i < cs.len() && (#[trigger] chunk(inner, d, cs, i)).contains(x, y),
        forall|i: int, j: int|
            0 <= i < j < cs.len() ==> !((#[trigger] chunk(inner, d, cs, i)).contains(x, y) && (
            #[trigger] chunk(inner, d, cs, j)).contains(x, y)),
{
    let s = axis_len(inner, d);
    let n = cs.len() as int;
    lemma_sizes_fill_axis(cs, s);
    assert forall|i: int| 0 <= i < n implies 0 <= offset(cs, s, i) && 0 <= size(cs, s, i)
        && offset(cs, s, i) + size(cs, s, i) <= s by {
        lemma_chunk_on_axis(cs, s, i);
    }
    assert forall|i: int, j: int| 0 <= i < j < n implies offset(cs, s, i) + size(cs, s, i)
        <= offset(cs, s, j) by {
        lemma_offset_monotone(cs, s, i + 1, j);
    }
    assert forall|i: int, j: int| 0 <= i < j < n implies !((#[trigger] chunk(
        inner,
        d,
        cs,
        i,
    )).contains(x, y) && (#[trigger] chunk(inner, d, cs, j)).contains(x, y)) by {
        assert(offset(cs, s, i) + size(cs, s, i) <= offset(cs, s, j));
    }
    if inner.contains(x, y) {
        let p = match d {
            Direction::Horizontal => x - inner.x,
            Direction::Vertical => y - inner.y,
        };
        let i = lemma_position_has_entry(cs, s, p, n);
        assert(chunk(inner, d, cs, i).contains(x, y));
    }
}

fn want_of(c: Constraint, s: u16) -> (w: u16)
    ensures
        w == want(c, s as int),
{
    match c {
        Constraint::Fixed(v) => if v < s { v } else { s },
        Constraint::Min(v) => if v < s { v } else { s },
        Constraint::Max(v) => if v < s { v } else { s },
        Constraint::Percentage(p) => {
            let q: u32 = if p < 100 { p as u32 } else { 100 };
            proof {
                lemma_want_bounds(c, s as int);
                assert(q * s <= 100 * 0xFFFF) by (nonlinear_arith)
                    requires
                        0 <= q <= 100,
                        0 <= s <= 0xFFFF,
                ;
            }
            ((q * (s as u32)) / 100) as u16
        },
        Constraint::Ratio(a, b) => {
            if b == 0 {
                0
            } else {
                proof {
                    assert(a * s <= 0xFFFF_FFFF * 0xFFFF) by (nonlinear_arith)
                        requires
                            0 <= a <= 0xFFFF_FFFF,
                            0 <= s <= 0xFFFF,
                    ;
                }
                let v: u64 = ((a as u64) * (s as u64)) / (b as u64);
                if v < s as u64 { v as u16 } else { s }
            }
        },
    }
}

fn rank_of(c: Constraint) -> (r: u8)
    ensures
        r == rank(c),
{
    match c {
        Constraint::Fixed(_) => 0,
        Constraint::Percentage(_) => 1,
        Constraint::Ratio(_, _) => 1,
        Constraint::Min(_) => 2,
        Constraint::Max(_) => 2,
    }
}

fn is_member_of(c: Constraint, class: u8) -> (b: bool)
    ensures
        b == is_member(c, class as int),
{
    if class == 0 {
        match c {
            Constraint::Min(_) => true,
            _ => false,
        }
    } else if class == 1 {
        rank_of(c) == 1
    } else {
        true
    }
}

/// Serves the entries of rank `r` in order, given how much of the axis the
/// ranks below have claimed, and returns how much is claimed after them.
fn grant_rank(cs: &Vec<Constraint>, s: u16, r: u8, sizes: &mut Vec<u16>, claimed: u16) -> (out:
    u16)
    requires
        r <= 2,
        old(sizes).len() == cs.len(),
        claimed == capped(s as int, rank_base(cs@, s as int, r as int)),
    ensures
        final(sizes).len() == cs.len(),
        out == capped(
            s as int,
            rank_base(cs@, s as int, r as int) + rank_total(cs@, s as int, r as int, cs.len() as int),
        ),
        forall|j: int|
            0 <= j < cs.len() ==> #[trigger] final(sizes)[j] == if rank(cs[j]) == r {
                granted(cs@, s as int, j)
            } else {
                old(sizes)[j] as int
            },
{
    let ghost before = sizes@;
    let n = cs.len();
    let mut claimed = claimed;
    let mut i: usize = 0;
    while i < n
        invariant
            i <= n,
            n == cs.len(),
            r <= 2,
            sizes.len() == n,
            before.len() == n,
            claimed == capped(
                s as int,
                rank_base(cs@, s as int, r as int) + rank_total(cs@, s as int, r as int, i as int),
            ),
            forall|j: int|
                0 <= j < i ==> #[trigger] sizes[j] == if rank(cs[j]) == r {
                    granted(cs@, s as int, j)
                } else {
                    before[j] as int
                },
            forall|j: int| i <= j < n ==> #[trigger] sizes[j] == before[j],
        decreases n - i,
    {
        let c = cs[i];
        if rank_of(c) == r {
            let w = want_of(c, s);
            proof {
                lemma_want_bounds(c, s as int);
            }
            let room = s - claimed;
            let g = if w < room { w } else { room };
            sizes.set(i, g);
            claimed = claimed + g;
        }
        i += 1;
    }
    claimed
}

fn count_members(cs: &Vec<Constraint>, class: u8) -> (k: usize)
    ensures
        k == members_before(cs@, class as int, cs.len() as int),
{
    let mut k: usize = 0;
    let mut i: usize = 0;
    while i < cs.len()
        invariant
            i <= cs.len(),
            k <= i,
            k == members_before(cs@, class as int, i as int),
        decreases cs.len() - i,
    {
        if is_member_of(cs[i], class) {
            k += 1;
        }
        i += 1;
    }
    k
}

/// The sizes of all entries of `cs` on an axis of `s` cells.
pub fn solve(cs: &Vec<Constraint>, s: u16) -> (sizes: Vec<u16>)
    ensures
        sizes.len() == cs.len(),
        forall|i: int| 0 <= i < cs.len() ==> #[trigger] sizes[i] == size(cs@, s as int, i),
        cs.len() > 0 ==> offset(cs@, s as int, cs.len() as int) == s,
{
    let n = cs.len();
    let mut sizes: Vec<u16> = Vec::new();
    while sizes.len() < n
        invariant
            sizes.len() <= n,
        decreases n - sizes.len(),
    {
        sizes.push(0);
    }
    if n == 0 {
        return sizes;
    }
    let c0 = grant_rank(cs, s, 0, &mut sizes, 0);
    let c1 = grant_rank(cs, s, 1, &mut sizes, c0);
    let c2 = grant_rank(cs, s, 2, &mut sizes, c1);
    let k0 = count_members(cs, 0);
    let k1 = count_members(cs, 1);
    let class: u8 = if k0 > 0 { 0 } else if k1 > 0 { 1 } else { 2 };
    let k = if k0 > 0 { k0 } else if k1 > 0 { k1 } else { n };
    let lo: usize = (s - c2) as usize;
    proof {
        lemma_members_bounds(cs@, 2, n as int);
        lemma_sizes_fill_axis(cs@, s as int);
        assert(forall|j: int| 0 <= j < n ==> #[trigger] sizes[j] == granted(cs@, s as int, j));
    }
    let q = lo / k;
    let rem = lo % k;
    let mut pos: usize = 0;
    let mut i: usize = 0;
    while i < n
        invariant
            i <= n,
            n == cs.len(),
            sizes.len() == n,
            pos <= i,
            class == grow_class(cs@),
            k == members_before(cs@, class as int, n as int),
            k > 0,
            lo == leftover(cs@, s as int),
            q == lo / k,
            rem == lo % k,
            pos == members_before(cs@, class as int, i as int),
            forall|j: int| 0 <= j < i ==> #[trigger] sizes[j] == size(cs@, s as int, j),
            forall|j: int| i <= j < n ==> #[trigger] sizes[j] == granted(cs@, s as int, j),
        decreases n - i,
    {
        if is_member_of(cs[i], class) {
            proof {
                lemma_chunk_on_axis(cs@, s as int, i as int);
                lemma_size_nonneg(cs@, s as int, i as int);
            }
            let bump: usize = if pos < rem { 1 } else { 0 };
            let v: usize = sizes[i] as usize + q + bump;
            sizes.set(i, v as u16);
            pos += 1;
        }
        i += 1;
    }
    sizes
}

/// Splits the interior of `area`, which is `area` without `margin` cells on
/// every side, along `direction` into one rectangle for each constraint,
/// in their order. Each rectangle starts where the one before it ends; across
/// the axis each is as large as the interior.
pub fn split(area: Rect, direction: Direction, margin: u16, constraints: &Vec<Constraint>) -> (out:
    Vec<Rect>)
    requires
        area.wf(),
    ensures
        out.len() == constraints.len(),
        forall|i: int|
            0 <= i < constraints.len() ==> #[trigger] out[i] == chunk(
                area.inner_spec(margin),
                direction,
                constraints@,
                i,
            ),
        forall|i: int| 0 <= i < constraints.len() ==> (#[trigger] out[i]).wf(),
        constraints.len() > 0 ==> offset(
            constraints@,
            axis_len(area.inner_spec(margin), direction),
            constraints.len() as int,
        ) == axis_len(area.inner_spec(margin), direction),
{
    let inner = area.inner(margin);
    let s: u16 = match direction {
        Direction::Horizontal => inner.width,
        Direction::Vertical => inner.height,
    };
    let sizes = solve(constraints, s);
    let n = constraints.len();
    let mut out: Vec<Rect> = Vec::new();
    let mut off: u16 = 0;
    let mut i: usize = 0;
    while i < n
        invariant
            i <= n,
            n == constraints.len(),
            sizes.len() == n,
            inner.wf(),
            inner == area.inner_spec(margin),
            s == axis_len(inner, direction),
            out.len() == i,
            off == offset(constraints@, s as int, i as int),
            forall|j: int| 0 <= j < n ==> #[trigger] sizes[j] == size(constraints@, s as int, j),
            forall|j: int|
                0 <= j < i ==> #[trigger] out[j] == chunk(inner, direction, constraints@, j),
            forall|j: int| 0 <= j < i ==> (#[trigger] out[j]).wf(),
        decreases n - i,
    {
        proof {
            lemma_chunk_on_axis(constraints@, s as int, i as int);
        }
        let len = sizes[i];
        let r = match direction {
            Direction::Horizontal => Rect {
                x: inner.x + off,
                y: inner.y,
                width: len,
                height: inner.height,
            },
            Direction::Vertical => Rect {
                x: inner.x,
                y: inner.y + off,
                width: inner.width,
                height: len,
            },
        };
        out.push(r);
        off = off + len;
        i += 1;
    }
    out
}

} // verus!
