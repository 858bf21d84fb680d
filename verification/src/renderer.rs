//! The renderer: two buffers, the frame that was shown last and the frame
//! that is being painted, and the operations that turn the first into the
//! second on the terminal.
//!
//! The renderer is idle or drawing. `begin_frame` checks out a blank frame,
//! `draw` paints widgets into it, `commit_frame` says what has to be written
//! and makes the frame the one that was shown last.

use vstd::prelude::*;
use crate::geometry::Rect;
use crate::buffer::{Buffer, Grid, blank_grid};
use crate::widgets::{Widget, WidgetView, paint, render};
use crate::session::{Session, SessionState};

verus! {

/// A usage fault: the caller has called out of turn.
#[derive(Clone, Copy, Debug, PartialEq, Eq, Structural)]
pub enum RenderError {
    /// No session is active.
    SessionNotActive,
    /// A frame was begun while another was being drawn.
    ReentrantFrame,
    /// No frame is being drawn.
    NoFrame,
}

/// One write to the terminal: move the cursor to `(x, y)` and write the `len`
/// cells of the frame that start there, all in row `y`.
#[derive(Clone, Copy, Debug, PartialEq, Eq, Structural)]
pub struct DrawOp {
    pub x: u16,
    pub y: u16,
    pub len: u16,
}

pub open spec fn covers(op: DrawOp, x: int, y: int) -> bool {
    op.y == y && op.x <= x < op.x + op.len
}

pub open spec fn changed(prev: Grid, next: Grid, x: int, y: int) -> bool {
    prev[(x, y)] != next[(x, y)]
}

/// The writes for the first `n` cells of row `y`: one for every run of
/// changed cells that no unchanged cell interrupts, from left to right.
pub open spec fn row_runs(prev: Grid, next: Grid, y: int, n: int) -> Seq<DrawOp>
    decreases n,
{
    if n <= 0 {
        Seq::empty()
    } else {
        let r = row_runs(prev, next, y, n - 1);
        let x = n - 1;
        if !changed(prev, next, x, y) {
            r
        } else if x > 0 && changed(prev, next, x - 1, y) {
            r.drop_last().push(
                DrawOp { x: r.last().x, y: r.last().y, len: (r.last().len + 1) as u16 },
            )
        } else {
            r.push(DrawOp { x: x as u16, y: y as u16, len: 1 })
        }
    }
}

/// The writes for the first `rows` rows of a frame `w` wide, row by row.
pub open spec fn diff_runs(prev: Grid, next: Grid, w: int, rows: int) -> Seq<DrawOp>
    decreases rows,
{
    if rows <= 0 {
        Seq::empty()
    } else {
        diff_runs(prev, next, w, rows - 1) + row_runs(prev, next, rows - 1, w)
    }
}

/// The writes that draw a whole frame: one for each row, its full width.
pub open spec fn full_runs(w: int, h: int) -> Seq<DrawOp> {
    if w <= 0 {
        Seq::empty()
    } else {
        Seq::new(h as nat, |y: int| DrawOp { x: 0, y: y as u16, len: w as u16 })
    }
}

/// Whether one of `ops` writes the cell at `(x, y)`.
pub open spec fn written(ops: Seq<DrawOp>, x: int, y: int) -> bool {
    exists|i: int| 0 <= i < ops.len() && covers(#[trigger] ops[i], x, y)
}

/// `a` comes before `b` in row-major order, and a cell that neither writes
/// lies between them where they share a row.
pub open spec fn apart(a: DrawOp, b: DrawOp) -> bool {
    a.y < b.y || (a.y == b.y && a.x + a.len < b.x)
}

/// `ops` are writes for the first `n` cells of row `y`: they stay in that
/// part of the row, write the changed cells and no others, and are apart.
pub open spec fn row_exact(prev: Grid, next: Grid, ops: Seq<DrawOp>, y: int, n: int) -> bool {
    &&& forall|i: int|
        0 <= i < ops.len() ==> (#[trigger] ops[i]).y == y && ops[i].len >= 1 && ops[i].x
            + ops[i].len <= n
    &&& forall|i: int, x: int|
        0 <= i < ops.len() && #[trigger] covers(ops[i], x, y) ==> changed(prev, next, x, y)
    &&& forall|x: int|
        0 <= x < n && #[trigger] changed(prev, next, x, y) ==> written(ops, x, y)
    &&& forall|i: int, j: int|
        0 <= i < j < ops.len() ==> apart(#[trigger] ops[i], #[trigger] ops[j])
}

/// `ops` are writes for the first `rows` rows of a frame `w` wide: they stay
/// inside those rows, write the changed cells and no others, and are apart.
pub open spec fn diff_exact(prev: Grid, next: Grid, ops: Seq<DrawOp>, w: int, rows: int) -> bool {
    &&& forall|i: int|
        0 <= i < ops.len() ==> (#[trigger] ops[i]).y < rows && ops[i].len >= 1 && ops[i].x
            + ops[i].len <= w
    &&& forall|i: int, x: int, y: int|
        0 <= i < ops.len() && #[trigger] covers(ops[i], x, y) ==> changed(prev, next, x, y)
    &&& forall|x: int, y: int|
        0 <= x < w && 0 <= y < rows && #[trigger] changed(prev, next, x, y) ==> written(ops, x, y)
    &&& forall|i: int, j: int|
        0 <= i < j < ops.len() ==> apart(#[trigger] ops[i], #[trigger] ops[j])
}

proof fn lemma_row_runs_exact(prev: Grid, next: Grid, y: int, n: int)
    requires
        0 <= y <= 0xFFFF,
        0 <= n <= 0xFFFF,
    ensures
        row_exact(prev, next, row_runs(prev, next, y, n), y, n),
        n > 0 && changed(prev, next, n - 1, y) ==> row_runs(prev, next, y, n).len() > 0
            && row_runs(prev, next, y, n).last().x + row_runs(prev, next, y, n).last().len == n,
    decreases n,
{
    if n > 0 {
        lemma_row_runs_exact(prev, next, y, n - 1);
        let r = row_runs(prev, next, y, n - 1);
        let out = row_runs(prev, next, y, n);
        let x0 = n - 1;
        if !changed(prev, next, x0, y) {
            assert(out == r);
        } else if x0 > 0 && changed(prev, next, x0 - 1, y) {
            let k = r.len() - 1;
            let last = r[k];
            let ext = DrawOp { x: last.x, y: last.y, len: (last.len + 1) as u16 };
            assert(out == r.drop_last().push(ext));
            assert(out.len() == r.len());
            assert(out[k] == ext);
            assert forall|i: int, x: int| 0 <= i < out.len() && #[trigger] covers(
                out[i],
                x,
                y,
            ) implies changed(prev, next, x, y) by {
                if i < k {
                    assert(out[i] == r[i]);
                    assert(covers(r[i], x, y));
                } else if x < x0 {
                    assert(covers(r[k], x, y));
                }
            }
            assert forall|x: int| 0 <= x < n && #[trigger] changed(prev, next, x, y) implies written(
                out,
                x,
                y,
            ) by {
                if x == x0 {
                    assert(covers(out[k], x, y));
                } else {
                    assert(written(r, x, y));
                    let i = choose|i: int| 0 <= i < r.len() && covers(#[trigger] r[i], x, y);
                    if i < k {
                        assert(out[i] == r[i]);
                        assert(covers(out[i], x, y));
                    } else {
                        assert(covers(out[k], x, y));
                    }
                }
            }
            assert forall|i: int, j: int| 0 <= i < j < out.len() implies apart(
                #[trigger] out[i],
                #[trigger] out[j],
            ) by {
                assert(out[i] == r[i]);
                assert(apart(r[i], r[j]));
            }
            assert forall|i: int| 0 <= i < out.len() implies (#[trigger] out[i]).y == y
                && out[i].len >= 1 && out[i].x + out[i].len <= n by {
                if i < k {
                    assert(out[i] == r[i]);
                }
            }
        } else {
            let fresh = DrawOp { x: x0 as u16, y: y as u16, len: 1 };
            let k = r.len() as int;
            assert(out == r.push(fresh));
            assert(out[k] == fresh);
            assert forall|i: int, x: int| 0 <= i < out.len() && #[trigger] covers(
                out[i],
                x,
                y,
            ) implies changed(prev, next, x, y) by {
                if i < k {
                    assert(out[i] == r[i]);
                    assert(covers(r[i], x, y));
                }
            }
            assert forall|x: int| 0 <= x < n && #[trigger] changed(prev, next, x, y) implies written(
                out,
                x,
                y,
            ) by {
                if x == x0 {
                    assert(covers(out[k], x, y));
                } else {
                    assert(written(r, x, y));
                    let i = choose|i: int| 0 <= i < r.len() && covers(#[trigger] r[i], x, y);
                    assert(out[i] == r[i]);
                    assert(covers(out[i], x, y));
                }
            }
            assert forall|i: int, j: int| 0 <= i < j < out.len() implies apart(
                #[trigger] out[i],
                #[trigger] out[j],
            ) by {
                assert(out[i] == r[i]);
                if j < k {
                    assert(out[j] == r[j]);
                    assert(apart(r[i], r[j]));
                } else {
                    if r[i].x + r[i].len == x0 {
                        assert(covers(r[i], x0 - 1, y));
                    }
                }
            }
            assert forall|i: int| 0 <= i < out.len() implies (#[trigger] out[i]).y == y
                && out[i].len >= 1 && out[i].x + out[i].len <= n by {
                if i < k {
                    assert(out[i] == r[i]);
                }
            }
        }
    }
}

/// The writes between two frames stay inside the frame, cover the cells that
/// differ and no others, come in row-major order, and no two of them touch:
/// every run of changed cells in a row is one write.
pub proof fn lemma_diff_is_exact(prev: Grid, next: Grid, w: u16, rows: int)
    requires
        0 <= rows <= 0xFFFF,
    ensures
        diff_exact(prev, next, diff_runs(prev, next, w as int, rows), w as int, rows),
    decreases rows,
{
    if rows > 0 {
        lemma_diff_is_exact(prev, next, w, rows - 1);
        lemma_row_runs_exact(prev, next, rows - 1, w as int);
        let a = diff_runs(prev, next, w as int, rows - 1);
        let r = row_runs(prev, next, rows - 1, w as int);
        let out = diff_runs(prev, next, w as int, rows);
        let k = a.len() as int;
        assert(out == a + r);
        assert forall|i: int| 0 <= i < out.len() implies (#[trigger] out[i]).y < rows
            && out[i].len >= 1 && out[i].x + out[i].len <= w by {
            if i < k {
                assert(out[i] == a[i]);
            } else {
                assert(out[i] == r[i - k]);
            }
        }
        assert forall|i: int, x: int, y: int| 0 <= i < out.len() && #[trigger] covers(
            out[i],
            x,
            y,
        ) implies changed(prev, next, x, y) by {
            if i < k {
                assert(out[i] == a[i]);
                assert(covers(a[i], x, y));
            } else {
                assert(out[i] == r[i - k]);
                assert(covers(r[i - k], x, y));
            }
        }
        assert forall|x: int, y: int|
            0 <= x < w && 0 <= y < rows && #[trigger] changed(prev, next, x, y) implies written(
            out,
            x,
            y,
        ) by {
            if y < rows - 1 {
                assert(written(a, x, y));
                let i = choose|i: int| 0 <= i < a.len() && covers(#[trigger] a[i], x, y);
                assert(out[i] == a[i]);
                assert(covers(out[i], x, y));
            } else {
                assert(written(r, x, y));
                let i = choose|i: int| 0 <= i < r.len() && covers(#[trigger] r[i], x, y);
                assert(out[i + k] == r[i]);
                assert(covers(out[i + k], x, y));
            }
        }
        assert forall|i: int, j: int| 0 <= i < j < out.len() implies apart(
            #[trigger] out[i],
            #[trigger] out[j],
        ) by {
            if j < k {
                assert(out[i] == a[i] && out[j] == a[j]);
                assert(apart(a[i], a[j]));
            } else if i < k {
                assert(out[i] == a[i] && out[j] == r[j - k]);
            } else {
                assert(out[i] == r[i - k] && out[j] == r[j - k]);
                assert(apart(r[i - k], r[j - k]));
            }
        }
    }
}

/// Compares two frames of one size and returns the writes that turn the
/// first into the second.
pub fn diff(prev: &Buffer, next: &Buffer) -> (ops: Vec<DrawOp>)
    requires
        prev.wf(),
        next.wf(),
        prev.width == next.width,
        prev.height == next.height,
    ensures
        ops@ == diff_runs(prev@, next@, next.width as int, next.height as int),
        diff_exact(prev@, next@, ops@, next.width as int, next.height as int),
{
    proof {
        lemma_diff_is_exact(prev@, next@, next.width, next.height as int);
    }
    let w = next.width;
    let h = next.height;
    let mut ops: Vec<DrawOp> = Vec::new();
    let mut y: u16 = 0;
    while y < h
        invariant
            prev.wf(),
            next.wf(),
            prev.width == w,
            prev.height == h,
            next.width == w,
            next.height == h,
            y <= h,
            ops@ == diff_runs(prev@, next@, w as int, y as int),
        decreases h - y,
    {
        let ghost done = ops@;
        let mut x: u16 = 0;
        let mut in_run = false;
        proof {
            assert(ops@ =~= done + row_runs(prev@, next@, y as int, 0));
        }
        while x < w
            invariant
                prev.wf(),
                next.wf(),
                prev.width == w,
                prev.height == h,
                next.width == w,
                next.height == h,
                y < h,
                x <= w,
                in_run == (x > 0 && changed(prev@, next@, x - 1, y as int)),
                ops@ == done + row_runs(prev@, next@, y as int, x as int),
                in_run ==> row_runs(prev@, next@, y as int, x as int).len() > 0 && row_runs(
                    prev@,
                    next@,
                    y as int,
                    x as int,
                ).last().x + row_runs(prev@, next@, y as int, x as int).last().len == x,
            decreases w - x,
        {
            let a = prev.get(x, y);
            let b = next.get(x, y);
            let differs = match (a, b) {
                (Some(ca), Some(cb)) => ca != cb,
                _ => false,
            };
            if differs {
                if in_run {
                    let last = ops.pop().unwrap();
                    ops.push(DrawOp { x: last.x, y: last.y, len: last.len + 1 });
                    proof {
                        assert(ops@ =~= done + row_runs(prev@, next@, y as int, x + 1));
                    }
                } else {
                    ops.push(DrawOp { x, y, len: 1 });
                    proof {
                        assert(ops@ =~= done + row_runs(prev@, next@, y as int, x + 1));
                    }
                }
            }
            in_run = differs;
            x = x + 1;
        }
        y = y + 1;
    }
    ops
}

/// The writes that draw a whole frame of `w` columns and `h` rows.
pub fn full(w: u16, h: u16) -> (ops: Vec<DrawOp>)
    ensures
        ops@ == full_runs(w as int, h as int),
{
    let mut ops: Vec<DrawOp> = Vec::new();
    if w == 0 {
        return ops;
    }
    let mut y: u16 = 0;
    while y < h
        invariant
            y <= h,
            w > 0,
            ops@ == full_runs(w as int, y as int),
        decreases h - y,
    {
        ops.push(DrawOp { x: 0, y, len: w });
        proof {
            assert(ops@ =~= full_runs(w as int, y + 1));
        }
        y = y + 1;
    }
    ops
}

pub struct Renderer {
    pub previous: Buffer,
    pub next: Buffer,
    pub drawing: bool,
    pub full_redraw: bool,
}

/// A renderer as contracts see it.
pub struct Frames {
    pub previous: Grid,
    pub next: Grid,
    pub width: int,
    pub height: int,
    pub drawing: bool,
    pub full_redraw: bool,
}

impl View for Renderer {
    type V = Frames;

    open spec fn view(&self) -> Frames {
        Frames {
            previous: self.previous@,
            next: self.next@,
            width: self.next.width as int,
            height: self.next.height as int,
            drawing: self.drawing,
            full_redraw: self.full_redraw,
        }
    }
}

/// The renderer after a frame of `w` columns and `h` rows is begun: the
/// frame is blank; where the size is new, so is the frame shown last, and
/// the next commit draws everything.
pub open spec fn begun(v: Frames, w: int, h: int) -> Frames {
    if w == v.width && h == v.height {
        Frames { next: blank_grid(w, h), drawing: true, ..v }
    } else {
        Frames {
            previous: blank_grid(w, h),
            next: blank_grid(w, h),
            width: w,
            height: h,
            drawing: true,
            full_redraw: true,
        }
    }
}

/// What a commit writes: the whole frame after a change of size, else the
/// cells that differ from the frame shown last.
pub open spec fn emitted(v: Frames) -> Seq<DrawOp> {
    if v.full_redraw {
        full_runs(v.width, v.height)
    } else {
        diff_runs(v.previous, v.next, v.width, v.height)
    }
}

/// The renderer after a commit: the two frames have changed places.
pub open spec fn committed(v: Frames) -> Frames {
    Frames { previous: v.next, next: v.previous, drawing: false, full_redraw: false, ..v }
}

impl Renderer {
    /// The two frames have one size.
    pub open spec fn wf(&self) -> bool {
        self.previous.wf() && self.next.wf() && self.previous.width == self.next.width
            && self.previous.height == self.next.height
    }

    /// An idle renderer for a terminal of `width` columns and `height` rows
    /// of which nothing is known: its first commit draws everything.
    pub fn new(width: u16, height: u16) -> (r: Renderer)
        ensures
            r.wf(),
            r@ == (Frames {
                previous: blank_grid(width as int, height as int),
                next: blank_grid(width as int, height as int),
                width: width as int,
                height: height as int,
                drawing: false,
                full_redraw: true,
            }),
    {
        Renderer {
            previous: Buffer::empty(width, height),
            next: Buffer::empty(width, height),
            drawing: false,
            full_redraw: true,
        }
    }

    /// Begins a frame for a terminal that now has `width` columns and
    /// `height` rows. Refused, with nothing changed, where the session is not
    /// active or a frame is being drawn already.
    pub fn begin_frame(&mut self, session: &Session, width: u16, height: u16) -> (r: Result<
        (),
        RenderError,
    >)
        requires
            old(self).wf(),
        ensures
            final(self).wf(),
            r == if session.state != SessionState::Active {
                Err::<(), RenderError>(RenderError::SessionNotActive)
            } else if old(self).drawing {
                Err::<(), RenderError>(RenderError::ReentrantFrame)
            } else {
                Ok::<(), RenderError>(())
            },
            r is Ok ==> final(self)@ == begun(old(self)@, width as int, height as int),
            r is Err ==> final(self)@ == old(self)@,
    {
        if !session.is_active() {
            return Err(RenderError::SessionNotActive);
        }
        if self.drawing {
            return Err(RenderError::ReentrantFrame);
        }
        if width == self.next.width && height == self.next.height {
            self.next.reset();
        } else {
            self.previous.resize(width, height);
            self.next.resize(width, height);
            self.full_redraw = true;
        }
        self.drawing = true;
        Ok(())
    }

    /// Paints `widget` into `area` of the frame that is being drawn. Refused,
    /// with nothing changed, where no frame is being drawn.
    pub fn draw(&mut self, widget: &Widget, area: Rect) -> (r: Result<(), RenderError>)
        requires
            old(self).wf(),
            area.wf(),
        ensures
            final(self).wf(),
            old(self).drawing ==> r is Ok && final(self)@ == (Frames {
                next: paint(old(self)@.next, widget@, area),
                ..old(self)@
            }),
            !old(self).drawing ==> r == Err::<(), RenderError>(RenderError::NoFrame),
            !old(self).drawing ==> final(self)@ == old(self)@,
    {
        if !self.drawing {
            return Err(RenderError::NoFrame);
        }
        render(widget, area, &mut self.next);
        Ok(())
    }

    /// Ends the frame and returns the writes that show it. Refused, with
    /// nothing changed, where no frame is being drawn.
    pub fn commit_frame(&mut self) -> (r: Result<Vec<DrawOp>, RenderError>)
        requires
            old(self).wf(),
        ensures
            final(self).wf(),
            old(self).drawing ==> r is Ok && r->Ok_0@ == emitted(old(self)@) && final(self)@
                == committed(old(self)@),
            !old(self).drawing ==> r == Err::<Vec<DrawOp>, RenderError>(RenderError::NoFrame)
                && final(self)@ == old(self)@,
    {
        if !self.drawing {
            return Err(RenderError::NoFrame);
        }
        let ops = if self.full_redraw {
            full(self.next.width, self.next.height)
        } else {
            diff(&self.previous, &self.next)
        };
        std::mem::swap(&mut self.previous, &mut self.next);
        self.drawing = false;
        self.full_redraw = false;
        Ok(ops)
    }

    /// The frame that was committed last.
    pub fn shown(&self) -> (b: &Buffer)
        ensures
            *b == self.previous,
    {
        &self.previous
    }

    /// The rectangle of the frame.
    pub fn size(&self) -> (r: Rect)
        ensures
            r == (Rect { x: 0, y: 0, width: self.next.width, height: self.next.height }),
            r.wf(),
    {
        self.next.area()
    }
}

proof fn lemma_row_unchanged(g: Grid, y: int, n: int)
    ensures
        row_runs(g, g, y, n) == Seq::<DrawOp>::empty(),
    decreases n,
{
    if n > 0 {
        lemma_row_unchanged(g, y, n - 1);
    }
}

/// Between two frames with the same cells there is nothing to write.
pub proof fn lemma_diff_of_equal_frames(g: Grid, w: int, rows: int)
    ensures
        diff_runs(g, g, w, rows) == Seq::<DrawOp>::empty(),
    decreases rows,
{
    if rows > 0 {
        lemma_diff_of_equal_frames(g, w, rows - 1);
        lemma_row_unchanged(g, rows - 1, w);
        assert(diff_runs(g, g, w, rows) =~= Seq::<DrawOp>::empty());
    }
}

/// A frame is committed, a second frame of the same size is begun, painted
/// to the same cells and committed: the second commit writes nothing.
pub proof fn lemma_unchanged_frame_writes_nothing(v: Frames)
    requires
        v.drawing,
    ensures
        emitted(
            Frames {
                next: committed(v).previous,
                ..begun(committed(v), v.width, v.height)
            },
        ).len() == 0,
{
    lemma_diff_of_equal_frames(v.next, v.width, v.height);
}

/// The grid after the first `k` of `ws` are painted in order, each into its
/// rectangle.
pub open spec fn paint_all(g: Grid, ws: Seq<(WidgetView, Rect)>, k: int) -> Grid
    decreases k,
{
    if k <= 0 {
        g
    } else {
        paint(paint_all(g, ws, k - 1), ws[k - 1].0, ws[k - 1].1)
    }
}

/// The same widgets drawn into the same rectangles in two frames of one
/// size, one after the other, give the same cells both times, whatever was
/// shown before, and the second commit writes nothing.
pub proof fn lemma_same_widgets_twice(v: Frames, w: int, h: int, ws: Seq<(WidgetView, Rect)>)
    requires
        !v.drawing,
    ensures
        ({
            let first = Frames {
                next: paint_all(begun(v, w, h).next, ws, ws.len() as int),
                ..begun(v, w, h)
            };
            let again = begun(committed(first), w, h);
            let second = Frames { next: paint_all(again.next, ws, ws.len() as int), ..again };
            second.next == first.next && emitted(second).len() == 0
        }),
{
    let first = Frames {
        next: paint_all(begun(v, w, h).next, ws, ws.len() as int),
        ..begun(v, w, h)
    };
    lemma_diff_of_equal_frames(first.next, w, h);
}

/// A frame begun with a new size is drawn in full, whatever is painted into
/// it: the commit writes one run for each row, and every cell of the new
/// frame lies in the run of its row.
pub proof fn lemma_resize_redraws_all(v: Frames, w: u16, h: u16, painted: Grid)
    requires
        !v.drawing,
        w != v.width || h != v.height,
    ensures
        emitted(Frames { next: painted, ..begun(v, w as int, h as int) }) == full_runs(
            w as int,
            h as int,
        ),
        w > 0 ==> full_runs(w as int, h as int).len() == h,
        forall|x: int, y: int|
            0 <= x < w && 0 <= y < h ==> #[trigger] covers(full_runs(w as int, h as int)[y], x, y),
{
}

} // verus!
