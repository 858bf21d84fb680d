//! The widgets: values that say what to draw, and the functions that paint
//! them into a rectangle of a buffer.
//!
//! Painting is layered: what a widget paints is stated as one grid made from
//! another, step by step, and the grid after the last step is the result. The
//! result depends on the widget, the rectangle and the grid before, and on
//! nothing else.

use vstd::prelude::*;
use crate::geometry::Rect;
use crate::buffer::{Buffer, Grid, Style, patched, style_area, write_text, patch_at};

verus! {

/// The sides of a block that carry a border.
#[derive(Clone, Copy, Debug, PartialEq, Eq, Structural)]
pub struct Borders {
    pub top: bool,
    pub bottom: bool,
    pub left: bool,
    pub right: bool,
}

#[derive(Clone, Copy, Debug, PartialEq, Eq, Structural)]
pub enum BorderType {
    /// No side is drawn, whatever sides are chosen.
    Hidden,
    Plain,
    Rounded,
    Double,
}

#[derive(Clone, Copy, Debug, PartialEq, Eq, Structural)]
pub enum Alignment {
    Left,
    Center,
    Right,
}

/// The part of a border that a cell of a block's rectangle shows.
#[derive(Clone, Copy, Debug, PartialEq, Eq, Structural)]
pub enum Edge {
    TopLeft,
    TopRight,
    BottomLeft,
    BottomRight,
    Horizontal,
    Vertical,
}

#[derive(Debug, PartialEq, Eq)]
pub struct Block {
    pub borders: Borders,
    pub border_type: BorderType,
    pub title: Vec<char>,
    pub style: Style,
    pub border_style: Style,
}

/// A block as contracts see it: its title is a sequence of symbols.
pub struct BlockView {
    pub borders: Borders,
    pub border_type: BorderType,
    pub title: Seq<char>,
    pub style: Style,
    pub border_style: Style,
}

impl View for Block {
    type V = BlockView;

    open spec fn view(&self) -> BlockView {
        BlockView {
            borders: self.borders,
            border_type: self.border_type,
            title: self.title@,
            style: self.style,
            border_style: self.border_style,
        }
    }
}

pub open spec fn glyph(t: BorderType, e: Edge) -> char {
    match t {
        BorderType::Double => match e {
            Edge::TopLeft => '╔',
            Edge::TopRight => '╗',
            Edge::BottomLeft => '╚',
            Edge::BottomRight => '╝',
            Edge::Horizontal => '═',
            Edge::Vertical => '║',
        },
        BorderType::Rounded => match e {
            Edge::TopLeft => '╭',
            Edge::TopRight => '╮',
            Edge::BottomLeft => '╰',
            Edge::BottomRight => '╯',
            Edge::Horizontal => '─',
            Edge::Vertical => '│',
        },
        _ => match e {
            Edge::TopLeft => '┌',
            Edge::TopRight => '┐',
            Edge::BottomLeft => '└',
            Edge::BottomRight => '┘',
            Edge::Horizontal => '─',
            Edge::Vertical => '│',
        },
    }
}

/// The sides that are drawn: the chosen ones, unless the border is hidden.
pub open spec fn drawn(borders: Borders, t: BorderType) -> Borders {
    if t == BorderType::Hidden {
        Borders { top: false, bottom: false, left: false, right: false }
    } else {
        borders
    }
}

/// The part of the border of `area` that the cell at `(x, y)` shows, if any.
pub open spec fn edge_at(b: Borders, area: Rect, x: int, y: int) -> Option<Edge> {
    if !area.contains(x, y) {
        None
    } else {
        let l = b.left && x == area.x;
        let r = b.right && x == area.x + area.width - 1;
        let t = b.top && y == area.y;
        let d = b.bottom && y == area.y + area.height - 1;
        if t && l {
            Some(Edge::TopLeft)
        } else if t && r {
            Some(Edge::TopRight)
        } else if d && l {
            Some(Edge::BottomLeft)
        } else if d && r {
            Some(Edge::BottomRight)
        } else if t || d {
            Some(Edge::Horizontal)
        } else if l || r {
            Some(Edge::Vertical)
        } else {
            None
        }
    }
}

/// The grid in which the cells of `region` that lie on the border of `area`
/// show it.
pub open spec fn draw_border(
    g: Grid,
    b: Borders,
    t: BorderType,
    st: Style,
    area: Rect,
    region: Rect,
) -> Grid {
    Map::new(
        |p: (int, int)| g.dom().contains(p),
        |p: (int, int)|
            match edge_at(b, area, p.0, p.1) {
                Some(e) => if region.contains(p.0, p.1) {
                    patched(g[p], Some(glyph(t, e)), st)
                } else {
                    g[p]
                },
                None => g[p],
            },
    )
}

pub open spec fn unit(b: bool) -> int {
    if b {
        1
    } else {
        0
    }
}

/// What is left of `area` inside the drawn sides `b`: one cell less for each
/// of them, and nothing less for the others. A rectangle too small for its
/// borders keeps no room.
pub open spec fn inside(b: Borders, area: Rect) -> Rect {
    Rect {
        x: if area.width >= unit(b.left) {
            (area.x + unit(b.left)) as u16
        } else {
            area.x
        },
        y: if area.height >= unit(b.top) {
            (area.y + unit(b.top)) as u16
        } else {
            area.y
        },
        width: if area.width >= unit(b.left) + unit(b.right) {
            (area.width - unit(b.left) - unit(b.right)) as u16
        } else {
            0
        },
        height: if area.height >= unit(b.top) + unit(b.bottom) {
            (area.height - unit(b.top) - unit(b.bottom)) as u16
        } else {
            0
        },
    }
}

/// Inside a block that has room for its border, the rectangle for the
/// content is smaller by exactly one cell on every drawn side and by none on
/// the others.
pub proof fn lemma_inside_shrinks_by_drawn_sides(b: Borders, area: Rect)
    requires
        area.wf(),
        area.width >= unit(b.left) + unit(b.right),
        area.height >= unit(b.top) + unit(b.bottom),
    ensures
        inside(b, area).x == area.x + unit(b.left),
        inside(b, area).y == area.y + unit(b.top),
        inside(b, area).x + inside(b, area).width == area.x + area.width - unit(b.right),
        inside(b, area).y + inside(b, area).height == area.y + area.height - unit(b.bottom),
{
}

/// The grid after a block is painted into `area`: the area styled, the border
/// drawn over it, the title written into the top row between the corners.
pub open spec fn paint_block(g: Grid, block: BlockView, area: Rect) -> Grid {
    let b = drawn(block.borders, block.border_type);
    let g1 = style_area(g, area, block.style);
    let g2 = draw_border(g1, b, block.border_type, block.border_style, area, area);
    if area.height > 0 {
        write_text(
            g2,
            area.x + unit(b.left),
            area.y as int,
            block.title,
            inside(b, area).width as int,
            block.style,
        )
    } else {
        g2
    }
}

fn unit_of(b: bool) -> (u: u16)
    ensures
        u == unit(b),
{
    if b {
        1
    } else {
        0
    }
}

fn glyph_of(t: BorderType, e: Edge) -> (c: char)
    ensures
        c == glyph(t, e),
{
    match t {
        BorderType::Double => match e {
            Edge::TopLeft => '╔',
            Edge::TopRight => '╗',
            Edge::BottomLeft => '╚',
            Edge::BottomRight => '╝',
            Edge::Horizontal => '═',
            Edge::Vertical => '║',
        },
        BorderType::Rounded => match e {
            Edge::TopLeft => '╭',
            Edge::TopRight => '╮',
            Edge::BottomLeft => '╰',
            Edge::BottomRight => '╯',
            Edge::Horizontal => '─',
            Edge::Vertical => '│',
        },
        _ => match e {
            Edge::TopLeft => '┌',
            Edge::TopRight => '┐',
            Edge::BottomLeft => '└',
            Edge::BottomRight => '┘',
            Edge::Horizontal => '─',
            Edge::Vertical => '│',
        },
    }
}

/// For a cell inside `area`, the part of the border that it shows.
fn edge_of(b: Borders, area: Rect, x: u16, y: u16) -> (e: Option<Edge>)
    requires
        area.wf(),
        area.contains(x as int, y as int),
    ensures
        e == edge_at(b, area, x as int, y as int),
{
    let l = b.left && x == area.x;
    let r = b.right && x == area.x + area.width - 1;
    let t = b.top && y == area.y;
    let d = b.bottom && y == area.y + area.height - 1;
    if t && l {
        Some(Edge::TopLeft)
    } else if t && r {
        Some(Edge::TopRight)
    } else if d && l {
        Some(Edge::BottomLeft)
    } else if d && r {
        Some(Edge::BottomRight)
    } else if t || d {
        Some(Edge::Horizontal)
    } else if l || r {
        Some(Edge::Vertical)
    } else {
        None
    }
}

fn border_pass(buf: &mut Buffer, b: Borders, t: BorderType, st: Style, area: Rect)
    requires
        old(buf).wf(),
        area.wf(),
    ensures
        final(buf).wf(),
        final(buf).width == old(buf).width,
        final(buf).height == old(buf).height,
        final(buf)@ == draw_border(old(buf)@, b, t, st, area, area),
{
    let ghost g0 = buf@;
    let x1: u16 = area.x + area.width;
    let y1: u16 = area.y + area.height;
    let mut y: u16 = area.y;
    while y < y1
        invariant
            area.wf(),
            x1 == area.x + area.width,
            y1 == area.y + area.height,
            area.y <= y <= y1,
            buf.wf(),
            buf.width == old(buf).width,
            buf.height == old(buf).height,
            g0 == old(buf)@,
            buf@ == draw_border(
                g0,
                b,
                t,
                st,
                area,
                Rect { x: area.x, y: area.y, width: area.width, height: (y - area.y) as u16 },
            ),
        decreases y1 - y,
    {
        let ghost row0 = buf@;
        let mut x: u16 = area.x;
        while x < x1
            invariant
                area.wf(),
                x1 == area.x + area.width,
                y1 == area.y + area.height,
                area.y <= y < y1,
                area.x <= x <= x1,
                buf.wf(),
                buf.width == old(buf).width,
                buf.height == old(buf).height,
                g0 == old(buf)@,
                row0.dom() == g0.dom(),
                buf@ == draw_border(
                    row0,
                    b,
                    t,
                    st,
                    area,
                    Rect { x: area.x, y: y, width: (x - area.x) as u16, height: 1 },
                ),
            decreases x1 - x,
        {
            match edge_of(b, area, x, y) {
                Some(e) => {
                    buf.patch(x, y, Some(glyph_of(t, e)), st);
                },
                None => {},
            }
            proof {
                assert(buf@ =~= draw_border(
                    row0,
                    b,
                    t,
                    st,
                    area,
                    Rect { x: area.x, y: y, width: (x + 1 - area.x) as u16, height: 1 },
                ));
            }
            x = x + 1;
        }
        proof {
            assert(buf@ =~= draw_border(
                g0,
                b,
                t,
                st,
                area,
                Rect { x: area.x, y: area.y, width: area.width, height: (y + 1 - area.y) as u16 },
            ));
        }
        y = y + 1;
    }
    proof {
        assert(buf@ =~= draw_border(g0, b, t, st, area, area));
    }
}

impl Block {
    /// The sides of this block that are drawn.
    pub open spec fn sides(&self) -> Borders {
        drawn(self.borders, self.border_type)
    }

    pub fn drawn_sides(&self) -> (b: Borders)
        ensures
            b == self.sides(),
    {
        match self.border_type {
            BorderType::Hidden => Borders { top: false, bottom: false, left: false, right: false },
            _ => self.borders,
        }
    }

    /// The rectangle that a widget inside this block paints into: `area`
    /// without one cell on every side that is drawn.
    pub fn inner(&self, area: Rect) -> (r: Rect)
        requires
            area.wf(),
        ensures
            r == inside(self.sides(), area),
            r.wf(),
            r.x + r.width <= area.x + area.width,
            r.y + r.height <= area.y + area.height,
    {
        let b = self.drawn_sides();
        let l = unit_of(b.left);
        let r = unit_of(b.right);
        let t = unit_of(b.top);
        let d = unit_of(b.bottom);
        Rect {
            x: if area.width >= l { area.x + l } else { area.x },
            y: if area.height >= t { area.y + t } else { area.y },
            width: if area.width >= l + r { area.width - l - r } else { 0 },
            height: if area.height >= t + d { area.height - t - d } else { 0 },
        }
    }

    pub fn render(&self, area: Rect, buf: &mut Buffer)
        requires
            old(buf).wf(),
            area.wf(),
        ensures
            final(buf).wf(),
            final(buf).width == old(buf).width,
            final(buf).height == old(buf).height,
            final(buf)@ == paint_block(old(buf)@, self@, area),
    {
        let b = self.drawn_sides();
        buf.set_style(area, self.style);
        border_pass(buf, b, self.border_type, self.border_style, area);
        if area.height > 0 {
            let inner = self.inner(area);
            let l = unit_of(b.left);
            if area.width >= l {
                buf.set_text(area.x + l, area.y, &self.title, inner.width, self.style);
            } else {
                proof {
                    assert(buf@ =~= write_text(
                        buf@,
                        area.x + unit(b.left),
                        area.y as int,
                        self.title@,
                        0,
                        self.style,
                    ));
                }
            }
        }
    }
}

#[derive(Debug, PartialEq, Eq)]
pub struct Paragraph {
    pub lines: Vec<Vec<char>>,
    pub style: Style,
    pub alignment: Alignment,
    pub wrap: bool,
    pub block: Option<Block>,
}

/// One line of a list, with a style of its own.
#[derive(Debug, PartialEq, Eq)]
pub struct Item {
    pub text: Vec<char>,
    pub style: Style,
}

/// An item as contracts see it.
pub struct ItemView {
    pub text: Seq<char>,
    pub style: Style,
}

impl View for Item {
    type V = ItemView;

    open spec fn view(&self) -> ItemView {
        ItemView { text: self.text@, style: self.style }
    }
}

impl Item {
    /// An item without a style of its own.
    pub fn new(text: Vec<char>) -> (it: Item)
        ensures
            it@ == (ItemView { text: text@, style: Style { fg: None, bg: None, add_modifier: 0 } }),
    {
        Item { text, style: Style::new() }
    }

    pub fn style(self, style: Style) -> (it: Item)
        ensures
            it == (Item { style: style, ..self }),
    {
        Item { style, ..self }
    }
}

#[derive(Debug, PartialEq, Eq)]
pub struct List {
    pub items: Vec<Item>,
    pub style: Style,
    pub highlight_style: Style,
    pub selected: Option<usize>,
    pub block: Option<Block>,
}

#[derive(Debug, PartialEq, Eq)]
pub struct Tabs {
    pub titles: Vec<Vec<char>>,
    pub selected: usize,
    pub style: Style,
    pub highlight_style: Style,
    pub divider: char,
    pub block: Option<Block>,
}

#[derive(Debug, PartialEq, Eq)]
pub enum Widget {
    Block(Block),
    Paragraph(Paragraph),
    List(List),
    Tabs(Tabs),
}

/// The lines of a text as sequences of symbols.
pub open spec fn texts(v: Seq<Vec<char>>) -> Seq<Seq<char>> {
    Seq::new(v.len(), |i: int| v[i]@)
}

/// The items of a list as contracts see them.
pub open spec fn item_views(v: Seq<Item>) -> Seq<ItemView> {
    Seq::new(v.len(), |i: int| v[i]@)
}

/// The block around a widget as contracts see it.
pub open spec fn frame_view(block: Option<Block>) -> Option<BlockView> {
    match block {
        Some(b) => Some(b@),
        None => None,
    }
}

/// A paragraph as contracts see it.
pub struct ParagraphView {
    pub lines: Seq<Seq<char>>,
    pub style: Style,
    pub alignment: Alignment,
    pub wrap: bool,
    pub block: Option<BlockView>,
}

/// A list as contracts see it.
pub struct ListView {
    pub items: Seq<ItemView>,
    pub style: Style,
    pub highlight_style: Style,
    pub selected: Option<usize>,
    pub block: Option<BlockView>,
}

/// A bar of tabs as contracts see it.
pub struct TabsView {
    pub titles: Seq<Seq<char>>,
    pub selected: usize,
    pub style: Style,
    pub highlight_style: Style,
    pub divider: char,
    pub block: Option<BlockView>,
}

pub enum WidgetView {
    Block(BlockView),
    Paragraph(ParagraphView),
    List(ListView),
    Tabs(TabsView),
}

impl View for Paragraph {
    type V = ParagraphView;

    open spec fn view(&self) -> ParagraphView {
        ParagraphView {
            lines: texts(self.lines@),
            style: self.style,
            alignment: self.alignment,
            wrap: self.wrap,
            block: frame_view(self.block),
        }
    }
}

impl View for List {
    type V = ListView;

    open spec fn view(&self) -> ListView {
        ListView {
            items: item_views(self.items@),
            style: self.style,
            highlight_style: self.highlight_style,
            selected: self.selected,
            block: frame_view(self.block),
        }
    }
}

impl View for Tabs {
    type V = TabsView;

    open spec fn view(&self) -> TabsView {
        TabsView {
            titles: texts(self.titles@),
            selected: self.selected,
            style: self.style,
            highlight_style: self.highlight_style,
            divider: self.divider,
            block: frame_view(self.block),
        }
    }
}

impl View for Widget {
    type V = WidgetView;

    open spec fn view(&self) -> WidgetView {
        match *self {
            Widget::Block(b) => WidgetView::Block(b@),
            Widget::Paragraph(p) => WidgetView::Paragraph(p@),
            Widget::List(l) => WidgetView::List(l@),
            Widget::Tabs(t) => WidgetView::Tabs(t@),
        }
    }
}

/// The grid after the block around a widget, if it has one, is painted.
pub open spec fn paint_frame(g: Grid, block: Option<BlockView>, area: Rect) -> Grid {
    match block {
        Some(b) => paint_block(g, b, area),
        None => g,
    }
}

/// The rectangle that a widget paints its content into: the inside of its
/// block, or all of `area` without one.
pub open spec fn content_area(block: Option<BlockView>, area: Rect) -> Rect {
    match block {
        Some(b) => inside(drawn(b.borders, b.border_type), area),
        None => area,
    }
}

/// The column in which a line of `len` symbols starts.
pub open spec fn line_x(inner: Rect, align: Alignment, len: int) -> int {
    let shown = if len < inner.width { len } else { inner.width as int };
    match align {
        Alignment::Left => inner.x as int,
        Alignment::Center => inner.x + (inner.width - shown) / 2,
        Alignment::Right => inner.x + (inner.width - shown),
    }
}

/// The grid after the first `k` rows of text are written, one below the
/// other from the top of `inner`.
pub open spec fn paint_rows(
    g: Grid,
    rows: Seq<Seq<char>>,
    inner: Rect,
    align: Alignment,
    st: Style,
    k: int,
) -> Grid
    decreases k,
{
    if k <= 0 {
        g
    } else {
        write_text(
            paint_rows(g, rows, inner, align, st, k - 1),
            line_x(inner, align, rows[k - 1].len() as int),
            inner.y + (k - 1),
            rows[k - 1],
            inner.width as int,
            st,
        )
    }
}

/// A line cut into pieces of `w` symbols; the last piece holds the rest.
pub open spec fn pieces(line: Seq<char>, w: int) -> Seq<Seq<char>>
    decreases line.len(),
{
    if w <= 0 || line.len() <= w {
        seq![line]
    } else {
        seq![line.subrange(0, w)] + pieces(line.subrange(w, line.len() as int), w)
    }
}

/// The pieces of the first `n` lines, in order.
pub open spec fn wrapped(lines: Seq<Seq<char>>, w: int, n: int) -> Seq<Seq<char>>
    decreases n,
{
    if n <= 0 {
        Seq::empty()
    } else {
        wrapped(lines, w, n - 1) + pieces(lines[n - 1], w)
    }
}

pub open spec fn least(a: int, b: int) -> int {
    if a < b {
        a
    } else {
        b
    }
}

/// The rows of text that a paragraph shows in a rectangle `width` wide.
pub open spec fn paragraph_rows(p: ParagraphView, width: int) -> Seq<Seq<char>> {
    if p.wrap {
        wrapped(p.lines, width, p.lines.len() as int)
    } else {
        p.lines
    }
}

/// The grid after a paragraph is painted: its block, its style over the
/// content area, then as many of its rows as the area is high.
pub open spec fn paint_paragraph(g: Grid, p: ParagraphView, area: Rect) -> Grid {
    let inner = content_area(p.block, area);
    let rows = paragraph_rows(p, inner.width as int);
    paint_rows(
        style_area(paint_frame(g, p.block, area), inner, p.style),
        rows,
        inner,
        p.alignment,
        p.style,
        least(rows.len() as int, inner.height as int),
    )
}

pub open spec fn row_of(inner: Rect, i: int) -> Rect {
    Rect { x: inner.x, y: (inner.y + i) as u16, width: inner.width, height: 1 }
}

/// The grid after the first `k` items are painted, one row each: the row
/// takes the style of its item, the item is written into it, and over the
/// row of the selected item the highlight style is laid last.
pub open spec fn paint_items(
    g: Grid,
    items: Seq<ItemView>,
    inner: Rect,
    hl: Style,
    selected: Option<usize>,
    k: int,
) -> Grid
    decreases k,
{
    if k <= 0 {
        g
    } else {
        let i = k - 1;
        let g1 = write_text(
            style_area(
                paint_items(g, items, inner, hl, selected, i),
                row_of(inner, i),
                items[i].style,
            ),
            inner.x as int,
            inner.y + i,
            items[i].text,
            inner.width as int,
            items[i].style,
        );
        if selected == Some(i as usize) {
            style_area(g1, row_of(inner, i), hl)
        } else {
            g1
        }
    }
}

pub open spec fn paint_list(g: Grid, l: ListView, area: Rect) -> Grid {
    let inner = content_area(l.block, area);
    paint_items(
        style_area(paint_frame(g, l.block, area), inner, l.style),
        l.items,
        inner,
        l.highlight_style,
        l.selected,
        least(l.items.len() as int, inner.height as int),
    )
}

/// The column, counted from the left of the content area, in which tab `k`
/// starts: one blank first, and a blank, the divider and a blank between two
/// tabs.
pub open spec fn tab_start(titles: Seq<Seq<char>>, k: int) -> int
    decreases k,
{
    if k <= 0 {
        1
    } else {
        tab_start(titles, k - 1) + titles[k - 1].len() + 3
    }
}

/// The columns of `inner` from column `off` on.
pub open spec fn room(inner: Rect, off: int) -> int {
    if off < inner.width {
        inner.width - off
    } else {
        0
    }
}

/// The grid after the first `k` tabs are written into the top row of
/// `inner`, each but the last followed by the divider.
pub open spec fn paint_tabs(
    g: Grid,
    titles: Seq<Seq<char>>,
    inner: Rect,
    st: Style,
    hl: Style,
    selected: usize,
    divider: char,
    k: int,
) -> Grid
    decreases k,
{
    if k <= 0 {
        g
    } else {
        let i = k - 1;
        let off = tab_start(titles, i);
        let s = if i == selected { hl } else { st };
        let g1 = write_text(
            paint_tabs(g, titles, inner, st, hl, selected, divider, i),
            inner.x + off,
            inner.y as int,
            titles[i],
            room(inner, off),
            s,
        );
        let at = off + titles[i].len() + 1;
        if i + 1 < titles.len() && at < inner.width {
            patch_at(g1, inner.x + at, inner.y as int, Some(divider), st)
        } else {
            g1
        }
    }
}

pub open spec fn paint_tab_bar(g: Grid, t: TabsView, area: Rect) -> Grid {
    let inner = content_area(t.block, area);
    let g1 = style_area(paint_frame(g, t.block, area), inner, t.style);
    if inner.height > 0 {
        paint_tabs(
            g1,
            t.titles,
            inner,
            t.style,
            t.highlight_style,
            t.selected,
            t.divider,
            t.titles.len() as int,
        )
    } else {
        g1
    }
}

/// The grid after `w` is painted into `area`.
pub open spec fn paint(g: Grid, w: WidgetView, area: Rect) -> Grid {
    match w {
        WidgetView::Block(b) => paint_block(g, b, area),
        WidgetView::Paragraph(p) => paint_paragraph(g, p, area),
        WidgetView::List(l) => paint_list(g, l, area),
        WidgetView::Tabs(t) => paint_tab_bar(g, t, area),
    }
}

/// Painting has no hidden state: the same widget painted into the same
/// rectangle of two buffers with the same cells leaves the same cells in
/// both.
pub proof fn lemma_paint_is_pure(w: WidgetView, area: Rect, a: Buffer, b: Buffer)
    requires
        a@ == b@,
    ensures
        paint(a@, w, area) == paint(b@, w, area),
{
}

/// Paints the block around a widget, if it has one, and returns the
/// rectangle for the widget's content.
fn render_frame(block: &Option<Block>, area: Rect, buf: &mut Buffer) -> (inner: Rect)
    requires
        old(buf).wf(),
        area.wf(),
    ensures
        final(buf).wf(),
        final(buf).width == old(buf).width,
        final(buf).height == old(buf).height,
        final(buf)@ == paint_frame(old(buf)@, frame_view(*block), area),
        inner == content_area(frame_view(*block), area),
        inner.wf(),
{
    match block {
        Some(b) => {
            b.render(area, buf);
            b.inner(area)
        },
        None => area,
    }
}

fn line_start(inner: Rect, align: Alignment, len: usize) -> (x: u16)
    requires
        inner.wf(),
    ensures
        x == line_x(inner, align, len as int),
{
    let shown: u16 = if len < inner.width as usize { len as u16 } else { inner.width };
    match align {
        Alignment::Left => inner.x,
        Alignment::Center => inner.x + (inner.width - shown) / 2,
        Alignment::Right => inner.x + (inner.width - shown),
    }
}

fn render_rows(buf: &mut Buffer, rows: &Vec<Vec<char>>, inner: Rect, align: Alignment, st: Style)
    requires
        old(buf).wf(),
        inner.wf(),
    ensures
        final(buf).wf(),
        final(buf).width == old(buf).width,
        final(buf).height == old(buf).height,
        final(buf)@ == paint_rows(
            old(buf)@,
            texts(rows@),
            inner,
            align,
            st,
            least(rows.len() as int, inner.height as int),
        ),
{
    let mut k: usize = 0;
    while k < rows.len() && k < inner.height as usize
        invariant
            inner.wf(),
            k <= rows.len(),
            k <= inner.height,
            buf.wf(),
            buf.width == old(buf).width,
            buf.height == old(buf).height,
            buf@ == paint_rows(old(buf)@, texts(rows@), inner, align, st, k as int),
        decreases rows.len() - k,
    {
        let row = &rows[k];
        let x = line_start(inner, align, row.len());
        buf.set_text(x, inner.y + k as u16, row, inner.width, st);
        k += 1;
    }
}

/// The symbols of `s`, one by one.
pub fn symbols(s: &str) -> (v: Vec<char>)
    ensures
        v@ == s@,
{
    let n = s.unicode_len();
    let mut v: Vec<char> = Vec::new();
    let mut i: usize = 0;
    while i < n
        invariant
            i <= n,
            n == s@.len(),
            v@ == s@.subrange(0, i as int),
        decreases n - i,
    {
        v.push(s.get_char(i));
        proof {
            assert(v@ =~= s@.subrange(0, i + 1));
        }
        i += 1;
    }
    proof {
        assert(s@.subrange(0, n as int) =~= s@);
    }
    v
}

/// The symbols of `line` from `start` up to `end`.
fn piece_of(line: &Vec<char>, start: usize, end: usize) -> (out: Vec<char>)
    requires
        start <= end <= line.len(),
    ensures
        out@ == line@.subrange(start as int, end as int),
{
    let mut out: Vec<char> = Vec::new();
    let mut i: usize = start;
    while i < end
        invariant
            start <= i <= end,
            end <= line.len(),
            out@ == line@.subrange(start as int, i as int),
        decreases end - i,
    {
        out.push(line[i]);
        proof {
            assert(out@ =~= line@.subrange(start as int, i + 1));
        }
        i += 1;
    }
    out
}

/// Cuts every line into pieces of `w` symbols.
pub fn wrap_lines(lines: &Vec<Vec<char>>, w: u16) -> (rows: Vec<Vec<char>>)
    ensures
        texts(rows@) == wrapped(texts(lines@), w as int, lines.len() as int),
{
    let mut rows: Vec<Vec<char>> = Vec::new();
    let mut n: usize = 0;
    proof {
        assert(texts(rows@) =~= wrapped(texts(lines@), w as int, 0));
    }
    while n < lines.len()
        invariant
            n <= lines.len(),
            texts(rows@) == wrapped(texts(lines@), w as int, n as int),
        decreases lines.len() - n,
    {
        let line = &lines[n];
        let len = line.len();
        let ghost done = texts(rows@);
        let mut start: usize = 0;
        proof {
            assert(line@.subrange(0, len as int) =~= line@);
        }
        while w > 0 && len - start > w as usize
            invariant
                start <= len,
                len == line.len(),
                texts(rows@) + pieces(line@.subrange(start as int, len as int), w as int) == done
                    + pieces(line@, w as int),
            decreases len - start,
        {
            let piece = piece_of(line, start, start + w as usize);
            let ghost before = texts(rows@);
            let ghost rest = line@.subrange(start as int, len as int);
            rows.push(piece);
            proof {
                assert(rest.subrange(0, w as int) =~= line@.subrange(start as int, start + w));
                assert(rest.subrange(w as int, rest.len() as int) =~= line@.subrange(
                    start + w,
                    len as int,
                ));
                assert(texts(rows@) =~= before + seq![rest.subrange(0, w as int)]);
                assert((before + seq![rest.subrange(0, w as int)]) + pieces(
                    rest.subrange(w as int, rest.len() as int),
                    w as int,
                ) =~= before + pieces(rest, w as int));
            }
            start = start + w as usize;
        }
        let piece = piece_of(line, start, len);
        let ghost before = texts(rows@);
        rows.push(piece);
        proof {
            assert(texts(rows@) =~= before + seq![line@.subrange(start as int, len as int)]);
            assert(texts(lines@)[n as int] == line@);
        }
        n += 1;
    }
    rows
}

impl Paragraph {
    pub fn render(&self, area: Rect, buf: &mut Buffer)
        requires
            old(buf).wf(),
            area.wf(),
        ensures
            final(buf).wf(),
            final(buf).width == old(buf).width,
            final(buf).height == old(buf).height,
            final(buf)@ == paint_paragraph(old(buf)@, self@, area),
    {
        let inner = render_frame(&self.block, area, buf);
        buf.set_style(inner, self.style);
        if self.wrap {
            let rows = wrap_lines(&self.lines, inner.width);
            render_rows(buf, &rows, inner, self.alignment, self.style);
        } else {
            render_rows(buf, &self.lines, inner, self.alignment, self.style);
        }
    }
}

impl List {
    pub fn render(&self, area: Rect, buf: &mut Buffer)
        requires
            old(buf).wf(),
            area.wf(),
        ensures
            final(buf).wf(),
            final(buf).width == old(buf).width,
            final(buf).height == old(buf).height,
            final(buf)@ == paint_list(old(buf)@, self@, area),
    {
        let inner = render_frame(&self.block, area, buf);
        buf.set_style(inner, self.style);
        let ghost g1 = buf@;
        let mut k: usize = 0;
        while k < self.items.len() && k < inner.height as usize
            invariant
                inner.wf(),
                k <= self.items.len(),
                k <= inner.height,
                buf.wf(),
                buf.width == old(buf).width,
                buf.height == old(buf).height,
                buf@ == paint_items(
                    g1,
                    item_views(self.items@),
                    inner,
                    self.highlight_style,
                    self.selected,
                    k as int,
                ),
            decreases self.items.len() - k,
        {
            let item = &self.items[k];
            let y: u16 = inner.y + k as u16;
            let row = Rect { x: inner.x, y, width: inner.width, height: 1 };
            buf.set_style(row, item.style);
            buf.set_text(inner.x, y, &item.text, inner.width, item.style);
            let chosen = match self.selected {
                Some(sel) => sel == k,
                None => false,
            };
            if chosen {
                buf.set_style(row, self.highlight_style);
            }
            k += 1;
        }
    }
}

impl Tabs {
    pub fn render(&self, area: Rect, buf: &mut Buffer)
        requires
            old(buf).wf(),
            area.wf(),
        ensures
            final(buf).wf(),
            final(buf).width == old(buf).width,
            final(buf).height == old(buf).height,
            final(buf)@ == paint_tab_bar(old(buf)@, self@, area),
    {
        let inner = render_frame(&self.block, area, buf);
        buf.set_style(inner, self.style);
        if inner.height == 0 {
            return ;
        }
        let ghost g1 = buf@;
        let ghost titles = texts(self.titles@);
        let n = self.titles.len();
        let width: usize = inner.width as usize;
        let mut off: usize = 1;
        let mut k: usize = 0;
        while k < n
            invariant
                inner.wf(),
                n == self.titles.len(),
                titles == texts(self.titles@),
                width == inner.width,
                k <= n,
                off == least(tab_start(titles, k as int), 0x10000),
                tab_start(titles, k as int) >= 1,
                buf.wf(),
                buf.width == old(buf).width,
                buf.height == old(buf).height,
                buf@ == paint_tabs(
                    g1,
                    titles,
                    inner,
                    self.style,
                    self.highlight_style,
                    self.selected,
                    self.divider,
                    k as int,
                ),
            decreases n - k,
        {
            let title = &self.titles[k];
            let len = title.len();
            let s = if k == self.selected { self.highlight_style } else { self.style };
            let ghost g2 = buf@;
            if off < width {
                buf.set_text(inner.x + off as u16, inner.y, title, (width - off) as u16, s);
            } else {
                proof {
                    assert(buf@ =~= write_text(
                        g2,
                        inner.x + tab_start(titles, k as int),
                        inner.y as int,
                        titles[k as int],
                        0,
                        s,
                    ));
                }
            }
            let end: usize = if len >= 0x10000 - off { 0x10000 } else { off + len };
            if k + 1 < n && end + 1 < width {
                buf.patch(inner.x + (end + 1) as u16, inner.y, Some(self.divider), self.style);
            }
            off = if end + 3 > 0x10000 { 0x10000 } else { end + 3 };
            k += 1;
        }
    }
}

/// Paints `w` into `area` of `buf`.
pub fn render(w: &Widget, area: Rect, buf: &mut Buffer)
    requires
        old(buf).wf(),
        area.wf(),
    ensures
        final(buf).wf(),
        final(buf).width == old(buf).width,
        final(buf).height == old(buf).height,
        final(buf)@ == paint(old(buf)@, w@, area),
{
    match w {
        Widget::Block(b) => b.render(area, buf),
        Widget::Paragraph(p) => p.render(area, buf),
        Widget::List(l) => l.render(area, buf),
        Widget::Tabs(t) => t.render(area, buf),
    }
}

impl Borders {
    pub fn all() -> (b: Borders)
        ensures
            b == (Borders { top: true, bottom: true, left: true, right: true }),
    {
        Borders { top: true, bottom: true, left: true, right: true }
    }

    pub fn none() -> (b: Borders)
        ensures
            b == (Borders { top: false, bottom: false, left: false, right: false }),
    {
        Borders { top: false, bottom: false, left: false, right: false }
    }
}

impl Block {
    /// A block without border, title or style.
    pub fn new() -> (b: Block)
        ensures
            b.borders == (Borders { top: false, bottom: false, left: false, right: false }),
            b.border_type == BorderType::Plain,
            b.title@ == Seq::<char>::empty(),
            b.style == (Style { fg: None, bg: None, add_modifier: 0 }),
            b.border_style == (Style { fg: None, bg: None, add_modifier: 0 }),
    {
        Block {
            borders: Borders::none(),
            border_type: BorderType::Plain,
            title: Vec::new(),
            style: Style::new(),
            border_style: Style::new(),
        }
    }

    pub fn title(self, title: Vec<char>) -> (b: Block)
        ensures
            b == (Block { title: title, ..self }),
    {
        Block { title, ..self }
    }

    pub fn borders(self, borders: Borders) -> (b: Block)
        ensures
            b == (Block { borders: borders, ..self }),
    {
        Block { borders, ..self }
    }

    pub fn border_type(self, border_type: BorderType) -> (b: Block)
        ensures
            b == (Block { border_type: border_type, ..self }),
    {
        Block { border_type, ..self }
    }

    pub fn style(self, style: Style) -> (b: Block)
        ensures
            b == (Block { style: style, ..self }),
    {
        Block { style, ..self }
    }

    pub fn border_style(self, border_style: Style) -> (b: Block)
        ensures
            b == (Block { border_style: border_style, ..self }),
    {
        Block { border_style, ..self }
    }
}

impl Paragraph {
    /// A paragraph of `lines`, left aligned, not wrapped, without style or
    /// block.
    pub fn new(lines: Vec<Vec<char>>) -> (p: Paragraph)
        ensures
            p == (Paragraph {
                lines: lines,
                style: Style { fg: None, bg: None, add_modifier: 0 },
                alignment: Alignment::Left,
                wrap: false,
                block: None,
            }),
    {
        Paragraph {
            lines,
            style: Style::new(),
            alignment: Alignment::Left,
            wrap: false,
            block: None,
        }
    }

    pub fn style(self, style: Style) -> (p: Paragraph)
        ensures
            p == (Paragraph { style: style, ..self }),
    {
        Paragraph { style, ..self }
    }

    pub fn alignment(self, alignment: Alignment) -> (p: Paragraph)
        ensures
            p == (Paragraph { alignment: alignment, ..self }),
    {
        Paragraph { alignment, ..self }
    }

    pub fn wrap(self, wrap: bool) -> (p: Paragraph)
        ensures
            p == (Paragraph { wrap: wrap, ..self }),
    {
        Paragraph { wrap, ..self }
    }

    pub fn block(self, block: Block) -> (p: Paragraph)
        ensures
            p == (Paragraph { block: Some(block), ..self }),
    {
        Paragraph { block: Some(block), ..self }
    }
}

impl List {
    /// A list of `items`, none selected, without style or block.
    pub fn new(items: Vec<Item>) -> (l: List)
        ensures
            l == (List {
                items: items,
                style: Style { fg: None, bg: None, add_modifier: 0 },
                highlight_style: Style { fg: None, bg: None, add_modifier: 0 },
                selected: None,
                block: None,
            }),
    {
        List {
            items,
            style: Style::new(),
            highlight_style: Style::new(),
            selected: None,
            block: None,
        }
    }

    pub fn style(self, style: Style) -> (l: List)
        ensures
            l == (List { style: style, ..self }),
    {
        List { style, ..self }
    }

    pub fn highlight_style(self, highlight_style: Style) -> (l: List)
        ensures
            l == (List { highlight_style: highlight_style, ..self }),
    {
        List { highlight_style, ..self }
    }

    pub fn select(self, selected: Option<usize>) -> (l: List)
        ensures
            l == (List { selected: selected, ..self }),
    {
        List { selected, ..self }
    }

    pub fn block(self, block: Block) -> (l: List)
        ensures
            l == (List { block: Some(block), ..self }),
    {
        List { block: Some(block), ..self }
    }
}

impl Tabs {
    /// A bar of tabs with the first one selected and `|` between them,
    /// without style or block.
    pub fn new(titles: Vec<Vec<char>>) -> (t: Tabs)
        ensures
            t == (Tabs {
                titles: titles,
                selected: 0,
                style: Style { fg: None, bg: None, add_modifier: 0 },
                highlight_style: Style { fg: None, bg: None, add_modifier: 0 },
                divider: '|',
                block: None,
            }),
    {
        Tabs {
            titles,
            selected: 0,
            style: Style::new(),
            highlight_style: Style::new(),
            divider: '|',
            block: None,
        }
    }

    pub fn select(self, selected: usize) -> (t: Tabs)
        ensures
            t == (Tabs { selected: selected, ..self }),
    {
        Tabs { selected, ..self }
    }

    pub fn style(self, style: Style) -> (t: Tabs)
        ensures
            t == (Tabs { style: style, ..self }),
    {
        Tabs { style, ..self }
    }

    pub fn highlight_style(self, highlight_style: Style) -> (t: Tabs)
        ensures
            t == (Tabs { highlight_style: highlight_style, ..self }),
    {
        Tabs { highlight_style, ..self }
    }

    pub fn divider(self, divider: char) -> (t: Tabs)
        ensures
            t == (Tabs { divider: divider, ..self }),
    {
        Tabs { divider, ..self }
    }

    pub fn block(self, block: Block) -> (t: Tabs)
        ensures
            t == (Tabs { block: Some(block), ..self }),
    {
        Tabs { block: Some(block), ..self }
    }
}

} // verus!
