//! The grid of styled cells that stands for one frame of the terminal.
//!
//! A buffer is seen in contracts as a map from the positions `(x, y)` inside
//! it to their cells. Every write is clipped: a position outside the buffer
//! is not in the map, and writing to it changes nothing.

use vstd::prelude::*;
use crate::geometry::Rect;

verus! {

#[derive(Clone, Copy, Debug, PartialEq, Eq, Structural)]
pub enum Color {
    Reset,
    Black,
    Red,
    Green,
    Yellow,
    Blue,
    Magenta,
    Cyan,
    Gray,
    DarkGray,
    LightRed,
    LightGreen,
    LightYellow,
    LightBlue,
    LightMagenta,
    LightCyan,
    White,
}

/// Text modifiers, one bit each; a set of them is the bitwise or.
pub const BOLD: u16 = 1;

pub const DIM: u16 = 2;

pub const ITALIC: u16 = 4;

pub const UNDERLINED: u16 = 8;

pub const SLOW_BLINK: u16 = 16;

pub const RAPID_BLINK: u16 = 32;

pub const REVERSED: u16 = 64;

pub const HIDDEN: u16 = 128;

pub const CROSSED_OUT: u16 = 256;

/// What a widget asks of the cells it paints: a colour where one is set, and
/// modifiers to add.
#[derive(Clone, Copy, Debug, PartialEq, Eq)]
pub struct Style {
    pub fg: Option<Color>,
    pub bg: Option<Color>,
    pub add_modifier: u16,
}

#[derive(Clone, Copy, Debug, PartialEq, Eq, Structural)]
pub struct Cell {
    pub symbol: char,
    pub fg: Color,
    pub bg: Color,
    pub modifier: u16,
}

pub open spec fn blank_cell() -> Cell {
    Cell { symbol: ' ', fg: Color::Reset, bg: Color::Reset, modifier: 0 }
}

/// The cell with the colours that `st` sets and the modifiers that it adds.
pub open spec fn styled(c: Cell, st: Style) -> Cell {
    Cell {
        symbol: c.symbol,
        fg: match st.fg {
            Some(f) => f,
            None => c.fg,
        },
        bg: match st.bg {
            Some(b) => b,
            None => c.bg,
        },
        modifier: c.modifier | st.add_modifier,
    }
}

/// The cell with its symbol replaced where one is given, then styled.
pub open spec fn patched(c: Cell, symbol: Option<char>, st: Style) -> Cell {
    match symbol {
        Some(ch) => Cell { symbol: ch, ..styled(c, st) },
        None => styled(c, st),
    }
}

impl Style {
    pub fn new() -> (s: Style)
        ensures
            s == (Style { fg: None, bg: None, add_modifier: 0 }),
    {
        Style { fg: None, bg: None, add_modifier: 0 }
    }

    pub fn fg(self, color: Color) -> (s: Style)
        ensures
            s == (Style { fg: Some(color), ..self }),
    {
        Style { fg: Some(color), bg: self.bg, add_modifier: self.add_modifier }
    }

    pub fn bg(self, color: Color) -> (s: Style)
        ensures
            s == (Style { bg: Some(color), ..self }),
    {
        Style { fg: self.fg, bg: Some(color), add_modifier: self.add_modifier }
    }

    pub fn add_modifier(self, modifier: u16) -> (s: Style)
        ensures
            s == (Style { add_modifier: self.add_modifier | modifier, ..self }),
    {
        Style { fg: self.fg, bg: self.bg, add_modifier: self.add_modifier | modifier }
    }
}

impl Cell {
    pub fn blank() -> (c: Cell)
        ensures
            c == blank_cell(),
    {
        Cell { symbol: ' ', fg: Color::Reset, bg: Color::Reset, modifier: 0 }
    }

    pub fn patch(self, symbol: Option<char>, st: Style) -> (c: Cell)
        ensures
            c == patched(self, symbol, st),
    {
        Cell {
            symbol: match symbol {
                Some(ch) => ch,
                None => self.symbol,
            },
            fg: match st.fg {
                Some(f) => f,
                None => self.fg,
            },
            bg: match st.bg {
                Some(b) => b,
                None => self.bg,
            },
            modifier: self.modifier | st.add_modifier,
        }
    }
}

impl Default for Cell {
    fn default() -> (c: Cell)
        ensures
            c == blank_cell(),
    {
        Cell::blank()
    }
}

pub type Grid = Map<(int, int), Cell>;

/// The grid of `w` columns and `h` rows in which every cell is blank.
pub open spec fn blank_grid(w: int, h: int) -> Grid {
    Map::new(|p: (int, int)| 0 <= p.0 < w && 0 <= p.1 < h, |p: (int, int)| blank_cell())
}

/// The grid in which the cells inside `area` are styled.
pub open spec fn style_area(g: Grid, area: Rect, st: Style) -> Grid {
    Map::new(
        |p: (int, int)| g.dom().contains(p),
        |p: (int, int)|
            if area.contains(p.0, p.1) {
                styled(g[p], st)
            } else {
                g[p]
            },
    )
}

/// The grid in which row `y` shows, from column `x` on, the first `max`
/// symbols of `text`, styled.
pub open spec fn write_text(g: Grid, x: int, y: int, text: Seq<char>, max: int, st: Style) -> Grid {
    Map::new(
        |p: (int, int)| g.dom().contains(p),
        |p: (int, int)|
            if p.1 == y && x <= p.0 < x + max && p.0 < x + text.len() {
                patched(g[p], Some(text[p.0 - x]), st)
            } else {
                g[p]
            },
    )
}

/// The grid in which the cell at `(x, y)`, if there is one, is patched.
pub open spec fn patch_at(g: Grid, x: int, y: int, symbol: Option<char>, st: Style) -> Grid {
    if g.dom().contains((x, y)) {
        g.insert((x, y), patched(g[(x, y)], symbol, st))
    } else {
        g
    }
}

#[derive(Debug, PartialEq, Eq)]
pub struct Buffer {
    pub width: u16,
    pub height: u16,
    pub content: Vec<Cell>,
}

proof fn lemma_index_bounds(w: int, h: int, x: int, y: int)
    requires
        0 <= x < w,
        0 <= y < h,
    ensures
        0 <= y * w + x < w * h,
{
    assert(0 <= y * w && y * w + w <= h * w && h * w == w * h) by (nonlinear_arith)
        requires
            0 <= y < h,
            0 < w,
    ;
}

proof fn lemma_index_distinct(w: int, x1: int, y1: int, x2: int, y2: int)
    requires
        0 <= x1 < w,
        0 <= x2 < w,
        0 <= y1,
        0 <= y2,
        y1 * w + x1 == y2 * w + x2,
    ensures
        x1 == x2,
        y1 == y2,
{
    assert(y1 == y2) by (nonlinear_arith)
        requires
            0 <= x1 < w,
            0 <= x2 < w,
            y1 * w + x1 == y2 * w + x2,
    ;
    assert(y1 * w == y2 * w);
}

impl View for Buffer {
    type V = Grid;

    open spec fn view(&self) -> Grid {
        Map::new(
            |p: (int, int)| 0 <= p.0 < self.width && 0 <= p.1 < self.height,
            |p: (int, int)| self.content[p.1 * self.width + p.0],
        )
    }
}

impl Buffer {
    /// There is one cell for every position.
    pub open spec fn wf(&self) -> bool {
        self.content.len() == self.width * self.height
    }

    pub open spec fn in_bounds(&self, x: int, y: int) -> bool {
        0 <= x < self.width && 0 <= y < self.height
    }

    /// A buffer of `width` columns and `height` rows, all blank.
    pub fn empty(width: u16, height: u16) -> (b: Buffer)
        ensures
            b.wf(),
            b.width == width,
            b.height == height,
            b@ == blank_grid(width as int, height as int),
    {
        assert(width * height <= 0xFFFF * 0xFFFF) by (nonlinear_arith)
            requires
                width <= 0xFFFF,
                height <= 0xFFFF,
        ;
        let n: usize = (width as usize) * (height as usize);
        let mut content: Vec<Cell> = Vec::new();
        while content.len() < n
            invariant
                content.len() <= n,
                forall|i: int| 0 <= i < content.len() ==> content[i] == blank_cell(),
            decreases n - content.len(),
        {
            content.push(Cell::blank());
        }
        let b = Buffer { width, height, content };
        proof {
            assert forall|p: (int, int)| 0 <= p.0 < width && 0 <= p.1 < height implies b@[p]
                == blank_cell() by {
                lemma_index_bounds(width as int, height as int, p.0, p.1);
            }
            assert(b@ =~= blank_grid(width as int, height as int));
        }
        b
    }

    /// The rectangle that the buffer covers.
    pub fn area(&self) -> (r: Rect)
        ensures
            r == (Rect { x: 0, y: 0, width: self.width, height: self.height }),
            r.wf(),
    {
        Rect { x: 0, y: 0, width: self.width, height: self.height }
    }

    /// The cell at `(x, y)`, or nothing outside the buffer.
    pub fn get(&self, x: u16, y: u16) -> (c: Option<Cell>)
        requires
            self.wf(),
        ensures
            c == if self.in_bounds(x as int, y as int) {
                Some(self@[(x as int, y as int)])
            } else {
                None
            },
    {
        if x < self.width && y < self.height {
            proof {
                lemma_index_bounds(self.width as int, self.height as int, x as int, y as int);
            }
            let idx: usize = (y as usize) * (self.width as usize) + (x as usize);
            Some(self.content[idx])
        } else {
            None
        }
    }

    /// Puts `cell` at `(x, y)`; outside the buffer nothing happens.
    pub fn set(&mut self, x: u16, y: u16, cell: Cell)
        requires
            old(self).wf(),
        ensures
            final(self).wf(),
            final(self).width == old(self).width,
            final(self).height == old(self).height,
            final(self)@ == if old(self).in_bounds(x as int, y as int) {
                old(self)@.insert((x as int, y as int), cell)
            } else {
                old(self)@
            },
    {
        if x < self.width && y < self.height {
            proof {
                lemma_index_bounds(self.width as int, self.height as int, x as int, y as int);
            }
            let idx: usize = (y as usize) * (self.width as usize) + (x as usize);
            self.content.set(idx, cell);
            proof {
                let w = self.width as int;
                assert forall|p: (int, int)| 0 <= p.0 < w && 0 <= p.1 < self.height && p != (
                    x as int,
                    y as int,
                ) implies self@[p] == old(self)@[p] by {
                    if p.1 * w + p.0 == y * w + x {
                        lemma_index_distinct(w, p.0, p.1, x as int, y as int);
                    }
                    lemma_index_bounds(w, self.height as int, p.0, p.1);
                }
                assert(self@ =~= old(self)@.insert((x as int, y as int), cell));
            }
        }
    }

    /// Changes the symbol, where one is given, and the style of the cell at
    /// `(x, y)`; outside the buffer nothing happens.
    pub fn patch(&mut self, x: u16, y: u16, symbol: Option<char>, st: Style)
        requires
            old(self).wf(),
        ensures
            final(self).wf(),
            final(self).width == old(self).width,
            final(self).height == old(self).height,
            final(self)@ == patch_at(old(self)@, x as int, y as int, symbol, st),
    {
        match self.get(x, y) {
            Some(c) => {
                self.set(x, y, c.patch(symbol, st));
            },
            None => {},
        }
    }

    /// Styles every cell of `area` that lies inside the buffer.
    pub fn set_style(&mut self, area: Rect, st: Style)
        requires
            old(self).wf(),
            area.wf(),
        ensures
            final(self).wf(),
            final(self).width == old(self).width,
            final(self).height == old(self).height,
            final(self)@ == style_area(old(self)@, area, st),
    {
        let ghost g0 = self@;
        let x1: u16 = area.x + area.width;
        let y1: u16 = area.y + area.height;
        let mut y: u16 = area.y;
        while y < y1
            invariant
                area.wf(),
                x1 == area.x + area.width,
                y1 == area.y + area.height,
                area.y <= y <= y1,
                self.wf(),
                self.width == old(self).width,
                self.height == old(self).height,
                g0 == old(self)@,
                self@ == style_area(
                    g0,
                    Rect { x: area.x, y: area.y, width: area.width, height: (y - area.y) as u16 },
                    st,
                ),
            decreases y1 - y,
        {
            let ghost row0 = self@;
            let mut x: u16 = area.x;
            while x < x1
                invariant
                    area.wf(),
                    x1 == area.x + area.width,
                    y < y1,
                    y1 == area.y + area.height,
                    area.x <= x <= x1,
                    self.wf(),
                    self.width == old(self).width,
                    self.height == old(self).height,
                    g0 == old(self)@,
                    row0 == style_area(
                        g0,
                        Rect {
                            x: area.x,
                            y: area.y,
                            width: area.width,
                            height: (y - area.y) as u16,
                        },
                        st,
                    ),
                    self@ == style_area(
                        row0,
                        Rect { x: area.x, y: y, width: (x - area.x) as u16, height: 1 },
                        st,
                    ),
                decreases x1 - x,
            {
                self.patch(x, y, None, st);
                proof {
                    assert(self@ =~= style_area(
                        row0,
                        Rect { x: area.x, y: y, width: (x + 1 - area.x) as u16, height: 1 },
                        st,
                    ));
                }
                x = x + 1;
            }
            proof {
                assert(self@ =~= style_area(
                    g0,
                    Rect {
                        x: area.x,
                        y: area.y,
                        width: area.width,
                        height: (y + 1 - area.y) as u16,
                    },
                    st,
                ));
            }
            y = y + 1;
        }
        proof {
            assert(self@ =~= style_area(g0, area, st));
        }
    }

    /// Writes the first `max` symbols of `text` into row `y` from column `x`
    /// on, styled; what falls outside the buffer is dropped.
    pub fn set_text(&mut self, x: u16, y: u16, text: &Vec<char>, max: u16, st: Style)
        requires
            old(self).wf(),
        ensures
            final(self).wf(),
            final(self).width == old(self).width,
            final(self).height == old(self).height,
            final(self)@ == write_text(old(self)@, x as int, y as int, text@, max as int, st),
    {
        let ghost g0 = self@;
        let mut i: usize = 0;
        while i < text.len() && i < max as usize
            invariant
                i <= text.len(),
                i <= max,
                self.wf(),
                self.width == old(self).width,
                self.height == old(self).height,
                g0 == old(self)@,
                self@ == write_text(g0, x as int, y as int, text@, i as int, st),
            decreases text.len() - i,
        {
            if (i as u32) + (x as u32) <= 0xFFFF {
                self.patch((i as u16) + x, y, Some(text[i]), st);
            }
            proof {
                assert(self@ =~= write_text(g0, x as int, y as int, text@, i + 1, st));
            }
            i += 1;
        }
        proof {
            assert(self@ =~= write_text(g0, x as int, y as int, text@, max as int, st));
        }
    }

    /// Gives the buffer a new size and blanks it.
    pub fn resize(&mut self, width: u16, height: u16)
        ensures
            final(self).wf(),
            final(self).width == width,
            final(self).height == height,
            final(self)@ == blank_grid(width as int, height as int),
    {
        *self = Buffer::empty(width, height);
    }

    /// Blanks every cell.
    pub fn reset(&mut self)
        ensures
            final(self).wf(),
            final(self).width == old(self).width,
            final(self).height == old(self).height,
            final(self)@ == blank_grid(old(self).width as int, old(self).height as int),
    {
        *self = Buffer::empty(self.width, self.height);
    }
}

} // verus!
