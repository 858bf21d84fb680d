//! A screen of three bordered panels, one above the other inside a margin of
//! one cell: a tenth, eight tenths and a tenth of the height.

use vstd::prelude::*;
use crate::geometry::{Rect, Direction, Constraint, chunk, split};
use crate::buffer::{Grid, Style};
use crate::widgets::{Block, BlockView, Borders, BorderType, Widget, paint_block, symbols};
use crate::renderer::{Renderer, RenderError, Frames};

verus! {

pub open spec fn panel_constraints() -> Seq<Constraint> {
    seq![Constraint::Percentage(10), Constraint::Percentage(80), Constraint::Percentage(10)]
}

/// A block with a plain border on all sides and the given title.
pub open spec fn panel(title: Seq<char>) -> BlockView {
    BlockView {
        borders: Borders { top: true, bottom: true, left: true, right: true },
        border_type: BorderType::Plain,
        title: title,
        style: Style { fg: None, bg: None, add_modifier: 0 },
        border_style: Style { fg: None, bg: None, add_modifier: 0 },
    }
}

pub open spec fn panel_area(size: Rect, i: int) -> Rect {
    chunk(size.inner_spec(1), Direction::Vertical, panel_constraints(), i)
}

/// The grid after the three panels are painted into a screen of `size`.
pub open spec fn panels_grid(g: Grid, size: Rect) -> Grid {
    let g1 = paint_block(g, panel("Block"@), panel_area(size, 0));
    let g2 = paint_block(g1, panel("Block 2"@), panel_area(size, 1));
    paint_block(g2, panel("Block 3"@), panel_area(size, 2))
}

fn make_panel(title: Vec<char>) -> (b: Block)
    ensures
        b@ == panel(title@),
{
    Block {
        borders: Borders { top: true, bottom: true, left: true, right: true },
        border_type: BorderType::Plain,
        title,
        style: Style::new(),
        border_style: Style::new(),
    }
}

/// Paints the three panels into the frame that is being drawn. Refused, with
/// nothing changed, where no frame is being drawn.
pub fn ui(r: &mut Renderer) -> (out: Result<(), RenderError>)
    requires
        old(r).wf(),
    ensures
        final(r).wf(),
        old(r).drawing ==> out is Ok && final(r)@ == (Frames {
            next: panels_grid(
                old(r)@.next,
                Rect { x: 0, y: 0, width: old(r).next.width, height: old(r).next.height },
            ),
            ..old(r)@
        }),
        !old(r).drawing ==> out == Err::<(), RenderError>(RenderError::NoFrame),
        !old(r).drawing ==> final(r)@ == old(r)@,
{
    if !r.drawing {
        return Err(RenderError::NoFrame);
    }
    let size = r.size();
    let mut constraints: Vec<Constraint> = Vec::new();
    constraints.push(Constraint::Percentage(10));
    constraints.push(Constraint::Percentage(80));
    constraints.push(Constraint::Percentage(10));
    proof {
        assert(constraints@ =~= panel_constraints());
    }
    let chunks = split(size, Direction::Vertical, 1, &constraints);
    let _ = r.draw(&Widget::Block(make_panel(symbols("Block"))), chunks[0]);
    let _ = r.draw(&Widget::Block(make_panel(symbols("Block 2"))), chunks[1]);
    let _ = r.draw(&Widget::Block(make_panel(symbols("Block 3"))), chunks[2]);
    Ok(())
}

} // verus!
