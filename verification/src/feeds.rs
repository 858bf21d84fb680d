//! The screen of a feed reader: a heading, a menu, three columns (feeds,
//! articles, summary) and a footer, each in a bordered block.

use vstd::prelude::*;
use crate::geometry::{Rect, Direction, Constraint, chunk, split};
use crate::buffer::{Grid, Style, Color, BOLD};
use crate::widgets::{
    Alignment,
    Block,
    BlockView,
    Borders,
    BorderType,
    Item,
    ItemView,
    List,
    ListView,
    item_views,
    Paragraph,
    ParagraphView,
    Tabs,
    TabsView,
    Widget,
    paint_list,
    paint_paragraph,
    paint_tab_bar,
    symbols,
    texts,
};
use crate::renderer::{Renderer, RenderError, Frames};

verus! {

pub open spec fn plain() -> Style {
    Style { fg: None, bg: None, add_modifier: 0 }
}

pub open spec fn colored(c: Color) -> Style {
    Style { fg: Some(c), bg: None, add_modifier: 0 }
}

/// The style of the selected item: black on yellow, bold.
pub open spec fn highlight() -> Style {
    Style { fg: Some(Color::Black), bg: Some(Color::Yellow), add_modifier: BOLD }
}

/// A white block with a plain border on all sides and the given title.
pub open spec fn boxed(title: Seq<char>) -> BlockView {
    BlockView {
        borders: Borders { top: true, bottom: true, left: true, right: true },
        border_type: BorderType::Plain,
        title: title,
        style: colored(Color::White),
        border_style: plain(),
    }
}

/// One line of text, centred, in a block without title.
pub open spec fn banner(line: Seq<char>, c: Color) -> ParagraphView {
    ParagraphView {
        lines: seq![line],
        style: colored(c),
        alignment: Alignment::Center,
        wrap: false,
        block: Some(boxed(Seq::empty())),
    }
}

/// A list item without a style of its own.
pub open spec fn entry(text: Seq<char>) -> ItemView {
    ItemView { text: text, style: plain() }
}

pub open spec fn menu() -> TabsView {
    TabsView {
        titles: seq!["Add"@, "Update"@, "Delete"@, "Quit"@],
        selected: 0,
        style: colored(Color::White),
        highlight_style: colored(Color::Yellow),
        divider: '|',
        block: Some(
            BlockView { style: plain(), ..boxed("Menu"@) },
        ),
    }
}

pub open spec fn feed_list() -> ListView {
    ListView {
        items: seq![entry("Feed-1"@), entry("Feed-2"@), entry("Feed-3"@)],
        style: plain(),
        highlight_style: highlight(),
        selected: None,
        block: Some(boxed("RSS Feeds"@)),
    }
}

pub open spec fn article_list() -> ListView {
    ListView {
        items: seq![entry("Article-1"@), entry("Article-2"@)],
        style: plain(),
        highlight_style: highlight(),
        selected: None,
        block: Some(boxed("Articles"@)),
    }
}

pub open spec fn article_summary() -> ParagraphView {
    ParagraphView {
        lines: seq!["Article Summary"@],
        style: colored(Color::LightBlue),
        alignment: Alignment::Left,
        wrap: false,
        block: Some(boxed(Seq::empty())),
    }
}

pub open spec fn row_constraints() -> Seq<Constraint> {
    seq![Constraint::Fixed(3), Constraint::Fixed(3), Constraint::Min(2), Constraint::Fixed(3)]
}

pub open spec fn column_constraints() -> Seq<Constraint> {
    seq![Constraint::Percentage(20), Constraint::Percentage(30), Constraint::Percentage(50)]
}

/// Row `i` of the screen: heading, menu, content, footer.
pub open spec fn row_area(size: Rect, i: int) -> Rect {
    chunk(size.inner_spec(0), Direction::Vertical, row_constraints(), i)
}

/// Column `i` of the content row: feeds, articles, summary.
pub open spec fn column_area(size: Rect, i: int) -> Rect {
    chunk(row_area(size, 2).inner_spec(0), Direction::Horizontal, column_constraints(), i)
}

/// The grid after the feed reader is painted into a screen of `size`.
pub open spec fn feeds_grid(g: Grid, size: Rect) -> Grid {
    let g1 = paint_paragraph(g, banner("RSS Feeder"@, Color::Yellow), row_area(size, 0));
    let g2 = paint_tab_bar(g1, menu(), row_area(size, 1));
    let g3 = paint_list(g2, feed_list(), column_area(size, 0));
    let g4 = paint_list(g3, article_list(), column_area(size, 1));
    let g5 = paint_paragraph(g4, article_summary(), column_area(size, 2));
    paint_paragraph(
        g5,
        banner("Released and maintained under GPL-3.0 license"@, Color::LightCyan),
        row_area(size, 3),
    )
}

fn make_box(title: Vec<char>) -> (b: Block)
    ensures
        b@ == boxed(title@),
{
    Block {
        borders: Borders::all(),
        border_type: BorderType::Plain,
        title,
        style: Style::new().fg(Color::White),
        border_style: Style::new(),
    }
}

fn make_banner(line: &str, c: Color) -> (p: Paragraph)
    ensures
        p@ == banner(line@, c),
{
    let p = Paragraph {
        lines: vec![symbols(line)],
        style: Style::new().fg(c),
        alignment: Alignment::Center,
        wrap: false,
        block: Some(make_box(Vec::new())),
    };
    proof {
        assert(texts(p.lines@) =~= seq![line@]);
    }
    p
}

fn make_menu() -> (t: Tabs)
    ensures
        t@ == menu(),
{
    let t = Tabs {
        titles: vec![symbols("Add"), symbols("Update"), symbols("Delete"), symbols("Quit")],
        selected: 0,
        style: Style::new().fg(Color::White),
        highlight_style: Style::new().fg(Color::Yellow),
        divider: '|',
        block: Some(
            Block {
                borders: Borders::all(),
                border_type: BorderType::Plain,
                title: symbols("Menu"),
                style: Style::new(),
                border_style: Style::new(),
            },
        ),
    };
    proof {
        assert(texts(t.titles@) =~= seq!["Add"@, "Update"@, "Delete"@, "Quit"@]);
    }
    t
}

fn highlight_style() -> (s: Style)
    ensures
        s == highlight(),
{
    proof {
        assert(0u16 | 1u16 == 1u16) by (bit_vector);
    }
    Style::new().bg(Color::Yellow).fg(Color::Black).add_modifier(BOLD)
}

/// The list of feeds.
pub fn render_rss_feed_list() -> (l: List)
    ensures
        l@ == feed_list(),
{
    let l = List {
        items: vec![
            Item::new(symbols("Feed-1")),
            Item::new(symbols("Feed-2")),
            Item::new(symbols("Feed-3")),
        ],
        style: Style::new(),
        highlight_style: highlight_style(),
        selected: None,
        block: Some(make_box(symbols("RSS Feeds"))),
    };
    proof {
        assert(item_views(l.items@) =~= seq![
            entry("Feed-1"@),
            entry("Feed-2"@),
            entry("Feed-3"@),
        ]);
    }
    l
}

/// The list of articles, and the summary of one.
pub fn render_rss_article_list() -> (out: (List, Paragraph))
    ensures
        out.0@ == article_list(),
        out.1@ == article_summary(),
{
    let l = List {
        items: vec![Item::new(symbols("Article-1")), Item::new(symbols("Article-2"))],
        style: Style::new(),
        highlight_style: highlight_style(),
        selected: None,
        block: Some(make_box(symbols("Articles"))),
    };
    let p = Paragraph {
        lines: vec![symbols("Article Summary")],
        style: Style::new().fg(Color::LightBlue),
        alignment: Alignment::Left,
        wrap: false,
        block: Some(make_box(Vec::new())),
    };
    proof {
        assert(item_views(l.items@) =~= seq![entry("Article-1"@), entry("Article-2"@)]);
        assert(texts(p.lines@) =~= seq!["Article Summary"@]);
    }
    (l, p)
}

/// The rectangles of the four rows and of the three columns of the third.
fn areas(size: Rect) -> (out: (Vec<Rect>, Vec<Rect>))
    requires
        size.wf(),
    ensures
        out.0.len() == 4,
        out.1.len() == 3,
        forall|i: int| 0 <= i < 4 ==> #[trigger] out.0[i] == row_area(size, i) && out.0[i].wf(),
        forall|i: int| 0 <= i < 3 ==> #[trigger] out.1[i] == column_area(size, i) && out.1[i].wf(),
{
    let rows: Vec<Constraint> = vec![
        Constraint::Fixed(3),
        Constraint::Fixed(3),
        Constraint::Min(2),
        Constraint::Fixed(3),
    ];
    let columns: Vec<Constraint> = vec![
        Constraint::Percentage(20),
        Constraint::Percentage(30),
        Constraint::Percentage(50),
    ];
    proof {
        assert(rows@ =~= row_constraints());
        assert(columns@ =~= column_constraints());
    }
    let chunks = split(size, Direction::Vertical, 0, &rows);
    let rss_chunks = split(chunks[2], Direction::Horizontal, 0, &columns);
    (chunks, rss_chunks)
}

/// Paints the feed reader into the frame that is being drawn. Refused, with
/// nothing changed, where no frame is being drawn.
pub fn ui(r: &mut Renderer) -> (out: Result<(), RenderError>)
    requires
        old(r).wf(),
    ensures
        final(r).wf(),
        old(r).drawing ==> out is Ok && final(r)@ == (Frames {
            next: feeds_grid(
                old(r)@.next,
                Rect { x: 0, y: 0, width: old(r).next.width, height: old(r).next.height },
            ),
            ..old(r)@
        }),
        !old(r).drawing ==> out == Err::<(), RenderError>(RenderError::NoFrame),
        !old(r).drawing ==> final(r)@ == old(r)@,
{
    if !r.drawing {
        return Err(RenderError::NoFrame);
    }
    let size = r.size();
    let (chunks, rss_chunks) = areas(size);
    let heading = Widget::Paragraph(make_banner("RSS Feeder", Color::Yellow));
    let menu_titles = Widget::Tabs(make_menu());
    let left = Widget::List(render_rss_feed_list());
    let (middle, right) = render_rss_article_list();
    let middle = Widget::List(middle);
    let right = Widget::Paragraph(right);
    let license = Widget::Paragraph(
        make_banner("Released and maintained under GPL-3.0 license", Color::LightCyan),
    );
    let _ = r.draw(&heading, chunks[0]);
    let _ = r.draw(&menu_titles, chunks[1]);
    let _ = r.draw(&left, rss_chunks[0]);
    let _ = r.draw(&middle, rss_chunks[1]);
    let _ = r.draw(&right, rss_chunks[2]);
    let _ = r.draw(&license, chunks[3]);
    Ok(())
}

} // verus!
