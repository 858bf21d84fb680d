use termframe::buffer::{Buffer, Cell, Color, Style, BOLD};
use termframe::geometry::Rect;
use termframe::widgets::{
    render, wrap_lines, Alignment, Block, BorderType, Borders, Item, List, Paragraph, Tabs, Widget,
};

fn text(s: &str) -> Vec<char> {
    s.chars().collect()
}

fn texts(lines: &[&str]) -> Vec<Vec<char>> {
    lines.iter().map(|l| text(l)).collect()
}

fn items(lines: &[&str]) -> Vec<Item> {
    lines.iter().map(|l| Item::new(text(l))).collect()
}

fn line(buf: &Buffer, y: u16) -> String {
    (0..buf.width).map(|x| buf.get(x, y).unwrap().symbol).collect()
}

fn lines(buf: &Buffer) -> Vec<String> {
    (0..buf.height).map(|y| line(buf, y)).collect()
}

#[test]
fn block_inner_loses_one_cell_per_drawn_side() {
    let area = Rect::new(2, 3, 10, 8);
    let with = |b: Borders| Block::new().borders(b).inner(area);
    assert_eq!(with(Borders::all()), Rect { x: 3, y: 4, width: 8, height: 6 });
    assert_eq!(with(Borders::none()), area);
    let left = Borders { left: true, ..Borders::none() };
    assert_eq!(with(left), Rect { x: 3, y: 3, width: 9, height: 8 });
    let right = Borders { right: true, ..Borders::none() };
    assert_eq!(with(right), Rect { x: 2, y: 3, width: 9, height: 8 });
    let top = Borders { top: true, ..Borders::none() };
    assert_eq!(with(top), Rect { x: 2, y: 4, width: 10, height: 7 });
    let bottom = Borders { bottom: true, ..Borders::none() };
    assert_eq!(with(bottom), Rect { x: 2, y: 3, width: 10, height: 7 });
    let hidden = Block::new().borders(Borders::all()).border_type(BorderType::Hidden);
    assert_eq!(hidden.inner(area), area);
}

#[test]
fn block_inner_of_a_tiny_area_is_empty() {
    let b = Block::new().borders(Borders::all());
    assert_eq!(b.inner(Rect::new(4, 4, 1, 1)), Rect { x: 5, y: 5, width: 0, height: 0 });
    assert_eq!(b.inner(Rect::new(4, 4, 0, 0)), Rect { x: 4, y: 4, width: 0, height: 0 });
    assert_eq!(b.inner(Rect::new(4, 4, 2, 3)), Rect { x: 5, y: 5, width: 0, height: 1 });
}

#[test]
fn block_draws_border_and_title() {
    let mut buf = Buffer::empty(7, 5);
    let b = Block::new().borders(Borders::all()).title(text("T"));
    b.render(Rect::new(1, 1, 5, 3), &mut buf);
    assert_eq!(lines(&buf), vec!["       ", " ┌T──┐ ", " │   │ ", " └───┘ ", "       "]);
}

#[test]
fn block_border_types() {
    let mut buf = Buffer::empty(4, 3);
    let area = Rect::new(0, 0, 4, 3);
    Block::new().borders(Borders::all()).border_type(BorderType::Rounded).render(area, &mut buf);
    assert_eq!(lines(&buf), vec!["╭──╮", "│  │", "╰──╯"]);
    Block::new().borders(Borders::all()).border_type(BorderType::Double).render(area, &mut buf);
    assert_eq!(lines(&buf), vec!["╔══╗", "║  ║", "╚══╝"]);
    let mut plain = Buffer::empty(4, 3);
    Block::new().borders(Borders::all()).border_type(BorderType::Hidden).title(text("ab")).render(
        area,
        &mut plain,
    );
    assert_eq!(lines(&plain), vec!["ab  ", "    ", "    "]);
}

#[test]
fn block_partial_borders_and_long_title() {
    let mut buf = Buffer::empty(4, 2);
    let sides = Borders { top: true, left: true, ..Borders::none() };
    Block::new().borders(sides).render(Rect::new(0, 0, 4, 2), &mut buf);
    assert_eq!(lines(&buf), vec!["┌───", "│   "]);
    let mut long = Buffer::empty(5, 2);
    Block::new().borders(Borders::all()).title(text("Hello")).render(Rect::new(0, 0, 5, 2), &mut long);
    assert_eq!(lines(&long), vec!["┌Hel┐", "└───┘"]);
    let mut one = Buffer::empty(2, 2);
    Block::new().borders(Borders::all()).title(text("x")).render(Rect::new(0, 0, 1, 1), &mut one);
    assert_eq!(lines(&one), vec!["┌ ", "  "]);
}

#[test]
fn block_styles_area_and_border() {
    let mut buf = Buffer::empty(3, 3);
    let b = Block::new()
        .borders(Borders::all())
        .style(Style::new().fg(Color::White))
        .border_style(Style::new().fg(Color::Red));
    b.render(Rect::new(0, 0, 3, 3), &mut buf);
    assert_eq!(buf.get(0, 0).unwrap().fg, Color::Red);
    assert_eq!(buf.get(1, 1).unwrap().fg, Color::White);
    assert_eq!(buf.get(1, 1).unwrap().symbol, ' ');
    assert_eq!(buf.get(2, 1), Some(Cell { symbol: '│', fg: Color::Red, bg: Color::Reset, modifier: 0 }));
}

#[test]
fn block_overflowing_the_buffer_is_clipped() {
    let mut buf = Buffer::empty(3, 2);
    Block::new().borders(Borders::all()).title(text("title")).render(Rect::new(1, 1, 50, 50), &mut buf);
    assert_eq!(lines(&buf), vec!["   ", " ┌t"]);
}

#[test]
fn list_highlights_the_selected_row() {
    let mut buf = Buffer::empty(20, 5);
    let hl = Style::new().bg(Color::Yellow).fg(Color::Black).add_modifier(BOLD);
    let list = List::new(items(&["Feed-1", "Feed-2", "Feed-3"])).highlight_style(hl).select(Some(1));
    list.render(Rect::new(0, 0, 20, 5), &mut buf);
    assert_eq!(line(&buf, 0), "Feed-1              ");
    assert_eq!(line(&buf, 1), "Feed-2              ");
    assert_eq!(line(&buf, 2), "Feed-3              ");
    assert_eq!(line(&buf, 3), "                    ");
    for x in 0..20 {
        let c = buf.get(x, 1).unwrap();
        assert_eq!((c.fg, c.bg, c.modifier), (Color::Black, Color::Yellow, BOLD));
        for y in [0u16, 2, 3, 4] {
            let d = buf.get(x, y).unwrap();
            assert_eq!((d.fg, d.bg, d.modifier), (Color::Reset, Color::Reset, 0));
        }
    }
}

#[test]
fn list_in_a_block_shows_what_fits() {
    let mut buf = Buffer::empty(8, 4);
    let list = List::new(items(&["one", "two", "three-long", "four"]))
        .block(Block::new().borders(Borders::all()).title(text("L")));
    list.render(Rect::new(0, 0, 8, 4), &mut buf);
    assert_eq!(lines(&buf), vec!["┌L─────┐", "│one   │", "│two   │", "└──────┘"]);
    let mut none = Buffer::empty(8, 2);
    List::new(items(&["one", "two"])).select(Some(7)).render(Rect::new(0, 0, 8, 2), &mut none);
    assert_eq!(lines(&none), vec!["one     ", "two     "]);
}

#[test]
fn list_items_keep_their_style_under_the_highlight() {
    let mut buf = Buffer::empty(6, 3);
    let green = Style::new().fg(Color::Green);
    let list = List::new(vec![
        Item::new(text("a")).style(green),
        Item::new(text("b")).style(green),
        Item::new(text("c")),
    ])
    .style(Style::new().fg(Color::White))
    .highlight_style(Style::new().bg(Color::Yellow))
    .select(Some(1));
    list.render(Rect::new(0, 0, 6, 3), &mut buf);
    for x in 0..6 {
        let a = buf.get(x, 0).unwrap();
        let b = buf.get(x, 1).unwrap();
        let c = buf.get(x, 2).unwrap();
        assert_eq!((a.fg, a.bg), (Color::Green, Color::Reset));
        assert_eq!((b.fg, b.bg), (Color::Green, Color::Yellow));
        assert_eq!((c.fg, c.bg), (Color::White, Color::Reset));
    }
    assert_eq!(lines(&buf), vec!["a     ", "b     ", "c     "]);
}

#[test]
fn paragraph_alignment() {
    let area = Rect::new(0, 0, 6, 2);
    let mk = |a: Alignment| {
        let mut buf = Buffer::empty(6, 2);
        Paragraph::new(texts(&["Hi", "abcdefgh"])).alignment(a).render(area, &mut buf);
        lines(&buf)
    };
    assert_eq!(mk(Alignment::Left), vec!["Hi    ", "abcdef"]);
    assert_eq!(mk(Alignment::Center), vec!["  Hi  ", "abcdef"]);
    assert_eq!(mk(Alignment::Right), vec!["    Hi", "abcdef"]);
    let mut odd = Buffer::empty(5, 1);
    Paragraph::new(texts(&["ab"])).alignment(Alignment::Center).render(Rect::new(0, 0, 5, 1), &mut odd);
    assert_eq!(lines(&odd), vec![" ab  "]);
}

#[test]
fn paragraph_wraps_long_lines() {
    let mut buf = Buffer::empty(3, 4);
    Paragraph::new(texts(&["abcdefgh", "xy"])).wrap(true).render(Rect::new(0, 0, 3, 4), &mut buf);
    assert_eq!(lines(&buf), vec!["abc", "def", "gh ", "xy "]);
    let mut short = Buffer::empty(3, 2);
    Paragraph::new(texts(&["abcdefgh", "xy"])).wrap(true).render(Rect::new(0, 0, 3, 2), &mut short);
    assert_eq!(lines(&short), vec!["abc", "def"]);
    let mut unwrapped = Buffer::empty(3, 2);
    Paragraph::new(texts(&["abcdefgh", "xy"])).render(Rect::new(0, 0, 3, 2), &mut unwrapped);
    assert_eq!(lines(&unwrapped), vec!["abc", "xy "]);
}

#[test]
fn wrap_lines_cuts_into_pieces() {
    assert_eq!(
        wrap_lines(&texts(&["abcdefg", "", "xy", "abc"]), 3),
        texts(&["abc", "def", "g", "", "xy", "abc"])
    );
    assert_eq!(wrap_lines(&texts(&["abcdefg", "x"]), 0), texts(&["abcdefg", "x"]));
    assert_eq!(wrap_lines(&texts(&[]), 4), texts(&[]));
}

#[test]
fn paragraph_in_a_block_is_styled_and_centred() {
    let mut buf = Buffer::empty(14, 3);
    let p = Paragraph::new(texts(&["RSS Feeder"]))
        .style(Style::new().fg(Color::Yellow))
        .alignment(Alignment::Center)
        .block(Block::new().borders(Borders::all()).style(Style::new().fg(Color::White)));
    p.render(Rect::new(0, 0, 14, 3), &mut buf);
    assert_eq!(lines(&buf), vec!["┌────────────┐", "│ RSS Feeder │", "└────────────┘"]);
    assert_eq!(buf.get(0, 0).unwrap().fg, Color::White);
    assert_eq!(buf.get(1, 1).unwrap().fg, Color::Yellow);
    assert_eq!(buf.get(5, 1).unwrap().fg, Color::Yellow);
}

#[test]
fn tabs_are_divided_and_one_is_highlighted() {
    let mut buf = Buffer::empty(20, 1);
    let tabs = Tabs::new(texts(&["Add", "Update", "Quit"]))
        .style(Style::new().fg(Color::White))
        .highlight_style(Style::new().fg(Color::Yellow))
        .select(1);
    tabs.render(Rect::new(0, 0, 20, 1), &mut buf);
    assert_eq!(line(&buf, 0), " Add | Update | Quit");
    for x in 0..20u16 {
        let fg = if (7..13).contains(&x) { Color::Yellow } else { Color::White };
        assert_eq!(buf.get(x, 0).unwrap().fg, fg);
    }
}

#[test]
fn tabs_are_cut_at_the_edge() {
    let mut buf = Buffer::empty(10, 2);
    Tabs::new(texts(&["Add", "Update"])).divider('/').render(Rect::new(0, 0, 8, 2), &mut buf);
    assert_eq!(lines(&buf), vec![" Add / U  ", "          "]);
    let mut flat = Buffer::empty(6, 1);
    Tabs::new(texts(&["Add", "Update"])).render(Rect::new(0, 0, 6, 0), &mut flat);
    assert_eq!(lines(&flat), vec!["      "]);
    let mut boxed = Buffer::empty(9, 3);
    Tabs::new(texts(&["Add", "Up"]))
        .block(Block::new().borders(Borders::all()).title(text("Menu")))
        .render(Rect::new(0, 0, 9, 3), &mut boxed);
    assert_eq!(lines(&boxed), vec!["┌Menu───┐", "│ Add | │", "└───────┘"]);
}

#[test]
fn rendering_twice_gives_the_same_cells() {
    let widgets = vec![
        Widget::Block(Block::new().borders(Borders::all()).title(text("Block"))),
        Widget::Paragraph(
            Paragraph::new(texts(&["some text", "more"]))
                .wrap(true)
                .block(Block::new().borders(Borders::all())),
        ),
        Widget::List(List::new(items(&["a", "b"])).select(Some(0)).highlight_style(
            Style::new().add_modifier(BOLD),
        )),
        Widget::Tabs(Tabs::new(texts(&["x", "y"]))),
    ];
    let area = Rect::new(1, 0, 8, 4);
    for w in widgets.iter() {
        let mut first = Buffer::empty(10, 5);
        let mut second = Buffer::empty(10, 5);
        render(w, area, &mut first);
        render(w, area, &mut second);
        assert_eq!(first.content, second.content);
        render(w, area, &mut second);
        assert_eq!(first.content, second.content);
        assert_ne!(first.content, Buffer::empty(10, 5).content);
    }
}
