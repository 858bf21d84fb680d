use termframe::buffer::{Buffer, Cell, Color, Style, BOLD, UNDERLINED};
use termframe::geometry::Rect;

fn chars(s: &str) -> Vec<char> {
    s.chars().collect()
}

fn row(buf: &Buffer, y: u16) -> String {
    (0..buf.width).map(|x| buf.get(x, y).unwrap().symbol).collect()
}

#[test]
fn empty_buffer_is_blank() {
    let buf = Buffer::empty(4, 3);
    assert_eq!(buf.content.len(), 12);
    let blank = Cell { symbol: ' ', fg: Color::Reset, bg: Color::Reset, modifier: 0 };
    assert_eq!(Cell::blank(), blank);
    assert_eq!(Cell::default(), blank);
    for y in 0..3 {
        for x in 0..4 {
            assert_eq!(buf.get(x, y), Some(blank));
        }
    }
    assert_eq!(buf.get(4, 0), None);
    assert_eq!(buf.get(0, 3), None);
    assert_eq!(buf.area(), Rect { x: 0, y: 0, width: 4, height: 3 });
}

#[test]
fn set_changes_one_cell() {
    let mut buf = Buffer::empty(4, 3);
    let c = Cell { symbol: 'x', fg: Color::Red, bg: Color::Blue, modifier: BOLD };
    buf.set(2, 1, c);
    for y in 0..3 {
        for x in 0..4 {
            let want = if (x, y) == (2, 1) { c } else { Cell::blank() };
            assert_eq!(buf.get(x, y), Some(want));
        }
    }
}

#[test]
fn writes_outside_are_dropped() {
    let mut buf = Buffer::empty(4, 3);
    let c = Cell { symbol: 'x', fg: Color::Red, bg: Color::Blue, modifier: BOLD };
    buf.set(4, 0, c);
    buf.set(0, 3, c);
    buf.set(65535, 65535, c);
    buf.patch(9, 9, Some('y'), Style::new().fg(Color::Green));
    assert_eq!(buf.content, Buffer::empty(4, 3).content);
}

#[test]
fn patch_keeps_what_the_style_leaves_open() {
    let mut buf = Buffer::empty(2, 1);
    buf.set(0, 0, Cell { symbol: 'a', fg: Color::Red, bg: Color::Blue, modifier: BOLD });
    buf.patch(0, 0, None, Style::new().bg(Color::Yellow).add_modifier(UNDERLINED));
    assert_eq!(
        buf.get(0, 0),
        Some(Cell { symbol: 'a', fg: Color::Red, bg: Color::Yellow, modifier: BOLD | UNDERLINED })
    );
    buf.patch(0, 0, Some('b'), Style::new().fg(Color::White));
    assert_eq!(
        buf.get(0, 0),
        Some(Cell { symbol: 'b', fg: Color::White, bg: Color::Yellow, modifier: BOLD | UNDERLINED })
    );
}

#[test]
fn set_style_fills_a_rectangle_and_clips() {
    let mut buf = Buffer::empty(4, 3);
    let st = Style::new().bg(Color::Cyan);
    buf.set_style(Rect::new(2, 1, 10, 10), st);
    for y in 0..3u16 {
        for x in 0..4u16 {
            let inside = x >= 2 && y >= 1;
            let bg = if inside { Color::Cyan } else { Color::Reset };
            assert_eq!(buf.get(x, y).unwrap().bg, bg);
            assert_eq!(buf.get(x, y).unwrap().symbol, ' ');
        }
    }
    let mut other = Buffer::empty(4, 3);
    other.set_style(Rect::new(1, 1, 0, 5), st);
    assert_eq!(other.content, Buffer::empty(4, 3).content);
}

#[test]
fn set_text_truncates_and_clips() {
    let mut buf = Buffer::empty(6, 2);
    buf.set_text(1, 0, &chars("hello"), 3, Style::new().fg(Color::Yellow));
    assert_eq!(row(&buf, 0), " hel  ");
    assert_eq!(buf.get(1, 0).unwrap().fg, Color::Yellow);
    assert_eq!(buf.get(4, 0).unwrap().fg, Color::Reset);
    buf.set_text(4, 1, &chars("world"), 100, Style::new());
    assert_eq!(row(&buf, 1), "    wo");
    buf.set_text(65534, 1, &chars("world"), 100, Style::new());
    buf.set_text(0, 7, &chars("world"), 100, Style::new());
    assert_eq!(row(&buf, 0), " hel  ");
    assert_eq!(row(&buf, 1), "    wo");
}

#[test]
fn resize_and_reset_blank_the_buffer() {
    let mut buf = Buffer::empty(3, 2);
    buf.set_text(0, 0, &chars("abc"), 3, Style::new());
    buf.reset();
    assert_eq!(buf.content, Buffer::empty(3, 2).content);
    buf.set_text(0, 0, &chars("abc"), 3, Style::new());
    buf.resize(5, 4);
    assert_eq!((buf.width, buf.height), (5, 4));
    assert_eq!(buf.content, Buffer::empty(5, 4).content);
    buf.resize(0, 4);
    assert_eq!(buf.content.len(), 0);
    assert_eq!(buf.get(0, 0), None);
}

#[test]
fn style_builders_set_one_field_each() {
    let st = Style::new().fg(Color::Black).bg(Color::Yellow).add_modifier(BOLD);
    assert_eq!(st, Style { fg: Some(Color::Black), bg: Some(Color::Yellow), add_modifier: BOLD });
    assert_eq!(st.add_modifier(UNDERLINED).add_modifier, BOLD | UNDERLINED);
    assert_eq!(Style::new(), Style { fg: None, bg: None, add_modifier: 0 });
}
