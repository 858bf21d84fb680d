use termframe::buffer::{Buffer, Color};
use termframe::feeds::{render_rss_article_list, render_rss_feed_list, ui};
use termframe::renderer::{RenderError, Renderer};
use termframe::session::{Session, SessionOptions};
use termframe::widgets::{symbols, Alignment, Item};

fn line(buf: &Buffer, y: u16) -> String {
    (0..buf.width).map(|x| buf.get(x, y).unwrap().symbol).collect()
}

#[test]
fn symbols_are_the_chars_of_a_string() {
    assert_eq!(symbols("Feed-1"), vec!['F', 'e', 'e', 'd', '-', '1']);
    assert_eq!(symbols(""), Vec::<char>::new());
    assert_eq!(symbols("│é"), vec!['│', 'é']);
}

#[test]
fn feed_widgets_hold_their_items() {
    let feeds = render_rss_feed_list();
    assert_eq!(
        feeds.items,
        vec![
            Item::new(symbols("Feed-1")),
            Item::new(symbols("Feed-2")),
            Item::new(symbols("Feed-3")),
        ]
    );
    assert_eq!(feeds.selected, None);
    assert_eq!(feeds.block.as_ref().unwrap().title, symbols("RSS Feeds"));
    assert_eq!(feeds.highlight_style.bg, Some(Color::Yellow));
    let (articles, summary) = render_rss_article_list();
    assert_eq!(
        articles.items,
        vec![Item::new(symbols("Article-1")), Item::new(symbols("Article-2"))]
    );
    assert_eq!(summary.lines, vec![symbols("Article Summary")]);
    assert_eq!(summary.alignment, Alignment::Left);
    assert_eq!(summary.style.fg, Some(Color::LightBlue));
}

#[test]
fn feed_reader_on_a_screen() {
    let mut s = Session::new();
    s.start(SessionOptions { alternate_screen: false, mouse_capture: false }).unwrap();
    let mut r = Renderer::new(80, 24);
    assert_eq!(ui(&mut r), Err(RenderError::NoFrame));
    r.begin_frame(&s, 80, 24).unwrap();
    assert_eq!(ui(&mut r), Ok(()));
    r.commit_frame().unwrap();
    let buf = r.shown();
    let d = |n: usize| "─".repeat(n);
    let b = |n: usize| " ".repeat(n);
    assert_eq!(line(buf, 0), format!("┌{}┐", d(78)));
    assert_eq!(line(buf, 1), format!("│{}RSS Feeder{}│", b(34), b(34)));
    assert_eq!(line(buf, 2), format!("└{}┘", d(78)));
    assert_eq!(line(buf, 3), format!("┌Menu{}┐", d(74)));
    assert_eq!(line(buf, 4), format!("│ Add | Update | Delete | Quit{}│", b(49)));
    assert_eq!(line(buf, 5), format!("└{}┘", d(78)));
    assert_eq!(
        line(buf, 6),
        format!("┌RSS Feeds{}┐┌Articles{}┐┌{}┐", d(5), d(14), d(38))
    );
    assert_eq!(
        line(buf, 7),
        format!("│Feed-1{}││Article-1{}││Article Summary{}│", b(8), b(13), b(23))
    );
    assert_eq!(line(buf, 8), format!("│Feed-2{}││Article-2{}││{}│", b(8), b(13), b(38)));
    assert_eq!(line(buf, 9), format!("│Feed-3{}││{}││{}│", b(8), b(22), b(38)));
    assert_eq!(line(buf, 10), format!("│{}││{}││{}│", b(14), b(22), b(38)));
    assert_eq!(line(buf, 20), format!("└{}┘└{}┘└{}┘", d(14), d(22), d(38)));
    assert_eq!(line(buf, 21), format!("┌{}┐", d(78)));
    assert_eq!(
        line(buf, 22),
        format!("│{}Released and maintained under GPL-3.0 license{}│", b(16), b(17))
    );
    assert_eq!(line(buf, 23), format!("└{}┘", d(78)));
    assert_eq!(buf.get(0, 0).unwrap().fg, Color::White);
    assert_eq!(buf.get(35, 1).unwrap().fg, Color::Yellow);
    assert_eq!(buf.get(2, 4).unwrap().fg, Color::Yellow);
    assert_eq!(buf.get(8, 4).unwrap().fg, Color::White);
    assert_eq!(buf.get(6, 4).unwrap().symbol, '|');
    assert_eq!(buf.get(41, 7).unwrap().fg, Color::LightBlue);
    assert_eq!(buf.get(17, 22).unwrap().fg, Color::LightCyan);
}
