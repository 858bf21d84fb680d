use termframe::geometry::{solve, split, Constraint, Direction, Rect};

fn heights(rects: &Vec<Rect>) -> Vec<u16> {
    rects.iter().map(|r| r.height).collect()
}

fn widths(rects: &Vec<Rect>) -> Vec<u16> {
    rects.iter().map(|r| r.width).collect()
}

#[test]
fn fixed_percentage_fixed_on_24_rows() {
    let parent = Rect::new(0, 0, 80, 24);
    let cs = vec![Constraint::Fixed(3), Constraint::Percentage(80), Constraint::Fixed(3)];
    let out = split(parent, Direction::Vertical, 0, &cs);
    assert_eq!(heights(&out), vec![3, 18, 3]);
    assert_eq!(widths(&out), vec![80, 80, 80]);
    assert_eq!(out.iter().map(|r| r.y).collect::<Vec<u16>>(), vec![0, 3, 21]);
    assert_eq!(out.iter().map(|r| r.x).collect::<Vec<u16>>(), vec![0, 0, 0]);
    assert_eq!(out.iter().map(|r| r.height as u32).sum::<u32>(), 24);
}

#[test]
fn three_panels_inside_a_margin() {
    let out = split(
        Rect::new(0, 0, 80, 24),
        Direction::Vertical,
        1,
        &vec![Constraint::Percentage(10), Constraint::Percentage(80), Constraint::Percentage(10)],
    );
    assert_eq!(
        out,
        vec![
            Rect { x: 1, y: 1, width: 78, height: 3 },
            Rect { x: 1, y: 4, width: 78, height: 17 },
            Rect { x: 1, y: 21, width: 78, height: 2 },
        ]
    );
}

#[test]
fn sizes_always_fill_the_axis() {
    let lists = vec![
        vec![Constraint::Fixed(7)],
        vec![Constraint::Percentage(33), Constraint::Percentage(33)],
        vec![Constraint::Min(1), Constraint::Max(4), Constraint::Ratio(1, 7)],
        vec![Constraint::Fixed(200), Constraint::Fixed(200), Constraint::Percentage(50)],
        vec![Constraint::Ratio(5, 0), Constraint::Ratio(9, 2)],
        vec![Constraint::Max(2), Constraint::Max(3)],
    ];
    for cs in lists.iter() {
        for s in [0u16, 1, 2, 9, 10, 99, 100, 65535] {
            let sizes = solve(cs, s);
            assert_eq!(sizes.len(), cs.len());
            assert_eq!(sizes.iter().map(|v| *v as u32).sum::<u32>(), s as u32);
        }
    }
}

#[test]
fn percentages_of_a_hundred_fill_the_axis() {
    let cs = vec![Constraint::Percentage(33), Constraint::Percentage(33), Constraint::Percentage(34)];
    assert_eq!(solve(&cs, 10), vec![4, 3, 3]);
    assert_eq!(solve(&cs, 100), vec![33, 33, 34]);
    assert_eq!(solve(&cs, 1), vec![1, 0, 0]);
}

#[test]
fn leftover_goes_to_min_entries_first() {
    let cs = vec![
        Constraint::Fixed(3),
        Constraint::Fixed(3),
        Constraint::Min(2),
        Constraint::Fixed(3),
    ];
    assert_eq!(solve(&cs, 24), vec![3, 3, 15, 3]);
    let two = vec![Constraint::Min(1), Constraint::Percentage(50), Constraint::Min(1)];
    assert_eq!(solve(&two, 11), vec![3, 5, 3]);
    assert_eq!(solve(&two, 10), vec![3, 5, 2]);
}

#[test]
fn fixed_is_clipped_to_the_room_left() {
    assert_eq!(solve(&vec![Constraint::Fixed(8), Constraint::Fixed(8)], 10), vec![8, 2]);
    assert_eq!(
        solve(&vec![Constraint::Fixed(8), Constraint::Fixed(8), Constraint::Fixed(8)], 10),
        vec![8, 2, 0]
    );
}

#[test]
fn ratio_is_a_floored_share() {
    assert_eq!(solve(&vec![Constraint::Ratio(1, 3), Constraint::Ratio(2, 3)], 10), vec![4, 6]);
    assert_eq!(solve(&vec![Constraint::Ratio(1, 4), Constraint::Min(0)], 10), vec![2, 8]);
    assert_eq!(solve(&vec![Constraint::Ratio(1, 0), Constraint::Min(0)], 10), vec![0, 10]);
    assert_eq!(solve(&vec![Constraint::Ratio(9, 2), Constraint::Min(0)], 10), vec![10, 0]);
}

#[test]
fn max_and_min_share_a_rank() {
    assert_eq!(solve(&vec![Constraint::Max(5), Constraint::Min(2)], 10), vec![5, 5]);
    assert_eq!(solve(&vec![Constraint::Fixed(3)], 10), vec![10]);
    assert_eq!(solve(&vec![Constraint::Percentage(150)], 10), vec![10]);
}

#[test]
fn degenerate_inputs_give_nothing() {
    let none: Vec<Constraint> = Vec::new();
    assert_eq!(split(Rect::new(0, 0, 10, 10), Direction::Vertical, 0, &none), Vec::<Rect>::new());
    let out = split(
        Rect::new(2, 3, 10, 0),
        Direction::Vertical,
        0,
        &vec![Constraint::Fixed(3), Constraint::Min(1)],
    );
    assert_eq!(
        out,
        vec![Rect { x: 2, y: 3, width: 10, height: 0 }, Rect { x: 2, y: 3, width: 10, height: 0 }]
    );
    let out = split(Rect::new(2, 3, 10, 5), Direction::Horizontal, 3, &vec![Constraint::Min(1)]);
    assert_eq!(out, vec![Rect { x: 2, y: 3, width: 0, height: 0 }]);
}

#[test]
fn horizontal_split_keeps_the_height() {
    let out = split(
        Rect::new(5, 2, 40, 7),
        Direction::Horizontal,
        0,
        &vec![Constraint::Percentage(20), Constraint::Percentage(30), Constraint::Percentage(50)],
    );
    assert_eq!(
        out,
        vec![
            Rect { x: 5, y: 2, width: 8, height: 7 },
            Rect { x: 13, y: 2, width: 12, height: 7 },
            Rect { x: 25, y: 2, width: 20, height: 7 },
        ]
    );
}

#[test]
fn nested_splits_build_a_layout() {
    let rows = split(
        Rect::new(0, 0, 80, 24),
        Direction::Vertical,
        0,
        &vec![Constraint::Fixed(3), Constraint::Fixed(3), Constraint::Min(2), Constraint::Fixed(3)],
    );
    assert_eq!(heights(&rows), vec![3, 3, 15, 3]);
    let cols = split(
        rows[2],
        Direction::Horizontal,
        0,
        &vec![Constraint::Percentage(20), Constraint::Percentage(30), Constraint::Percentage(50)],
    );
    assert_eq!(widths(&cols), vec![16, 24, 40]);
    assert_eq!(heights(&cols), vec![15, 15, 15]);
    assert_eq!(cols[1], Rect { x: 16, y: 6, width: 24, height: 15 });
}

#[test]
fn rect_new_keeps_the_far_edges_addressable() {
    assert_eq!(Rect::new(1, 2, 3, 4), Rect { x: 1, y: 2, width: 3, height: 4 });
    assert_eq!(Rect::new(65530, 0, 10, 65535), Rect { x: 65530, y: 0, width: 5, height: 65535 });
    assert_eq!(Rect::new(0, 0, 300, 200).area(), 60000);
    assert_eq!(Rect::new(4, 4, 10, 6).inner(2), Rect { x: 6, y: 6, width: 6, height: 2 });
    assert_eq!(Rect::new(4, 4, 10, 3).inner(2), Rect { x: 4, y: 4, width: 0, height: 0 });
}
