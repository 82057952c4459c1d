use pyonji::geometry::{
    clamp_first_size, first_split_size, ratio_from_first_size, split_axis_size, split_geometry,
    PaneGeometry, PanePathStep, SplitDirection,
};
use pyonji::pane::Pane;
use pyonji::tab::Tab;
use pyonji::SessionId;

fn area(x: u16, y: u16, cols: u16, rows: u16) -> PaneGeometry {
    PaneGeometry { x, y, cols, rows }
}

fn s(n: u64) -> SessionId {
    SessionId(n)
}

#[test]
fn global_cell_is_one_based() {
    let g = area(10, 5, 20, 10);
    assert!(g.contains_global_cell(11, 6));
    assert!(g.contains_global_cell(30, 15));
    assert!(!g.contains_global_cell(10, 6));
    assert!(!g.contains_global_cell(31, 6));
    assert!(!g.contains_global_cell(11, 16));
    assert_eq!(g.local_cell(11, 6), (1, 1));
    assert_eq!(g.local_cell(30, 15), (20, 10));
}

#[test]
fn local_cell_saturates_left_of_the_area() {
    let g = area(10, 5, 20, 10);
    assert_eq!(g.local_cell(3, 2), (0, 0));
}

#[test]
fn first_split_size_rounds_and_clamps() {
    assert_eq!(first_split_size(80, 500), 40);
    assert_eq!(first_split_size(81, 500), 41);
    assert_eq!(first_split_size(10, 0), 1);
    assert_eq!(first_split_size(10, 1000), 9);
    assert_eq!(first_split_size(1, 500), 1);
    assert_eq!(first_split_size(0, 500), 0);
}

#[test]
fn clamp_first_size_keeps_both_halves() {
    assert_eq!(clamp_first_size(-5, 10), 1);
    assert_eq!(clamp_first_size(0, 10), 1);
    assert_eq!(clamp_first_size(4, 10), 4);
    assert_eq!(clamp_first_size(10, 10), 9);
    assert_eq!(clamp_first_size(7, 1), 1);
    assert_eq!(clamp_first_size(7, 0), 0);
}

#[test]
fn ratio_from_first_size_rounds_to_per_mille() {
    assert_eq!(ratio_from_first_size(40, 80), 500);
    assert_eq!(ratio_from_first_size(1, 3), 333);
    assert_eq!(ratio_from_first_size(2, 3), 667);
    assert_eq!(ratio_from_first_size(0, 80), 1);
    assert_eq!(ratio_from_first_size(80, 80), 999);
    assert_eq!(ratio_from_first_size(5, 1), 500);
}

#[test]
fn ratio_round_trip_for_small_totals() {
    for total in 2u16..=200 {
        for first in 1..total {
            let ratio = ratio_from_first_size(first, total);
            assert_eq!(first_split_size(total, ratio), first);
        }
    }
}

#[test]
fn split_geometry_tiles_the_area() {
    let (a, b, first) = split_geometry(area(0, 0, 80, 24), SplitDirection::Vertical, 500);
    assert_eq!(first, 40);
    assert_eq!(a, area(0, 0, 40, 24));
    assert_eq!(b, area(40, 0, 40, 24));
    let (a, b, first) = split_geometry(area(2, 3, 80, 25), SplitDirection::Horizontal, 500);
    assert_eq!(first, 13);
    assert_eq!(a, area(2, 3, 80, 13));
    assert_eq!(b, area(2, 16, 80, 12));
    assert_eq!(split_axis_size(area(0, 0, 80, 24), SplitDirection::Horizontal), 24);
    assert_eq!(split_axis_size(area(0, 0, 80, 24), SplitDirection::Vertical), 80);
}

#[test]
fn pane_split_and_sessions() {
    let mut p = Pane::new(s(1));
    assert!(p.split(s(1), SplitDirection::Vertical, s(2)));
    assert!(p.split(s(2), SplitDirection::Horizontal, s(3)));
    assert!(!p.split(s(9), SplitDirection::Horizontal, s(4)));
    assert_eq!(p.sessions(), vec![s(1), s(2), s(3)]);
    assert_eq!(p.first_session(), s(1));
    assert!(p.contains_session(s(3)));
    assert!(!p.contains_session(s(4)));
}

#[test]
fn pane_remove_collapses_the_split() {
    let mut p = Pane::new(s(1));
    p.split(s(1), SplitDirection::Vertical, s(2));
    let rest = p.remove_session(s(1)).unwrap();
    assert_eq!(rest.sessions(), vec![s(2)]);
    assert!(rest.remove_session(s(2)).is_none());
}

#[test]
fn pane_layout_gives_areas_and_dividers() {
    let mut p = Pane::new(s(1));
    p.split(s(1), SplitDirection::Vertical, s(2));
    p.split(s(2), SplitDirection::Horizontal, s(3));
    let mut path = Vec::new();
    let mut panes = Vec::new();
    let mut dividers = Vec::new();
    p.layout(area(0, 0, 80, 24), &mut path, &mut panes, &mut dividers);
    assert!(path.is_empty());
    assert_eq!(
        panes,
        vec![
            (s(1), area(0, 0, 40, 24)),
            (s(2), area(40, 0, 40, 12)),
            (s(3), area(40, 12, 40, 12)),
        ]
    );
    assert_eq!(dividers.len(), 2);
    assert_eq!(dividers[0].path, Vec::<PanePathStep>::new());
    assert_eq!(dividers[0].direction, SplitDirection::Vertical);
    assert_eq!((dividers[0].x, dividers[0].y, dividers[0].cols, dividers[0].rows), (40, 0, 0, 24));
    assert_eq!(dividers[1].path, vec![PanePathStep::Second]);
    assert_eq!(dividers[1].direction, SplitDirection::Horizontal);
    assert_eq!((dividers[1].x, dividers[1].y, dividers[1].cols, dividers[1].rows), (40, 12, 40, 0));
}

#[test]
fn resize_target_is_the_deepest_matching_split() {
    let mut p = Pane::new(s(1));
    p.split(s(1), SplitDirection::Vertical, s(2));
    p.split(s(2), SplitDirection::Horizontal, s(3));
    let mut scratch = Vec::new();
    assert_eq!(
        p.find_resize_target(s(3), SplitDirection::Horizontal, &mut scratch),
        Some(vec![PanePathStep::Second])
    );
    assert_eq!(p.find_resize_target(s(3), SplitDirection::Vertical, &mut scratch), Some(vec![]));
    assert_eq!(p.find_resize_target(s(1), SplitDirection::Horizontal, &mut scratch), None);
    assert!(scratch.is_empty());
}

#[test]
fn resize_split_delta_moves_the_divider() {
    let mut p = Pane::new(s(1));
    p.split(s(1), SplitDirection::Vertical, s(2));
    let full = area(0, 0, 80, 24);
    assert!(p.resize_split_delta(&[], full, SplitDirection::Vertical, 5));
    let mut path = Vec::new();
    let mut panes = Vec::new();
    let mut dividers = Vec::new();
    p.layout(full, &mut path, &mut panes, &mut dividers);
    assert_eq!(panes[0].1.cols, 45);
    assert_eq!(panes[1].1, area(45, 0, 35, 24));
    assert!(!p.resize_split_delta(&[], full, SplitDirection::Horizontal, 5));
    assert!(!p.resize_split_delta(&[PanePathStep::First], full, SplitDirection::Vertical, 5));
}

#[test]
fn resize_split_by_position_puts_the_divider_there() {
    let mut p = Pane::new(s(1));
    p.split(s(1), SplitDirection::Horizontal, s(2));
    let full = area(0, 0, 80, 24);
    assert!(p.resize_split_by_position(&[], full, SplitDirection::Horizontal, 6));
    let mut panes = Vec::new();
    p.layout(full, &mut Vec::new(), &mut panes, &mut Vec::new());
    assert_eq!(panes[0].1.rows, 6);
    assert!(p.resize_split_by_position(&[], full, SplitDirection::Horizontal, 100));
    let mut panes = Vec::new();
    p.layout(full, &mut Vec::new(), &mut panes, &mut Vec::new());
    assert_eq!(panes[0].1.rows, 23);
}

#[test]
fn tab_focus_and_split() {
    let mut t = Tab::new(s(1));
    assert_eq!(t.active_session(), Some(s(1)));
    assert!(t.split_active(SplitDirection::Vertical, s(2)));
    assert_eq!(t.active_session(), Some(s(2)));
    assert_eq!(t.sessions(), vec![s(1), s(2)]);
    assert_eq!(t.focus_next(), Some(s(1)));
    assert_eq!(t.focus_next(), Some(s(2)));
    assert!(t.set_active_session(s(1)));
    assert!(!t.set_active_session(s(7)));
    assert_eq!(t.active_session(), Some(s(1)));
}

#[test]
fn focus_next_cycles_through_every_pane() {
    let mut t = Tab::new(s(1));
    t.split_active(SplitDirection::Vertical, s(2));
    t.split_active(SplitDirection::Horizontal, s(3));
    t.set_active_session(s(1));
    t.split_active(SplitDirection::Horizontal, s(4));
    assert_eq!(t.sessions(), vec![s(1), s(4), s(2), s(3)]);
    let start = t.active_session();
    let mut seen = Vec::new();
    for _ in 0..t.sessions().len() {
        seen.push(t.focus_next().unwrap());
    }
    assert_eq!(seen, vec![s(2), s(3), s(1), s(4)]);
    assert_eq!(t.active_session(), start);
}

#[test]
fn tab_remove_moves_focus_to_the_leftmost_pane() {
    let mut t = Tab::new(s(1));
    t.split_active(SplitDirection::Vertical, s(2));
    t.split_active(SplitDirection::Vertical, s(3));
    assert!(t.remove_session(s(3)));
    assert_eq!(t.active_session(), Some(s(1)));
    assert!(!t.remove_session(s(3)));
    assert!(t.remove_session(s(1)));
    assert!(t.remove_session(s(2)));
    assert!(t.is_empty());
    assert_eq!(t.active_session(), None);
    assert!(!t.split_active(SplitDirection::Vertical, s(4)));
    assert_eq!(t.focus_next(), None);
}

#[test]
fn tab_layout_and_dividers() {
    let mut t = Tab::new(s(1));
    t.split_active(SplitDirection::Horizontal, s(2));
    let full = area(0, 0, 80, 24);
    assert_eq!(t.layout(full), vec![(s(1), area(0, 0, 80, 12)), (s(2), area(0, 12, 80, 12))]);
    let d = t.dividers(full);
    assert_eq!(d.len(), 1);
    assert_eq!((d[0].x, d[0].y, d[0].cols, d[0].rows), (0, 12, 80, 0));
}

#[test]
fn layout_tiles_the_area() {
    let mut t = Tab::new(s(1));
    t.split_active(SplitDirection::Vertical, s(2));
    t.split_active(SplitDirection::Horizontal, s(3));
    t.set_active_session(s(1));
    t.split_active(SplitDirection::Horizontal, s(4));
    t.resize_active_split(area(3, 2, 17, 9), SplitDirection::Horizontal, 1);
    let full = area(3, 2, 17, 9);
    let panes = t.layout(full);
    assert_eq!(panes.len(), 4);
    for col in 0..30u16 {
        for row in 0..20u16 {
            let holders = panes.iter().filter(|p| p.1.contains_global_cell(col, row)).count();
            let expected = if full.contains_global_cell(col, row) { 1 } else { 0 };
            assert_eq!(holders, expected, "cell ({col}, {row})");
        }
    }
}

#[test]
fn layout_covers_the_area_without_overlap() {
    let mut t = Tab::new(s(1));
    t.split_active(SplitDirection::Vertical, s(2));
    t.split_active(SplitDirection::Horizontal, s(3));
    t.set_active_session(s(1));
    t.split_active(SplitDirection::Horizontal, s(4));
    let full = area(65535 - 40, 65535 - 11, 40, 11);
    let panes = t.layout(full);
    let ids: Vec<SessionId> = panes.iter().map(|p| p.0).collect();
    assert_eq!(ids, t.sessions());
    let cells: u32 = panes.iter().map(|p| u32::from(p.1.cols) * u32::from(p.1.rows)).sum();
    assert_eq!(cells, 40 * 11);
    for (i, (_, g)) in panes.iter().enumerate() {
        assert!(g.x >= full.x && g.x as u32 + g.cols as u32 <= full.x as u32 + full.cols as u32);
        assert!(g.y >= full.y && g.y as u32 + g.rows as u32 <= full.y as u32 + full.rows as u32);
        for (_, h) in panes.iter().skip(i + 1) {
            let apart = g.x as u32 + g.cols as u32 <= h.x as u32
                || h.x as u32 + h.cols as u32 <= g.x as u32
                || g.y as u32 + g.rows as u32 <= h.y as u32
                || h.y as u32 + h.rows as u32 <= g.y as u32;
            assert!(apart);
        }
    }
}

#[test]
fn every_drawn_divider_can_be_dragged() {
    let mut t = Tab::new(s(1));
    t.split_active(SplitDirection::Vertical, s(2));
    t.split_active(SplitDirection::Horizontal, s(3));
    let full = area(0, 0, 80, 24);
    let sessions = t.sessions();
    for d in t.dividers(full) {
        let position = match d.direction {
            SplitDirection::Vertical => i32::from(d.x) + 3,
            SplitDirection::Horizontal => i32::from(d.y) - 2,
        };
        assert!(t.resize_split_by_position(full, &d.path, d.direction, position));
        assert_eq!(t.sessions(), sessions);
        assert_eq!(t.active_session(), Some(s(3)));
        let moved = t.dividers(full).into_iter().find(|e| e.path == d.path).unwrap();
        match d.direction {
            SplitDirection::Vertical => assert_eq!(i32::from(moved.x), position),
            SplitDirection::Horizontal => assert_eq!(i32::from(moved.y), position),
        }
    }
}

#[test]
fn tab_resize_active_split() {
    let mut t = Tab::new(s(1));
    t.split_active(SplitDirection::Horizontal, s(2));
    let full = area(0, 0, 80, 24);
    assert!(t.resize_active_split(full, SplitDirection::Horizontal, -2));
    assert_eq!(t.layout(full)[0].1.rows, 10);
    assert!(!t.resize_active_split(full, SplitDirection::Vertical, 1));
    assert!(t.resize_split_by_position(full, &[], SplitDirection::Horizontal, 20));
    assert_eq!(t.layout(full)[0].1.rows, 20);
}

#[test]
fn ui_points() {
    let p = pyonji::ui::Point::new(3u16, 4u16);
    assert_eq!((p.x, p.y), (3, 4));
    let s = pyonji::ui::Size { width: 5u16, height: 6u16 };
    assert_eq!((s.width, s.height), (5, 6));
    assert_ne!(pyonji::ui::Positioning::Relative, pyonji::ui::Positioning::Absolute);
}
