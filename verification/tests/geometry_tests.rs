use rwm::context::{calculate_resize_edges, calculate_resize_edges_near_border, cursor_shape_for_edges, point_in_titlebar, CursorShape};
use rwm::titlebar::{button_at, button_rects, TitlebarButton};
use rwm::window::Window;

#[test]
fn buttons_sit_at_both_ends() {
    let b = button_rects(200, 20);
    assert_eq!((b.close.x, b.close.y, b.close.width, b.close.height), (0, 0, 20, 20));
    assert_eq!(b.maximize.x, 180);
    assert_eq!(b.hide.x, 159);
    assert_eq!((b.hide.width, b.maximize.height), (20, 20));
}

#[test]
fn buttons_never_start_left_of_zero() {
    let b = button_rects(10, 20);
    assert_eq!(b.maximize.x, 0);
    assert_eq!(b.hide.x, 0);
}

#[test]
fn button_under_a_point() {
    // A frame with a 2 pixel border: content starts at (2, 2).
    assert_eq!(button_at(200, 2, 5, 5, 20), Some(TitlebarButton::Close));
    assert_eq!(button_at(200, 2, 2 + 165, 5, 20), Some(TitlebarButton::Hide));
    assert_eq!(button_at(200, 2, 2 + 190, 5, 20), Some(TitlebarButton::Maximize));
    assert_eq!(button_at(200, 2, 2 + 100, 5, 20), None);
    // Below the titlebar and on the border there is no button.
    assert_eq!(button_at(200, 2, 5, 2 + 20, 20), None);
    assert_eq!(button_at(200, 2, 1, 5, 20), None);
    assert_eq!(button_at(0, 2, 5, 5, 20), None);
}

#[test]
fn button_reported_contains_the_point() {
    let b = button_rects(120, 16);
    for x in 0..130 {
        for y in 0..20 {
            if let Some(which) = button_at(120, 0, x, y, 16) {
                let r = match which {
                    TitlebarButton::Close => b.close,
                    TitlebarButton::Hide => b.hide,
                    TitlebarButton::Maximize => b.maximize,
                };
                assert!(r.contains(x, y));
            }
        }
    }
}

#[test]
fn resize_edges_by_quadrant() {
    let mut w = Window::new(1);
    w.x = 100;
    w.y = 100;
    w.width = 200;
    w.height = 100;
    assert_eq!(calculate_resize_edges(&w, 110, 110), 4 | 1);
    assert_eq!(calculate_resize_edges(&w, 290, 110), 8 | 1);
    assert_eq!(calculate_resize_edges(&w, 110, 190), 4 | 2);
    assert_eq!(calculate_resize_edges(&w, 200, 150), 8 | 2);
}

#[test]
fn edges_near_border() {
    // Window (10, 10) 100x50, border 5.
    assert_eq!(calculate_resize_edges_near_border(10, 10, 100, 50, 5, 8, 30), 4);
    assert_eq!(calculate_resize_edges_near_border(10, 10, 100, 50, 5, 112, 30), 8);
    assert_eq!(calculate_resize_edges_near_border(10, 10, 100, 50, 5, 50, 7), 1);
    assert_eq!(calculate_resize_edges_near_border(10, 10, 100, 50, 5, 50, 63), 2);
    assert_eq!(calculate_resize_edges_near_border(10, 10, 100, 50, 5, 8, 7), 4 | 1);
    assert_eq!(calculate_resize_edges_near_border(10, 10, 100, 50, 5, 50, 30), 0);
    assert_eq!(calculate_resize_edges_near_border(10, 10, 100, 50, 5, 200, 30), 0);
    assert_eq!(calculate_resize_edges_near_border(10, 10, 0, 50, 5, 10, 30), 0);
    assert_eq!(calculate_resize_edges_near_border(10, 10, 100, 50, 0, 10, 30), 0);
}

#[test]
fn nearer_edge_wins_on_narrow_windows() {
    // 6 pixels wide with a border of 5: both sides are in reach.
    assert_eq!(calculate_resize_edges_near_border(0, 0, 6, 100, 5, 1, 50), 4);
    assert_eq!(calculate_resize_edges_near_border(0, 0, 6, 100, 5, 5, 50), 8);
}

#[test]
fn cursor_shapes_for_edges() {
    assert!(matches!(cursor_shape_for_edges(4 | 1), Some(CursorShape::NwResize)));
    assert!(matches!(cursor_shape_for_edges(8 | 1), Some(CursorShape::NeResize)));
    assert!(matches!(cursor_shape_for_edges(4 | 2), Some(CursorShape::SwResize)));
    assert!(matches!(cursor_shape_for_edges(8 | 2), Some(CursorShape::SeResize)));
    assert!(matches!(cursor_shape_for_edges(4), Some(CursorShape::WResize)));
    assert!(matches!(cursor_shape_for_edges(8), Some(CursorShape::EResize)));
    assert!(matches!(cursor_shape_for_edges(1), Some(CursorShape::NResize)));
    assert!(matches!(cursor_shape_for_edges(2), Some(CursorShape::SResize)));
    assert!(matches!(cursor_shape_for_edges(12), Some(CursorShape::EwResize)));
    assert!(matches!(cursor_shape_for_edges(3), Some(CursorShape::NsResize)));
    assert!(matches!(cursor_shape_for_edges(15), Some(CursorShape::AllResize)));
    assert!(cursor_shape_for_edges(0).is_none());
    assert!(cursor_shape_for_edges(12 | 1).is_none());
}

#[test]
fn titlebar_sits_above_the_content() {
    assert!(point_in_titlebar(10, 30, 100, 20, 50, 15));
    assert!(point_in_titlebar(10, 30, 100, 20, 10, 10));
    assert!(!point_in_titlebar(10, 30, 100, 20, 50, 31));
    assert!(!point_in_titlebar(10, 30, 100, 20, 111, 15));
    assert!(!point_in_titlebar(10, 30, 0, 20, 10, 15));
}
