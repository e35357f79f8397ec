use bell::configuration::Color;
use bell::render::{border_layout, BorderRect, Canvas, Corner};

#[test]
fn canvases_clear_and_rescale() {
    let mut c = Canvas::new(3, 2, Color(0xFF000000));
    assert_eq!(c.get_backing_store(), &vec![0; 6]);
    c.clear(None);
    assert!(c.backing_store.iter().all(|p| *p == 0xFF000000));
    c.clear(Some(Color(7)));
    c.set_buffer_scale(2);
    assert_eq!(c.buffer_scale, 2);
    assert_eq!(c.backing_store_stride, 6);
    assert_eq!(c.backing_store.len(), 24);
    assert_eq!(c.backing_store[5], 7);
    assert_eq!(c.backing_store[6], 0xFF000000);
    c.set_buffer_scale(2);
    assert_eq!(c.backing_store.len(), 24);
    c.set_buffer_scale(1);
    assert_eq!(c.backing_store.len(), 6);
}

#[test]
fn negative_positions_count_from_the_far_edge() {
    let c = Canvas::new(100, 50, Color(0));
    assert_eq!(c.wrap_position(10, 20), (10, 20));
    assert_eq!(c.wrap_position(-10, -20), (90, 30));
}

#[test]
fn rectangles_are_filled_at_scale() {
    let mut c = Canvas::new(4, 3, Color(0));
    c.fill_rect(1, 1, 2, 1, Color(9));
    let expected: Vec<u32> = vec![0, 0, 0, 0, 0, 9, 9, 0, 0, 0, 0, 0];
    assert_eq!(c.backing_store, expected);
    let mut c = Canvas::new(2, 2, Color(0));
    c.set_buffer_scale(2);
    c.fill_rect(1, 0, 1, 1, Color(5));
    assert_eq!(&c.backing_store[0..8], &[0, 0, 5, 5, 0, 0, 5, 5]);
}

#[test]
fn borders_run_between_the_corners() {
    let l = border_layout(100, 50, 2, Some(4)).unwrap();
    assert_eq!(
        l.sides,
        vec![
            BorderRect { x: 4, y: 0, width: 92, height: 2 },
            BorderRect { x: 4, y: -2, width: 92, height: 2 },
            BorderRect { x: 0, y: 4, width: 2, height: 42 },
            BorderRect { x: -2, y: 4, width: 2, height: 42 },
        ]
    );
    assert_eq!(
        l.corners,
        vec![(Corner::TopLeft, 4, 4), (Corner::TopRight, -4, 4), (Corner::BottomLeft, 4, -4), (Corner::BottomRight, -4, -4)]
    );
    assert!(border_layout(100, 50, 2, None).unwrap().corners.is_empty());
    assert!(border_layout(6, 50, 2, Some(4)).is_none());
}
