use xhc_core::rectangle::Rectangle;
use xhc_core::vector::Size;
use xhc_core::vector::Vector2D;

#[test]
fn it_partial_eq_rectangle() {
    let r1 = Rectangle::new(Vector2D::new(0, 0), Vector2D::new(100, 100));
    let r2 = Rectangle::new(Vector2D::new(0, 0), Vector2D::new(100, 100));
    assert_eq!(r1, r2);
}

#[test]
fn it_partial_ne_rectangle() {
    let r1 = Rectangle::new(Vector2D::new(0, 0), Vector2D::new(10, 100));
    let r2 = Rectangle::new(Vector2D::new(0, 0), Vector2D::new(100, 100));
    assert_ne!(r1, r2);
}

#[test]
fn rectangle_hands_back_its_corners() {
    let r = Rectangle::new(Vector2D::new(3usize, 4usize), Vector2D::new(13usize, 24usize));
    assert_eq!(r.origin(), Vector2D::new(3, 4));
    assert_eq!(r.end(), Vector2D::new(13, 24));
    assert_eq!(r.origin().x(), 3);
    assert_eq!(r.end().y(), 24);
}

#[test]
fn rectangle_width_and_height_are_the_distances_of_the_corners() {
    let r = Rectangle::new(Vector2D::new(3usize, 4usize), Vector2D::new(13usize, 24usize));
    assert_eq!(r.width(), 10);
    assert_eq!(r.height(), 20);
}

#[test]
fn rectangle_with_corners_the_wrong_way_round_is_empty() {
    let r = Rectangle::new(Vector2D::new(13usize, 24usize), Vector2D::new(3usize, 4usize));
    assert_eq!(r.width(), 0);
    assert_eq!(r.height(), 0);
}

#[test]
fn size_hands_back_width_and_height() {
    let size = Size::new(640, 480);
    assert_eq!(size.width(), 640);
    assert_eq!(size.height(), 480);
    assert_eq!(Vector2D::zeros(), Vector2D::new(0usize, 0usize));
}
