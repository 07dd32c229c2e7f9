use rusty_dusty::rect::Rectangle;

#[test]
fn test_area() {
    let rect = Rectangle::new(2, 3);
    assert_eq!(rect.area(), 6, "Area calculation failed for 2x3 rectangle");
}

#[test]
fn test_is_square() {
    let square = Rectangle::new(5, 5);
    let rectangle = Rectangle::new(5, 10);

    assert!(square.is_square(), "5x5 should be a square");
    assert!(!rectangle.is_square(), "5x10 should not be a square");
}

#[test]
fn test_multiple_sizes() {
    let test_cases = vec![(2, 3, 6), (4, 4, 16), (5, 2, 10)];

    for (width, height, expected_area) in test_cases {
        let rect = Rectangle::new(width, height);
        assert_eq!(
            rect.area(),
            expected_area,
            "Failed for rectangle {}x{}",
            width,
            height
        );
    }
}

#[test]
fn test_rectangle_creation() {
    let rect = Rectangle::new(5, 10);
    assert_eq!(rect.area(), 50, "Area calculation failed in integration test");
}

#[test]
fn test_multiple_rectangles() {
    let rect1 = Rectangle::new(3, 4);
    let rect2 = Rectangle::new(4, 3);

    assert_eq!(
        rect1.area(),
        rect2.area(),
        "Rectangles with swapped dimensions should have same area"
    );
    assert_eq!(rect1.area(), 12, "Area should be 12 for 3x4 rectangle");
}
