use lithophane_creator::{ImageDimensions, InvalidPointsError};

#[test]
fn invalid_points_error_message() {
    let e = InvalidPointsError {};
    assert_eq!(e.message(), "all three points for this triangle are in the same line");
}

#[test]
fn image_dimensions_carries_size() {
    let d = ImageDimensions { width: 640, height: 480 };
    assert_eq!(d.width, 640);
    assert_eq!(d.height, 480);
}
