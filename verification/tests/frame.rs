use ray::Frame;
use ray::Rgb8;

fn grey(level: u8) -> Rgb8 {
    Rgb8 { r: level, g: level, b: level }
}

#[test]
fn new_frame_has_given_size() {
    let frame = Frame::new(4, 3);
    assert_eq!(frame.dimensions(), (4, 3));
}

#[test]
fn new_frame_is_black() {
    let frame = Frame::new(4, 3);
    assert_eq!(frame.into_raw(), vec![0u8; 36]);
}

#[test]
fn empty_frame_has_no_bytes() {
    let frame = Frame::new(0, 7);
    assert_eq!(frame.dimensions(), (0, 7));
    assert_eq!(frame.into_raw(), Vec::<u8>::new());
}

#[test]
fn put_pixel_sets_the_three_bytes_of_one_pixel() {
    let mut frame = Frame::new(3, 2);
    frame.put_pixel(1, 0, Rgb8 { r: 10, g: 20, b: 30 });
    assert_eq!(
        frame.into_raw(),
        vec![0, 0, 0, 10, 20, 30, 0, 0, 0, 0, 0, 0, 0, 0, 0, 0, 0, 0]
    );
}

#[test]
fn put_pixel_counts_rows_from_the_top() {
    let mut frame = Frame::new(3, 2);
    frame.put_pixel(2, 1, Rgb8 { r: 1, g: 2, b: 3 });
    assert_eq!(
        frame.into_raw(),
        vec![0, 0, 0, 0, 0, 0, 0, 0, 0, 0, 0, 0, 0, 0, 0, 1, 2, 3]
    );
}

#[test]
fn put_pixel_keeps_the_size() {
    let mut frame = Frame::new(5, 4);
    frame.put_pixel(4, 3, grey(9));
    assert_eq!(frame.dimensions(), (5, 4));
}

#[test]
fn later_put_pixel_replaces_earlier_one() {
    let mut frame = Frame::new(2, 2);
    frame.put_pixel(0, 1, grey(5));
    frame.put_pixel(0, 1, grey(7));
    frame.put_pixel(1, 1, grey(8));
    assert_eq!(frame.into_raw(), vec![0, 0, 0, 0, 0, 0, 7, 7, 7, 8, 8, 8]);
}

#[test]
fn raw_bytes_load_as_an_image_of_the_same_size() {
    let mut frame = Frame::new(3, 2);
    frame.put_pixel(2, 0, Rgb8 { r: 200, g: 100, b: 50 });
    let picture = image::RgbImage::from_raw(3, 2, frame.into_raw()).unwrap();
    assert_eq!(picture.get_pixel(2, 0).0, [200, 100, 50]);
    assert_eq!(picture.get_pixel(0, 1).0, [0, 0, 0]);
}
