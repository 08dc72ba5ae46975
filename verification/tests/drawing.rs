use mterm::{Char, Image, Point};

fn cell(img: &Image, x: usize, y: usize) -> (u32, u32, u32) {
    let i = y * img.width + x;
    (img.fore_image[i], img.back_image[i], img.text_image[i])
}

#[test]
fn new_image_has_three_equal_planes() {
    let img = Image::new(7, 5);
    assert_eq!(img.width, 7);
    assert_eq!(img.height, 5);
    assert_eq!(img.fore_image.len(), 35);
    assert_eq!(img.back_image.len(), 35);
    assert_eq!(img.text_image.len(), 35);
    assert!(img.fore_image.iter().all(|&v| v == 0));
    assert!(img.back_image.iter().all(|&v| v == 0));
    assert!(img.text_image.iter().all(|&v| v == 0));
}

#[test]
fn planes_keep_equal_length_after_every_operation() {
    let mut img = Image::new(10, 10);
    img.clear(1, 2);
    img.draw_char(Point::new(3, 3), Char::new(b'x', 5, 6));
    img.draw_string(Point::new(-2, 4), "hello", 7, 8);
    img.draw_rect(Point::new(1, 1), 6, 6, Char::new(b'#', 9, 10));
    img.draw_rect_filled(Point::new(-5, -5), 20, 20, Char::new(b'.', 11, 12));
    assert_eq!(img.fore_image.len(), 100);
    assert_eq!(img.back_image.len(), 100);
    assert_eq!(img.text_image.len(), 100);
}

#[test]
fn draw_char_with_negative_coordinate_is_a_no_op() {
    let mut img = Image::new(4, 4);
    img.clear(10, 20);
    let before_fore = img.fore_image.clone();
    let before_back = img.back_image.clone();
    let before_text = img.text_image.clone();
    img.draw_char(Point::new(-1, 0), Char::new(b'a', 1, 2));
    img.draw_char(Point::new(0, -1), Char::new(b'b', 3, 4));
    img.draw_char(Point::new(-7, -9), Char::new(b'c', 5, 6));
    assert_eq!(img.fore_image, before_fore);
    assert_eq!(img.back_image, before_back);
    assert_eq!(img.text_image, before_text);
}

#[test]
fn draw_char_out_of_bounds_is_a_no_op() {
    let mut img = Image::new(4, 4);
    let before = img.text_image.clone();
    img.draw_char(Point::new(4, 0), Char::new(b'a', 1, 2));
    img.draw_char(Point::new(0, 4), Char::new(b'b', 3, 4));
    assert_eq!(img.text_image, before);
}

#[test]
fn draw_char_writes_one_cell() {
    let mut img = Image::new(4, 4);
    img.draw_char(Point::new(2, 1), Char::new(b'z', 111, 222));
    assert_eq!(cell(&img, 2, 1), (111, 222, b'z' as u32));
    assert_eq!(cell(&img, 1, 2), (0, 0, 0));
    assert_eq!(cell(&img, 0, 0), (0, 0, 0));
}

#[test]
fn clear_sets_every_cell_to_a_space() {
    let mut img = Image::new(6, 3);
    img.draw_char(Point::new(1, 1), Char::new(b'q', 9, 9));
    img.clear(41, 42);
    for y in 0..3 {
        for x in 0..6 {
            assert_eq!(cell(&img, x, y), (41, 42, b' ' as u32));
        }
    }
}

#[test]
fn draw_string_truncates_at_the_right_edge() {
    let mut img = Image::new(10, 3);
    img.clear(1, 2);
    img.draw_string(Point::new(8, 0), "hello", 30, 40);
    assert_eq!(cell(&img, 8, 0), (30, 40, b'h' as u32));
    assert_eq!(cell(&img, 9, 0), (30, 40, b'e' as u32));
    // No wraparound: the rest of the buffer is untouched.
    for y in 0..3 {
        for x in 0..10 {
            if !(y == 0 && x >= 8) {
                assert_eq!(cell(&img, x, y), (1, 2, b' ' as u32));
            }
        }
    }
}

#[test]
fn draw_string_truncates_at_the_left_edge() {
    let mut img = Image::new(10, 1);
    img.draw_string(Point::new(-2, 0), "hello", 1, 2);
    assert_eq!(cell(&img, 0, 0), (1, 2, b'l' as u32));
    assert_eq!(cell(&img, 1, 0), (1, 2, b'l' as u32));
    assert_eq!(cell(&img, 2, 0), (1, 2, b'o' as u32));
    assert_eq!(cell(&img, 3, 0), (0, 0, 0));
}

#[test]
fn draw_string_fully_off_buffer_is_a_no_op() {
    let mut img = Image::new(5, 5);
    img.draw_string(Point::new(0, 5), "hello", 1, 2);
    img.draw_string(Point::new(0, -1), "hello", 1, 2);
    img.draw_string(Point::new(5, 0), "hello", 1, 2);
    img.draw_string(Point::new(-9, 0), "hello", 1, 2);
    assert!(img.text_image.iter().all(|&v| v == 0));
}

#[test]
fn small_rect_degrades_to_filled_rect() {
    let ch = Char::new(b'#', 7, 8);
    let mut filled = Image::new(10, 10);
    filled.draw_rect_filled(Point::new(0, 0), 2, 2, ch);
    let set: usize = filled.text_image.iter().filter(|&&v| v != 0).count();
    assert_eq!(set, 4);

    let mut bordered = Image::new(10, 10);
    bordered.draw_rect(Point::new(0, 0), 2, 2, ch);
    assert_eq!(bordered.fore_image, filled.fore_image);
    assert_eq!(bordered.back_image, filled.back_image);
    assert_eq!(bordered.text_image, filled.text_image);
}

#[test]
fn rect_draws_only_the_border() {
    let ch = Char::new(b'#', 7, 8);
    let mut img = Image::new(8, 8);
    img.draw_rect(Point::new(1, 1), 4, 3, ch);
    for y in 0..8usize {
        for x in 0..8usize {
            let inside = x >= 1 && x < 5 && y >= 1 && y < 4;
            let interior = x >= 2 && x < 4 && y == 2;
            let expected = if inside && !interior {
                (7, 8, b'#' as u32)
            } else {
                (0, 0, 0)
            };
            assert_eq!(cell(&img, x, y), expected, "cell ({}, {})", x, y);
        }
    }
}

#[test]
fn rect_filled_clips_to_the_canvas() {
    let ch = Char::new(b'*', 3, 4);
    let mut img = Image::new(4, 4);
    img.draw_rect_filled(Point::new(-1, 2), 3, 9, ch);
    for y in 0..4usize {
        for x in 0..4usize {
            let inside = x < 2 && y >= 2;
            let expected = if inside { (3, 4, b'*' as u32) } else { (0, 0, 0) };
            assert_eq!(cell(&img, x, y), expected, "cell ({}, {})", x, y);
        }
    }
}

#[test]
fn coords_to_index_is_row_major() {
    let img = Image::new(6, 4);
    assert_eq!(img.coords_to_index(0, 0), Some(0));
    assert_eq!(img.coords_to_index(5, 0), Some(5));
    assert_eq!(img.coords_to_index(0, 1), Some(6));
    assert_eq!(img.coords_to_index(5, 3), Some(23));
    assert_eq!(img.coords_to_index(6, 0), None);
    assert_eq!(img.coords_to_index(0, 4), None);
}

#[test]
fn clip_shrinks_negative_anchors_and_clamps_extents() {
    let img = Image::new(10, 8);
    assert_eq!(img.clip(Point::new(2, 3), 4, 4), (2, 3, 4, 4));
    assert_eq!(img.clip(Point::new(-3, 0), 5, 1), (0, 0, 2, 1));
    assert_eq!(img.clip(Point::new(8, 6), 5, 5), (8, 6, 2, 2));
    assert_eq!(img.clip(Point::new(-9, -9), 4, 4), (0, 0, 0, 0));
    assert_eq!(img.clip(Point::new(12, 0), 4, 4), (12, 0, 0, 4));
}
