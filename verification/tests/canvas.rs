use image::GenericImageView;
use raytracer::canvas::{settle_sample, Canvas, CanvasError};
use raytracer::color::Color;

fn canvas(width: i32, height: i32) -> Canvas {
    match Canvas::new(width, height) {
        Ok(canvas) => canvas,
        Err(e) => panic!("a {} by {} canvas was refused: {:?}", width, height, e),
    }
}

fn refused(width: i32, height: i32) -> CanvasError {
    match Canvas::new(width, height) {
        Ok(_) => panic!("a {} by {} canvas was accepted", width, height),
        Err(e) => e,
    }
}

#[test]
fn a_canvas_without_pixels_is_refused() {
    assert_eq!(refused(0, 10), CanvasError::Dimensions);
    assert_eq!(refused(10, 0), CanvasError::Dimensions);
    assert_eq!(refused(0, 0), CanvasError::Dimensions);
}

#[test]
fn a_negative_size_is_refused() {
    assert_eq!(refused(-1, 10), CanvasError::Dimensions);
    assert_eq!(refused(10, -1), CanvasError::Dimensions);
    assert_eq!(refused(i32::MIN, i32::MIN), CanvasError::Dimensions);
}

#[test]
fn a_new_canvas_has_its_size() {
    let c = canvas(4, 3);
    assert_eq!(c.width(), 4);
    assert_eq!(c.height(), 3);
}

#[test]
fn a_new_canvas_is_black() {
    let c = canvas(4, 3);
    for y in 0..3 {
        for x in 0..4 {
            assert_eq!(c.get_pixel(x, y), Some(Color(0, 0, 0)));
        }
    }
    let stored = c.flush();
    assert_eq!(stored.dimensions(), (4, 3));
    for y in 0..3 {
        for x in 0..4 {
            assert_eq!(stored.get_pixel(x, y), image::Rgba([0, 0, 0, 255]));
        }
    }
}

#[test]
fn get_pixel_outside_the_canvas_is_none() {
    let c = canvas(4, 3);
    assert_eq!(c.get_pixel(4, 0), None);
    assert_eq!(c.get_pixel(0, 3), None);
    assert_eq!(c.get_pixel(-1, 0), None);
    assert_eq!(c.get_pixel(0, -1), None);
    assert_eq!(c.get_pixel(3, 2), Some(Color(0, 0, 0)));
}

#[test]
fn put_pixel_sets_one_pixel_and_no_other() {
    let mut c = canvas(4, 3);
    c.put_pixel(1, 2, Color(10, 20, 30));
    for y in 0..3 {
        for x in 0..4 {
            let expected = if (x, y) == (1, 2) { Color(10, 20, 30) } else { Color(0, 0, 0) };
            assert_eq!(c.get_pixel(x, y), Some(expected));
        }
    }
}

#[test]
fn put_pixel_overwrites() {
    let mut c = canvas(2, 2);
    c.put_pixel(0, 0, Color(1, 2, 3));
    c.put_pixel(0, 0, Color(4, 5, 6));
    assert_eq!(c.get_pixel(0, 0), Some(Color(4, 5, 6)));
}

#[test]
fn put_pixel_reaches_the_stored_image() {
    let mut c = canvas(4, 3);
    c.put_pixel(1, 0, Color(10, 20, 30));
    c.put_pixel(3, 2, Color(200, 100, 50));
    let stored = c.flush();
    // Row 0 of the canvas is the bottom row of the picture.
    assert_eq!(stored.get_pixel(1, 2), image::Rgba([10, 20, 30, 255]));
    assert_eq!(stored.get_pixel(3, 0), image::Rgba([200, 100, 50, 255]));
    assert_eq!(stored.get_pixel(1, 0), image::Rgba([0, 0, 0, 255]));
    assert_eq!(stored.get_pixel(0, 0), image::Rgba([0, 0, 0, 255]));
}

#[test]
fn flush_turns_the_rows_upside_down() {
    let mut c = canvas(2, 3);
    for y in 0..3u8 {
        for x in 0..2u8 {
            c.put_pixel(x as isize, y as isize, Color(x, y, 9));
        }
    }
    let stored = c.flush();
    assert_eq!(stored.dimensions(), (2, 3));
    for y in 0..3u8 {
        for x in 0..2u8 {
            assert_eq!(
                stored.get_pixel(x as u32, (2 - y) as u32),
                image::Rgba([x, y, 9, 255])
            );
        }
    }
}

#[test]
fn flush_leaves_the_canvas_as_it_was() {
    let mut c = canvas(2, 2);
    c.put_pixel(0, 1, Color(7, 8, 9));
    let _ = c.flush();
    assert_eq!(c.get_pixel(0, 1), Some(Color(7, 8, 9)));
    assert_eq!(c.get_pixel(0, 0), Some(Color(0, 0, 0)));
}

#[test]
fn centered_offsets_of_an_even_canvas() {
    let c = canvas(100, 100);
    assert_eq!(c.centered(50, 50), Some((0, 0)));
    assert_eq!(c.centered(0, 0), Some((-50, -50)));
    assert_eq!(c.centered(99, 99), Some((49, 49)));
}

#[test]
fn centered_offsets_of_an_odd_canvas() {
    let c = canvas(5, 3);
    assert_eq!(c.centered(0, 0), Some((-2, -1)));
    assert_eq!(c.centered(2, 1), Some((0, 0)));
    assert_eq!(c.centered(4, 2), Some((2, 1)));
}

#[test]
fn centered_outside_the_canvas_is_none() {
    let c = canvas(5, 3);
    assert_eq!(c.centered(5, 0), None);
    assert_eq!(c.centered(0, 3), None);
    assert_eq!(c.centered(-1, 0), None);
    assert_eq!(c.centered(0, -1), None);
}

#[test]
fn draw_paints_column_by_column() {
    let mut c = canvas(2, 3);
    let samples: Vec<Option<Color>> = (0..6u8).map(|k| Some(Color(k, k, k))).collect();
    assert_eq!(c.draw(&samples, Color::white()), Ok(()));
    // Sample x * height + y belongs to pixel (x, y).
    assert_eq!(c.get_pixel(0, 0), Some(Color(0, 0, 0)));
    assert_eq!(c.get_pixel(0, 1), Some(Color(1, 1, 1)));
    assert_eq!(c.get_pixel(0, 2), Some(Color(2, 2, 2)));
    assert_eq!(c.get_pixel(1, 0), Some(Color(3, 3, 3)));
    assert_eq!(c.get_pixel(1, 1), Some(Color(4, 4, 4)));
    assert_eq!(c.get_pixel(1, 2), Some(Color(5, 5, 5)));
}

#[test]
fn draw_fills_misses_with_the_background() {
    let mut c = canvas(2, 2);
    let samples = vec![Some(Color(1, 2, 3)), None, None, Some(Color(4, 5, 6))];
    assert_eq!(c.draw(&samples, Color(9, 9, 9)), Ok(()));
    assert_eq!(c.get_pixel(0, 0), Some(Color(1, 2, 3)));
    assert_eq!(c.get_pixel(0, 1), Some(Color(9, 9, 9)));
    assert_eq!(c.get_pixel(1, 0), Some(Color(9, 9, 9)));
    assert_eq!(c.get_pixel(1, 1), Some(Color(4, 5, 6)));
}

#[test]
fn a_frame_without_hits_is_all_background() {
    let mut c = canvas(7, 5);
    let samples: Vec<Option<Color>> = vec![None; 35];
    assert_eq!(c.draw(&samples, Color::white()), Ok(()));
    let stored = c.flush();
    for y in 0..5 {
        for x in 0..7 {
            assert_eq!(c.get_pixel(x, y), Some(Color(255, 255, 255)));
            assert_eq!(stored.get_pixel(x as u32, y as u32), image::Rgba([255, 255, 255, 255]));
        }
    }
}

#[test]
fn draw_covers_the_last_column_of_an_odd_canvas() {
    let mut c = canvas(3, 1);
    let samples = vec![Some(Color(1, 1, 1)), Some(Color(2, 2, 2)), Some(Color(3, 3, 3))];
    assert_eq!(c.draw(&samples, Color::white()), Ok(()));
    assert_eq!(c.get_pixel(2, 0), Some(Color(3, 3, 3)));
}

#[test]
fn draw_refuses_a_frame_of_the_wrong_length() {
    let mut c = canvas(2, 2);
    c.put_pixel(1, 1, Color(5, 5, 5));
    let short = vec![Some(Color(1, 1, 1)); 3];
    assert_eq!(c.draw(&short, Color::white()), Err(CanvasError::SampleCount));
    let long = vec![Some(Color(1, 1, 1)); 5];
    assert_eq!(c.draw(&long, Color::white()), Err(CanvasError::SampleCount));
    assert_eq!(c.draw(&Vec::new(), Color::white()), Err(CanvasError::SampleCount));
    assert_eq!(c.get_pixel(0, 0), Some(Color(0, 0, 0)));
    assert_eq!(c.get_pixel(1, 1), Some(Color(5, 5, 5)));
}

#[test]
fn draw_reaches_the_stored_image() {
    let mut c = canvas(2, 2);
    let samples = vec![Some(Color(1, 2, 3)), None, None, Some(Color(4, 5, 6))];
    assert_eq!(c.draw(&samples, Color(9, 9, 9)), Ok(()));
    let stored = c.flush();
    assert_eq!(stored.get_pixel(0, 1), image::Rgba([1, 2, 3, 255]));
    assert_eq!(stored.get_pixel(0, 0), image::Rgba([9, 9, 9, 255]));
    assert_eq!(stored.get_pixel(1, 1), image::Rgba([9, 9, 9, 255]));
    assert_eq!(stored.get_pixel(1, 0), image::Rgba([4, 5, 6, 255]));
}

#[test]
fn a_traced_ray_keeps_its_sample() {
    assert_eq!(settle_sample(Ok(Some(Color(1, 2, 3))), Color(255, 0, 255)), Some(Color(1, 2, 3)));
    assert_eq!(settle_sample(Ok(None), Color(255, 0, 255)), None);
}

#[test]
fn a_ray_that_could_not_be_traced_shows_the_sentinel() {
    assert_eq!(settle_sample(Err(()), Color(255, 0, 255)), Some(Color(255, 0, 255)));
    assert_eq!(settle_sample(Err(()), Color(0, 0, 0)), Some(Color(0, 0, 0)));
}
