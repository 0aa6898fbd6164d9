use ascii_art::raster::{Image, Pixel};
use ascii_art::scale::{resize_image, target_side};

fn coordinates_image(width: u32, height: u32) -> Image {
    let mut samples = Vec::new();
    for y in 0..height {
        for x in 0..width {
            samples.extend_from_slice(&[x as u8, y as u8, (x + y) as u8, 255]);
        }
    }
    Image::from_rgba8(width, height, samples).unwrap()
}

fn at(x: u8, y: u8) -> Pixel {
    Pixel { r: x, g: y, b: x + y, a: 255 }
}

#[test]
fn target_side_divides_and_rounds_down() {
    assert_eq!(target_side(8, 4), 2);
    assert_eq!(target_side(4, 4), 1);
    assert_eq!(target_side(7, 4), 1);
    assert_eq!(target_side(3, 4), 0);
    assert_eq!(target_side(0, 4), 0);
    assert_eq!(target_side(5, 1), 5);
    assert_eq!(target_side(100, 7), 14);
    assert_eq!(target_side(u32::MAX, 1), u32::MAX);
    assert_eq!(target_side(u32::MAX, u32::MAX), 1);
}

#[test]
fn target_side_for_factor_zero_is_zero() {
    assert_eq!(target_side(8, 0), 0);
    assert_eq!(target_side(0, 0), 0);
    assert_eq!(target_side(u32::MAX, 0), 0);
}

#[test]
fn reduced_image_has_both_sides_divided() {
    let cases = [(8u32, 4u32, 4u32), (4, 4, 4), (9, 5, 4), (7, 7, 2), (100, 7, 4), (7, 100, 4),
        (12, 8, 3), (5, 3, 1), (16, 16, 16), (31, 17, 5)];
    for (width, height, scale) in cases {
        let reduced = resize_image(&coordinates_image(width, height), scale);
        assert_eq!(reduced.width(), width / scale);
        assert_eq!(reduced.height(), height / scale);
        let pixels = (width / scale) as usize * (height / scale) as usize;
        assert_eq!(reduced.samples().len(), 4 * pixels);
    }
}

#[test]
fn reduced_image_keeps_no_pixel_where_a_side_becomes_zero() {
    let cases = [(3u32, 3u32, 4u32), (3, 8, 4), (8, 3, 4), (1, 1, 2), (0, 0, 4), (0, 9, 3),
        (9, 0, 3)];
    for (width, height, scale) in cases {
        let reduced = resize_image(&coordinates_image(width, height), scale);
        assert_eq!(reduced.width(), width / scale);
        assert_eq!(reduced.height(), height / scale);
        assert!(reduced.samples().is_empty());
    }
}

#[test]
fn factor_zero_leaves_nothing() {
    let reduced = resize_image(&coordinates_image(8, 8), 0);
    assert_eq!(reduced.width(), 0);
    assert_eq!(reduced.height(), 0);
    assert!(reduced.samples().is_empty());
}

#[test]
fn factor_one_keeps_every_pixel() {
    let image = coordinates_image(5, 3);
    let reduced = resize_image(&image, 1);
    assert_eq!(reduced.width(), 5);
    assert_eq!(reduced.height(), 3);
    assert_eq!(reduced.samples(), image.samples());
}

#[test]
fn reducing_leaves_the_image_as_it_was() {
    let image = coordinates_image(8, 8);
    let before = image.samples().clone();
    let _ = resize_image(&image, 4);
    assert_eq!(image.width(), 8);
    assert_eq!(image.height(), 8);
    assert_eq!(image.samples(), &before);
}

#[test]
fn reduced_pixels_are_picked_from_the_image() {
    let reduced = resize_image(&coordinates_image(8, 8), 4);
    assert_eq!(reduced.get_pixel(0, 0), at(2, 2));
    assert_eq!(reduced.get_pixel(1, 0), at(6, 2));
    assert_eq!(reduced.get_pixel(0, 1), at(2, 6));
    assert_eq!(reduced.get_pixel(1, 1), at(6, 6));
}

#[test]
fn reduced_pixels_by_factor_two() {
    let reduced = resize_image(&coordinates_image(4, 2), 2);
    assert_eq!(reduced.width(), 2);
    assert_eq!(reduced.height(), 1);
    assert_eq!(reduced.get_pixel(0, 0), at(1, 1));
    assert_eq!(reduced.get_pixel(1, 0), at(3, 1));
}

#[test]
fn reduced_pixels_where_the_sides_do_not_divide() {
    let reduced = resize_image(&coordinates_image(9, 7), 4);
    assert_eq!(reduced.width(), 2);
    assert_eq!(reduced.height(), 1);
    assert_eq!(reduced.get_pixel(0, 0), at(2, 3));
    assert_eq!(reduced.get_pixel(1, 0), at(6, 3));
}

#[test]
fn every_reduced_pixel_is_a_pixel_of_the_image() {
    let image = coordinates_image(37, 23);
    for scale in 1..=8u32 {
        let reduced = resize_image(&image, scale);
        for y in 0..reduced.height() {
            for x in 0..reduced.width() {
                let pixel = reduced.get_pixel(x, y);
                assert!(u32::from(pixel.r) < 37 && u32::from(pixel.g) < 23);
                assert_eq!(pixel, image.get_pixel(pixel.r.into(), pixel.g.into()));
            }
        }
    }
}

#[test]
fn solid_image_stays_solid() {
    let samples: Vec<u8> = [7u8, 77, 177, 200].iter().cycle().take(4 * 12 * 8).cloned().collect();
    let reduced = resize_image(&Image::from_rgba8(12, 8, samples).unwrap(), 4);
    for y in 0..2 {
        for x in 0..3 {
            assert_eq!(reduced.get_pixel(x, y), Pixel { r: 7, g: 77, b: 177, a: 200 });
        }
    }
}
