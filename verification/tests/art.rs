use ascii_art::art::generate_ascii_art;
use ascii_art::palette::Palette;
use ascii_art::raster::Image;

fn grey_image(width: u32, height: u32, levels: &[u8]) -> Image {
    let mut samples = Vec::new();
    for level in levels {
        samples.extend_from_slice(&[*level, *level, *level, 255]);
    }
    Image::from_rgba8(width, height, samples).unwrap()
}

#[test]
fn one_pixel_gives_one_glyph() {
    let image = grey_image(1, 1, &[0]);
    assert_eq!(generate_ascii_art(&image, &Palette::shade()), " ");
    let image = grey_image(1, 1, &[255]);
    assert_eq!(generate_ascii_art(&image, &Palette::shade()), "▀");
    assert_eq!(generate_ascii_art(&image, &Palette::short()), "@");
    assert_eq!(generate_ascii_art(&image, &Palette::long()), "~");
}

#[test]
fn one_row_has_no_line_break() {
    let image = grey_image(5, 1, &[0, 64, 128, 192, 255]);
    assert_eq!(generate_ascii_art(&image, &Palette::shade()), " ░█▄▀");
}

#[test]
fn one_column_has_a_line_break_between_rows() {
    let image = grey_image(1, 3, &[0, 128, 255]);
    assert_eq!(generate_ascii_art(&image, &Palette::shade()), " \n█\n▀");
}

#[test]
fn rows_follow_from_the_top_and_glyphs_from_the_left() {
    let image = grey_image(3, 2, &[0, 255, 0, 255, 0, 255]);
    assert_eq!(generate_ascii_art(&image, &Palette::short()), " @ \n@ @");
}

#[test]
fn no_line_break_before_the_first_row_or_after_the_last() {
    let image = grey_image(2, 3, &[255; 6]);
    let art = generate_ascii_art(&image, &Palette::short());
    assert_eq!(art, "@@\n@@\n@@");
    assert!(!art.starts_with('\n'));
    assert!(!art.ends_with('\n'));
}

#[test]
fn image_without_pixels_has_empty_text() {
    for (width, height) in [(0u32, 0u32), (0, 1), (0, 3), (3, 0), (1, 0)] {
        let image = Image::from_rgba8(width, height, Vec::new()).unwrap();
        assert_eq!(generate_ascii_art(&image, &Palette::shade()), "");
    }
}

#[test]
fn line_breaks_are_one_less_than_rows() {
    for (width, height) in [(1u32, 1u32), (1, 2), (4, 1), (3, 5), (7, 7), (2, 40)] {
        let levels = vec![200u8; (width * height) as usize];
        let image = grey_image(width, height, &levels);
        let art = generate_ascii_art(&image, &Palette::long());
        let breaks = art.chars().filter(|glyph| *glyph == '\n').count();
        assert_eq!(breaks, height as usize - 1);
    }
}

#[test]
fn every_row_has_as_many_glyphs_as_the_image_is_wide() {
    for (width, height) in [(1u32, 1u32), (1, 2), (4, 1), (3, 5), (7, 7), (40, 2)] {
        let levels: Vec<u8> = (0..width * height).map(|i| (i * 7 % 256) as u8).collect();
        let image = grey_image(width, height, &levels);
        let art = generate_ascii_art(&image, &Palette::shade());
        let rows: Vec<&str> = art.split('\n').collect();
        assert_eq!(rows.len(), height as usize);
        for row in rows {
            assert_eq!(row.chars().count(), width as usize);
        }
        assert_eq!(art.chars().count(), (height * (width + 1) - 1) as usize);
    }
}

#[test]
fn every_glyph_is_the_one_of_its_pixel() {
    let levels: Vec<u8> = vec![0, 10, 20, 30, 40, 50, 60, 70, 80, 90, 100, 110];
    let image = grey_image(4, 3, &levels);
    let palette = Palette::long();
    let art: Vec<char> = generate_ascii_art(&image, &palette).chars().collect();
    for y in 0..3u32 {
        for x in 0..4u32 {
            let expected = palette.glyph_for(image.get_pixel(x, y));
            assert_eq!(art[(y * 5 + x) as usize], expected);
        }
        if y < 2 {
            assert_eq!(art[(y * 5 + 4) as usize], '\n');
        }
    }
}

#[test]
fn palette_with_a_line_break_glyph_is_written_as_it_is() {
    let palette = Palette::new(vec!['\n', 'x']).unwrap();
    let image = grey_image(2, 2, &[0, 255, 255, 0]);
    assert_eq!(generate_ascii_art(&image, &palette), "\nx\nx\n");
}

#[test]
fn colour_pixels_go_by_their_mean() {
    let samples = vec![255, 0, 0, 255, 255, 255, 0, 255, 0, 0, 0, 0, 255, 255, 255, 0];
    let image = Image::from_rgba8(4, 1, samples).unwrap();
    assert_eq!(generate_ascii_art(&image, &Palette::shade()), "░▄ ▀");
}
