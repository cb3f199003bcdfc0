use rotating_terminal::pixels::{
    composite_screen_into_atlas, flip_rgba_rows, rotate_rgba_90_ccw, screen_to_atlas_pixels,
    zeroed_bytes, SCREEN_ATLAS_HEIGHT, SCREEN_ATLAS_WIDTH, SCREEN_ATLAS_X, SCREEN_ATLAS_Y,
};

fn image(width: u32, height: u32) -> Vec<u8> {
    // each pixel holds (row, column, index, 255)
    let mut data = Vec::new();
    for y in 0..height {
        for x in 0..width {
            data.extend_from_slice(&[y as u8, x as u8, (y * width + x) as u8, 255]);
        }
    }
    data
}

fn pixel(data: &[u8], width: u32, x: u32, y: u32) -> [u8; 4] {
    let i = ((y * width + x) * 4) as usize;
    [data[i], data[i + 1], data[i + 2], data[i + 3]]
}

#[test]
fn zeroed_bytes_are_zero() {
    assert_eq!(zeroed_bytes(5), vec![0u8; 5]);
    assert!(zeroed_bytes(0).is_empty());
}

#[test]
fn flip_reverses_rows() {
    let src = image(2, 3);
    let out = flip_rgba_rows(2, 3, &src);
    assert_eq!(out.len(), src.len());
    for y in 0..3 {
        for x in 0..2 {
            assert_eq!(pixel(&out, 2, x, y), pixel(&src, 2, x, 2 - y));
        }
    }
}

#[test]
fn flip_zeroes_bytes_past_the_image() {
    let mut src = image(1, 2);
    src.extend_from_slice(&[9, 9, 9]);
    let out = flip_rgba_rows(1, 2, &src);
    assert_eq!(out, vec![1, 0, 1, 255, 0, 0, 0, 255, 0, 0, 0]);
}

#[test]
fn flip_of_empty_image() {
    assert_eq!(flip_rgba_rows(0, 4, &[]), Vec::<u8>::new());
    assert_eq!(flip_rgba_rows(3, 0, &[7, 7]), vec![0, 0]);
}

#[test]
fn flip_twice_is_identity() {
    let src = image(5, 4);
    assert_eq!(flip_rgba_rows(5, 4, &flip_rgba_rows(5, 4, &src)), src);
}

#[test]
fn rotate_quarter_turn_ccw() {
    // 3 wide, 2 tall; turned counter-clockwise it is 2 wide, 3 tall
    let src = image(3, 2);
    let out = rotate_rgba_90_ccw(3, 2, &src);
    assert_eq!(out.len(), src.len());
    // the top-right source pixel becomes the top-left pixel
    assert_eq!(pixel(&out, 2, 0, 0), pixel(&src, 3, 2, 0));
    assert_eq!(pixel(&out, 2, 1, 0), pixel(&src, 3, 2, 1));
    assert_eq!(pixel(&out, 2, 0, 2), pixel(&src, 3, 0, 0));
    assert_eq!(pixel(&out, 2, 1, 2), pixel(&src, 3, 0, 1));
    assert_eq!(pixel(&out, 2, 0, 1), pixel(&src, 3, 1, 0));
}

#[test]
fn rotate_zeroes_bytes_past_the_image() {
    let mut src = image(1, 1);
    src.push(42);
    assert_eq!(rotate_rgba_90_ccw(1, 1, &src), vec![0, 0, 0, 255, 0]);
}

#[test]
fn four_quarter_turns_are_identity() {
    let src = image(4, 3);
    let once = rotate_rgba_90_ccw(4, 3, &src);
    let twice = rotate_rgba_90_ccw(3, 4, &once);
    let thrice = rotate_rgba_90_ccw(4, 3, &twice);
    let four = rotate_rgba_90_ccw(3, 4, &thrice);
    assert_eq!(four, src);
    // two quarter turns are a half turn
    for y in 0..3 {
        for x in 0..4 {
            assert_eq!(pixel(&twice, 4, x, y), pixel(&src, 4, 3 - x, 2 - y));
        }
    }
}

#[test]
fn composite_unscaled_copies_screen() {
    let template = vec![7u8; 6 * 5 * 4];
    let screen = image(2, 2);
    let out = composite_screen_into_atlas(&template, 6, 5, 3, 1, 2, 2, 2, 2, &screen);
    assert_eq!(out.len(), template.len());
    for y in 0..5 {
        for x in 0..6 {
            let inside = (3..5).contains(&x) && (1..3).contains(&y);
            if inside {
                assert_eq!(pixel(&out, 6, x, y), pixel(&screen, 2, x - 3, y - 1));
            } else {
                assert_eq!(pixel(&out, 6, x, y), [7, 7, 7, 7]);
            }
        }
    }
}

#[test]
fn composite_scales_by_nearest_neighbour() {
    let template = vec![0u8; 4 * 4 * 4];
    let screen = image(2, 2);
    let out = composite_screen_into_atlas(&template, 4, 4, 0, 0, 4, 4, 2, 2, &screen);
    // target pixel (3, 1) samples screen pixel (3 * 2 / 4, 1 * 2 / 4) = (1, 0)
    assert_eq!(pixel(&out, 4, 3, 1), pixel(&screen, 2, 1, 0));
    assert_eq!(pixel(&out, 4, 2, 3), pixel(&screen, 2, 1, 1));
    assert_eq!(pixel(&out, 4, 0, 0), pixel(&screen, 2, 0, 0));
}

#[test]
fn composite_drops_pixels_outside_the_atlas() {
    let template = vec![1u8; 2 * 2 * 4 + 3];
    let screen = image(3, 3);
    let out = composite_screen_into_atlas(&template, 2, 2, 1, 1, 3, 3, 3, 3, &screen);
    assert_eq!(out.len(), template.len());
    assert_eq!(pixel(&out, 2, 1, 1), pixel(&screen, 3, 0, 0));
    assert_eq!(pixel(&out, 2, 0, 0), [1, 1, 1, 1]);
    assert_eq!(&out[16..], &[1, 1, 1]);
}

#[test]
fn composite_with_empty_target_keeps_template() {
    let template = vec![5u8; 3 * 3 * 4];
    let out = composite_screen_into_atlas(&template, 3, 3, 0, 0, 0, 0, 0, 0, &[]);
    assert_eq!(out, template);
}

#[test]
fn screen_lands_in_its_atlas_rectangle() {
    let atlas_width = 200u32;
    let atlas_height = 700u32;
    let template = vec![3u8; (atlas_width * atlas_height * 4) as usize];
    let screen = image(56, 42);
    let out = screen_to_atlas_pixels(&template, atlas_width, atlas_height, 56, 42, &screen);
    assert_eq!(out.len(), template.len());
    assert_eq!(pixel(&out, atlas_width, 0, 0), [3, 3, 3, 3]);
    assert_eq!(pixel(&out, atlas_width, SCREEN_ATLAS_X - 1, SCREEN_ATLAS_Y), [3, 3, 3, 3]);
    // the top-left pixel of the rectangle shows the bottom-right corner of the screen:
    // flipped, then turned counter-clockwise
    let flipped = flip_rgba_rows(56, 42, &screen);
    let turned = rotate_rgba_90_ccw(56, 42, &flipped);
    assert_eq!(pixel(&turned, 42, 0, 0), pixel(&screen, 56, 55, 41));
    assert_eq!(pixel(&out, atlas_width, SCREEN_ATLAS_X, SCREEN_ATLAS_Y), pixel(&turned, 42, 0, 0));
    let last_x = SCREEN_ATLAS_X + SCREEN_ATLAS_WIDTH - 1;
    let last_y = SCREEN_ATLAS_Y + SCREEN_ATLAS_HEIGHT - 1;
    assert_eq!(
        pixel(&out, atlas_width, last_x, last_y),
        pixel(&turned, 42, 156 * 42 / 157, 232 * 56 / 233)
    );
    assert_eq!(pixel(&out, atlas_width, last_x + 1, last_y), [3, 3, 3, 3]);
}

#[test]
fn screen_appears_turned_on_the_atlas() {
    let atlas_width = 180u32;
    let atlas_height = 720u32;
    let template = vec![0u8; (atlas_width * atlas_height * 4) as usize];
    let (w, h) = (56u32, 42u32);
    let screen = image(w, h);
    let out = screen_to_atlas_pixels(&template, atlas_width, atlas_height, w, h, &screen);
    for (dx, dy) in [(0u32, 0u32), (5, 100), (156, 232), (80, 7), (150, 3)] {
        let column = w - 1 - dy * w / SCREEN_ATLAS_HEIGHT;
        let row = h - 1 - dx * h / SCREEN_ATLAS_WIDTH;
        assert_eq!(
            pixel(&out, atlas_width, SCREEN_ATLAS_X + dx, SCREEN_ATLAS_Y + dy),
            pixel(&screen, w, column, row)
        );
    }
}

#[test]
fn composite_reads_only_the_sampled_pixels() {
    // a screen with no columns still samples its first four bytes
    let template = vec![0u8; 16];
    let out = composite_screen_into_atlas(&template, 2, 2, 0, 0, 1, 1, 0, 2, &[1, 2, 3, 4]);
    assert_eq!(&out[0..4], &[1, 2, 3, 4]);
    assert_eq!(&out[4..16], &[0u8; 12]);
    // a template that ends with the last pixel the target covers
    let short = vec![5u8; 8];
    let out = composite_screen_into_atlas(&short, 4, 4, 1, 0, 1, 1, 1, 1, &[9, 9, 9, 9]);
    assert_eq!(out, vec![5, 5, 5, 5, 9, 9, 9, 9]);
}
