use displayio_pixels::{BlitError, Color, Orientation, Pixel, PixelsDisplay, Point};

fn px(x: i32, y: i32, r: u8, g: u8, b: u8) -> Pixel {
    Pixel { point: Point { x, y }, color: Color { r, g, b } }
}

fn words(d: &PixelsDisplay) -> Vec<u32> {
    let (w, h) = d.get_size();
    (0..(w * h) as usize).map(|i| d.get_pixel(i)).collect()
}

fn source_frame(n: usize, word: impl Fn(u32) -> u32) -> Vec<u8> {
    let mut v = Vec::new();
    for i in 0..n as u32 {
        v.extend_from_slice(&word(i).to_le_bytes());
    }
    v
}

#[test]
fn new_surface_is_portrait_and_zeroed() {
    let d = PixelsDisplay::new(3, 2);
    assert_eq!(d.get_size(), (3, 2));
    assert_eq!(d.get_orientation(), Orientation::PORTRAIT);
    assert_eq!(d.frame().len(), 24);
    assert!(d.frame().iter().all(|b| *b == 0));
}

#[test]
fn orientation_toggle_swaps_and_restores_size() {
    let mut d = PixelsDisplay::new(3, 5);
    d.set_orientation(Orientation::LANDSCAPE);
    assert_eq!(d.get_orientation(), Orientation::LANDSCAPE);
    assert_eq!(d.get_size(), (5, 3));
    d.set_orientation(Orientation::PORTRAIT);
    assert_eq!(d.get_orientation(), Orientation::PORTRAIT);
    assert_eq!(d.get_size(), (3, 5));
}

#[test]
fn setting_current_orientation_changes_nothing() {
    let mut d = PixelsDisplay::new(3, 5);
    d.set_pixel(2, 0xdead_beef);
    let before = d.frame().to_vec();
    d.set_orientation(Orientation::PORTRAIT);
    assert_eq!(d.get_size(), (3, 5));
    assert_eq!(d.frame(), &before[..]);
}

#[test]
fn orientation_toggle_keeps_frame_bytes() {
    let mut d = PixelsDisplay::new(3, 5);
    d.set_pixel(4, 0x0102_0304);
    let before = d.frame().to_vec();
    d.set_orientation(Orientation::LANDSCAPE);
    assert_eq!(d.frame(), &before[..]);
}

#[test]
fn write_bytes_rejects_wrong_length() {
    let mut d = PixelsDisplay::new(4, 4);
    d.set_pixel(0, 7);
    let before = d.frame().to_vec();
    for len in [0usize, 60, 63, 65, 66, 68, 128] {
        let src = vec![1u8; len];
        assert_eq!(d.write_bytes(&src), Err(BlitError::SizeMismatch));
        assert_eq!(d.frame(), &before[..]);
    }
}

#[test]
fn write_bytes_rejects_mapping_past_the_frame() {
    let mut d = PixelsDisplay::new(2, 100);
    let src = vec![9u8; 2 * 100 * 4];
    assert_eq!(d.write_bytes(&src), Err(BlitError::OutOfFrame));
    assert!(d.frame().iter().all(|b| *b == 0));
}

#[test]
fn write_bytes_landscape_rejects_short_frames() {
    let mut d = PixelsDisplay::new(1, 10);
    d.set_orientation(Orientation::LANDSCAPE);
    assert_eq!(d.get_size(), (10, 1));
    assert_eq!(d.write_bytes(&vec![1u8; 40]), Ok(()));
    let mut d = PixelsDisplay::new(2, 10);
    d.set_orientation(Orientation::LANDSCAPE);
    assert_eq!(d.write_bytes(&vec![1u8; 80]), Err(BlitError::OutOfFrame));
}

#[test]
fn write_bytes_zero_source_portrait_4x4() {
    let mut d = PixelsDisplay::new(4, 4);
    for i in 0..16 {
        d.set_pixel(i, 0xffff_ffff);
    }
    assert_eq!(d.write_bytes(&vec![0u8; 64]), Ok(()));
    let w = words(&d);
    for x in 0..4usize {
        for y in 0..4usize {
            let dest = x + y * 4;
            let expect = if x < 3 && y < 3 { 0 } else { 0xffff_ffff };
            assert_eq!(w[dest], expect, "word {}", dest);
        }
    }
}

#[test]
fn write_bytes_zero_source_landscape_4x4() {
    let mut d = PixelsDisplay::new(4, 4);
    d.set_orientation(Orientation::LANDSCAPE);
    for i in 0..16 {
        d.set_pixel(i, 0xffff_ffff);
    }
    assert_eq!(d.write_bytes(&vec![0u8; 64]), Ok(()));
    let w = words(&d);
    let mut written = [false; 16];
    for x in 0..3usize {
        for y in 0..3usize {
            written[(3 - y) + x * 4] = true;
        }
    }
    for i in 0..16 {
        assert_eq!(w[i], if written[i] { 0 } else { 0xffff_ffff }, "word {}", i);
    }
}

#[test]
fn write_bytes_end_to_end_4x4() {
    let src = source_frame(16, |i| i * 0x0101_0101);
    let mut d = PixelsDisplay::new(4, 4);
    assert_eq!(d.write_bytes(&src), Ok(()));
    let w = words(&d);
    for x in 0..3u32 {
        for y in 0..3u32 {
            assert_eq!(w[(x + y * 4) as usize], (x + y * 4) * 0x0101_0101);
        }
    }
    assert_eq!(w[3], 0);
    assert_eq!(w[12], 0);

    let mut d = PixelsDisplay::new(4, 4);
    d.set_orientation(Orientation::LANDSCAPE);
    assert_eq!(d.write_bytes(&src), Ok(()));
    let w = words(&d);
    for x in 0..3u32 {
        for y in 0..3u32 {
            assert_eq!(w[((3 - y) + x * 4) as usize], (x + y * 4) * 0x0101_0101);
        }
    }
    assert_eq!(w[0], 0);
}

#[test]
fn write_bytes_later_column_wins_on_shared_word() {
    // 6x3 portrait: (0, 1) and (4, 0) both land on word 4; column 4 comes later.
    let src = source_frame(18, |i| i + 1);
    let mut d = PixelsDisplay::new(6, 3);
    assert_eq!(d.write_bytes(&src), Ok(()));
    assert_eq!(d.get_pixel(4), 5);
    assert_eq!(d.get_pixel(0), 1);
    assert_eq!(d.get_pixel(8), 11);
    assert_eq!(d.get_pixel(9), 0);
}

#[test]
fn write_bytes_on_empty_and_single_row_surfaces() {
    let mut d = PixelsDisplay::new(0, 0);
    assert_eq!(d.write_bytes(&[]), Ok(()));
    assert_eq!(d.frame().len(), 0);
    let mut d = PixelsDisplay::new(5, 1);
    assert_eq!(d.write_bytes(&vec![3u8; 20]), Ok(()));
    assert!(d.frame().iter().all(|b| *b == 0));
}

#[test]
fn draw_points_clips_right_edge() {
    let mut d = PixelsDisplay::new(4, 3);
    d.draw_points(&[px(4, 0, 10, 20, 30)]);
    assert!(d.frame().iter().all(|b| *b == 0));
}

#[test]
fn draw_points_clips_negative_and_far_points() {
    let mut d = PixelsDisplay::new(4, 3);
    d.draw_points(&[px(-1, 0, 1, 1, 1), px(0, -1, 1, 1, 1), px(0, 3, 1, 1, 1), px(i32::MAX, i32::MIN, 1, 1, 1)]);
    assert!(d.frame().iter().all(|b| *b == 0));
}

#[test]
fn draw_points_writes_last_in_bounds_pixel() {
    let mut d = PixelsDisplay::new(4, 3);
    d.draw_points(&[px(3, 2, 10, 20, 30)]);
    let off = (3 + 2 * 4) * 4;
    assert_eq!(&d.frame()[off..off + 4], &[10, 20, 30, 255]);
    assert_eq!(off + 4, d.frame().len());
    assert!(d.frame()[..off].iter().all(|b| *b == 0));
}

#[test]
fn draw_points_uses_true_row_stride() {
    let mut d = PixelsDisplay::new(7, 3);
    d.draw_points(&[px(1, 2, 1, 2, 3)]);
    let off = (1 + 2 * 7) * 4;
    assert_eq!(&d.frame()[off..off + 4], &[1, 2, 3, 255]);
    assert_eq!(d.frame().iter().filter(|b| **b != 0).count(), 4);
}

#[test]
fn draw_points_last_write_wins() {
    let mut d = PixelsDisplay::new(4, 4);
    d.draw_points(&[px(1, 1, 10, 20, 30), px(2, 0, 5, 5, 5), px(1, 1, 40, 50, 60)]);
    let off = (1 + 4) * 4;
    assert_eq!(&d.frame()[off..off + 4], &[40, 50, 60, 255]);
    assert_eq!(&d.frame()[8..12], &[5, 5, 5, 255]);
}

#[test]
fn set_pixel_reads_back_and_touches_nothing_else() {
    let mut d = PixelsDisplay::new(4, 4);
    d.set_pixel(5, 0x1122_3344);
    assert_eq!(d.get_pixel(5), 0x1122_3344);
    assert_eq!(&d.frame()[20..24], &[0x44, 0x33, 0x22, 0x11]);
    for i in 0..16 {
        if i != 5 {
            assert_eq!(d.get_pixel(i), 0);
        }
    }
    d.set_pixel(15, u32::MAX);
    assert_eq!(d.get_pixel(15), u32::MAX);
    assert_eq!(d.get_pixel(5), 0x1122_3344);
}
