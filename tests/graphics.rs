use ata_pio::graphics::{draw_hori_line, draw_pixel, draw_rect, set_pixel, Color, Framebuffer};

#[test]
fn color_from_components() {
    let c = Color::from(1, 2, 3);
    assert_eq!((c.red(), c.green(), c.blue()), (1, 2, 3));
}

#[test]
fn color_from_hex() {
    let c = Color::hex(0x112233);
    assert_eq!((c.red(), c.green(), c.blue()), (0x11, 0x22, 0x33));
    let c = Color::hex(0xFF_A1B2C3);
    assert_eq!((c.red(), c.green(), c.blue()), (0xA1, 0xB2, 0xC3));
    assert_eq!(Color::hex(0x111111), Color::from(0x11, 0x11, 0x11));
}

#[test]
fn framebuffer_shape() {
    assert!(Framebuffer::new(4, 3, 5, 2).is_none());
    assert!(Framebuffer::new(6, 3, 5, 4).is_none());
    assert!(Framebuffer::new(usize::MAX, 3, usize::MAX, 4).is_none());
    let fb = Framebuffer::new(4, 3, 5, 4).unwrap();
    assert_eq!((fb.width(), fb.height()), (4, 3));
}

#[test]
fn pixel_bytes() {
    let mut buf = [0u8; 5];
    set_pixel(&mut buf, 1, Color::from(9, 8, 7));
    assert_eq!(buf, [0, 7, 8, 9, 0]);

    let fb = Framebuffer::new(2, 2, 3, 4).unwrap();
    let mut buf = vec![0u8; 24];
    draw_pixel(&fb, &mut buf, 1, 1, Color::from(1, 2, 3));
    let mut expected = vec![0u8; 24];
    expected[16..19].copy_from_slice(&[3, 2, 1]);
    assert_eq!(buf, expected);
}

#[test]
fn horizontal_line() {
    let fb = Framebuffer::new(3, 2, 4, 3).unwrap();
    let mut buf = vec![0xEEu8; 24];
    draw_hori_line(&fb, &mut buf, 1, 1, 2, Color::hex(0x010203));
    let mut expected = vec![0xEEu8; 24];
    expected[15..21].copy_from_slice(&[3, 2, 1, 3, 2, 1]);
    assert_eq!(buf, expected);
}

#[test]
fn rectangle() {
    let fb = Framebuffer::new(3, 3, 3, 4).unwrap();
    let mut buf = vec![0u8; 36];
    draw_rect(&fb, &mut buf, 1, 1, 2, 2, Color::from(0xAA, 0xBB, 0xCC));
    for i in 0..36 {
        let (row, col, ch) = (i / 12, (i % 12) / 4, i % 4);
        let inside = row >= 1 && col >= 1 && ch < 3;
        let want = if inside { [0xCC, 0xBB, 0xAA][ch] } else { 0 };
        assert_eq!(buf[i], want, "byte {}", i);
    }
}

#[test]
fn empty_rectangle_changes_nothing() {
    let fb = Framebuffer::new(3, 3, 3, 3).unwrap();
    let mut buf = vec![5u8; 27];
    draw_rect(&fb, &mut buf, 0, 0, 0, 3, Color::from(1, 1, 1));
    assert_eq!(buf, vec![5u8; 27]);
}

#[test]
fn buffer_fits_framebuffer() {
    let fb = Framebuffer::new(3, 2, 4, 3).unwrap();
    assert!(fb.fits_buffer(24));
    assert!(!fb.fits_buffer(23));
}
