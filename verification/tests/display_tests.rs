use cyders::display::colors;
use cyders::display::{
    convert_frame, encode_rgb565, expand_5bit, expand_6bit, rgb565_channels, Display,
    DISPLAY_HEIGHT, DISPLAY_WIDTH, FRAMEBUFFER_SIZE,
};

#[test]
fn test_rgb565_conversion() {
    // Test pure red (0b11111_000000_00000)
    let red = 0xF800u16;
    let (r5, g6, b5) = rgb565_channels(red);

    assert_eq!(r5, 31);
    assert_eq!(g6, 0);
    assert_eq!(b5, 0);

    let r8 = expand_5bit(r5);
    assert_eq!(r8, 255);
}

#[test]
fn test_framebuffer_size() {
    assert_eq!(FRAMEBUFFER_SIZE, 76800);
}

#[test]
fn channel_widening_ends() {
    assert_eq!(expand_5bit(0), 0);
    assert_eq!(expand_5bit(31), 255);
    assert_eq!(expand_5bit(16), 132);
    assert_eq!(expand_6bit(0), 0);
    assert_eq!(expand_6bit(63), 255);
    assert_eq!(expand_6bit(32), 130);
}

#[test]
fn color_constants_decode() {
    assert_eq!(rgb565_channels(colors::GREEN), (0, 63, 0));
    assert_eq!(rgb565_channels(colors::BLUE), (0, 0, 31));
    assert_eq!(rgb565_channels(colors::WHITE), (31, 63, 31));
    assert_eq!(rgb565_channels(colors::BLACK), (0, 0, 0));
    assert_eq!(rgb565_channels(colors::GRAY), (15, 31, 15));
    assert_eq!(encode_rgb565(31, 63, 0), colors::YELLOW);
    assert_eq!(encode_rgb565(31, 0, 31), colors::MAGENTA);
    assert_eq!(encode_rgb565(0, 63, 31), colors::CYAN);
}

#[test]
fn frame_conversion() {
    let fb = vec![colors::RED, colors::WHITE, 0x0841u16];
    let mut frame = vec![7u8; 14];
    convert_frame(&fb, &mut frame);
    assert_eq!(&frame[0..4], &[255, 0, 0, 255]);
    assert_eq!(&frame[4..8], &[255, 255, 255, 255]);
    // 0x0841: r=1, g=2, b=1
    assert_eq!(&frame[8..12], &[8, 8, 8, 255]);
    assert_eq!(&frame[12..14], &[7, 7]);
}

#[test]
fn fill_and_pattern() {
    let mut fb = vec![0u16; FRAMEBUFFER_SIZE];
    Display::fill(&mut fb, colors::BLUE);
    assert!(fb.iter().all(|&p| p == colors::BLUE));
    Display::test_pattern(&mut fb);
    assert_eq!(fb[0], 0);
    // bottom-right corner: r = 319*32/320 = 31, g = 239*64/240 = 63, b = 558*32/560 = 31
    assert_eq!(fb[(DISPLAY_HEIGHT - 1) * DISPLAY_WIDTH + DISPLAY_WIDTH - 1], 0xFFFF);
    // (x=10, y=0): r = 1, g = 0, b = 0
    assert_eq!(fb[10], 1 << 11);
}

#[test]
fn render_only_when_dirty() {
    let mut d = Display::new();
    let fb = vec![colors::RED];
    let mut frame = vec![0u8; 4];
    assert!(d.render(&fb, &mut frame));
    assert_eq!(frame, vec![255, 0, 0, 255]);
    d.rendered();
    assert!(!d.is_dirty());
    let fb2 = vec![colors::BLUE];
    assert!(!d.render(&fb2, &mut frame));
    assert_eq!(frame, vec![255, 0, 0, 255]);
    d.mark_dirty();
    assert!(d.render(&fb2, &mut frame));
    assert_eq!(frame, vec![0, 0, 255, 255]);
}
