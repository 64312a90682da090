use ssd1322::{ComLayout, ComScanDirection, Config, Display, PixelCoord as Px, Sent, TestSpyInterface};

fn c(cmd: u8) -> Sent {
    Sent::Cmd(cmd)
}

fn d(data: &[u8]) -> Sent {
    Sent::Data(data.to_vec())
}

fn default_config() -> Config {
    Config::new(ComScanDirection::RowZeroLast, ComLayout::DualProgressive)
}

fn expect_init_defaults() {
    let mut disp = Display::new(TestSpyInterface::new(), Px(128, 64), Px(0, 0));
    disp.init(default_config()).unwrap();
    assert_eq!(
        disp.interface().sent_log(),
        &vec![
            c(0xAE),       // sleep enable
            c(0xA4),       // display blank
            c(0xCA),
            d(&[63]),      // mux ratio 64 lines
            c(0xA2),
            d(&[0]),       // display offset 0
            c(0xA1),
            d(&[0]),       // start line 0
            c(0xA0),
            d(&[0b00010100, 0b00010001]), // remapping
            c(0xAF),       // sleep disable
            c(0xA6),       // display normal
        ]
    );
}

fn expect_init_many_options() {
    let mut disp = Display::new(TestSpyInterface::new(), Px(256, 128), Px(0, 0));
    let cfg = default_config()
        .contrast_current(160)
        .phase_lengths(5, 14)
        .clock_fosc_divset(7, 0)
        .display_enhancements(true, false)
        .second_precharge_period(4)
        .precharge_voltage(5)
        .com_deselect_voltage(6);
    disp.init(cfg).unwrap();
    assert_eq!(
        disp.interface().sent_log(),
        &vec![
            c(0xAE),
            c(0xA4),
            c(0xB1),
            d(&[0xE2]),
            c(0xC1),
            d(&[160]),
            c(0xB3),
            d(&[0x70]),
            c(0xB4),
            d(&[0b10100000, 0b10110101]),
            c(0xB6),
            d(&[4]),
            c(0xBB),
            d(&[5]),
            c(0xBE),
            d(&[6]),
            c(0xCA),
            d(&[127]),
            c(0xA2),
            d(&[0]),
            c(0xA1),
            d(&[0]),
            c(0xA0),
            d(&[0b00010100, 0b00010001]),
            c(0xAF),
            c(0xA6),
        ]
    );
}

fn expect_init_row_offset() {
    let mut disp = Display::new(TestSpyInterface::new(), Px(128, 64), Px(0, 32));
    disp.init(default_config()).unwrap();
    assert_eq!(
        disp.interface().sent_log(),
        &vec![
            c(0xAE),
            c(0xA4),
            c(0xCA),
            d(&[63]),
            c(0xA2),
            d(&[32]),
            c(0xA1),
            d(&[0]),
            c(0xA0),
            d(&[0b00010100, 0b00010001]),
            c(0xAF),
            c(0xA6),
        ]
    );
}

fn expect_region_build() {
    let mut disp = Display::new(TestSpyInterface::new(), Px(128, 64), Px(0, 0));
    disp.init(default_config()).unwrap();

    // In range, correctly ordered, and columns in 4s.
    assert!(disp.region(Px(12, 10), Px(20, 12)).is_ok());
    assert!(disp.region(Px(0, 0), Px(128, 64)).is_ok());

    // Columns not in 4s.
    assert!(disp.region(Px(12, 10), Px(21, 12)).is_err());
    assert!(disp.region(Px(13, 10), Px(20, 12)).is_err());

    // Incorrectly ordered.
    assert!(disp.region(Px(20, 10), Px(12, 12)).is_err());
    assert!(disp.region(Px(12, 12), Px(20, 10)).is_err());

    // Column out of range.
    assert!(disp.region(Px(124, 4), Px(132, 6)).is_err());
    // Row out of display range but not buffer range: the display can pan to it.
    assert!(disp.region(Px(12, 60), Px(20, 128)).is_ok());
    // Row out of buffer range.
    assert!(disp.region(Px(4, 60), Px(20, 130)).is_err());
}

#[test]
fn display_init_defaults() {
    expect_init_defaults();
}

#[test]
fn display_init_many_options() {
    expect_init_many_options();
}

#[test]
fn display_init_row_offset() {
    expect_init_row_offset();
}

#[test]
fn display_region_build() {
    expect_region_build();
}

#[test]
fn mod_init_defaults() {
    expect_init_defaults();
}

#[test]
fn mod_init_many_options() {
    expect_init_many_options();
}

#[test]
fn mod_init_row_offset() {
    expect_init_row_offset();
}

#[test]
fn mod_region_build() {
    expect_region_build();
}

#[test]
fn overscanned_region_build() {
    let mut disp = Display::new(TestSpyInterface::new(), Px(128, 64), Px(0, 0));
    disp.init(default_config()).unwrap();

    // Correctly ordered, and columns in 4s.
    assert!(disp.overscanned_region(Px(12, 10), Px(20, 12)).is_ok());
    assert!(disp.overscanned_region(Px(0, 0), Px(128, 64)).is_ok());

    // Columns not in 4s.
    assert!(disp.overscanned_region(Px(12, 10), Px(21, 12)).is_err());
    assert!(disp.overscanned_region(Px(13, 10), Px(20, 12)).is_err());

    // Incorrectly ordered.
    assert!(disp.overscanned_region(Px(20, 10), Px(12, 12)).is_err());
    assert!(disp.overscanned_region(Px(12, 12), Px(20, 10)).is_err());

    // Partially out of range.
    assert!(disp.overscanned_region(Px(-8, 4), Px(12, 6)).is_ok());
    assert!(disp.overscanned_region(Px(4, -5), Px(20, 20)).is_ok());
    assert!(disp.overscanned_region(Px(124, 4), Px(132, 6)).is_ok());
    assert!(disp.overscanned_region(Px(4, 60), Px(20, 130)).is_ok());

    // Entirely out of range.
    assert!(disp.overscanned_region(Px(-16, 130), Px(-4, 160)).is_ok());
    assert!(disp.overscanned_region(Px(128, -16), Px(132, -4)).is_ok());
}
