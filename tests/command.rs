use ssd1322::{
    BufCommand, ColumnRemap, ComLayout, ComScanDirection, Command, DisplayMode, Error,
    IncrementAxis, NibbleRemap, Sent, SpyFault, TestSpyInterface,
};

fn check(di: &TestSpyInterface, cmd: u8, data: &[u8]) {
    let sent = di.sent_log();
    if data.len() == 0 {
        assert_eq!(sent.len(), 1);
    } else {
        assert_eq!(sent.len(), 2);
        assert_eq!(sent[1], Sent::Data(data.to_vec()));
    }
    assert_eq!(sent[0], Sent::Cmd(cmd));
}

const INVALID: Result<(), Error<SpyFault>> = Err(Error::InvalidArgument);

#[test]
fn set_column_address() {
    let mut di = TestSpyInterface::new();
    Command::SetColumnAddress(23, 42).send(&mut di).unwrap();
    check(&di, 0x15, &[23, 42]);
    assert_eq!(Command::SetColumnAddress(120, 42).send(&mut di), INVALID);
    assert_eq!(Command::SetColumnAddress(23, 255).send(&mut di), INVALID);
}

#[test]
fn set_row_address() {
    let mut di = TestSpyInterface::new();
    Command::SetRowAddress(23, 42).send(&mut di).unwrap();
    check(&di, 0x75, &[23, 42]);
    assert_eq!(Command::SetRowAddress(128, 42).send(&mut di), INVALID);
    assert_eq!(Command::SetRowAddress(23, 255).send(&mut di), INVALID);
}

#[test]
fn set_remapping() {
    let mut di = TestSpyInterface::new();
    Command::SetRemapping(
        IncrementAxis::Horizontal,
        ColumnRemap::Forward,
        NibbleRemap::Reverse,
        ComScanDirection::RowZeroFirst,
        ComLayout::Progressive,
    )
    .send(&mut di)
    .unwrap();
    check(&di, 0xA0, &[0x00, 0x01]);

    di.clear();
    Command::SetRemapping(
        IncrementAxis::Vertical,
        ColumnRemap::Reverse,
        NibbleRemap::Forward,
        ComScanDirection::RowZeroLast,
        ComLayout::Interlaced,
    )
    .send(&mut di)
    .unwrap();
    check(&di, 0xA0, &[0x37, 0x01]);

    di.clear();
    Command::SetRemapping(
        IncrementAxis::Horizontal,
        ColumnRemap::Forward,
        NibbleRemap::Forward,
        ComScanDirection::RowZeroLast,
        ComLayout::DualProgressive,
    )
    .send(&mut di)
    .unwrap();
    check(&di, 0xA0, &[0x14, 0x11]);
}

#[test]
fn write_image_data() {
    let mut di = TestSpyInterface::new();
    let image_buf = (0..24).collect::<Vec<u8>>();
    BufCommand::WriteImageData(&image_buf[..]).send(&mut di).unwrap();
    check(&di, 0x5C, &(0..24u8).collect::<Vec<_>>()[..]);
}

#[test]
fn set_start_line() {
    let mut di = TestSpyInterface::new();
    Command::SetStartLine(23).send(&mut di).unwrap();
    check(&di, 0xA1, &[23]);
    assert_eq!(Command::SetStartLine(128).send(&mut di), INVALID);
}

#[test]
fn set_display_offset() {
    let mut di = TestSpyInterface::new();
    Command::SetDisplayOffset(23).send(&mut di).unwrap();
    check(&di, 0xA2, &[23]);
    assert_eq!(Command::SetDisplayOffset(128).send(&mut di), INVALID);
}

#[test]
fn set_display_mode() {
    let mut di = TestSpyInterface::new();
    Command::SetDisplayMode(DisplayMode::BlankDark).send(&mut di).unwrap();
    check(&di, 0xA4, &[]);
    di.clear();
    Command::SetDisplayMode(DisplayMode::BlankBright).send(&mut di).unwrap();
    check(&di, 0xA5, &[]);
    di.clear();
    Command::SetDisplayMode(DisplayMode::Normal).send(&mut di).unwrap();
    check(&di, 0xA6, &[]);
    di.clear();
    Command::SetDisplayMode(DisplayMode::Inverse).send(&mut di).unwrap();
    check(&di, 0xA7, &[]);
}

#[test]
fn enable_partial_display() {
    let mut di = TestSpyInterface::new();
    Command::EnablePartialDisplay(23, 42).send(&mut di).unwrap();
    check(&di, 0xA8, &[23, 42]);
    assert_eq!(Command::EnablePartialDisplay(23, 128).send(&mut di), INVALID);
    assert_eq!(Command::EnablePartialDisplay(128, 129).send(&mut di), INVALID);
    assert_eq!(Command::EnablePartialDisplay(42, 23).send(&mut di), INVALID);
}

#[test]
fn sleep_mode() {
    let mut di = TestSpyInterface::new();
    Command::SetSleepMode(true).send(&mut di).unwrap();
    check(&di, 0xAE, &[]);
    di.clear();
    Command::SetSleepMode(false).send(&mut di).unwrap();
    check(&di, 0xAF, &[]);
}

#[test]
fn set_phase_lengths() {
    let mut di = TestSpyInterface::new();
    Command::SetPhaseLengths(5, 3).send(&mut di).unwrap();
    check(&di, 0xB1, &[0x32]);
    di.clear();
    Command::SetPhaseLengths(5, 14).send(&mut di).unwrap();
    check(&di, 0xB1, &[0xE2]);
    di.clear();
    Command::SetPhaseLengths(7, 3).send(&mut di).unwrap();
    check(&di, 0xB1, &[0x33]);
    di.clear();
    Command::SetPhaseLengths(31, 15).send(&mut di).unwrap();
    check(&di, 0xB1, &[0xFF]);
    assert_eq!(Command::SetPhaseLengths(4, 3).send(&mut di), INVALID);
    assert_eq!(Command::SetPhaseLengths(32, 3).send(&mut di), INVALID);
    assert_eq!(Command::SetPhaseLengths(5, 2).send(&mut di), INVALID);
    assert_eq!(Command::SetPhaseLengths(5, 16).send(&mut di), INVALID);
}

#[test]
fn set_clock_fosc_divset() {
    let mut di = TestSpyInterface::new();
    Command::SetClockFoscDivset(0, 0).send(&mut di).unwrap();
    check(&di, 0xB3, &[0x00]);
    di.clear();
    Command::SetClockFoscDivset(15, 10).send(&mut di).unwrap();
    check(&di, 0xB3, &[0xFA]);
    assert_eq!(Command::SetClockFoscDivset(0, 11).send(&mut di), INVALID);
    assert_eq!(Command::SetClockFoscDivset(16, 0).send(&mut di), INVALID);
}

#[test]
fn set_display_enhancements() {
    let mut di = TestSpyInterface::new();
    Command::SetDisplayEnhancements(false, false).send(&mut di).unwrap();
    check(&di, 0xB4, &[0b10100010, 0b10110101]);
    di.clear();
    Command::SetDisplayEnhancements(true, false).send(&mut di).unwrap();
    check(&di, 0xB4, &[0b10100000, 0b10110101]);
    di.clear();
    Command::SetDisplayEnhancements(true, true).send(&mut di).unwrap();
    check(&di, 0xB4, &[0b10100000, 0b11111101]);
}

#[test]
fn set_second_precharge_period() {
    let mut di = TestSpyInterface::new();
    Command::SetSecondPrechargePeriod(0).send(&mut di).unwrap();
    check(&di, 0xB6, &[0]);
    di.clear();
    Command::SetSecondPrechargePeriod(15).send(&mut di).unwrap();
    check(&di, 0xB6, &[15]);
    di.clear();
    assert_eq!(Command::SetSecondPrechargePeriod(16).send(&mut di), INVALID);
}

#[test]
fn set_gray_scale_table() {
    let mut di = TestSpyInterface::new();
    BufCommand::SetGrayScaleTable(&[0, 1, 2, 3, 4, 5, 6, 7, 8, 9, 10, 11, 12, 13, 14])
        .send(&mut di)
        .unwrap();
    check(&di, 0xB8, &[0, 1, 2, 3, 4, 5, 6, 7, 8, 9, 10, 11, 12, 13, 14]);
    di.clear();
    BufCommand::SetGrayScaleTable(&[
        166, 167, 168, 169, 170, 171, 172, 173, 174, 175, 176, 177, 178, 179, 180,
    ])
    .send(&mut di)
    .unwrap();
    check(
        &di,
        0xB8,
        &[166, 167, 168, 169, 170, 171, 172, 173, 174, 175, 176, 177, 178, 179, 180],
    );
    di.clear();
    // Out of range
    assert_eq!(
        BufCommand::SetGrayScaleTable(&[
            166, 167, 168, 169, 170, 171, 172, 173, 174, 175, 176, 177, 178, 179, 181,
        ])
        .send(&mut di),
        INVALID
    );
    // Non-increasing
    assert_eq!(
        BufCommand::SetGrayScaleTable(&[0, 1, 2, 2, 4, 5, 6, 7, 8, 9, 10, 11, 12, 13, 14])
            .send(&mut di),
        INVALID
    );
    // Too many values
    assert_eq!(
        BufCommand::SetGrayScaleTable(&[0, 1, 2, 3, 4, 5, 6, 7, 8, 9, 10, 11, 12, 13, 14, 15])
            .send(&mut di),
        INVALID
    );
    // Too few values
    assert_eq!(
        BufCommand::SetGrayScaleTable(&[0, 1, 2, 3, 4, 5, 6, 7, 8, 9, 10, 11, 12, 13])
            .send(&mut di),
        INVALID
    );
    // Nothing was sent for the rejected tables.
    assert_eq!(di.sent_log().len(), 0);
}

#[test]
fn set_pre_charge_voltage() {
    let mut di = TestSpyInterface::new();
    Command::SetPreChargeVoltage(17).send(&mut di).unwrap();
    check(&di, 0xBB, &[17]);
    assert_eq!(Command::SetPreChargeVoltage(32).send(&mut di), INVALID);
}

#[test]
fn set_com_deselect_voltage() {
    let mut di = TestSpyInterface::new();
    Command::SetComDeselectVoltage(3).send(&mut di).unwrap();
    check(&di, 0xBE, &[3]);
    assert_eq!(Command::SetComDeselectVoltage(8).send(&mut di), INVALID);
}

#[test]
fn set_master_contrasat() {
    let mut di = TestSpyInterface::new();
    Command::SetMasterContrast(3).send(&mut di).unwrap();
    check(&di, 0xC7, &[3]);
    assert_eq!(Command::SetMasterContrast(16).send(&mut di), INVALID);
}

#[test]
fn set_mux_ratio() {
    let mut di = TestSpyInterface::new();
    Command::SetMuxRatio(128).send(&mut di).unwrap();
    check(&di, 0xCA, &[127]);
    di.clear();
    Command::SetMuxRatio(16).send(&mut di).unwrap();
    check(&di, 0xCA, &[15]);
    assert_eq!(Command::SetMuxRatio(15).send(&mut di), INVALID);
    assert_eq!(Command::SetMuxRatio(129).send(&mut di), INVALID);
}

#[test]
fn set_command_lock() {
    let mut di = TestSpyInterface::new();
    Command::SetCommandLock(true).send(&mut di).unwrap();
    check(&di, 0xFD, &[0b00010110]);
    di.clear();
    Command::SetCommandLock(false).send(&mut di).unwrap();
    check(&di, 0xFD, &[0b00010010]);
}
