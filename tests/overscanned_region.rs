use ssd1322::{ComLayout, ComScanDirection, Config, Display, PixelCoord as Px, Sent, TestSpyInterface};

fn c(cmd: u8) -> Sent {
    Sent::Cmd(cmd)
}

fn d(data: &[u8]) -> Sent {
    Sent::Data(data.to_vec())
}

fn initialized(offset: Px) -> Display<TestSpyInterface> {
    let mut disp = Display::new(TestSpyInterface::new(), Px(128, 64), offset);
    let cfg = Config::new(ComScanDirection::RowZeroLast, ComLayout::DualProgressive);
    disp.init(cfg).unwrap();
    disp.interface_mut().clear();
    disp
}

fn draw(disp: &mut Display<TestSpyInterface>, ul: Px, lr: Px, data: &[u8]) -> Vec<Sent> {
    disp.interface_mut().clear();
    {
        let mut region = disp.overscanned_region(ul, lr).unwrap();
        region.draw_packed(data).unwrap();
    }
    disp.interface().sent_log().clone()
}

const EIGHT: [u8; 8] = [0xDE, 0xAD, 0xBE, 0xEF, 0xB0, 0x1D, 0xFA, 0xCE];

#[test]
fn draw_packed_interior() {
    let mut disp = initialized(Px(0, 0));
    assert_eq!(
        draw(&mut disp, Px(12, 10), Px(16, 12), &[0xDE, 0xAD, 0xBE, 0xEF]),
        vec![c(0x15), d(&[3, 3]), c(0x75), d(&[10, 11]), c(0x5C), d(&[0xDE, 0xAD, 0xBE, 0xEF])]
    );
}

#[test]
fn draw_packed_complete_crop() {
    let mut disp = initialized(Px(0, 0));
    assert_eq!(draw(&mut disp, Px(-16, -5), Px(-12, -3), &[0xDE, 0xAD, 0xBE, 0xEF]), vec![]);
    assert_eq!(draw(&mut disp, Px(16, 132), Px(20, 134), &[0xDE, 0xAD, 0xBE, 0xEF]), vec![]);
}

#[test]
fn draw_packed_crop_row_edge() {
    let mut disp = initialized(Px(0, 0));
    assert_eq!(
        draw(&mut disp, Px(16, -1), Px(20, 1), &[0xDE, 0xAD, 0xBE, 0xEF]),
        vec![c(0x15), d(&[4, 4]), c(0x75), d(&[0, 0]), c(0x5C), d(&[0xBE, 0xEF])]
    );
    assert_eq!(
        draw(&mut disp, Px(16, 127), Px(20, 129), &[0xDE, 0xAD, 0xBE, 0xEF]),
        vec![c(0x15), d(&[4, 4]), c(0x75), d(&[127, 127]), c(0x5C), d(&[0xDE, 0xAD])]
    );
}

#[test]
fn draw_packed_crop_col_edge() {
    let mut disp = initialized(Px(0, 0));
    assert_eq!(
        draw(&mut disp, Px(-4, 10), Px(4, 12), &EIGHT),
        vec![c(0x15), d(&[0, 0]), c(0x75), d(&[10, 11]), c(0x5C), d(&[0xBE, 0xEF, 0xFA, 0xCE])]
    );
    assert_eq!(
        draw(&mut disp, Px(124, 10), Px(132, 12), &EIGHT),
        vec![c(0x15), d(&[31, 31]), c(0x75), d(&[10, 11]), c(0x5C), d(&[0xDE, 0xAD, 0xB0, 0x1D])]
    );
}

#[test]
fn draw_packed_crop_corner() {
    let mut disp = initialized(Px(0, 0));
    assert_eq!(
        draw(&mut disp, Px(-4, -1), Px(4, 1), &EIGHT),
        vec![c(0x15), d(&[0, 0]), c(0x75), d(&[0, 0]), c(0x5C), d(&[0xFA, 0xCE])]
    );
    assert_eq!(
        draw(&mut disp, Px(124, 127), Px(132, 129), &EIGHT),
        vec![c(0x15), d(&[31, 31]), c(0x75), d(&[127, 127]), c(0x5C), d(&[0xDE, 0xAD])]
    );
}

#[test]
fn draw_packed_display_column_offset_interior() {
    let mut disp = initialized(Px(64, 0));
    assert_eq!(
        draw(&mut disp, Px(0, 10), Px(8, 12), &[0xDE, 0xAD, 0xBE, 0xEF]),
        vec![c(0x15), d(&[16, 17]), c(0x75), d(&[10, 11]), c(0x5C), d(&[0xDE, 0xAD, 0xBE, 0xEF])]
    );
}

#[test]
fn draw_packed_display_column_offset_crop_col() {
    let mut disp = initialized(Px(24, 0));
    assert_eq!(
        draw(&mut disp, Px(-4, 10), Px(4, 11), &[0xDE, 0xAD, 0xBE, 0xEF]),
        vec![c(0x15), d(&[6, 6]), c(0x75), d(&[10, 10]), c(0x5C), d(&[0xBE, 0xEF])]
    );
    assert_eq!(
        draw(&mut disp, Px(124, 10), Px(132, 11), &[0xDE, 0xAD, 0xBE, 0xEF]),
        vec![c(0x15), d(&[37, 37]), c(0x75), d(&[10, 10]), c(0x5C), d(&[0xDE, 0xAD])]
    );
}
