//! The command set of the SSD1322 and its encoding into a command word and argument bytes.
//!
//! Column addresses are in buffer columns of four pixels (see `consts`).

use vstd::prelude::*;

use crate::consts::{BUF_COL_MAX, NUM_PIXEL_ROWS, PIXEL_ROW_MAX};
use crate::interface::{
    command_transfers, lemma_followed_by_err, lemma_followed_by_ok, performed, rejected_plan, followed_by, DisplayInterface,
    Error, Plan, Transfer,
};

verus! {

/// The address increment orientation when writing image data.
#[derive(Clone, Copy, Debug, PartialEq, Eq, Structural)]
pub enum IncrementAxis {
    /// Column address increments first, then row address.
    Horizontal,
    /// Row address increments first, then column address.
    Vertical,
}

/// Setting of column address remapping.
#[derive(Clone, Copy, Debug, PartialEq, Eq, Structural)]
pub enum ColumnRemap {
    /// Column addresses 0->119 map to segments 0,1,2,3->476,477,478,479.
    Forward,
    /// Column addresses 0->119 map to segments 476,477,478,479->0,1,2,3.
    Reverse,
}

/// Setting of data nibble remapping.
#[derive(Clone, Copy, Debug, PartialEq, Eq, Structural)]
pub enum NibbleRemap {
    /// 2-byte sequence 0xABCD maps (in L->R order) to pixels 3,2,1,0.
    Reverse,
    /// 2-byte sequence 0xABCD maps (in L->R order) to pixels 0,1,2,3.
    Forward,
}

/// Setting of the COM line scanning of rows. Changing it flips the image vertically.
#[derive(Clone, Copy, Debug, PartialEq, Eq, Structural)]
pub enum ComScanDirection {
    /// Row address 0 is the first row of the display.
    RowZeroFirst,
    /// Row address 0 is the last row of the display.
    RowZeroLast,
}

/// How the display module wires COM lines to display rows; dictated by the module.
#[derive(Clone, Copy, Debug, PartialEq, Eq, Structural)]
pub enum ComLayout {
    /// COM lines 0->127 map to display rows 0->127.
    Progressive,
    /// COM lines 0->63 map to even rows, 64->127 to odd rows.
    Interlaced,
    /// COM lines 0->63 and 64->127 each drive rows 0->63 for half of the columns.
    DualProgressive,
}

/// Setting of the display mode.
#[derive(Clone, Copy, Debug, PartialEq, Eq, Structural)]
pub enum DisplayMode {
    /// All pixels off (gray level 0).
    BlankDark,
    /// All pixels on (gray level 15).
    BlankBright,
    /// The image in display RAM.
    Normal,
    /// The image in display RAM with gray levels inverted.
    Inverse,
}

/// A command with a fixed-size argument (at most two bytes).
#[derive(Clone, Copy, Debug, PartialEq, Eq, Structural)]
pub enum Command {
    /// Enable the gray scale gamma table (see `BufCommand::SetGrayScaleTable`).
    EnableGrayScaleTable,
    /// Set the start and end buffer column of RAM writes, each 0-119.
    SetColumnAddress(u8, u8),
    /// Set the start and end row of RAM writes, each 0-127.
    SetRowAddress(u8, u8),
    /// Set increment axis, column remap, nibble remap, COM scan direction and COM layout.
    SetRemapping(IncrementAxis, ColumnRemap, NibbleRemap, ComScanDirection, ComLayout),
    /// Set the display start line, 0-127.
    SetStartLine(u8),
    /// Set the display COM line offset, 0-127.
    SetDisplayOffset(u8),
    /// Set the display mode.
    SetDisplayMode(DisplayMode),
    /// Enable partial display between two rows, 0-127, start <= end.
    EnablePartialDisplay(u8, u8),
    /// Disable partial display mode.
    DisablePartialDisplay,
    /// Enter (`true`) or leave (`false`) sleep mode.
    SetSleepMode(bool),
    /// Set the reset phase (5-31 DCLKs) and first pre-charge phase (3-15 DCLKs) lengths.
    SetPhaseLengths(u8, u8),
    /// Set the oscillator frequency (0-15) and the clock divider exponent (0-10).
    SetClockFoscDivset(u8, u8),
    /// Enable or disable external VSL and enhanced low gray scale quality.
    SetDisplayEnhancements(bool, bool),
    /// Set the second pre-charge period, 0-15 DCLKs.
    SetSecondPrechargePeriod(u8),
    /// Reset the gray scale gamma table to the factory default.
    SetDefaultGrayScaleTable,
    /// Set the pre-charge voltage level, 0-31.
    SetPreChargeVoltage(u8),
    /// Set the COM deselect voltage level, 0-7.
    SetComDeselectVoltage(u8),
    /// Set the contrast current, 0-255.
    SetContrastCurrent(u8),
    /// Set the master contrast, 0 (most dimmed) to 15 (normal).
    SetMasterContrast(u8),
    /// Set the MUX ratio (number of active rows), 16-128.
    SetMuxRatio(u8),
    /// Enable (`true`) or disable (`false`) the command lock.
    SetCommandLock(bool),
}

/// A command whose argument is a byte buffer of data-dependent length.
pub enum BufCommand<'buf> {
    /// Set the gray scale gamma table: 15 strictly increasing pulse widths, each 0-180.
    SetGrayScaleTable(&'buf [u8]),
    /// Write image data (two pixels per byte) into display RAM.
    WriteImageData(&'buf [u8]),
}

/// Byte 0 bits of the remapping command contributed by the increment axis.
pub open spec fn increment_axis_bits(a: IncrementAxis) -> u8 {
    match a {
        IncrementAxis::Horizontal => 0x00,
        IncrementAxis::Vertical => 0x01,
    }
}

pub open spec fn column_remap_bits(c: ColumnRemap) -> u8 {
    match c {
        ColumnRemap::Forward => 0x00,
        ColumnRemap::Reverse => 0x02,
    }
}

pub open spec fn nibble_remap_bits(n: NibbleRemap) -> u8 {
    match n {
        NibbleRemap::Reverse => 0x00,
        NibbleRemap::Forward => 0x04,
    }
}

pub open spec fn com_scan_bits(d: ComScanDirection) -> u8 {
    match d {
        ComScanDirection::RowZeroFirst => 0x00,
        ComScanDirection::RowZeroLast => 0x10,
    }
}

/// Byte 0 bits of the remapping command contributed by the COM layout (interlace bit).
pub open spec fn interlace_bits(l: ComLayout) -> u8 {
    match l {
        ComLayout::Interlaced => 0x20,
        _ => 0x00,
    }
}

/// Byte 1 of the remapping command: the dual COM bit pattern.
pub open spec fn dual_com_byte(l: ComLayout) -> u8 {
    match l {
        ComLayout::DualProgressive => 0x11,
        _ => 0x01,
    }
}

/// The two argument bytes of the remapping command.
pub open spec fn remap_args(
    a: IncrementAxis,
    c: ColumnRemap,
    n: NibbleRemap,
    d: ComScanDirection,
    l: ComLayout,
) -> Seq<u8> {
    seq![
        increment_axis_bits(a) | column_remap_bits(c) | nibble_remap_bits(n) | com_scan_bits(d)
            | interlace_bits(l),
        dual_com_byte(l),
    ]
}

/// The phase length byte: the first phase in DCLK pairs in the low nibble, the second phase in
/// the high nibble.
pub open spec fn phase_lengths_byte(phase_1: u8, phase_2: u8) -> u8 {
    (((phase_1 - 1) / 2) + 16 * phase_2) as u8
}

/// The clock byte: oscillator frequency in the high nibble, divider in the low nibble.
pub open spec fn clock_byte(fosc: u8, divset: u8) -> u8 {
    (16 * fosc + divset) as u8
}

pub open spec fn mode_opcode(mode: DisplayMode) -> u8 {
    match mode {
        DisplayMode::BlankDark => 0xA4,
        DisplayMode::BlankBright => 0xA5,
        DisplayMode::Normal => 0xA6,
        DisplayMode::Inverse => 0xA7,
    }
}

pub open spec fn row_ok(r: u8) -> bool {
    r <= PIXEL_ROW_MAX
}

impl Command {
    /// The command word and argument bytes of this command, or `None` when an argument lies
    /// outside the range that the controller accepts.
    pub open spec fn spec_encode(self) -> Option<(u8, Seq<u8>)> {
        match self {
            Command::EnableGrayScaleTable => Some((0x00u8, seq![])),
            Command::SetColumnAddress(start, end) => if start <= BUF_COL_MAX && end <= BUF_COL_MAX {
                Some((0x15u8, seq![start, end]))
            } else {
                None
            },
            Command::SetRowAddress(start, end) => if row_ok(start) && row_ok(end) {
                Some((0x75u8, seq![start, end]))
            } else {
                None
            },
            Command::SetRemapping(a, c, n, d, l) => Some((0xA0u8, remap_args(a, c, n, d, l))),
            Command::SetStartLine(line) => if row_ok(line) {
                Some((0xA1u8, seq![line]))
            } else {
                None
            },
            Command::SetDisplayOffset(line) => if row_ok(line) {
                Some((0xA2u8, seq![line]))
            } else {
                None
            },
            Command::SetDisplayMode(mode) => Some((mode_opcode(mode), seq![])),
            Command::EnablePartialDisplay(start, end) => if row_ok(start) && row_ok(end) && start
                <= end {
                Some((0xA8u8, seq![start, end]))
            } else {
                None
            },
            Command::DisablePartialDisplay => Some((0xA9u8, seq![])),
            Command::SetSleepMode(ena) => Some((if ena { 0xAEu8 } else { 0xAFu8 }, seq![])),
            Command::SetPhaseLengths(p1, p2) => if 5 <= p1 <= 31 && 3 <= p2 <= 15 {
                Some((0xB1u8, seq![phase_lengths_byte(p1, p2)]))
            } else {
                None
            },
            Command::SetClockFoscDivset(fosc, divset) => if fosc <= 15 && divset <= 10 {
                Some((0xB3u8, seq![clock_byte(fosc, divset)]))
            } else {
                None
            },
            Command::SetDisplayEnhancements(vsl, gs) => Some(
                (
                    0xB4u8,
                    seq![if vsl { 0xA0u8 } else { 0xA2u8 }, if gs { 0xFDu8 } else { 0xB5u8 }],
                ),
            ),
            Command::SetSecondPrechargePeriod(period) => if period <= 15 {
                Some((0xB6u8, seq![period]))
            } else {
                None
            },
            Command::SetDefaultGrayScaleTable => Some((0xB9u8, seq![])),
            Command::SetPreChargeVoltage(v) => if v <= 31 {
                Some((0xBBu8, seq![v]))
            } else {
                None
            },
            Command::SetComDeselectVoltage(v) => if v <= 7 {
                Some((0xBEu8, seq![v]))
            } else {
                None
            },
            Command::SetContrastCurrent(current) => Some((0xC1u8, seq![current])),
            Command::SetMasterContrast(contrast) => if contrast <= 15 {
                Some((0xC7u8, seq![contrast]))
            } else {
                None
            },
            Command::SetMuxRatio(ratio) => if 16 <= ratio <= NUM_PIXEL_ROWS {
                Some((0xCAu8, seq![(ratio - 1) as u8]))
            } else {
                None
            },
            Command::SetCommandLock(ena) => Some((0xFDu8, seq![if ena { 0x16u8 } else { 0x12u8 }])),
        }
    }

    /// What sending this command does on the bus.
    pub open spec fn plan(self) -> Plan {
        match self.spec_encode() {
            Some((opcode, args)) => Plan { transfers: command_transfers(opcode, args), valid: true },
            None => rejected_plan(),
        }
    }
}

fn increment_axis_byte(a: IncrementAxis) -> (r: u8)
    ensures
        r == increment_axis_bits(a),
{
    match a {
        IncrementAxis::Horizontal => 0x00,
        IncrementAxis::Vertical => 0x01,
    }
}

fn column_remap_byte(c: ColumnRemap) -> (r: u8)
    ensures
        r == column_remap_bits(c),
{
    match c {
        ColumnRemap::Forward => 0x00,
        ColumnRemap::Reverse => 0x02,
    }
}

fn nibble_remap_byte(n: NibbleRemap) -> (r: u8)
    ensures
        r == nibble_remap_bits(n),
{
    match n {
        NibbleRemap::Reverse => 0x00,
        NibbleRemap::Forward => 0x04,
    }
}

fn com_scan_byte(d: ComScanDirection) -> (r: u8)
    ensures
        r == com_scan_bits(d),
{
    match d {
        ComScanDirection::RowZeroFirst => 0x00,
        ComScanDirection::RowZeroLast => 0x10,
    }
}

fn com_layout_bytes(l: ComLayout) -> (r: (u8, u8))
    ensures
        r == (interlace_bits(l), dual_com_byte(l)),
{
    match l {
        ComLayout::Progressive => (0x00, 0x01),
        ComLayout::Interlaced => (0x20, 0x01),
        ComLayout::DualProgressive => (0x00, 0x11),
    }
}

fn no_args(opcode: u8) -> (r: Option<(u8, Vec<u8>)>)
    ensures
        r matches Some((op, args)) && op == opcode && args@ == Seq::<u8>::empty(),
{
    Some((opcode, Vec::new()))
}

fn one_arg(opcode: u8, a: u8) -> (r: Option<(u8, Vec<u8>)>)
    ensures
        r matches Some((op, args)) && op == opcode && args@ == seq![a],
{
    Some((opcode, vec![a]))
}

fn two_args(opcode: u8, a: u8, b: u8) -> (r: Option<(u8, Vec<u8>)>)
    ensures
        r matches Some((op, args)) && op == opcode && args@ == seq![a, b],
{
    Some((opcode, vec![a, b]))
}

/// Whether `table` is a valid gray scale table: 15 entries, each at most 180, strictly
/// increasing.
pub open spec fn valid_gray_scale_table(table: Seq<u8>) -> bool {
    &&& table.len() == 15
    &&& forall|i: int| 0 <= i < table.len() ==> #[trigger] table[i] <= 180
    &&& forall|i: int| 0 < i < table.len() ==> table[i - 1] < #[trigger] table[i]
}

impl Command {
    /// Encode this command into its command word and argument bytes, or `None` when an argument
    /// lies outside the range that the controller accepts.
    pub fn encode(&self) -> (r: Option<(u8, Vec<u8>)>)
        ensures
            match r {
                Some((opcode, args)) => self.spec_encode() == Some((opcode, args@)),
                None => self.spec_encode() is None,
            },
    {
        match *self {
            Command::EnableGrayScaleTable => no_args(0x00),
            Command::SetColumnAddress(start, end) => if start <= BUF_COL_MAX && end <= BUF_COL_MAX {
                two_args(0x15, start, end)
            } else {
                None
            },
            Command::SetRowAddress(start, end) => if start <= PIXEL_ROW_MAX && end <= PIXEL_ROW_MAX {
                two_args(0x75, start, end)
            } else {
                None
            },
            Command::SetRemapping(a, c, n, d, l) => {
                let (interlace, dual_com) = com_layout_bytes(l);
                let byte0 = increment_axis_byte(a) | column_remap_byte(c) | nibble_remap_byte(n)
                    | com_scan_byte(d) | interlace;
                let r = two_args(0xA0, byte0, dual_com);
                assert(remap_args(a, c, n, d, l) =~= seq![byte0, dual_com]);
                r
            },
            Command::SetStartLine(line) => if line <= PIXEL_ROW_MAX {
                one_arg(0xA1, line)
            } else {
                None
            },
            Command::SetDisplayOffset(line) => if line <= PIXEL_ROW_MAX {
                one_arg(0xA2, line)
            } else {
                None
            },
            Command::SetDisplayMode(mode) => no_args(
                match mode {
                    DisplayMode::BlankDark => 0xA4,
                    DisplayMode::BlankBright => 0xA5,
                    DisplayMode::Normal => 0xA6,
                    DisplayMode::Inverse => 0xA7,
                },
            ),
            Command::EnablePartialDisplay(start, end) => if start <= PIXEL_ROW_MAX && end
                <= PIXEL_ROW_MAX && start <= end {
                two_args(0xA8, start, end)
            } else {
                None
            },
            Command::DisablePartialDisplay => no_args(0xA9),
            Command::SetSleepMode(ena) => no_args(
                if ena {
                    0xAE
                } else {
                    0xAF
                },
            ),
            Command::SetPhaseLengths(phase_1, phase_2) => if 5 <= phase_1 && phase_1 <= 31 && 3
                <= phase_2 && phase_2 <= 15 {
                one_arg(0xB1, (phase_1 - 1) / 2 + 16 * phase_2)
            } else {
                None
            },
            Command::SetClockFoscDivset(fosc, divset) => if fosc <= 15 && divset <= 10 {
                one_arg(0xB3, 16 * fosc + divset)
            } else {
                None
            },
            Command::SetDisplayEnhancements(external_vsl, enhanced_low_gs_quality) => {
                let vsl: u8 = if external_vsl {
                    0xA0
                } else {
                    0xA2
                };
                let gs: u8 = if enhanced_low_gs_quality {
                    0xFD
                } else {
                    0xB5
                };
                two_args(0xB4, vsl, gs)
            },
            Command::SetSecondPrechargePeriod(period) => if period <= 15 {
                one_arg(0xB6, period)
            } else {
                None
            },
            Command::SetDefaultGrayScaleTable => no_args(0xB9),
            Command::SetPreChargeVoltage(voltage) => if voltage <= 31 {
                one_arg(0xBB, voltage)
            } else {
                None
            },
            Command::SetComDeselectVoltage(voltage) => if voltage <= 7 {
                one_arg(0xBE, voltage)
            } else {
                None
            },
            Command::SetContrastCurrent(current) => one_arg(0xC1, current),
            Command::SetMasterContrast(contrast) => if contrast <= 15 {
                one_arg(0xC7, contrast)
            } else {
                None
            },
            Command::SetMuxRatio(ratio) => if 16 <= ratio && ratio <= NUM_PIXEL_ROWS {
                one_arg(0xCA, ratio - 1)
            } else {
                None
            },
            Command::SetCommandLock(ena) => one_arg(
                0xFD,
                if ena {
                    0x16
                } else {
                    0x12
                },
            ),
        }
    }

    /// Send this command over `iface`: its command word, then its argument bytes if it has any.
    /// Nothing is sent when an argument is out of range.
    pub fn send<DI: DisplayInterface>(self, iface: &mut DI) -> (r: Result<(), Error<DI::Error>>)
        ensures
            performed(old(iface).sent(), final(iface).sent(), self.plan(), r),
    {
        match self.encode() {
            None => {
                assert(iface.sent() =~= iface.sent() + Seq::<Transfer>::empty());
                Err(Error::InvalidArgument)
            },
            Some((opcode, args)) => send_encoded(iface, opcode, args.as_slice()),
        }
    }
}

/// Send a command word and, if there are any, its argument bytes.
fn send_encoded<DI: DisplayInterface>(iface: &mut DI, opcode: u8, args: &[u8]) -> (r: Result<
    (),
    Error<DI::Error>,
>)
    ensures
        performed(
            old(iface).sent(),
            final(iface).sent(),
            Plan { transfers: command_transfers(opcode, args@), valid: true },
            r,
        ),
{
    let ghost before = iface.sent();
    let ghost plan = Plan { transfers: command_transfers(opcode, args@), valid: true };
    let ghost transfers = plan.transfers;
    match iface.send_command(opcode) {
        Err(e) => {
            assert(iface.sent() =~= before + transfers.take(1));
            assert(iface.sent() == before + plan.transfers.take(1));
            return Err(Error::Transport(e));
        },
        Ok(()) => {},
    }
    if args.len() == 0 {
        assert(iface.sent() =~= before + transfers);
        Ok(())
    } else {
        match iface.send_data(args) {
            Err(e) => {
                assert(iface.sent() =~= before + transfers.take(2));
                assert(iface.sent() == before + plan.transfers.take(2));
                Err(Error::Transport(e))
            },
            Ok(()) => {
                assert(iface.sent() =~= before + transfers);
                Ok(())
            },
        }
    }
}

impl<'buf> BufCommand<'buf> {
    /// Whether the buffer is acceptable to the controller.
    pub open spec fn spec_valid(&self) -> bool {
        match self {
            BufCommand::SetGrayScaleTable(table) => valid_gray_scale_table(table@),
            BufCommand::WriteImageData(_) => true,
        }
    }

    /// The command word of this command.
    pub open spec fn opcode(&self) -> u8 {
        match self {
            BufCommand::SetGrayScaleTable(_) => 0xB8,
            BufCommand::WriteImageData(_) => 0x5C,
        }
    }

    /// The data bytes of this command.
    pub open spec fn payload(&self) -> Seq<u8> {
        match self {
            BufCommand::SetGrayScaleTable(table) => table@,
            BufCommand::WriteImageData(data) => data@,
        }
    }

    /// What sending this command does on the bus.
    pub open spec fn plan(&self) -> Plan {
        if self.spec_valid() {
            Plan { transfers: command_transfers(self.opcode(), self.payload()), valid: true }
        } else {
            rejected_plan()
        }
    }

    /// Send this command over `iface`: its command word, then the buffer in one data transfer
    /// if it is not empty. Nothing is sent when the buffer is not acceptable.
    pub fn send<DI: DisplayInterface>(self, iface: &mut DI) -> (r: Result<(), Error<DI::Error>>)
        ensures
            performed(old(iface).sent(), final(iface).sent(), self.plan(), r),
    {
        match self {
            BufCommand::SetGrayScaleTable(table) => {
                if check_gray_scale_table(table) {
                    send_encoded(iface, 0xB8, table)
                } else {
                    assert(iface.sent() =~= iface.sent() + Seq::<Transfer>::empty());
                    Err(Error::InvalidArgument)
                }
            },
            BufCommand::WriteImageData(data) => send_encoded(iface, 0x5C, data),
        }
    }
}

/// Whether `table` is a valid gray scale table.
fn check_gray_scale_table(table: &[u8]) -> (r: bool)
    ensures
        r == valid_gray_scale_table(table@),
{
    if table.len() != 15 {
        return false;
    }
    let mut i: usize = 0;
    while i < table.len()
        invariant
            i <= table@.len() == 15,
            forall|j: int| 0 <= j < i ==> #[trigger] table@[j] <= 180,
            forall|j: int| 0 < j < i ==> table@[j - 1] < #[trigger] table@[j],
        decreases table@.len() - i,
    {
        if table[i] > 180 {
            return false;
        }
        if i > 0 && table[i - 1] >= table[i] {
            return false;
        }
        i = i + 1;
    }
    true
}

/// Commands sent one after another, each only if all before it went through.
pub open spec fn commands_plan(cmds: Seq<Command>) -> Plan
    decreases cmds.len(),
{
    if cmds.len() == 0 {
        Plan { transfers: Seq::empty(), valid: true }
    } else {
        followed_by(commands_plan(cmds.drop_last()), cmds.last().plan())
    }
}

/// A failure while sending the first `j` commands of `cmds` is a failure while sending all of
/// them.
proof fn lemma_commands_err<E>(
    before: Seq<Transfer>,
    after: Seq<Transfer>,
    cmds: Seq<Command>,
    j: int,
    r: Result<(), Error<E>>,
)
    requires
        0 <= j <= cmds.len(),
        performed(before, after, commands_plan(cmds.take(j)), r),
        r is Err,
    ensures
        performed(before, after, commands_plan(cmds), r),
    decreases cmds.len() - j,
{
    if j < cmds.len() {
        let next = cmds.take(j + 1);
        assert(next.drop_last() =~= cmds.take(j));
        lemma_followed_by_err(before, after, commands_plan(cmds.take(j)), next.last().plan(), r);
        lemma_commands_err(before, after, cmds, j + 1, r);
    } else {
        assert(cmds.take(j) =~= cmds);
    }
}

/// Send `cmds` in order, stopping at the first failure.
pub fn send_commands<DI: DisplayInterface>(cmds: &Vec<Command>, iface: &mut DI) -> (r: Result<
    (),
    Error<DI::Error>,
>)
    ensures
        performed(old(iface).sent(), final(iface).sent(), commands_plan(cmds@), r),
{
    let ghost before = iface.sent();
    let mut i: usize = 0;
    assert(before =~= before + commands_plan(cmds@.take(0)).transfers);
    while i < cmds.len()
        invariant
            i <= cmds@.len(),
            before == old(iface).sent(),
            performed(before, iface.sent(), commands_plan(cmds@.take(i as int)), Ok::<(), Error<DI::Error>>(())),
        decreases cmds@.len() - i,
    {
        let ghost middle = iface.sent();
        let r = cmds[i].send(iface);
        proof {
            let next = cmds@.take(i + 1);
            assert(next.drop_last() =~= cmds@.take(i as int));
            assert(next.last() == cmds@[i as int]);
            assert(commands_plan(next) == followed_by(
                commands_plan(cmds@.take(i as int)),
                cmds@[i as int].plan(),
            ));
            lemma_followed_by_ok(
                before,
                middle,
                iface.sent(),
                commands_plan(cmds@.take(i as int)),
                cmds@[i as int].plan(),
                r,
            );
        }
        if r.is_err() {
            proof {
                lemma_commands_err(before, iface.sent(), cmds@, i + 1, r);
            }
            return r;
        }
        i = i + 1;
    }
    assert(cmds@.take(i as int) =~= cmds@);
    Ok(())
}

/// Encoding depends on the command alone: equal commands encode to the same command word and
/// argument bytes, and are sent the same way.
pub proof fn lemma_encoding_deterministic(a: Command, b: Command)
    requires
        a == b,
    ensures
        a.spec_encode() == b.spec_encode(),
        a.plan() == b.plan(),
{
}

/// Each argument is accepted exactly on its documented range, so each range boundary encodes and
/// one past it on either side is rejected.
pub proof fn lemma_argument_ranges()
    ensures
        forall|s: u8, e: u8|
            (#[trigger] Command::SetColumnAddress(s, e).spec_encode() is Some) <==> (s <= 119 && e
                <= 119),
        forall|s: u8, e: u8|
            (#[trigger] Command::SetRowAddress(s, e).spec_encode() is Some) <==> (s <= 127 && e
                <= 127),
        forall|s: u8, e: u8|
            (#[trigger] Command::EnablePartialDisplay(s, e).spec_encode() is Some) <==> (s <= e
                <= 127),
        forall|l: u8| (#[trigger] Command::SetStartLine(l).spec_encode() is Some) <==> l <= 127,
        forall|l: u8| (#[trigger] Command::SetDisplayOffset(l).spec_encode() is Some) <==> l <= 127,
        forall|p1: u8, p2: u8|
            (#[trigger] Command::SetPhaseLengths(p1, p2).spec_encode() is Some) <==> (5 <= p1 <= 31
                && 3 <= p2 <= 15),
        forall|f: u8, d: u8|
            (#[trigger] Command::SetClockFoscDivset(f, d).spec_encode() is Some) <==> (f <= 15 && d
                <= 10),
        forall|p: u8|
            (#[trigger] Command::SetSecondPrechargePeriod(p).spec_encode() is Some) <==> p <= 15,
        forall|v: u8| (#[trigger] Command::SetPreChargeVoltage(v).spec_encode() is Some) <==> v <= 31,
        forall|v: u8| (#[trigger] Command::SetComDeselectVoltage(v).spec_encode() is Some) <==> v <= 7,
        forall|c: u8| (#[trigger] Command::SetMasterContrast(c).spec_encode() is Some) <==> c <= 15,
        forall|c: u8| (#[trigger] Command::SetContrastCurrent(c).spec_encode() is Some),
        forall|m: u8| (#[trigger] Command::SetMuxRatio(m).spec_encode() is Some) <==> 16 <= m <= 128,
{
}

/// The phase length byte holds the first phase, in DCLK pairs, in its low nibble and the second
/// phase in its high nibble; it grows with each phase while the other stays fixed.
pub proof fn lemma_phase_lengths_packing(p1: u8, p2: u8, q1: u8, q2: u8)
    requires
        5 <= p1 <= 31,
        3 <= p2 <= 15,
        5 <= q1 <= 31,
        3 <= q2 <= 15,
    ensures
        phase_lengths_byte(p1, p2) & 0x0F == (p1 - 1) / 2,
        phase_lengths_byte(p1, p2) >> 4u8 == p2,
        p1 <= q1 ==> phase_lengths_byte(p1, p2) <= phase_lengths_byte(q1, p2),
        p2 <= q2 ==> phase_lengths_byte(p1, p2) <= phase_lengths_byte(p1, q2),
{
    let low: u8 = ((p1 - 1) / 2) as u8;
    let byte = phase_lengths_byte(p1, p2);
    assert(byte == low + 16 * p2);
    assert(low < 16);
    assert((low + 16 * p2) as u8 & 0x0F == low && (low + 16 * p2) as u8 >> 4u8 == p2) by (bit_vector)
        requires
            low < 16,
            p2 < 16,
    ;
}

} // verus!
