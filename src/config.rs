//! Configuration sent to the display when it is initialized.

use vstd::prelude::*;

use crate::command::{
    commands_plan, send_commands, ColumnRemap, ComLayout, ComScanDirection, Command,
    IncrementAxis, NibbleRemap,
};
use crate::interface::{performed, DisplayInterface, Error};

verus! {

/// The part of the configuration that the display keeps after initialization, because it shares
/// a register (remapping) with settings that are made later.
#[derive(Clone, Copy, Debug, PartialEq, Eq, Structural)]
pub struct PersistentConfig {
    pub com_scan_direction: ComScanDirection,
    pub com_layout: ComLayout,
}

impl PersistentConfig {
    /// The remapping command that combines this configuration with the given settings.
    pub open spec fn remapping(
        self,
        increment_axis: IncrementAxis,
        column_remap: ColumnRemap,
        nibble_remap: NibbleRemap,
    ) -> Command {
        Command::SetRemapping(
            increment_axis,
            column_remap,
            nibble_remap,
            self.com_scan_direction,
            self.com_layout,
        )
    }

    /// Send the remapping command that combines this configuration with the given settings.
    pub fn send<DI: DisplayInterface>(
        &self,
        iface: &mut DI,
        increment_axis: IncrementAxis,
        column_remap: ColumnRemap,
        nibble_remap: NibbleRemap,
    ) -> (r: Result<(), Error<DI::Error>>)
        ensures
            performed(
                old(iface).sent(),
                final(iface).sent(),
                self.remapping(increment_axis, column_remap, nibble_remap).plan(),
                r,
            ),
    {
        Command::SetRemapping(
            increment_axis,
            column_remap,
            nibble_remap,
            self.com_scan_direction,
            self.com_layout,
        ).send(iface)
    }
}

/// Position of each optional setting in `Config::slots`, which is also the order in which the
/// settings are sent.
pub const PHASE_LENGTHS_SLOT: usize = 0;
pub const CONTRAST_CURRENT_SLOT: usize = 1;
pub const CLOCK_FOSC_DIVSET_SLOT: usize = 2;
pub const DISPLAY_ENHANCEMENTS_SLOT: usize = 3;
pub const SECOND_PRECHARGE_PERIOD_SLOT: usize = 4;
pub const PRECHARGE_VOLTAGE_SLOT: usize = 5;
pub const COM_DESELECT_VOLTAGE_SLOT: usize = 6;

/// The commands held in `slots`, in order, skipping the empty ones.
pub open spec fn present(slots: Seq<Option<Command>>) -> Seq<Command>
    decreases slots.len(),
{
    if slots.len() == 0 {
        Seq::empty()
    } else {
        match slots.last() {
            Some(c) => present(slots.drop_last()).push(c),
            None => present(slots.drop_last()),
        }
    }
}

/// A configuration for the display. Each optional setting is either sent at initialization or
/// left at the controller's power-on default.
pub struct Config {
    persistent_config: PersistentConfig,
    phase_lengths_cmd: Option<Command>,
    contrast_current_cmd: Option<Command>,
    clock_fosc_divset_cmd: Option<Command>,
    display_enhancements_cmd: Option<Command>,
    second_precharge_period_cmd: Option<Command>,
    precharge_voltage_cmd: Option<Command>,
    com_deselect_voltage_cmd: Option<Command>,
}

impl Config {
    /// The COM settings, which the display keeps.
    pub closed spec fn persistent(&self) -> PersistentConfig {
        self.persistent_config
    }

    /// The optional settings, in the order in which they are sent.
    pub closed spec fn slots(&self) -> Seq<Option<Command>> {
        seq![
            self.phase_lengths_cmd,
            self.contrast_current_cmd,
            self.clock_fosc_divset_cmd,
            self.display_enhancements_cmd,
            self.second_precharge_period_cmd,
            self.precharge_voltage_cmd,
            self.com_deselect_voltage_cmd,
        ]
    }

    /// The commands that `send` sends, in order.
    pub open spec fn commands(&self) -> Seq<Command> {
        present(self.slots())
    }

    /// A configuration with the two mandatory COM settings and every optional setting left at
    /// its power-on default.
    pub fn new(com_scan_direction: ComScanDirection, com_layout: ComLayout) -> (r: Self)
        ensures
            r.persistent() == (PersistentConfig { com_scan_direction, com_layout }),
            r.slots() == Seq::new(7, |i: int| None::<Command>),
    {
        let r = Config {
            persistent_config: PersistentConfig {
                com_scan_direction: com_scan_direction,
                com_layout: com_layout,
            },
            phase_lengths_cmd: None,
            contrast_current_cmd: None,
            clock_fosc_divset_cmd: None,
            display_enhancements_cmd: None,
            second_precharge_period_cmd: None,
            precharge_voltage_cmd: None,
            com_deselect_voltage_cmd: None,
        };
        assert(r.slots() =~= Seq::new(7, |i: int| None::<Command>));
        r
    }

    /// Also set the contrast current (see `Command::SetContrastCurrent`).
    pub fn contrast_current(self, current: u8) -> (r: Self)
        ensures
            r.persistent() == self.persistent(),
            r.slots() == self.slots().update(
                CONTRAST_CURRENT_SLOT as int,
                Some(Command::SetContrastCurrent(current)),
            ),
    {
        let r = Config { contrast_current_cmd: Some(Command::SetContrastCurrent(current)), ..self };
        assert(r.slots() =~= self.slots().update(
            CONTRAST_CURRENT_SLOT as int,
            Some(Command::SetContrastCurrent(current)),
        ));
        r
    }

    /// Also set the drive phase lengths (see `Command::SetPhaseLengths`).
    pub fn phase_lengths(self, reset: u8, first_precharge: u8) -> (r: Self)
        ensures
            r.persistent() == self.persistent(),
            r.slots() == self.slots().update(
                PHASE_LENGTHS_SLOT as int,
                Some(Command::SetPhaseLengths(reset, first_precharge)),
            ),
    {
        let r = Config {
            phase_lengths_cmd: Some(Command::SetPhaseLengths(reset, first_precharge)),
            ..self
        };
        assert(r.slots() =~= self.slots().update(
            PHASE_LENGTHS_SLOT as int,
            Some(Command::SetPhaseLengths(reset, first_precharge)),
        ));
        r
    }

    /// Also set the oscillator frequency and clock divider (see `Command::SetClockFoscDivset`).
    pub fn clock_fosc_divset(self, fosc: u8, divset: u8) -> (r: Self)
        ensures
            r.persistent() == self.persistent(),
            r.slots() == self.slots().update(
                CLOCK_FOSC_DIVSET_SLOT as int,
                Some(Command::SetClockFoscDivset(fosc, divset)),
            ),
    {
        let r = Config {
            clock_fosc_divset_cmd: Some(Command::SetClockFoscDivset(fosc, divset)),
            ..self
        };
        assert(r.slots() =~= self.slots().update(
            CLOCK_FOSC_DIVSET_SLOT as int,
            Some(Command::SetClockFoscDivset(fosc, divset)),
        ));
        r
    }

    /// Also set the display enhancements (see `Command::SetDisplayEnhancements`).
    pub fn display_enhancements(self, external_vsl: bool, enhanced_low_gs_quality: bool) -> (r:
        Self)
        ensures
            r.persistent() == self.persistent(),
            r.slots() == self.slots().update(
                DISPLAY_ENHANCEMENTS_SLOT as int,
                Some(Command::SetDisplayEnhancements(external_vsl, enhanced_low_gs_quality)),
            ),
    {
        let r = Config {
            display_enhancements_cmd: Some(
                Command::SetDisplayEnhancements(external_vsl, enhanced_low_gs_quality),
            ),
            ..self
        };
        assert(r.slots() =~= self.slots().update(
            DISPLAY_ENHANCEMENTS_SLOT as int,
            Some(Command::SetDisplayEnhancements(external_vsl, enhanced_low_gs_quality)),
        ));
        r
    }

    /// Also set the second pre-charge period (see `Command::SetSecondPrechargePeriod`).
    pub fn second_precharge_period(self, period: u8) -> (r: Self)
        ensures
            r.persistent() == self.persistent(),
            r.slots() == self.slots().update(
                SECOND_PRECHARGE_PERIOD_SLOT as int,
                Some(Command::SetSecondPrechargePeriod(period)),
            ),
    {
        let r = Config {
            second_precharge_period_cmd: Some(Command::SetSecondPrechargePeriod(period)),
            ..self
        };
        assert(r.slots() =~= self.slots().update(
            SECOND_PRECHARGE_PERIOD_SLOT as int,
            Some(Command::SetSecondPrechargePeriod(period)),
        ));
        r
    }

    /// Also set the pre-charge voltage (see `Command::SetPreChargeVoltage`).
    pub fn precharge_voltage(self, voltage: u8) -> (r: Self)
        ensures
            r.persistent() == self.persistent(),
            r.slots() == self.slots().update(
                PRECHARGE_VOLTAGE_SLOT as int,
                Some(Command::SetPreChargeVoltage(voltage)),
            ),
    {
        let r = Config {
            precharge_voltage_cmd: Some(Command::SetPreChargeVoltage(voltage)),
            ..self
        };
        assert(r.slots() =~= self.slots().update(
            PRECHARGE_VOLTAGE_SLOT as int,
            Some(Command::SetPreChargeVoltage(voltage)),
        ));
        r
    }

    /// Also set the COM deselect voltage (see `Command::SetComDeselectVoltage`).
    pub fn com_deselect_voltage(self, voltage: u8) -> (r: Self)
        ensures
            r.persistent() == self.persistent(),
            r.slots() == self.slots().update(
                COM_DESELECT_VOLTAGE_SLOT as int,
                Some(Command::SetComDeselectVoltage(voltage)),
            ),
    {
        let r = Config {
            com_deselect_voltage_cmd: Some(Command::SetComDeselectVoltage(voltage)),
            ..self
        };
        assert(r.slots() =~= self.slots().update(
            COM_DESELECT_VOLTAGE_SLOT as int,
            Some(Command::SetComDeselectVoltage(voltage)),
        ));
        r
    }

    /// The COM settings that the display keeps after initialization.
    pub fn persistent_config(&self) -> (r: PersistentConfig)
        ensures
            r == self.persistent(),
    {
        self.persistent_config
    }

    /// The optional commands that are set, in the order in which they are sent.
    pub fn pending_commands(&self) -> (r: Vec<Command>)
        ensures
            r@ == self.commands(),
    {
        let slots: Vec<Option<Command>> = vec![
            self.phase_lengths_cmd,
            self.contrast_current_cmd,
            self.clock_fosc_divset_cmd,
            self.display_enhancements_cmd,
            self.second_precharge_period_cmd,
            self.precharge_voltage_cmd,
            self.com_deselect_voltage_cmd,
        ];
        assert(slots@ =~= self.slots());
        let mut r: Vec<Command> = Vec::new();
        let mut i: usize = 0;
        assert(slots@.take(0) =~= Seq::<Option<Command>>::empty());
        while i < slots.len()
            invariant
                i <= slots@.len(),
                r@ == present(slots@.take(i as int)),
            decreases slots@.len() - i,
        {
            assert(slots@.take(i + 1).drop_last() =~= slots@.take(i as int));
            if let Some(c) = slots[i] {
                r.push(c);
            }
            i = i + 1;
        }
        assert(slots@.take(i as int) =~= slots@);
        r
    }

    /// Send the optional commands that are set, in order, stopping at the first failure.
    pub fn send<DI: DisplayInterface>(&self, iface: &mut DI) -> (r: Result<(), Error<DI::Error>>)
        ensures
            performed(old(iface).sent(), final(iface).sent(), commands_plan(self.commands()), r),
    {
        let cmds = self.pending_commands();
        send_commands(&cmds, iface)
    }
}

} // verus!
