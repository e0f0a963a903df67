//! Driver for display panels built around the ST7789 controller.
//!
//! The driver turns pixel, window and command operations into the exact
//! requests the controller needs: bus writes, and changes of the reset,
//! backlight, data/command and chip-select lines that go with them. It owns
//! the bus and the lines but never calls them. Each operation hands out a
//! [`Transfer`]; the host performs the request that is due, reports how it
//! went, and gives the transfer back to [`ST7789::conclude`] when nothing is
//! left to do.

use vstd::prelude::*;

pub mod addressing;
pub mod encoder;
pub mod endian;
pub mod enums;
pub mod plan;
pub mod program;
pub mod signal;
pub mod transfer;

pub use crate::addressing::Addressing;
pub use crate::enums::{
    BacklightState, DataFormat, Error, Instruction, Orientation, SpiError, TearingEffect,
};
pub use crate::signal::{Action, Level, Line, Wiring};
pub use crate::transfer::{Outcome, Transfer};

use vstd::std_specs::iter::IteratorSpec;

use crate::addressing::{addressing, fits, x_offset, y_offset};
use crate::encoder::{chunks, collect, converted, encoded, send_u8, ByteOrder, BYTE_BUFFER};
use crate::endian::to_be_bytes;
use crate::plan::{
    backlight_engage, backlight_switch, blit, data, fill, orient, power_up, program, program_step,
    reset_pulse, scroll, tearing, window, BACKLIGHT_SETTLE_US, RESET_SETTLE_US, SETTLE_US,
};
use crate::program::{power_on, step, STEPS};
use crate::signal::{frame, record, views, ActionView};

verus! {

/// Driver for a panel of fixed size.
pub struct ST7789<SPI, OUT> {
    // The bus to the controller.
    spi: SPI,
    // Reset line.
    rst: Option<OUT>,
    // Backlight line.
    bl: Option<OUT>,
    // Data/command line.
    dc: Option<OUT>,
    // Chip-select line.
    cs: Option<OUT>,
    // Visible size.
    size_x: u16,
    size_y: u16,
    // Current orientation, and what logical coordinate 0 is mapped to
    // on each axis.
    orientation: Orientation,
    x_start: u16,
    y_start: u16,
}

impl<SPI, OUT> ST7789<SPI, OUT> {
    /// The bus the driver owns.
    pub closed spec fn bus(&self) -> SPI {
        self.spi
    }

    /// The line the driver owns for `line`, if one is wired.
    pub closed spec fn line(&self, line: Line) -> Option<OUT> {
        match line {
            Line::Reset => self.rst,
            Line::Backlight => self.bl,
            Line::DataCommand => self.dc,
            Line::ChipSelect => self.cs,
        }
    }

    /// Which lines are wired.
    pub open spec fn wiring(&self) -> Wiring {
        Wiring {
            reset: self.line(Line::Reset) is Some,
            backlight: self.line(Line::Backlight) is Some,
            data_command: self.line(Line::DataCommand) is Some,
            chip_select: self.line(Line::ChipSelect) is Some,
        }
    }

    /// The visible size of the panel, along x and along y.
    pub closed spec fn size(&self) -> (u16, u16) {
        (self.size_x, self.size_y)
    }

    /// The current orientation and the shift of the visible window that the
    /// driver applies.
    pub closed spec fn addressing(&self) -> Addressing {
        Addressing { orientation: self.orientation, x_start: self.x_start, y_start: self.y_start }
    }

    /// Whether the shift the driver applies is the one that goes with its
    /// orientation on its panel. A driver is made so, and stays so as long
    /// as it concludes the transfers that it has handed out itself.
    pub open spec fn aligned(&self) -> bool {
        &&& self.addressing().x_start == x_offset(self.addressing().orientation, self.size().1)
        &&& self.addressing().y_start == y_offset(self.addressing().orientation, self.size().1)
    }

    /// Whether what `transfer` has the driver record, if anything, is an
    /// orientation with the shift that goes with it on this panel. Every
    /// transfer that the driver hands out is such.
    pub open spec fn hands_out<PinE>(&self, transfer: Transfer<PinE>) -> bool {
        transfer.addressing() matches Some(a) ==> {
            &&& a.x_start == x_offset(a.orientation, self.size().1)
            &&& a.y_start == y_offset(a.orientation, self.size().1)
        }
    }

    /// A driver for a panel of `size_x` by `size_y` pixels on the bus `spi`,
    /// with a reset, a backlight and a data/command line where one is given
    /// and without a chip-select line. It starts in landscape orientation
    /// with the window unshifted.
    pub fn new(
        spi: SPI,
        rst: Option<OUT>,
        bl: Option<OUT>,
        dc: Option<OUT>,
        size_x: u16,
        size_y: u16,
    ) -> (driver: Self)
        ensures
            driver.bus() == spi,
            driver.line(Line::Reset) == rst,
            driver.line(Line::Backlight) == bl,
            driver.line(Line::DataCommand) == dc,
            driver.line(Line::ChipSelect) is None,
            driver.size() == (size_x, size_y),
            driver.addressing() == (Addressing {
                orientation: Orientation::Landscape,
                x_start: 0,
                y_start: 0,
            }),
            driver.aligned(),
    {
        ST7789 {
            spi,
            rst,
            bl,
            dc,
            cs: None,
            size_x,
            size_y,
            orientation: Orientation::default(),
            x_start: 0,
            y_start: 0,
        }
    }

    /// The same driver with `cs` as its chip-select line.
    pub fn with_chip_select(self, cs: OUT) -> (driver: Self)
        ensures
            driver.bus() == self.bus(),
            driver.line(Line::Reset) == self.line(Line::Reset),
            driver.line(Line::Backlight) == self.line(Line::Backlight),
            driver.line(Line::DataCommand) == self.line(Line::DataCommand),
            driver.line(Line::ChipSelect) == Some(cs),
            driver.size() == self.size(),
            driver.addressing() == self.addressing(),
    {
        let mut driver = self;
        driver.cs = Some(cs);
        driver
    }

    /// The bus, for the host to write to.
    pub fn bus_mut(&mut self) -> (bus: &mut SPI)
        ensures
            *bus == old(self).bus(),
            final(self).bus() == *final(bus),
            forall|line: Line| final(self).line(line) == old(self).line(line),
            final(self).size() == old(self).size(),
            final(self).addressing() == old(self).addressing(),
    {
        &mut self.spi
    }

    /// The line wired for `line`, for the host to drive; none where no line
    /// is wired.
    pub fn line_mut(&mut self, line: Line) -> (pin: Option<&mut OUT>)
        ensures
            match pin {
                Some(p) => old(self).line(line) == Some(*p) && final(self).line(line) == Some(
                    *final(p),
                ),
                None => old(self).line(line) is None && final(self).line(line) is None,
            },
            forall|other: Line| other != line ==> final(self).line(other) == old(self).line(other),
            final(self).wiring() == old(self).wiring(),
            final(self).bus() == old(self).bus(),
            final(self).size() == old(self).size(),
            final(self).addressing() == old(self).addressing(),
    {
        match line {
            Line::Reset => self.rst.as_mut(),
            Line::Backlight => self.bl.as_mut(),
            Line::DataCommand => self.dc.as_mut(),
            Line::ChipSelect => self.cs.as_mut(),
        }
    }

    /// Which lines are wired.
    pub fn lines(&self) -> (wiring: Wiring)
        ensures
            wiring == self.wiring(),
    {
        Wiring {
            reset: self.rst.is_some(),
            backlight: self.bl.is_some(),
            data_command: self.dc.is_some(),
            chip_select: self.cs.is_some(),
        }
    }

    /// The visible size of the panel, along x and along y.
    pub fn dimensions(&self) -> (size: (u16, u16))
        ensures
            size == self.size(),
    {
        (self.size_x, self.size_y)
    }

    /// Returns currently set orientation.
    pub fn orientation(&self) -> (orientation: Orientation)
        ensures
            orientation == self.addressing().orientation,
    {
        self.orientation
    }

    /// What logical coordinate 0 is mapped to, along x and along y.
    pub fn offsets(&self) -> (offsets: (u16, u16))
        ensures
            offsets == (self.addressing().x_start, self.addressing().y_start),
    {
        (self.x_start, self.y_start)
    }

    /// Gives the bus, the reset line and the backlight line back and ends
    /// the driver.
    pub fn release(self) -> (parts: (SPI, Option<OUT>, Option<OUT>))
        ensures
            parts.0 == self.bus(),
            parts.1 == self.line(Line::Reset),
            parts.2 == self.line(Line::Backlight),
    {
        (self.spi, self.rst, self.bl)
    }

    /// Adds to `plan` the transmission of `cmds` as a command: chip-select
    /// asserted where wired, the data/command line driven low where wired,
    /// the bus writes of `cmds`, and chip-select released where wired.
    ///
    /// A format without an encoding is refused; the lines are driven all the
    /// same, with no bus write between.
    pub fn send_commands(&self, plan: &mut Vec<Action>, cmds: DataFormat<'_>) -> (result: Result<
        (),
        SpiError,
    >)
        ensures
            result == if cmds is Other {
                Err::<(), SpiError>(SpiError::DataFormatNotImplemented)
            } else {
                Ok::<(), SpiError>(())
            },
            views(final(plan)@) == views(old(plan)@) + frame(
                self.wiring().chip_select,
                self.wiring().data_command,
                Level::Low,
                encoded(cmds, ByteOrder::Little),
            ) || views(final(plan)@) == views(old(plan)@) + frame(
                self.wiring().chip_select,
                self.wiring().data_command,
                Level::Low,
                encoded(cmds, ByteOrder::Big),
            ),
            cmds matches DataFormat::U16LE(values) ==> converted(values@, final(values)@),
            cmds matches DataFormat::U16BE(values) ==> converted(values@, final(values)@),
    {
        let ghost before = views(plan@);
        // Assert chip select
        if self.cs.is_some() {
            record(plan, Action::Drive { line: Line::ChipSelect, level: Level::Low });
        }
        // 1 = data, 0 = command
        if self.dc.is_some() {
            record(plan, Action::Drive { line: Line::DataCommand, level: Level::Low });
        }
        let ghost selected = views(plan@);
        let result = send_u8(plan, cmds);
        let ghost sent = views(plan@);
        // Release chip select
        if self.cs.is_some() {
            record(plan, Action::Drive { line: Line::ChipSelect, level: Level::High });
        }
        proof {
            let cs = self.wiring().chip_select;
            let dc = self.wiring().data_command;
            assert(selected =~= before + crate::signal::select(cs) + crate::signal::mode(
                dc,
                Level::Low,
            ));
            assert(views(plan@) =~= sent + crate::signal::release(cs));
            crate::signal::lemma_frame_appended(
                before,
                cs,
                dc,
                Level::Low,
                encoded(cmds, ByteOrder::Little),
            );
            crate::signal::lemma_frame_appended(
                before,
                cs,
                dc,
                Level::Low,
                encoded(cmds, ByteOrder::Big),
            );
        }
        result
    }

    /// Adds to `plan` the transmission of `buf` as data: chip-select
    /// asserted where wired, the data/command line driven high where wired,
    /// the bus writes of `buf`, and chip-select released where wired.
    ///
    /// A format without an encoding is refused; the lines are driven all the
    /// same, with no bus write between.
    pub fn send_data(&self, plan: &mut Vec<Action>, buf: DataFormat<'_>) -> (result: Result<
        (),
        SpiError,
    >)
        ensures
            result == if buf is Other {
                Err::<(), SpiError>(SpiError::DataFormatNotImplemented)
            } else {
                Ok::<(), SpiError>(())
            },
            views(final(plan)@) == views(old(plan)@) + frame(
                self.wiring().chip_select,
                self.wiring().data_command,
                Level::High,
                encoded(buf, ByteOrder::Little),
            ) || views(final(plan)@) == views(old(plan)@) + frame(
                self.wiring().chip_select,
                self.wiring().data_command,
                Level::High,
                encoded(buf, ByteOrder::Big),
            ),
            buf matches DataFormat::U16LE(values) ==> converted(values@, final(values)@),
            buf matches DataFormat::U16BE(values) ==> converted(values@, final(values)@),
    {
        let ghost before = views(plan@);
        // Assert chip select
        if self.cs.is_some() {
            record(plan, Action::Drive { line: Line::ChipSelect, level: Level::Low });
        }
        // 1 = data, 0 = command
        if self.dc.is_some() {
            record(plan, Action::Drive { line: Line::DataCommand, level: Level::High });
        }
        let ghost selected = views(plan@);
        let result = send_u8(plan, buf);
        let ghost sent = views(plan@);
        // Release chip select
        if self.cs.is_some() {
            record(plan, Action::Drive { line: Line::ChipSelect, level: Level::High });
        }
        proof {
            let cs = self.wiring().chip_select;
            let dc = self.wiring().data_command;
            assert(selected =~= before + crate::signal::select(cs) + crate::signal::mode(
                dc,
                Level::High,
            ));
            assert(views(plan@) =~= sent + crate::signal::release(cs));
            crate::signal::lemma_frame_appended(
                before,
                cs,
                dc,
                Level::High,
                encoded(buf, ByteOrder::Little),
            );
            crate::signal::lemma_frame_appended(
                before,
                cs,
                dc,
                Level::High,
                encoded(buf, ByteOrder::Big),
            );
        }
        result
    }
}

impl<SPI, OUT> ST7789<SPI, OUT> {
    /// Adds to `plan` the transmission of `command`: its opcode, as a
    /// command.
    pub fn write_command(&self, plan: &mut Vec<Action>, command: Instruction)
        ensures
            views(final(plan)@) == views(old(plan)@) + crate::plan::command(
                self.wiring(),
                command,
            ),
    {
        let opcode: [u8; 1] = [command.code()];
        proof {
            assert(opcode@ =~= seq![command.opcode()]);
            assert(chunks(opcode@, BYTE_BUFFER as nat) =~= seq![seq![command.opcode()]]);
        }
        let _ = self.send_commands(plan, DataFormat::U8Iter(opcode.as_slice()));
    }

    /// Adds to `plan` the transmission of `bytes` as the parameters of an
    /// instruction.
    pub fn write_data(&self, plan: &mut Vec<Action>, bytes: &[u8])
        ensures
            views(final(plan)@) == views(old(plan)@) + data(self.wiring(), bytes@),
    {
        let _ = self.send_data(plan, DataFormat::U8Iter(bytes));
    }

    /// Adds to `plan` the requests that set the address window to the
    /// columns `sx` to `ex` and the rows `sy` to `ey` of the picture. The
    /// controller is given each coordinate shifted by the offset that goes
    /// with the current orientation.
    pub fn set_address_window(&self, plan: &mut Vec<Action>, sx: u16, sy: u16, ex: u16, ey: u16)
        requires
            sx + self.addressing().x_start <= u16::MAX,
            ex + self.addressing().x_start <= u16::MAX,
            sy + self.addressing().y_start <= u16::MAX,
            ey + self.addressing().y_start <= u16::MAX,
        ensures
            views(final(plan)@) == views(old(plan)@) + window(
                self.wiring(),
                (sx + self.addressing().x_start) as u16,
                (sy + self.addressing().y_start) as u16,
                (ex + self.addressing().x_start) as u16,
                (ey + self.addressing().y_start) as u16,
            ),
    {
        let ghost before = views(plan@);
        let x0: u16 = sx + self.x_start;
        let x1: u16 = ex + self.x_start;
        let y0: u16 = sy + self.y_start;
        let y1: u16 = ey + self.y_start;
        self.write_command(plan, Instruction::CASET);
        self.write_data(plan, to_be_bytes(x0).as_slice());
        self.write_data(plan, to_be_bytes(x1).as_slice());
        self.write_command(plan, Instruction::RASET);
        self.write_data(plan, to_be_bytes(y0).as_slice());
        self.write_data(plan, to_be_bytes(y1).as_slice());
        assert(views(plan@) =~= before + window(self.wiring(), x0, y0, x1, y1));
    }
}

impl<SPI, OUT> ST7789<SPI, OUT> {
    /// Adds to `plan` the hard reset, where a reset line is wired.
    fn pulse_reset(&self, plan: &mut Vec<Action>)
        ensures
            views(final(plan)@) == views(old(plan)@) + reset_pulse(self.wiring()),
    {
        let ghost before = views(plan@);
        if self.rst.is_some() {
            record(plan, Action::Drive { line: Line::Reset, level: Level::High });
            record(plan, Action::Delay { us: RESET_SETTLE_US });  // ensure the pin change will get registered
            record(plan, Action::Drive { line: Line::Reset, level: Level::Low });
            record(plan, Action::Delay { us: RESET_SETTLE_US });  // ensure the pin change will get registered
            record(plan, Action::Drive { line: Line::Reset, level: Level::High });
            record(plan, Action::Delay { us: RESET_SETTLE_US });  // ensure the pin change will get registered
        }
        assert(views(plan@) =~= before + reset_pulse(self.wiring()));
    }

    /// Runs commands to initialize the display: the hard reset, the
    /// backlight driven low, held and driven high where that line is wired,
    /// and the power-on program, the controller left to settle after each of
    /// its steps.
    pub fn init<PinE>(&self) -> (transfer: Transfer<PinE>)
        ensures
            transfer.begins(power_up(self.wiring()), self.wiring().chip_select),
    {
        let mut plan: Vec<Action> = Vec::new();
        self.pulse_reset(&mut plan);
        if self.bl.is_some() {
            record(&mut plan, Action::Drive { line: Line::Backlight, level: Level::Low });
            record(&mut plan, Action::Delay { us: SETTLE_US });
            record(&mut plan, Action::Drive { line: Line::Backlight, level: Level::High });
        }
        let ghost lit = views(plan@);
        assert(lit =~= reset_pulse(self.wiring()) + backlight_engage(self.wiring()));
        assert(power_on().len() == STEPS);
        assert(power_on().take(0) =~= Seq::<(Instruction, Seq<u8>)>::empty());
        assert(lit + program(self.wiring(), power_on().take(0)) =~= lit);
        let mut i: usize = 0;
        while i < STEPS
            invariant
                i <= STEPS,
                power_on().len() == STEPS,
                views(plan@) == lit + program(self.wiring(), power_on().take(i as int)),
            decreases STEPS - i,
        {
            let ghost before = views(plan@);
            let (instruction, parameters): (Instruction, Vec<u8>) = step(i);
            self.write_command(&mut plan, instruction);
            if parameters.len() > 0 {
                self.write_data(&mut plan, parameters.as_slice());
            }
            record(&mut plan, Action::Delay { us: SETTLE_US });
            proof {
                let done = power_on().take(i as int);
                let next = power_on().take(i + 1);
                assert(next.drop_last() =~= done);
                assert(next.last() == power_on()[i as int]);
                assert(views(plan@) =~= before + program_step(self.wiring(), power_on()[i as int]));
                assert(lit + program(self.wiring(), done) + program_step(
                    self.wiring(),
                    power_on()[i as int],
                ) =~= lit + program(self.wiring(), next));
            }
            i = i + 1;
        }
        assert(power_on().take(STEPS as int) =~= power_on());
        Transfer::new(plan, self.cs.is_some())
    }

    /// Performs a hard reset: the reset line is driven high, low and high
    /// again and left to settle after each change. Without a reset line
    /// nothing is asked of the hardware.
    pub fn hard_reset<PinE>(&self) -> (transfer: Transfer<PinE>)
        ensures
            transfer.begins(reset_pulse(self.wiring()), self.wiring().chip_select),
    {
        let mut plan: Vec<Action> = Vec::new();
        self.pulse_reset(&mut plan);
        assert(views(plan@) =~= reset_pulse(self.wiring()));
        Transfer::new(plan, self.cs.is_some())
    }

    /// Switches the backlight on or off and leaves the line to settle.
    /// Without a backlight line nothing is asked of the hardware.
    pub fn set_backlight<PinE>(&self, state: BacklightState) -> (transfer: Transfer<PinE>)
        ensures
            transfer.begins(backlight_switch(self.wiring(), state), self.wiring().chip_select),
    {
        let mut plan: Vec<Action> = Vec::new();
        if self.bl.is_some() {
            match state {
                BacklightState::On => record(
                    &mut plan,
                    Action::Drive { line: Line::Backlight, level: Level::High },
                ),
                BacklightState::Off => record(
                    &mut plan,
                    Action::Drive { line: Line::Backlight, level: Level::Low },
                ),
            }
            record(&mut plan, Action::Delay { us: BACKLIGHT_SETTLE_US });  // ensure the pin change will get registered
        }
        assert(views(plan@) =~= backlight_switch(self.wiring(), state));
        Transfer::new(plan, self.cs.is_some())
    }

    /// Sets display orientation: the controller is sent the
    /// memory-access-control instruction with the orientation's byte. Once
    /// the transfer has succeeded, [`ST7789::conclude`] records the
    /// orientation and the shift of the visible window that goes with it.
    pub fn set_orientation<PinE>(&self, orientation: Orientation) -> (transfer: Transfer<PinE>)
        requires
            fits(orientation, self.size().1),
        ensures
            transfer.plan() == orient(self.wiring(), orientation),
            transfer.chip_select() == self.wiring().chip_select,
            transfer.progress() == crate::transfer::fresh(),
            transfer.fault() is None,
            transfer.addressing() == Some(
                Addressing {
                    orientation,
                    x_start: x_offset(orientation, self.size().1) as u16,
                    y_start: y_offset(orientation, self.size().1) as u16,
                },
            ),
            self.hands_out(transfer),
    {
        let mut plan: Vec<Action> = Vec::new();
        self.write_command(&mut plan, Instruction::MADCTL);
        let code: [u8; 1] = [orientation.code()];
        assert(code@ =~= seq![orientation.access_control()]);
        self.write_data(&mut plan, code.as_slice());
        assert(views(plan@) =~= orient(self.wiring(), orientation));
        Transfer::recording(plan, self.cs.is_some(), addressing(orientation, self.size_y))
    }

    /// Blits raw pixel data to the window that starts at (`sx`, `sy`) and is
    /// `dx` pixels wide and `dy` pixels high. The data goes out as it is, in
    /// one write, two bytes to the pixel; choosing the pixel format is up to
    /// the caller.
    ///
    /// Data of any other length than `dx * dy * 2` is refused, and nothing
    /// is asked of the hardware.
    pub fn blit_pixels<PinE>(&self, sx: u16, sy: u16, dx: u16, dy: u16, data: &[u8]) -> (result:
        Result<Transfer<PinE>, Error<PinE>>)
        requires
            data@.len() == dx * dy * 2 ==> {
                &&& 1 <= sx + dx
                &&& 1 <= sy + dy
                &&& sx + self.addressing().x_start <= u16::MAX
                &&& sy + self.addressing().y_start <= u16::MAX
                &&& sx + dx - 1 + self.addressing().x_start <= u16::MAX
                &&& sy + dy - 1 + self.addressing().y_start <= u16::MAX
            },
        ensures
            data@.len() != dx * dy * 2 ==> result matches Err(Error::DisplayError),
            data@.len() == dx * dy * 2 ==> (result matches Ok(transfer) && transfer.begins(
                window(
                    self.wiring(),
                    (sx + self.addressing().x_start) as u16,
                    (sy + self.addressing().y_start) as u16,
                    (sx + dx - 1 + self.addressing().x_start) as u16,
                    (sy + dy - 1 + self.addressing().y_start) as u16,
                ) + blit(self.wiring(), data@),
                self.wiring().chip_select,
            )),
    {
        assert(dx * dy * 2 <= 0x2_0000_0000) by (nonlinear_arith)
            requires
                dx <= 0xffff,
                dy <= 0xffff,
        ;
        assert(0 <= dx * dy) by (nonlinear_arith);
        let expected: u64 = (dx as u64) * (dy as u64) * 2;
        if data.len() as u64 != expected {
            return Err(Error::DisplayError);
        }
        let ex: u16 = (sx as u32 + dx as u32 - 1) as u16;
        let ey: u16 = (sy as u32 + dy as u32 - 1) as u16;
        let mut plan: Vec<Action> = Vec::new();
        self.set_address_window(&mut plan, sx, sy, ex, ey);
        self.write_command(&mut plan, Instruction::RAMWR);
        let _ = self.send_data(&mut plan, DataFormat::U8(data));
        assert(views(plan@) =~= window(
            self.wiring(),
            (sx + self.addressing().x_start) as u16,
            (sy + self.addressing().y_start) as u16,
            (sx + dx - 1 + self.addressing().x_start) as u16,
            (sy + dy - 1 + self.addressing().y_start) as u16,
        ) + blit(self.wiring(), data@));
        Ok(Transfer::new(plan, self.cs.is_some()))
    }

    /// Sets a pixel color at the given coords: a window of one pixel, the
    /// memory-write instruction, and the colour, most significant byte
    /// first. The coordinates are not held against the size of the panel.
    pub fn set_pixel<PinE>(&self, x: u16, y: u16, color: u16) -> (transfer: Transfer<PinE>)
        requires
            x + self.addressing().x_start <= u16::MAX,
            y + self.addressing().y_start <= u16::MAX,
        ensures
            transfer.begins(
                window(
                    self.wiring(),
                    (x + self.addressing().x_start) as u16,
                    (y + self.addressing().y_start) as u16,
                    (x + self.addressing().x_start) as u16,
                    (y + self.addressing().y_start) as u16,
                ) + fill(self.wiring(), seq![color]),
                self.wiring().chip_select,
            ),
    {
        let mut plan: Vec<Action> = Vec::new();
        self.set_address_window(&mut plan, x, y, x, y);
        self.write_command(&mut plan, Instruction::RAMWR);
        let colors: [u16; 1] = [color];
        assert(colors@ =~= seq![color]);
        let _ = self.send_data(&mut plan, DataFormat::U16BEIter(colors.as_slice()));
        assert(views(plan@) =~= window(
            self.wiring(),
            (x + self.addressing().x_start) as u16,
            (y + self.addressing().y_start) as u16,
            (x + self.addressing().x_start) as u16,
            (y + self.addressing().y_start) as u16,
        ) + fill(self.wiring(), seq![color]));
        Transfer::new(plan, self.cs.is_some())
    }

    /// Sets pixel colors in given rectangle bounds: the window from
    /// (`sx`, `sy`) to (`ex`, `ey`), the memory-write instruction, and every
    /// colour that `colors` yields, most significant byte first. How many
    /// colours there are is not held against the size of the window.
    pub fn set_pixels<PinE, T>(&self, sx: u16, sy: u16, ex: u16, ey: u16, colors: T) -> (transfer:
        Transfer<PinE>) where T: Iterator<Item = u16>
        requires
            colors.obeys_prophetic_iter_laws(),
            colors.decrease() is Some,
            sx + self.addressing().x_start <= u16::MAX,
            ex + self.addressing().x_start <= u16::MAX,
            sy + self.addressing().y_start <= u16::MAX,
            ey + self.addressing().y_start <= u16::MAX,
        ensures
            transfer.begins(
                window(
                    self.wiring(),
                    (sx + self.addressing().x_start) as u16,
                    (sy + self.addressing().y_start) as u16,
                    (ex + self.addressing().x_start) as u16,
                    (ey + self.addressing().y_start) as u16,
                ) + fill(self.wiring(), colors.remaining()),
                self.wiring().chip_select,
            ),
    {
        let mut plan: Vec<Action> = Vec::new();
        self.set_address_window(&mut plan, sx, sy, ex, ey);
        self.write_command(&mut plan, Instruction::RAMWR);
        let items: Vec<u16> = collect(colors);
        let _ = self.send_data(&mut plan, DataFormat::U16BEIter(items.as_slice()));
        assert(views(plan@) =~= window(
            self.wiring(),
            (sx + self.addressing().x_start) as u16,
            (sy + self.addressing().y_start) as u16,
            (ex + self.addressing().x_start) as u16,
            (ey + self.addressing().y_start) as u16,
        ) + fill(self.wiring(), colors.remaining()));
        Transfer::new(plan, self.cs.is_some())
    }

    /// Sets scroll offset "shifting" the displayed picture by `offset`
    /// lines.
    pub fn set_scroll_offset<PinE>(&self, offset: u16) -> (transfer: Transfer<PinE>)
        ensures
            transfer.begins(scroll(self.wiring(), offset), self.wiring().chip_select),
    {
        let mut plan: Vec<Action> = Vec::new();
        self.write_command(&mut plan, Instruction::VSCAD);
        self.write_data(&mut plan, to_be_bytes(offset).as_slice());
        assert(views(plan@) =~= scroll(self.wiring(), offset));
        Transfer::new(plan, self.cs.is_some())
    }

    /// Configures the tearing effect output.
    pub fn set_tearing_effect<PinE>(&self, tearing_effect: TearingEffect) -> (transfer: Transfer<
        PinE,
    >)
        ensures
            transfer.begins(tearing(self.wiring(), tearing_effect), self.wiring().chip_select),
    {
        let mut plan: Vec<Action> = Vec::new();
        match tearing_effect {
            TearingEffect::Off => {
                self.write_command(&mut plan, Instruction::TEOFF);
            },
            TearingEffect::Vertical => {
                self.write_command(&mut plan, Instruction::TEON);
                let flag: [u8; 1] = [0];
                assert(flag@ =~= seq![0u8]);
                self.write_data(&mut plan, flag.as_slice());
            },
            TearingEffect::HorizontalAndVertical => {
                self.write_command(&mut plan, Instruction::TEON);
                let flag: [u8; 1] = [1];
                assert(flag@ =~= seq![1u8]);
                self.write_data(&mut plan, flag.as_slice());
            },
        }
        assert(views(plan@) =~= tearing(self.wiring(), tearing_effect));
        Transfer::new(plan, self.cs.is_some())
    }

    /// Ends `transfer` and says how the operation went; none while requests
    /// are still due, and the driver is then left as it is.
    ///
    /// Where the operation was to change the orientation and has succeeded,
    /// the driver now records the new orientation and the shift of the
    /// window that goes with it. After a failure it keeps what it had.
    pub fn conclude<PinE>(&mut self, transfer: Transfer<PinE>) -> (verdict: Option<
        Result<(), Error<PinE>>,
    >)
        ensures
            verdict == transfer.verdict(),
            final(self).addressing() == match (transfer.verdict(), transfer.addressing()) {
                (Some(Ok(())), Some(a)) => a,
                _ => old(self).addressing(),
            },
            final(self).bus() == old(self).bus(),
            forall|line: Line| final(self).line(line) == old(self).line(line),
            final(self).size() == old(self).size(),
            old(self).aligned() && old(self).hands_out(transfer) ==> final(self).aligned(),
    {
        let recorded: Option<Addressing> = transfer.recorded();
        let verdict = transfer.result();
        match &verdict {
            Some(Ok(())) => match recorded {
                Some(a) => {
                    self.orientation = a.orientation;
                    self.x_start = a.x_start;
                    self.y_start = a.y_start;
                },
                None => {},
            },
            _ => {},
        }
        verdict
    }
}

} // verus!
