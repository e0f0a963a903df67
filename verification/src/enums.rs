//! The closed sets of values the driver works with: controller instructions,
//! orientations, tearing-effect modes, backlight states, source formats and
//! errors.

use vstd::prelude::*;

verus! {

/// Instructions of the ST7789 controller.
#[allow(non_camel_case_types)]
#[derive(Clone, Copy, Debug, PartialEq, Eq, Structural)]
pub enum Instruction {
    NOP,
    SWRESET,
    RDDID,
    RDDST,
    SLPIN,
    SLPOUT,
    PTLON,
    NORON,
    INVOFF,
    INVON,
    DISPOFF,
    DISPON,
    CASET,
    RASET,
    RAMWR,
    RAMRD,
    PTLAR,
    VSCRDER,
    TEOFF,
    TEON,
    MADCTL,
    VSCAD,
    COLMOD,
    PORCTRL,
    FRCTRL1,
    GCTRL,
    VCOMS,
    LCMCTRL,
    VDVVRHEN,
    VRHS,
    VDVS,
    VCMOFSET,
    FRCTRL2,
    PWCTRL1,
    PVGAMCTRL,
    NVGAMCTRL,
}

impl Instruction {
    /// The opcode the controller knows the instruction by.
    pub open spec fn opcode(self) -> u8 {
        match self {
            Instruction::NOP => 0x00,
            Instruction::SWRESET => 0x01,
            Instruction::RDDID => 0x04,
            Instruction::RDDST => 0x09,
            Instruction::SLPIN => 0x10,
            Instruction::SLPOUT => 0x11,
            Instruction::PTLON => 0x12,
            Instruction::NORON => 0x13,
            Instruction::INVOFF => 0x20,
            Instruction::INVON => 0x21,
            Instruction::DISPOFF => 0x28,
            Instruction::DISPON => 0x29,
            Instruction::CASET => 0x2A,
            Instruction::RASET => 0x2B,
            Instruction::RAMWR => 0x2C,
            Instruction::RAMRD => 0x2E,
            Instruction::PTLAR => 0x30,
            Instruction::VSCRDER => 0x33,
            Instruction::TEOFF => 0x34,
            Instruction::TEON => 0x35,
            Instruction::MADCTL => 0x36,
            Instruction::VSCAD => 0x37,
            Instruction::COLMOD => 0x3A,
            Instruction::PORCTRL => 0xB2,
            Instruction::FRCTRL1 => 0xB3,
            Instruction::GCTRL => 0xB7,
            Instruction::VCOMS => 0xBB,
            Instruction::LCMCTRL => 0xC0,
            Instruction::VDVVRHEN => 0xC2,
            Instruction::VRHS => 0xC3,
            Instruction::VDVS => 0xC4,
            Instruction::VCMOFSET => 0xC5,
            Instruction::FRCTRL2 => 0xC6,
            Instruction::PWCTRL1 => 0xD0,
            Instruction::PVGAMCTRL => 0xE0,
            Instruction::NVGAMCTRL => 0xE1,
        }
    }

    /// The opcode the controller knows the instruction by.
    pub fn code(self) -> (code: u8)
        ensures
            code == self.opcode(),
    {
        match self {
            Instruction::NOP => 0x00,
            Instruction::SWRESET => 0x01,
            Instruction::RDDID => 0x04,
            Instruction::RDDST => 0x09,
            Instruction::SLPIN => 0x10,
            Instruction::SLPOUT => 0x11,
            Instruction::PTLON => 0x12,
            Instruction::NORON => 0x13,
            Instruction::INVOFF => 0x20,
            Instruction::INVON => 0x21,
            Instruction::DISPOFF => 0x28,
            Instruction::DISPON => 0x29,
            Instruction::CASET => 0x2A,
            Instruction::RASET => 0x2B,
            Instruction::RAMWR => 0x2C,
            Instruction::RAMRD => 0x2E,
            Instruction::PTLAR => 0x30,
            Instruction::VSCRDER => 0x33,
            Instruction::TEOFF => 0x34,
            Instruction::TEON => 0x35,
            Instruction::MADCTL => 0x36,
            Instruction::VSCAD => 0x37,
            Instruction::COLMOD => 0x3A,
            Instruction::PORCTRL => 0xB2,
            Instruction::FRCTRL1 => 0xB3,
            Instruction::GCTRL => 0xB7,
            Instruction::VCOMS => 0xBB,
            Instruction::LCMCTRL => 0xC0,
            Instruction::VDVVRHEN => 0xC2,
            Instruction::VRHS => 0xC3,
            Instruction::VDVS => 0xC4,
            Instruction::VCMOFSET => 0xC5,
            Instruction::FRCTRL2 => 0xC6,
            Instruction::PWCTRL1 => 0xD0,
            Instruction::PVGAMCTRL => 0xE0,
            Instruction::NVGAMCTRL => 0xE1,
        }
    }
}

/// How the picture is rotated and mirrored on the panel.
#[derive(Clone, Copy, Debug, PartialEq, Eq, Structural)]
pub enum Orientation {
    Portrait,
    Landscape,
    PortraitSwapped,
    LandscapeSwapped,
}

impl Orientation {
    /// The memory-access-control byte that selects the orientation.
    pub open spec fn access_control(self) -> u8 {
        match self {
            Orientation::Portrait => 0b0000_0000,
            Orientation::Landscape => 0b0110_0000,
            Orientation::PortraitSwapped => 0b1100_0000,
            Orientation::LandscapeSwapped => 0b1010_0000,
        }
    }

    /// The memory-access-control byte that selects the orientation.
    pub fn code(self) -> (code: u8)
        ensures
            code == self.access_control(),
    {
        match self {
            Orientation::Portrait => 0b0000_0000,
            Orientation::Landscape => 0b0110_0000,
            Orientation::PortraitSwapped => 0b1100_0000,
            Orientation::LandscapeSwapped => 0b1010_0000,
        }
    }
}

impl Default for Orientation {
    fn default() -> (orientation: Self)
        ensures
            orientation == Orientation::Landscape,
    {
        Orientation::Landscape
    }
}

/// What the tearing-effect output line signals.
#[derive(Clone, Copy, Debug, PartialEq, Eq, Structural)]
pub enum TearingEffect {
    /// The line is off.
    Off,
    /// The line signals vertical blanking.
    Vertical,
    /// The line signals horizontal and vertical blanking.
    HorizontalAndVertical,
}

/// Whether the backlight is lit.
#[derive(Clone, Copy, Debug, PartialEq, Eq, Structural)]
pub enum BacklightState {
    On,
    Off,
}

/// Why a transmission to the controller failed.
#[derive(Clone, Copy, Debug, PartialEq, Eq, Structural)]
pub enum SpiError {
    /// The bus refused a write.
    BusWriteError,
    /// The data/command line could not be driven.
    DCError,
    /// The chip-select line could not be asserted.
    CSError,
    /// The source format has no encoding.
    DataFormatNotImplemented,
}

/// Why an operation of the driver failed.
#[derive(Debug, PartialEq, Eq)]
pub enum Error<PinE> {
    /// The transmission to the controller failed, or a request was malformed.
    DisplayError,
    /// The reset or the backlight line could not be driven; the line's own
    /// error is enclosed.
    Pin(PinE),
}

/// Where the bytes of a transmission come from.
///
/// The streamed formats hold the items of a bounded stream; the encoder
/// sends them through a buffer of fixed size. The formats marked as
/// converted in place leave the caller's values in the order they were sent
/// in, as the host keeps it.
pub enum DataFormat<'a> {
    /// Bytes, sent as one write.
    U8(&'a [u8]),
    /// 16-bit values, sent as one write in the byte order of the host.
    U16(&'a [u16]),
    /// 16-bit values, converted in place and sent as one write, most
    /// significant byte first.
    U16BE(&'a mut [u16]),
    /// 16-bit values, converted in place and sent as one write, least
    /// significant byte first.
    U16LE(&'a mut [u16]),
    /// A stream of bytes.
    U8Iter(&'a [u8]),
    /// A stream of 16-bit values, sent most significant byte first.
    U16BEIter(&'a [u16]),
    /// A stream of 16-bit values, sent least significant byte first.
    U16LEIter(&'a [u16]),
    /// A format for which the encoder has no encoding.
    Other,
}

} // verus!
