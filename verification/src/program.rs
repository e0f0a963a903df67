//! The power-on program of the controller.
//!
//! After a reset the controller is brought up by a fixed run of
//! instructions, most of them with parameters. The values are those of the
//! panel the driver is made for and must reach the controller unchanged.

use vstd::prelude::*;

use crate::enums::Instruction;

verus! {

/// The number of steps of the power-on program.
pub const STEPS: usize = 19;

/// The power-on program: each instruction with its parameters, in the order
/// in which they are sent. It wakes the controller, sets up the memory
/// access, the colour mode and the scroll area, tunes porch, gate, voltages,
/// frame rate and power, loads the two gamma tables, and ends by switching
/// inversion and the display on.
pub open spec fn power_on() -> Seq<(Instruction, Seq<u8>)> {
    seq![
        (Instruction::SLPOUT, seq![]),
        (Instruction::INVOFF, seq![]),
        (Instruction::VSCRDER, seq![0x00u8, 0x00, 0x14, 0x00, 0x00, 0x00]),
        (Instruction::MADCTL, seq![0x70u8]),
        (Instruction::COLMOD, seq![0x55u8]),
        (Instruction::PORCTRL, seq![0x0cu8, 0x0c, 0x00, 0x33, 0x33]),
        (Instruction::GCTRL, seq![0x35u8]),
        (Instruction::VCOMS, seq![0x19u8]),
        (Instruction::LCMCTRL, seq![0x2cu8]),
        (Instruction::VDVVRHEN, seq![0x01u8]),
        (Instruction::VRHS, seq![0x12u8]),
        (Instruction::VDVS, seq![0x20u8]),
        (Instruction::FRCTRL2, seq![0x0fu8]),
        (Instruction::PWCTRL1, seq![0xa4u8, 0xa1]),
        (
            Instruction::PVGAMCTRL,
            seq![
                0xd0u8, 0x04, 0x0d, 0x11, 0x13, 0x2b, 0x3f, 0x54, 0x4c, 0x18, 0x0d, 0x0b, 0x1f, 0x23,
            ],
        ),
        (
            Instruction::NVGAMCTRL,
            seq![
                0xd0u8, 0x04, 0x0c, 0x11, 0x13, 0x2c, 0x3f, 0x44, 0x51, 0x2f, 0x1f, 0x1f, 0x20, 0x23,
            ],
        ),
        (Instruction::INVON, seq![]),
        (Instruction::SLPOUT, seq![]),
        (Instruction::DISPON, seq![]),
    ]
}

/// The step of the power-on program at `index`.
pub fn step(index: usize) -> (step: (Instruction, Vec<u8>))
    requires
        index < STEPS,
    ensures
        power_on().len() == STEPS,
        (step.0, step.1@) == power_on()[index as int],
{
    let step: (Instruction, Vec<u8>) = match index {
        0 => (Instruction::SLPOUT, Vec::new()),
        1 => (Instruction::INVOFF, Vec::new()),
        2 => (Instruction::VSCRDER, vec![0x00u8, 0x00, 0x14, 0x00, 0x00, 0x00]),
        3 => (Instruction::MADCTL, vec![0x70u8]),
        4 => (Instruction::COLMOD, vec![0x55u8]),
        5 => (Instruction::PORCTRL, vec![0x0cu8, 0x0c, 0x00, 0x33, 0x33]),
        6 => (Instruction::GCTRL, vec![0x35u8]),
        7 => (Instruction::VCOMS, vec![0x19u8]),
        8 => (Instruction::LCMCTRL, vec![0x2cu8]),
        9 => (Instruction::VDVVRHEN, vec![0x01u8]),
        10 => (Instruction::VRHS, vec![0x12u8]),
        11 => (Instruction::VDVS, vec![0x20u8]),
        12 => (Instruction::FRCTRL2, vec![0x0fu8]),
        13 => (Instruction::PWCTRL1, vec![0xa4u8, 0xa1]),
        14 => (
            Instruction::PVGAMCTRL,
            vec![
                0xd0u8, 0x04, 0x0d, 0x11, 0x13, 0x2b, 0x3f, 0x54, 0x4c, 0x18, 0x0d, 0x0b, 0x1f, 0x23,
            ],
        ),
        15 => (
            Instruction::NVGAMCTRL,
            vec![
                0xd0u8, 0x04, 0x0c, 0x11, 0x13, 0x2c, 0x3f, 0x44, 0x51, 0x2f, 0x1f, 0x1f, 0x20, 0x23,
            ],
        ),
        16 => (Instruction::INVON, Vec::new()),
        17 => (Instruction::SLPOUT, Vec::new()),
        _ => (Instruction::DISPON, Vec::new()),
    };
    assert(step.1@ =~= power_on()[index as int].1);
    step
}

} // verus!
