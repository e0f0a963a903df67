//! The requests that each operation of the driver consists of.
//!
//! Every function here is a statement, not code: it says which requests an
//! operation makes of the hardware, in which order, on a driver with a given
//! wiring. The driver's operations are proved to produce exactly these.

use vstd::prelude::*;

use crate::encoder::{chunks, BYTE_BUFFER, WORD_BUFFER};
use crate::endian::{be_bytes, words_be};
use crate::enums::{BacklightState, Instruction, Orientation, TearingEffect};
use crate::program::power_on;
use crate::signal::{
    frame, lemma_frame_respects, lemma_frame_tidy, lemma_respects_both, lemma_tidy_both,
    lemma_unselected, respects, tidy, ActionView, Level, Line, Wiring,
};

verus! {

/// How long the reset line is left to settle after each change, in
/// microseconds.
pub const RESET_SETTLE_US: u32 = 10;

/// How long the backlight line is left to settle after a change of state, in
/// microseconds.
pub const BACKLIGHT_SETTLE_US: u32 = 10;

/// How long the controller is left to settle after a step of its power-on
/// program, in microseconds. The backlight is held low for as long when it is
/// engaged.
pub const SETTLE_US: u32 = 10_000;

/// A request to drive `line` to `level`.
pub open spec fn drive(line: Line, level: Level) -> ActionView {
    ActionView::Drive { line, level }
}

/// A request to let `us` microseconds pass.
pub open spec fn delay(us: u32) -> ActionView {
    ActionView::Delay { us }
}

/// The transmission of one instruction: a single write of its opcode, with
/// the data/command line low.
pub open spec fn command(wiring: Wiring, instruction: Instruction) -> Seq<ActionView> {
    frame(
        wiring.chip_select,
        wiring.data_command,
        Level::Low,
        seq![seq![instruction.opcode()]],
    )
}

/// The transmission of the parameters of an instruction: `bytes` sent as a
/// stream of bytes, with the data/command line high.
pub open spec fn data(wiring: Wiring, bytes: Seq<u8>) -> Seq<ActionView> {
    frame(
        wiring.chip_select,
        wiring.data_command,
        Level::High,
        chunks(bytes, BYTE_BUFFER as nat),
    )
}

/// The transmission of pixel colours: each most significant byte first, sent
/// as a stream of 16-bit values, with the data/command line high.
pub open spec fn pixels(wiring: Wiring, colors: Seq<u16>) -> Seq<ActionView> {
    frame(
        wiring.chip_select,
        wiring.data_command,
        Level::High,
        chunks(words_be(colors), WORD_BUFFER as nat),
    )
}

/// The transmission of raw pixel bytes: one write of all of `bytes`, with
/// the data/command line high.
pub open spec fn raw(wiring: Wiring, bytes: Seq<u8>) -> Seq<ActionView> {
    frame(wiring.chip_select, wiring.data_command, Level::High, seq![bytes])
}

/// The hard reset: the reset line driven high, low and high again, left to
/// settle after each change. Nothing where the line is not wired.
pub open spec fn reset_pulse(wiring: Wiring) -> Seq<ActionView> {
    if wiring.reset {
        seq![
            drive(Line::Reset, Level::High),
            delay(RESET_SETTLE_US),
            drive(Line::Reset, Level::Low),
            delay(RESET_SETTLE_US),
            drive(Line::Reset, Level::High),
            delay(RESET_SETTLE_US),
        ]
    } else {
        seq![]
    }
}

/// Engaging the backlight: the line driven low, held, and driven high.
/// Nothing where the line is not wired.
pub open spec fn backlight_engage(wiring: Wiring) -> Seq<ActionView> {
    if wiring.backlight {
        seq![
            drive(Line::Backlight, Level::Low),
            delay(SETTLE_US),
            drive(Line::Backlight, Level::High),
        ]
    } else {
        seq![]
    }
}

/// The level that puts the backlight into `state`.
pub open spec fn backlight_level(state: BacklightState) -> Level {
    match state {
        BacklightState::On => Level::High,
        BacklightState::Off => Level::Low,
    }
}

/// Switching the backlight: the line driven to the level of `state` and left
/// to settle. Nothing where the line is not wired.
pub open spec fn backlight_switch(wiring: Wiring, state: BacklightState) -> Seq<ActionView> {
    if wiring.backlight {
        seq![drive(Line::Backlight, backlight_level(state)), delay(BACKLIGHT_SETTLE_US)]
    } else {
        seq![]
    }
}

/// Setting the address window: the column range and the row range, each as
/// an instruction followed by its first and its last coordinate, most
/// significant byte first. The coordinates are those the controller is to
/// see.
pub open spec fn window(wiring: Wiring, x0: u16, y0: u16, x1: u16, y1: u16) -> Seq<ActionView> {
    command(wiring, Instruction::CASET) + data(wiring, be_bytes(x0)) + data(wiring, be_bytes(x1))
        + command(wiring, Instruction::RASET) + data(wiring, be_bytes(y0)) + data(
        wiring,
        be_bytes(y1),
    )
}

/// Filling a window that has been set: the memory-write instruction and the
/// colours.
pub open spec fn fill(wiring: Wiring, colors: Seq<u16>) -> Seq<ActionView> {
    command(wiring, Instruction::RAMWR) + pixels(wiring, colors)
}

/// Writing raw bytes into a window that has been set: the memory-write
/// instruction and one write of all the bytes.
pub open spec fn blit(wiring: Wiring, bytes: Seq<u8>) -> Seq<ActionView> {
    command(wiring, Instruction::RAMWR) + raw(wiring, bytes)
}

/// Selecting an orientation: the memory-access-control instruction and the
/// orientation's byte.
pub open spec fn orient(wiring: Wiring, orientation: Orientation) -> Seq<ActionView> {
    command(wiring, Instruction::MADCTL) + data(wiring, seq![orientation.access_control()])
}

/// Setting the scroll offset: the instruction and the offset, most
/// significant byte first.
pub open spec fn scroll(wiring: Wiring, offset: u16) -> Seq<ActionView> {
    command(wiring, Instruction::VSCAD) + data(wiring, be_bytes(offset))
}

/// Configuring the tearing-effect line: switched off by one instruction,
/// switched on by another with a flag that says what the line signals.
pub open spec fn tearing(wiring: Wiring, effect: TearingEffect) -> Seq<ActionView> {
    match effect {
        TearingEffect::Off => command(wiring, Instruction::TEOFF),
        TearingEffect::Vertical => command(wiring, Instruction::TEON) + data(wiring, seq![0u8]),
        TearingEffect::HorizontalAndVertical => command(wiring, Instruction::TEON) + data(
            wiring,
            seq![1u8],
        ),
    }
}

/// One step of a program: the instruction, its parameters where it has
/// any, and the time the controller is left to settle.
pub open spec fn program_step(wiring: Wiring, step: (Instruction, Seq<u8>)) -> Seq<ActionView> {
    command(wiring, step.0) + (if step.1.len() > 0 {
        data(wiring, step.1)
    } else {
        seq![]
    }) + seq![delay(SETTLE_US)]
}

/// A program: its steps, one after the other.
pub open spec fn program(wiring: Wiring, steps: Seq<(Instruction, Seq<u8>)>) -> Seq<ActionView>
    decreases steps.len(),
{
    if steps.len() == 0 {
        seq![]
    } else {
        program(wiring, steps.drop_last()) + program_step(wiring, steps.last())
    }
}

/// Initialization: the hard reset, the backlight engaged, and the power-on
/// program.
pub open spec fn power_up(wiring: Wiring) -> Seq<ActionView> {
    reset_pulse(wiring) + backlight_engage(wiring) + program(wiring, power_on())
}

/// A program asks nothing of a line that is not wired.
pub proof fn lemma_program_respects(wiring: Wiring, steps: Seq<(Instruction, Seq<u8>)>)
    ensures
        respects(program(wiring, steps), wiring),
    decreases steps.len(),
{
    if steps.len() > 0 {
        let step = steps.last();
        lemma_program_respects(wiring, steps.drop_last());
        lemma_frame_respects(wiring, Level::Low, seq![seq![step.0.opcode()]]);
        lemma_frame_respects(wiring, Level::High, chunks(step.1, BYTE_BUFFER as nat));
        let parameters = if step.1.len() > 0 {
            data(wiring, step.1)
        } else {
            seq![]
        };
        lemma_respects_both(command(wiring, step.0), parameters, wiring);
        lemma_respects_both(command(wiring, step.0) + parameters, seq![delay(SETTLE_US)], wiring);
        lemma_respects_both(
            program(wiring, steps.drop_last()),
            program_step(wiring, step),
            wiring,
        );
    }
}

/// Setting the address window asks nothing of a line that is not wired.
pub proof fn lemma_window_respects(wiring: Wiring, x0: u16, y0: u16, x1: u16, y1: u16)
    ensures
        respects(window(wiring, x0, y0, x1, y1), wiring),
{
    lemma_frame_respects(wiring, Level::Low, seq![seq![Instruction::CASET.opcode()]]);
    lemma_frame_respects(wiring, Level::Low, seq![seq![Instruction::RASET.opcode()]]);
    lemma_frame_respects(wiring, Level::High, chunks(be_bytes(x0), BYTE_BUFFER as nat));
    lemma_frame_respects(wiring, Level::High, chunks(be_bytes(x1), BYTE_BUFFER as nat));
    lemma_frame_respects(wiring, Level::High, chunks(be_bytes(y0), BYTE_BUFFER as nat));
    lemma_frame_respects(wiring, Level::High, chunks(be_bytes(y1), BYTE_BUFFER as nat));
    let a = command(wiring, Instruction::CASET);
    let b = a + data(wiring, be_bytes(x0));
    let c = b + data(wiring, be_bytes(x1));
    let d = c + command(wiring, Instruction::RASET);
    let e = d + data(wiring, be_bytes(y0));
    lemma_respects_both(a, data(wiring, be_bytes(x0)), wiring);
    lemma_respects_both(b, data(wiring, be_bytes(x1)), wiring);
    lemma_respects_both(c, command(wiring, Instruction::RASET), wiring);
    lemma_respects_both(d, data(wiring, be_bytes(y0)), wiring);
    lemma_respects_both(e, data(wiring, be_bytes(y1)), wiring);
}

/// No operation asks anything of a line that is not wired: with the reset,
/// the backlight, the data/command or the chip-select line missing, in any
/// combination, initialization, the pixel operations and the single
/// commands leave out the requests on that line and keep all others.
pub proof fn lemma_operations_respect_wiring(
    wiring: Wiring,
    x0: u16,
    y0: u16,
    x1: u16,
    y1: u16,
    colors: Seq<u16>,
    bytes: Seq<u8>,
    state: BacklightState,
    orientation: Orientation,
    offset: u16,
    effect: TearingEffect,
)
    ensures
        respects(power_up(wiring), wiring),
        respects(reset_pulse(wiring), wiring),
        respects(backlight_switch(wiring, state), wiring),
        respects(window(wiring, x0, y0, x1, y1) + fill(wiring, colors), wiring),
        respects(window(wiring, x0, y0, x1, y1) + blit(wiring, bytes), wiring),
        respects(orient(wiring, orientation), wiring),
        respects(scroll(wiring, offset), wiring),
        respects(tearing(wiring, effect), wiring),
{
    lemma_program_respects(wiring, power_on());
    lemma_respects_both(reset_pulse(wiring), backlight_engage(wiring), wiring);
    lemma_respects_both(
        reset_pulse(wiring) + backlight_engage(wiring),
        program(wiring, power_on()),
        wiring,
    );
    lemma_window_respects(wiring, x0, y0, x1, y1);
    lemma_frame_respects(wiring, Level::Low, seq![seq![Instruction::RAMWR.opcode()]]);
    lemma_frame_respects(wiring, Level::High, chunks(words_be(colors), WORD_BUFFER as nat));
    lemma_frame_respects(wiring, Level::High, seq![bytes]);
    lemma_respects_both(command(wiring, Instruction::RAMWR), pixels(wiring, colors), wiring);
    lemma_respects_both(command(wiring, Instruction::RAMWR), raw(wiring, bytes), wiring);
    lemma_respects_both(window(wiring, x0, y0, x1, y1), fill(wiring, colors), wiring);
    lemma_respects_both(window(wiring, x0, y0, x1, y1), blit(wiring, bytes), wiring);
    lemma_frame_respects(wiring, Level::Low, seq![seq![Instruction::MADCTL.opcode()]]);
    lemma_frame_respects(
        wiring,
        Level::High,
        chunks(seq![orientation.access_control()], BYTE_BUFFER as nat),
    );
    lemma_respects_both(
        command(wiring, Instruction::MADCTL),
        data(wiring, seq![orientation.access_control()]),
        wiring,
    );
    lemma_frame_respects(wiring, Level::Low, seq![seq![Instruction::VSCAD.opcode()]]);
    lemma_frame_respects(wiring, Level::High, chunks(be_bytes(offset), BYTE_BUFFER as nat));
    lemma_respects_both(command(wiring, Instruction::VSCAD), data(wiring, be_bytes(offset)), wiring);
    lemma_frame_respects(wiring, Level::Low, seq![seq![Instruction::TEOFF.opcode()]]);
    lemma_frame_respects(wiring, Level::Low, seq![seq![Instruction::TEON.opcode()]]);
    lemma_frame_respects(wiring, Level::High, chunks(seq![0u8], BYTE_BUFFER as nat));
    lemma_frame_respects(wiring, Level::High, chunks(seq![1u8], BYTE_BUFFER as nat));
    lemma_respects_both(command(wiring, Instruction::TEON), data(wiring, seq![0u8]), wiring);
    lemma_respects_both(command(wiring, Instruction::TEON), data(wiring, seq![1u8]), wiring);
}

/// A program keeps chip-select in order.
pub proof fn lemma_program_tidy(wiring: Wiring, steps: Seq<(Instruction, Seq<u8>)>)
    ensures
        tidy(program(wiring, steps)),
    decreases steps.len(),
{
    let cs = wiring.chip_select;
    let dc = wiring.data_command;
    if steps.len() > 0 {
        let step = steps.last();
        lemma_program_tidy(wiring, steps.drop_last());
        lemma_frame_tidy(cs, dc, Level::Low, seq![seq![step.0.opcode()]]);
        lemma_frame_tidy(cs, dc, Level::High, chunks(step.1, BYTE_BUFFER as nat));
        let parameters = if step.1.len() > 0 {
            data(wiring, step.1)
        } else {
            seq![]
        };
        lemma_unselected(Seq::<ActionView>::empty());
        lemma_unselected(seq![delay(SETTLE_US)]);
        lemma_tidy_both(command(wiring, step.0), parameters);
        lemma_tidy_both(command(wiring, step.0) + parameters, seq![delay(SETTLE_US)]);
        lemma_tidy_both(program(wiring, steps.drop_last()), program_step(wiring, step));
    } else {
        lemma_unselected(program(wiring, steps));
    }
}

/// Setting the address window keeps chip-select in order.
pub proof fn lemma_window_tidy(wiring: Wiring, x0: u16, y0: u16, x1: u16, y1: u16)
    ensures
        tidy(window(wiring, x0, y0, x1, y1)),
{
    let cs = wiring.chip_select;
    let dc = wiring.data_command;
    lemma_frame_tidy(cs, dc, Level::Low, seq![seq![Instruction::CASET.opcode()]]);
    lemma_frame_tidy(cs, dc, Level::Low, seq![seq![Instruction::RASET.opcode()]]);
    lemma_frame_tidy(cs, dc, Level::High, chunks(be_bytes(x0), BYTE_BUFFER as nat));
    lemma_frame_tidy(cs, dc, Level::High, chunks(be_bytes(x1), BYTE_BUFFER as nat));
    lemma_frame_tidy(cs, dc, Level::High, chunks(be_bytes(y0), BYTE_BUFFER as nat));
    lemma_frame_tidy(cs, dc, Level::High, chunks(be_bytes(y1), BYTE_BUFFER as nat));
    let a = command(wiring, Instruction::CASET);
    let b = a + data(wiring, be_bytes(x0));
    let c = b + data(wiring, be_bytes(x1));
    let d = c + command(wiring, Instruction::RASET);
    let e = d + data(wiring, be_bytes(y0));
    lemma_tidy_both(a, data(wiring, be_bytes(x0)));
    lemma_tidy_both(b, data(wiring, be_bytes(x1)));
    lemma_tidy_both(c, command(wiring, Instruction::RASET));
    lemma_tidy_both(d, data(wiring, be_bytes(y0)));
    lemma_tidy_both(e, data(wiring, be_bytes(y1)));
}

/// Every operation keeps chip-select in order: the line is asserted only
/// for a transmission and released at its end, so that a transfer which
/// carries the operation out never leaves the controller selected.
pub proof fn lemma_operations_tidy(
    wiring: Wiring,
    x0: u16,
    y0: u16,
    x1: u16,
    y1: u16,
    colors: Seq<u16>,
    bytes: Seq<u8>,
    state: BacklightState,
    orientation: Orientation,
    offset: u16,
    effect: TearingEffect,
)
    ensures
        tidy(power_up(wiring)),
        tidy(reset_pulse(wiring)),
        tidy(backlight_switch(wiring, state)),
        tidy(window(wiring, x0, y0, x1, y1) + fill(wiring, colors)),
        tidy(window(wiring, x0, y0, x1, y1) + blit(wiring, bytes)),
        tidy(orient(wiring, orientation)),
        tidy(scroll(wiring, offset)),
        tidy(tearing(wiring, effect)),
{
    let cs = wiring.chip_select;
    let dc = wiring.data_command;
    lemma_unselected(reset_pulse(wiring));
    lemma_unselected(backlight_engage(wiring));
    lemma_unselected(backlight_switch(wiring, state));
    lemma_program_tidy(wiring, power_on());
    lemma_tidy_both(reset_pulse(wiring), backlight_engage(wiring));
    lemma_tidy_both(reset_pulse(wiring) + backlight_engage(wiring), program(wiring, power_on()));
    lemma_window_tidy(wiring, x0, y0, x1, y1);
    lemma_frame_tidy(cs, dc, Level::Low, seq![seq![Instruction::RAMWR.opcode()]]);
    lemma_frame_tidy(cs, dc, Level::High, chunks(words_be(colors), WORD_BUFFER as nat));
    lemma_frame_tidy(cs, dc, Level::High, seq![bytes]);
    lemma_tidy_both(command(wiring, Instruction::RAMWR), pixels(wiring, colors));
    lemma_tidy_both(command(wiring, Instruction::RAMWR), raw(wiring, bytes));
    lemma_tidy_both(window(wiring, x0, y0, x1, y1), fill(wiring, colors));
    lemma_tidy_both(window(wiring, x0, y0, x1, y1), blit(wiring, bytes));
    lemma_frame_tidy(cs, dc, Level::Low, seq![seq![Instruction::MADCTL.opcode()]]);
    lemma_frame_tidy(
        cs,
        dc,
        Level::High,
        chunks(seq![orientation.access_control()], BYTE_BUFFER as nat),
    );
    lemma_tidy_both(
        command(wiring, Instruction::MADCTL),
        data(wiring, seq![orientation.access_control()]),
    );
    lemma_frame_tidy(cs, dc, Level::Low, seq![seq![Instruction::VSCAD.opcode()]]);
    lemma_frame_tidy(cs, dc, Level::High, chunks(be_bytes(offset), BYTE_BUFFER as nat));
    lemma_tidy_both(command(wiring, Instruction::VSCAD), data(wiring, be_bytes(offset)));
    lemma_frame_tidy(cs, dc, Level::Low, seq![seq![Instruction::TEOFF.opcode()]]);
    lemma_frame_tidy(cs, dc, Level::Low, seq![seq![Instruction::TEON.opcode()]]);
    lemma_frame_tidy(cs, dc, Level::High, chunks(seq![0u8], BYTE_BUFFER as nat));
    lemma_frame_tidy(cs, dc, Level::High, chunks(seq![1u8], BYTE_BUFFER as nat));
    lemma_tidy_both(command(wiring, Instruction::TEON), data(wiring, seq![0u8]));
    lemma_tidy_both(command(wiring, Instruction::TEON), data(wiring, seq![1u8]));
}

} // verus!
