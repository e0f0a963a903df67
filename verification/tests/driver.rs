use st7789::{
    Action, Addressing, BacklightState, DataFormat, Error, Level, Line, Orientation, Outcome,
    SpiError, TearingEffect, Transfer, Wiring, ST7789,
};

/// What the stub hardware saw.
#[derive(Debug, Clone, PartialEq, Eq)]
enum Seen {
    Pin(Line, Level),
    Write(Vec<u8>),
    Delay(u32),
}

/// Stub hardware: records every request and fails the one at `fail_at`.
struct Host {
    seen: Vec<Seen>,
    fail_at: Option<usize>,
}

impl Host {
    fn new() -> Self {
        Host { seen: Vec::new(), fail_at: None }
    }

    fn failing_at(index: usize) -> Self {
        Host { seen: Vec::new(), fail_at: Some(index) }
    }

    fn perform(&mut self, action: &Action) -> Outcome<u8> {
        let index = self.seen.len();
        let fails = self.fail_at == Some(index);
        match action {
            Action::Drive { line, level } => {
                self.seen.push(Seen::Pin(*line, *level));
                if fails {
                    Outcome::PinFailed(index as u8)
                } else {
                    Outcome::Done
                }
            }
            Action::Write { bytes } => {
                self.seen.push(Seen::Write(bytes.clone()));
                if fails {
                    Outcome::BusFailed
                } else {
                    Outcome::Done
                }
            }
            Action::Delay { us } => {
                self.seen.push(Seen::Delay(*us));
                Outcome::Done
            }
        }
    }

    fn bus_writes(&self) -> usize {
        self.seen.iter().filter(|s| matches!(s, Seen::Write(_))).count()
    }
}

type Lcd = ST7789<&'static str, &'static str>;

fn lcd(rst: bool, bl: bool, dc: bool, cs: bool) -> Lcd {
    let pin = |wired: bool, name: &'static str| if wired { Some(name) } else { None };
    let driver = ST7789::new("spi", pin(rst, "rst"), pin(bl, "bl"), pin(dc, "dc"), 240, 240);
    if cs {
        driver.with_chip_select("cs")
    } else {
        driver
    }
}

fn execute(
    lcd: &mut Lcd,
    mut transfer: Transfer<u8>,
    host: &mut Host,
) -> Result<(), Error<u8>> {
    loop {
        let outcome = match transfer.pending() {
            Some(action) => host.perform(action),
            None => break,
        };
        transfer.advance(outcome);
    }
    assert!(transfer.is_finished());
    lcd.conclude(transfer).expect("the transfer has ended")
}

fn low(line: Line) -> Seen {
    Seen::Pin(line, Level::Low)
}

fn high(line: Line) -> Seen {
    Seen::Pin(line, Level::High)
}

fn write(bytes: &[u8]) -> Seen {
    Seen::Write(bytes.to_vec())
}

/// What a command looks like on a driver with the data/command line only.
fn command(opcode: u8) -> Vec<Seen> {
    vec![low(Line::DataCommand), write(&[opcode])]
}

/// What parameters look like on a driver with the data/command line only.
fn data(bytes: &[u8]) -> Vec<Seen> {
    vec![high(Line::DataCommand), write(bytes)]
}

fn power_on_program() -> Vec<(u8, Vec<u8>)> {
    vec![
        (0x11, vec![]),
        (0x20, vec![]),
        (0x33, vec![0x00, 0x00, 0x14, 0x00, 0x00, 0x00]),
        (0x36, vec![0x70]),
        (0x3A, vec![0x55]),
        (0xB2, vec![0x0c, 0x0c, 0x00, 0x33, 0x33]),
        (0xB7, vec![0x35]),
        (0xBB, vec![0x19]),
        (0xC0, vec![0x2c]),
        (0xC2, vec![0x01]),
        (0xC3, vec![0x12]),
        (0xC4, vec![0x20]),
        (0xC6, vec![0x0f]),
        (0xD0, vec![0xa4, 0xa1]),
        (
            0xE0,
            vec![0xd0, 0x04, 0x0d, 0x11, 0x13, 0x2b, 0x3f, 0x54, 0x4c, 0x18, 0x0d, 0x0b, 0x1f, 0x23],
        ),
        (
            0xE1,
            vec![0xd0, 0x04, 0x0c, 0x11, 0x13, 0x2c, 0x3f, 0x44, 0x51, 0x2f, 0x1f, 0x1f, 0x20, 0x23],
        ),
        (0x21, vec![]),
        (0x11, vec![]),
        (0x29, vec![]),
    ]
}

#[test]
fn new_driver_is_landscape_and_unshifted() {
    let lcd = lcd(true, true, true, false);
    assert_eq!(lcd.orientation(), Orientation::Landscape);
    assert_eq!(lcd.offsets(), (0, 0));
    assert_eq!(lcd.dimensions(), (240, 240));
    assert_eq!(
        lcd.lines(),
        Wiring { reset: true, backlight: true, data_command: true, chip_select: false }
    );
}

#[test]
fn chip_select_can_be_wired() {
    let lcd = lcd(false, false, false, true);
    assert_eq!(
        lcd.lines(),
        Wiring { reset: false, backlight: false, data_command: false, chip_select: true }
    );
}

#[test]
fn release_gives_bus_reset_and_backlight_back() {
    let driver: ST7789<u32, char> = ST7789::new(17, Some('r'), None, Some('d'), 240, 320);
    assert_eq!(driver.release(), (17, Some('r'), None));
    let driver: ST7789<u32, char> =
        ST7789::new(18, None, Some('b'), None, 240, 320).with_chip_select('c');
    assert_eq!(driver.release(), (18, None, Some('b')));
}

#[test]
fn lines_are_lent_where_wired() {
    let mut lcd = lcd(true, false, true, false);
    assert_eq!(lcd.line_mut(Line::Reset), Some(&mut "rst"));
    assert_eq!(lcd.line_mut(Line::Backlight), None);
    assert_eq!(lcd.line_mut(Line::DataCommand), Some(&mut "dc"));
    assert_eq!(lcd.line_mut(Line::ChipSelect), None);
    assert_eq!(*lcd.bus_mut(), "spi");
}

#[test]
fn end_to_end_set_pixel() {
    let mut lcd = lcd(true, true, true, false);
    let mut host = Host::new();
    let transfer = lcd.set_pixel(5, 7, 0xF800);
    assert_eq!(execute(&mut lcd, transfer, &mut host), Ok(()));
    let mut expected = Vec::new();
    expected.extend(command(0x2A));
    expected.extend(data(&[0x00, 0x05]));
    expected.extend(data(&[0x00, 0x05]));
    expected.extend(command(0x2B));
    expected.extend(data(&[0x00, 0x07]));
    expected.extend(data(&[0x00, 0x07]));
    expected.extend(command(0x2C));
    expected.extend(data(&[0xF8, 0x00]));
    assert_eq!(host.seen, expected);
}

#[test]
fn set_pixel_is_shifted_by_the_offsets() {
    let mut lcd = lcd(false, false, false, false);
    let mut host = Host::new();
    let transfer = lcd.set_orientation(Orientation::PortraitSwapped);
    assert_eq!(execute(&mut lcd, transfer, &mut host), Ok(()));
    assert_eq!(lcd.offsets(), (0, 80));
    let mut host = Host::new();
    let transfer = lcd.set_pixel(5, 7, 0xF800);
    assert_eq!(execute(&mut lcd, transfer, &mut host), Ok(()));
    assert_eq!(
        host.seen,
        vec![
            write(&[0x2A]),
            write(&[0x00, 0x05]),
            write(&[0x00, 0x05]),
            write(&[0x2B]),
            write(&[0x00, 87]),
            write(&[0x00, 87]),
            write(&[0x2C]),
            write(&[0xF8, 0x00]),
        ]
    );
}

#[test]
fn set_pixel_forwards_coordinates_beyond_the_panel() {
    let mut lcd = lcd(false, false, false, false);
    let mut host = Host::new();
    let transfer = lcd.set_pixel(0x1234, 0xFFFF, 0x0001);
    assert_eq!(execute(&mut lcd, transfer, &mut host), Ok(()));
    assert_eq!(
        host.seen,
        vec![
            write(&[0x2A]),
            write(&[0x12, 0x34]),
            write(&[0x12, 0x34]),
            write(&[0x2B]),
            write(&[0xFF, 0xFF]),
            write(&[0xFF, 0xFF]),
            write(&[0x2C]),
            write(&[0x00, 0x01]),
        ]
    );
}

#[test]
fn orientation_offset_table() {
    let table = [
        (Orientation::Portrait, 0x00u8, (0u16, 0u16)),
        (Orientation::Landscape, 0x60, (0, 0)),
        (Orientation::PortraitSwapped, 0xC0, (0, 80)),
        (Orientation::LandscapeSwapped, 0xA0, (80, 0)),
    ];
    for (orientation, byte, offsets) in table {
        let mut lcd = lcd(false, false, true, false);
        let mut host = Host::new();
        let transfer = lcd.set_orientation(orientation);
        assert_eq!(execute(&mut lcd, transfer, &mut host), Ok(()));
        let mut expected = command(0x36);
        expected.extend(data(&[byte]));
        assert_eq!(host.seen, expected);
        assert_eq!(lcd.orientation(), orientation);
        assert_eq!(lcd.offsets(), offsets);
    }
}

#[test]
fn orientation_offsets_of_other_panels() {
    let mut full: ST7789<(), ()> = ST7789::new((), None, None, None, 240, 320);
    let mut host = Host::new();
    let transfer: Transfer<u8> = full.set_orientation(Orientation::LandscapeSwapped);
    exhaust(transfer, &mut host, &mut full);
    assert_eq!(full.offsets(), (0, 0));
    let mut small: ST7789<(), ()> = ST7789::new((), None, None, None, 135, 135);
    let transfer: Transfer<u8> = small.set_orientation(Orientation::PortraitSwapped);
    exhaust(transfer, &mut host, &mut small);
    assert_eq!(small.offsets(), (0, 185));
    let transfer: Transfer<u8> = small.set_orientation(Orientation::Portrait);
    exhaust(transfer, &mut host, &mut small);
    assert_eq!(small.offsets(), (0, 0));
}

fn exhaust(mut transfer: Transfer<u8>, host: &mut Host, lcd: &mut ST7789<(), ()>) {
    loop {
        let outcome = match transfer.pending() {
            Some(action) => host.perform(action),
            None => break,
        };
        transfer.advance(outcome);
    }
    assert_eq!(lcd.conclude(transfer), Some(Ok(())));
}

#[test]
fn failed_orientation_change_is_not_recorded() {
    let mut lcd = lcd(false, false, true, false);
    let mut host = Host::failing_at(3);
    let transfer = lcd.set_orientation(Orientation::PortraitSwapped);
    assert_eq!(execute(&mut lcd, transfer, &mut host), Err(Error::DisplayError));
    assert_eq!(lcd.orientation(), Orientation::Landscape);
    assert_eq!(lcd.offsets(), (0, 0));
}

#[test]
fn unfinished_transfer_concludes_nothing() {
    let mut lcd = lcd(false, false, true, false);
    let mut transfer: Transfer<u8> = lcd.set_orientation(Orientation::PortraitSwapped);
    transfer.advance(Outcome::Done);
    assert!(!transfer.is_finished());
    assert_eq!(lcd.conclude(transfer), None);
    assert_eq!(lcd.orientation(), Orientation::Landscape);
    assert_eq!(lcd.offsets(), (0, 0));
}

#[test]
fn blit_of_wrong_length_fails_before_any_bus_write() {
    let lcd = lcd(true, true, true, true);
    let host = Host::new();
    let short: Result<Transfer<u8>, Error<u8>> = lcd.blit_pixels(0, 0, 2, 2, &[0; 7]);
    assert!(matches!(short, Err(Error::DisplayError)));
    let long: Result<Transfer<u8>, Error<u8>> = lcd.blit_pixels(0, 0, 2, 2, &[0; 9]);
    assert!(matches!(long, Err(Error::DisplayError)));
    let none: Result<Transfer<u8>, Error<u8>> = lcd.blit_pixels(0, 0, 2, 2, &[]);
    assert!(matches!(none, Err(Error::DisplayError)));
    let huge: Result<Transfer<u8>, Error<u8>> = lcd.blit_pixels(0, 0, 0xFFFF, 0xFFFF, &[0; 2]);
    assert!(matches!(huge, Err(Error::DisplayError)));
    assert_eq!(host.bus_writes(), 0);
    assert!(host.seen.is_empty());
}

#[test]
fn blit_of_right_length_is_one_write_of_the_buffer() {
    let mut lcd = lcd(false, false, true, false);
    let mut host = Host::new();
    let pixels: Vec<u8> = (0..(3 * 50 * 2)).map(|i| (i % 256) as u8).collect();
    let transfer = lcd.blit_pixels(10, 20, 3, 50, &pixels).expect("the length matches");
    assert_eq!(execute(&mut lcd, transfer, &mut host), Ok(()));
    let mut expected = Vec::new();
    expected.extend(command(0x2A));
    expected.extend(data(&[0, 10]));
    expected.extend(data(&[0, 12]));
    expected.extend(command(0x2B));
    expected.extend(data(&[0, 20]));
    expected.extend(data(&[0, 69]));
    expected.extend(command(0x2C));
    expected.extend(data(&pixels));
    assert_eq!(host.seen, expected);
    assert_eq!(host.bus_writes(), 8);
}

#[test]
fn set_pixels_streams_the_colours() {
    let mut lcd = lcd(false, false, true, false);
    let mut host = Host::new();
    let colors: Vec<u16> = (0..40u16).map(|i| 0xA000 | i).collect();
    let transfer = lcd.set_pixels(1, 2, 8, 6, colors.clone().into_iter());
    assert_eq!(execute(&mut lcd, transfer, &mut host), Ok(()));
    let mut bytes = Vec::new();
    for c in colors.iter() {
        bytes.extend_from_slice(&c.to_be_bytes());
    }
    let mut expected = Vec::new();
    expected.extend(command(0x2A));
    expected.extend(data(&[0, 1]));
    expected.extend(data(&[0, 8]));
    expected.extend(command(0x2B));
    expected.extend(data(&[0, 2]));
    expected.extend(data(&[0, 6]));
    expected.extend(command(0x2C));
    expected.push(high(Line::DataCommand));
    expected.push(write(&bytes[..64]));
    expected.push(write(&bytes[64..]));
    assert_eq!(host.seen, expected);
}

#[test]
fn set_pixels_with_too_few_colours_sends_what_there_is() {
    let mut lcd = lcd(false, false, false, false);
    let mut host = Host::new();
    let transfer = lcd.set_pixels(0, 0, 9, 9, vec![0x0102u16, 0x0304].into_iter());
    assert_eq!(execute(&mut lcd, transfer, &mut host), Ok(()));
    assert_eq!(host.seen.last(), Some(&write(&[1, 2, 3, 4])));
    let mut host = Host::new();
    let transfer = lcd.set_pixels(0, 0, 9, 9, std::iter::empty());
    assert_eq!(execute(&mut lcd, transfer, &mut host), Ok(()));
    assert_eq!(host.seen.last(), Some(&write(&[0x2C])));
}

#[test]
fn scroll_offset_is_sent_high_byte_first() {
    let mut lcd = lcd(false, false, true, false);
    let mut host = Host::new();
    let transfer = lcd.set_scroll_offset(0x0123);
    assert_eq!(execute(&mut lcd, transfer, &mut host), Ok(()));
    let mut expected = command(0x37);
    expected.extend(data(&[0x01, 0x23]));
    assert_eq!(host.seen, expected);
}

#[test]
fn tearing_effect_modes() {
    let mut lcd = lcd(false, false, true, false);
    let mut host = Host::new();
    let transfer = lcd.set_tearing_effect(TearingEffect::Off);
    assert_eq!(execute(&mut lcd, transfer, &mut host), Ok(()));
    assert_eq!(host.seen, command(0x34));

    let mut host = Host::new();
    let transfer = lcd.set_tearing_effect(TearingEffect::Vertical);
    assert_eq!(execute(&mut lcd, transfer, &mut host), Ok(()));
    let mut expected = command(0x35);
    expected.extend(data(&[0]));
    assert_eq!(host.seen, expected);

    let mut host = Host::new();
    let transfer = lcd.set_tearing_effect(TearingEffect::HorizontalAndVertical);
    assert_eq!(execute(&mut lcd, transfer, &mut host), Ok(()));
    let mut expected = command(0x35);
    expected.extend(data(&[1]));
    assert_eq!(host.seen, expected);
}

#[test]
fn backlight_is_switched_and_left_to_settle() {
    let mut lcd = lcd(false, true, false, false);
    let mut host = Host::new();
    let transfer = lcd.set_backlight(BacklightState::On);
    assert_eq!(execute(&mut lcd, transfer, &mut host), Ok(()));
    assert_eq!(host.seen, vec![high(Line::Backlight), Seen::Delay(10)]);
    let mut host = Host::new();
    let transfer = lcd.set_backlight(BacklightState::Off);
    assert_eq!(execute(&mut lcd, transfer, &mut host), Ok(()));
    assert_eq!(host.seen, vec![low(Line::Backlight), Seen::Delay(10)]);
}

#[test]
fn backlight_without_a_line_does_nothing() {
    let mut lcd = lcd(true, false, true, true);
    let mut host = Host::new();
    let transfer = lcd.set_backlight(BacklightState::On);
    assert_eq!(execute(&mut lcd, transfer, &mut host), Ok(()));
    assert!(host.seen.is_empty());
}

#[test]
fn hard_reset_pulses_the_line() {
    let mut lcd = lcd(true, true, true, false);
    let mut host = Host::new();
    let transfer = lcd.hard_reset();
    assert_eq!(execute(&mut lcd, transfer, &mut host), Ok(()));
    assert_eq!(
        host.seen,
        vec![
            high(Line::Reset),
            Seen::Delay(10),
            low(Line::Reset),
            Seen::Delay(10),
            high(Line::Reset),
            Seen::Delay(10),
        ]
    );
}

#[test]
fn hard_reset_without_a_line_does_nothing() {
    let mut lcd = lcd(false, true, true, true);
    let mut host = Host::new();
    let transfer = lcd.hard_reset();
    assert_eq!(execute(&mut lcd, transfer, &mut host), Ok(()));
    assert!(host.seen.is_empty());
}

#[test]
fn failed_reset_line_gives_the_pin_error() {
    for at in [0usize, 2, 4] {
        let mut lcd = lcd(true, true, true, true);
        let mut host = Host::failing_at(at);
        let transfer = lcd.hard_reset();
        assert_eq!(execute(&mut lcd, transfer, &mut host), Err(Error::Pin(at as u8)));
        assert_eq!(host.seen.len(), at + 1);
    }
}

#[test]
fn init_sends_the_power_on_program() {
    let mut lcd = lcd(true, true, true, false);
    let mut host = Host::new();
    let transfer = lcd.init();
    assert_eq!(execute(&mut lcd, transfer, &mut host), Ok(()));
    let mut expected = vec![
        high(Line::Reset),
        Seen::Delay(10),
        low(Line::Reset),
        Seen::Delay(10),
        high(Line::Reset),
        Seen::Delay(10),
        low(Line::Backlight),
        Seen::Delay(10_000),
        high(Line::Backlight),
    ];
    for (opcode, parameters) in power_on_program() {
        expected.extend(command(opcode));
        if !parameters.is_empty() {
            expected.extend(data(&parameters));
        }
        expected.push(Seen::Delay(10_000));
    }
    assert_eq!(host.seen, expected);
    assert_eq!(lcd.orientation(), Orientation::Landscape);
}

#[test]
fn init_with_chip_select_frames_every_transmission() {
    let mut lcd = lcd(false, false, true, true);
    let mut host = Host::new();
    let transfer = lcd.init();
    assert_eq!(execute(&mut lcd, transfer, &mut host), Ok(()));
    let mut expected = Vec::new();
    for (opcode, parameters) in power_on_program() {
        expected.push(low(Line::ChipSelect));
        expected.push(low(Line::DataCommand));
        expected.push(write(&[opcode]));
        expected.push(high(Line::ChipSelect));
        if !parameters.is_empty() {
            expected.push(low(Line::ChipSelect));
            expected.push(high(Line::DataCommand));
            expected.push(write(&parameters));
            expected.push(high(Line::ChipSelect));
        }
        expected.push(Seen::Delay(10_000));
    }
    assert_eq!(host.seen, expected);
}

#[test]
fn failed_init_stops_at_the_failure_and_starts_over_with_the_reset() {
    let mut lcd = lcd(true, true, true, false);
    let mut host = Host::failing_at(12);
    let transfer = lcd.init();
    assert_eq!(execute(&mut lcd, transfer, &mut host), Err(Error::DisplayError));
    assert_eq!(host.seen.len(), 13);
    assert_eq!(host.seen[12], low(Line::DataCommand));
    let mut host = Host::new();
    let transfer = lcd.init();
    assert_eq!(execute(&mut lcd, transfer, &mut host), Ok(()));
    assert_eq!(host.seen[0], high(Line::Reset));
}

#[test]
fn failed_backlight_during_init_gives_the_pin_error() {
    let mut lcd = lcd(true, true, true, false);
    let mut host = Host::failing_at(6);
    let transfer = lcd.init();
    assert_eq!(execute(&mut lcd, transfer, &mut host), Err(Error::Pin(6)));
    assert_eq!(host.seen.len(), 7);
    assert_eq!(host.seen[6], low(Line::Backlight));
}

#[test]
fn optional_pins_may_be_absent_in_any_combination() {
    for mask in 0..8u8 {
        let rst = mask & 1 != 0;
        let bl = mask & 2 != 0;
        let cs = mask & 4 != 0;
        let mut lcd = lcd(rst, bl, true, cs);

        let mut host = Host::new();
        let transfer = lcd.init();
        assert_eq!(execute(&mut lcd, transfer, &mut host), Ok(()));
        check_lines(&host, rst, bl, cs);
        let reset_steps = host.seen.iter().filter(|s| matches!(s, Seen::Pin(Line::Reset, _))).count();
        let backlight_steps =
            host.seen.iter().filter(|s| matches!(s, Seen::Pin(Line::Backlight, _))).count();
        let selects = host.seen.iter().filter(|s| **s == low(Line::ChipSelect)).count();
        let releases = host.seen.iter().filter(|s| **s == high(Line::ChipSelect)).count();
        assert_eq!(reset_steps, if rst { 3 } else { 0 });
        assert_eq!(backlight_steps, if bl { 2 } else { 0 });
        assert_eq!(selects, if cs { 19 + 14 } else { 0 });
        assert_eq!(releases, selects);
        assert_eq!(host.bus_writes(), 19 + 14);

        let mut host = Host::new();
        let transfer = lcd.set_pixel(1, 2, 3);
        assert_eq!(execute(&mut lcd, transfer, &mut host), Ok(()));
        check_lines(&host, rst, bl, cs);
        assert_eq!(host.bus_writes(), 8);

        let mut host = Host::new();
        let transfer = lcd.set_pixels(0, 0, 1, 1, vec![1u16, 2, 3, 4].into_iter());
        assert_eq!(execute(&mut lcd, transfer, &mut host), Ok(()));
        check_lines(&host, rst, bl, cs);

        let mut host = Host::new();
        let transfer = lcd.blit_pixels(0, 0, 1, 1, &[1, 2]).expect("the length matches");
        assert_eq!(execute(&mut lcd, transfer, &mut host), Ok(()));
        check_lines(&host, rst, bl, cs);

        let mut host = Host::new();
        let transfer = lcd.set_backlight(BacklightState::On);
        assert_eq!(execute(&mut lcd, transfer, &mut host), Ok(()));
        check_lines(&host, rst, bl, cs);

        let mut host = Host::new();
        let transfer = lcd.hard_reset();
        assert_eq!(execute(&mut lcd, transfer, &mut host), Ok(()));
        check_lines(&host, rst, bl, cs);
    }
}

fn check_lines(host: &Host, rst: bool, bl: bool, cs: bool) {
    for seen in host.seen.iter() {
        match seen {
            Seen::Pin(Line::Reset, _) => assert!(rst),
            Seen::Pin(Line::Backlight, _) => assert!(bl),
            Seen::Pin(Line::ChipSelect, _) => assert!(cs),
            _ => {}
        }
    }
}

#[test]
fn data_command_line_may_be_absent() {
    let mut lcd = lcd(false, false, false, true);
    let mut host = Host::new();
    let transfer = lcd.set_scroll_offset(1);
    assert_eq!(execute(&mut lcd, transfer, &mut host), Ok(()));
    assert_eq!(
        host.seen,
        vec![
            low(Line::ChipSelect),
            write(&[0x37]),
            high(Line::ChipSelect),
            low(Line::ChipSelect),
            write(&[0, 1]),
            high(Line::ChipSelect),
        ]
    );
}

#[test]
fn command_is_bracketed_by_low_and_data_by_high() {
    let lcd = lcd(false, false, true, true);
    let mut plan = Vec::new();
    assert_eq!(lcd.send_commands(&mut plan, DataFormat::U8Iter(&[0x2C])), Ok(()));
    assert_eq!(
        plan,
        vec![
            Action::Drive { line: Line::ChipSelect, level: Level::Low },
            Action::Drive { line: Line::DataCommand, level: Level::Low },
            Action::Write { bytes: vec![0x2C] },
            Action::Drive { line: Line::ChipSelect, level: Level::High },
        ]
    );
    let mut plan = Vec::new();
    assert_eq!(lcd.send_data(&mut plan, DataFormat::U8(&[1, 2, 3])), Ok(()));
    assert_eq!(
        plan,
        vec![
            Action::Drive { line: Line::ChipSelect, level: Level::Low },
            Action::Drive { line: Line::DataCommand, level: Level::High },
            Action::Write { bytes: vec![1, 2, 3] },
            Action::Drive { line: Line::ChipSelect, level: Level::High },
        ]
    );
}

#[test]
fn format_without_encoding_still_frames_but_never_writes() {
    let lcd = lcd(false, false, true, true);
    let mut plan = Vec::new();
    assert_eq!(
        lcd.send_data(&mut plan, DataFormat::Other),
        Err(SpiError::DataFormatNotImplemented)
    );
    assert_eq!(
        plan,
        vec![
            Action::Drive { line: Line::ChipSelect, level: Level::Low },
            Action::Drive { line: Line::DataCommand, level: Level::High },
            Action::Drive { line: Line::ChipSelect, level: Level::High },
        ]
    );
    let mut plan = Vec::new();
    assert_eq!(
        lcd.send_commands(&mut plan, DataFormat::Other),
        Err(SpiError::DataFormatNotImplemented)
    );
    assert_eq!(
        plan,
        vec![
            Action::Drive { line: Line::ChipSelect, level: Level::Low },
            Action::Drive { line: Line::DataCommand, level: Level::Low },
            Action::Drive { line: Line::ChipSelect, level: Level::High },
        ]
    );
}

#[test]
fn sequencer_converts_in_place() {
    let lcd = lcd(false, false, false, false);
    let mut values = [0x0102u16, 0x0304];
    let mut plan = Vec::new();
    assert_eq!(lcd.send_data(&mut plan, DataFormat::U16BE(&mut values)), Ok(()));
    assert_eq!(plan, vec![Action::Write { bytes: vec![1, 2, 3, 4] }]);
    assert_eq!(values, [0x0102u16.to_be(), 0x0304u16.to_be()]);
    let mut values = [0x0102u16, 0x0304];
    let mut plan = Vec::new();
    assert_eq!(lcd.send_commands(&mut plan, DataFormat::U16LE(&mut values)), Ok(()));
    assert_eq!(plan, vec![Action::Write { bytes: vec![2, 1, 4, 3] }]);
    assert_eq!(values, [0x0102u16.to_le(), 0x0304u16.to_le()]);
}

#[test]
fn write_helpers_add_to_the_plan() {
    let lcd = lcd(false, false, true, false);
    let mut plan = vec![Action::Delay { us: 1 }];
    lcd.write_command(&mut plan, st7789::Instruction::DISPON);
    lcd.write_data(&mut plan, &[]);
    lcd.set_address_window(&mut plan, 1, 2, 3, 4);
    let dc = |level| Action::Drive { line: Line::DataCommand, level };
    let w = |bytes: &[u8]| Action::Write { bytes: bytes.to_vec() };
    assert_eq!(
        plan,
        vec![
            Action::Delay { us: 1 },
            dc(Level::Low),
            w(&[0x29]),
            dc(Level::High),
            dc(Level::Low),
            w(&[0x2A]),
            dc(Level::High),
            w(&[0, 1]),
            dc(Level::High),
            w(&[0, 3]),
            dc(Level::Low),
            w(&[0x2B]),
            dc(Level::High),
            w(&[0, 2]),
            dc(Level::High),
            w(&[0, 4]),
        ]
    );
}

#[test]
fn addressing_is_a_plain_value() {
    let a = Addressing { orientation: Orientation::Portrait, x_start: 1, y_start: 2 };
    assert_eq!(a, a.clone());
    assert_eq!(st7789::addressing::NATIVE_LINES, 320);
    assert_eq!(
        st7789::addressing::addressing(Orientation::LandscapeSwapped, 240),
        Addressing { orientation: Orientation::LandscapeSwapped, x_start: 80, y_start: 0 }
    );
}

#[test]
fn chip_select_is_never_left_asserted() {
    let mut lcd = lcd(true, true, true, true);
    let mut host = Host::new();
    let transfer = lcd.init();
    assert_eq!(execute(&mut lcd, transfer, &mut host), Ok(()));
    let steps = host.seen.len();
    for fail_at in 0..steps {
        let mut host = Host::failing_at(fail_at);
        let transfer = lcd.init();
        let verdict = execute(&mut lcd, transfer, &mut host);
        let last = host
            .seen
            .iter()
            .rev()
            .find(|s| matches!(s, Seen::Pin(Line::ChipSelect, _)));
        assert!(last.is_none() || last == Some(&high(Line::ChipSelect)), "failing at {}", fail_at);
        let failed = &host.seen[fail_at];
        match failed {
            Seen::Delay(_) => assert_eq!(verdict, Ok(())),
            Seen::Pin(Line::ChipSelect, Level::High) => assert_eq!(verdict, Ok(())),
            Seen::Pin(Line::Reset, _) | Seen::Pin(Line::Backlight, _) => {
                assert_eq!(verdict, Err(Error::Pin(fail_at as u8)));
                assert_eq!(host.seen.len(), fail_at + 1);
            }
            _ => {
                assert_eq!(verdict, Err(Error::DisplayError));
                assert_eq!(host.seen.len(), fail_at + 2);
                assert_eq!(host.seen[..=fail_at], {
                    let mut all = Host::new();
                    let transfer = lcd.init();
                    assert_eq!(execute(&mut lcd, transfer, &mut all), Ok(()));
                    all.seen[..=fail_at].to_vec()
                });
            }
        }
    }
}
