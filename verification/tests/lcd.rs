use lcd_lcm1602_i2c::Backlight;
use lcd_lcm1602_i2c::BusFault;
use lcd_lcm1602_i2c::Handle;
use lcd_lcm1602_i2c::Lcd;
use lcd_lcm1602_i2c::MockBus;
use lcd_lcm1602_i2c::MockDelay;
use lcd_lcm1602_i2c::Mode;

const ADDRESS: u8 = 0x27;

fn ready(backlight: Backlight) -> (Handle, MockBus, MockDelay) {
    let mut bus = MockBus::new();
    let mut delay = MockDelay::new();
    let handle = Lcd::new(backlight)
        .address(ADDRESS)
        .rows(2)
        .cursor_on(true)
        .init(&mut bus, &mut delay)
        .unwrap();
    bus.written.clear();
    delay.waited.clear();
    (handle, bus, delay)
}

fn bytes(bus: &MockBus) -> Vec<u8> {
    bus.written.iter().map(|w| w.1).collect()
}

#[test]
fn builder_defaults_and_last_write_wins() {
    let c = Lcd::new(Backlight::On);
    assert_eq!(c.address, 0);
    assert_eq!(c.rows, 0);
    assert_eq!(c.backlight_state, Backlight::On);
    assert!(!c.cursor_on);
    assert!(!c.cursor_blink);

    let c = c.address(0x20).address(ADDRESS).rows(1).rows(2).cursor_on(true).cursor_blink(true);
    assert_eq!(c.address, ADDRESS);
    assert_eq!(c.rows, 2);
    assert!(c.cursor_on);
    assert!(c.cursor_blink);
}

#[test]
fn init_emits_the_exact_fixed_sequence() {
    let mut bus = MockBus::new();
    let mut delay = MockDelay::new();
    Lcd::new(Backlight::On)
        .address(ADDRESS)
        .rows(2)
        .cursor_on(true)
        .init(&mut bus, &mut delay)
        .unwrap();

    let expected: Vec<u8> = vec![
        0x3C, 0x08, // legacy 8-bit function set, first pulse
        0x3C, 0x08, // second pulse
        0x3C, 0x08, // third pulse
        0x2C, 0x08, // narrow to 4-bit mode
        0x2C, 0x08, 0x8C, 0x08, // function set: multi-line (0x28)
        0x0C, 0x08, 0xEC, 0x08, // display control: on + cursor (0x0E)
        0x0C, 0x08, 0x1C, 0x08, // clear (0x01)
        0x0C, 0x08, 0x4C, 0x08, // entry mode, left to right (0x04)
        0x0C, // standalone backlight byte
    ];
    assert_eq!(bytes(&bus), expected);
    assert!(bus.written.iter().all(|w| w.0 == ADDRESS));
    assert_eq!(delay.waited, vec![80, 5, 5, 5]);
}

#[test]
fn init_is_deterministic_for_equal_configurations() {
    let run = || {
        let mut bus = MockBus::new();
        let mut delay = MockDelay::new();
        Lcd::new(Backlight::Off)
            .address(ADDRESS)
            .rows(0)
            .cursor_on(true)
            .cursor_blink(true)
            .init(&mut bus, &mut delay)
            .unwrap();
        (bus.written, delay.waited)
    };
    assert_eq!(run(), run());
}

#[test]
fn init_single_line_clears_the_multi_line_bit() {
    let mut bus = MockBus::new();
    let mut delay = MockDelay::new();
    Lcd::new(Backlight::Off).address(ADDRESS).rows(0).init(&mut bus, &mut delay).unwrap();
    // Function-set frame (writes 9 to 12): high nibble of 0x20, not 0x28.
    assert_eq!(bytes(&bus)[8..12], [0x24, 0x00, 0x04, 0x00]);
}

#[test]
fn init_sets_blink_independently_of_cursor() {
    let mut bus = MockBus::new();
    let mut delay = MockDelay::new();
    Lcd::new(Backlight::Off)
        .address(ADDRESS)
        .rows(2)
        .cursor_on(false)
        .cursor_blink(true)
        .init(&mut bus, &mut delay)
        .unwrap();
    // Display-control frame (writes 13 to 16): display on and blink (0x0D),
    // no drawn cursor.
    assert_eq!(bytes(&bus)[12..16], [0x04, 0x00, 0xD4, 0x00]);
}

#[test]
fn send_frames_a_command_byte_as_four_bytes() {
    let (h, mut bus, _) = ready(Backlight::On);
    h.send(&mut bus, 0x5A, Mode::Cmd).unwrap();
    assert_eq!(bytes(&bus), vec![0x5C, 0x08, 0xAC, 0x08]);
}

#[test]
fn send_without_backlight_clears_the_bit_in_all_four_bytes() {
    let (mut h, mut bus, _) = ready(Backlight::On);
    h.backlight(&mut bus, Backlight::Off).unwrap();
    bus.written.clear();
    h.send(&mut bus, 0x5A, Mode::Cmd).unwrap();
    assert_eq!(bytes(&bus), vec![0x54, 0x00, 0xA4, 0x00]);
}

#[test]
fn send_merges_the_register_bits_into_each_nibble() {
    let (h, mut bus, _) = ready(Backlight::On);
    h.send(&mut bus, 0x5A, Mode::Data).unwrap();
    // Rising edges carry the data-register bit; falling edges carry the
    // backlight bit alone.
    assert_eq!(bytes(&bus), vec![0x5D, 0x08, 0xAD, 0x08]);
}

#[test]
fn clear_sends_the_clear_command() {
    let (h, mut bus, _) = ready(Backlight::On);
    h.clear(&mut bus).unwrap();
    assert_eq!(bytes(&bus), vec![0x0C, 0x08, 0x1C, 0x08]);
}

#[test]
fn return_home_sends_the_command_then_waits() {
    let (h, mut bus, mut delay) = ready(Backlight::On);
    h.return_home(&mut bus, &mut delay).unwrap();
    assert_eq!(bytes(&bus), vec![0x0C, 0x08, 0x2C, 0x08]);
    assert_eq!(delay.waited, vec![10]);
}

#[test]
fn set_cursor_origin_issues_no_shifts() {
    let (h, mut bus, mut delay) = ready(Backlight::On);
    h.set_cursor(&mut bus, 0, 0, &mut delay).unwrap();
    // Only the return-home frame; zero shift-cursor commands.
    assert_eq!(bytes(&bus), vec![0x0C, 0x08, 0x2C, 0x08]);
    assert_eq!(delay.waited, vec![10]);
}

#[test]
fn set_cursor_row_one_col_three_issues_exactly_43_shifts() {
    let (h, mut bus, mut delay) = ready(Backlight::On);
    h.set_cursor(&mut bus, 1, 3, &mut delay).unwrap();
    let b = bytes(&bus);
    assert_eq!(b.len(), 4 + 43 * 4);
    assert_eq!(b[0..4], [0x0C, 0x08, 0x2C, 0x08]);
    for shift in b[4..].chunks(4) {
        assert_eq!(shift, [0x1C, 0x08, 0x4C, 0x08]);
    }
    assert_eq!(delay.waited, vec![10]);
}

#[test]
fn write_str_empty_performs_no_writes() {
    let (h, mut bus, _) = ready(Backlight::On);
    h.write_str(&mut bus, "").unwrap();
    assert!(bus.written.is_empty());
}

#[test]
fn write_str_sends_each_character_in_order() {
    let (h, mut bus, _) = ready(Backlight::On);
    h.write_str(&mut bus, "AB").unwrap();
    // 'A' (0x41) then 'B' (0x42), each as one data-mode frame.
    assert_eq!(bytes(&bus), vec![0x4D, 0x08, 0x1D, 0x08, 0x4D, 0x08, 0x2D, 0x08]);
}

#[test]
fn backlight_off_clears_the_bit_in_every_later_byte() {
    let (mut h, mut bus, mut delay) = ready(Backlight::On);
    h.backlight(&mut bus, Backlight::Off).unwrap();
    assert_eq!(bytes(&bus), vec![0x04]);
    h.write_str(&mut bus, "Hi").unwrap();
    h.clear(&mut bus).unwrap();
    h.set_cursor(&mut bus, 0, 2, &mut delay).unwrap();
    assert!(bytes(&bus).iter().all(|b| b & 0x08 == 0));

    h.backlight(&mut bus, Backlight::On).unwrap();
    bus.written.clear();
    h.write_str(&mut bus, "Hi").unwrap();
    assert!(bytes(&bus).iter().all(|b| b & 0x08 == 0x08));
}

#[test]
fn init_aborts_at_the_failing_write() {
    let reference = {
        let mut bus = MockBus::new();
        let mut delay = MockDelay::new();
        Lcd::new(Backlight::On).address(ADDRESS).rows(2).init(&mut bus, &mut delay).unwrap();
        bus.written
    };
    for n in 1..=reference.len() {
        let mut bus = MockBus::failing_at(n);
        let mut delay = MockDelay::new();
        let r = Lcd::new(Backlight::On).address(ADDRESS).rows(2).init(&mut bus, &mut delay);
        assert_eq!(r.unwrap_err(), BusFault);
        // Exactly n writes occur: the failing one is the last attempted,
        // and every earlier one succeeded.
        assert_eq!(bus.written.len(), n);
        assert_eq!(bus.written[..], reference[..n]);
        assert_eq!(bus.outcomes.len(), n);
        assert!(bus.outcomes[..n - 1].iter().all(|&o| o));
        assert!(!bus.outcomes[n - 1]);
    }
}

#[test]
fn init_aborts_without_requesting_later_delays() {
    for (n, waits) in [
        (1, vec![80]),
        (2, vec![80]),
        (3, vec![80, 5]),
        (5, vec![80, 5, 5]),
        (7, vec![80, 5, 5, 5]),
        (25, vec![80, 5, 5, 5]),
    ] {
        let mut bus = MockBus::failing_at(n);
        let mut delay = MockDelay::new();
        let r = Lcd::new(Backlight::On).address(ADDRESS).rows(2).init(&mut bus, &mut delay);
        assert_eq!(r.unwrap_err(), BusFault);
        assert_eq!(delay.waited, waits);
    }
}

#[test]
fn write_str_aborts_at_the_failing_write() {
    let (h, _, _) = ready(Backlight::On);
    let mut bus = MockBus::failing_at(3);
    let r = h.write_str(&mut bus, "AB");
    assert_eq!(r.unwrap_err(), BusFault);
    // The first frame's first three bytes, nothing of the rest.
    assert_eq!(bytes(&bus), vec![0x4D, 0x08, 0x1D]);
}
