use hexdump::dump::DumpState;
use hexdump::format::{format_byte, format_offset, DisplayMode};
use hexdump::render::{render, RenderConfig};

const ALL_MODES: [DisplayMode; 4] =
    [DisplayMode::HexLower, DisplayMode::HexUpper, DisplayMode::Octal, DisplayMode::Decimal];

#[test]
fn byte_fields() {
    assert_eq!(format_byte(DisplayMode::HexLower, 0x3f), "3f ");
    assert_eq!(format_byte(DisplayMode::HexUpper, 0x3f), "3F ");
    assert_eq!(format_byte(DisplayMode::Octal, 63), "077 ");
    assert_eq!(format_byte(DisplayMode::Decimal, 42), "042 ");
    assert_eq!(format_byte(DisplayMode::HexLower, 0), "00 ");
    assert_eq!(format_byte(DisplayMode::Octal, 255), "377 ");
    assert_eq!(format_byte(DisplayMode::Decimal, 255), "255 ");
    assert_eq!(format_byte(DisplayMode::HexUpper, 0xab), "AB ");
}

#[test]
fn byte_field_widths() {
    for b in 0..=255u8 {
        assert_eq!(format_byte(DisplayMode::HexLower, b).len(), 3);
        assert_eq!(format_byte(DisplayMode::HexUpper, b).len(), 3);
        assert_eq!(format_byte(DisplayMode::Octal, b).len(), 4);
        assert_eq!(format_byte(DisplayMode::Decimal, b).len(), 4);
    }
}

#[test]
fn offset_columns() {
    assert_eq!(format_offset(DisplayMode::HexLower, 16), "00000010:");
    assert_eq!(format_offset(DisplayMode::HexUpper, 0xabcdef), "00ABCDEF:");
    assert_eq!(format_offset(DisplayMode::Octal, 8), "000000000010:");
    assert_eq!(format_offset(DisplayMode::Decimal, 1234), "0000001234:");
    assert_eq!(format_offset(DisplayMode::HexLower, 0), "00000000:");
    assert_eq!(format_offset(DisplayMode::HexLower, u64::MAX), "ffffffffffffffff:");
    assert_eq!(format_offset(DisplayMode::Decimal, u64::MAX), "18446744073709551615:");
}

#[test]
fn full_hex_row() {
    let config = RenderConfig { mode: DisplayMode::HexLower, row_width: 16 };
    let line = render(b"0123456789abcdef", &config, 0);
    assert_eq!(
        line,
        "00000000: 30 31 32 33 34 35 36 37  38 39 61 62 63 64 65 66  0123456789abcdef\n"
    );
    let numeric = &line[9..9 + 16 * 3 + 2];
    assert_eq!(numeric.len(), 50);
    assert_eq!(&numeric[0..1], " ");
    assert_eq!(&numeric[25..26], " ");
    assert_eq!(&line[9 + 50 + 1..line.len() - 1], "0123456789abcdef");
}

#[test]
fn short_final_row() {
    let config = RenderConfig { mode: DisplayMode::HexLower, row_width: 16 };
    let full = render(&[0u8; 16], &config, 0x20);
    let short = render(&[0x41, 0x00, 0x7f], &config, 0x20);
    let expected = format!("00000020: 41 00 7f {} {} A..\n", "   ".repeat(5), "   ".repeat(8));
    assert_eq!(short, expected);
    // The grid is as wide as a full row's; the text column holds three characters.
    assert_eq!(full.len() - 16, short.len() - 3);
    assert!(short.ends_with(" A..\n"));
}

#[test]
fn padding_follows_mode() {
    for mode in ALL_MODES {
        let config = RenderConfig { mode, row_width: 8 };
        let full = render(&[1u8; 8], &config, 0);
        let short = render(&[1u8], &config, 0);
        assert_eq!(full.len() - 8, short.len() - 1);
    }
    let config = RenderConfig { mode: DisplayMode::Octal, row_width: 8 };
    assert_eq!(render(&[8u8, 9], &config, 8), format!("000000000010: 010 011 {} ..\n", "    ".repeat(6)));
}

#[test]
fn decimal_and_upper_rows() {
    let config = RenderConfig { mode: DisplayMode::Decimal, row_width: 8 };
    assert_eq!(render(b"Hi~ ", &config, 7), format!("0000000007: 072 105 126 032 {} Hi~ \n", "    ".repeat(4)));
    let config = RenderConfig { mode: DisplayMode::HexUpper, row_width: 8 };
    assert_eq!(render(&[0xfe, 0x20], &config, 0xff), format!("000000FF: FE 20 {} . \n", "   ".repeat(6)));
}

#[test]
fn empty_window() {
    let config = RenderConfig { mode: DisplayMode::HexLower, row_width: 8 };
    assert_eq!(render(&[], &config, 5), format!("00000005: {} \n", "   ".repeat(8)));
}

#[test]
fn rendering_is_repeatable() {
    let config = RenderConfig { mode: DisplayMode::HexUpper, row_width: 24 };
    let window: Vec<u8> = (0..24).map(|i| (i * 11) as u8).collect();
    assert_eq!(render(&window, &config, 99), render(&window, &config, 99));
    assert_eq!(format_byte(DisplayMode::Octal, 200), format_byte(DisplayMode::Octal, 200));
}

#[test]
fn offsets_follow_actual_lengths() {
    let config = RenderConfig { mode: DisplayMode::HexLower, row_width: 16 };
    let mut state = DumpState::new(config, 100, u64::MAX);
    assert_eq!(state.read_len(), 16);
    let first = state.feed(&[b'a'; 10]);
    assert!(first.starts_with("00000064:"));
    assert_eq!(state.offset, 110);
    let second = state.feed(&[b'b'; 16]);
    assert!(second.starts_with("0000006e:"));
    assert_eq!(state.offset, 126);
}

#[test]
fn length_budget() {
    let config = RenderConfig { mode: DisplayMode::HexLower, row_width: 16 };
    let mut state = DumpState::new(config, 0, 20);
    assert_eq!(state.read_len(), 16);
    assert!(state.accepts(16));
    assert!(!state.accepts(17));
    state.feed(&[0u8; 16]);
    assert_eq!(state.read_len(), 4);
    state.feed(&[0u8; 4]);
    assert_eq!(state.read_len(), 0);
    assert_eq!(state.remaining, 0);
    let near_end = DumpState::new(config, u64::MAX - 2, 100);
    assert!(near_end.accepts(2));
    assert!(!near_end.accepts(3));
}
