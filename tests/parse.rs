use hexdump::args::{build_config, display_mode, from_suffixed_str, is_valid_offset, multiplier_from_suffix, value_or, OFFSET_HINT};
use hexdump::errors::HexDumpError;
use hexdump::format::DisplayMode;

#[test]
fn plain_bases() {
    assert_eq!(from_suffixed_str("16"), Ok(16));
    assert_eq!(from_suffixed_str("0x10"), Ok(16));
    assert_eq!(from_suffixed_str("020"), Ok(16));
    assert_eq!(from_suffixed_str("0"), Ok(0));
}

#[test]
fn suffixed_values() {
    assert_eq!(from_suffixed_str("1K"), Ok(1000));
    assert_eq!(from_suffixed_str("1Ki"), Ok(1024));
    assert_eq!(from_suffixed_str("2KiB"), Ok(2048));
    assert_eq!(from_suffixed_str("1M"), Ok(1000000));
    assert_eq!(from_suffixed_str("3GB"), Ok(3000000000));
    assert_eq!(from_suffixed_str("1PiB"), Ok(1125899906842624));
    assert_eq!(from_suffixed_str("0xffK"), Ok(255000));
    assert_eq!(from_suffixed_str("010Ti"), Ok(8 * 1099511627776));
}

#[test]
fn parse_errors() {
    assert_eq!(from_suffixed_str("1X"), Err(HexDumpError::UnknownSuffix));
    assert_eq!(from_suffixed_str(""), Err(HexDumpError::MalformedNumber));
    assert_eq!(from_suffixed_str("99999999999999999999"), Err(HexDumpError::NumberOverflow));
}

#[test]
fn parse_edge_cases() {
    assert_eq!(from_suffixed_str("0x1B"), Ok(27));
    assert_eq!(from_suffixed_str("0x"), Err(HexDumpError::MalformedNumber));
    assert_eq!(from_suffixed_str("K"), Err(HexDumpError::MalformedNumber));
    assert_eq!(from_suffixed_str("08"), Err(HexDumpError::UnknownSuffix));
    assert_eq!(from_suffixed_str("1k"), Err(HexDumpError::UnknownSuffix));
    assert_eq!(from_suffixed_str("1KiBB"), Err(HexDumpError::UnknownSuffix));
    assert_eq!(from_suffixed_str("-1"), Err(HexDumpError::UnknownSuffix));
    assert_eq!(from_suffixed_str("18446744073709551615"), Ok(u64::MAX));
    assert_eq!(from_suffixed_str("18446744073709551616"), Err(HexDumpError::NumberOverflow));
    assert_eq!(from_suffixed_str("16383Pi"), Ok(16383 * 1125899906842624));
    assert_eq!(from_suffixed_str("16384Pi"), Err(HexDumpError::NumberOverflow));
}

#[test]
fn suffix_table() {
    assert_eq!(multiplier_from_suffix("K"), Ok(1000));
    assert_eq!(multiplier_from_suffix("MB"), Ok(1000000));
    assert_eq!(multiplier_from_suffix("T"), Ok(1000000000000));
    assert_eq!(multiplier_from_suffix("PB"), Ok(1000000000000000));
    assert_eq!(multiplier_from_suffix("Mi"), Ok(1048576));
    assert_eq!(multiplier_from_suffix("GiB"), Ok(1073741824));
    assert_eq!(multiplier_from_suffix("TiB"), Ok(1099511627776));
    assert_eq!(multiplier_from_suffix("Pi"), Ok(1125899906842624));
    assert_eq!(multiplier_from_suffix("kB"), Err(HexDumpError::UnknownSuffix));
    assert_eq!(multiplier_from_suffix("B"), Err(HexDumpError::UnknownSuffix));
    assert_eq!(multiplier_from_suffix(""), Err(HexDumpError::UnknownSuffix));
    assert_eq!(multiplier_from_suffix("KiBx"), Err(HexDumpError::UnknownSuffix));
}

#[test]
fn error_descriptions() {
    assert_eq!(HexDumpError::UnknownSuffix.description(), "Unknown suffix");
    assert_eq!(HexDumpError::MalformedNumber.description(), "Malformed number");
    assert_eq!(HexDumpError::NumberOverflow.description(), "Number too large");
}

#[test]
fn offset_validation() {
    assert_eq!(is_valid_offset(String::from("4Ki")), Ok(()));
    assert_eq!(is_valid_offset(String::from("4x")), Err(String::from(OFFSET_HINT)));
}

#[test]
fn config_defaults_and_errors() {
    let c = build_config(false, false, false, 16, None, None, vec![String::from("a")]).unwrap();
    assert_eq!(c.mode, DisplayMode::HexLower);
    assert_eq!(c.width, 16);
    assert_eq!(c.skip, 0);
    assert_eq!(c.length, u64::MAX);
    assert_eq!(c.filenames, vec![String::from("a")]);

    let c = build_config(true, false, false, 8, Some("0x10"), Some("1K"), vec![]).unwrap();
    assert_eq!(c.mode, DisplayMode::HexUpper);
    assert_eq!(c.skip, 16);
    assert_eq!(c.length, 1000);
    let r = c.render_config();
    assert_eq!(r.row_width, 8);
    assert_eq!(r.mode, DisplayMode::HexUpper);

    assert!(matches!(
        build_config(false, false, false, 16, Some("1X"), Some(""), vec![]),
        Err(HexDumpError::UnknownSuffix)
    ));
    assert!(matches!(
        build_config(false, false, false, 16, Some("1"), Some(""), vec![]),
        Err(HexDumpError::MalformedNumber)
    ));
    assert_eq!(value_or(None, 7), Ok(7));
    assert_eq!(value_or(Some("7K"), 0), Ok(7000));
}

#[test]
fn mode_flags() {
    assert_eq!(display_mode(false, false, false), DisplayMode::HexLower);
    assert_eq!(display_mode(true, false, false), DisplayMode::HexUpper);
    assert_eq!(display_mode(true, true, false), DisplayMode::Octal);
    assert_eq!(display_mode(true, false, true), DisplayMode::Decimal);
    assert_eq!(display_mode(false, true, true), DisplayMode::HexLower);
}
