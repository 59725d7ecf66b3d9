use dprint_plugin_prettier::config::PrettierConfig;
use dprint_plugin_prettier::format_text::format_eval_outcome;
use dprint_plugin_prettier::formatter::EchoFormatter;
use dprint_plugin_prettier::handler::PrettierPluginHandler;
use dprint_plugin_prettier::memory::get_system_available_memory;
use dprint_plugin_prettier::memory::has_memory_available;
use dprint_plugin_prettier::memory::system_available_memory;
use dprint_plugin_prettier::snapshot::deserialize_snapshot;
use dprint_plugin_prettier::snapshot::get_startup_snapshot;
use dprint_plugin_prettier::snapshot::read_le32;
use dprint_plugin_prettier::util::bool_to_string;
use dprint_plugin_prettier::util::i32_to_string;
use dprint_plugin_prettier::util::parse_unsigned;
use dprint_plugin_prettier::util::rfind_dot;
use dprint_plugin_prettier::util::str_eq;
use dprint_plugin_prettier::util::to_lowercase_string;
use dprint_plugin_prettier::util::u64_to_string;
use dprint_plugin_prettier::util::NumberParseError;
use dprint_plugin_prettier::wasm_plugin::get_plugin_config_key;
use dprint_plugin_prettier::wasm_plugin::get_plugin_config_schema_url;
use dprint_plugin_prettier::wasm_plugin::get_plugin_file_extensions;
use dprint_plugin_prettier::wasm_plugin::get_plugin_help_url;
use dprint_plugin_prettier::wasm_plugin::get_plugin_license_text;

#[test]
fn numbers_write_themselves_in_decimal() {
    assert_eq!(u64_to_string(0), "0");
    assert_eq!(u64_to_string(7), "7");
    assert_eq!(u64_to_string(1234567890), "1234567890");
    assert_eq!(i32_to_string(-45), "-45");
    assert_eq!(i32_to_string(i32::MIN), "-2147483648");
    assert_eq!(i32_to_string(300), "300");
    assert_eq!(bool_to_string(true), "true");
    assert_eq!(bool_to_string(false), "false");
}

#[test]
fn unsigned_parsing_matches_its_specification() {
    assert_eq!(parse_unsigned("123", u32::MAX as u64), Ok(123));
    assert_eq!(parse_unsigned("+7", u32::MAX as u64), Ok(7));
    assert_eq!(parse_unsigned("0", u32::MAX as u64), Ok(0));
    assert_eq!(parse_unsigned("", u32::MAX as u64), Err(NumberParseError::Empty));
    assert_eq!(parse_unsigned("+", u32::MAX as u64), Err(NumberParseError::InvalidDigit));
    assert_eq!(parse_unsigned("12a", u32::MAX as u64), Err(NumberParseError::InvalidDigit));
    assert_eq!(parse_unsigned("-3", u32::MAX as u64), Err(NumberParseError::InvalidDigit));
    assert_eq!(parse_unsigned("4294967296", u32::MAX as u64), Err(NumberParseError::Overflow));
    assert_eq!(
        parse_unsigned("99999999999999999999999999", u32::MAX as u64),
        Err(NumberParseError::Overflow),
    );
    assert_eq!(parse_unsigned("256", 255), Err(NumberParseError::Overflow));
    assert_eq!(parse_unsigned("255", 255), Ok(255));
}

#[test]
fn string_helpers_behave() {
    assert!(str_eq("abc", "abc"));
    assert!(!str_eq("abc", "abd"));
    assert!(!str_eq("abc", "ab"));
    assert!(str_eq("", ""));
    assert_eq!(rfind_dot("a.b.c"), Some(3));
    assert_eq!(rfind_dot("abc"), None);
    assert_eq!(rfind_dot(".hidden"), Some(0));
    // the lowercase wrapper must actually lowercase, not echo
    assert_eq!(to_lowercase_string("FiLe.TS"), "file.ts");
    assert_eq!(to_lowercase_string(""), "");
}

#[test]
fn le32_header_reads_little_endian() {
    assert_eq!(read_le32(0, 0, 0, 0), 0);
    assert_eq!(read_le32(1, 0, 0, 0), 1);
    assert_eq!(read_le32(0x78, 0x56, 0x34, 0x12), 0x12345678);
    assert_eq!(read_le32(0xff, 0xff, 0xff, 0xff), u32::MAX);
}

#[test]
fn snapshot_round_trip_through_compression() {
    let payload: Vec<u8> = (0..200u8).cycle().take(5000).collect();
    let compressed = zstd::bulk::compress(&payload, 3).unwrap();
    let mut data = (payload.len() as u32).to_le_bytes().to_vec();
    data.extend_from_slice(&compressed);
    let unpacked = deserialize_snapshot(&data).unwrap();
    assert_eq!(unpacked, payload);
    let unpacked_again = get_startup_snapshot(&data).unwrap();
    assert_eq!(unpacked_again, payload);
}

#[test]
fn a_corrupt_snapshot_is_an_error() {
    let data = vec![16, 0, 0, 0, 9, 9, 9, 9, 9, 9];
    let unpacked = deserialize_snapshot(&data);
    assert_eq!(unpacked.unwrap_err(), "could not decompress the startup snapshot");
}

#[test]
fn a_snapshot_larger_than_announced_is_an_error() {
    let payload: Vec<u8> = (0..200u8).cycle().take(5000).collect();
    let compressed = zstd::bulk::compress(&payload, 3).unwrap();
    let mut data = vec![10, 0, 0, 0];
    data.extend_from_slice(&compressed);
    assert!(deserialize_snapshot(&data).is_err());
}

#[test]
fn plugin_facts_are_fixed() {
    assert_eq!(get_plugin_config_key(), "prettier");
    assert_eq!(get_plugin_file_extensions(), vec!["js", "ts"]);
    assert_eq!(get_plugin_help_url(), "https://dprint.dev/plugins/prettier");
    assert_eq!(get_plugin_config_schema_url(), "");
    let license = get_plugin_license_text();
    assert!(license.contains("The MIT License (MIT)"));
    let handler: PrettierPluginHandler<EchoFormatter> = PrettierPluginHandler::new();
    let info = handler.plugin_info();
    assert_eq!(info.name, "dprint-plugin-prettier");
    assert_eq!(info.config_key, "prettier");
    assert_eq!(info.file_extensions, vec!["js", "ts"]);
    assert!(info.file_names.is_empty());
    assert_eq!(info.help_url, "https://dprint.dev/plugins/prettier");
    assert_eq!(info.config_schema_url, "");
    assert_eq!(
        info.update_url.as_deref(),
        Some("https://plugins.dprint.dev/dprint/dprint-plugin-prettier/latest.json"),
    );
    assert_eq!(handler.license_text(), license);
}

#[test]
fn memory_probe_answers() {
    let reading = system_available_memory();
    let _ = get_system_available_memory();
    let _ = has_memory_available();
    assert!(dprint_plugin_prettier::memory::memory_gate(reading, 0) == (reading > 0));
}

#[test]
fn eval_outcomes_map_to_results() {
    assert_eq!(format_eval_outcome(Some(String::from("Int(3)"))), Ok(String::from("Int(3)")));
    assert_eq!(
        format_eval_outcome(None),
        Err(String::from("the script engine gave no value")),
    );
}

#[test]
fn format_text_reports_the_engines_value() {
    let config = PrettierConfig { main: Vec::new(), extension_overrides: Vec::new() };
    let result = dprint_plugin_prettier::format_text::format_text("const x=1", &config);
    match result {
        Ok(value) => assert_eq!(value, "Int(3)"),
        Err(message) => assert_eq!(message, "the script engine gave no value"),
    }
}
