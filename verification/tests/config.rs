use dprint_plugin_prettier::config::clone_json_map;
use dprint_plugin_prettier::config::config_key_value_to_json;
use dprint_plugin_prettier::config::resolve_config;
use dprint_plugin_prettier::config::resolve_config_for_file;
use dprint_plugin_prettier::config::ConfigKeyValue;
use dprint_plugin_prettier::config::GlobalConfiguration;
use dprint_plugin_prettier::config::JsonValue;
use dprint_plugin_prettier::config::NewLineKind;
use dprint_plugin_prettier::config::PrettierConfig;
use dprint_plugin_prettier::handler::get_file_extensions;
use dprint_plugin_prettier::handler::PrettierPluginHandler;
use dprint_plugin_prettier::formatter::EchoFormatter;

fn no_globals() -> GlobalConfiguration {
    GlobalConfiguration { line_width: None, use_tabs: None, indent_width: None, new_line_kind: None }
}

fn main_value<'a>(main: &'a [(String, JsonValue)], key: &str) -> &'a JsonValue {
    &main.iter().find(|entry| entry.0 == key).unwrap().1
}

#[test]
fn empty_config_gets_the_defaults() {
    let result = resolve_config(Vec::new(), no_globals(), false);
    assert!(result.diagnostics.is_empty());
    let main = &result.config.main;
    assert_eq!(main.len(), 4);
    assert!(matches!(main_value(main, "printWidth"), JsonValue::Number(80)));
    assert!(matches!(main_value(main, "tabWidth"), JsonValue::Number(2)));
    assert!(matches!(main_value(main, "useTabs"), JsonValue::Bool(false)));
    match main_value(main, "endOfLine") {
        JsonValue::String(s) => assert_eq!(s, "lf"),
        other => panic!("unexpected endOfLine: {:?}", other),
    }
    assert!(result.config.extension_overrides.is_empty());
}

#[test]
fn global_configuration_fills_the_defaults() {
    let globals = GlobalConfiguration {
        line_width: Some(120),
        use_tabs: Some(true),
        indent_width: Some(4),
        new_line_kind: Some(NewLineKind::CarriageReturnLineFeed),
    };
    let result = resolve_config(Vec::new(), globals, false);
    assert!(result.diagnostics.is_empty());
    let main = &result.config.main;
    assert!(matches!(main_value(main, "printWidth"), JsonValue::Number(120)));
    assert!(matches!(main_value(main, "tabWidth"), JsonValue::Number(4)));
    assert!(matches!(main_value(main, "useTabs"), JsonValue::Bool(true)));
    match main_value(main, "endOfLine") {
        JsonValue::String(s) => assert_eq!(s, "cflf"),
        other => panic!("unexpected endOfLine: {:?}", other),
    }
}

#[test]
fn line_width_feeds_print_width_and_print_width_wins() {
    let config = vec![(String::from("lineWidth"), ConfigKeyValue::Number(100))];
    let result = resolve_config(config, no_globals(), false);
    assert!(result.diagnostics.is_empty());
    assert!(matches!(main_value(&result.config.main, "printWidth"), JsonValue::Number(100)));

    let config = vec![
        (String::from("lineWidth"), ConfigKeyValue::Number(100)),
        (String::from("printWidth"), ConfigKeyValue::Number(90)),
    ];
    let result = resolve_config(config, no_globals(), false);
    assert!(matches!(main_value(&result.config.main, "printWidth"), JsonValue::Number(90)));
}

#[test]
fn numbers_parse_from_strings() {
    let config = vec![(String::from("tabWidth"), ConfigKeyValue::String(String::from("+8")))];
    let result = resolve_config(config, no_globals(), false);
    assert!(result.diagnostics.is_empty());
    assert!(matches!(main_value(&result.config.main, "tabWidth"), JsonValue::Number(8)));
}

#[test]
fn an_unreadable_value_is_reported_and_defaulted() {
    let config = vec![(String::from("lineWidth"), ConfigKeyValue::String(String::from("abc")))];
    let result = resolve_config(config, no_globals(), false);
    assert_eq!(result.diagnostics.len(), 1);
    assert_eq!(result.diagnostics[0].property_name, "lineWidth");
    assert_eq!(result.diagnostics[0].message, "invalid digit found in string");
    assert!(matches!(main_value(&result.config.main, "printWidth"), JsonValue::Number(80)));
}

#[test]
fn each_error_variant_has_its_message() {
    let config = vec![
        (String::from("lineWidth"), ConfigKeyValue::String(String::new())),
        (String::from("tabWidth"), ConfigKeyValue::Number(300)),
        (String::from("useTabs"), ConfigKeyValue::String(String::from("yes"))),
        (String::from("newLineKind"), ConfigKeyValue::String(String::from("mixed"))),
        (String::from("printWidth"), ConfigKeyValue::Array(Vec::new())),
    ];
    let result = resolve_config(config, no_globals(), false);
    let messages: Vec<(&str, &str)> = result
        .diagnostics
        .iter()
        .map(|d| (d.property_name.as_str(), d.message.as_str()))
        .collect();
    assert_eq!(
        messages,
        vec![
            ("lineWidth", "cannot parse integer from empty string"),
            ("printWidth", "Arrays and objects are not supported for this value"),
            ("tabWidth", "number too large to fit in target type"),
            ("useTabs", "provided string was not `true` or `false`"),
            ("newLineKind", "Found invalid value 'mixed'."),
        ]
    );
}

#[test]
fn newline_kind_writes_the_end_of_line() {
    let config = vec![(String::from("newLineKind"), ConfigKeyValue::String(String::from("crlf")))];
    let result = resolve_config(config, no_globals(), false);
    match main_value(&result.config.main, "endOfLine") {
        JsonValue::String(s) => assert_eq!(s, "cflf"),
        other => panic!("unexpected endOfLine: {:?}", other),
    }

    let config = vec![(String::from("newLineKind"), ConfigKeyValue::String(String::from("system")))];
    let result = resolve_config(config, no_globals(), true);
    match main_value(&result.config.main, "endOfLine") {
        JsonValue::String(s) => assert_eq!(s, "crlf"),
        other => panic!("unexpected endOfLine: {:?}", other),
    }
}

#[test]
fn explicit_end_of_line_wins() {
    let config = vec![
        (String::from("newLineKind"), ConfigKeyValue::String(String::from("crlf"))),
        (String::from("endOfLine"), ConfigKeyValue::String(String::from("lf"))),
    ];
    let result = resolve_config(config, no_globals(), false);
    match main_value(&result.config.main, "endOfLine") {
        JsonValue::String(s) => assert_eq!(s, "lf"),
        other => panic!("unexpected endOfLine: {:?}", other),
    }
}

#[test]
fn leftover_keys_pass_through_in_order() {
    let config = vec![
        (String::from("semi"), ConfigKeyValue::Bool(false)),
        (String::from("singleQuote"), ConfigKeyValue::Bool(true)),
    ];
    let result = resolve_config(config, no_globals(), false);
    let main = &result.config.main;
    assert_eq!(main.len(), 6);
    assert_eq!(main[4].0, "semi");
    assert!(matches!(main[4].1, JsonValue::Bool(false)));
    assert_eq!(main[5].0, "singleQuote");
    assert!(matches!(main[5].1, JsonValue::Bool(true)));
}

#[test]
fn dotted_keys_group_into_extension_overrides() {
    let config = vec![
        (String::from("ts.semi"), ConfigKeyValue::Bool(false)),
        (String::from("TS.singleQuote"), ConfigKeyValue::Bool(true)),
        (String::from("css.parser"), ConfigKeyValue::String(String::from("css"))),
    ];
    let result = resolve_config(config, no_globals(), false);
    let overrides = &result.config.extension_overrides;
    assert_eq!(overrides.len(), 2);
    assert_eq!(overrides[0].0, "ts");
    match &overrides[0].1 {
        JsonValue::Object(entries) => {
            assert_eq!(entries.len(), 2);
            assert_eq!(entries[0].0, "semi");
            assert!(matches!(entries[0].1, JsonValue::Bool(false)));
            assert_eq!(entries[1].0, "singleQuote");
            assert!(matches!(entries[1].1, JsonValue::Bool(true)));
        },
        other => panic!("unexpected override: {:?}", other),
    }
    assert_eq!(overrides[1].0, "css");
}

#[test]
fn json_conversion_keeps_nested_structure() {
    let value = ConfigKeyValue::Object(vec![
        (String::from("name"), ConfigKeyValue::String(String::from("x"))),
        (
            String::from("sizes"),
            ConfigKeyValue::Array(vec![ConfigKeyValue::Number(-1), ConfigKeyValue::Null]),
        ),
    ]);
    let json = config_key_value_to_json(value);
    match json {
        JsonValue::Object(entries) => {
            assert_eq!(entries.len(), 2);
            assert_eq!(entries[0].0, "name");
            match &entries[1].1 {
                JsonValue::Array(items) => {
                    assert_eq!(items.len(), 2);
                    assert!(matches!(items[0], JsonValue::Number(-1)));
                    assert!(matches!(items[1], JsonValue::Null));
                },
                other => panic!("unexpected array: {:?}", other),
            }
        },
        other => panic!("unexpected json: {:?}", other),
    }
}

#[test]
fn file_config_applies_the_extension_override() {
    let config = vec![
        (String::from("semi"), ConfigKeyValue::Bool(true)),
        (String::from("ts.semi"), ConfigKeyValue::Bool(false)),
    ];
    let resolved = resolve_config(config, no_globals(), false).config;
    let for_ts = resolve_config_for_file("src/mod.ts", &resolved);
    assert!(matches!(main_value(&for_ts, "semi"), JsonValue::Bool(false)));
    // the extension comparison is case-insensitive
    let for_upper = resolve_config_for_file("src/MOD.TS", &resolved);
    assert!(matches!(main_value(&for_upper, "semi"), JsonValue::Bool(false)));
    let for_js = resolve_config_for_file("src/mod.js", &resolved);
    assert!(matches!(main_value(&for_js, "semi"), JsonValue::Bool(true)));
    let no_extension = resolve_config_for_file("Makefile", &resolved);
    assert!(matches!(main_value(&no_extension, "semi"), JsonValue::Bool(true)));
}

#[test]
fn parser_overrides_extend_the_file_extensions() {
    let config = vec![
        (String::from("css.parser"), ConfigKeyValue::String(String::from("css"))),
        (String::from("ts.semi"), ConfigKeyValue::Bool(false)),
    ];
    let resolved = resolve_config(config, no_globals(), false).config;
    let extensions = get_file_extensions(&resolved.extension_overrides);
    assert_eq!(extensions, vec!["css", "js", "ts"]);
}

#[test]
fn handler_resolves_config_with_file_matching() {
    let handler: PrettierPluginHandler<EchoFormatter> = PrettierPluginHandler::new();
    let config = vec![(String::from("scss.parser"), ConfigKeyValue::String(String::from("scss")))];
    let result = handler.resolve_config(config, no_globals(), false);
    assert!(result.diagnostics.is_empty());
    assert_eq!(result.file_matching.file_extensions, vec!["scss", "js", "ts"]);
    assert!(result.file_matching.file_names.is_empty());
}

#[test]
fn cloned_maps_are_equal() {
    let config = vec![(String::from("ts.semi"), ConfigKeyValue::Bool(false))];
    let resolved = resolve_config(config, no_globals(), false).config;
    let cloned = clone_json_map(&resolved.main);
    assert_eq!(cloned.len(), resolved.main.len());
    for (a, b) in cloned.iter().zip(resolved.main.iter()) {
        assert_eq!(a.0, b.0);
        assert_eq!(format!("{:?}", a.1), format!("{:?}", b.1));
    }
}

#[test]
fn null_values_fall_back_to_defaults_silently() {
    let config = vec![(String::from("lineWidth"), ConfigKeyValue::Null)];
    let result = resolve_config(config, no_globals(), false);
    assert!(result.diagnostics.is_empty());
    assert!(matches!(main_value(&result.config.main, "printWidth"), JsonValue::Number(80)));
}

#[test]
fn scalar_end_of_line_values_are_written_out() {
    let config = vec![(String::from("endOfLine"), ConfigKeyValue::Bool(true))];
    let result = resolve_config(config, no_globals(), false);
    match main_value(&result.config.main, "endOfLine") {
        JsonValue::String(s) => assert_eq!(s, "true"),
        other => panic!("unexpected endOfLine: {:?}", other),
    }
    let _ = PrettierConfig { main: Vec::new(), extension_overrides: Vec::new() };
}
