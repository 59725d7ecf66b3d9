//! The plugin's configuration model and its resolution rules.
//!
//! Raw configuration arrives as an ordered map of keys to loosely typed
//! values. Resolution turns it into the formatting engine's own
//! configuration: the well-known dprint keys (`lineWidth`, `indentWidth`,
//! `useTabs`, `newLineKind`) are translated to the engine's names with a
//! defaulting chain through the global configuration, and every remaining
//! key is passed through — keys written as `ext.option` become per-file-
//! extension overrides. Maps are ordered by insertion, and inserting an
//! existing key replaces its value in place.

use vstd::prelude::*;

use crate::util::bool_str_of;
use crate::util::bool_to_string;
use crate::util::i32_to_string;
use crate::util::int_dec_of;
use crate::util::parse_unsigned;
use crate::util::parse_unsigned_spec;
use crate::util::str_eq;
use crate::util::NumberParseError;
use vstd::string::StringExecFns;

verus! {

broadcast use {vstd::seq::axiom_seq_index_decreases, vstd::std_specs::vec::axiom_vec_index_decreases, vstd::std_specs::vec::axiom_vec_decreases_to_view};

/// A raw configuration value, as the host hands it to the plugin.
#[derive(Debug)]
pub enum ConfigKeyValue {
    String(String),
    Number(i32),
    Bool(bool),
    Array(Vec<ConfigKeyValue>),
    Object(Vec<(String, ConfigKeyValue)>),
    Null,
}

/// An ordered key-value configuration map.
pub type ConfigKeyMap = Vec<(String, ConfigKeyValue)>;

/// A JSON value, as the formatting engine's configuration is written.
#[derive(Debug)]
pub enum JsonValue {
    Null,
    Bool(bool),
    Number(i64),
    String(String),
    Array(Vec<JsonValue>),
    Object(Vec<(String, JsonValue)>),
}

/// An ordered JSON object.
pub type JsonMap = Vec<(String, JsonValue)>;

/// The newline style asked of the engine.
#[derive(Clone, Copy, Debug, PartialEq, Eq, Structural)]
pub enum NewLineKind {
    /// Decide from the last newline already in the file.
    Auto,
    /// Line-feed newlines.
    LineFeed,
    /// Carriage-return line-feed newlines.
    CarriageReturnLineFeed,
    /// Whatever the platform uses.
    System,
}

/// The host's global formatting configuration, each knob optional.
#[derive(Clone, Debug)]
pub struct GlobalConfiguration {
    pub line_width: Option<u32>,
    pub use_tabs: Option<bool>,
    pub indent_width: Option<u8>,
    pub new_line_kind: Option<NewLineKind>,
}

/// A problem found while resolving the configuration.
#[derive(Clone, Debug)]
pub struct ConfigurationDiagnostic {
    /// The property the problem occurred on.
    pub property_name: String,
    /// The message to show the user.
    pub message: String,
}

/// The engine configuration the plugin formats with.
#[derive(Debug)]
pub struct PrettierConfig {
    /// Options applied to every file.
    pub main: JsonMap,
    /// Options applied only to files of one extension, keyed by the
    /// lower-cased extension.
    pub extension_overrides: JsonMap,
}

/// A resolved configuration together with the diagnostics met on the way.
pub struct ResolveConfigurationResult<T> {
    pub config: T,
    pub diagnostics: Vec<ConfigurationDiagnostic>,
}

/// Index of the first entry with the given key, or `-1` when absent.
pub open spec fn key_index<V>(entries: Seq<(String, V)>, key: Seq<char>) -> int
    decreases entries.len(),
{
    if entries.len() == 0 {
        -1
    } else if entries[0].0@ == key {
        0
    } else if key_index(entries.drop_first(), key) < 0 {
        -1
    } else {
        key_index(entries.drop_first(), key) + 1
    }
}

pub open spec fn has_key<V>(entries: Seq<(String, V)>, key: Seq<char>) -> bool {
    key_index(entries, key) >= 0
}

/// The value stored under the given key (meaningful only when present).
pub open spec fn map_value<V>(entries: Seq<(String, V)>, key: Seq<char>) -> V {
    entries[key_index(entries, key)].1
}

/// What inserting into an ordered map means: replace in place when the key
/// exists, append otherwise.
pub open spec fn map_inserted<V>(entries: Seq<(String, V)>, key: Seq<char>, k: String, v: V) -> Seq<
    (String, V),
>
    recommends
        k@ == key,
{
    if has_key(entries, key) {
        entries.update(key_index(entries, key), (k, v))
    } else {
        entries.push((k, v))
    }
}

/// The index bounds that `key_index` always meets.
pub proof fn lemma_key_index_bounds<V>(entries: Seq<(String, V)>, key: Seq<char>)
    ensures
        -1 <= key_index(entries, key) < entries.len(),
        has_key(entries, key) ==> entries[key_index(entries, key)].0@ == key,
    decreases entries.len(),
{
    if entries.len() > 0 && entries[0].0@ != key {
        lemma_key_index_bounds(entries.drop_first(), key);
    }
}

/// Finds the position of a key in an ordered map.
pub fn find_key<V>(entries: &Vec<(String, V)>, key: &str) -> (position: Option<usize>)
    ensures
        match position {
            Some(i) => i == key_index(entries@, key@) && i < entries@.len() && entries@[i as int].0@
                == key@,
            None => !has_key(entries@, key@),
        },
{
    proof {
        lemma_key_index_bounds(entries@, key@);
    }
    let mut i: usize = 0;
    while i < entries.len()
        invariant
            0 <= i <= entries@.len(),
            forall|j: int| 0 <= j < i ==> entries@[j].0@ != key@,
            key_index(entries@, key@) >= 0 ==> key_index(entries@, key@) >= i,
            -1 <= key_index(entries@, key@) < entries@.len(),
            has_key(entries@, key@) ==> entries@[key_index(entries@, key@)].0@ == key@,
        decreases entries@.len() - i,
    {
        if crate::util::str_eq(entries[i].0.as_str(), key) {
            proof {
                lemma_key_index_prefix(entries@, key@, i as int);
            }
            return Some(i);
        }
        i = i + 1;
    }
    proof {
        if has_key(entries@, key@) {
            assert(entries@[key_index(entries@, key@)].0@ == key@);
        }
    }
    None
}

/// When everything before position `i` misses the key and position `i` hits
/// it, `key_index` is exactly `i`.
pub proof fn lemma_key_index_prefix<V>(entries: Seq<(String, V)>, key: Seq<char>, i: int)
    requires
        0 <= i < entries.len(),
        entries[i].0@ == key,
        forall|j: int| 0 <= j < i ==> entries[j].0@ != key,
    ensures
        key_index(entries, key) == i,
    decreases i,
{
    if i > 0 {
        lemma_key_index_prefix(entries.drop_first(), key, i - 1);
    }
}

/// Inserts into an ordered map: replaces the value in place when the key is
/// already there, appends at the end otherwise.
pub fn map_insert<V>(entries: &mut Vec<(String, V)>, key: String, value: V)
    ensures
        final(entries)@ == map_inserted(old(entries)@, key@, key, value),
{
    proof {
        lemma_key_index_bounds(old(entries)@, key@);
    }
    let position = find_key(entries, key.as_str());
    match position {
        Some(i) => {
            entries.set(i, (key, value));
        },
        None => {
            entries.push((key, value));
        },
    }
}

/// What taking one configuration value yielded.
pub enum TakeResult<T> {
    /// The key was absent, or held an explicit null: the caller's default
    /// applies and nothing is reported.
    Absent,
    /// The value parsed.
    Parsed(T),
    /// The value did not parse; a diagnostic with this message is reported.
    Failed(Seq<char>),
}

pub open spec fn empty_number_message() -> Seq<char> {
    "cannot parse integer from empty string"@
}

pub open spec fn invalid_digit_message() -> Seq<char> {
    "invalid digit found in string"@
}

pub open spec fn overflow_message() -> Seq<char> {
    "number too large to fit in target type"@
}

pub open spec fn bool_message() -> Seq<char> {
    "provided string was not `true` or `false`"@
}

pub open spec fn unsupported_value_message() -> Seq<char> {
    "Arrays and objects are not supported for this value"@
}

pub open spec fn invalid_value_message(value: Seq<char>) -> Seq<char> {
    "Found invalid value '"@ + value + "'."@
}

pub open spec fn number_error_message(error: NumberParseError) -> Seq<char> {
    match error {
        NumberParseError::Empty => empty_number_message(),
        NumberParseError::InvalidDigit => invalid_digit_message(),
        NumberParseError::Overflow => overflow_message(),
    }
}

/// How a raw value reads as an unsigned number of at most `max`: a number
/// stands for itself, a string is parsed, everything else is its own
/// written-out form parsed as a number.
pub open spec fn unsigned_of_value(value: ConfigKeyValue, max: u64) -> TakeResult<u64> {
    match value {
        ConfigKeyValue::Bool(_) => TakeResult::Failed(invalid_digit_message()),
        ConfigKeyValue::Number(n) => if 0 <= n && n <= max {
            TakeResult::Parsed(n as u64)
        } else if n < 0 {
            TakeResult::Failed(invalid_digit_message())
        } else {
            TakeResult::Failed(overflow_message())
        },
        ConfigKeyValue::String(s) => match parse_unsigned_spec(s@, max) {
            Ok(v) => TakeResult::Parsed(v),
            Err(e) => TakeResult::Failed(number_error_message(e)),
        },
        ConfigKeyValue::Array(_) => TakeResult::Failed(unsupported_value_message()),
        ConfigKeyValue::Object(_) => TakeResult::Failed(unsupported_value_message()),
        ConfigKeyValue::Null => TakeResult::Absent,
    }
}

/// How a raw value reads as a boolean.
pub open spec fn bool_of_value(value: ConfigKeyValue) -> TakeResult<bool> {
    match value {
        ConfigKeyValue::Bool(b) => TakeResult::Parsed(b),
        ConfigKeyValue::Number(_) => TakeResult::Failed(bool_message()),
        ConfigKeyValue::String(s) => if s@ == "true"@ {
            TakeResult::Parsed(true)
        } else if s@ == "false"@ {
            TakeResult::Parsed(false)
        } else {
            TakeResult::Failed(bool_message())
        },
        ConfigKeyValue::Array(_) => TakeResult::Failed(unsupported_value_message()),
        ConfigKeyValue::Object(_) => TakeResult::Failed(unsupported_value_message()),
        ConfigKeyValue::Null => TakeResult::Absent,
    }
}

/// How a raw value reads as a newline kind.
pub open spec fn newline_kind_of_value(value: ConfigKeyValue) -> TakeResult<NewLineKind> {
    match value {
        ConfigKeyValue::Bool(b) => TakeResult::Failed(invalid_value_message(bool_str_of(b))),
        ConfigKeyValue::Number(n) => TakeResult::Failed(invalid_value_message(int_dec_of(n as int))),
        ConfigKeyValue::String(s) => if s@ == "auto"@ {
            TakeResult::Parsed(NewLineKind::Auto)
        } else if s@ == "lf"@ {
            TakeResult::Parsed(NewLineKind::LineFeed)
        } else if s@ == "crlf"@ {
            TakeResult::Parsed(NewLineKind::CarriageReturnLineFeed)
        } else if s@ == "system"@ {
            TakeResult::Parsed(NewLineKind::System)
        } else {
            TakeResult::Failed(invalid_value_message(s@))
        },
        ConfigKeyValue::Array(_) => TakeResult::Failed(unsupported_value_message()),
        ConfigKeyValue::Object(_) => TakeResult::Failed(unsupported_value_message()),
        ConfigKeyValue::Null => TakeResult::Absent,
    }
}

/// How a raw value reads as a string: every scalar is its written-out form.
pub open spec fn string_of_value(value: ConfigKeyValue) -> TakeResult<Seq<char>> {
    match value {
        ConfigKeyValue::Bool(b) => TakeResult::Parsed(bool_str_of(b)),
        ConfigKeyValue::Number(n) => TakeResult::Parsed(int_dec_of(n as int)),
        ConfigKeyValue::String(s) => TakeResult::Parsed(s@),
        ConfigKeyValue::Array(_) => TakeResult::Failed(unsupported_value_message()),
        ConfigKeyValue::Object(_) => TakeResult::Failed(unsupported_value_message()),
        ConfigKeyValue::Null => TakeResult::Absent,
    }
}

/// The map after one key was taken out of it (unchanged when absent).
pub open spec fn removed_key<V>(entries: Seq<(String, V)>, key: Seq<char>) -> Seq<(String, V)> {
    if has_key(entries, key) {
        entries.remove(key_index(entries, key))
    } else {
        entries
    }
}

/// The diagnostics list grew by exactly one entry for this key with this
/// message.
pub open spec fn diagnostic_pushed(
    before: Seq<ConfigurationDiagnostic>,
    after: Seq<ConfigurationDiagnostic>,
    key: Seq<char>,
    message: Seq<char>,
) -> bool {
    &&& after.len() == before.len() + 1
    &&& after.take(before.len() as int) == before
    &&& after.last().property_name@ == key
    &&& after.last().message@ == message
}

fn push_diagnostic(diagnostics: &mut Vec<ConfigurationDiagnostic>, key: &str, message: String)
    ensures
        diagnostic_pushed(old(diagnostics)@, final(diagnostics)@, key@, message@),
{
    let ghost message_view = message@;
    diagnostics.push(ConfigurationDiagnostic { property_name: key.to_owned(), message });
    proof {
        assert(final(diagnostics)@.take(old(diagnostics)@.len() as int) =~= old(diagnostics)@);
    }
}

fn number_error_string(error: NumberParseError) -> (s: String)
    ensures
        s@ == number_error_message(error),
{
    match error {
        NumberParseError::Empty => String::from_str("cannot parse integer from empty string"),
        NumberParseError::InvalidDigit => String::from_str("invalid digit found in string"),
        NumberParseError::Overflow => String::from_str("number too large to fit in target type"),
    }
}

fn unsupported_value_string() -> (s: String)
    ensures
        s@ == unsupported_value_message(),
{
    String::from_str("Arrays and objects are not supported for this value")
}

fn bool_message_string() -> (s: String)
    ensures
        s@ == bool_message(),
{
    String::from_str("provided string was not `true` or `false`")
}

fn invalid_value_string(value: &str) -> (s: String)
    ensures
        s@ == invalid_value_message(value@),
{
    let mut s = String::from_str("Found invalid value '");
    s.append(value);
    s.append("'.");
    proof {
        assert(("Found invalid value '"@ + value@) + "'."@ =~= invalid_value_message(value@));
    }
    s
}

/// The reading of `key` in this configuration: absent, parsed, or failed
/// with a message — for unsigned numbers of at most `max`.
pub open spec fn take_unsigned_outcome(
    entries: Seq<(String, ConfigKeyValue)>,
    key: Seq<char>,
    max: u64,
) -> TakeResult<u64> {
    if has_key(entries, key) {
        unsigned_of_value(map_value(entries, key), max)
    } else {
        TakeResult::Absent
    }
}

pub open spec fn take_bool_outcome(entries: Seq<(String, ConfigKeyValue)>, key: Seq<char>) -> TakeResult<
    bool,
> {
    if has_key(entries, key) {
        bool_of_value(map_value(entries, key))
    } else {
        TakeResult::Absent
    }
}

pub open spec fn take_newline_kind_outcome(
    entries: Seq<(String, ConfigKeyValue)>,
    key: Seq<char>,
) -> TakeResult<NewLineKind> {
    if has_key(entries, key) {
        newline_kind_of_value(map_value(entries, key))
    } else {
        TakeResult::Absent
    }
}

pub open spec fn take_string_outcome(entries: Seq<(String, ConfigKeyValue)>, key: Seq<char>) -> TakeResult<
    Seq<char>,
> {
    if has_key(entries, key) {
        string_of_value(map_value(entries, key))
    } else {
        TakeResult::Absent
    }
}

/// If `key` is present, takes its value out of the configuration and reads
/// it as an unsigned number of at most `max`. A missing key or an explicit
/// null yields nothing; a value that does not read as a number yields
/// nothing and one diagnostic.
pub fn get_nullable_number(
    config: &mut ConfigKeyMap,
    key: &str,
    max: u64,
    diagnostics: &mut Vec<ConfigurationDiagnostic>,
) -> (value: Option<u64>)
    ensures
        final(config)@ == removed_key(old(config)@, key@),
        match take_unsigned_outcome(old(config)@, key@, max) {
            TakeResult::Absent => value is None && final(diagnostics)@ == old(diagnostics)@,
            TakeResult::Parsed(v) => value == Some(v) && final(diagnostics)@ == old(diagnostics)@,
            TakeResult::Failed(m) => value is None && diagnostic_pushed(
                old(diagnostics)@,
                final(diagnostics)@,
                key@,
                m,
            ),
        },
{
    let position = find_key(config, key);
    match position {
        None => None,
        Some(i) => {
            let entry = config.remove(i);
            match entry.1 {
                ConfigKeyValue::Bool(_) => {
                    push_diagnostic(
                        diagnostics,
                        key,
                        number_error_string(NumberParseError::InvalidDigit),
                    );
                    None
                },
                ConfigKeyValue::Number(n) => {
                    if n >= 0 && n as u64 <= max {
                        Some(n as u64)
                    } else if n < 0 {
                        push_diagnostic(
                            diagnostics,
                            key,
                            number_error_string(NumberParseError::InvalidDigit),
                        );
                        None
                    } else {
                        push_diagnostic(
                            diagnostics,
                            key,
                            number_error_string(NumberParseError::Overflow),
                        );
                        None
                    }
                },
                ConfigKeyValue::String(text) => {
                    match parse_unsigned(text.as_str(), max) {
                        Ok(v) => Some(v),
                        Err(e) => {
                            push_diagnostic(diagnostics, key, number_error_string(e));
                            None
                        },
                    }
                },
                ConfigKeyValue::Array(_) => {
                    push_diagnostic(diagnostics, key, unsupported_value_string());
                    None
                },
                ConfigKeyValue::Object(_) => {
                    push_diagnostic(diagnostics, key, unsupported_value_string());
                    None
                },
                ConfigKeyValue::Null => None,
            }
        },
    }
}

/// Takes `key` as an unsigned number of at most `max`, falling back to the
/// default when the key is absent, null, or unreadable.
pub fn get_number(
    config: &mut ConfigKeyMap,
    key: &str,
    default_value: u64,
    max: u64,
    diagnostics: &mut Vec<ConfigurationDiagnostic>,
) -> (value: u64)
    ensures
        final(config)@ == removed_key(old(config)@, key@),
        match take_unsigned_outcome(old(config)@, key@, max) {
            TakeResult::Absent => value == default_value && final(diagnostics)@ == old(
                diagnostics,
            )@,
            TakeResult::Parsed(v) => value == v && final(diagnostics)@ == old(diagnostics)@,
            TakeResult::Failed(m) => value == default_value && diagnostic_pushed(
                old(diagnostics)@,
                final(diagnostics)@,
                key@,
                m,
            ),
        },
{
    let taken = get_nullable_number(config, key, max, diagnostics);
    match taken {
        Some(v) => v,
        None => default_value,
    }
}

/// If `key` is present, takes its value and reads it as a boolean.
pub fn get_nullable_bool(
    config: &mut ConfigKeyMap,
    key: &str,
    diagnostics: &mut Vec<ConfigurationDiagnostic>,
) -> (value: Option<bool>)
    ensures
        final(config)@ == removed_key(old(config)@, key@),
        match take_bool_outcome(old(config)@, key@) {
            TakeResult::Absent => value is None && final(diagnostics)@ == old(diagnostics)@,
            TakeResult::Parsed(v) => value == Some(v) && final(diagnostics)@ == old(diagnostics)@,
            TakeResult::Failed(m) => value is None && diagnostic_pushed(
                old(diagnostics)@,
                final(diagnostics)@,
                key@,
                m,
            ),
        },
{
    let position = find_key(config, key);
    match position {
        None => None,
        Some(i) => {
            let entry = config.remove(i);
            match entry.1 {
                ConfigKeyValue::Bool(b) => Some(b),
                ConfigKeyValue::Number(_) => {
                    push_diagnostic(diagnostics, key, bool_message_string());
                    None
                },
                ConfigKeyValue::String(text) => {
                    if str_eq(text.as_str(), "true") {
                        Some(true)
                    } else if str_eq(text.as_str(), "false") {
                        Some(false)
                    } else {
                        push_diagnostic(diagnostics, key, bool_message_string());
                        None
                    }
                },
                ConfigKeyValue::Array(_) => {
                    push_diagnostic(diagnostics, key, unsupported_value_string());
                    None
                },
                ConfigKeyValue::Object(_) => {
                    push_diagnostic(diagnostics, key, unsupported_value_string());
                    None
                },
                ConfigKeyValue::Null => None,
            }
        },
    }
}

/// Takes `key` as a boolean, falling back to the default.
pub fn get_bool(
    config: &mut ConfigKeyMap,
    key: &str,
    default_value: bool,
    diagnostics: &mut Vec<ConfigurationDiagnostic>,
) -> (value: bool)
    ensures
        final(config)@ == removed_key(old(config)@, key@),
        match take_bool_outcome(old(config)@, key@) {
            TakeResult::Absent => value == default_value && final(diagnostics)@ == old(
                diagnostics,
            )@,
            TakeResult::Parsed(v) => value == v && final(diagnostics)@ == old(diagnostics)@,
            TakeResult::Failed(m) => value == default_value && diagnostic_pushed(
                old(diagnostics)@,
                final(diagnostics)@,
                key@,
                m,
            ),
        },
{
    let taken = get_nullable_bool(config, key, diagnostics);
    match taken {
        Some(v) => v,
        None => default_value,
    }
}

/// If `key` is present, takes its value and reads it as a newline kind:
/// one of `auto`, `lf`, `crlf` or `system`.
pub fn get_nullable_newline_kind(
    config: &mut ConfigKeyMap,
    key: &str,
    diagnostics: &mut Vec<ConfigurationDiagnostic>,
) -> (value: Option<NewLineKind>)
    ensures
        final(config)@ == removed_key(old(config)@, key@),
        match take_newline_kind_outcome(old(config)@, key@) {
            TakeResult::Absent => value is None && final(diagnostics)@ == old(diagnostics)@,
            TakeResult::Parsed(v) => value == Some(v) && final(diagnostics)@ == old(diagnostics)@,
            TakeResult::Failed(m) => value is None && diagnostic_pushed(
                old(diagnostics)@,
                final(diagnostics)@,
                key@,
                m,
            ),
        },
{
    let position = find_key(config, key);
    match position {
        None => None,
        Some(i) => {
            let entry = config.remove(i);
            match entry.1 {
                ConfigKeyValue::Bool(b) => {
                    let written = bool_to_string(b);
                    push_diagnostic(diagnostics, key, invalid_value_string(written.as_str()));
                    None
                },
                ConfigKeyValue::Number(n) => {
                    let written = i32_to_string(n);
                    push_diagnostic(diagnostics, key, invalid_value_string(written.as_str()));
                    None
                },
                ConfigKeyValue::String(text) => {
                    if str_eq(text.as_str(), "auto") {
                        Some(NewLineKind::Auto)
                    } else if str_eq(text.as_str(), "lf") {
                        Some(NewLineKind::LineFeed)
                    } else if str_eq(text.as_str(), "crlf") {
                        Some(NewLineKind::CarriageReturnLineFeed)
                    } else if str_eq(text.as_str(), "system") {
                        Some(NewLineKind::System)
                    } else {
                        push_diagnostic(diagnostics, key, invalid_value_string(text.as_str()));
                        None
                    }
                },
                ConfigKeyValue::Array(_) => {
                    push_diagnostic(diagnostics, key, unsupported_value_string());
                    None
                },
                ConfigKeyValue::Object(_) => {
                    push_diagnostic(diagnostics, key, unsupported_value_string());
                    None
                },
                ConfigKeyValue::Null => None,
            }
        },
    }
}

/// Takes `key` as a newline kind, falling back to the default.
pub fn get_newline_kind(
    config: &mut ConfigKeyMap,
    key: &str,
    default_value: NewLineKind,
    diagnostics: &mut Vec<ConfigurationDiagnostic>,
) -> (value: NewLineKind)
    ensures
        final(config)@ == removed_key(old(config)@, key@),
        match take_newline_kind_outcome(old(config)@, key@) {
            TakeResult::Absent => value == default_value && final(diagnostics)@ == old(
                diagnostics,
            )@,
            TakeResult::Parsed(v) => value == v && final(diagnostics)@ == old(diagnostics)@,
            TakeResult::Failed(m) => value == default_value && diagnostic_pushed(
                old(diagnostics)@,
                final(diagnostics)@,
                key@,
                m,
            ),
        },
{
    let taken = get_nullable_newline_kind(config, key, diagnostics);
    match taken {
        Some(v) => v,
        None => default_value,
    }
}

/// If `key` is present, takes its value and reads it as a string: every
/// scalar is accepted in its written-out form.
pub fn get_nullable_string(
    config: &mut ConfigKeyMap,
    key: &str,
    diagnostics: &mut Vec<ConfigurationDiagnostic>,
) -> (value: Option<String>)
    ensures
        final(config)@ == removed_key(old(config)@, key@),
        match take_string_outcome(old(config)@, key@) {
            TakeResult::Absent => value is None && final(diagnostics)@ == old(diagnostics)@,
            TakeResult::Parsed(v) => value matches Some(s) && s@ == v && final(diagnostics)@ == old(
                diagnostics,
            )@,
            TakeResult::Failed(m) => value is None && diagnostic_pushed(
                old(diagnostics)@,
                final(diagnostics)@,
                key@,
                m,
            ),
        },
{
    let position = find_key(config, key);
    match position {
        None => None,
        Some(i) => {
            let entry = config.remove(i);
            match entry.1 {
                ConfigKeyValue::Bool(b) => Some(bool_to_string(b)),
                ConfigKeyValue::Number(n) => Some(i32_to_string(n)),
                ConfigKeyValue::String(text) => Some(text),
                ConfigKeyValue::Array(_) => {
                    push_diagnostic(diagnostics, key, unsupported_value_string());
                    None
                },
                ConfigKeyValue::Object(_) => {
                    push_diagnostic(diagnostics, key, unsupported_value_string());
                    None
                },
                ConfigKeyValue::Null => None,
            }
        },
    }
}

/// A JSON value at the specification level: keys and text as character
/// sequences, numbers as integers.
pub enum JsonView {
    Null,
    Bool(bool),
    Number(int),
    String(Seq<char>),
    Array(Seq<JsonView>),
    Object(Seq<(Seq<char>, JsonView)>),
}

/// What a JSON value stands for.
pub open spec fn json_view(value: JsonValue) -> JsonView
    decreases value,
{
    match value {
        JsonValue::Null => JsonView::Null,
        JsonValue::Bool(b) => JsonView::Bool(b),
        JsonValue::Number(n) => JsonView::Number(n as int),
        JsonValue::String(s) => JsonView::String(s@),
        JsonValue::Array(items) => JsonView::Array(json_seq_view(items@)),
        JsonValue::Object(entries) => JsonView::Object(json_entries_view(entries@)),
    }
}

pub open spec fn json_seq_view(items: Seq<JsonValue>) -> Seq<JsonView>
    decreases items,
{
    if items.len() == 0 {
        Seq::empty()
    } else {
        proof {
            vstd::seq::axiom_seq_index_decreases(items, 0);
            vstd::seq::axiom_seq_subrange_decreases(items, 1, items.len() as int);
            assert(items.drop_first() == items.subrange(1, items.len() as int));
        }
        seq![json_view(items.first())] + json_seq_view(items.drop_first())
    }
}

pub open spec fn json_entries_view(entries: Seq<(String, JsonValue)>) -> Seq<
    (Seq<char>, JsonView),
>
    decreases entries,
{
    if entries.len() == 0 {
        Seq::empty()
    } else {
        proof {
            vstd::seq::axiom_seq_index_decreases(entries, 0);
            assert(decreases_to!(entries[0] => entries[0].1));
            vstd::seq::axiom_seq_subrange_decreases(entries, 1, entries.len() as int);
            assert(entries.drop_first() == entries.subrange(1, entries.len() as int));
        }
        seq![(entries.first().0@, json_view(entries.first().1))] + json_entries_view(
            entries.drop_first(),
        )
    }
}

/// What an ordered JSON object stands for.
pub open spec fn json_map_view(entries: Seq<(String, JsonValue)>) -> Seq<(Seq<char>, JsonView)> {
    json_entries_view(entries)
}

/// How a raw configuration value translates to JSON: scalars map to their
/// JSON counterparts, arrays and objects are translated entry by entry.
pub open spec fn json_of_config_value(value: ConfigKeyValue) -> JsonView
    decreases value,
{
    match value {
        ConfigKeyValue::Bool(b) => JsonView::Bool(b),
        ConfigKeyValue::String(s) => JsonView::String(s@),
        ConfigKeyValue::Number(n) => JsonView::Number(n as int),
        ConfigKeyValue::Null => JsonView::Null,
        ConfigKeyValue::Array(items) => JsonView::Array(json_of_config_seq(items@)),
        ConfigKeyValue::Object(entries) => JsonView::Object(json_of_config_entries(entries@)),
    }
}

pub open spec fn json_of_config_seq(items: Seq<ConfigKeyValue>) -> Seq<JsonView>
    decreases items,
{
    if items.len() == 0 {
        Seq::empty()
    } else {
        proof {
            vstd::seq::axiom_seq_index_decreases(items, 0);
            vstd::seq::axiom_seq_subrange_decreases(items, 1, items.len() as int);
            assert(items.drop_first() == items.subrange(1, items.len() as int));
        }
        seq![json_of_config_value(items.first())] + json_of_config_seq(items.drop_first())
    }
}

pub open spec fn json_of_config_entries(entries: Seq<(String, ConfigKeyValue)>) -> Seq<
    (Seq<char>, JsonView),
>
    decreases entries,
{
    if entries.len() == 0 {
        Seq::empty()
    } else {
        proof {
            vstd::seq::axiom_seq_index_decreases(entries, 0);
            assert(decreases_to!(entries[0] => entries[0].1));
            vstd::seq::axiom_seq_subrange_decreases(entries, 1, entries.len() as int);
            assert(entries.drop_first() == entries.subrange(1, entries.len() as int));
        }
        seq![(entries.first().0@, json_of_config_value(entries.first().1))]
            + json_of_config_entries(entries.drop_first())
    }
}

/// `json_seq_view` is the element-wise view.
pub proof fn lemma_json_seq_view(items: Seq<JsonValue>)
    ensures
        json_seq_view(items).len() == items.len(),
        forall|i: int| 0 <= i < items.len() ==> json_seq_view(items)[i] == json_view(items[i]),
    decreases items.len(),
{
    if items.len() > 0 {
        lemma_json_seq_view(items.drop_first());
    }
}

/// `json_entries_view` is the entry-wise view.
pub proof fn lemma_json_entries_view(entries: Seq<(String, JsonValue)>)
    ensures
        json_entries_view(entries).len() == entries.len(),
        forall|i: int|
            0 <= i < entries.len() ==> json_entries_view(entries)[i] == (
            entries[i].0@,
            json_view(entries[i].1),
            ),
    decreases entries.len(),
{
    if entries.len() > 0 {
        lemma_json_entries_view(entries.drop_first());
    }
}

/// `json_of_config_seq` is the element-wise translation.
pub proof fn lemma_json_of_config_seq(items: Seq<ConfigKeyValue>)
    ensures
        json_of_config_seq(items).len() == items.len(),
        forall|i: int|
            0 <= i < items.len() ==> json_of_config_seq(items)[i] == json_of_config_value(
                items[i],
            ),
    decreases items.len(),
{
    if items.len() > 0 {
        lemma_json_of_config_seq(items.drop_first());
    }
}

/// `json_of_config_entries` is the entry-wise translation.
pub proof fn lemma_json_of_config_entries(entries: Seq<(String, ConfigKeyValue)>)
    ensures
        json_of_config_entries(entries).len() == entries.len(),
        forall|i: int|
            0 <= i < entries.len() ==> json_of_config_entries(entries)[i] == (
            entries[i].0@,
            json_of_config_value(entries[i].1),
            ),
    decreases entries.len(),
{
    if entries.len() > 0 {
        lemma_json_of_config_entries(entries.drop_first());
    }
}

/// Translates one raw configuration value to the JSON the engine reads.
pub fn config_key_value_to_json(value: ConfigKeyValue) -> (json: JsonValue)
    ensures
        json_view(json) == json_of_config_value(value),
    decreases value,
{
    match value {
        ConfigKeyValue::Bool(b) => JsonValue::Bool(b),
        ConfigKeyValue::String(s) => JsonValue::String(s),
        ConfigKeyValue::Number(n) => JsonValue::Number(n as i64),
        ConfigKeyValue::Null => JsonValue::Null,
        ConfigKeyValue::Array(items) => {
            let ghost items0 = items@;
            let ghost items_vec = items;
            let mut remaining = items;
            let mut out: Vec<JsonValue> = Vec::new();
            while remaining.len() > 0
                invariant
                    items_vec@ == items0,
                    value == ConfigKeyValue::Array(items_vec),
                    out@.len() + remaining@.len() == items0.len(),
                    remaining@ =~= items0.skip(out@.len() as int),
                    forall|i: int|
                        0 <= i < out@.len() ==> json_view(out@[i]) == json_of_config_value(
                            items0[i],
                        ),
                decreases remaining@.len(),
            {
                let item = remaining.remove(0);
                proof {
                    assert(item == items0[out@.len() as int]);
                    vstd::std_specs::vec::axiom_vec_index_decreases(items_vec, out@.len() as int);
                    assert(decreases_to!(value => value->Array_0));
                    assert(value->Array_0 == items_vec);
                    assert(decreases_to!(value => item));
                }
                let json = config_key_value_to_json(item);
                out.push(json);
            }
            proof {
                lemma_json_seq_view(out@);
                lemma_json_of_config_seq(items0);
                assert(json_seq_view(out@) =~= json_of_config_seq(items0));
            }
            JsonValue::Array(out)
        },
        ConfigKeyValue::Object(entries) => {
            let ghost entries0 = entries@;
            let ghost entries_vec = entries;
            let mut remaining = entries;
            let mut out: Vec<(String, JsonValue)> = Vec::new();
            while remaining.len() > 0
                invariant
                    entries_vec@ == entries0,
                    value == ConfigKeyValue::Object(entries_vec),
                    out@.len() + remaining@.len() == entries0.len(),
                    remaining@ =~= entries0.skip(out@.len() as int),
                    forall|i: int|
                        0 <= i < out@.len() ==> out@[i].0@ == entries0[i].0@ && json_view(
                            out@[i].1,
                        ) == json_of_config_value(entries0[i].1),
                decreases remaining@.len(),
            {
                let entry = remaining.remove(0);
                proof {
                    assert(entry == entries0[out@.len() as int]);
                    vstd::std_specs::vec::axiom_vec_index_decreases(entries_vec, out@.len() as int);
                    assert(decreases_to!(value => value->Object_0));
                    assert(value->Object_0 == entries_vec);
                    assert(decreases_to!(entries_vec => entry));
                    assert(decreases_to!(entry => entry.1));
                    assert(decreases_to!(value => entry.1));
                }
                let json = config_key_value_to_json(entry.1);
                out.push((entry.0, json));
            }
            proof {
                lemma_json_entries_view(out@);
                lemma_json_of_config_entries(entries0);
                assert(json_entries_view(out@) =~= json_of_config_entries(entries0));
            }
            JsonValue::Object(out)
        },
    }
}

/// Index of the first entry with the given key in a specification-level
/// map, or `-1` when absent.
pub open spec fn vkey_index<W>(entries: Seq<(Seq<char>, W)>, key: Seq<char>) -> int
    decreases entries.len(),
{
    if entries.len() == 0 {
        -1
    } else if entries[0].0 == key {
        0
    } else if vkey_index(entries.drop_first(), key) < 0 {
        -1
    } else {
        vkey_index(entries.drop_first(), key) + 1
    }
}

pub open spec fn vhas_key<W>(entries: Seq<(Seq<char>, W)>, key: Seq<char>) -> bool {
    vkey_index(entries, key) >= 0
}

pub open spec fn vmap_value<W>(entries: Seq<(Seq<char>, W)>, key: Seq<char>) -> W {
    entries[vkey_index(entries, key)].1
}

pub open spec fn vmap_inserted<W>(entries: Seq<(Seq<char>, W)>, key: Seq<char>, value: W) -> Seq<
    (Seq<char>, W),
> {
    if vhas_key(entries, key) {
        entries.update(vkey_index(entries, key), (key, value))
    } else {
        entries.push((key, value))
    }
}

/// An ordered JSON object and its view find keys at the same positions.
pub proof fn lemma_vkey_index_matches(entries: Seq<(String, JsonValue)>, key: Seq<char>)
    ensures
        vkey_index(json_map_view(entries), key) == key_index(entries, key),
        json_map_view(entries).len() == entries.len(),
    decreases entries.len(),
{
    lemma_json_entries_view(entries);
    if entries.len() > 0 {
        lemma_vkey_index_matches(entries.drop_first(), key);
        lemma_json_entries_view(entries.drop_first());
        assert(json_map_view(entries).drop_first() =~= json_map_view(entries.drop_first()));
    }
}

/// Inserting into an ordered JSON object and into its view agree.
pub proof fn lemma_vmap_inserted_matches(
    entries: Seq<(String, JsonValue)>,
    key: String,
    value: JsonValue,
)
    ensures
        json_map_view(map_inserted(entries, key@, key, value)) == vmap_inserted(
            json_map_view(entries),
            key@,
            json_view(value),
        ),
{
    lemma_vkey_index_matches(entries, key@);
    lemma_key_index_bounds(entries, key@);
    lemma_json_entries_view(entries);
    lemma_json_entries_view(map_inserted(entries, key@, key, value));
    assert(json_map_view(map_inserted(entries, key@, key, value)) =~= vmap_inserted(
        json_map_view(entries),
        key@,
        json_view(value),
    ));
}

/// Where one override option lands: into the override object of its
/// extension, which is created when it does not exist yet.
pub open spec fn override_inserted(
    overrides: Seq<(Seq<char>, JsonView)>,
    ext: Seq<char>,
    option_key: Seq<char>,
    json: JsonView,
) -> Seq<(Seq<char>, JsonView)> {
    if vhas_key(overrides, ext) {
        let merged = match vmap_value(overrides, ext) {
            JsonView::Object(entries) => JsonView::Object(vmap_inserted(entries, option_key, json)),
            _ => JsonView::Object(seq![(option_key, json)]),
        };
        overrides.update(vkey_index(overrides, ext), (ext, merged))
    } else {
        overrides.push((ext, JsonView::Object(seq![(option_key, json)])))
    }
}

/// Inserts one `ext.option` configuration value into the override object of
/// its extension.
pub fn insert_override(overrides: &mut JsonMap, ext: String, option_key: String, json: JsonValue)
    ensures
        json_map_view(final(overrides)@) == override_inserted(
            json_map_view(old(overrides)@),
            ext@,
            option_key@,
            json_view(json),
        ),
{
    proof {
        lemma_vkey_index_matches(old(overrides)@, ext@);
        lemma_key_index_bounds(old(overrides)@, ext@);
        lemma_json_entries_view(old(overrides)@);
    }
    let position = find_key(overrides, ext.as_str());
    match position {
        Some(i) => {
            let entry = overrides.remove(i);
            let ghost removed_view = json_map_view(old(overrides)@).remove(i as int);
            proof {
                lemma_json_entries_view(old(overrides)@.remove(i as int));
                assert(json_map_view(overrides@) =~= removed_view);
            }
            let merged = match entry.1 {
                JsonValue::Object(mut object_entries) => {
                    proof {
                        lemma_vkey_index_matches(object_entries@, option_key@);
                        lemma_key_index_bounds(object_entries@, option_key@);
                    }
                    let ghost object_entries0 = object_entries@;
                    map_insert(&mut object_entries, option_key, json);
                    proof {
                        lemma_vmap_inserted_matches(object_entries0, option_key, json);
                    }
                    JsonValue::Object(object_entries)
                },
                _ => {
                    let mut object_entries: Vec<(String, JsonValue)> = Vec::new();
                    object_entries.push((option_key, json));
                    proof {
                        lemma_json_entries_view(object_entries@);
                        assert(json_map_view(object_entries@) =~= seq![
                            (option_key@, json_view(json)),
                        ]);
                    }
                    JsonValue::Object(object_entries)
                },
            };
            let ghost kept_key = entry.0;
            overrides.insert(i, (entry.0, merged));
            proof {
                lemma_json_entries_view(overrides@);
                lemma_json_entries_view(old(overrides)@);
                lemma_vkey_index_matches(old(overrides)@, ext@);
                assert(json_map_view(old(overrides)@)[i as int] == (
                    old(overrides)@[i as int].0@,
                    json_view(old(overrides)@[i as int].1),
                ));
                assert(kept_key@ == ext@);
                assert(vkey_index(json_map_view(old(overrides)@), ext@) == i);
                assert(vmap_value(json_map_view(old(overrides)@), ext@) == json_view(
                    old(overrides)@[i as int].1,
                ));
                assert(json_view(merged) == (match vmap_value(
                    json_map_view(old(overrides)@),
                    ext@,
                ) {
                    JsonView::Object(entries) => JsonView::Object(
                        vmap_inserted(entries, option_key@, json_view(json)),
                    ),
                    _ => JsonView::Object(seq![(option_key@, json_view(json))]),
                }));
                assert(overrides@ =~= old(overrides)@.update(i as int, (kept_key, merged)));
                assert(json_map_view(overrides@) =~~= override_inserted(
                    json_map_view(old(overrides)@),
                    ext@,
                    option_key@,
                    json_view(json),
                ));
            }
        },
        None => {
            let mut object_entries: Vec<(String, JsonValue)> = Vec::new();
            object_entries.push((option_key, json));
            proof {
                lemma_json_entries_view(object_entries@);
                assert(json_map_view(object_entries@) =~= seq![(option_key@, json_view(json))]);
            }
            overrides.push((ext, JsonValue::Object(object_entries)));
            proof {
                lemma_json_entries_view(overrides@);
                lemma_json_entries_view(old(overrides)@);
                assert(json_map_view(overrides@) =~= override_inserted(
                    json_map_view(old(overrides)@),
                    ext@,
                    option_key@,
                    json_view(json),
                ));
            }
        },
    }
}

/// The parsed value of one reading, or the caller's default.
pub open spec fn resolved_unsigned(
    entries: Seq<(String, ConfigKeyValue)>,
    key: Seq<char>,
    default_value: u64,
    max: u64,
) -> u64 {
    match take_unsigned_outcome(entries, key, max) {
        TakeResult::Parsed(v) => v,
        _ => default_value,
    }
}

pub open spec fn resolved_bool(
    entries: Seq<(String, ConfigKeyValue)>,
    key: Seq<char>,
    default_value: bool,
) -> bool {
    match take_bool_outcome(entries, key) {
        TakeResult::Parsed(v) => v,
        _ => default_value,
    }
}

pub open spec fn resolved_newline_kind(
    entries: Seq<(String, ConfigKeyValue)>,
    key: Seq<char>,
    default_value: NewLineKind,
) -> NewLineKind {
    match take_newline_kind_outcome(entries, key) {
        TakeResult::Parsed(v) => v,
        _ => default_value,
    }
}

pub open spec fn resolved_nullable_string(entries: Seq<(String, ConfigKeyValue)>, key: Seq<char>) -> Option<
    Seq<char>,
> {
    match take_string_outcome(entries, key) {
        TakeResult::Parsed(v) => Some(v),
        _ => None,
    }
}

/// The diagnostic message of one reading, if it failed.
pub open spec fn outcome_message<T>(outcome: TakeResult<T>) -> Option<Seq<char>> {
    match outcome {
        TakeResult::Failed(m) => Some(m),
        _ => None,
    }
}

/// What the diagnostics are, as pairs of property name and message.
pub open spec fn diagnostics_view(diags: Seq<ConfigurationDiagnostic>) -> Seq<
    (Seq<char>, Seq<char>),
> {
    Seq::new(diags.len(), |i: int| (diags[i].property_name@, diags[i].message@))
}

/// Appends a diagnostic when a reading failed.
pub open spec fn push_message(
    diags: Seq<(Seq<char>, Seq<char>)>,
    key: Seq<char>,
    message: Option<Seq<char>>,
) -> Seq<(Seq<char>, Seq<char>)> {
    match message {
        Some(m) => diags.push((key, m)),
        None => diags,
    }
}

/// A pushed diagnostic appends exactly one pair to the view.
pub proof fn lemma_diagnostics_view_push(
    before: Seq<ConfigurationDiagnostic>,
    after: Seq<ConfigurationDiagnostic>,
    key: Seq<char>,
    message: Seq<char>,
)
    requires
        diagnostic_pushed(before, after, key, message),
    ensures
        diagnostics_view(after) == diagnostics_view(before).push((key, message)),
{
    assert forall|i: int| 0 <= i < before.len() implies after[i] == before[i] by {
        assert(after.take(before.len() as int)[i] == after[i]);
    }
    assert(diagnostics_view(after) =~= diagnostics_view(before).push((key, message)));
}

/// Where the remaining configuration keys go, taken in order: a key written
/// `ext.option` goes into the override object of the lower-cased extension
/// `ext`; every other key goes straight into the main options.
pub open spec fn split_rest(
    rest: Seq<(String, ConfigKeyValue)>,
    main: Seq<(Seq<char>, JsonView)>,
    overrides: Seq<(Seq<char>, JsonView)>,
) -> (Seq<(Seq<char>, JsonView)>, Seq<(Seq<char>, JsonView)>)
    decreases rest.len(),
{
    if rest.len() == 0 {
        (main, overrides)
    } else {
        let key = rest[0].0@;
        let json = json_of_config_value(rest[0].1);
        let dot = crate::util::last_dot_index(key);
        if dot >= 0 {
            let ext = crate::util::lower_of(key.take(dot));
            let option_key = key.skip(dot + 1);
            split_rest(
                rest.drop_first(),
                main,
                override_inserted(overrides, ext, option_key, json),
            )
        } else {
            split_rest(rest.drop_first(), vmap_inserted(main, key, json), overrides)
        }
    }
}

/// The whole meaning of configuration resolution, over the raw map, the
/// global configuration, and the platform newline: what the main options,
/// the per-extension overrides, and the diagnostics must be.
pub open spec fn resolve_config_matches(
    config: Seq<(String, ConfigKeyValue)>,
    global_config: GlobalConfiguration,
    platform_crlf: bool,
    main: Seq<(Seq<char>, JsonView)>,
    overrides: Seq<(Seq<char>, JsonView)>,
    diags: Seq<(Seq<char>, Seq<char>)>,
) -> bool {
    let u32_max = u32::MAX as u64;
    let default_line_width: u64 = match global_config.line_width {
        Some(w) => w as u64,
        None => 80,
    };
    let line_width = resolved_unsigned(config, "lineWidth"@, default_line_width, u32_max);
    let c1 = removed_key(config, "lineWidth"@);
    let print_width = resolved_unsigned(c1, "printWidth"@, line_width, u32_max);
    let c2 = removed_key(c1, "printWidth"@);
    let default_indent_width: u64 = match global_config.indent_width {
        Some(w) => w as u64,
        None => 2,
    };
    let indent_width = resolved_unsigned(c2, "indentWidth"@, default_indent_width, 255);
    let c3 = removed_key(c2, "indentWidth"@);
    let tab_width = resolved_unsigned(c3, "tabWidth"@, indent_width, 255);
    let c4 = removed_key(c3, "tabWidth"@);
    let default_use_tabs = match global_config.use_tabs {
        Some(b) => b,
        None => false,
    };
    let use_tabs = resolved_bool(c4, "useTabs"@, default_use_tabs);
    let c5 = removed_key(c4, "useTabs"@);
    let default_newline_kind = match global_config.new_line_kind {
        Some(k) => k,
        None => NewLineKind::LineFeed,
    };
    let newline_kind = resolved_newline_kind(c5, "newLineKind"@, default_newline_kind);
    let c6 = removed_key(c5, "newLineKind"@);
    let end_of_line = match resolved_nullable_string(c6, "endOfLine"@) {
        Some(s) => s,
        None => match newline_kind {
            NewLineKind::Auto => "auto"@,
            NewLineKind::CarriageReturnLineFeed => "cflf"@,
            NewLineKind::LineFeed => "lf"@,
            NewLineKind::System => if platform_crlf {
                "crlf"@
            } else {
                "lf"@
            },
        },
    };
    let c7 = removed_key(c6, "endOfLine"@);
    let main0 = seq![
        ("printWidth"@, JsonView::Number(print_width as int)),
        ("tabWidth"@, JsonView::Number(tab_width as int)),
        ("useTabs"@, JsonView::Bool(use_tabs)),
        ("endOfLine"@, JsonView::String(end_of_line)),
    ];
    let expected = split_rest(c7, main0, Seq::empty());
    let expected_diags = push_message(
        push_message(
            push_message(
                push_message(
                    push_message(
                        push_message(
                            push_message(
                                Seq::empty(),
                                "lineWidth"@,
                                outcome_message(
                                    take_unsigned_outcome(config, "lineWidth"@, u32_max),
                                ),
                            ),
                            "printWidth"@,
                            outcome_message(take_unsigned_outcome(c1, "printWidth"@, u32_max)),
                        ),
                        "indentWidth"@,
                        outcome_message(take_unsigned_outcome(c2, "indentWidth"@, 255)),
                    ),
                    "tabWidth"@,
                    outcome_message(take_unsigned_outcome(c3, "tabWidth"@, 255)),
                ),
                "useTabs"@,
                outcome_message(take_bool_outcome(c4, "useTabs"@)),
            ),
            "newLineKind"@,
            outcome_message(take_newline_kind_outcome(c5, "newLineKind"@)),
        ),
        "endOfLine"@,
        outcome_message(take_string_outcome(c6, "endOfLine"@)),
    );
    &&& main == expected.0
    &&& overrides == expected.1
    &&& diags == expected_diags
}

/// Resolves the raw configuration to the engine's configuration.
///
/// The well-known dprint keys are read first, each defaulting through the
/// global configuration (`printWidth` defaults to `lineWidth`, `tabWidth`
/// to `indentWidth`, `endOfLine` to the newline kind, written for the
/// platform when it asks for the system newline). Every remaining key is
/// passed through in order, keys written `ext.option` grouped into
/// per-extension override objects. Each unreadable value is reported once,
/// in reading order, and its default applies.
#[verifier::rlimit(80)]
pub fn resolve_config(
    config: ConfigKeyMap,
    global_config: GlobalConfiguration,
    platform_crlf: bool,
) -> (result: ResolveConfigurationResult<PrettierConfig>)
    ensures
        resolve_config_matches(
            config@,
            global_config,
            platform_crlf,
            json_map_view(result.config.main@),
            json_map_view(result.config.extension_overrides@),
            diagnostics_view(result.diagnostics@),
        ),
{
    let ghost c0 = config@;
    let mut config = config;
    let mut diagnostics: Vec<ConfigurationDiagnostic> = Vec::new();
    let mut main: JsonMap = Vec::new();
    let mut extension_overrides: JsonMap = Vec::new();
    let u32_max: u64 = u32::MAX as u64;
    proof {
        assert(diagnostics_view(diagnostics@) =~= Seq::<(Seq<char>, Seq<char>)>::empty());
    }

    let default_line_width: u64 = match global_config.line_width {
        Some(w) => w as u64,
        None => 80,
    };
    let ghost d0 = diagnostics@;
    let dprint_line_width = get_number(
        &mut config,
        "lineWidth",
        default_line_width,
        u32_max,
        &mut diagnostics,
    );
    proof {
        lemma_step_diagnostics(
            d0,
            diagnostics@,
            "lineWidth"@,
            outcome_message(take_unsigned_outcome(c0, "lineWidth"@, u32_max)),
        );
    }
    let ghost c1 = config@;
    let ghost d1 = diagnostics@;
    let print_width = get_number(
        &mut config,
        "printWidth",
        dprint_line_width,
        u32_max,
        &mut diagnostics,
    );
    proof {
        lemma_step_diagnostics(
            d1,
            diagnostics@,
            "printWidth"@,
            outcome_message(take_unsigned_outcome(c1, "printWidth"@, u32_max)),
        );
    }
    main.push((String::from_str("printWidth"), JsonValue::Number(print_width as i64)));
    let ghost c2 = config@;
    let ghost d2 = diagnostics@;

    let default_indent_width: u64 = match global_config.indent_width {
        Some(w) => w as u64,
        None => 2,
    };
    let dprint_indent_width = get_number(
        &mut config,
        "indentWidth",
        default_indent_width,
        255,
        &mut diagnostics,
    );
    proof {
        lemma_step_diagnostics(
            d2,
            diagnostics@,
            "indentWidth"@,
            outcome_message(take_unsigned_outcome(c2, "indentWidth"@, 255)),
        );
    }
    let ghost c3 = config@;
    let ghost d3 = diagnostics@;
    let tab_width = get_number(&mut config, "tabWidth", dprint_indent_width, 255, &mut diagnostics);
    proof {
        lemma_step_diagnostics(
            d3,
            diagnostics@,
            "tabWidth"@,
            outcome_message(take_unsigned_outcome(c3, "tabWidth"@, 255)),
        );
    }
    main.push((String::from_str("tabWidth"), JsonValue::Number(tab_width as i64)));
    let ghost c4 = config@;
    let ghost d4 = diagnostics@;

    let default_use_tabs = match global_config.use_tabs {
        Some(b) => b,
        None => false,
    };
    let use_tabs = get_bool(&mut config, "useTabs", default_use_tabs, &mut diagnostics);
    proof {
        lemma_step_diagnostics(
            d4,
            diagnostics@,
            "useTabs"@,
            outcome_message(take_bool_outcome(c4, "useTabs"@)),
        );
    }
    main.push((String::from_str("useTabs"), JsonValue::Bool(use_tabs)));
    let ghost c5 = config@;
    let ghost d5 = diagnostics@;

    let default_newline_kind = match global_config.new_line_kind {
        Some(k) => k,
        None => NewLineKind::LineFeed,
    };
    let newline_kind = get_newline_kind(
        &mut config,
        "newLineKind",
        default_newline_kind,
        &mut diagnostics,
    );
    proof {
        lemma_step_diagnostics(
            d5,
            diagnostics@,
            "newLineKind"@,
            outcome_message(take_newline_kind_outcome(c5, "newLineKind"@)),
        );
    }
    let ghost c6 = config@;
    let ghost d6 = diagnostics@;

    let end_of_line_taken = get_nullable_string(&mut config, "endOfLine", &mut diagnostics);
    proof {
        lemma_step_diagnostics(
            d6,
            diagnostics@,
            "endOfLine"@,
            outcome_message(take_string_outcome(c6, "endOfLine"@)),
        );
    }
    let end_of_line: String = match end_of_line_taken {
        Some(s) => s,
        None => match newline_kind {
            NewLineKind::Auto => String::from_str("auto"),
            NewLineKind::CarriageReturnLineFeed => String::from_str("cflf"),
            NewLineKind::LineFeed => String::from_str("lf"),
            NewLineKind::System => if platform_crlf {
                String::from_str("crlf")
            } else {
                String::from_str("lf")
            },
        },
    };
    let ghost end_of_line_view = end_of_line@;
    main.push((String::from_str("endOfLine"), JsonValue::String(end_of_line)));
    let ghost c7 = config@;
    let ghost d7 = diagnostics@;

    proof {
        lemma_json_entries_view(main@);
        assert(print_width <= u32::MAX as u64);
        assert(tab_width <= 255);
        assert(json_map_view(main@) =~= seq![
            ("printWidth"@, JsonView::Number(print_width as int)),
            ("tabWidth"@, JsonView::Number(tab_width as int)),
            ("useTabs"@, JsonView::Bool(use_tabs)),
            ("endOfLine"@, JsonView::String(end_of_line_view)),
        ]);
        lemma_json_entries_view(extension_overrides@);
        assert(json_map_view(extension_overrides@) =~= Seq::<(Seq<char>, JsonView)>::empty());
    }

    let ghost main1 = json_map_view(main@);
    let ghost overrides1 = json_map_view(extension_overrides@);

    while config.len() > 0
        invariant
            split_rest(config@, json_map_view(main@), json_map_view(extension_overrides@))
                == split_rest(c7, main1, overrides1),
            diagnostics@ == d7,
        decreases config@.len(),
    {
        let ghost rest_before = config@;
        let ghost main_before_exec = main@;
        let ghost main_before = json_map_view(main@);
        let ghost overrides_before = json_map_view(extension_overrides@);
        let entry = config.remove(0);
        let ghost entry_snapshot = entry;
        proof {
            assert(entry_snapshot == rest_before[0]);
            assert(config@ =~= rest_before.drop_first());
        }
        let key = entry.0;
        let json = config_key_value_to_json(entry.1);
        let key_len = key.as_str().unicode_len();
        let dot = crate::util::rfind_dot(key.as_str());
        match dot {
            Some(index) => {
                let raw_ext = key.as_str().substring_char(0, index);
                let ext = crate::util::to_lowercase_string(raw_ext);
                let option_key_slice = key.as_str().substring_char(index + 1, key_len);
                let option_key = option_key_slice.to_owned();
                proof {
                    assert(raw_ext@ =~= key@.take(index as int));
                    assert(option_key@ =~= key@.skip(index + 1));
                }
                insert_override(&mut extension_overrides, ext, option_key, json);
                proof {
                    assert(json_map_view(extension_overrides@) == override_inserted(
                        overrides_before,
                        crate::util::lower_of(key@.take(index as int)),
                        key@.skip(index + 1),
                        json_of_config_value(entry_snapshot.1),
                    ));
                    assert(split_rest(rest_before, main_before, overrides_before) == split_rest(
                        config@,
                        json_map_view(main@),
                        json_map_view(extension_overrides@),
                    ));
                }
            },
            None => {
                map_insert(&mut main, key, json);
                proof {
                    lemma_vmap_inserted_matches(main_before_exec, entry_snapshot.0, json);
                    assert(json_map_view(main@) == vmap_inserted(
                        main_before,
                        entry_snapshot.0@,
                        json_of_config_value(entry_snapshot.1),
                    ));
                    assert(split_rest(rest_before, main_before, overrides_before) == split_rest(
                        config@,
                        json_map_view(main@),
                        json_map_view(extension_overrides@),
                    ));
                }
            },
        }
    }

    ResolveConfigurationResult {
        config: PrettierConfig { main, extension_overrides },
        diagnostics,
    }
}

/// One reading changed the diagnostics exactly by its message.
proof fn lemma_step_diagnostics(
    before: Seq<ConfigurationDiagnostic>,
    after: Seq<ConfigurationDiagnostic>,
    key: Seq<char>,
    message: Option<Seq<char>>,
)
    requires
        match message {
            Some(m) => diagnostic_pushed(before, after, key, m),
            None => after == before,
        },
    ensures
        diagnostics_view(after) == push_message(diagnostics_view(before), key, message),
{
    match message {
        Some(m) => lemma_diagnostics_view_push(before, after, key, m),
        None => {},
    }
}

/// A verified deep copy of a JSON value.
pub fn clone_json_value(value: &JsonValue) -> (cloned: JsonValue)
    ensures
        json_view(cloned) == json_view(*value),
    decreases value,
{
    match value {
        JsonValue::Null => JsonValue::Null,
        JsonValue::Bool(b) => JsonValue::Bool(*b),
        JsonValue::Number(n) => JsonValue::Number(*n),
        JsonValue::String(s) => JsonValue::String(s.clone()),
        JsonValue::Array(items) => {
            let mut cloned_items: Vec<JsonValue> = Vec::new();
            let mut i: usize = 0;
            while i < items.len()
                invariant
                    0 <= i <= items@.len(),
                    cloned_items@.len() == i,
                    *value == JsonValue::Array(*items),
                    forall|j: int|
                        0 <= j < i ==> json_view(cloned_items@[j]) == json_view(items@[j]),
                decreases items@.len() - i,
            {
                proof {
                    vstd::std_specs::vec::axiom_vec_index_decreases(*items, i as int);
                    assert(decreases_to!(*value => value->Array_0));
                    assert(value->Array_0 == *items);
                }
                let cloned_item = clone_json_value(&items[i]);
                cloned_items.push(cloned_item);
                i = i + 1;
            }
            proof {
                lemma_json_seq_view(cloned_items@);
                lemma_json_seq_view(items@);
                assert(json_seq_view(cloned_items@) =~= json_seq_view(items@));
            }
            JsonValue::Array(cloned_items)
        },
        JsonValue::Object(entries) => {
            let mut cloned_entries: Vec<(String, JsonValue)> = Vec::new();
            let mut i: usize = 0;
            while i < entries.len()
                invariant
                    0 <= i <= entries@.len(),
                    cloned_entries@.len() == i,
                    *value == JsonValue::Object(*entries),
                    forall|j: int|
                        0 <= j < i ==> cloned_entries@[j].0@ == entries@[j].0@ && json_view(
                            cloned_entries@[j].1,
                        ) == json_view(entries@[j].1),
                decreases entries@.len() - i,
            {
                proof {
                    vstd::std_specs::vec::axiom_vec_index_decreases(*entries, i as int);
                    assert(decreases_to!(*value => value->Object_0));
                    assert(value->Object_0 == *entries);
                    assert(decreases_to!(entries@[i as int] => entries@[i as int].1));
                }
                let entry = &entries[i];
                let cloned_value = clone_json_value(&entry.1);
                cloned_entries.push((entry.0.clone(), cloned_value));
                i = i + 1;
            }
            proof {
                lemma_json_entries_view(cloned_entries@);
                lemma_json_entries_view(entries@);
                assert(json_entries_view(cloned_entries@) =~= json_entries_view(entries@));
            }
            JsonValue::Object(cloned_entries)
        },
    }
}

/// A verified deep copy of an ordered JSON object.
pub fn clone_json_map(entries: &JsonMap) -> (cloned: JsonMap)
    ensures
        json_map_view(cloned@) == json_map_view(entries@),
{
    let mut cloned: JsonMap = Vec::new();
    let mut i: usize = 0;
    while i < entries.len()
        invariant
            0 <= i <= entries@.len(),
            cloned@.len() == i,
            forall|j: int|
                0 <= j < i ==> cloned@[j].0@ == entries@[j].0@ && json_view(cloned@[j].1)
                    == json_view(entries@[j].1),
        decreases entries@.len() - i,
    {
        let entry = &entries[i];
        let cloned_value = clone_json_value(&entry.1);
        cloned.push((entry.0.clone(), cloned_value));
        i = i + 1;
    }
    proof {
        lemma_json_entries_view(cloned@);
        lemma_json_entries_view(entries@);
        assert(json_entries_view(cloned@) =~= json_entries_view(entries@));
    }
    cloned
}

/// The main options with one override object folded in, entry by entry.
pub open spec fn merged_view(
    main: Seq<(Seq<char>, JsonView)>,
    adds: Seq<(Seq<char>, JsonView)>,
) -> Seq<(Seq<char>, JsonView)>
    decreases adds.len(),
{
    if adds.len() == 0 {
        main
    } else {
        merged_view(vmap_inserted(main, adds[0].0, adds[0].1), adds.drop_first())
    }
}

/// The options that apply to one file: the main options, with the override
/// object of the file's lower-cased extension folded in when there is one.
pub open spec fn file_config_view(
    path: Seq<char>,
    main: Seq<(Seq<char>, JsonView)>,
    overrides: Seq<(Seq<char>, JsonView)>,
) -> Seq<(Seq<char>, JsonView)> {
    let dot = crate::util::last_dot_index(path);
    if dot < 0 {
        main
    } else {
        let ext = crate::util::lower_of(path.skip(dot + 1));
        if vhas_key(overrides, ext) {
            match vmap_value(overrides, ext) {
                JsonView::Object(entries) => merged_view(main, entries),
                _ => main,
            }
        } else {
            main
        }
    }
}

/// Resolves the options for one file: the extension after the last dot of
/// its path, lower-cased, picks the override object merged over the main
/// options.
pub fn resolve_config_for_file(file_path: &str, config: &PrettierConfig) -> (resolved: JsonMap)
    ensures
        json_map_view(resolved@) == file_config_view(
            file_path@,
            json_map_view(config.main@),
            json_map_view(config.extension_overrides@),
        ),
{
    let dot = crate::util::rfind_dot(file_path);
    match dot {
        None => clone_json_map(&config.main),
        Some(index) => {
            let path_len = file_path.unicode_len();
            let raw_ext = file_path.substring_char(index + 1, path_len);
            let ext = crate::util::to_lowercase_string(raw_ext);
            proof {
                assert(raw_ext@ =~= file_path@.skip(index + 1));
                lemma_vkey_index_matches(config.extension_overrides@, ext@);
                lemma_json_entries_view(config.extension_overrides@);
            }
            let position = find_key(&config.extension_overrides, ext.as_str());
            match position {
                None => clone_json_map(&config.main),
                Some(i) => {
                    let entry = &config.extension_overrides[i];
                    match &entry.1 {
                        JsonValue::Object(override_entries) => {
                            proof {
                                assert(vmap_value(
                                    json_map_view(config.extension_overrides@),
                                    ext@,
                                ) == json_view(entry.1));
                                lemma_json_entries_view(override_entries@);
                            }
                            let ghost adds = json_map_view(override_entries@);
                            let ghost main0 = json_map_view(config.main@);
                            let mut merged = clone_json_map(&config.main);
                            proof {
                                assert(adds.skip(0) =~= adds);
                            }
                            let mut j: usize = 0;
                            while j < override_entries.len()
                                invariant
                                    0 <= j <= override_entries@.len(),
                                    adds == json_map_view(override_entries@),
                                    adds.len() == override_entries@.len(),
                                    merged_view(json_map_view(merged@), adds.skip(j as int))
                                        == merged_view(main0, adds),
                                decreases override_entries@.len() - j,
                            {
                                let ghost merged_before = merged@;
                                let entry_j = &override_entries[j];
                                let add_key = entry_j.0.clone();
                                let add_value = clone_json_value(&entry_j.1);
                                let ghost add_key_snapshot = add_key;
                                let ghost add_value_snapshot = add_value;
                                proof {
                                    lemma_json_entries_view(override_entries@);
                                    assert(adds[j as int] == (
                                        entry_j.0@,
                                        json_view(entry_j.1),
                                    ));
                                }
                                map_insert(&mut merged, add_key, add_value);
                                proof {
                                    lemma_vmap_inserted_matches(
                                        merged_before,
                                        add_key_snapshot,
                                        add_value_snapshot,
                                    );
                                    assert(json_map_view(merged@) == vmap_inserted(
                                        json_map_view(merged_before),
                                        adds[j as int].0,
                                        adds[j as int].1,
                                    ));
                                    assert(adds.skip(j as int)[0] == adds[j as int]);
                                    assert(adds.skip(j as int).drop_first() =~= adds.skip(
                                        j + 1,
                                    ));
                                }
                                j = j + 1;
                            }
                            proof {
                                assert(adds.skip(override_entries@.len() as int)
                                    =~= Seq::<(Seq<char>, JsonView)>::empty());
                            }
                            merged
                        },
                        _ => clone_json_map(&config.main),
                    }
                },
            }
        },
    }
}

} // verus!
