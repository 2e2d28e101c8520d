//! Startup configuration and validation.

use vstd::prelude::*;
use vstd::utf8::{decode_utf8, encode_utf8, valid_utf8};

use crate::error::ConfigError;
use crate::limits::{
    TOKEN_MAX_BYTES,
    TOOL_INPUT_MAX_DEFAULT,
    TOOL_INPUT_MAX_HARD,
    TOOL_INPUT_MIN_DEFAULT,
};
use crate::log_filter::{all_come_apart, is_log_filter};
use crate::log_filter::{directives_come_apart, log_filter};
use crate::strings::{char_vec, decimal_text, parse_decimal, quote_text, same_text};
use crate::strings::{decimal, decimal_number, is_white_space, occurs_in, quoted_text, trimmed};
use crate::strings::{text_from_utf8, text_of};

verus! {

pub const TOKEN_ENV: &'static str = "ONEC_AI_TOKEN";

pub const TOKEN_FILE_ENV: &'static str = "ONEC_AI_TOKEN_FILE";

pub const BASE_URL_ENV: &'static str = "ONEC_AI_BASE_URL";

pub const TOOL_INPUT_MIN_ENV: &'static str = "MCP_TOOL_INPUT_MIN_LENGTH";

pub const TOOL_INPUT_MAX_ENV: &'static str = "MCP_TOOL_INPUT_MAX_LENGTH";

pub const TOOL_CALL_MODE_ENV: &'static str = "MCP_TOOL_CALL_MODE";

pub const UI_LANGUAGE_ENV: &'static str = "ONEC_AI_UI_LANGUAGE";

pub const PROGRAMMING_LANGUAGE_ENV: &'static str = "ONEC_AI_PROGRAMMING_LANGUAGE";

pub const DEFAULT_SSL_VERSION_ENV: &'static str = "DEFAULT_SSL_VERSION";

pub const DEFAULT_CONFIGURATION_ENV: &'static str = "DEFAULT_1C_CONFIGURATION";

pub const MAX_CONCURRENT_CALLS_ENV: &'static str = "MCP_MAX_CONCURRENT_CALLS";

pub const RUST_LOG_ENV: &'static str = "RUST_LOG";

/// How tool calls are carried out.
#[derive(Clone, Copy, Debug, PartialEq, Eq, Structural)]
pub enum CallMode {
    Direct,
    Standard,
}

/// The value of an environment variable.
pub enum EnvValue {
    Missing,
    NotUnicode,
    Text(String),
}

/// The content of an [`EnvValue`].
pub enum EnvView {
    Missing,
    NotUnicode,
    Text(Seq<char>),
}

impl View for EnvValue {
    type V = EnvView;

    open spec fn view(&self) -> EnvView {
        match self {
            EnvValue::Missing => EnvView::Missing,
            EnvValue::NotUnicode => EnvView::NotUnicode,
            EnvValue::Text(text) => EnvView::Text(text@),
        }
    }
}

/// The environment variables that are read.
pub struct EnvironmentValues {
    pub token: EnvValue,
    pub token_file: EnvValue,
    pub base_url: EnvValue,
    pub tool_input_min: EnvValue,
    pub tool_input_max: EnvValue,
    pub tool_call_mode: EnvValue,
    pub ui_language: EnvValue,
    pub programming_language: EnvValue,
    pub default_ssl_version: EnvValue,
    pub default_configuration: EnvValue,
    pub max_concurrent_calls: EnvValue,
    pub rust_log: EnvValue,
}

/// What the platform says of the path of the token file: whether it is absolute, and
/// the names in it that may be those of devices.
pub struct PathFacts {
    pub absolute: bool,
    pub names: Vec<String>,
}

/// What a path leads to.
#[derive(Clone, Copy, Debug, PartialEq, Eq, Structural)]
pub enum FileKind {
    Regular,
    Directory,
    Link,
    Other,
}

/// What the file system says of the token file.
#[derive(Clone, Copy, Debug)]
pub struct TokenFileInfo {
    pub kind: FileKind,
    pub len: u64,
}

/// The validated settings.
pub struct Config {
    token: String,
    tool_input_min_length: usize,
    tool_input_max_length: usize,
    call_mode: CallMode,
    ui_language: String,
    programming_language: String,
    default_ssl_version: String,
    default_1c_configuration: String,
    max_concurrent_calls: usize,
    rust_log: String,
}

/// The content of a [`Config`].
pub struct ConfigView {
    pub token: Seq<char>,
    pub min_length: nat,
    pub max_length: nat,
    pub mode: CallMode,
    pub ui_language: Seq<char>,
    pub programming_language: Seq<char>,
    pub ssl_version: Seq<char>,
    pub configuration: Seq<char>,
    pub concurrent: nat,
    pub log: Seq<char>,
}

impl View for Config {
    type V = ConfigView;

    closed spec fn view(&self) -> ConfigView {
        ConfigView {
            token: self.token@,
            min_length: self.tool_input_min_length as nat,
            max_length: self.tool_input_max_length as nat,
            mode: self.call_mode,
            ui_language: self.ui_language@,
            programming_language: self.programming_language@,
            ssl_version: self.default_ssl_version@,
            configuration: self.default_1c_configuration@,
            concurrent: self.max_concurrent_calls as nat,
            log: self.rust_log@,
        }
    }
}

/// The text holds a zero byte or a line ending.
pub open spec fn has_forbidden_control(text: Seq<char>) -> bool {
    exists|i: int|
        0 <= i < text.len() && (#[trigger] text[i] == '\0' || text[i] == '\r' || text[i] == '\n')
}

/// A text that can be a token.
pub open spec fn is_token(text: Seq<char>) -> bool {
    &&& text.len() > 0
    &&& encode_utf8(text).len() <= TOKEN_MAX_BYTES
    &&& !has_forbidden_control(text)
    &&& trimmed(text) == text
}

pub open spec fn checked_token(text: Seq<char>) -> Result<Seq<char>, ConfigError> {
    if is_token(text) {
        Ok(text)
    } else {
        Err(ConfigError::InvalidToken)
    }
}

/// A text that is set, or its default.
pub open spec fn set_text(value: EnvView, name: &'static str, default: Seq<char>) -> Result<
    Seq<char>,
    ConfigError,
> {
    match value {
        EnvView::Missing => Ok(default),
        EnvView::NotUnicode => Err(ConfigError::NonUnicodeValue { name }),
        EnvView::Text(text) => Ok(text),
    }
}

/// A text that is set, with a bound on its characters.
pub open spec fn set_bounded_text(
    value: EnvView,
    name: &'static str,
    default: Seq<char>,
    min: nat,
    max: nat,
) -> Result<Seq<char>, ConfigError> {
    match set_text(value, name, default) {
        Err(error) => Err(error),
        Ok(text) => if min <= text.len() <= max && !has_forbidden_control(text) {
            Ok(text)
        } else {
            Err(ConfigError::InvalidSetting { name })
        },
    }
}

/// A number that is set, within bounds, or its default.
pub open spec fn set_number(
    value: EnvView,
    name: &'static str,
    default: nat,
    min: nat,
    max: nat,
) -> Result<nat, ConfigError> {
    match value {
        EnvView::Missing => Ok(default),
        EnvView::NotUnicode => Err(ConfigError::NonUnicodeValue { name }),
        EnvView::Text(text) => match decimal_number(text) {
            None => Err(ConfigError::InvalidInteger { name }),
            Some(n) => if min <= n <= max {
                Ok(n)
            } else {
                Err(ConfigError::InvalidSetting { name })
            },
        },
    }
}

/// The call mode that is set.
pub open spec fn set_mode(value: EnvView) -> Result<CallMode, ConfigError> {
    match set_text(value, TOOL_CALL_MODE_ENV, "direct"@) {
        Err(error) => Err(error),
        Ok(text) => if text == "direct"@ {
            Ok(CallMode::Direct)
        } else if text == "standard"@ {
            Ok(CallMode::Standard)
        } else {
            Err(ConfigError::InvalidSetting { name: TOOL_CALL_MODE_ENV })
        },
    }
}

/// The text is too short, too long or not clean enough for a log filter.
pub open spec fn is_unfit_log(text: Seq<char>) -> bool {
    text.len() == 0 || encode_utf8(text).len() > 1024 || has_forbidden_control(text)
}

/// A text that may be set as a log filter, by whether it is one.
pub open spec fn checked_log(text: Seq<char>, is_filter: bool) -> Result<Seq<char>, ConfigError> {
    if is_unfit_log(text) {
        Err(ConfigError::InvalidSetting { name: RUST_LOG_ENV })
    } else if is_filter {
        Ok(text)
    } else {
        Err(ConfigError::InvalidLogFilter)
    }
}

/// The log filter that is set. A text with a directive that does not come apart between
/// its characters is none.
pub open spec fn set_log(value: EnvView) -> Result<Seq<char>, ConfigError> {
    match set_text(value, RUST_LOG_ENV, "warn"@) {
        Err(error) => Err(error),
        Ok(text) => checked_log(text, all_come_apart(text) && is_log_filter(text)),
    }
}

/// The bounds on the length of tool inputs.
pub open spec fn set_lengths(min: EnvView, max: EnvView) -> Result<(nat, nat), ConfigError> {
    match set_number(
        min,
        TOOL_INPUT_MIN_ENV,
        TOOL_INPUT_MIN_DEFAULT as nat,
        1,
        TOOL_INPUT_MAX_HARD as nat,
    ) {
        Err(error) => Err(error),
        Ok(least) => match set_number(
            max,
            TOOL_INPUT_MAX_ENV,
            TOOL_INPUT_MAX_DEFAULT as nat,
            1,
            TOOL_INPUT_MAX_HARD as nat,
        ) {
            Err(error) => Err(error),
            Ok(most) => if least > most {
                Err(ConfigError::InvertedToolInputLimits)
            } else {
                Ok((least, most))
            },
        },
    }
}

/// The texts that are set: the language of the interface, that of the code, the version
/// of the standard subsystems and the configuration.
pub open spec fn set_texts(environment: EnvironmentValues) -> Result<
    (Seq<char>, Seq<char>, Seq<char>, Seq<char>),
    ConfigError,
> {
    match set_bounded_text(environment.ui_language@, UI_LANGUAGE_ENV, "russian"@, 1, 64) {
        Err(error) => Err(error),
        Ok(ui) => match set_bounded_text(
            environment.programming_language@,
            PROGRAMMING_LANGUAGE_ENV,
            ""@,
            0,
            64,
        ) {
            Err(error) => Err(error),
            Ok(code) => match set_bounded_text(
                environment.default_ssl_version@,
                DEFAULT_SSL_VERSION_ENV,
                ""@,
                0,
                256,
            ) {
                Err(error) => Err(error),
                Ok(ssl) => match set_bounded_text(
                    environment.default_configuration@,
                    DEFAULT_CONFIGURATION_ENV,
                    ""@,
                    0,
                    256,
                ) {
                    Err(error) => Err(error),
                    Ok(configuration) => Ok((ui, code, ssl, configuration)),
                },
            },
        },
    }
}

/// The settings with this token: the first that is invalid refuses them all.
pub open spec fn settings(environment: EnvironmentValues, token: Seq<char>) -> Result<
    ConfigView,
    ConfigError,
> {
    match set_lengths(environment.tool_input_min@, environment.tool_input_max@) {
        Err(error) => Err(error),
        Ok(lengths) => match set_mode(environment.tool_call_mode@) {
            Err(error) => Err(error),
            Ok(mode) => match set_texts(environment) {
                Err(error) => Err(error),
                Ok(texts) => match set_number(
                    environment.max_concurrent_calls@,
                    MAX_CONCURRENT_CALLS_ENV,
                    2,
                    1,
                    2,
                ) {
                    Err(error) => Err(error),
                    Ok(concurrent) => match set_log(environment.rust_log@) {
                        Err(error) => Err(error),
                        Ok(log) => Ok(
                            ConfigView {
                                token,
                                min_length: lengths.0,
                                max_length: lengths.1,
                                mode,
                                ui_language: texts.0,
                                programming_language: texts.1,
                                ssl_version: texts.2,
                                configuration: texts.3,
                                concurrent,
                                log,
                            },
                        ),
                    },
                },
            },
        },
    }
}

/// A name without the spaces and dots at its end.
pub open spec fn without_tail(name: Seq<char>) -> Seq<char>
    decreases name.len(),
{
    if name.len() > 0 && (name.last() == ' ' || name.last() == '.') {
        without_tail(name.drop_last())
    } else {
        name
    }
}

/// A name up to its first dot.
pub open spec fn before_dot(name: Seq<char>) -> Seq<char>
    decreases name.len(),
{
    if name.len() == 0 || name[0] == '.' {
        Seq::empty()
    } else {
        seq![name[0]] + before_dot(name.drop_first())
    }
}

/// An ASCII letter in upper case; any other character as it is.
pub open spec fn ascii_upper(c: char) -> char {
    if 'a' <= c <= 'z' {
        (c as u32 - 32) as char
    } else {
        c
    }
}

/// The part of a file name that can name a device.
pub open spec fn device_part(name: Seq<char>) -> Seq<char> {
    before_dot(without_tail(name)).map_values(|c: char| ascii_upper(c))
}

/// The name is that of a device.
pub open spec fn is_device(base: Seq<char>) -> bool {
    ||| base == "CON"@
    ||| base == "PRN"@
    ||| base == "AUX"@
    ||| base == "NUL"@
    ||| base.len() == 4 && (base.take(3) == "COM"@ || base.take(3) == "LPT"@) && '1' <= base[3]
        <= '9'
}

/// Some name in the path is that of a device.
pub open spec fn has_device(names: Seq<String>) -> bool {
    exists|i: int| 0 <= i < names.len() && is_device(device_part((#[trigger] names[i])@))
}

/// The path can lead to a local token file.
pub open spec fn is_token_path(path: Seq<char>, facts: PathFacts) -> bool {
    &&& path.len() > 0
    &&& !has_forbidden_control(path)
    &&& !(path.len() >= 2 && path[0] == '\\' && path[1] == '\\')
    &&& !(path.len() >= 2 && path[0] == '/' && path[1] == '/')
    &&& facts.absolute
    &&& !has_device(facts.names@)
}

/// A token without the line ending that may follow it in its file.
pub open spec fn without_line_ending(text: Seq<char>) -> Seq<char> {
    if text.len() >= 2 && text[text.len() - 2] == '\r' && text.last() == '\n' {
        text.take(text.len() - 2)
    } else if text.len() >= 1 && text.last() == '\n' {
        text.take(text.len() - 1)
    } else {
        text
    }
}

/// The token in what was read of its file.
pub open spec fn token_in(contents: Option<Seq<u8>>) -> Result<Seq<char>, ConfigError> {
    match contents {
        None => Err(ConfigError::TokenFileUnreadable),
        Some(bytes) => if bytes.len() > TOKEN_MAX_BYTES {
            Err(ConfigError::TokenFileTooLarge)
        } else if !valid_utf8(bytes) {
            Err(ConfigError::InvalidToken)
        } else {
            checked_token(without_line_ending(decode_utf8(bytes)))
        },
    }
}

/// What speaks against reading the token file, if anything.
pub open spec fn file_refusal(info: Option<TokenFileInfo>) -> Option<ConfigError> {
    match info {
        None => Some(ConfigError::TokenFileUnreadable),
        Some(info) => if info.kind != FileKind::Regular {
            Some(ConfigError::InvalidTokenFileKind)
        } else if info.len > TOKEN_MAX_BYTES {
            Some(ConfigError::TokenFileTooLarge)
        } else {
            None
        },
    }
}

/// Where loading stands.
pub enum LoadView {
    Inspect { path: Seq<char>, environment: EnvironmentValues },
    Read { path: Seq<char>, environment: EnvironmentValues },
    Loaded(ConfigView),
    Refused(ConfigError),
}

/// Loading ends with the settings, given the token.
pub open spec fn loaded_with(environment: EnvironmentValues, token: Result<Seq<char>, ConfigError>) -> LoadView {
    match token {
        Err(error) => LoadView::Refused(error),
        Ok(token) => match settings(environment, token) {
            Err(error) => LoadView::Refused(error),
            Ok(config) => LoadView::Loaded(config),
        },
    }
}

/// Where loading stands at first. Exactly one source of the token must be set, and the
/// address of the service must not be.
pub open spec fn load_start(environment: EnvironmentValues, facts: PathFacts) -> LoadView {
    let from_value = environment.token@ !is Missing;
    let from_file = environment.token_file@ !is Missing;
    if from_value == from_file {
        LoadView::Refused(ConfigError::TokenSourceCount)
    } else if environment.base_url@ !is Missing {
        LoadView::Refused(ConfigError::UnsupportedBaseUrl)
    } else if from_value {
        match environment.token@ {
            EnvView::Text(text) => loaded_with(environment, checked_token(text)),
            _ => LoadView::Refused(ConfigError::NonUnicodeValue { name: TOKEN_ENV }),
        }
    } else {
        match environment.token_file@ {
            EnvView::Text(path) => if is_token_path(path, facts) {
                LoadView::Inspect { path, environment }
            } else {
                LoadView::Refused(ConfigError::InvalidTokenFilePath)
            },
            _ => LoadView::Refused(ConfigError::NonUnicodeValue { name: TOKEN_FILE_ENV }),
        }
    }
}

/// The token file that loading waits for.
pub struct TokenFile {
    path: String,
    environment: EnvironmentValues,
}

/// What loading asks for next.
pub enum LoadStep {
    Inspect(TokenFile),
    Read(TokenFile),
    Finished(Result<Config, ConfigError>),
}

impl View for LoadStep {
    type V = LoadView;

    open spec fn view(&self) -> LoadView {
        match self {
            LoadStep::Inspect(file) => LoadView::Inspect {
                path: file.place(),
                environment: file.started_with(),
            },
            LoadStep::Read(file) => LoadView::Read {
                path: file.place(),
                environment: file.started_with(),
            },
            LoadStep::Finished(Ok(config)) => LoadView::Loaded(config@),
            LoadStep::Finished(Err(error)) => LoadView::Refused(*error),
        }
    }
}

fn contains_forbidden_control(value: &str) -> (res: bool)
    ensures
        res == has_forbidden_control(value@),
{
    let chars: Vec<char> = char_vec(value);
    let mut i: usize = 0;
    while i < chars.len()
        invariant
            i <= chars@.len(),
            chars@ == value@,
            forall|k: int|
                0 <= k < i ==> !(#[trigger] value@[k] == '\0' || value@[k] == '\r' || value@[k]
                    == '\n'),
        decreases chars@.len() - i,
    {
        if chars[i] == '\0' || chars[i] == '\r' || chars[i] == '\n' {
            assert(value@[i as int] == chars@[i as int]);
            return true;
        }
        i += 1;
    }
    false
}

/// Accepts a text that can be a token.
pub fn validate_token(token: String) -> (res: Result<String, ConfigError>)
    ensures
        match res {
            Ok(accepted) => checked_token(token@) == Ok::<_, ConfigError>(accepted@),
            Err(error) => checked_token(token@) == Err::<Seq<char>, _>(error),
        },
{
    if token.as_str().is_empty() || token.as_str().as_bytes().len() > TOKEN_MAX_BYTES
        || contains_forbidden_control(token.as_str()) || !same_text(
        token.as_str().trim(),
        token.as_str(),
    ) {
        return Err(ConfigError::InvalidToken);
    }
    Ok(token)
}

fn read_string(value: &EnvValue, name: &'static str, default: &str) -> (res: Result<
    String,
    ConfigError,
>)
    ensures
        match res {
            Ok(text) => set_text(value@, name, default@) == Ok::<_, ConfigError>(text@),
            Err(error) => set_text(value@, name, default@) == Err::<Seq<char>, _>(error),
        },
{
    match value {
        EnvValue::Missing => Ok(default.to_owned()),
        EnvValue::NotUnicode => Err(ConfigError::NonUnicodeValue { name }),
        EnvValue::Text(text) => Ok(text.clone()),
    }
}

fn read_bounded_text(
    value: &EnvValue,
    name: &'static str,
    default: &str,
    minimum_chars: usize,
    maximum_chars: usize,
) -> (res: Result<String, ConfigError>)
    ensures
        ({
            let owed = set_bounded_text(
                value@,
                name,
                default@,
                minimum_chars as nat,
                maximum_chars as nat,
            );
            match res {
                Ok(text) => owed == Ok::<_, ConfigError>(text@),
                Err(error) => owed == Err::<Seq<char>, _>(error),
            }
        }),
{
    let text: String = match read_string(value, name, default) {
        Ok(text) => text,
        Err(error) => {
            return Err(error);
        },
    };
    let length: usize = char_vec(text.as_str()).len();
    if length < minimum_chars || length > maximum_chars || contains_forbidden_control(
        text.as_str(),
    ) {
        return Err(ConfigError::InvalidSetting { name });
    }
    Ok(text)
}

fn read_usize(
    value: &EnvValue,
    name: &'static str,
    default: usize,
    minimum: usize,
    maximum: usize,
) -> (res: Result<usize, ConfigError>)
    ensures
        ({
            let owed = set_number(
                value@,
                name,
                default as nat,
                minimum as nat,
                maximum as nat,
            );
            match res {
                Ok(n) => owed == Ok::<_, ConfigError>(n as nat),
                Err(error) => owed == Err::<nat, _>(error),
            }
        }),
{
    match value {
        EnvValue::Missing => Ok(default),
        EnvValue::NotUnicode => Err(ConfigError::NonUnicodeValue { name }),
        EnvValue::Text(text) => match parse_decimal(text.as_str()) {
            None => Err(ConfigError::InvalidInteger { name }),
            Some(parsed) => if parsed < minimum || parsed > maximum {
                Err(ConfigError::InvalidSetting { name })
            } else {
                Ok(parsed)
            },
        },
    }
}

fn read_mode(value: &EnvValue) -> (res: Result<CallMode, ConfigError>)
    ensures
        res == set_mode(value@),
{
    match read_string(value, TOOL_CALL_MODE_ENV, "direct") {
        Err(error) => Err(error),
        Ok(text) => if same_text(text.as_str(), "direct") {
            Ok(CallMode::Direct)
        } else if same_text(text.as_str(), "standard") {
            Ok(CallMode::Standard)
        } else {
            Err(ConfigError::InvalidSetting { name: TOOL_CALL_MODE_ENV })
        },
    }
}

fn unfit_log(text: &str) -> (res: bool)
    ensures
        res == is_unfit_log(text@),
{
    text.is_empty() || text.as_bytes().len() > 1024 || contains_forbidden_control(text)
}

/// Accepts a text as a log filter, given whether it is one.
pub fn check_log_filter(text: String, is_filter: bool) -> (res: Result<String, ConfigError>)
    ensures
        match res {
            Ok(accepted) => checked_log(text@, is_filter) == Ok::<_, ConfigError>(accepted@),
            Err(error) => checked_log(text@, is_filter) == Err::<Seq<char>, _>(error),
        },
{
    if unfit_log(text.as_str()) {
        return Err(ConfigError::InvalidSetting { name: RUST_LOG_ENV });
    }
    if !is_filter {
        return Err(ConfigError::InvalidLogFilter);
    }
    Ok(text)
}

fn read_log(value: &EnvValue) -> (res: Result<String, ConfigError>)
    ensures
        match res {
            Ok(text) => set_log(value@) == Ok::<_, ConfigError>(text@),
            Err(error) => set_log(value@) == Err::<Seq<char>, _>(error),
        },
{
    match read_string(value, RUST_LOG_ENV, "warn") {
        Err(error) => Err(error),
        Ok(text) => {
            let is_filter: bool = !unfit_log(text.as_str()) && directives_come_apart(text.as_str())
                && log_filter(text.as_str());
            check_log_filter(text, is_filter)
        },
    }
}

/// Some name is that of a device.
pub fn has_reserved_windows_component(names: &Vec<String>) -> (res: bool)
    ensures
        res == has_device(names@),
{
    let mut i: usize = 0;
    while i < names.len()
        invariant
            i <= names@.len(),
            forall|k: int| 0 <= k < i ==> !is_device(device_part((#[trigger] names@[k])@)),
        decreases names@.len() - i,
    {
        if names_device(names[i].as_str()) {
            return true;
        }
        i += 1;
    }
    false
}

fn upper_ascii(c: char) -> (res: char)
    ensures
        res == ascii_upper(c),
{
    if 'a' <= c && c <= 'z' {
        (c as u8 - 32) as char
    } else {
        c
    }
}

proof fn without_tail_is_prefix(name: Seq<char>)
    ensures
        without_tail(name).len() <= name.len(),
        without_tail(name) == name.take(without_tail(name).len() as int),
    decreases name.len(),
{
    if name.len() > 0 && (name.last() == ' ' || name.last() == '.') {
        without_tail_is_prefix(name.drop_last());
        let n = without_tail(name).len() as int;
        assert(name.drop_last().take(n) =~= name.take(n));
    } else {
        assert(name.take(name.len() as int) =~= name);
    }
}

fn names_device(name: &str) -> (res: bool)
    ensures
        res == is_device(device_part(name@)),
{
    let chars: Vec<char> = char_vec(name);
    let mut end: usize = chars.len();
    assert(chars@.take(end as int) =~= name@);
    while end > 0 && (chars[end - 1] == ' ' || chars[end - 1] == '.')
        invariant
            end <= chars@.len(),
            without_tail(name@) == without_tail(chars@.take(end as int)),
        decreases end,
    {
        assert(chars@.take(end as int).drop_last() =~= chars@.take(end - 1));
        end -= 1;
    }
    let ghost body: Seq<char> = chars@.take(end as int);
    assert(without_tail(name@) == body);
    let mut base: String = String::new();
    let mut i: usize = 0;
    proof {
        assert(body.skip(0) =~= body);
        assert(device_part(name@) =~= base@ + before_dot(body.skip(0)).map_values(
            |c: char| ascii_upper(c),
        ));
    }
    while i < end && chars[i] != '.'
        invariant
            i <= end <= chars@.len(),
            body == chars@.take(end as int),
            device_part(name@) == base@ + before_dot(body.skip(i as int)).map_values(
                |c: char| ascii_upper(c),
            ),
        decreases end - i,
    {
        let ghost rest: Seq<char> = body.skip(i as int);
        let ghost before: Seq<char> = base@;
        proof {
            assert(rest[0] == chars@[i as int]);
            assert(rest.drop_first() =~= body.skip(i + 1));
            let tail = before_dot(body.skip(i + 1));
            assert((seq![rest[0]] + tail).map_values(|c: char| ascii_upper(c)) =~= seq![
                ascii_upper(rest[0]),
            ] + tail.map_values(|c: char| ascii_upper(c)));
            assert(before.push(ascii_upper(rest[0])) + tail.map_values(|c: char| ascii_upper(c))
                =~= before + (seq![ascii_upper(rest[0])] + tail.map_values(
                |c: char| ascii_upper(c),
            )));
        }
        base.push(upper_ascii(chars[i]));
        i += 1;
    }
    proof {
        let rest = body.skip(i as int);
        assert(before_dot(rest) =~= Seq::empty());
        assert(base@ + Seq::<char>::empty().map_values(|c: char| ascii_upper(c)) =~= base@);
        assert(device_part(name@) =~= base@);
    }
    if same_text(base.as_str(), "CON") || same_text(base.as_str(), "PRN") || same_text(
        base.as_str(),
        "AUX",
    ) || same_text(base.as_str(), "NUL") {
        return true;
    }
    let letters: Vec<char> = char_vec(base.as_str());
    if letters.len() != 4 {
        return false;
    }
    let stem: String = text_of(&letters, 0, 3);
    assert(stem@ =~= base@.take(3));
    (same_text(stem.as_str(), "COM") || same_text(stem.as_str(), "LPT")) && '1' <= letters[3]
        && letters[3] <= '9'
}

/// Accepts a path that can lead to a local token file.
pub fn validate_token_file_path(raw_path: &str, facts: &PathFacts) -> (res: bool)
    ensures
        res == is_token_path(raw_path@, *facts),
{
    if raw_path.is_empty() || contains_forbidden_control(raw_path) {
        return false;
    }
    let chars: Vec<char> = char_vec(raw_path);
    if chars.len() >= 2 && ((chars[0] == '\\' && chars[1] == '\\') || (chars[0] == '/' && chars[1]
        == '/')) {
        return false;
    }
    facts.absolute && !has_reserved_windows_component(&facts.names)
}

/// Takes the token out of what was read of its file.
pub fn token_from_contents(contents: Option<Vec<u8>>) -> (res: Result<String, ConfigError>)
    ensures
        ({
            let read = match contents {
                Some(bytes) => Some(bytes@),
                None => None,
            };
            match res {
                Ok(token) => token_in(read) == Ok::<_, ConfigError>(token@),
                Err(error) => token_in(read) == Err::<Seq<char>, _>(error),
            }
        }),
{
    let bytes: Vec<u8> = match contents {
        Some(bytes) => bytes,
        None => {
            return Err(ConfigError::TokenFileUnreadable);
        },
    };
    if bytes.len() > TOKEN_MAX_BYTES {
        return Err(ConfigError::TokenFileTooLarge);
    }
    let text: String = match text_from_utf8(bytes) {
        Some(text) => text,
        None => {
            return Err(ConfigError::InvalidToken);
        },
    };
    let chars: Vec<char> = char_vec(text.as_str());
    let n: usize = chars.len();
    let end: usize = if n >= 2 && chars[n - 2] == '\r' && chars[n - 1] == '\n' {
        n - 2
    } else if n >= 1 && chars[n - 1] == '\n' {
        n - 1
    } else {
        n
    };
    let token: String = text_of(&chars, 0, end);
    assert(token@ =~= without_line_ending(text@));
    validate_token(token)
}

/// Judges the token file by what the file system says of it.
pub fn check_token_file(info: Option<TokenFileInfo>) -> (res: Option<ConfigError>)
    ensures
        res == file_refusal(info),
{
    match info {
        None => Some(ConfigError::TokenFileUnreadable),
        Some(info) => if info.kind != FileKind::Regular {
            Some(ConfigError::InvalidTokenFileKind)
        } else if info.len > TOKEN_MAX_BYTES as u64 {
            Some(ConfigError::TokenFileTooLarge)
        } else {
            None
        },
    }
}

fn read_texts(environment: &EnvironmentValues) -> (res: Result<
    (String, String, String, String),
    ConfigError,
>)
    ensures
        match res {
            Ok(texts) => set_texts(*environment) == Ok::<_, ConfigError>(
                (texts.0@, texts.1@, texts.2@, texts.3@),
            ),
            Err(error) => set_texts(*environment) == Err::<
                (Seq<char>, Seq<char>, Seq<char>, Seq<char>),
                _,
            >(error),
        },
{
    let ui_language: String = match read_bounded_text(
        &environment.ui_language,
        UI_LANGUAGE_ENV,
        "russian",
        1,
        64,
    ) {
        Ok(text) => text,
        Err(error) => {
            return Err(error);
        },
    };
    let programming_language: String = match read_bounded_text(
        &environment.programming_language,
        PROGRAMMING_LANGUAGE_ENV,
        "",
        0,
        64,
    ) {
        Ok(text) => text,
        Err(error) => {
            return Err(error);
        },
    };
    let ssl_version: String = match read_bounded_text(
        &environment.default_ssl_version,
        DEFAULT_SSL_VERSION_ENV,
        "",
        0,
        256,
    ) {
        Ok(text) => text,
        Err(error) => {
            return Err(error);
        },
    };
    match read_bounded_text(
        &environment.default_configuration,
        DEFAULT_CONFIGURATION_ENV,
        "",
        0,
        256,
    ) {
        Ok(configuration) => Ok((ui_language, programming_language, ssl_version, configuration)),
        Err(error) => Err(error),
    }
}

fn read_lengths(min: &EnvValue, max: &EnvValue) -> (res: Result<(usize, usize), ConfigError>)
    ensures
        match res {
            Ok(lengths) => set_lengths(min@, max@) == Ok::<_, ConfigError>(
                (lengths.0 as nat, lengths.1 as nat),
            ),
            Err(error) => set_lengths(min@, max@) == Err::<(nat, nat), _>(error),
        },
{
    let least: usize = match read_usize(
        min,
        TOOL_INPUT_MIN_ENV,
        TOOL_INPUT_MIN_DEFAULT,
        1,
        TOOL_INPUT_MAX_HARD,
    ) {
        Ok(n) => n,
        Err(error) => {
            return Err(error);
        },
    };
    let most: usize = match read_usize(
        max,
        TOOL_INPUT_MAX_ENV,
        TOOL_INPUT_MAX_DEFAULT,
        1,
        TOOL_INPUT_MAX_HARD,
    ) {
        Ok(n) => n,
        Err(error) => {
            return Err(error);
        },
    };
    if least > most {
        return Err(ConfigError::InvertedToolInputLimits);
    }
    Ok((least, most))
}

fn load_settings(environment: &EnvironmentValues, token: String) -> (res: Result<
    Config,
    ConfigError,
>)
    ensures
        match res {
            Ok(config) => settings(*environment, token@) == Ok::<_, ConfigError>(config@),
            Err(error) => settings(*environment, token@) == Err::<ConfigView, _>(error),
        },
{
    let lengths: (usize, usize) = match read_lengths(
        &environment.tool_input_min,
        &environment.tool_input_max,
    ) {
        Ok(lengths) => lengths,
        Err(error) => {
            return Err(error);
        },
    };
    let call_mode: CallMode = match read_mode(&environment.tool_call_mode) {
        Ok(mode) => mode,
        Err(error) => {
            return Err(error);
        },
    };
    let texts: (String, String, String, String) = match read_texts(environment) {
        Ok(texts) => texts,
        Err(error) => {
            return Err(error);
        },
    };
    let max_concurrent_calls: usize = match read_usize(
        &environment.max_concurrent_calls,
        MAX_CONCURRENT_CALLS_ENV,
        2,
        1,
        2,
    ) {
        Ok(n) => n,
        Err(error) => {
            return Err(error);
        },
    };
    match read_log(&environment.rust_log) {
        Err(error) => Err(error),
        Ok(rust_log) => Ok(
            Config {
                token,
                tool_input_min_length: lengths.0,
                tool_input_max_length: lengths.1,
                call_mode,
                ui_language: texts.0,
                programming_language: texts.1,
                default_ssl_version: texts.2,
                default_1c_configuration: texts.3,
                max_concurrent_calls,
                rust_log,
            },
        ),
    }
}

fn finish_load(environment: &EnvironmentValues, token: Result<String, ConfigError>) -> (res: LoadStep)
    ensures
        res@ == loaded_with(
            *environment,
            match token {
                Ok(token) => Ok(token@),
                Err(error) => Err(error),
            },
        ),
{
    match token {
        Err(error) => LoadStep::Finished(Err(error)),
        Ok(token) => LoadStep::Finished(load_settings(environment, token)),
    }
}

/// Starts loading the configuration.
pub fn begin_load(environment: EnvironmentValues, facts: &PathFacts) -> (res: LoadStep)
    ensures
        res@ == load_start(environment, *facts),
{
    let from_value: bool = !matches!(environment.token, EnvValue::Missing);
    let from_file: bool = !matches!(environment.token_file, EnvValue::Missing);
    if from_value == from_file {
        return LoadStep::Finished(Err(ConfigError::TokenSourceCount));
    }
    match &environment.base_url {
        EnvValue::Missing => {},
        _ => {
            return LoadStep::Finished(Err(ConfigError::UnsupportedBaseUrl));
        },
    }
    if from_value {
        let token: String = match &environment.token {
            EnvValue::Text(text) => text.clone(),
            _ => {
                return LoadStep::Finished(Err(ConfigError::NonUnicodeValue { name: TOKEN_ENV }));
            },
        };
        return finish_load(&environment, validate_token(token));
    }
    let path: String = match &environment.token_file {
        EnvValue::Text(path) => path.clone(),
        _ => {
            return LoadStep::Finished(Err(ConfigError::NonUnicodeValue { name: TOKEN_FILE_ENV }));
        },
    };
    if !validate_token_file_path(path.as_str(), facts) {
        return LoadStep::Finished(Err(ConfigError::InvalidTokenFilePath));
    }
    LoadStep::Inspect(TokenFile { path, environment })
}

impl TokenFile {
    /// Where the file is.
    pub closed spec fn place(self) -> Seq<char> {
        self.path@
    }

    /// The environment that loading started with.
    pub closed spec fn started_with(self) -> EnvironmentValues {
        self.environment
    }

    /// Where the file is.
    pub fn path(&self) -> (res: &str)
        ensures
            res@ == self.place(),
    {
        self.path.as_str()
    }

    /// Goes on by what the file system says of the file; `None` where it says nothing.
    pub fn inspected(self, info: Option<TokenFileInfo>) -> (res: LoadStep)
        ensures
            res@ == (match file_refusal(info) {
                Some(error) => LoadView::Refused(error),
                None => LoadView::Read {
                    path: self.place(),
                    environment: self.started_with(),
                },
            }),
    {
        match check_token_file(info) {
            Some(error) => LoadStep::Finished(Err(error)),
            None => LoadStep::Read(self),
        }
    }

    /// Goes on by what was read of the file, at most one byte over the limit of a token;
    /// `None` where it could not be read.
    pub fn read(self, contents: Option<Vec<u8>>) -> (res: LoadStep)
        ensures
            res@ == loaded_with(
                self.started_with(),
                token_in(
                    match contents {
                        Some(bytes) => Some(bytes@),
                        None => None,
                    },
                ),
            ),
    {
        finish_load(&self.environment, token_from_contents(contents))
    }
}

/// How the call mode is shown.
pub open spec fn mode_name(mode: CallMode) -> Seq<char> {
    match mode {
        CallMode::Direct => "Direct"@,
        CallMode::Standard => "Standard"@,
    }
}

/// How the settings are shown. The token is not.
pub open spec fn shown_config(config: ConfigView) -> Seq<char> {
    "Config { token: \"[REDACTED]\", tool_input_min_length: "@ + decimal(config.min_length)
        + ", tool_input_max_length: "@ + decimal(config.max_length) + ", call_mode: "@ + mode_name(
        config.mode,
    ) + ", ui_language: "@ + quoted_text(config.ui_language) + ", programming_language: "@
        + quoted_text(config.programming_language) + ", default_ssl_version: "@ + quoted_text(
        config.ssl_version,
    ) + ", default_1c_configuration: "@ + quoted_text(config.configuration)
        + ", max_concurrent_calls: "@ + decimal(config.concurrent) + ", rust_log: "@ + quoted_text(
        config.log,
    ) + " }"@
}

/// Nothing that is shown depends on the token.
pub proof fn the_token_is_never_shown(config: ConfigView, token: Seq<char>)
    ensures
        shown_config(config) == shown_config(ConfigView { token, ..config }),
{
}

/// The settings that loading accepts keep their bounds.
pub proof fn accepted_settings_keep_bounds(environment: EnvironmentValues, token: Seq<char>)
    ensures
        settings(environment, token) matches Ok(config) ==> {
            &&& config.token == token
            &&& 1 <= config.min_length <= config.max_length <= TOOL_INPUT_MAX_HARD
            &&& 1 <= config.concurrent <= 2
            &&& 1 <= config.ui_language.len() <= 64
            &&& config.programming_language.len() <= 64
            &&& config.ssl_version.len() <= 256
            &&& config.configuration.len() <= 256
            &&& !has_forbidden_control(config.ui_language)
            &&& !has_forbidden_control(config.programming_language)
            &&& !has_forbidden_control(config.ssl_version)
            &&& !has_forbidden_control(config.configuration)
            &&& config.log.len() > 0
            &&& encode_utf8(config.log).len() <= 1024
            &&& !has_forbidden_control(config.log)
            &&& is_log_filter(config.log)
        },
{
}

/// Whatever the environment, the file and its content are, only a valid token is loaded.
pub proof fn only_tokens_are_loaded(environment: EnvironmentValues, facts: PathFacts, contents: Option<Seq<u8>>)
    ensures
        load_start(environment, facts) matches LoadView::Loaded(config) ==> is_token(config.token),
        loaded_with(environment, token_in(contents)) matches LoadView::Loaded(config) ==> is_token(
            config.token,
        ),
{
}

impl Config {
    pub fn token(&self) -> (res: &str)
        ensures
            res@ == self@.token,
    {
        self.token.as_str()
    }

    pub fn tool_input_min_length(&self) -> (res: usize)
        ensures
            res == self@.min_length,
    {
        self.tool_input_min_length
    }

    pub fn tool_input_max_length(&self) -> (res: usize)
        ensures
            res == self@.max_length,
    {
        self.tool_input_max_length
    }

    pub fn call_mode(&self) -> (res: CallMode)
        ensures
            res == self@.mode,
    {
        self.call_mode
    }

    pub fn ui_language(&self) -> (res: &str)
        ensures
            res@ == self@.ui_language,
    {
        self.ui_language.as_str()
    }

    pub fn programming_language(&self) -> (res: &str)
        ensures
            res@ == self@.programming_language,
    {
        self.programming_language.as_str()
    }

    pub fn default_ssl_version(&self) -> (res: &str)
        ensures
            res@ == self@.ssl_version,
    {
        self.default_ssl_version.as_str()
    }

    pub fn default_1c_configuration(&self) -> (res: &str)
        ensures
            res@ == self@.configuration,
    {
        self.default_1c_configuration.as_str()
    }

    pub fn max_concurrent_calls(&self) -> (res: usize)
        ensures
            res == self@.concurrent,
    {
        self.max_concurrent_calls
    }

    pub fn rust_log(&self) -> (res: &str)
        ensures
            res@ == self@.log,
    {
        self.rust_log.as_str()
    }

    /// The settings as they may be shown: without the token.
    pub fn redacted(&self) -> (res: String)
        ensures
            res@ == shown_config(self@),
    {
        let mut text: String =
            "Config { token: \"[REDACTED]\", tool_input_min_length: ".to_owned();
        text.append(decimal_text(self.tool_input_min_length as u64).as_str());
        text.append(", tool_input_max_length: ");
        text.append(decimal_text(self.tool_input_max_length as u64).as_str());
        text.append(", call_mode: ");
        match self.call_mode {
            CallMode::Direct => text.append("Direct"),
            CallMode::Standard => text.append("Standard"),
        }
        text.append(", ui_language: ");
        text.append(quote_text(self.ui_language.as_str()).as_str());
        text.append(", programming_language: ");
        text.append(quote_text(self.programming_language.as_str()).as_str());
        text.append(", default_ssl_version: ");
        text.append(quote_text(self.default_ssl_version.as_str()).as_str());
        text.append(", default_1c_configuration: ");
        text.append(quote_text(self.default_1c_configuration.as_str()).as_str());
        text.append(", max_concurrent_calls: ");
        text.append(decimal_text(self.max_concurrent_calls as u64).as_str());
        text.append(", rust_log: ");
        text.append(quote_text(self.rust_log.as_str()).as_str());
        text.append(" }");
        text
    }
}

/// A token is one line without white space at its ends, of at most 8192 bytes, and is
/// taken as it is.
pub proof fn tokens_are_clean_lines(text: Seq<char>)
    ensures
        ({
            let clean = text.len() > 0 && encode_utf8(text).len() <= 8192 && !is_white_space(
                text.first(),
            ) && !is_white_space(text.last()) && (forall|i: int|
                0 <= i < text.len() ==> #[trigger] text[i] != '\0' && text[i] != '\r' && text[i]
                    != '\n');
            checked_token(text) == (if clean {
                Ok(text)
            } else {
                Err::<Seq<char>, ConfigError>(ConfigError::InvalidToken)
            })
        }),
{
    crate::strings::only_white_space_is_trimmed(text);
    if text.len() > 0 && !is_white_space(text.first()) && !is_white_space(text.last()) {
        crate::strings::plain_ends_stay(text);
    }
}

/// A token is read from its file whether or not a line ending follows it.
pub proof fn a_line_ending_may_follow_the_token(token: Seq<char>, ending: Seq<char>)
    requires
        is_token(token),
        ending == Seq::<char>::empty() || ending == seq!['\n'] || ending == seq!['\r', '\n'],
        encode_utf8(token + ending).len() <= 8192,
    ensures
        token_in(Some(encode_utf8(token + ending))) == Ok::<Seq<char>, ConfigError>(token),
{
    let text = token + ending;
    vstd::utf8::encode_utf8_valid_utf8(text);
    vstd::utf8::encode_utf8_decode_utf8(text);
    assert(token[token.len() - 1] != '\n' && token[token.len() - 1] != '\r');
    if ending.len() == 0 {
        assert(text =~= token);
    } else if ending.len() == 1 {
        assert(text.last() == '\n');
        assert(text[text.len() - 2] == token[token.len() - 1]);
        assert(text.take(text.len() - 1) =~= token);
    } else {
        assert(text[text.len() - 2] == '\r' && text.last() == '\n');
        assert(text.take(text.len() - 2) =~= token);
    }
}

/// Nothing but a token with at most a line ending is taken from a file.
pub proof fn only_tokens_are_read(contents: Option<Seq<u8>>)
    ensures
        token_in(contents) matches Ok(token) ==> {
            &&& is_token(token)
            &&& contents matches Some(bytes) && bytes.len() <= 8192 && (bytes == encode_utf8(token)
                || bytes == encode_utf8(token.push('\n')) || bytes == encode_utf8(
                token.push('\r').push('\n'),
            ))
        },
        contents is None ==> token_in(contents) == Err::<Seq<char>, ConfigError>(
            ConfigError::TokenFileUnreadable,
        ),
        contents matches Some(bytes) && bytes.len() > 8192 ==> token_in(contents) == Err::<
            Seq<char>,
            ConfigError,
        >(ConfigError::TokenFileTooLarge),
{
    if let Ok(token) = token_in(contents) {
        let bytes = contents->0;
        let text = decode_utf8(bytes);
        vstd::utf8::decode_utf8_encode_utf8(bytes);
        if token.len() + 2 == text.len() {
            assert(text =~= token.push('\r').push('\n'));
        } else if token.len() + 1 == text.len() {
            assert(text =~= token.push('\n'));
        }
    }
}

/// The value that a setting comes to: its default where it is not set.
pub open spec fn is_set_to(value: EnvView, text: Seq<char>, default: Seq<char>) -> bool {
    match value {
        EnvView::Missing => text == default,
        EnvView::NotUnicode => false,
        EnvView::Text(given) => text == given,
    }
}

/// Every setting is as the environment says, or has its default.
pub proof fn settings_are_as_set(environment: EnvironmentValues, token: Seq<char>)
    ensures
        settings(environment, token) matches Ok(config) ==> {
            &&& config.token == token
            &&& is_set_to(environment.ui_language@, config.ui_language, "russian"@)
            &&& is_set_to(environment.programming_language@, config.programming_language, ""@)
            &&& is_set_to(environment.default_ssl_version@, config.ssl_version, ""@)
            &&& is_set_to(environment.default_configuration@, config.configuration, ""@)
            &&& is_set_to(environment.rust_log@, config.log, "warn"@)
            &&& match environment.tool_input_min@ {
                EnvView::Missing => config.min_length == 4,
                EnvView::NotUnicode => false,
                EnvView::Text(text) => decimal_number(text) == Some(config.min_length),
            }
            &&& match environment.tool_input_max@ {
                EnvView::Missing => config.max_length == 100000,
                EnvView::NotUnicode => false,
                EnvView::Text(text) => decimal_number(text) == Some(config.max_length),
            }
            &&& match environment.max_concurrent_calls@ {
                EnvView::Missing => config.concurrent == 2,
                EnvView::NotUnicode => false,
                EnvView::Text(text) => decimal_number(text) == Some(config.concurrent),
            }
            &&& match config.mode {
                CallMode::Direct => is_set_to(environment.tool_call_mode@, "direct"@, "direct"@),
                CallMode::Standard => environment.tool_call_mode@ == EnvView::Text("standard"@),
            }
        },
{
}

/// A text that a setting of at most so many characters can have.
pub open spec fn is_plain_within(value: EnvView, min: nat, max: nat) -> bool {
    value is Missing || (value matches EnvView::Text(text) && min <= text.len() <= max && (forall|
        i: int,
    |
        0 <= i < text.len() ==> #[trigger] text[i] != '\0' && text[i] != '\r' && text[i] != '\n'))
}

/// A number between these bounds that is written out, or nothing.
pub open spec fn is_number_within(value: EnvView, n: nat, default: nat, min: nat, max: nat) -> bool {
    (value is Missing && n == default) || (value == EnvView::Text(decimal(n)) && min <= n <= max)
}

/// Settings that are all within their bounds are accepted, with the numbers as they are
/// written.
pub proof fn settings_within_bounds_are_accepted(
    environment: EnvironmentValues,
    token: Seq<char>,
    least: nat,
    most: nat,
    concurrent: nat,
)
    requires
        is_number_within(environment.tool_input_min@, least, 4, 1, 100000),
        is_number_within(environment.tool_input_max@, most, 100000, 1, 100000),
        least <= most,
        is_number_within(environment.max_concurrent_calls@, concurrent, 2, 1, 2),
        is_plain_within(environment.ui_language@, 1, 64),
        is_plain_within(environment.programming_language@, 0, 64),
        is_plain_within(environment.default_ssl_version@, 0, 256),
        is_plain_within(environment.default_configuration@, 0, 256),
        environment.tool_call_mode@ is Missing || environment.tool_call_mode@ == EnvView::Text(
            "direct"@,
        ) || environment.tool_call_mode@ == EnvView::Text("standard"@),
        set_log(environment.rust_log@) is Ok,
    ensures
        settings(environment, token) matches Ok(config) && config.min_length == least
            && config.max_length == most && config.concurrent == concurrent,
{
    crate::strings::written_numbers_are_read_back(least);
    crate::strings::written_numbers_are_read_back(most);
    crate::strings::written_numbers_are_read_back(concurrent);
    reveal_strlit("russian");
    reveal_strlit("");
    reveal_strlit("direct");
    reveal_strlit("standard");
}

/// A log filter that is set is taken where it is not empty, within 1024 bytes, on one line
/// and a filter; what is too long or broken is told apart from what is no filter.
pub proof fn log_filters_are_taken(text: Seq<char>)
    requires
        forall|i: int|
            0 <= i < text.len() ==> #[trigger] text[i] != '\0' && text[i] != '\r' && text[i] != '\n',
        0 < text.len(),
        encode_utf8(text).len() <= 1024,
    ensures
        set_log(EnvView::Text(text)) == (if all_come_apart(text) && is_log_filter(text) {
            Ok::<Seq<char>, ConfigError>(text)
        } else {
            Err::<Seq<char>, ConfigError>(ConfigError::InvalidLogFilter)
        }),
{
}

/// Settings that are out of bounds are refused by their name.
pub proof fn unfit_numbers_are_refused(value: EnvView, name: &'static str, default: nat, min: nat, max: nat, n: nat)
    requires
        n <= usize::MAX,
        n < min || max < n,
    ensures
        set_number(EnvView::Text(decimal(n)), name, default, min, max) == Err::<nat, ConfigError>(
            ConfigError::InvalidSetting { name },
        ),
        set_number(EnvView::NotUnicode, name, default, min, max) == Err::<nat, ConfigError>(
            ConfigError::NonUnicodeValue { name },
        ),
        value matches EnvView::Text(text) && decimal_number(text) is None ==> set_number(
            value,
            name,
            default,
            min,
            max,
        ) == Err::<nat, ConfigError>(ConfigError::InvalidInteger { name }),
{
    crate::strings::written_numbers_are_read_back(n);
}

/// A token is taken from exactly one place, and only where no address is set: from its
/// variable, as it is, or from the file that is named.
pub proof fn one_source_is_needed(environment: EnvironmentValues, facts: PathFacts)
    ensures
        ({
            let start = load_start(environment, facts);
            &&& environment.token@ is Missing && environment.token_file@ is Missing ==> start
                == LoadView::Refused(ConfigError::TokenSourceCount)
            &&& !(environment.token@ is Missing) && !(environment.token_file@ is Missing) ==> start
                == LoadView::Refused(ConfigError::TokenSourceCount)
            &&& !(environment.base_url@ is Missing) ==> start is Refused
            &&& start matches LoadView::Loaded(config) ==> environment.token@ == EnvView::Text(
                config.token,
            ) && environment.token_file@ is Missing && environment.base_url@ is Missing
                && settings(environment, config.token) == Ok::<ConfigView, ConfigError>(config)
            &&& start matches LoadView::Inspect { path, environment: kept } ==> kept == environment
                && environment.token_file@ == EnvView::Text(path) && environment.token@ is Missing
                && environment.base_url@ is Missing
            &&& !(start is Read)
        }),
{
}

/// One source with a valid token, or a path that can be one of a local file, is followed.
pub proof fn a_valid_source_is_followed(
    environment: EnvironmentValues,
    facts: PathFacts,
    given: Seq<char>,
)
    requires
        environment.base_url@ is Missing,
    ensures
        environment.token@ == EnvView::Text(given) && environment.token_file@ is Missing && is_token(
            given,
        ) && settings(environment, given) is Ok ==> load_start(environment, facts)
            == LoadView::Loaded(settings(environment, given)->Ok_0),
        environment.token_file@ == EnvView::Text(given) && environment.token@ is Missing
            && is_token_path(given, facts) ==> load_start(environment, facts) == (
        LoadView::Inspect { path: given, environment }),
        environment.token_file@ == EnvView::Text(given) && environment.token@ is Missing
            && !is_token_path(given, facts) ==> load_start(environment, facts) == LoadView::Refused(
            ConfigError::InvalidTokenFilePath,
        ),
{
}

/// A path of the network, one that is not absolute, or one with a control character in it
/// is not followed; any other is, unless it names a device.
pub proof fn local_paths_are_followed(path: Seq<char>, facts: PathFacts)
    ensures
        is_token_path(path, facts) ==> facts.absolute && path.len() > 0 && !has_device(facts.names@),
        path.len() >= 2 && path[0] == path[1] && (path[0] == '/' || path[0] == '\\')
            ==> !is_token_path(path, facts),
        is_token_path(path, facts) ==> (forall|i: int|
            0 <= i < path.len() ==> #[trigger] path[i] != '\0' && path[i] != '\r' && path[i] != '\n'),
        facts.absolute && path.len() > 0 && !has_device(facts.names@) && !(path.len() >= 2
            && path[0] == path[1] && (path[0] == '/' || path[0] == '\\')) && (forall|i: int|
            0 <= i < path.len() ==> #[trigger] path[i] != '\0' && path[i] != '\r' && path[i] != '\n')
            ==> is_token_path(path, facts),
{
}

/// A token file is opened exactly where it is a regular file of at most 8192 bytes.
pub proof fn small_regular_files_are_opened(info: Option<TokenFileInfo>)
    ensures
        file_refusal(info) is None <==> (info matches Some(file) && file.kind == FileKind::Regular
            && file.len <= 8192),
        info is None ==> file_refusal(info) == Some(ConfigError::TokenFileUnreadable),
        info matches Some(file) && file.kind != FileKind::Regular ==> file_refusal(info) == Some(
            ConfigError::InvalidTokenFileKind,
        ),
        info matches Some(file) && file.kind == FileKind::Regular && file.len > 8192
            ==> file_refusal(info) == Some(ConfigError::TokenFileTooLarge),
{
}

proof fn undotted_names_stay(base: Seq<char>, rest: Seq<char>)
    requires
        forall|i: int| 0 <= i < base.len() ==> #[trigger] base[i] != '.',
        rest.len() > 0 ==> rest[0] == '.',
    ensures
        before_dot(base + rest) == base,
    decreases base.len(),
{
    let name = base + rest;
    if base.len() == 0 {
        assert(name =~= rest);
        assert(before_dot(name) =~= base);
    } else {
        assert(base[0] != '.');
        let less = base.drop_first();
        assert forall|i: int| 0 <= i < less.len() implies #[trigger] less[i] != '.' by {
            assert(base[i + 1] != '.');
        }
        undotted_names_stay(less, rest);
        assert(name.drop_first() =~= less + rest);
        assert(name[0] == base[0]);
        assert(seq![base[0]] + less =~= base);
    }
}

/// A name is that of a device whatever dots and spaces follow it.
pub proof fn tails_hide_no_device(name: Seq<char>)
    ensures
        device_part(name.push('.')) == device_part(name),
        device_part(name.push(' ')) == device_part(name),
{
    assert(name.push('.').drop_last() =~= name);
    assert(name.push(' ').drop_last() =~= name);
}

/// A name is that of a device whatever extension it has.
pub proof fn extensions_hide_no_device(base: Seq<char>, extension: Seq<char>)
    requires
        forall|i: int| 0 <= i < base.len() ==> #[trigger] base[i] != '.',
        base.len() > 0 ==> base.last() != ' ',
        extension.len() > 0 ==> extension.last() != '.' && extension.last() != ' ',
    ensures
        device_part(base) == base.map_values(|c: char| ascii_upper(c)),
        device_part(base + seq!['.'] + extension) == base.map_values(|c: char| ascii_upper(c)),
{
    assert(base.len() > 0 ==> base[base.len() - 1] != '.');
    assert(without_tail(base) == base);
    undotted_names_stay(base, Seq::empty());
    assert(base + Seq::<char>::empty() =~= base);
    let name = base + seq!['.'] + extension;
    if extension.len() > 0 {
        assert(name.last() == extension.last());
        assert(without_tail(name) == name);
        assert(name =~= base + (seq!['.'] + extension));
        undotted_names_stay(base, seq!['.'] + extension);
    } else {
        assert(name =~= base.push('.'));
        tails_hide_no_device(base);
    }
}

/// A name is that of a device in upper and in lower case.
pub proof fn case_hides_no_device(c: char)
    ensures
        'a' <= c <= 'z' ==> ascii_upper(c) as u32 + 32 == c as u32 && 'A' <= ascii_upper(c) <= 'Z',
        !('a' <= c <= 'z') ==> ascii_upper(c) == c,
        ascii_upper(ascii_upper(c)) == ascii_upper(c),
{
}

/// The four plain devices and the nine numbered ports of either kind are devices, and
/// nothing else is.
pub proof fn devices_have_these_names(base: Seq<char>, digit: char)
    ensures
        is_device(seq!['C', 'O', 'N']),
        is_device(seq!['P', 'R', 'N']),
        is_device(seq!['A', 'U', 'X']),
        is_device(seq!['N', 'U', 'L']),
        is_device(seq!['C', 'O', 'M', digit]) <==> '1' <= digit <= '9',
        is_device(seq!['L', 'P', 'T', digit]) <==> '1' <= digit <= '9',
        is_device(base) && base.len() == 3 ==> base == seq!['C', 'O', 'N'] || base == seq![
            'P',
            'R',
            'N',
        ] || base == seq!['A', 'U', 'X'] || base == seq!['N', 'U', 'L'],
        is_device(base) && base.len() != 3 ==> base == seq!['C', 'O', 'M', base[3]] || base == seq![
            'L',
            'P',
            'T',
            base[3],
        ],
{
    reveal_strlit("CON");
    reveal_strlit("PRN");
    reveal_strlit("AUX");
    reveal_strlit("NUL");
    reveal_strlit("COM");
    reveal_strlit("LPT");
    assert("CON"@ =~= seq!['C', 'O', 'N']);
    assert("PRN"@ =~= seq!['P', 'R', 'N']);
    assert("AUX"@ =~= seq!['A', 'U', 'X']);
    assert("NUL"@ =~= seq!['N', 'U', 'L']);
    let com = seq!['C', 'O', 'M', digit];
    let lpt = seq!['L', 'P', 'T', digit];
    assert(com.take(3) =~= "COM"@);
    assert(lpt.take(3) =~= "LPT"@);
    if base.len() == 4 {
        assert(base =~= base.take(3) + seq![base[3]]);
        assert("COM"@ + seq![base[3]] =~= seq!['C', 'O', 'M', base[3]]);
        assert("LPT"@ + seq![base[3]] =~= seq!['L', 'P', 'T', base[3]]);
    }
}


/// Each of these parts occurs in the text.
pub open spec fn all_occur(parts: Seq<Seq<char>>, whole: Seq<char>) -> bool {
    forall|i: int| 0 <= i < parts.len() ==> occurs_in(#[trigger] parts[i], whole)
}

proof fn one_more_occurs(parts: Seq<Seq<char>>, whole: Seq<char>, name: Seq<char>, value: Seq<char>)
    requires
        all_occur(parts, whole),
    ensures
        all_occur(parts.push(name + value), whole + name + value),
{
    let more = parts.push(name + value);
    assert(whole + name + value =~= whole + (name + value));
    assert forall|i: int| 0 <= i < more.len() implies occurs_in(
        #[trigger] more[i],
        whole + (name + value),
    ) by {
        if i < parts.len() {
            assert(more[i] == parts[i]);
            crate::strings::longer_texts_hold_it_too(parts[i], whole, name + value);
        } else {
            crate::strings::the_end_occurs(whole, name + value);
        }
    }
}

/// Every setting but the token is shown under its name.
pub proof fn settings_are_shown(config: ConfigView)
    ensures
        all_occur(
            seq![
                "Config { token: \"[REDACTED]\", tool_input_min_length: "@ + decimal(
                    config.min_length,
                ),
                ", tool_input_max_length: "@ + decimal(config.max_length),
                ", call_mode: "@ + mode_name(config.mode),
                ", ui_language: "@ + quoted_text(config.ui_language),
                ", programming_language: "@ + quoted_text(config.programming_language),
                ", default_ssl_version: "@ + quoted_text(config.ssl_version),
                ", default_1c_configuration: "@ + quoted_text(config.configuration),
                ", max_concurrent_calls: "@ + decimal(config.concurrent),
                ", rust_log: "@ + quoted_text(config.log),
            ],
            shown_config(config),
        ),
{
    let parts0 = Seq::<Seq<char>>::empty();
    let name1 = "Config { token: \"[REDACTED]\", tool_input_min_length: "@;
    one_more_occurs(parts0, Seq::empty(), name1, decimal(config.min_length));
    let parts1 = parts0.push(name1 + decimal(config.min_length));
    let whole1 = name1 + decimal(config.min_length);
    assert(Seq::<char>::empty() + name1 + decimal(config.min_length) =~= whole1);
    one_more_occurs(parts1, whole1, ", tool_input_max_length: "@, decimal(config.max_length));
    let parts2 = parts1.push(", tool_input_max_length: "@ + decimal(config.max_length));
    let whole2 = whole1 + ", tool_input_max_length: "@ + decimal(config.max_length);
    one_more_occurs(parts2, whole2, ", call_mode: "@, mode_name(config.mode));
    let parts3 = parts2.push(", call_mode: "@ + mode_name(config.mode));
    let whole3 = whole2 + ", call_mode: "@ + mode_name(config.mode);
    one_more_occurs(parts3, whole3, ", ui_language: "@, quoted_text(config.ui_language));
    let parts4 = parts3.push(", ui_language: "@ + quoted_text(config.ui_language));
    let whole4 = whole3 + ", ui_language: "@ + quoted_text(config.ui_language);
    let language = quoted_text(config.programming_language);
    one_more_occurs(parts4, whole4, ", programming_language: "@, language);
    let parts5 = parts4.push(", programming_language: "@ + language);
    let whole5 = whole4 + ", programming_language: "@ + language;
    one_more_occurs(parts5, whole5, ", default_ssl_version: "@, quoted_text(config.ssl_version));
    let parts6 = parts5.push(", default_ssl_version: "@ + quoted_text(config.ssl_version));
    let whole6 = whole5 + ", default_ssl_version: "@ + quoted_text(config.ssl_version);
    let configuration = quoted_text(config.configuration);
    one_more_occurs(parts6, whole6, ", default_1c_configuration: "@, configuration);
    let parts7 = parts6.push(", default_1c_configuration: "@ + configuration);
    let whole7 = whole6 + ", default_1c_configuration: "@ + configuration;
    one_more_occurs(parts7, whole7, ", max_concurrent_calls: "@, decimal(config.concurrent));
    let parts8 = parts7.push(", max_concurrent_calls: "@ + decimal(config.concurrent));
    let whole8 = whole7 + ", max_concurrent_calls: "@ + decimal(config.concurrent);
    one_more_occurs(parts8, whole8, ", rust_log: "@, quoted_text(config.log));
    let parts9 = parts8.push(", rust_log: "@ + quoted_text(config.log));
    let whole9 = whole8 + ", rust_log: "@ + quoted_text(config.log);
    one_more_occurs(parts9, whole9, " }"@, Seq::empty());
    let parts10 = parts9.push(" }"@ + Seq::<char>::empty());
    assert(whole9 + " }"@ + Seq::<char>::empty() =~= shown_config(config));
    assert(all_occur(parts9, shown_config(config))) by {
        assert forall|i: int| 0 <= i < parts9.len() implies occurs_in(
            #[trigger] parts9[i],
            shown_config(config),
        ) by {
            assert(parts10[i] == parts9[i]);
        }
    }
    assert(parts9 =~= seq![
        name1 + decimal(config.min_length),
        ", tool_input_max_length: "@ + decimal(config.max_length),
        ", call_mode: "@ + mode_name(config.mode),
        ", ui_language: "@ + quoted_text(config.ui_language),
        ", programming_language: "@ + language,
        ", default_ssl_version: "@ + quoted_text(config.ssl_version),
        ", default_1c_configuration: "@ + configuration,
        ", max_concurrent_calls: "@ + decimal(config.concurrent),
        ", rust_log: "@ + quoted_text(config.log),
    ]);
}

} // verus!
