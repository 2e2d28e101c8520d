use std::cell::Cell;
use std::collections::BTreeMap;
use std::path::Path;

use onec_buddy_mcp::config::{
    begin_load, has_reserved_windows_component, CallMode, Config, EnvValue, EnvironmentValues,
    FileKind, LoadStep, PathFacts, TokenFileInfo,
};
use onec_buddy_mcp::error::ConfigError;
use onec_buddy_mcp::limits::{TOKEN_MAX_BYTES, TOOL_INPUT_MAX_HARD};
use onec_buddy_mcp::strings::parse_decimal;

#[derive(Default)]
struct FakeEnvironment {
    values: BTreeMap<&'static str, String>,
}

impl FakeEnvironment {
    fn with(mut self, name: &'static str, value: impl Into<String>) -> Self {
        self.values.insert(name, value.into());
        self
    }

    fn get(&self, name: &'static str) -> EnvValue {
        match self.values.get(name).cloned() {
            None => EnvValue::Missing,
            Some(text) => EnvValue::Text(text),
        }
    }

    fn read(&self) -> EnvironmentValues {
        EnvironmentValues {
            token: self.get("ONEC_AI_TOKEN"),
            token_file: self.get("ONEC_AI_TOKEN_FILE"),
            base_url: self.get("ONEC_AI_BASE_URL"),
            tool_input_min: self.get("MCP_TOOL_INPUT_MIN_LENGTH"),
            tool_input_max: self.get("MCP_TOOL_INPUT_MAX_LENGTH"),
            tool_call_mode: self.get("MCP_TOOL_CALL_MODE"),
            ui_language: self.get("ONEC_AI_UI_LANGUAGE"),
            programming_language: self.get("ONEC_AI_PROGRAMMING_LANGUAGE"),
            default_ssl_version: self.get("DEFAULT_SSL_VERSION"),
            default_configuration: self.get("DEFAULT_1C_CONFIGURATION"),
            max_concurrent_calls: self.get("MCP_MAX_CONCURRENT_CALLS"),
            rust_log: self.get("RUST_LOG"),
        }
    }
}

struct FakeFileSystem {
    info: Option<TokenFileInfo>,
    contents: Option<Vec<u8>>,
    inspections: Cell<usize>,
    reads: Cell<usize>,
}

impl FakeFileSystem {
    fn regular(contents: impl Into<Vec<u8>>) -> Self {
        let contents = contents.into();
        Self {
            info: Some(TokenFileInfo {
                kind: FileKind::Regular,
                len: contents.len() as u64,
            }),
            contents: Some(contents),
            inspections: Cell::new(0),
            reads: Cell::new(0),
        }
    }

    fn kind(kind: FileKind) -> Self {
        Self {
            info: Some(TokenFileInfo { kind, len: 0 }),
            contents: Some(Vec::new()),
            inspections: Cell::new(0),
            reads: Cell::new(0),
        }
    }
}

fn load_with(
    environment: &FakeEnvironment,
    file_system: &FakeFileSystem,
) -> Result<Config, ConfigError> {
    let values = environment.read();
    let absolute = match &values.token_file {
        EnvValue::Text(path) => Path::new(path).is_absolute(),
        _ => false,
    };
    let facts = PathFacts {
        absolute,
        names: Vec::new(),
    };
    let mut step = begin_load(values, &facts);
    loop {
        step = match step {
            LoadStep::Finished(result) => return result,
            LoadStep::Inspect(file) => {
                file_system
                    .inspections
                    .set(file_system.inspections.get() + 1);
                assert_eq!(file.path(), "/tokens/onec-ai.txt");
                file.inspected(file_system.info)
            }
            LoadStep::Read(file) => {
                file_system.reads.set(file_system.reads.get() + 1);
                file.read(file_system.contents.clone())
            }
        };
    }
}

fn refused(environment: &FakeEnvironment, file_system: &FakeFileSystem) -> ConfigError {
    match load_with(environment, file_system) {
        Ok(_) => panic!("the configuration must be refused"),
        Err(error) => error,
    }
}

fn accepted(environment: &FakeEnvironment, file_system: &FakeFileSystem) -> Config {
    match load_with(environment, file_system) {
        Ok(config) => config,
        Err(error) => panic!("the configuration must be accepted: {error:?}"),
    }
}

fn valid_token_environment() -> FakeEnvironment {
    FakeEnvironment::default().with("ONEC_AI_TOKEN", "test-token")
}

fn valid_token_path() -> &'static str {
    "/tokens/onec-ai.txt"
}

fn file_environment() -> FakeEnvironment {
    FakeEnvironment::default().with("ONEC_AI_TOKEN_FILE", valid_token_path())
}

#[test]
fn environment_token_and_defaults_are_loaded() {
    let file_system = FakeFileSystem::regular(Vec::new());
    let config = accepted(&valid_token_environment(), &file_system);

    assert_eq!(config.token(), "test-token");
    assert_eq!(config.tool_input_min_length(), 4);
    assert_eq!(config.tool_input_max_length(), 100_000);
    assert_eq!(config.call_mode(), CallMode::Direct);
    assert_eq!(config.ui_language(), "russian");
    assert_eq!(config.programming_language(), "");
    assert_eq!(config.default_ssl_version(), "");
    assert_eq!(config.default_1c_configuration(), "");
    assert_eq!(config.max_concurrent_calls(), 2);
    assert_eq!(config.rust_log(), "warn");
    assert_eq!(file_system.inspections.get(), 0);
    assert_eq!(file_system.reads.get(), 0);
}

#[test]
fn config_debug_output_redacts_the_token() {
    let secret = "DO_NOT_LEAK_TOKEN";
    let environment = FakeEnvironment::default().with("ONEC_AI_TOKEN", secret);
    let config = accepted(&environment, &FakeFileSystem::regular(Vec::new()));

    let rendered = config.redacted();
    assert!(rendered.contains("[REDACTED]"));
    assert!(!rendered.contains(secret));
    assert_eq!(
        rendered,
        "Config { token: \"[REDACTED]\", tool_input_min_length: 4, \
         tool_input_max_length: 100000, call_mode: Direct, ui_language: \"russian\", \
         programming_language: \"\", default_ssl_version: \"\", \
         default_1c_configuration: \"\", max_concurrent_calls: 2, rust_log: \"warn\" }"
    );
}

#[test]
fn exactly_one_token_source_is_required() {
    let file_system = FakeFileSystem::regular(b"file-token".to_vec());

    let missing = refused(&FakeEnvironment::default(), &file_system);
    assert_eq!(missing, ConfigError::TokenSourceCount);

    let both =
        valid_token_environment().with("ONEC_AI_TOKEN_FILE", valid_token_path());
    assert_eq!(refused(&both, &file_system), ConfigError::TokenSourceCount);
    assert_eq!(file_system.reads.get(), 0);
}

#[test]
fn environment_token_rejects_invalid_content_without_exposing_it() {
    let invalid_tokens = [
        String::new(),
        " leading".to_owned(),
        "trailing ".to_owned(),
        "line\nbreak".to_owned(),
        "line\rbreak".to_owned(),
        "nul\0byte".to_owned(),
        "x".repeat(TOKEN_MAX_BYTES + 1),
    ];

    for token in invalid_tokens {
        let environment = FakeEnvironment::default().with("ONEC_AI_TOKEN", token.clone());
        let error = refused(&environment, &FakeFileSystem::regular(Vec::new()));
        let rendered = format!("{error:?} {}", error.message());

        assert_eq!(error, ConfigError::InvalidToken);
        if !token.is_empty() {
            assert!(!rendered.contains(&token));
        }
    }
}

#[test]
fn token_file_allows_one_trailing_crlf_and_is_read_once() {
    let file_system = FakeFileSystem::regular(b"file-token\r\n".to_vec());
    let config = accepted(&file_environment(), &file_system);

    assert_eq!(config.token(), "file-token");
    assert_eq!(file_system.inspections.get(), 1);
    assert_eq!(file_system.reads.get(), 1);
}

#[test]
fn token_sources_accept_the_exact_eight_kib_boundary() {
    let exact_token = "x".repeat(TOKEN_MAX_BYTES);
    let environment = FakeEnvironment::default().with("ONEC_AI_TOKEN", exact_token.clone());
    let environment_config = accepted(&environment, &FakeFileSystem::regular(Vec::new()));
    assert_eq!(environment_config.token(), exact_token);

    let file_system = FakeFileSystem::regular(exact_token.as_bytes().to_vec());
    let file_config = accepted(&file_environment(), &file_system);
    assert_eq!(file_config.token(), exact_token);
    assert_eq!(file_system.reads.get(), 1);
}

#[test]
fn token_file_rejects_non_local_or_non_absolute_paths_before_inspection() {
    for path in [
        "token.txt",
        r"\\server\share\token.txt",
        "//server/share/token.txt",
        r"\\?\C:\tokens\token.txt",
        r"\\.\NUL",
    ] {
        let environment = FakeEnvironment::default().with("ONEC_AI_TOKEN_FILE", path);
        let file_system = FakeFileSystem::regular(b"token".to_vec());

        assert_eq!(
            refused(&environment, &file_system),
            ConfigError::InvalidTokenFilePath
        );
        assert_eq!(file_system.inspections.get(), 0);
        assert_eq!(file_system.reads.get(), 0);
    }
}

#[test]
fn token_file_rejects_directories_links_and_other_objects() {
    for kind in [FileKind::Directory, FileKind::Link, FileKind::Other] {
        let file_system = FakeFileSystem::kind(kind);

        assert_eq!(
            refused(&file_environment(), &file_system),
            ConfigError::InvalidTokenFileKind
        );
        assert_eq!(file_system.reads.get(), 0);
    }
}

#[test]
fn token_file_rejects_oversize_before_reading() {
    let file_system = FakeFileSystem {
        info: Some(TokenFileInfo {
            kind: FileKind::Regular,
            len: (TOKEN_MAX_BYTES + 1) as u64,
        }),
        contents: Some(vec![b'x'; TOKEN_MAX_BYTES + 1]),
        inspections: Cell::new(0),
        reads: Cell::new(0),
    };

    assert_eq!(
        refused(&file_environment(), &file_system),
        ConfigError::TokenFileTooLarge
    );
    assert_eq!(file_system.reads.get(), 0);
}

#[test]
fn token_file_rejects_invalid_or_changed_content() {
    let invalid_contents = [
        (vec![0xff], ConfigError::InvalidToken),
        (b"line\nbreak".to_vec(), ConfigError::InvalidToken),
        (b"line\rbreak".to_vec(), ConfigError::InvalidToken),
        (b"nul\0byte".to_vec(), ConfigError::InvalidToken),
        (b" leading".to_vec(), ConfigError::InvalidToken),
        (b"trailing ".to_vec(), ConfigError::InvalidToken),
        (b"token\n\n".to_vec(), ConfigError::InvalidToken),
        (
            vec![b'x'; TOKEN_MAX_BYTES + 1],
            ConfigError::TokenFileTooLarge,
        ),
    ];

    for (contents, expected_error) in invalid_contents {
        let file_system = FakeFileSystem {
            info: Some(TokenFileInfo {
                kind: FileKind::Regular,
                len: contents.len().min(TOKEN_MAX_BYTES) as u64,
            }),
            contents: Some(contents),
            inspections: Cell::new(0),
            reads: Cell::new(0),
        };

        assert_eq!(refused(&file_environment(), &file_system), expected_error);
        assert_eq!(file_system.reads.get(), 1);
    }
}

#[test]
fn valid_optional_settings_are_preserved() {
    let environment = valid_token_environment()
        .with("MCP_TOOL_INPUT_MIN_LENGTH", "5")
        .with("MCP_TOOL_INPUT_MAX_LENGTH", "999")
        .with("MCP_TOOL_CALL_MODE", "standard")
        .with("ONEC_AI_UI_LANGUAGE", "english")
        .with("ONEC_AI_PROGRAMMING_LANGUAGE", "bsl")
        .with("DEFAULT_SSL_VERSION", "TLS 1.3")
        .with("DEFAULT_1C_CONFIGURATION", "ERP")
        .with("MCP_MAX_CONCURRENT_CALLS", "1")
        .with("RUST_LOG", "onec_buddy_mcp=debug,warn");
    let config = accepted(&environment, &FakeFileSystem::regular(Vec::new()));

    assert_eq!(config.tool_input_min_length(), 5);
    assert_eq!(config.tool_input_max_length(), 999);
    assert_eq!(config.call_mode(), CallMode::Standard);
    assert_eq!(config.ui_language(), "english");
    assert_eq!(config.programming_language(), "bsl");
    assert_eq!(config.default_ssl_version(), "TLS 1.3");
    assert_eq!(config.default_1c_configuration(), "ERP");
    assert_eq!(config.max_concurrent_calls(), 1);
    assert_eq!(config.rust_log(), "onec_buddy_mcp=debug,warn");
}

#[test]
fn invalid_optional_settings_are_rejected() {
    let cases = [
        ("MCP_TOOL_INPUT_MIN_LENGTH", "0"),
        ("MCP_TOOL_INPUT_MIN_LENGTH", "not-a-number"),
        (
            "MCP_TOOL_INPUT_MAX_LENGTH",
            &(TOOL_INPUT_MAX_HARD + 1).to_string(),
        ),
        ("MCP_TOOL_CALL_MODE", "automatic"),
        ("ONEC_AI_UI_LANGUAGE", ""),
        ("ONEC_AI_UI_LANGUAGE", &"я".repeat(65)),
        ("ONEC_AI_PROGRAMMING_LANGUAGE", &"x".repeat(65)),
        ("DEFAULT_SSL_VERSION", &"x".repeat(257)),
        ("DEFAULT_1C_CONFIGURATION", "line\nbreak"),
        ("MCP_MAX_CONCURRENT_CALLS", "3"),
        ("RUST_LOG", ""),
        ("RUST_LOG", "not a filter ==="),
    ];

    for (name, value) in cases {
        let environment = valid_token_environment().with(name, value);
        assert!(
            load_with(&environment, &FakeFileSystem::regular(Vec::new())).is_err(),
            "{name}={value:?} must be rejected"
        );
    }

    let inverted = valid_token_environment()
        .with("MCP_TOOL_INPUT_MIN_LENGTH", "10")
        .with("MCP_TOOL_INPUT_MAX_LENGTH", "9");
    assert_eq!(
        refused(&inverted, &FakeFileSystem::regular(Vec::new())),
        ConfigError::InvertedToolInputLimits
    );
}

#[test]
fn production_base_url_override_is_rejected_without_exposing_values() {
    let secret = "do-not-leak-token";
    let address = "https://attacker.invalid/private";
    let environment = FakeEnvironment::default()
        .with("ONEC_AI_TOKEN", secret)
        .with("ONEC_AI_BASE_URL", address);
    let error = refused(&environment, &FakeFileSystem::regular(Vec::new()));
    let rendered = format!("{error:?} {}", error.message());

    assert_eq!(error, ConfigError::UnsupportedBaseUrl);
    assert!(!rendered.contains(secret));
    assert!(!rendered.contains(address));
}

#[test]
fn each_setting_is_refused_with_its_own_error() {
    let none = FakeFileSystem::regular(Vec::new());
    let with = |name, value: &str| refused(&valid_token_environment().with(name, value), &none);
    assert_eq!(
        with("MCP_TOOL_INPUT_MIN_LENGTH", "x"),
        ConfigError::InvalidInteger {
            name: "MCP_TOOL_INPUT_MIN_LENGTH"
        }
    );
    assert_eq!(
        with("MCP_TOOL_INPUT_MAX_LENGTH", "0"),
        ConfigError::InvalidSetting {
            name: "MCP_TOOL_INPUT_MAX_LENGTH"
        }
    );
    assert_eq!(
        with("RUST_LOG", "not a filter ==="),
        ConfigError::InvalidLogFilter
    );
    assert_eq!(
        with("RUST_LOG", &"x".repeat(1025)),
        ConfigError::InvalidSetting { name: "RUST_LOG" }
    );

    let unreadable = FakeFileSystem {
        info: None,
        contents: None,
        inspections: Cell::new(0),
        reads: Cell::new(0),
    };
    assert_eq!(
        refused(&file_environment(), &unreadable),
        ConfigError::TokenFileUnreadable
    );
}

#[test]
fn log_filters_come_apart_or_are_refused() {
    let none = FakeFileSystem::regular(Vec::new());
    let with = |value: &str| refused(&valid_token_environment().with("RUST_LOG", value), &none);
    for broken in [" ы=debug", "info, ы=debug", "\u{a0}a=info", "a=info,\u{3000}b=warn"] {
        assert_eq!(with(broken), ConfigError::InvalidLogFilter, "{broken:?}");
    }
    for unfit in [" ы=debug\n".to_owned(), " ы=debug".repeat(200)] {
        assert_eq!(
            with(&unfit),
            ConfigError::InvalidSetting { name: "RUST_LOG" }
        );
    }
    for accepted in [
        "ы=debug",
        "info,ы=debug",
        "a[b]=info",
        "ы=debug,warn",
        " слово",
        "warn, слово",
        "  [ж]",
    ] {
        let environment = valid_token_environment().with("RUST_LOG", accepted);
        let LoadStep::Finished(Ok(config)) = begin_load(
            environment.read(),
            &PathFacts {
                absolute: true,
                names: Vec::new(),
            },
        ) else {
            panic!("{accepted:?} is a filter");
        };
        assert_eq!(config.rust_log(), accepted);
    }
}

#[test]
fn values_that_are_not_unicode_are_refused_by_name() {
    let facts = PathFacts {
        absolute: true,
        names: Vec::new(),
    };
    let error = |values| match begin_load(values, &facts) {
        LoadStep::Finished(Err(error)) => error,
        _ => panic!("the value must be refused"),
    };

    let mut values = FakeEnvironment::default().read();
    values.token = EnvValue::NotUnicode;
    assert_eq!(
        error(values),
        ConfigError::NonUnicodeValue {
            name: "ONEC_AI_TOKEN"
        }
    );
    let mut values = FakeEnvironment::default().read();
    values.token_file = EnvValue::NotUnicode;
    assert_eq!(
        error(values),
        ConfigError::NonUnicodeValue {
            name: "ONEC_AI_TOKEN_FILE"
        }
    );
    let mut values = valid_token_environment().read();
    values.ui_language = EnvValue::NotUnicode;
    assert_eq!(
        error(values),
        ConfigError::NonUnicodeValue {
            name: "ONEC_AI_UI_LANGUAGE"
        }
    );
    let mut values = valid_token_environment().read();
    values.base_url = EnvValue::NotUnicode;
    assert_eq!(error(values), ConfigError::UnsupportedBaseUrl);
}

#[test]
fn device_names_are_reserved_with_any_extension_and_case() {
    let reserved = |name: &str| has_reserved_windows_component(&vec![name.to_owned()]);
    for name in [
        "CON", "nul", "Aux.txt", "prn .", "com1", "LPT9.log", "COM5...",
    ] {
        assert!(reserved(name), "{name}");
    }
    for name in ["COM0", "COM10", "CONS", "file.con", "", "lpt", "com\u{b9}"] {
        assert!(!reserved(name), "{name}");
    }
    assert!(!has_reserved_windows_component(&Vec::new()));
}

#[test]
fn decimal_numbers_are_read_like_machine_integers() {
    for text in ["", "+", "-1", " 1", "1 ", "1_0", "+-1", "99999999999999999999999"] {
        assert_eq!(parse_decimal(text), None, "{text}");
        assert!(text.parse::<usize>().is_err(), "{text}");
    }
    for text in ["0", "+7", "007", "18446744073709551615"] {
        assert_eq!(parse_decimal(text), text.parse::<usize>().ok(), "{text}");
    }
}
