use smart_hedge::args::ArgsError;
use smart_hedge::errors::{CliError, ClientError, ConfigError, CoreError, DataError, EngineError};

#[test]
fn config_errors_describe_the_problem() {
    assert_eq!(ConfigError::RootNotAnObject.message(), "configuration root must be a JSON object");
    assert_eq!(ConfigError::InvalidJson("eof".to_string()).message(), "configuration file is not valid JSON: eof");
    assert_eq!(ConfigError::LiveModeNotSupported.message(), "only mode='paper' is implemented");
    assert_eq!(ConfigError::PolicyPaperOnlyRequired.message(), "policy.paper_only must remain true");
    assert_eq!(
        ConfigError::SchemaMismatch("missing field".to_string()).message(),
        "configuration does not match the expected schema: missing field"
    );
    let io = ConfigError::from(std::io::Error::new(std::io::ErrorKind::NotFound, "gone"));
    assert!(matches!(io, ConfigError::Io(_)));
    assert_eq!(io.message(), "could not read configuration file: gone");
}

#[test]
fn core_errors_describe_the_problem() {
    assert_eq!(
        CoreError::NoToolchainFound.message(),
        "cmake, g++, or clang++ is required to build the C++ core"
    );
    assert_eq!(
        CoreError::BuildSucceededButBinaryMissing("/b/core".to_string()).message(),
        "build completed but core binary was not found at /b/core"
    );
    assert_eq!(
        CoreError::BinaryNotFound("/b/core".to_string()).message(),
        "core binary not found: /b/core (auto-build is disabled)"
    );
    assert_eq!(
        CoreError::Timeout(std::time::Duration::from_millis(12_340)).message(),
        "C++ core timed out after 12.3s"
    );
    assert_eq!(CoreError::InvalidJson("bad".to_string()).message(), "C++ core returned invalid or incomplete JSON: bad");
}

#[test]
fn a_failed_core_shows_its_standard_error_or_else_its_status() {
    let with_stderr = CoreError::NonZeroExit { code: Some(2), stderr: "  boom\n".to_string() };
    assert_eq!(with_stderr.message(), "boom");
    let silent = CoreError::NonZeroExit { code: Some(-3), stderr: " \n".to_string() };
    assert_eq!(silent.message(), "C++ core exited with status Some(-3)");
    let killed = CoreError::NonZeroExit { code: None, stderr: String::new() };
    assert_eq!(killed.message(), "C++ core exited with status None");
}

#[test]
fn data_errors_describe_the_problem() {
    assert_eq!(DataError::InvalidJson("x".to_string()).message(), "invalid JSON: x");
    assert_eq!(DataError::MissingEnvVar("FRED_API_KEY").message(), "FRED_API_KEY is not set");
    assert_eq!(DataError::Http("timeout".to_string()).message(), "HTTP request failed: timeout");
    assert_eq!(DataError::UnexpectedResponse("shape".to_string()).message(), "unexpected response: shape");
    let io = DataError::from(std::io::Error::new(std::io::ErrorKind::Other, "disk"));
    assert_eq!(io.message(), "I/O error: disk");
}

#[test]
fn client_errors_describe_the_problem() {
    assert_eq!(
        ClientError::Protocol { code: -32601, message: "Method not found".to_string() }.message(),
        "MCP protocol error -32601: Method not found"
    );
    assert_eq!(ClientError::Tool("nope".to_string()).message(), "MCP tool reported failure: nope");
    assert_eq!(ClientError::Parse("eof".to_string()).message(), "failed to parse MCP server response as JSON: eof");
    assert_eq!(
        ClientError::UnexpectedEof.message(),
        "MCP server process closed its output before responding"
    );
    let spawn = ClientError::Spawn(std::io::Error::new(std::io::ErrorKind::NotFound, "no such file"));
    assert_eq!(spawn.message(), "failed to spawn MCP server process: no such file");
    let io = ClientError::from(std::io::Error::new(std::io::ErrorKind::BrokenPipe, "pipe"));
    assert_eq!(io.message(), "I/O error talking to MCP server process: pipe");
}

#[test]
fn cli_errors_show_the_wrapped_message() {
    assert_eq!(CliError::from(ArgsError::MissingValueFor("--vol".to_string())).message(), "--vol requires a value");
    assert_eq!(CliError::from(ConfigError::RootNotAnObject).message(), "configuration root must be a JSON object");
    assert_eq!(CliError::from(CoreError::NoToolchainFound).message(), "cmake, g++, or clang++ is required to build the C++ core");
    assert_eq!(CliError::Engine(EngineError::DecisionNotFound("x".to_string())).message(), "decision not found: x");
    assert_eq!(CliError::NotYetImplemented("serve").message(), "serve is not yet implemented in the Rust CLI");
    assert_eq!(CliError::SelfTestFailed("hash".to_string()).message(), "self-test failed: hash");
}

#[test]
fn engine_errors_describe_the_problem() {
    assert_eq!(
        EngineError::UnknownSymbol("NOPE".to_string()).message(),
        "no contract configured for NOPE; add contracts.NOPE to the config"
    );
    assert_eq!(
        EngineError::InvalidOptionType("straddle".to_string()).message(),
        "option_type must be call or put, got straddle"
    );
    assert_eq!(
        EngineError::InvalidExerciseStyle("bermudan".to_string()).message(),
        "exercise_style must be american or european, got bermudan"
    );
    assert_eq!(EngineError::InvalidStrike("-5".to_string()).message(), "strike must be positive and finite, got -5");
    assert_eq!(EngineError::InvalidExpiryDate("soon".to_string()).message(), "invalid expiry date: soon");
    assert_eq!(EngineError::Store("database is locked".to_string()).message(), "database is locked");
    assert_eq!(
        EngineError::AdvisorFailedAndFallbackDisabled("timeout".to_string()).message(),
        "adviser failed and fallback is disabled: timeout"
    );
    assert_eq!(
        EngineError::AdvisorConstructionFailed("OPENAI_API_KEY is not set".to_string()).message(),
        "failed to construct the configured adviser: OPENAI_API_KEY is not set"
    );
    assert_eq!(EngineError::UnknownProviderKind("x".to_string()).message(), "unknown provider kind: x");
    assert_eq!(EngineError::UnknownAdvisorKind("y".to_string()).message(), "unknown model adviser kind: y");
    assert_eq!(
        EngineError::Data(DataError::MissingEnvVar("ALPACA_API_KEY_ID")).message(),
        "ALPACA_API_KEY_ID is not set"
    );
}
