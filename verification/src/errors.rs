//! The error types of the configuration loader, the C++ core bridge, the
//! market-data providers, the MCP client and the CLI, each with the
//! message a user sees for it.

use vstd::prelude::*;
use crate::args::ArgsError;
use crate::text::{chars_of, concat, int_to_text, int_text, occurs_at, string_of, trim, trim_chars};

verus! {

/// Whether `s` starts with `prefix`.
pub open spec fn has_prefix(s: Seq<char>, prefix: Seq<char>) -> bool {
    occurs_at(s, 0, prefix)
}

/// The text of an I/O error, as its `Display` prints it.
///
/// Trusted: calls `ToString::to_string` on the error. What the text holds
/// comes from the operating system and is not stated.
#[verifier::external_body]
fn io_error_text(e: &std::io::Error) -> (r: String) {
    e.to_string()
}

/// `prefix`, then `rest`, with a proof that the result starts with
/// `prefix`.
fn prefixed(prefix: &str, rest: &str) -> (r: String)
    ensures
        r@ == prefix@ + rest@,
        has_prefix(r@, prefix@),
{
    let r = concat(prefix, rest);
    assert(r@.subrange(0, prefix@.len() as int) =~= prefix@);
    r
}

// ---------------------------------------------------------------------------
// Configuration
// ---------------------------------------------------------------------------

/// Why a configuration could not be loaded.
#[derive(Debug)]
pub enum ConfigError {
    /// The configuration's root is not a JSON object.
    RootNotAnObject,
    Io(std::io::Error),
    InvalidJson(String),
    /// Only `mode = "paper"` is implemented.
    LiveModeNotSupported,
    /// `policy.paper_only` must stay true.
    PolicyPaperOnlyRequired,
    /// The merged configuration does not have the expected shape.
    SchemaMismatch(String),
}

/// Whether `r` is the message of `e`.
pub open spec fn is_config_message(e: ConfigError, r: Seq<char>) -> bool {
    match e {
        ConfigError::RootNotAnObject => r == "configuration root must be a JSON object"@,
        ConfigError::Io(_) => has_prefix(r, "could not read configuration file: "@),
        ConfigError::InvalidJson(m) => r == "configuration file is not valid JSON: "@ + m@,
        ConfigError::LiveModeNotSupported => r == "only mode='paper' is implemented"@,
        ConfigError::PolicyPaperOnlyRequired => r == "policy.paper_only must remain true"@,
        ConfigError::SchemaMismatch(m) => r == "configuration does not match the expected schema: "@
            + m@,
    }
}

impl ConfigError {
    /// The message a user sees for this error.
    pub fn message(&self) -> (r: String)
        ensures
            is_config_message(*self, r@),
    {
        match self {
            ConfigError::RootNotAnObject => "configuration root must be a JSON object".to_owned(),
            ConfigError::Io(e) => {
                let t = io_error_text(e);
                prefixed("could not read configuration file: ", t.as_str())
            },
            ConfigError::InvalidJson(m) => concat("configuration file is not valid JSON: ", m.as_str()),
            ConfigError::LiveModeNotSupported => "only mode='paper' is implemented".to_owned(),
            ConfigError::PolicyPaperOnlyRequired => "policy.paper_only must remain true".to_owned(),
            ConfigError::SchemaMismatch(m) => concat(
                "configuration does not match the expected schema: ",
                m.as_str(),
            ),
        }
    }
}

impl From<std::io::Error> for ConfigError {
    fn from(err: std::io::Error) -> (r: Self) {
        ConfigError::Io(err)
    }
}

impl vstd::std_specs::convert::FromSpecImpl<std::io::Error> for ConfigError {
    open spec fn obeys_from_spec() -> bool {
        true
    }

    open spec fn from_spec(v: std::io::Error) -> Self {
        ConfigError::Io(v)
    }
}

// ---------------------------------------------------------------------------
// The C++ core bridge
// ---------------------------------------------------------------------------

/// Why running (or building) the C++ core failed.
#[derive(Debug)]
pub enum CoreError {
    Io(std::io::Error),
    /// No `cmake`, `g++` or `clang++` was found on `PATH`.
    NoToolchainFound,
    /// The build ran but the binary is still missing at this path.
    BuildSucceededButBinaryMissing(String),
    /// Auto-build is disabled and the binary is missing at this path.
    BinaryNotFound(String),
    Timeout(std::time::Duration),
    NonZeroExit { code: Option<i32>, stderr: String },
    InvalidJson(String),
}

/// How `Debug` prints an optional exit status.
pub open spec fn exit_status_text(code: Option<i32>) -> Seq<char> {
    match code {
        Some(c) => "Some("@ + int_text(c as int) + ")"@,
        None => "None"@,
    }
}

fn exit_status_string(code: Option<i32>) -> (r: String)
    ensures
        r@ == exit_status_text(code),
{
    match code {
        Some(c) => {
            let n = int_to_text(c as i64);
            let a = concat("Some(", n.as_str());
            concat(a.as_str(), ")")
        },
        None => "None".to_owned(),
    }
}

/// A duration in seconds with one decimal place, as `{:.1}` prints
/// `Duration::as_secs_f64`.
///
/// Trusted: formats the floating-point number of seconds; nothing is
/// stated of the digits it prints.
#[verifier::external_body]
fn seconds_one_decimal(d: &std::time::Duration) -> (r: String) {
    format!("{:.1}", d.as_secs_f64())
}

/// Whether `r` is the message of `e`.
pub open spec fn is_core_message(e: CoreError, r: Seq<char>) -> bool {
    match e {
        CoreError::Io(_) => has_prefix(r, "I/O error running the C++ core: "@),
        CoreError::NoToolchainFound => r == "cmake, g++, or clang++ is required to build the C++ core"@,
        CoreError::BuildSucceededButBinaryMissing(p) => r
            == "build completed but core binary was not found at "@ + p@,
        CoreError::BinaryNotFound(p) => r == "core binary not found: "@ + p@
            + " (auto-build is disabled)"@,
        CoreError::Timeout(_) => has_prefix(r, "C++ core timed out after "@) && r.len() > 0
            && r.last() == 's',
        CoreError::NonZeroExit { code, stderr } => if trim(stderr@).len() == 0 {
            r == "C++ core exited with status "@ + exit_status_text(code)
        } else {
            r == trim(stderr@)
        },
        CoreError::InvalidJson(m) => r == "C++ core returned invalid or incomplete JSON: "@ + m@,
    }
}

impl CoreError {
    /// The message a user sees for this error. A non-zero exit with
    /// something on standard error shows that output, trimmed.
    pub fn message(&self) -> (r: String)
        ensures
            is_core_message(*self, r@),
    {
        match self {
            CoreError::Io(e) => {
                let t = io_error_text(e);
                prefixed("I/O error running the C++ core: ", t.as_str())
            },
            CoreError::NoToolchainFound => "cmake, g++, or clang++ is required to build the C++ core".to_owned(),
            CoreError::BuildSucceededButBinaryMissing(p) => concat(
                "build completed but core binary was not found at ",
                p.as_str(),
            ),
            CoreError::BinaryNotFound(p) => {
                let a = concat("core binary not found: ", p.as_str());
                concat(a.as_str(), " (auto-build is disabled)")
            },
            CoreError::Timeout(d) => {
                let secs = seconds_one_decimal(d);
                let a = prefixed("C++ core timed out after ", secs.as_str());
                let r = concat(a.as_str(), "s");
                proof {
                    reveal_strlit("s");
                    assert(r@.subrange(0, "C++ core timed out after "@.len() as int) =~= a@.subrange(
                        0,
                        "C++ core timed out after "@.len() as int,
                    ));
                }
                r
            },
            CoreError::NonZeroExit { code, stderr } => {
                let sc = chars_of(stderr.as_str());
                let t = trim_chars(&sc);
                if t.len() == 0 {
                    let s = exit_status_string(*code);
                    concat("C++ core exited with status ", s.as_str())
                } else {
                    string_of(&t)
                }
            },
            CoreError::InvalidJson(m) => concat("C++ core returned invalid or incomplete JSON: ", m.as_str()),
        }
    }
}

impl From<std::io::Error> for CoreError {
    fn from(err: std::io::Error) -> (r: Self) {
        CoreError::Io(err)
    }
}

impl vstd::std_specs::convert::FromSpecImpl<std::io::Error> for CoreError {
    open spec fn obeys_from_spec() -> bool {
        true
    }

    open spec fn from_spec(v: std::io::Error) -> Self {
        CoreError::Io(v)
    }
}

// ---------------------------------------------------------------------------
// Market data
// ---------------------------------------------------------------------------

/// Why a market-data or evidence provider failed.
#[derive(Debug)]
pub enum DataError {
    Io(std::io::Error),
    InvalidJson(String),
    /// A required environment variable (a credential) is not set.
    MissingEnvVar(&'static str),
    /// A request failed: a transport error or an error status.
    Http(String),
    /// The response was JSON, but not of the expected shape.
    UnexpectedResponse(String),
}

/// Whether `r` is the message of `e`.
pub open spec fn is_data_message(e: DataError, r: Seq<char>) -> bool {
    match e {
        DataError::Io(_) => has_prefix(r, "I/O error: "@),
        DataError::InvalidJson(m) => r == "invalid JSON: "@ + m@,
        DataError::MissingEnvVar(name) => r == name@ + " is not set"@,
        DataError::Http(m) => r == "HTTP request failed: "@ + m@,
        DataError::UnexpectedResponse(m) => r == "unexpected response: "@ + m@,
    }
}

impl DataError {
    /// The message a user sees for this error.
    pub fn message(&self) -> (r: String)
        ensures
            is_data_message(*self, r@),
    {
        match self {
            DataError::Io(e) => {
                let t = io_error_text(e);
                prefixed("I/O error: ", t.as_str())
            },
            DataError::InvalidJson(m) => concat("invalid JSON: ", m.as_str()),
            DataError::MissingEnvVar(name) => concat(name, " is not set"),
            DataError::Http(m) => concat("HTTP request failed: ", m.as_str()),
            DataError::UnexpectedResponse(m) => concat("unexpected response: ", m.as_str()),
        }
    }
}

impl From<std::io::Error> for DataError {
    fn from(err: std::io::Error) -> (r: Self) {
        DataError::Io(err)
    }
}

impl vstd::std_specs::convert::FromSpecImpl<std::io::Error> for DataError {
    open spec fn obeys_from_spec() -> bool {
        true
    }

    open spec fn from_spec(v: std::io::Error) -> Self {
        DataError::Io(v)
    }
}

// ---------------------------------------------------------------------------
// The MCP client
// ---------------------------------------------------------------------------

/// Why a call to an MCP server failed.
#[derive(Debug)]
pub enum ClientError {
    Spawn(std::io::Error),
    Io(std::io::Error),
    Parse(String),
    /// A JSON-RPC error response.
    Protocol { code: i64, message: String },
    /// The tool ran but reported failure (`isError: true`).
    Tool(String),
    /// The server closed its output before answering.
    UnexpectedEof,
}

/// Whether `r` is the message of `e`.
pub open spec fn is_client_message(e: ClientError, r: Seq<char>) -> bool {
    match e {
        ClientError::Spawn(_) => has_prefix(r, "failed to spawn MCP server process: "@),
        ClientError::Io(_) => has_prefix(r, "I/O error talking to MCP server process: "@),
        ClientError::Parse(e) => r == "failed to parse MCP server response as JSON: "@ + e@,
        ClientError::Protocol { code, message } => r == "MCP protocol error "@ + int_text(code as int) + ": "@ + message@,
        ClientError::Tool(m) => r == "MCP tool reported failure: "@ + m@,
        ClientError::UnexpectedEof => r == "MCP server process closed its output before responding"@,
    }
}

impl ClientError {
    /// The message a user sees for this error.
    pub fn message(&self) -> (r: String)
        ensures
            is_client_message(*self, r@),
    {
        match self {
            ClientError::Spawn(e) => {
                let t = io_error_text(e);
                prefixed("failed to spawn MCP server process: ", t.as_str())
            },
            ClientError::Io(e) => {
                let t = io_error_text(e);
                prefixed("I/O error talking to MCP server process: ", t.as_str())
            },
            ClientError::Parse(e) => concat("failed to parse MCP server response as JSON: ", e.as_str()),
            ClientError::Protocol { code, message } => {
                let n = int_to_text(*code);
                let a = concat("MCP protocol error ", n.as_str());
                let b = concat(a.as_str(), ": ");
                concat(b.as_str(), message.as_str())
            },
            ClientError::Tool(m) => concat("MCP tool reported failure: ", m.as_str()),
            ClientError::UnexpectedEof => "MCP server process closed its output before responding".to_owned(),
        }
    }
}

impl From<std::io::Error> for ClientError {
    fn from(err: std::io::Error) -> (r: Self) {
        ClientError::Io(err)
    }
}

impl vstd::std_specs::convert::FromSpecImpl<std::io::Error> for ClientError {
    open spec fn obeys_from_spec() -> bool {
        true
    }

    open spec fn from_spec(v: std::io::Error) -> Self {
        ClientError::Io(v)
    }
}

// ---------------------------------------------------------------------------
// The recommendation engine
// ---------------------------------------------------------------------------

/// Why the recommendation engine failed. The decision store's and the
/// advisers' own errors are carried by their messages.
#[derive(Debug)]
pub enum EngineError {
    /// No `contracts.<SYMBOL>` entry exists in the configuration.
    UnknownSymbol(String),
    InvalidOptionType(String),
    InvalidExerciseStyle(String),
    InvalidStrike(String),
    InvalidExpiryDate(String),
    Core(CoreError),
    Data(DataError),
    /// The decision store failed, with its message.
    Store(String),
    /// The active adviser failed and `model.fallback_to_heuristic` is
    /// false, with the adviser's message.
    AdvisorFailedAndFallbackDisabled(String),
    /// The configured adviser could not be built, with its message.
    AdvisorConstructionFailed(String),
    /// No stored decision has this ID.
    DecisionNotFound(String),
    UnknownProviderKind(String),
    UnknownAdvisorKind(String),
}

/// Whether `r` is the message of `e`.
pub open spec fn is_engine_message(e: EngineError, r: Seq<char>) -> bool {
    match e {
        EngineError::UnknownSymbol(s) => r == "no contract configured for "@ + s@ + "; add contracts."@ + s@
            + " to the config"@,
        EngineError::InvalidOptionType(s) => r == "option_type must be call or put, got "@ + s@,
        EngineError::InvalidExerciseStyle(s) => r == "exercise_style must be american or european, got "@ + s@,
        EngineError::InvalidStrike(s) => r == "strike must be positive and finite, got "@ + s@,
        EngineError::InvalidExpiryDate(s) => r == "invalid expiry date: "@ + s@,
        EngineError::Core(c) => is_core_message(c, r),
        EngineError::Data(d) => is_data_message(d, r),
        EngineError::Store(m) => r == m@,
        EngineError::AdvisorFailedAndFallbackDisabled(m) => r == "adviser failed and fallback is disabled: "@ + m@,
        EngineError::AdvisorConstructionFailed(m) => r == "failed to construct the configured adviser: "@ + m@,
        EngineError::DecisionNotFound(id) => r == "decision not found: "@ + id@,
        EngineError::UnknownProviderKind(k) => r == "unknown provider kind: "@ + k@,
        EngineError::UnknownAdvisorKind(k) => r == "unknown model adviser kind: "@ + k@,
    }
}

impl EngineError {
    /// The message a user sees for this error.
    pub fn message(&self) -> (r: String)
        ensures
            is_engine_message(*self, r@),
    {
        match self {
            EngineError::UnknownSymbol(s) => {
                let a = concat("no contract configured for ", s.as_str());
                let b = concat(a.as_str(), "; add contracts.");
                let c = concat(b.as_str(), s.as_str());
                concat(c.as_str(), " to the config")
            },
            EngineError::InvalidOptionType(s) => concat("option_type must be call or put, got ", s.as_str()),
            EngineError::InvalidExerciseStyle(s) => concat(
                "exercise_style must be american or european, got ",
                s.as_str(),
            ),
            EngineError::InvalidStrike(s) => concat("strike must be positive and finite, got ", s.as_str()),
            EngineError::InvalidExpiryDate(s) => concat("invalid expiry date: ", s.as_str()),
            EngineError::Core(e) => e.message(),
            EngineError::Data(e) => e.message(),
            EngineError::Store(m) => m.clone(),
            EngineError::AdvisorFailedAndFallbackDisabled(m) => concat(
                "adviser failed and fallback is disabled: ",
                m.as_str(),
            ),
            EngineError::AdvisorConstructionFailed(m) => concat(
                "failed to construct the configured adviser: ",
                m.as_str(),
            ),
            EngineError::DecisionNotFound(id) => concat("decision not found: ", id.as_str()),
            EngineError::UnknownProviderKind(k) => concat("unknown provider kind: ", k.as_str()),
            EngineError::UnknownAdvisorKind(k) => concat("unknown model adviser kind: ", k.as_str()),
        }
    }
}

impl From<CoreError> for EngineError {
    fn from(err: CoreError) -> (r: Self) {
        EngineError::Core(err)
    }
}

impl vstd::std_specs::convert::FromSpecImpl<CoreError> for EngineError {
    open spec fn obeys_from_spec() -> bool {
        true
    }

    open spec fn from_spec(v: CoreError) -> Self {
        EngineError::Core(v)
    }
}

impl From<DataError> for EngineError {
    fn from(err: DataError) -> (r: Self) {
        EngineError::Data(err)
    }
}

impl vstd::std_specs::convert::FromSpecImpl<DataError> for EngineError {
    open spec fn obeys_from_spec() -> bool {
        true
    }

    open spec fn from_spec(v: DataError) -> Self {
        EngineError::Data(v)
    }
}

// ---------------------------------------------------------------------------
// The CLI
// ---------------------------------------------------------------------------

/// Why a CLI command failed.
#[derive(Debug)]
pub enum CliError {
    Args(ArgsError),
    Config(ConfigError),
    Core(CoreError),
    Engine(EngineError),
    Io(std::io::Error),
    /// A recognized command that this CLI does not run.
    NotYetImplemented(&'static str),
    SelfTestFailed(String),
}

impl CliError {
    /// The message a user sees for this error: a wrapped error's own
    /// message, or this error's.
    pub fn message(&self) -> (r: String)
        ensures
            match self {
                CliError::Args(e) => r@ == crate::args::failure_message(e@),
                CliError::Config(e) => is_config_message(*e, r@),
                CliError::Core(e) => is_core_message(*e, r@),
                CliError::Engine(e) => is_engine_message(*e, r@),
                CliError::NotYetImplemented(what) => r@ == what@ + " is not yet implemented in the Rust CLI"@,
                CliError::SelfTestFailed(m) => r@ == "self-test failed: "@ + m@,
                CliError::Io(_) => true,
            },
    {
        match self {
            CliError::Args(e) => e.message(),
            CliError::Config(e) => e.message(),
            CliError::Core(e) => e.message(),
            CliError::Engine(e) => e.message(),
            CliError::Io(e) => io_error_text(e),
            CliError::NotYetImplemented(what) => concat(what, " is not yet implemented in the Rust CLI"),
            CliError::SelfTestFailed(m) => concat("self-test failed: ", m.as_str()),
        }
    }
}

impl From<ArgsError> for CliError {
    fn from(e: ArgsError) -> (r: Self) {
        CliError::Args(e)
    }
}

impl vstd::std_specs::convert::FromSpecImpl<ArgsError> for CliError {
    open spec fn obeys_from_spec() -> bool {
        true
    }

    open spec fn from_spec(v: ArgsError) -> Self {
        CliError::Args(v)
    }
}

impl From<ConfigError> for CliError {
    fn from(e: ConfigError) -> (r: Self) {
        CliError::Config(e)
    }
}

impl vstd::std_specs::convert::FromSpecImpl<ConfigError> for CliError {
    open spec fn obeys_from_spec() -> bool {
        true
    }

    open spec fn from_spec(v: ConfigError) -> Self {
        CliError::Config(v)
    }
}

impl From<CoreError> for CliError {
    fn from(e: CoreError) -> (r: Self) {
        CliError::Core(e)
    }
}

impl vstd::std_specs::convert::FromSpecImpl<CoreError> for CliError {
    open spec fn obeys_from_spec() -> bool {
        true
    }

    open spec fn from_spec(v: CoreError) -> Self {
        CliError::Core(v)
    }
}

impl From<EngineError> for CliError {
    fn from(e: EngineError) -> (r: Self) {
        CliError::Engine(e)
    }
}

impl vstd::std_specs::convert::FromSpecImpl<EngineError> for CliError {
    open spec fn obeys_from_spec() -> bool {
        true
    }

    open spec fn from_spec(v: EngineError) -> Self {
        CliError::Engine(v)
    }
}

impl From<std::io::Error> for CliError {
    fn from(e: std::io::Error) -> (r: Self) {
        CliError::Io(e)
    }
}

impl vstd::std_specs::convert::FromSpecImpl<std::io::Error> for CliError {
    open spec fn obeys_from_spec() -> bool {
        true
    }

    open spec fn from_spec(v: std::io::Error) -> Self {
        CliError::Io(v)
    }
}

} // verus!
