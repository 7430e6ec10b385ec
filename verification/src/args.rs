//! Command-line parsing for the smart-hedge CLI: an optional `--config`
//! option anywhere on the line, then a command and its `--flag value` or
//! `--flag=value` options. A flag that takes a decimal number is checked
//! against the grammar that `str::parse::<f64>` accepts and is kept as
//! text, for the caller to convert.

use vstd::prelude::*;
use crate::text::{
    ascii_lower, ascii_lower_char, chars_eq, chars_of, concat, copy_range, find_char, find_char_from,
    lemma_find_char_from_bounds, occurs_at, starts_at, string_of, to_uppercase, unicode_uppercase,
};
use crate::num::{all_digits, is_digit, parse_i64_chars, parse_i64_spec};

verus! {

// ---------------------------------------------------------------------------
// The decimal-number grammar of `str::parse::<f64>`
// ---------------------------------------------------------------------------

/// `s` with ASCII letters lowercased.
pub open spec fn lowered(s: Seq<char>) -> Seq<char> {
    s.map_values(|c: char| ascii_lower(c))
}

/// `s` without one leading `+` or `-`.
pub open spec fn without_sign(s: Seq<char>) -> Seq<char> {
    if s.len() > 0 && (s[0] == '+' || s[0] == '-') {
        s.subrange(1, s.len() as int)
    } else {
        s
    }
}

/// `inf`, `infinity` or `nan`.
pub open spec fn is_special_float(b: Seq<char>) -> bool {
    b == seq!['i', 'n', 'f'] || b == seq!['i', 'n', 'f', 'i', 'n', 'i', 't', 'y'] || b == seq![
        'n',
        'a',
        'n',
    ]
}

/// Digits with at most one `.`, and at least one digit.
pub open spec fn is_mantissa(m: Seq<char>) -> bool {
    &&& forall|i: int| 0 <= i < m.len() ==> is_digit(m[i]) || m[i] == '.'
    &&& forall|i: int, j: int| 0 <= i < j < m.len() && m[i] == '.' ==> m[j] != '.'
    &&& exists|i: int| 0 <= i < m.len() && is_digit(m[i])
}

/// An optional sign, then one or more digits.
pub open spec fn is_exponent(x: Seq<char>) -> bool {
    let d = without_sign(x);
    d.len() > 0 && all_digits(d)
}

/// A mantissa, optionally followed by `e` and an exponent.
pub open spec fn is_decimal_number(b: Seq<char>) -> bool {
    match find_char_from(b, 0, 'e') {
        None => is_mantissa(b),
        Some(k) => is_mantissa(b.subrange(0, k)) && is_exponent(b.subrange(k + 1, b.len() as int)),
    }
}

/// Whether `str::parse::<f64>` accepts `s`: once ASCII-lowercased, an
/// optional sign followed by `inf`, `infinity`, `nan`, or a decimal number
/// with an optional exponent.
pub open spec fn float_text(s: Seq<char>) -> bool {
    let b = without_sign(lowered(s));
    is_special_float(b) || is_decimal_number(b)
}

fn is_mantissa_chars(m: &[char]) -> (r: bool)
    ensures
        r == is_mantissa(m@),
{
    let n = m.len();
    let mut seen_dot = false;
    let mut seen_digit = false;
    let mut i: usize = 0;
    while i < n
        invariant
            n == m@.len(),
            i <= n,
            forall|j: int| 0 <= j < i ==> is_digit(m@[j]) || m@[j] == '.',
            forall|j: int, k: int| 0 <= j < k < i && m@[j] == '.' ==> m@[k] != '.',
            seen_dot <==> exists|j: int| 0 <= j < i && m@[j] == '.',
            seen_digit <==> exists|j: int| 0 <= j < i && is_digit(m@[j]),
        decreases n - i,
    {
        let c = m[i];
        if '0' <= c && c <= '9' {
            seen_digit = true;
        } else if c == '.' {
            if seen_dot {
                return false;
            }
            seen_dot = true;
        } else {
            return false;
        }
        i = i + 1;
    }
    seen_digit
}

fn sign_len(s: &[char]) -> (k: usize)
    ensures
        k <= s@.len(),
        s@.subrange(k as int, s@.len() as int) == without_sign(s@),
{
    if s.len() > 0 && (s[0] == '+' || s[0] == '-') {
        1
    } else {
        assert(s@.subrange(0, s@.len() as int) =~= s@);
        0
    }
}

fn is_exponent_chars(x: &[char]) -> (r: bool)
    ensures
        r == is_exponent(x@),
{
    let k = sign_len(x);
    let n = x.len();
    if k == n {
        return false;
    }
    let mut i = k;
    while i < n
        invariant
            n == x@.len(),
            k <= i <= n,
            x@.subrange(k as int, n as int) == without_sign(x@),
            forall|j: int| k <= j < i ==> is_digit(x@[j]),
        decreases n - i,
    {
        if !('0' <= x[i] && x[i] <= '9') {
            assert(!is_digit(without_sign(x@)[i - k]));
            return false;
        }
        i = i + 1;
    }
    assert(all_digits(without_sign(x@)));
    true
}

/// Whether `str::parse::<f64>` would accept `s`.
pub fn is_float_text(s: &[char]) -> (r: bool)
    ensures
        r == float_text(s@),
{
    let n = s.len();
    let mut low: Vec<char> = Vec::new();
    let mut i: usize = 0;
    while i < n
        invariant
            n == s@.len(),
            i <= n,
            low@ == lowered(s@).subrange(0, i as int),
        decreases n - i,
    {
        low.push(ascii_lower_char(s[i]));
        i = i + 1;
        assert(low@ =~= lowered(s@).subrange(0, i as int));
    }
    assert(low@ =~= lowered(s@));
    let k = sign_len(&low);
    let b = copy_range(&low, k, n);
    let inf_arr = ['i', 'n', 'f'];
    let inf: &[char] = &inf_arr;
    let infinity_arr = ['i', 'n', 'f', 'i', 'n', 'i', 't', 'y'];
    let infinity: &[char] = &infinity_arr;
    let nan_arr = ['n', 'a', 'n'];
    let nan: &[char] = &nan_arr;
    assert(inf@ =~= seq!['i', 'n', 'f']);
    assert(infinity@ =~= seq!['i', 'n', 'f', 'i', 'n', 'i', 't', 'y']);
    assert(nan@ =~= seq!['n', 'a', 'n']);
    if chars_eq(&b, inf) || chars_eq(&b, infinity) || chars_eq(&b, nan) {
        return true;
    }
    let bn = b.len();
    match find_char(&b, 0, 'e') {
        None => is_mantissa_chars(&b),
        Some(e) => {
            proof {
                lemma_find_char_from_bounds(b@, 0, 'e');
            }
            let m = copy_range(&b, 0, e);
            let x = copy_range(&b, e + 1, bn);
            is_mantissa_chars(&m) && is_exponent_chars(&x)
        },
    }
}

// ---------------------------------------------------------------------------
// Errors
// ---------------------------------------------------------------------------

/// Why a command line was refused.
#[derive(Debug, Clone, PartialEq)]
pub enum ArgsError {
    MissingCommand,
    UnknownCommand(String),
    UnknownFlag { command: String, flag: String },
    MissingValueFor(String),
    InvalidNumber { flag: String, value: String },
    MissingPositional { command: String, name: String },
}

/// An [`ArgsError`] as a mathematical value.
pub enum ArgsFailure {
    MissingCommand,
    UnknownCommand(Seq<char>),
    UnknownFlag(Seq<char>, Seq<char>),
    MissingValueFor(Seq<char>),
    InvalidNumber(Seq<char>, Seq<char>),
    MissingPositional(Seq<char>, Seq<char>),
}

impl View for ArgsError {
    type V = ArgsFailure;

    open spec fn view(&self) -> ArgsFailure {
        match self {
            ArgsError::MissingCommand => ArgsFailure::MissingCommand,
            ArgsError::UnknownCommand(c) => ArgsFailure::UnknownCommand(c@),
            ArgsError::UnknownFlag { command, flag } => ArgsFailure::UnknownFlag(command@, flag@),
            ArgsError::MissingValueFor(f) => ArgsFailure::MissingValueFor(f@),
            ArgsError::InvalidNumber { flag, value } => ArgsFailure::InvalidNumber(flag@, value@),
            ArgsError::MissingPositional { command, name } => ArgsFailure::MissingPositional(
                command@,
                name@,
            ),
        }
    }
}

/// The message a user sees for `e`.
pub open spec fn failure_message(e: ArgsFailure) -> Seq<char> {
    match e {
        ArgsFailure::MissingCommand => "a command is required (build-core, once, loop, replay, recent, serve, mcp, self-test)"@,
        ArgsFailure::UnknownCommand(c) => "unknown command: "@ + c,
        ArgsFailure::UnknownFlag(command, flag) => "unknown flag "@ + flag + " for command "@ + command,
        ArgsFailure::MissingValueFor(flag) => flag + " requires a value"@,
        ArgsFailure::InvalidNumber(flag, value) => flag + " expects a number, got "@ + value,
        ArgsFailure::MissingPositional(command, name) => command + " requires a "@ + name
            + " argument"@,
    }
}

impl ArgsError {
    /// The message a user sees for this error.
    pub fn message(&self) -> (r: String)
        ensures
            r@ == failure_message(self@),
    {
        match self {
            ArgsError::MissingCommand => "a command is required (build-core, once, loop, replay, recent, serve, mcp, self-test)".to_owned(),
            ArgsError::UnknownCommand(c) => concat("unknown command: ", c.as_str()),
            ArgsError::UnknownFlag { command, flag } => {
                let a = concat("unknown flag ", flag.as_str());
                let b = concat(a.as_str(), " for command ");
                concat(b.as_str(), command.as_str())
            },
            ArgsError::MissingValueFor(flag) => concat(flag.as_str(), " requires a value"),
            ArgsError::InvalidNumber { flag, value } => {
                let a = concat(flag.as_str(), " expects a number, got ");
                concat(a.as_str(), value.as_str())
            },
            ArgsError::MissingPositional { command, name } => {
                let a = concat(command.as_str(), " requires a ");
                let b = concat(a.as_str(), name.as_str());
                concat(b.as_str(), " argument")
            },
        }
    }
}

// ---------------------------------------------------------------------------
// Flags
// ---------------------------------------------------------------------------

/// The commands that take flags.
#[derive(Clone, Copy, PartialEq, Eq, Structural)]
pub enum FlagCommand {
    Once,
    Loop,
    Replay,
    Recent,
    SelfTest,
}

/// The command's name, as typed.
pub open spec fn command_word(kind: FlagCommand) -> Seq<char> {
    match kind {
        FlagCommand::Once => "once"@,
        FlagCommand::Loop => "loop"@,
        FlagCommand::Replay => "replay"@,
        FlagCommand::Recent => "recent"@,
        FlagCommand::SelfTest => "self-test"@,
    }
}

fn command_word_string(kind: FlagCommand) -> (r: String)
    ensures
        r@ == command_word(kind),
{
    match kind {
        FlagCommand::Once => "once".to_owned(),
        FlagCommand::Loop => "loop".to_owned(),
        FlagCommand::Replay => "replay".to_owned(),
        FlagCommand::Recent => "recent".to_owned(),
        FlagCommand::SelfTest => "self-test".to_owned(),
    }
}

/// What the flags seen so far have set, as a mathematical value.
pub struct FlagStateView {
    pub symbol: Seq<char>,
    pub strike: Option<Seq<char>>,
    pub vol: Option<Seq<char>>,
    pub days: Option<Seq<char>>,
    pub current_shares: Option<Seq<char>>,
    pub contracts: Option<i64>,
    pub interval: Seq<char>,
    pub limit: i64,
    pub recent_symbol: Option<Seq<char>>,
}

/// What the flags seen so far have set.
pub struct FlagState {
    pub symbol: String,
    pub strike: Option<String>,
    pub vol: Option<String>,
    pub days: Option<String>,
    pub current_shares: Option<String>,
    pub contracts: Option<i64>,
    pub interval: String,
    pub limit: i64,
    pub recent_symbol: Option<String>,
}

/// The characters of an optional string.
pub open spec fn opt_chars(o: Option<String>) -> Option<Seq<char>> {
    match o {
        Some(s) => Some(s@),
        None => None,
    }
}

impl View for FlagState {
    type V = FlagStateView;

    open spec fn view(&self) -> FlagStateView {
        FlagStateView {
            symbol: self.symbol@,
            strike: opt_chars(self.strike),
            vol: opt_chars(self.vol),
            days: opt_chars(self.days),
            current_shares: opt_chars(self.current_shares),
            contracts: self.contracts,
            interval: self.interval@,
            limit: self.limit,
            recent_symbol: opt_chars(self.recent_symbol),
        }
    }
}

/// Before any flag: symbol `SPY`, no contract overrides, a 15 second
/// interval, a limit of 20 and no symbol filter.
pub open spec fn initial_flags() -> FlagStateView {
    FlagStateView {
        symbol: "SPY"@,
        strike: None,
        vol: None,
        days: None,
        current_shares: None,
        contracts: None,
        interval: "15"@,
        limit: 20,
        recent_symbol: None,
    }
}

fn initial_flag_state() -> (r: FlagState)
    ensures
        r@ == initial_flags(),
{
    FlagState {
        symbol: "SPY".to_owned(),
        strike: None,
        vol: None,
        days: None,
        current_shares: None,
        contracts: None,
        interval: "15".to_owned(),
        limit: 20,
        recent_symbol: None,
    }
}

/// A decimal-number flag: the value when `str::parse::<f64>` accepts it,
/// else an invalid-number error naming the flag.
pub open spec fn decimal_flag(flag: Seq<char>, value: Seq<char>) -> Result<Seq<char>, ArgsFailure> {
    if float_text(value) {
        Ok(value)
    } else {
        Err(ArgsFailure::InvalidNumber(flag, value))
    }
}

/// An integer flag: the value when `str::parse::<i64>` accepts it, else an
/// invalid-number error naming the flag.
pub open spec fn integer_flag(flag: Seq<char>, value: Seq<char>) -> Result<i64, ArgsFailure> {
    match parse_i64_spec(value) {
        Some(v) => Ok(v as i64),
        None => Err(ArgsFailure::InvalidNumber(flag, value)),
    }
}

/// Whether the command takes the contract overrides (`--strike`, `--vol`,
/// `--days`, `--current-shares`, `--contracts`).
pub open spec fn takes_contract(kind: FlagCommand) -> bool {
    kind == FlagCommand::Once || kind == FlagCommand::Loop
}

/// What the flag `--name value` does for the command: the new state,
/// `None` when the command has no such flag, or the error its value gives.
pub open spec fn handle_flag(kind: FlagCommand, st: FlagStateView, name: Seq<char>, value: Seq<char>) -> Result<Option<FlagStateView>, ArgsFailure> {
    if name == "symbol"@ && (takes_contract(kind) || kind == FlagCommand::SelfTest) {
        Ok(Some(FlagStateView { symbol: value, ..st }))
    } else if name == "symbol"@ && kind == FlagCommand::Recent {
        Ok(Some(FlagStateView { recent_symbol: if value.len() == 0 { None } else { Some(unicode_uppercase(value)) }, ..st }))
    } else if takes_contract(kind) && name == "strike"@ {
        match decimal_flag("--strike"@, value) {
            Ok(v) => Ok(Some(FlagStateView { strike: Some(v), ..st })),
            Err(e) => Err(e),
        }
    } else if takes_contract(kind) && name == "vol"@ {
        match decimal_flag("--vol"@, value) {
            Ok(v) => Ok(Some(FlagStateView { vol: Some(v), ..st })),
            Err(e) => Err(e),
        }
    } else if takes_contract(kind) && name == "days"@ {
        match decimal_flag("--days"@, value) {
            Ok(v) => Ok(Some(FlagStateView { days: Some(v), ..st })),
            Err(e) => Err(e),
        }
    } else if takes_contract(kind) && name == "current-shares"@ {
        match decimal_flag("--current-shares"@, value) {
            Ok(v) => Ok(Some(FlagStateView { current_shares: Some(v), ..st })),
            Err(e) => Err(e),
        }
    } else if takes_contract(kind) && name == "contracts"@ {
        match integer_flag("--contracts"@, value) {
            Ok(v) => Ok(Some(FlagStateView { contracts: Some(v), ..st })),
            Err(e) => Err(e),
        }
    } else if kind == FlagCommand::Loop && name == "interval"@ {
        match decimal_flag("--interval"@, value) {
            Ok(v) => Ok(Some(FlagStateView { interval: v, ..st })),
            Err(e) => Err(e),
        }
    } else if kind == FlagCommand::Recent && name == "limit"@ {
        match integer_flag("--limit"@, value) {
            Ok(v) => Ok(Some(FlagStateView { limit: v, ..st })),
            Err(e) => Err(e),
        }
    } else {
        Ok(None)
    }
}

fn check_decimal(flag: &str, value: &[char]) -> (r: Result<String, ArgsError>)
    ensures
        match decimal_flag(flag@, value@) {
            Ok(v) => r matches Ok(s) && s@ == v,
            Err(e) => r matches Err(x) && x@ == e,
        },
{
    if is_float_text(value) {
        Ok(string_of(value))
    } else {
        Err(ArgsError::InvalidNumber { flag: flag.to_owned(), value: string_of(value) })
    }
}

fn check_integer(flag: &str, value: &[char]) -> (r: Result<i64, ArgsError>)
    ensures
        match integer_flag(flag@, value@) {
            Ok(v) => r matches Ok(n) && n == v,
            Err(e) => r matches Err(x) && x@ == e,
        },
{
    match parse_i64_chars(value) {
        Some(v) => Ok(v),
        None => Err(ArgsError::InvalidNumber { flag: flag.to_owned(), value: string_of(value) }),
    }
}

fn apply_flag(kind: FlagCommand, st: FlagState, name: &[char], value: &[char]) -> (r: Result<Option<FlagState>, ArgsError>)
    ensures
        match handle_flag(kind, st@, name@, value@) {
            Ok(Some(s)) => r matches Ok(Some(x)) && x@ == s,
            Ok(None) => r matches Ok(None),
            Err(e) => r matches Err(x) && x@ == e,
        },
{
    let contract = match kind {
        FlagCommand::Once | FlagCommand::Loop => true,
        _ => false,
    };
    let mut s = st;
    if chars_eq(name, &chars_of("symbol")) {
        match kind {
            FlagCommand::Recent => {
                s.recent_symbol = if value.len() == 0 {
                    None
                } else {
                    let v = string_of(value);
                    Some(to_uppercase(v.as_str()))
                };
                return Ok(Some(s));
            },
            FlagCommand::Replay => {
                return Ok(None);
            },
            _ => {
                s.symbol = string_of(value);
                return Ok(Some(s));
            },
        }
    }
    if contract && chars_eq(name, &chars_of("strike")) {
        s.strike = Some(check_decimal("--strike", value)?);
        return Ok(Some(s));
    }
    if contract && chars_eq(name, &chars_of("vol")) {
        s.vol = Some(check_decimal("--vol", value)?);
        return Ok(Some(s));
    }
    if contract && chars_eq(name, &chars_of("days")) {
        s.days = Some(check_decimal("--days", value)?);
        return Ok(Some(s));
    }
    if contract && chars_eq(name, &chars_of("current-shares")) {
        s.current_shares = Some(check_decimal("--current-shares", value)?);
        return Ok(Some(s));
    }
    if contract && chars_eq(name, &chars_of("contracts")) {
        s.contracts = Some(check_integer("--contracts", value)?);
        return Ok(Some(s));
    }
    if kind == FlagCommand::Loop && chars_eq(name, &chars_of("interval")) {
        s.interval = check_decimal("--interval", value)?;
        return Ok(Some(s));
    }
    if kind == FlagCommand::Recent && chars_eq(name, &chars_of("limit")) {
        s.limit = check_integer("--limit", value)?;
        return Ok(Some(s));
    }
    Ok(None)
}

/// `--name`.
pub open spec fn dashed(name: Seq<char>) -> Seq<char> {
    seq!['-', '-'] + name
}

fn dashed_string(name: &[char]) -> (r: String)
    ensures
        r@ == dashed(name@),
{
    let mut v: Vec<char> = Vec::new();
    v.push('-');
    v.push('-');
    let mut i: usize = 0;
    while i < name.len()
        invariant
            i <= name@.len(),
            v@ == seq!['-', '-'] + name@.subrange(0, i as int),
        decreases name@.len() - i,
    {
        v.push(name[i]);
        i = i + 1;
        assert(v@ =~= seq!['-', '-'] + name@.subrange(0, i as int));
    }
    assert(name@.subrange(0, name@.len() as int) =~= name@);
    string_of(&v)
}

/// The characters of each token.
pub open spec fn token_views(tokens: Seq<String>) -> Seq<Seq<char>> {
    tokens.map_values(|t: String| t@)
}

/// The flags and positional arguments of `tokens[i..]`, read in order from
/// the state `st` and the positionals `pos` seen so far. A token starting
/// with `--` is a flag: `--name=value` carries its value (split at the
/// first `=`), and `--name` takes the next token as its value. Any other
/// token is positional. The first flag that the command refuses, or whose
/// value is invalid, ends the scan with an error.
pub open spec fn run_tokens(
    kind: FlagCommand,
    tokens: Seq<Seq<char>>,
    i: int,
    st: FlagStateView,
    pos: Seq<Seq<char>>,
) -> Result<(FlagStateView, Seq<Seq<char>>), ArgsFailure>
    decreases tokens.len() - i,
{
    if i < 0 || i >= tokens.len() {
        Ok((st, pos))
    } else {
        let t = tokens[i];
        if occurs_at(t, 0, seq!['-', '-']) {
            let rest = t.subrange(2, t.len() as int);
            let eq = find_char_from(rest, 0, '=');
            if eq is None && i + 1 >= tokens.len() {
                Err(ArgsFailure::MissingValueFor(dashed(rest)))
            } else {
                let name = match eq {
                    Some(k) => rest.subrange(0, k),
                    None => rest,
                };
                let value = match eq {
                    Some(k) => rest.subrange(k + 1, rest.len() as int),
                    None => tokens[i + 1],
                };
                let next = if eq is None { i + 2 } else { i + 1 };
                match handle_flag(kind, st, name, value) {
                    Err(e) => Err(e),
                    Ok(None) => Err(ArgsFailure::UnknownFlag(command_word(kind), dashed(name))),
                    Ok(Some(s2)) => run_tokens(kind, tokens, next, s2, pos),
                }
            }
        } else {
            run_tokens(kind, tokens, i + 1, st, pos.push(t))
        }
    }
}

fn run_flags(kind: FlagCommand, tokens: &[String], st: FlagState) -> (r: Result<(FlagState, Vec<String>), ArgsError>)
    ensures
        match run_tokens(kind, token_views(tokens@), 0, st@, Seq::empty()) {
            Ok((s, pos)) => r matches Ok((x, p)) && x@ == s && token_views(p@) == pos,
            Err(e) => r matches Err(x) && x@ == e,
        },
{
    let ghost tv = token_views(tokens@);
    let ghost st0 = st@;
    let n = tokens.len();
    let dd_arr = ['-', '-'];
    let dd: &[char] = &dd_arr;
    assert(dd@ =~= seq!['-', '-']);
    let mut cur = st;
    let mut pos: Vec<String> = Vec::new();
    let mut i: usize = 0;
    assert(token_views(pos@) =~= Seq::<Seq<char>>::empty());
    while i < n
        invariant
            n == tokens@.len(),
            tv == token_views(tokens@),
            st0 == st@,
            dd@ == seq!['-', '-'],
            i <= n,
            run_tokens(kind, tv, 0, st0, Seq::empty()) == run_tokens(kind, tv, i as int, cur@, token_views(pos@)),
        decreases n - i,
    {
        let t = chars_of(tokens[i].as_str());
        assert(t@ == tv[i as int]);
        if starts_at(&t, 0, dd) {
            let rest = copy_range(&t, 2, t.len());
            let eq = find_char(&rest, 0, '=');
            proof {
                lemma_find_char_from_bounds(rest@, 0, '=');
            }
            let name: Vec<char>;
            let value: Vec<char>;
            let next: usize;
            match eq {
                Some(k) => {
                    name = copy_range(&rest, 0, k);
                    value = copy_range(&rest, k + 1, rest.len());
                    next = i + 1;
                },
                None => {
                    if i + 1 >= n {
                        return Err(ArgsError::MissingValueFor(dashed_string(&rest)));
                    }
                    name = rest;
                    value = chars_of(tokens[i + 1].as_str());
                    assert(value@ == tv[i + 1]);
                    next = i + 2;
                },
            }
            match apply_flag(kind, cur, &name, &value) {
                Err(e) => {
                    return Err(e);
                },
                Ok(None) => {
                    return Err(ArgsError::UnknownFlag { command: command_word_string(kind), flag: dashed_string(&name) });
                },
                Ok(Some(s2)) => {
                    cur = s2;
                    i = next;
                },
            }
        } else {
            let ghost before = token_views(pos@);
            pos.push(tokens[i].clone());
            assert(token_views(pos@) =~= before.push(tv[i as int]));
            i = i + 1;
        }
    }
    Ok((cur, pos))
}

// ---------------------------------------------------------------------------
// Commands
// ---------------------------------------------------------------------------

/// Per-run overrides of the configured contract. The decimal ones hold
/// text that `str::parse::<f64>` accepts.
#[derive(Debug, Clone, PartialEq)]
pub struct ContractOverrideArgs {
    pub strike: Option<String>,
    pub vol: Option<String>,
    pub days: Option<String>,
    pub current_shares: Option<String>,
    pub contracts: Option<i64>,
}

/// [`ContractOverrideArgs`] as a mathematical value.
pub struct OverridesView {
    pub strike: Option<Seq<char>>,
    pub vol: Option<Seq<char>>,
    pub days: Option<Seq<char>>,
    pub current_shares: Option<Seq<char>>,
    pub contracts: Option<i64>,
}

impl View for ContractOverrideArgs {
    type V = OverridesView;

    open spec fn view(&self) -> OverridesView {
        OverridesView {
            strike: opt_chars(self.strike),
            vol: opt_chars(self.vol),
            days: opt_chars(self.days),
            current_shares: opt_chars(self.current_shares),
            contracts: self.contracts,
        }
    }
}

impl Default for ContractOverrideArgs {
    fn default() -> (r: Self)
        ensures
            r.strike is None,
            r.vol is None,
            r.days is None,
            r.current_shares is None,
            r.contracts is None,
    {
        ContractOverrideArgs { strike: None, vol: None, days: None, current_shares: None, contracts: None }
    }
}

/// A CLI command with its arguments.
#[derive(Debug, Clone, PartialEq)]
pub enum Command {
    BuildCore,
    Once { symbol: String, overrides: ContractOverrideArgs },
    /// `interval` is the number of seconds between runs, as text that
    /// `str::parse::<f64>` accepts.
    Loop { symbol: String, overrides: ContractOverrideArgs, interval: String },
    Replay { decision_id: String },
    Recent { limit: i64, symbol: Option<String> },
    SelfTest { symbol: String },
    Serve,
    Mcp,
}

/// A [`Command`] as a mathematical value.
pub enum CommandView {
    BuildCore,
    Once { symbol: Seq<char>, overrides: OverridesView },
    Loop { symbol: Seq<char>, overrides: OverridesView, interval: Seq<char> },
    Replay { decision_id: Seq<char> },
    Recent { limit: i64, symbol: Option<Seq<char>> },
    SelfTest { symbol: Seq<char> },
    Serve,
    Mcp,
}

impl View for Command {
    type V = CommandView;

    open spec fn view(&self) -> CommandView {
        match self {
            Command::BuildCore => CommandView::BuildCore,
            Command::Once { symbol, overrides } => CommandView::Once { symbol: symbol@, overrides: overrides@ },
            Command::Loop { symbol, overrides, interval } => CommandView::Loop {
                symbol: symbol@,
                overrides: overrides@,
                interval: interval@,
            },
            Command::Replay { decision_id } => CommandView::Replay { decision_id: decision_id@ },
            Command::Recent { limit, symbol } => CommandView::Recent { limit: *limit, symbol: opt_chars(*symbol) },
            Command::SelfTest { symbol } => CommandView::SelfTest { symbol: symbol@ },
            Command::Serve => CommandView::Serve,
            Command::Mcp => CommandView::Mcp,
        }
    }
}

/// A parsed command line: the config path, if one was given, and the
/// command.
#[derive(Debug, Clone, PartialEq)]
pub struct ParsedArgs {
    pub config: Option<String>,
    pub command: Command,
}

/// [`ParsedArgs`] as a mathematical value.
pub struct ParsedView {
    pub config: Option<Seq<char>>,
    pub command: CommandView,
}

impl View for ParsedArgs {
    type V = ParsedView;

    open spec fn view(&self) -> ParsedView {
        ParsedView { config: opt_chars(self.config), command: self.command@ }
    }
}

/// The contract overrides that the flags set.
pub open spec fn overrides_of(st: FlagStateView) -> OverridesView {
    OverridesView {
        strike: st.strike,
        vol: st.vol,
        days: st.days,
        current_shares: st.current_shares,
        contracts: st.contracts,
    }
}

/// The command `name` with the arguments `tail`.
pub open spec fn command_of(name: Seq<char>, tail: Seq<Seq<char>>) -> Result<CommandView, ArgsFailure> {
    if name == "build-core"@ {
        Ok(CommandView::BuildCore)
    } else if name == "once"@ {
        match run_tokens(FlagCommand::Once, tail, 0, initial_flags(), Seq::empty()) {
            Ok((st, _)) => Ok(CommandView::Once { symbol: unicode_uppercase(st.symbol), overrides: overrides_of(st) }),
            Err(e) => Err(e),
        }
    } else if name == "loop"@ {
        match run_tokens(FlagCommand::Loop, tail, 0, initial_flags(), Seq::empty()) {
            Ok((st, _)) => Ok(CommandView::Loop {
                symbol: unicode_uppercase(st.symbol),
                overrides: overrides_of(st),
                interval: st.interval,
            }),
            Err(e) => Err(e),
        }
    } else if name == "replay"@ {
        match run_tokens(FlagCommand::Replay, tail, 0, initial_flags(), Seq::empty()) {
            Ok((_, pos)) => if pos.len() == 0 {
                Err(ArgsFailure::MissingPositional("replay"@, "decision_id"@))
            } else {
                Ok(CommandView::Replay { decision_id: pos[0] })
            },
            Err(e) => Err(e),
        }
    } else if name == "recent"@ {
        match run_tokens(FlagCommand::Recent, tail, 0, initial_flags(), Seq::empty()) {
            Ok((st, _)) => Ok(CommandView::Recent { limit: st.limit, symbol: st.recent_symbol }),
            Err(e) => Err(e),
        }
    } else if name == "self-test"@ {
        match run_tokens(FlagCommand::SelfTest, tail, 0, initial_flags(), Seq::empty()) {
            Ok((st, _)) => Ok(CommandView::SelfTest { symbol: unicode_uppercase(st.symbol) }),
            Err(e) => Err(e),
        }
    } else if name == "serve"@ {
        Ok(CommandView::Serve)
    } else if name == "mcp"@ {
        Ok(CommandView::Mcp)
    } else {
        Err(ArgsFailure::UnknownCommand(name))
    }
}

/// Takes the `--config path` and `--config=path` options out of
/// `raw[i..]`, wherever they stand; the last one wins. `rest` collects the
/// other tokens in order.
pub open spec fn config_scan(raw: Seq<Seq<char>>, i: int, config: Option<Seq<char>>, rest: Seq<Seq<char>>) -> Result<(Option<Seq<char>>, Seq<Seq<char>>), ArgsFailure>
    decreases raw.len() - i,
{
    if i < 0 || i >= raw.len() {
        Ok((config, rest))
    } else if raw[i] == "--config"@ {
        if i + 1 < raw.len() {
            config_scan(raw, i + 2, Some(raw[i + 1]), rest)
        } else {
            Err(ArgsFailure::MissingValueFor("--config"@))
        }
    } else if occurs_at(raw[i], 0, "--config="@) {
        config_scan(raw, i + 1, Some(raw[i].subrange("--config="@.len() as int, raw[i].len() as int)), rest)
    } else {
        config_scan(raw, i + 1, config, rest.push(raw[i]))
    }
}

/// What [`parse_args`] gives for the tokens `raw`.
pub open spec fn parsed_args(raw: Seq<Seq<char>>) -> Result<ParsedView, ArgsFailure> {
    match config_scan(raw, 0, None, Seq::empty()) {
        Err(e) => Err(e),
        Ok((config, rest)) => if rest.len() == 0 {
            Err(ArgsFailure::MissingCommand)
        } else {
            match command_of(rest[0], rest.subrange(1, rest.len() as int)) {
                Ok(c) => Ok(ParsedView { config, command: c }),
                Err(e) => Err(e),
            }
        },
    }
}

fn overrides_from(st: &FlagState) -> (r: ContractOverrideArgs)
    ensures
        r@ == overrides_of(st@),
{
    ContractOverrideArgs {
        strike: st.strike.clone(),
        vol: st.vol.clone(),
        days: st.days.clone(),
        current_shares: st.current_shares.clone(),
        contracts: st.contracts,
    }
}

fn upper_string(s: &String) -> (r: String)
    ensures
        r@ == unicode_uppercase(s@),
{
    to_uppercase(s.as_str())
}

fn command_from(name: &String, tail: &[String]) -> (r: Result<Command, ArgsError>)
    ensures
        match command_of(name@, token_views(tail@)) {
            Ok(c) => r matches Ok(x) && x@ == c,
            Err(e) => r matches Err(x) && x@ == e,
        },
{
    let nm = chars_of(name.as_str());
    if chars_eq(&nm, &chars_of("build-core")) {
        return Ok(Command::BuildCore);
    }
    if chars_eq(&nm, &chars_of("once")) {
        let (st, _) = run_flags(FlagCommand::Once, tail, initial_flag_state())?;
        return Ok(Command::Once { symbol: upper_string(&st.symbol), overrides: overrides_from(&st) });
    }
    if chars_eq(&nm, &chars_of("loop")) {
        let (st, _) = run_flags(FlagCommand::Loop, tail, initial_flag_state())?;
        let overrides = overrides_from(&st);
        return Ok(Command::Loop { symbol: upper_string(&st.symbol), overrides, interval: st.interval });
    }
    if chars_eq(&nm, &chars_of("replay")) {
        let (_, pos) = run_flags(FlagCommand::Replay, tail, initial_flag_state())?;
        if pos.len() == 0 {
            return Err(ArgsError::MissingPositional { command: "replay".to_owned(), name: "decision_id".to_owned() });
        }
        return Ok(Command::Replay { decision_id: pos[0].clone() });
    }
    if chars_eq(&nm, &chars_of("recent")) {
        let (st, _) = run_flags(FlagCommand::Recent, tail, initial_flag_state())?;
        return Ok(Command::Recent { limit: st.limit, symbol: st.recent_symbol });
    }
    if chars_eq(&nm, &chars_of("self-test")) {
        let (st, _) = run_flags(FlagCommand::SelfTest, tail, initial_flag_state())?;
        return Ok(Command::SelfTest { symbol: upper_string(&st.symbol) });
    }
    if chars_eq(&nm, &chars_of("serve")) {
        return Ok(Command::Serve);
    }
    if chars_eq(&nm, &chars_of("mcp")) {
        return Ok(Command::Mcp);
    }
    Err(ArgsError::UnknownCommand(name.clone()))
}

/// Parses a command line (without the program name): `--config` options
/// are taken out first, wherever they stand; the first remaining token is
/// the command and the rest are its arguments.
pub fn parse_args(raw: &[String]) -> (r: Result<ParsedArgs, ArgsError>)
    ensures
        match parsed_args(token_views(raw@)) {
            Ok(p) => r matches Ok(x) && x@ == p,
            Err(e) => r matches Err(x) && x@ == e,
        },
{
    let ghost tv = token_views(raw@);
    let n = raw.len();
    let config_word = chars_of("--config");
    let config_prefix = chars_of("--config=");
    let mut config: Option<String> = None;
    let mut rest: Vec<String> = Vec::new();
    let mut i: usize = 0;
    assert(token_views(rest@) =~= Seq::<Seq<char>>::empty());
    while i < n
        invariant
            n == raw@.len(),
            tv == token_views(raw@),
            config_word@ == "--config"@,
            config_prefix@ == "--config="@,
            i <= n,
            config_scan(tv, 0, None, Seq::empty()) == config_scan(tv, i as int, opt_chars(config), token_views(rest@)),
        decreases n - i,
    {
        let t = chars_of(raw[i].as_str());
        assert(t@ == tv[i as int]);
        if chars_eq(&t, &config_word) {
            if i + 1 >= n {
                return Err(ArgsError::MissingValueFor("--config".to_owned()));
            }
            config = Some(raw[i + 1].clone());
            i = i + 2;
        } else if starts_at(&t, 0, &config_prefix) {
            let v = copy_range(&t, config_prefix.len(), t.len());
            config = Some(string_of(&v));
            i = i + 1;
        } else {
            let ghost before = token_views(rest@);
            rest.push(raw[i].clone());
            assert(token_views(rest@) =~= before.push(tv[i as int]));
            i = i + 1;
        }
    }
    if rest.len() == 0 {
        return Err(ArgsError::MissingCommand);
    }
    let tail = rest.split_at(1).1;
    assert(token_views(tail@) =~= token_views(rest@).subrange(1, rest@.len() as int));
    let command = command_from(&rest[0], tail)?;
    Ok(ParsedArgs { config, command })
}

proof fn lemma_run_tokens_positionals(kind: FlagCommand, tokens: Seq<Seq<char>>, i: int, st: FlagStateView, pos: Seq<Seq<char>>)
    requires
        forall|j: int| 0 <= j < pos.len() ==> !occurs_at(#[trigger] pos[j], 0, seq!['-', '-']),
    ensures
        run_tokens(kind, tokens, i, st, pos) matches Ok((_, out)) ==> forall|j: int|
            0 <= j < out.len() ==> !occurs_at(#[trigger] out[j], 0, seq!['-', '-']),
    decreases tokens.len() - i,
{
    if i < 0 || i >= tokens.len() {
    } else {
        let t = tokens[i];
        if occurs_at(t, 0, seq!['-', '-']) {
            let rest = t.subrange(2, t.len() as int);
            let eq = find_char_from(rest, 0, '=');
            if !(eq is None && i + 1 >= tokens.len()) {
                let name = match eq {
                    Some(k) => rest.subrange(0, k),
                    None => rest,
                };
                let value = match eq {
                    Some(k) => rest.subrange(k + 1, rest.len() as int),
                    None => tokens[i + 1],
                };
                let next = if eq is None { i + 2 } else { i + 1 };
                if let Ok(Some(s2)) = handle_flag(kind, st, name, value) {
                    lemma_run_tokens_positionals(kind, tokens, next, s2, pos);
                }
            }
        } else {
            let p2 = pos.push(t);
            assert forall|j: int| 0 <= j < p2.len() implies !occurs_at(#[trigger] p2[j], 0, seq!['-', '-']) by {
                if j < pos.len() {
                    assert(p2[j] == pos[j]);
                }
            }
            lemma_run_tokens_positionals(kind, tokens, i + 1, st, p2);
        }
    }
}

/// No token starting with `--` is ever taken as a positional argument:
/// when a command's flags are read without error, every positional it
/// gets is a token that does not start with `--`.
pub proof fn law_flags_never_become_positionals(kind: FlagCommand, tokens: Seq<Seq<char>>)
    ensures
        run_tokens(kind, tokens, 0, initial_flags(), Seq::empty()) matches Ok((_, pos)) ==> forall|j: int|
            0 <= j < pos.len() ==> !occurs_at(#[trigger] pos[j], 0, seq!['-', '-']),
{
    lemma_run_tokens_positionals(kind, tokens, 0, initial_flags(), Seq::empty());
}

/// With no `--config` among `raw[i..]`, the configuration scan keeps every
/// token, in order, and sets no configuration path.
proof fn lemma_scan_without_config(raw: Seq<Seq<char>>, i: int, rest: Seq<Seq<char>>)
    requires
        0 <= i <= raw.len(),
        forall|j: int| i <= j < raw.len() ==> raw[j] != "--config"@ && !occurs_at(#[trigger] raw[j], 0, "--config="@),
    ensures
        config_scan(raw, i, None, rest) == Ok::<(Option<Seq<char>>, Seq<Seq<char>>), ArgsFailure>(
            (None, rest + raw.subrange(i, raw.len() as int)),
        ),
    decreases raw.len() - i,
{
    if i < raw.len() {
        assert(raw[i] != "--config"@ && !occurs_at(raw[i], 0, "--config="@));
        lemma_scan_without_config(raw, i + 1, rest.push(raw[i]));
        assert(rest.push(raw[i]) + raw.subrange(i + 1, raw.len() as int) =~= rest + raw.subrange(i, raw.len() as int));
    } else {
        assert(rest + raw.subrange(i, raw.len() as int) =~= rest);
    }
}

/// `--symbol s` sets the symbol of `once`, `loop` and `self-test` to `s`
/// uppercased, and leaves the rest as it was: no configuration path, and
/// for `loop` the 15 second interval (unless `s` is itself a `--config`
/// option, which the configuration scan takes first).
pub proof fn law_symbol_flag_sets_the_symbol(cmd: Seq<char>, s: Seq<char>)
    requires
        cmd == "once"@ || cmd == "loop"@ || cmd == "self-test"@,
        s != "--config"@,
        !occurs_at(s, 0, "--config="@),
    ensures
        parsed_args(seq![cmd, "--symbol"@, s]) matches Ok(p) && p.config is None && {
            &&& cmd == "once"@ ==> (p.command matches CommandView::Once { symbol, overrides } && symbol
                == unicode_uppercase(s) && overrides == overrides_of(initial_flags()))
            &&& cmd == "loop"@ ==> (p.command matches CommandView::Loop { symbol, overrides, interval } && symbol
                == unicode_uppercase(s) && overrides == overrides_of(initial_flags()) && interval == "15"@)
            &&& cmd == "self-test"@ ==> (p.command matches CommandView::SelfTest { symbol } && symbol
                == unicode_uppercase(s))
        },
{
    reveal_strlit("once");
    reveal_strlit("loop");
    reveal_strlit("self-test");
    reveal_strlit("--symbol");
    reveal_strlit("symbol");
    reveal_strlit("--config");
    reveal_strlit("--config=");
    reveal_strlit("build-core");
    reveal_strlit("replay");
    reveal_strlit("recent");
    let flag = "--symbol"@;
    let raw = seq![cmd, flag, s];
    assert(cmd[0] != '-');
    assert(raw[0] != "--config"@) by {
        assert("--config"@[0] == '-');
    }
    assert(!occurs_at(raw[0], 0, "--config="@)) by {
        if occurs_at(raw[0], 0, "--config="@) {
            assert(raw[0].subrange(0, 9)[0] == "--config="@[0]);
        }
    }
    assert(raw[1] != "--config"@) by {
        assert(flag[2] != "--config"@[2]);
    }
    assert(!occurs_at(raw[1], 0, "--config="@));
    assert(raw[2] != "--config"@ && !occurs_at(raw[2], 0, "--config="@));
    lemma_scan_without_config(raw, 0, Seq::empty());
    assert(Seq::<Seq<char>>::empty() + raw.subrange(0, 3) =~= raw);
    let tail = seq![flag, s];
    assert(raw.subrange(1, raw.len() as int) =~= tail);
    assert(occurs_at(flag, 0, seq!['-', '-']));
    let name = flag.subrange(2, flag.len() as int);
    assert(name =~= "symbol"@);
    lemma_find_char_from_bounds(name, 0, '=');
    assert(find_char_from(name, 0, '=') is None);
    let kind = if cmd == "once"@ {
        FlagCommand::Once
    } else if cmd == "loop"@ {
        FlagCommand::Loop
    } else {
        FlagCommand::SelfTest
    };
    let st2 = FlagStateView { symbol: s, ..initial_flags() };
    assert(handle_flag(kind, initial_flags(), name, s) == Ok::<Option<FlagStateView>, ArgsFailure>(Some(st2)));
    assert(run_tokens(kind, tail, 2, st2, Seq::empty()) == Ok::<(FlagStateView, Seq<Seq<char>>), ArgsFailure>(
        (st2, Seq::empty()),
    ));
    assert(run_tokens(kind, tail, 0, initial_flags(), Seq::empty()) == Ok::<
        (FlagStateView, Seq<Seq<char>>),
        ArgsFailure,
    >((st2, Seq::empty())));
}

} // verus!
