use smart_hedge::args::{is_float_text, parse_args, ArgsError, Command, ContractOverrideArgs};

fn args(strs: &[&str]) -> Vec<String> {
    strs.iter().map(|s| s.to_string()).collect()
}

fn number(text: &Option<String>) -> Option<f64> {
    text.as_ref().map(|t| t.parse::<f64>().unwrap())
}

#[test]
fn no_command_is_an_error() {
    assert_eq!(parse_args(&args(&[])), Err(ArgsError::MissingCommand));
}

#[test]
fn unknown_command_is_reported_by_name() {
    assert_eq!(parse_args(&args(&["bogus"])), Err(ArgsError::UnknownCommand("bogus".to_string())));
}

#[test]
fn build_core_takes_no_arguments() {
    let parsed = parse_args(&args(&["build-core"])).unwrap();
    assert_eq!(parsed.command, Command::BuildCore);
    assert_eq!(parsed.config, None);
}

#[test]
fn config_flag_before_the_command_is_recognized() {
    let parsed = parse_args(&args(&["--config", "my.json", "build-core"])).unwrap();
    assert_eq!(parsed.config, Some("my.json".to_string()));
}

#[test]
fn config_flag_with_equals_form_is_recognized() {
    let parsed = parse_args(&args(&["--config=my.json", "once"])).unwrap();
    assert_eq!(parsed.config, Some("my.json".to_string()));
}

#[test]
fn once_defaults_to_spy_with_no_overrides() {
    let parsed = parse_args(&args(&["once"])).unwrap();
    assert_eq!(parsed.command, Command::Once { symbol: "SPY".to_string(), overrides: ContractOverrideArgs::default() });
}

#[test]
fn once_symbol_is_uppercased() {
    let parsed = parse_args(&args(&["once", "--symbol", "qqq"])).unwrap();
    assert_eq!(parsed.command, Command::Once { symbol: "QQQ".to_string(), overrides: ContractOverrideArgs::default() });
}

#[test]
fn once_collects_all_overrides() {
    let parsed = parse_args(&args(&[
        "once", "--strike", "150", "--vol", "0.3", "--days", "10", "--current-shares", "-5", "--contracts", "2",
    ]))
    .unwrap();
    match parsed.command {
        Command::Once { symbol, overrides } => {
            assert_eq!(symbol, "SPY");
            assert_eq!(number(&overrides.strike), Some(150.0));
            assert_eq!(number(&overrides.vol), Some(0.3));
            assert_eq!(number(&overrides.days), Some(10.0));
            assert_eq!(number(&overrides.current_shares), Some(-5.0));
            assert_eq!(overrides.contracts, Some(2));
        }
        other => panic!("expected once, got {other:?}"),
    }
}

#[test]
fn once_rejects_a_non_numeric_strike() {
    let result = parse_args(&args(&["once", "--strike", "abc"]));
    assert_eq!(result, Err(ArgsError::InvalidNumber { flag: "--strike".to_string(), value: "abc".to_string() }));
}

#[test]
fn once_rejects_an_unknown_flag() {
    let result = parse_args(&args(&["once", "--bogus", "1"]));
    assert_eq!(result, Err(ArgsError::UnknownFlag { command: "once".to_string(), flag: "--bogus".to_string() }));
}

#[test]
fn loop_defaults_interval_to_fifteen_seconds() {
    let parsed = parse_args(&args(&["loop"])).unwrap();
    match parsed.command {
        Command::Loop { symbol, overrides, interval } => {
            assert_eq!(symbol, "SPY");
            assert_eq!(overrides, ContractOverrideArgs::default());
            assert_eq!(interval.parse::<f64>().unwrap(), 15.0);
        }
        other => panic!("expected loop, got {other:?}"),
    }
}

#[test]
fn loop_interval_can_be_overridden() {
    let parsed = parse_args(&args(&["loop", "--interval", "5"])).unwrap();
    match parsed.command {
        Command::Loop { symbol, overrides, interval } => {
            assert_eq!(symbol, "SPY");
            assert_eq!(overrides, ContractOverrideArgs::default());
            assert_eq!(interval.parse::<f64>().unwrap(), 5.0);
        }
        other => panic!("expected loop, got {other:?}"),
    }
}

#[test]
fn replay_requires_a_decision_id_positional() {
    let result = parse_args(&args(&["replay"]));
    assert_eq!(result, Err(ArgsError::MissingPositional { command: "replay".to_string(), name: "decision_id".to_string() }));
}

#[test]
fn replay_captures_the_decision_id() {
    let parsed = parse_args(&args(&["replay", "abc-123"])).unwrap();
    assert_eq!(parsed.command, Command::Replay { decision_id: "abc-123".to_string() });
}

#[test]
fn recent_defaults_to_limit_twenty_and_no_symbol_filter() {
    let parsed = parse_args(&args(&["recent"])).unwrap();
    assert_eq!(parsed.command, Command::Recent { limit: 20, symbol: None });
}

#[test]
fn recent_symbol_filter_is_uppercased() {
    let parsed = parse_args(&args(&["recent", "--symbol", "qqq", "--limit", "5"])).unwrap();
    assert_eq!(parsed.command, Command::Recent { limit: 5, symbol: Some("QQQ".to_string()) });
}

#[test]
fn recent_empty_symbol_is_no_filter_matching_python_or_none() {
    let parsed = parse_args(&args(&["recent", "--symbol", ""])).unwrap();
    assert_eq!(parsed.command, Command::Recent { limit: 20, symbol: None });
}

#[test]
fn self_test_defaults_to_spy() {
    let parsed = parse_args(&args(&["self-test"])).unwrap();
    assert_eq!(parsed.command, Command::SelfTest { symbol: "SPY".to_string() });
}

#[test]
fn serve_and_mcp_parse_but_are_handled_as_not_yet_ported_by_the_caller() {
    assert_eq!(parse_args(&args(&["serve"])).unwrap().command, Command::Serve);
    assert_eq!(parse_args(&args(&["mcp"])).unwrap().command, Command::Mcp);
}

#[test]
fn missing_value_for_a_flag_is_reported() {
    let result = parse_args(&args(&["once", "--strike"]));
    assert_eq!(result, Err(ArgsError::MissingValueFor("--strike".to_string())));
}

#[test]
fn a_config_flag_after_the_command_is_taken_out_too() {
    let parsed = parse_args(&args(&["recent", "--config", "a.json", "--limit", "3", "--config=b.json"])).unwrap();
    assert_eq!(parsed.config, Some("b.json".to_string()));
    assert_eq!(parsed.command, Command::Recent { limit: 3, symbol: None });
}

#[test]
fn a_config_flag_without_a_value_is_reported() {
    assert_eq!(parse_args(&args(&["once", "--config"])), Err(ArgsError::MissingValueFor("--config".to_string())));
}

#[test]
fn flags_with_an_equals_sign_carry_their_value() {
    let parsed = parse_args(&args(&["once", "--symbol=iwm", "--contracts=-3"])).unwrap();
    match parsed.command {
        Command::Once { symbol, overrides } => {
            assert_eq!(symbol, "IWM");
            assert_eq!(overrides.contracts, Some(-3));
        }
        other => panic!("expected once, got {other:?}"),
    }
}

#[test]
fn the_first_bad_flag_decides_the_error() {
    let result = parse_args(&args(&["once", "--strike", "x", "--bogus", "1"]));
    assert_eq!(result, Err(ArgsError::InvalidNumber { flag: "--strike".to_string(), value: "x".to_string() }));
    let result = parse_args(&args(&["once", "--bogus", "1", "--strike", "x"]));
    assert_eq!(result, Err(ArgsError::UnknownFlag { command: "once".to_string(), flag: "--bogus".to_string() }));
}

#[test]
fn replay_refuses_every_flag() {
    let result = parse_args(&args(&["replay", "--limit", "3", "abc"]));
    assert_eq!(result, Err(ArgsError::UnknownFlag { command: "replay".to_string(), flag: "--limit".to_string() }));
}

#[test]
fn an_integer_flag_out_of_range_is_invalid() {
    let result = parse_args(&args(&["recent", "--limit", "99999999999999999999"]));
    assert_eq!(
        result,
        Err(ArgsError::InvalidNumber { flag: "--limit".to_string(), value: "99999999999999999999".to_string() })
    );
}

#[test]
fn decimal_text_follows_the_float_grammar() {
    let accepted = ["150", "0.3", "-5", "+1.", ".5", "1e10", "1E-3", "inf", "-Infinity", "NaN", "2.5e+2"];
    for text in accepted {
        let chars: Vec<char> = text.chars().collect();
        assert!(is_float_text(&chars), "{text}");
        assert!(text.parse::<f64>().is_ok(), "{text}");
    }
    let refused = ["", ".", "e5", "1e", "1.2.3", "abc", " 1", "1_000", "--1", "0x10", "infinit"];
    for text in refused {
        let chars: Vec<char> = text.chars().collect();
        assert!(!is_float_text(&chars), "{text}");
        assert!(text.parse::<f64>().is_err(), "{text}");
    }
}

#[test]
fn error_messages_read_as_sentences() {
    assert_eq!(
        ArgsError::MissingCommand.message(),
        "a command is required (build-core, once, loop, replay, recent, serve, mcp, self-test)"
    );
    assert_eq!(ArgsError::UnknownCommand("x".to_string()).message(), "unknown command: x");
    assert_eq!(
        ArgsError::UnknownFlag { command: "once".to_string(), flag: "--x".to_string() }.message(),
        "unknown flag --x for command once"
    );
    assert_eq!(ArgsError::MissingValueFor("--strike".to_string()).message(), "--strike requires a value");
    assert_eq!(
        ArgsError::InvalidNumber { flag: "--vol".to_string(), value: "q".to_string() }.message(),
        "--vol expects a number, got q"
    );
    assert_eq!(
        ArgsError::MissingPositional { command: "replay".to_string(), name: "decision_id".to_string() }.message(),
        "replay requires a decision_id argument"
    );
}
