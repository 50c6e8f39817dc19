use logweb::classify::{LogClassifier, RulesError};
use logweb::level::{parse_level, LogLevel};

#[test]
fn parse_level_ignores_case() {
    assert_eq!(parse_level("INFO"), Some(LogLevel::Info));
    assert_eq!(parse_level("Warn"), Some(LogLevel::Warn));
    assert_eq!(parse_level("fatal"), Some(LogLevel::Fatal));
    assert_eq!(parse_level("unknown"), Some(LogLevel::Unknown));
    assert_eq!(parse_level("warning"), None);
}

#[test]
fn empty_classifier_says_unknown() {
    let c = LogClassifier::new();
    assert_eq!(c.classify("anything"), LogLevel::Unknown);
}

#[test]
fn first_matching_rule_wins() {
    let c = LogClassifier::from_str("error = ERROR|failed\r\n\n  warn=WARN\ninfo=.*\n").unwrap();
    assert_eq!(c.classify("request failed"), LogLevel::Error);
    assert_eq!(c.classify("WARN disk"), LogLevel::Warn);
    assert_eq!(c.classify("all good"), LogLevel::Info);
}

#[test]
fn rule_errors_name_the_line() {
    match LogClassifier::from_str("info=a\n\nno equals here") {
        Err(e @ RulesError::MissingEquals { line: 3 }) => {
            assert_eq!(e.message(), "line 3 is missing '='")
        }
        _ => panic!("expected a missing '=' error"),
    }
    match LogClassifier::from_str(" Loud = x") {
        Err(e @ RulesError::UnknownLevel { line: 1, .. }) => {
            assert_eq!(e.message(), "line 1 has unknown level 'Loud'")
        }
        _ => panic!("expected an unknown level error"),
    }
    match LogClassifier::from_str("debug =   ") {
        Err(e @ RulesError::EmptyRegex { line: 1 }) => {
            assert_eq!(e.message(), "line 1 has an empty regex")
        }
        _ => panic!("expected an empty regex error"),
    }
    match LogClassifier::from_str("trace=x\ndebug=(") {
        Err(e @ RulesError::InvalidRegex { line: 2, .. }) => {
            assert_eq!(e.message(), "line 2 has an invalid regex")
        }
        _ => panic!("expected an invalid regex error"),
    }
}

#[test]
fn invalid_regex_keeps_the_regex_library_explanation() {
    let expected = regex::Regex::new("(").unwrap_err().to_string();
    match LogClassifier::from_str("info=ok\nwarn = ( \n") {
        Err(RulesError::InvalidRegex { line, reason }) => {
            assert_eq!(line, 2);
            assert_eq!(reason, expected);
            assert!(!reason.is_empty());
        }
        _ => panic!("expected an invalid regex error"),
    }
}
