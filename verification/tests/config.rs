use exercises::arg::{parse_bool, Arg};
use exercises::config::{names_case_flag, Config, ConfigError};

fn args(items: &[&str]) -> Vec<String> {
    items.iter().map(|s| s.to_string()).collect()
}

#[test]
fn config_not_enough_args() {
    let args: Vec<String> = vec!["one".to_string(), "two".to_string()];
    if let Ok(_) = Config::from_args(&args, false) {
        panic!("wanted error");
    }
}

#[test]
fn lib_config_not_enough_args() {
    let args: Vec<String> = vec!["one".to_string(), "two".to_string()];
    if let Ok(_) = Config::from_args(&args, true) {
        panic!("wanted error");
    }
}

#[test]
fn config_enough_args() {
    let args: Vec<String> = vec!["exe".to_string(), "one".to_string(), "two".to_string()];
    if let Err(err) = Config::from_args(&args, false) {
        panic!("unexpected error: {}", err.message());
    }
}

#[test]
fn lib_config_enough_args() {
    let args: Vec<String> = vec!["exe".to_string(), "one".to_string(), "two".to_string()];
    if let Err(err) = Config::from_args(&args, true) {
        panic!("unexpected error: {}", err.message());
    }
}

#[test]
fn missing_query_and_missing_path() {
    assert_eq!(Config::from_args(&args(&[]), false), Err(ConfigError::MissingQuery));
    assert_eq!(Config::from_args(&args(&["exe"]), true), Err(ConfigError::MissingQuery));
    assert_eq!(Config::from_args(&args(&["exe", "q"]), false), Err(ConfigError::MissingPath));
    assert_eq!(
        Config::from_args(&args(&["exe", "--match-case"]), false),
        Err(ConfigError::MissingPath)
    );
}

#[test]
fn default_decides_without_a_case_flag() {
    for default in [false, true] {
        let got = Config::from_args(&args(&["exe", "needle", "hay.txt"]), default);
        assert_eq!(
            got,
            Ok(Config {
                query: "needle".to_string(),
                path: "hay.txt".to_string(),
                case_sensitive: default
            })
        );
        let got = Config::from_args(
            &args(&["exe", "needle", "hay.txt", "--verbose", "match", "case=false"]),
            default,
        );
        assert_eq!(got.map(|c| c.case_sensitive), Ok(default));
    }
}

#[test]
fn query_and_path_are_not_read_as_flags() {
    let got = Config::from_args(&args(&["exe", "--match-case=false", "--match-case=no"]), true);
    assert_eq!(
        got,
        Ok(Config {
            query: "--match-case=false".to_string(),
            path: "--match-case=no".to_string(),
            case_sensitive: true
        })
    );
}

#[test]
fn explicit_false_overrides_a_sensitive_default() {
    let got = Config::from_args(&args(&["exe", "q", "p", "--match-case=false"]), true);
    assert_eq!(got.map(|c| c.case_sensitive), Ok(false));
}

#[test]
fn explicit_true_overrides_an_insensitive_default() {
    let got = Config::from_args(&args(&["exe", "q", "p", "--match-case=true"]), false);
    assert_eq!(got.map(|c| c.case_sensitive), Ok(true));
}

#[test]
fn bare_flag_means_true_whatever_the_default() {
    for default in [false, true] {
        let got = Config::from_args(&args(&["exe", "q", "p", "--match-case"]), default);
        assert_eq!(got.map(|c| c.case_sensitive), Ok(true));
    }
}

#[test]
fn banana_is_no_truth_value() {
    for default in [false, true] {
        let got = Config::from_args(&args(&["exe", "q", "p", "--match-case=banana"]), default);
        assert_eq!(
            got,
            Err(ConfigError::InvalidBooleanFlag { flag_text: "--match-case=banana".to_string() })
        );
    }
}

#[test]
fn last_case_flag_wins() {
    let got = Config::from_args(
        &args(&["exe", "q", "p", "--match-case=false", "-x", "--match-case=true"]),
        false,
    );
    assert_eq!(got.map(|c| c.case_sensitive), Ok(true));
    let got = Config::from_args(
        &args(&["exe", "q", "p", "--match-case", "--match-case=false", "other"]),
        true,
    );
    assert_eq!(got.map(|c| c.case_sensitive), Ok(false));
}

#[test]
fn first_invalid_case_flag_is_named() {
    let got = Config::from_args(
        &args(&["exe", "q", "p", "--match-case=true", "--match-case=1", "--match-case=0"]),
        false,
    );
    assert_eq!(
        got,
        Err(ConfigError::InvalidBooleanFlag { flag_text: "--match-case=1".to_string() })
    );
    let got = Config::from_args(
        &args(&["exe", "q", "p", "--match-case=TRUE", "--match-case=false"]),
        false,
    );
    assert_eq!(
        got,
        Err(ConfigError::InvalidBooleanFlag { flag_text: "--match-case=TRUE".to_string() })
    );
}

#[test]
fn value_is_all_that_follows_the_first_equals_sign() {
    let got = Config::from_args(&args(&["exe", "q", "p", "--match-case=true=false"]), false);
    assert_eq!(
        got,
        Err(ConfigError::InvalidBooleanFlag { flag_text: "--match-case=true=false".to_string() })
    );
    let got = Config::from_args(&args(&["exe", "q", "p", "--match-case="]), false);
    assert_eq!(
        got,
        Err(ConfigError::InvalidBooleanFlag { flag_text: "--match-case=".to_string() })
    );
}

#[test]
fn case_flag_is_any_hyphened_argument_with_match_and_case() {
    assert!(names_case_flag("--match-case"));
    assert!(names_case_flag("--case-match=false"));
    assert!(names_case_flag("-casematch"));
    assert!(names_case_flag("rematch_briefcase-"));
    assert!(!names_case_flag("matchcase"));
    assert!(!names_case_flag("--match"));
    assert!(!names_case_flag("--case"));
    assert!(!names_case_flag("--Match-Case"));
    let got = Config::from_args(&args(&["exe", "q", "p", "x-casematch=true"]), false);
    assert_eq!(got.map(|c| c.case_sensitive), Ok(true));
}

#[test]
fn messages_name_what_was_expected() {
    assert_eq!(ConfigError::MissingQuery.message(), "no query provided");
    assert_eq!(ConfigError::MissingPath.message(), "no path provided");
    assert_eq!(
        ConfigError::InvalidBooleanFlag { flag_text: "--match-case=banana".to_string() }.message(),
        "argument --match-case=banana should be 'true' or 'false'"
    );
}

#[test]
fn get_string_reads_the_value() {
    assert_eq!("--some-flag=hello".to_string().get_string(), Ok("hello".to_string()));
    assert_eq!("--some-flag".to_string().get_string(), Ok("".to_string()));
    assert_eq!("--some-flag=".to_string().get_string(), Ok("".to_string()));
    assert_eq!("--some-flag=a=b".to_string().get_string(), Ok("a=b".to_string()));
    assert_eq!("=x".to_string().get_string(), Ok("x".to_string()));
}

#[test]
fn get_bool_reads_a_truth_value() {
    assert_eq!("--some-flag".to_string().get_bool(), Ok(true));
    assert_eq!("--some-flag=true".to_string().get_bool(), Ok(true));
    assert_eq!("--some-flag=false".to_string().get_bool(), Ok(false));
    assert_eq!(
        "--some-flag=not-a-boolean".to_string().get_bool(),
        Err("argument --some-flag=not-a-boolean should be 'true' or 'false'".to_string())
    );
}

#[test]
fn parse_bool_takes_two_spellings() {
    assert_eq!(parse_bool("true"), Some(true));
    assert_eq!(parse_bool("false"), Some(false));
    assert_eq!(parse_bool("True"), None);
    assert_eq!(parse_bool(" true"), None);
    assert_eq!(parse_bool(""), None);
    assert_eq!(parse_bool("1"), None);
}
