use minigrep::{Config, ConfigError};

#[test]
fn config_rejects_less_than_3_arguments() {
    let config = Config::new(&["foo".to_string()], false);
    assert!(!config.is_ok());
}

#[test]
fn config_accepts_3_arguments() {
    let config = Config::new(
        &[
            "executable".to_string(),
            "query".to_string(),
            "filename".to_string(),
        ],
        false,
    );
    assert!(config.is_ok());

    let config = config.unwrap();
    assert_eq!("query", config.query);
    assert_eq!("filename", config.filename);
}

#[test]
fn config_rejects_empty_and_two_arguments() {
    let none: [String; 0] = [];
    assert_eq!(
        Config::new(&none, false).unwrap_err(),
        ConfigError::InsufficientArguments
    );
    let two = ["executable".to_string(), "query".to_string()];
    assert_eq!(
        Config::new(&two, true).unwrap_err(),
        ConfigError::InsufficientArguments
    );
}

#[test]
fn config_error_message() {
    assert_eq!(
        ConfigError::InsufficientArguments.message(),
        "not enough arguments"
    );
}

#[test]
fn config_ignores_further_arguments() {
    let args = [
        "executable".to_string(),
        "needle".to_string(),
        "haystack.txt".to_string(),
        "extra".to_string(),
    ];
    let config = Config::new(&args, false).unwrap();
    assert_eq!(config.query, "needle");
    assert_eq!(config.filename, "haystack.txt");
    assert!(config.case_sensitive);
}

#[test]
fn config_case_insensitive_from_environment_flag() {
    let args = [
        "executable".to_string(),
        "query".to_string(),
        "filename".to_string(),
    ];
    assert!(!Config::new(&args, true).unwrap().case_sensitive);
    assert!(Config::new(&args, false).unwrap().case_sensitive);
}
