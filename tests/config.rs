use minigrep::{run_search, Config, ConfigError, NORMAL, RED};

fn args(list: &[&str]) -> Vec<String> {
    list.iter().map(|s| s.to_string()).collect()
}

#[test]
fn config_reads_query_and_file() {
    let c = Config::new(&args(&["prog", "duct", "poem.txt"]), false).unwrap();
    assert_eq!(c.query, "duct");
    assert_eq!(c.filename, "poem.txt");
    assert!(c.case_sensitive);
}

#[test]
fn config_environment_sets_default_mode() {
    let c = Config::new(&args(&["prog", "duct", "poem.txt"]), true).unwrap();
    assert!(!c.case_sensitive);
}

#[test]
fn config_flag_overrides_environment() {
    let c = Config::new(&args(&["prog", "q", "f", "--case_sensitive"]), true).unwrap();
    assert!(c.case_sensitive);
    let c = Config::new(&args(&["prog", "q", "f", "--case_insensitive"]), false).unwrap();
    assert!(!c.case_sensitive);
    let c = Config::new(&args(&["prog", "q", "f", "--other"]), false).unwrap();
    assert!(!c.case_sensitive);
}

#[test]
fn config_help_requests() {
    for list in [
        vec!["prog"],
        vec!["prog", "--help"],
        vec!["prog", "-h"],
        vec!["prog", "helpful", "f"],
        vec!["prog", "a-h", "f"],
    ] {
        assert!(matches!(
            Config::new(&args(&list), false),
            Err(ConfigError::HelpRequested)
        ));
    }
}

#[test]
fn config_missing_file_name() {
    assert!(matches!(
        Config::new(&args(&["prog", "duct"]), false),
        Err(ConfigError::MissingFileName)
    ));
}

#[test]
fn run_search_follows_mode() {
    let doc = "Rust:\nTrust me.";
    let exact = Config::new(&args(&["prog", "rust", "f"]), false).unwrap();
    assert_eq!(run_search(&exact, doc), vec![format!("T{}rust{} me.", RED, NORMAL)]);
    let folded = Config::new(&args(&["prog", "rust", "f", "--case_insensitive"]), false).unwrap();
    assert_eq!(
        run_search(&folded, doc),
        vec![format!("{}Rust{}:", RED, NORMAL), format!("T{}rust{} me.", RED, NORMAL)]
    );
}
