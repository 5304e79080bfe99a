use envdb::get;
use envdb::Content;
use envdb::EnvError;
use envdb::EnvFile;
use envdb::EnvPair;

fn test_env() -> EnvFile {
    EnvFile {
        path: "tests/.test-env".to_string(),
        content: Content::Complete(vec![
            "SOME_APP_KEY=app-key".to_string(),
            "SOME_APP_SECRET=app-secret".to_string(),
        ]),
    }
}

#[test]
fn test_get_successful() {
    let found = get(&test_env(), "SOME_APP_KEY");
    assert_eq!(
        found,
        Ok(EnvPair { key: "SOME_APP_KEY".to_string(), value: "app-key".to_string() })
    );
    assert_eq!(found.unwrap().value.trim(), "app-key");
}

#[test]
fn test_get_successful_with_not_found() {
    let found = get(&test_env(), "NOT_FOUND_KEY");
    assert_eq!(found, Err(EnvError::KeyNotFound { path: "tests/.test-env".to_string() }));
    assert_eq!(found.unwrap_err().message(), "Not found key in env file: tests/.test-env");
}

#[test]
fn test_get_failed_by_not_found_env_path() {
    let missing =
        EnvFile { path: "tests/.not-found-env".to_string(), content: Content::Unopened };
    let found = get(&missing, "SOME_APP_KEY");
    assert_eq!(found, Err(EnvError::FileOpen { path: "tests/.not-found-env".to_string() }));
    assert!(found
        .unwrap_err()
        .message()
        .trim()
        .ends_with("Failed to open the file: tests/.not-found-env"));
}

fn lines_of(lines: &[&str]) -> Vec<String> {
    lines.iter().map(|line| line.to_string()).collect()
}

#[test]
fn get_returns_the_first_of_two_lines_under_a_key() {
    let file = EnvFile {
        path: ".env".to_string(),
        content: Content::Complete(lines_of(&["A=0", "KEY=first", "KEY=second"])),
    };
    assert_eq!(get(&file, "KEY").unwrap().value, "first");
}

#[test]
fn get_takes_the_whole_key_only() {
    let file = EnvFile {
        path: ".env".to_string(),
        content: Content::Complete(lines_of(&["KEYS=1", "#KEY=2", " KEY=3", "KEY", "KEY=4"])),
    };
    assert_eq!(get(&file, "KEY").unwrap().value, "4");
    assert_eq!(get(&file, "#KEY").unwrap().value, "2");
    assert_eq!(get(&file, "KE"), Err(EnvError::KeyNotFound { path: ".env".to_string() }));
}

#[test]
fn get_of_a_key_with_a_delimiter_splits_at_the_first() {
    let file =
        EnvFile { path: ".env".to_string(), content: Content::Complete(lines_of(&["A=B=C"])) };
    assert_eq!(
        get(&file, "A=B"),
        Ok(EnvPair { key: "A".to_string(), value: "B=C".to_string() })
    );
}

#[test]
fn get_of_an_empty_value() {
    let file = EnvFile { path: ".env".to_string(), content: Content::Complete(lines_of(&["K="])) };
    assert_eq!(get(&file, "K"), Ok(EnvPair { key: "K".to_string(), value: "".to_string() }));
}

#[test]
fn get_finds_a_pair_before_the_unreadable_line() {
    let file = EnvFile {
        path: "broken.env".to_string(),
        content: Content::Truncated(lines_of(&["A=1", "B=2"])),
    };
    assert_eq!(get(&file, "B").unwrap().value, "2");
    assert_eq!(get(&file, "C"), Err(EnvError::LineRead { path: "broken.env".to_string() }));
}
