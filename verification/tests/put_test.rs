use envdb::get;
use envdb::put;
use envdb::Content;
use envdb::EnvError;
use envdb::EnvFile;

fn lines_of(lines: &[&str]) -> Vec<String> {
    lines.iter().map(|line| line.to_string()).collect()
}

fn file_of(path: &str, lines: &[&str]) -> EnvFile {
    EnvFile { path: path.to_string(), content: Content::Complete(lines_of(lines)) }
}

fn test_env(path: &str) -> EnvFile {
    file_of(path, &["SOME_APP_KEY=app-key", "SOME_APP_SECRET=app-secret"])
}

fn written(path: &str, lines: Vec<String>) -> EnvFile {
    EnvFile { path: path.to_string(), content: Content::Complete(lines) }
}

#[test]
fn test_put_successful() {
    let path = "tests/.test-env-put-successful";
    let mut log = Vec::new();
    let lines = put(&test_env(path), "SOME_APP_KEY", "new-app-key", &mut log).unwrap();
    assert_eq!(lines, lines_of(&["SOME_APP_KEY=new-app-key", "SOME_APP_SECRET=app-secret"]));
    let found = get(&written(path, lines), "SOME_APP_KEY");
    assert!(found.is_ok());
    assert_eq!(found.unwrap().value.trim(), "new-app-key");
}

#[test]
fn test_put_successful_with_not_found() {
    let path = "tests/.test-env-successful-with-not-found";
    let mut log = Vec::new();
    let lines = put(&test_env(path), "NEW_APP_KEY", "new-value", &mut log).unwrap();
    assert_eq!(
        lines,
        lines_of(&["SOME_APP_KEY=app-key", "SOME_APP_SECRET=app-secret", "NEW_APP_KEY=new-value"])
    );
    let found = get(&written(path, lines), "NEW_APP_KEY");
    assert!(found.is_ok());
    assert_eq!(found.unwrap().value.trim(), "new-value");
}

#[test]
fn test_put_failed_by_not_found_env_path() {
    let missing =
        EnvFile { path: "tests/.not-found-env".to_string(), content: Content::Unopened };
    let mut log = Vec::new();
    let lines = put(&missing, "NOT_FOUND_KEY", "new-value", &mut log);
    assert_eq!(lines, Err(EnvError::FileOpen { path: "tests/.not-found-env".to_string() }));
    assert!(lines
        .unwrap_err()
        .message()
        .trim()
        .ends_with("Failed to open the file: tests/.not-found-env"));
}

#[test]
fn put_keeps_every_other_line_as_it_was() {
    let file = file_of(
        ".env",
        &["# settings", "", "A = 1", "export B", "KEY=old", "  # indented", "C=3=4"],
    );
    let mut log = Vec::new();
    let lines = put(&file, "KEY", "new", &mut log).unwrap();
    assert_eq!(
        lines,
        lines_of(&["# settings", "", "A = 1", "export B", "KEY=new", "  # indented", "C=3=4"])
    );
    assert_eq!(
        log,
        vec![
            "Skip parse line: ".to_string(),
            "Skip parse line: export B".to_string(),
            "Skip parse line:   # indented".to_string(),
        ]
    );
}

#[test]
fn put_changes_only_the_first_of_two_lines_under_a_key() {
    let file = file_of(".env", &["A=1", "KEY=first", "B=2", "KEY=second"]);
    let mut log = Vec::new();
    let lines = put(&file, "KEY", "new", &mut log).unwrap();
    assert_eq!(lines, lines_of(&["A=1", "KEY=new", "B=2", "KEY=second"]));
    assert_eq!(get(&written(".env", lines), "KEY").unwrap().value, "new");
}

#[test]
fn put_under_an_absent_key_adds_one_line_at_the_end() {
    let file = file_of(".env", &["A=1", "# KEY", "KEYS=2", "KEY"]);
    let mut log = Vec::new();
    let lines = put(&file, "KEY", "v", &mut log).unwrap();
    assert_eq!(lines, lines_of(&["A=1", "# KEY", "KEYS=2", "KEY", "KEY=v"]));
    assert_eq!(log, vec!["Skip parse line: KEY".to_string()]);
}

#[test]
fn put_into_an_empty_file() {
    let mut log = Vec::new();
    assert_eq!(put(&file_of(".env", &[]), "K", "", &mut log), Ok(lines_of(&["K="])));
    assert!(log.is_empty());
}

#[test]
fn put_of_a_value_with_delimiters_is_read_back() {
    let mut log = Vec::new();
    let lines = put(&file_of(".env", &["URL=old"]), "URL", "http://h/?a=b", &mut log).unwrap();
    assert_eq!(lines, lines_of(&["URL=http://h/?a=b"]));
    assert_eq!(get(&written(".env", lines), "URL").unwrap().value, "http://h/?a=b");
}

#[test]
fn put_under_a_key_with_a_delimiter_never_replaces() {
    let mut log = Vec::new();
    let lines = put(&file_of(".env", &["A=B=1"]), "A=B", "2", &mut log).unwrap();
    assert_eq!(lines, lines_of(&["A=B=1", "A=B=2"]));
}

#[test]
fn put_into_a_truncated_file_fails_after_its_notices() {
    let file = EnvFile {
        path: "broken.env".to_string(),
        content: Content::Truncated(lines_of(&["KEY=1", "junk"])),
    };
    let mut log = Vec::new();
    let lines = put(&file, "KEY", "2", &mut log);
    assert_eq!(lines, Err(EnvError::LineRead { path: "broken.env".to_string() }));
    assert_eq!(log, vec!["Skip parse line: junk".to_string()]);
}
