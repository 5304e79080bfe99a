use envdb::EnvError;

#[test]
fn message_of_each_error() {
    assert_eq!(
        EnvError::FileOpen { path: "a/.env".to_string() }.message(),
        "Failed to open the file: a/.env"
    );
    assert_eq!(
        EnvError::KeyNotFound { path: "a/.env".to_string() }.message(),
        "Not found key in env file: a/.env"
    );
    assert_eq!(
        EnvError::LineRead { path: "a/.env".to_string() }.message(),
        "Failed to read a line in env file: a/.env"
    );
    assert_eq!(
        EnvError::RewriteWrite { cause: Some("disk full".to_string()) }.message(),
        "Failed to write the file for rewrite: disk full"
    );
    assert_eq!(
        EnvError::RewriteWrite { cause: None }.message(),
        "Failed to open the tempfile for rewrite"
    );
    assert_eq!(
        EnvError::RewriteCommit { reason: "permission denied".to_string() }.message(),
        "Failed to write the file for rewrite: permission denied"
    );
}
