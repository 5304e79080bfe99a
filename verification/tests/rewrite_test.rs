use envdb::EnvError;
use envdb::Rewrite;
use envdb::Stage;
use envdb::Step;

fn lines_of(lines: &[&str]) -> Vec<String> {
    lines.iter().map(|line| line.to_string()).collect()
}

#[test]
fn rewrite_writes_every_line_before_it_commits() {
    let mut rewrite = Rewrite::new(lines_of(&["A=1", "# note", "B=2"]));
    assert_eq!(rewrite.step(), Step::CreateTemp);
    rewrite.record(Ok(()));
    assert_eq!(rewrite.step(), Step::WriteLine("A=1"));
    rewrite.record(Ok(()));
    assert_eq!(rewrite.step(), Step::WriteLine("# note"));
    rewrite.record(Ok(()));
    assert_eq!(rewrite.step(), Step::WriteLine("B=2"));
    rewrite.record(Ok(()));
    assert_eq!(rewrite.step(), Step::Commit);
    rewrite.record(Ok(()));
    assert_eq!(rewrite.step(), Step::Stop);
    assert_eq!(rewrite.outcome(), Some(Ok(())));
}

#[test]
fn rewrite_of_no_lines_commits_an_empty_file() {
    let mut rewrite = Rewrite::new(Vec::new());
    assert_eq!(rewrite.step(), Step::CreateTemp);
    rewrite.record(Ok(()));
    assert_eq!(rewrite.step(), Step::Commit);
    rewrite.record(Ok(()));
    assert_eq!(rewrite.step(), Step::Stop);
    assert_eq!(rewrite.outcome(), Some(Ok(())));
}

#[test]
fn rewrite_has_no_outcome_before_it_stops() {
    let mut rewrite = Rewrite::new(lines_of(&["A=1"]));
    assert_eq!(rewrite.stage(), &Stage::Reconstructed);
    rewrite.record(Ok(()));
    assert_eq!(rewrite.stage(), &Stage::Writing { written: 0 });
    assert_eq!(rewrite.step(), Step::WriteLine("A=1"));
    rewrite.record(Ok(()));
    assert_eq!(rewrite.stage(), &Stage::TempWritten);
    assert_eq!(rewrite.outcome(), None);
}

#[test]
fn rewrite_stops_where_the_temporary_file_is_refused() {
    let mut rewrite = Rewrite::new(lines_of(&["A=1"]));
    rewrite.record(Err("no space".to_string()));
    assert_eq!(rewrite.step(), Step::Stop);
    let outcome = rewrite.outcome();
    assert_eq!(outcome, Some(Err(EnvError::RewriteWrite { cause: None })));
    assert_eq!(
        outcome.unwrap().unwrap_err().message(),
        "Failed to open the tempfile for rewrite"
    );
}

#[test]
fn rewrite_stops_where_a_line_cannot_be_written() {
    let mut rewrite = Rewrite::new(lines_of(&["A=1", "B=2"]));
    rewrite.record(Ok(()));
    rewrite.record(Ok(()));
    assert_eq!(rewrite.step(), Step::WriteLine("B=2"));
    rewrite.record(Err("disk full".to_string()));
    assert_eq!(rewrite.step(), Step::Stop);
    rewrite.record(Ok(()));
    assert_eq!(rewrite.step(), Step::Stop);
    let outcome = rewrite.outcome();
    assert_eq!(
        outcome,
        Some(Err(EnvError::RewriteWrite { cause: Some("disk full".to_string()) }))
    );
    assert_eq!(
        outcome.unwrap().unwrap_err().message(),
        "Failed to write the file for rewrite: disk full"
    );
}

#[test]
fn rewrite_stops_where_the_commit_fails() {
    let mut rewrite = Rewrite::new(lines_of(&["A=1"]));
    rewrite.record(Ok(()));
    rewrite.record(Ok(()));
    assert_eq!(rewrite.step(), Step::Commit);
    rewrite.record(Err("read-only".to_string()));
    assert_eq!(rewrite.step(), Step::Stop);
    let outcome = rewrite.outcome();
    assert_eq!(
        outcome,
        Some(Err(EnvError::RewriteCommit { reason: "read-only".to_string() }))
    );
    assert_eq!(
        outcome.unwrap().unwrap_err().message(),
        "Failed to write the file for rewrite: read-only"
    );
}

#[test]
fn rewrite_that_committed_stays_committed() {
    let mut rewrite = Rewrite::new(Vec::new());
    rewrite.record(Ok(()));
    rewrite.record(Ok(()));
    rewrite.record(Err("late".to_string()));
    assert_eq!(rewrite.step(), Step::Stop);
    assert_eq!(rewrite.outcome(), Some(Ok(())));
}
