use super_gunzip::outcome::{BatchResult, Failure, FailureKind};

fn failure(task: usize, path: &str, kind: FailureKind, detail: &str) -> Failure {
    Failure { task, path: String::from(path), kind, detail: String::from(detail) }
}

#[test]
fn io_failure_line_names_file_kind_and_reason() {
    let f = failure(0, "locked.txt", FailureKind::Io, "Permission denied");
    assert_eq!(f.describe(), "locked.txt: IO(Permission denied)");
}

#[test]
fn execution_fault_line_is_told_apart() {
    let f = failure(3, "dir/a.txt", FailureKind::ExecutionFault, "task 7 panicked");
    assert_eq!(f.describe(), "dir/a.txt: Threading(task 7 panicked)");
}

#[test]
fn failure_line_with_empty_parts() {
    let f = failure(0, "", FailureKind::Io, "");
    assert_eq!(f.describe(), ": IO()");
}

#[test]
fn duplicate_copies_every_field() {
    let f = failure(5, "x.gz", FailureKind::ExecutionFault, "cancelled");
    let copy = f.duplicate();
    assert_eq!(copy.task, 5);
    assert_eq!(copy.path, "x.gz");
    assert_eq!(copy.kind, FailureKind::ExecutionFault);
    assert_eq!(copy.detail, "cancelled");
}

#[test]
fn result_without_failures_succeeds() {
    let result = BatchResult { total_dispatched: 4, failures: vec![], elapsed_nanos: 1_500_000 };
    assert!(result.succeeded());
    assert_eq!(result.exit_code(), 0);
    assert_eq!(result.summary(), "finished without errors");
}

#[test]
fn result_with_one_failure_reports_its_line() {
    let result = BatchResult {
        total_dispatched: 3,
        failures: vec![failure(2, "locked.txt", FailureKind::Io, "Permission denied")],
        elapsed_nanos: 10,
    };
    assert!(!result.succeeded());
    assert_eq!(result.exit_code(), 1);
    assert_eq!(result.summary(), "locked.txt: IO(Permission denied)");
}

#[test]
fn result_with_failures_joins_lines_in_order() {
    let result = BatchResult {
        total_dispatched: 5,
        failures: vec![
            failure(4, "e.txt", FailureKind::Io, "No such file or directory"),
            failure(1, "b.txt", FailureKind::ExecutionFault, "panicked"),
            failure(2, "c.txt", FailureKind::Io, "Permission denied"),
        ],
        elapsed_nanos: 0,
    };
    assert_eq!(result.exit_code(), 1);
    assert_eq!(
        result.summary(),
        "e.txt: IO(No such file or directory)\nb.txt: Threading(panicked)\nc.txt: IO(Permission denied)"
    );
}
