use super_gunzip::paths::{classify, has_compressed_suffix, is_eligible, output_path, Eligibility};
use super_gunzip::request::{BatchRequest, Operation};
use super_gunzip::transform::TransformPlan;

#[test]
fn suffix_is_the_extension_gz() {
    assert!(has_compressed_suffix("a.gz"));
    assert!(has_compressed_suffix("a.txt.gz"));
    assert!(has_compressed_suffix("dir/sub/archive.tar.gz"));
    assert!(!has_compressed_suffix("a.txt"));
    assert!(!has_compressed_suffix("a.gzip"));
    assert!(!has_compressed_suffix("a.GZ"));
    assert!(!has_compressed_suffix("gz"));
    assert!(!has_compressed_suffix("a.gz.txt"));
}

#[test]
fn suffix_edge_cases_follow_the_path_rules() {
    // a name that is nothing but the suffix has no extension
    assert!(!has_compressed_suffix(".gz"));
    assert!(!has_compressed_suffix("dir/.gz"));
    // the extension is that of the last component
    assert!(!has_compressed_suffix("dir.gz/file"));
    assert!(has_compressed_suffix("dir.gz/file.gz"));
    assert!(!has_compressed_suffix(""));
    assert!(!has_compressed_suffix("a."));
    assert!(has_compressed_suffix("..gz"));
}

#[test]
fn directories_and_missing_paths_are_not_files() {
    assert_eq!(classify("a.txt", false, Operation::Compress), Eligibility::NotAFile);
    assert_eq!(classify("a.gz", false, Operation::Compress), Eligibility::NotAFile);
    assert_eq!(classify("a.gz", false, Operation::Decompress), Eligibility::NotAFile);
    assert_eq!(classify("a.txt", false, Operation::Decompress), Eligibility::NotAFile);
}

#[test]
fn compress_takes_files_without_the_suffix() {
    assert_eq!(classify("a.txt", true, Operation::Compress), Eligibility::Eligible);
    assert_eq!(classify("notes", true, Operation::Compress), Eligibility::Eligible);
    assert_eq!(classify("a.gz", true, Operation::Compress), Eligibility::WrongSuffix);
    assert_eq!(classify("a.txt.gz", true, Operation::Compress), Eligibility::WrongSuffix);
}

#[test]
fn decompress_takes_files_with_the_suffix() {
    assert_eq!(classify("a.gz", true, Operation::Decompress), Eligibility::Eligible);
    assert_eq!(classify("a.txt.gz", true, Operation::Decompress), Eligibility::Eligible);
    assert_eq!(classify("a.txt", true, Operation::Decompress), Eligibility::WrongSuffix);
    assert_eq!(classify("notes", true, Operation::Decompress), Eligibility::WrongSuffix);
}

#[test]
fn is_eligible_agrees_with_classify() {
    assert!(is_eligible("a.txt", true, Operation::Compress));
    assert!(!is_eligible("a.txt", false, Operation::Compress));
    assert!(!is_eligible("a.gz", true, Operation::Compress));
    assert!(is_eligible("a.gz", true, Operation::Decompress));
    assert!(!is_eligible("a.gz", false, Operation::Decompress));
    assert!(!is_eligible("a.txt", true, Operation::Decompress));
}

#[test]
fn compress_appends_the_suffix() {
    assert_eq!(output_path("a.txt", Operation::Compress), "a.txt.gz");
    assert_eq!(output_path("dir/notes", Operation::Compress), "dir/notes.gz");
    assert_eq!(output_path("", Operation::Compress), ".gz");
}

#[test]
fn decompress_strips_the_suffix() {
    assert_eq!(output_path("a.txt.gz", Operation::Decompress), "a.txt");
    assert_eq!(output_path("dir/notes.gz", Operation::Decompress), "dir/notes");
    assert_eq!(output_path("archive.tar.gz", Operation::Decompress), "archive.tar");
}

#[test]
fn names_round_trip_through_compress_and_decompress() {
    for name in ["a.txt", "notes", "dir/sub/data.bin", "archive.tar", "with space.log"] {
        assert!(is_eligible(name, true, Operation::Compress));
        let compressed = output_path(name, Operation::Compress);
        assert_eq!(compressed, format!("{}.gz", name));
        assert!(is_eligible(&compressed, true, Operation::Decompress));
        assert!(!is_eligible(&compressed, true, Operation::Compress));
        let restored = output_path(&compressed, Operation::Decompress);
        assert_eq!(restored, name);
    }
}

#[test]
fn plan_names_source_and_target() {
    let plan = TransformPlan::new("a.txt", Operation::Compress, false);
    assert_eq!(plan.source, "a.txt");
    assert_eq!(plan.target, "a.txt.gz");
    assert_eq!(plan.operation, Operation::Compress);
    assert!(!plan.keep_original);

    let plan = TransformPlan::new("b.log.gz", Operation::Decompress, true);
    assert_eq!(plan.source, "b.log.gz");
    assert_eq!(plan.target, "b.log");
    assert_eq!(plan.operation, Operation::Decompress);
    assert!(plan.keep_original);
}

#[test]
fn source_is_removed_only_after_a_successful_write() {
    let discard = TransformPlan::new("a.txt", Operation::Compress, false);
    assert!(discard.removes_source(true));
    assert!(!discard.removes_source(false));

    let keep = TransformPlan::new("a.txt", Operation::Compress, true);
    assert!(!keep.removes_source(true));
    assert!(!keep.removes_source(false));
}

#[test]
fn request_defaults_to_one_permit() {
    let absent = BatchRequest::new(String::from("*.txt"), Operation::Compress, false, None, false);
    assert_eq!(absent.max_concurrency, 1);
    let zero = BatchRequest::new(String::from("*.txt"), Operation::Compress, false, Some(0), false);
    assert_eq!(zero.max_concurrency, 1);
    let eight = BatchRequest::new(String::from("*.txt"), Operation::Decompress, true, Some(8), true);
    assert_eq!(eight.max_concurrency, 8);
    assert_eq!(eight.pattern, "*.txt");
    assert_eq!(eight.operation, Operation::Decompress);
    assert!(eight.keep_original);
    assert!(eight.verbose);
}
