use copycheck::compare::{verify, ComparisonResult, MismatchSample};
use copycheck::report::{detail_lines, layout_error, sample_line, status_line, summary_lines};
use copycheck::summary::{is_pass, summarize, Summary};

#[test]
fn scenario_identical_file_passes() {
    let r = verify(Ok(b"hello".to_vec()), Some(Ok(b"hello".to_vec())));
    assert_eq!(status_line("a.txt", &r), "PASS: a.txt");
    assert!(detail_lines("a.txt", &r).is_empty());
    let s = summarize(&vec![r]);
    assert_eq!(s, Summary { total: 1, passed: 1, failed: 0 });
    assert!(s.all_passed());
    assert_eq!(s.exit_code(), 0);
    assert_eq!(summary_lines(&s), vec!["Total: 1", "Passed: 1", "Failed: 0"]);
}

#[test]
fn scenario_shorter_copy_fails_on_size() {
    let r = verify(Ok(b"hello".to_vec()), Some(Ok(b"hell".to_vec())));
    assert_eq!(status_line("b.txt", &r), "FAIL: b.txt");
    assert_eq!(detail_lines("b.txt", &r), vec!["   [!] Size mismatch: Original=5 vs Saved=4"]);
    let s = summarize(&vec![r]);
    assert_eq!(s.failed, 1);
    assert_ne!(s.exit_code(), 0);
}

#[test]
fn scenario_one_changed_byte_is_diagnosed() {
    let r = verify(Ok(vec![0x00, 0x01, 0x02]), Some(Ok(vec![0x00, 0xFF, 0x02])));
    assert_eq!(status_line("c.txt", &r), "FAIL: c.txt");
    assert_eq!(
        detail_lines("c.txt", &r),
        vec![
            "   [!] c.txt mismatch at 0x00000001: A=01, B=ff",
            "   [!] Total mismatched bytes: 1",
        ]
    );
    assert_eq!(summarize(&vec![r]).exit_code(), 1);
}

#[test]
fn scenario_absent_copy_is_skipped_as_failure() {
    let r = verify(Ok(b"data".to_vec()), None);
    assert_eq!(status_line("d.txt", &r), "SKIP: d.txt (Saved file not found)");
    assert!(!is_pass(&r));
    let s = summarize(&vec![r]);
    assert_eq!(s, Summary { total: 1, passed: 0, failed: 1 });
    assert_ne!(s.exit_code(), 0);
}

#[test]
fn scenario_missing_originals_directory_aborts() {
    let m = layout_error("base/originals", false, "base/saved", true);
    assert_eq!(
        m,
        Some("Directories not found. Expected: base/originals and base/saved".to_string())
    );
    assert!(layout_error("o", true, "s", false).is_some());
    assert!(layout_error("o", false, "s", false).is_some());
    assert_eq!(layout_error("o", true, "s", true), None);
}

#[test]
fn read_error_reason_is_surfaced() {
    let r = verify(Err("permission denied".to_string()), Some(Ok(Vec::new())));
    assert_eq!(status_line("e.txt", &r), "SKIP: e.txt (permission denied)");
    assert!(detail_lines("e.txt", &r).is_empty());
}

#[test]
fn sample_offsets_and_bytes_are_hexadecimal() {
    let s = MismatchSample { offset: 0xABCDEF, original: 0x0A, saved: 0xB0 };
    assert_eq!(sample_line("f", &s), "   [!] f mismatch at 0x00abcdef: A=0a, B=b0");
    let s = MismatchSample { offset: 0, original: 0, saved: 255 };
    assert_eq!(sample_line("g", &s), "   [!] g mismatch at 0x00000000: A=00, B=ff");
}

#[test]
fn offsets_beyond_eight_digits_are_not_truncated() {
    let s = MismatchSample { offset: 0x1_2345_6789, original: 1, saved: 2 };
    assert_eq!(sample_line("h", &s), "   [!] h mismatch at 0x123456789: A=01, B=02");
}

#[test]
fn many_mismatches_list_three_samples_and_total() {
    let r = verify(Ok(vec![0u8; 12]), Some(Ok(vec![1u8; 12])));
    assert_eq!(
        detail_lines("i", &r),
        vec![
            "   [!] i mismatch at 0x00000000: A=00, B=01",
            "   [!] i mismatch at 0x00000001: A=00, B=01",
            "   [!] i mismatch at 0x00000002: A=00, B=01",
            "   [!] Total mismatched bytes: 12",
        ]
    );
}

#[test]
fn summary_counts_mixed_outcomes() {
    let results = vec![
        ComparisonResult::Match,
        ComparisonResult::Missing,
        ComparisonResult::SizeMismatch(1, 2),
        ComparisonResult::Match,
        ComparisonResult::ReadError("x".to_string()),
    ];
    let s = summarize(&results);
    assert_eq!(s, Summary { total: 5, passed: 2, failed: 3 });
    assert!(!s.all_passed());
    assert_eq!(s.exit_code(), 1);
    assert_eq!(summary_lines(&s), vec!["Total: 5", "Passed: 2", "Failed: 3"]);
}

#[test]
fn empty_pass_succeeds() {
    let s = summarize(&Vec::new());
    assert_eq!(s, Summary { total: 0, passed: 0, failed: 0 });
    assert_eq!(s.exit_code(), 0);
    assert_eq!(summary_lines(&s), vec!["Total: 0", "Passed: 0", "Failed: 0"]);
}
