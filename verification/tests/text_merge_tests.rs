//! Merging of texts.
use omnifuse::text_merge::{
    decide_text_merge, decode_utf8_text, interpret_merge, three_way_text_merge, TextMergeDecision,
    TextMergeResult,
};

#[test]
fn no_conflict_when_remote_unchanged() {
    let base = "original";
    let local = "modified locally";
    let remote = "original";
    assert_eq!(three_way_text_merge(base, local, remote), TextMergeResult::NoConflict);
}

#[test]
fn takes_remote_when_local_unchanged() {
    let base = "original";
    let local = "original";
    let remote = "modified remotely";
    assert_eq!(
        three_way_text_merge(base, local, remote),
        TextMergeResult::Merged("modified remotely".to_string())
    );
}

#[test]
fn no_conflict_when_same_change() {
    let base = "original";
    let local = "same change";
    let remote = "same change";
    assert_eq!(three_way_text_merge(base, local, remote), TextMergeResult::NoConflict);
}

#[test]
fn merges_non_overlapping_changes() {
    let base = "line1\nline2\nline3";
    let local = "LOCAL\nline2\nline3";
    let remote = "line1\nline2\nREMOTE";
    let result = three_way_text_merge(base, local, remote);
    match result {
        TextMergeResult::Merged(merged) => {
            assert!(merged.contains("LOCAL"), "should contain LOCAL: {merged}");
            assert!(merged.contains("REMOTE"), "should contain REMOTE: {merged}");
        }
        other => panic!("expected Merged, got {other:?}"),
    }
}

#[test]
fn detects_conflicting_changes() {
    let base = "line1\ncommon\nline3";
    let local = "line1\nlocal change\nline3";
    let remote = "line1\nremote change\nline3";
    let result = three_way_text_merge(base, local, remote);
    assert!(matches!(result, TextMergeResult::Failed { .. }));
}

#[test]
fn empty_base_different_content_is_conflict() {
    let base = "";
    let local = "local content";
    let remote = "remote content";
    let result = three_way_text_merge(base, local, remote);
    assert!(
        matches!(result, TextMergeResult::Failed { .. }),
        "empty base + different content -> Failed, got {result:?}"
    );
}

#[test]
fn merges_changes_at_different_positions() {
    let base = "aaa\nbbb\nccc";
    let local = "AAA\nbbb\nccc";
    let remote = "aaa\nbbb\nCCC";
    let result = three_way_text_merge(base, local, remote);
    match result {
        TextMergeResult::Merged(merged) => {
            assert!(merged.contains("AAA"), "should contain AAA: {merged}");
            assert!(merged.contains("CCC"), "should contain CCC: {merged}");
        }
        other => panic!("expected Merged, got {other:?}"),
    }
}

#[test]
fn detects_conflicting_changes_on_same_line() {
    let base = "aaa\nbbb";
    let local = "XXX\nbbb";
    let remote = "YYY\nbbb";
    let result = three_way_text_merge(base, local, remote);
    assert!(
        matches!(result, TextMergeResult::Failed { .. }),
        "conflicting changes should return Failed: {result:?}"
    );
}

#[test]
fn empty_base_treated_as_new_file() {
    let base = "";
    let local = "new content";
    let remote = "";
    let result = three_way_text_merge(base, local, remote);
    assert_eq!(
        result,
        TextMergeResult::NoConflict,
        "empty base, remote unchanged -> NoConflict: {result:?}"
    );
}

#[test]
fn empty_local_vs_modified_remote() {
    let base = "original content";
    let local = "";
    let remote = "modified remotely";
    let result = three_way_text_merge(base, local, remote);
    assert!(
        matches!(result, TextMergeResult::Failed { .. }),
        "empty local + modified remote -> Failed, got {result:?}"
    );
}

#[test]
fn merged_text_is_exact() {
    assert_eq!(
        three_way_text_merge("a\nb\nc\n", "A\nb\nc\n", "a\nb\nC\n"),
        TextMergeResult::Merged("A\nb\nC\n".to_string())
    );
}

#[test]
fn a_failed_merge_keeps_both_texts() {
    assert_eq!(
        three_way_text_merge("x\n", "local\n", "remote\n"),
        TextMergeResult::Failed { local: "local\n".to_string(), remote: "remote\n".to_string() }
    );
}

#[test]
fn decisions_by_comparison() {
    assert_eq!(decide_text_merge("a", "a", "a"), TextMergeDecision::AlreadySynced);
    assert_eq!(decide_text_merge("a", "b", "a"), TextMergeDecision::UploadLocal);
    assert_eq!(
        decide_text_merge("a", "a", "b"),
        TextMergeDecision::AcceptRemote("b".to_string())
    );
    assert_eq!(decide_text_merge("a", "b", "b"), TextMergeDecision::AlreadySynced);
    assert_eq!(
        decide_text_merge("a\nb\nc\n", "A\nb\nc\n", "a\nb\nC\n"),
        TextMergeDecision::UploadMerged("A\nb\nC\n".to_string())
    );
    assert_eq!(decide_text_merge("x\n", "y\n", "z\n"), TextMergeDecision::Conflict);
}

#[test]
fn a_merge_error_without_markers_is_a_merge() {
    assert_eq!(
        interpret_merge("l", "r", Err("no markers".to_string())),
        TextMergeResult::Merged("no markers".to_string())
    );
    assert_eq!(
        interpret_merge("l", "r", Err("x\n>>>>>>> theirs\n".to_string())),
        TextMergeResult::Failed { local: "l".to_string(), remote: "r".to_string() }
    );
}

#[test]
fn only_utf8_is_text() {
    assert_eq!(decode_utf8_text("h\u{e9}".as_bytes()), Some("h\u{e9}"));
    assert_eq!(decode_utf8_text(b""), Some(""));
    assert_eq!(decode_utf8_text(&[0xff, 0x41]), None);
}
