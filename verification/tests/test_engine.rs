use jankenoboe::engine::{advance_batch, enroll_batch, enroll_decision, EnrollDecision};
use jankenoboe::error::AppError;
use jankenoboe::schedule::{advance_record, is_due, LearningRecord};

fn record(id: &str, song_id: &str, level: i64, updated_at: i64, last: i64, graduated: bool) -> LearningRecord {
    LearningRecord {
        id: id.to_string(),
        song_id: song_id.to_string(),
        level,
        created_at: updated_at,
        updated_at,
        last_level_up_at: last,
        level_up_path: vec![1, 1, 1, 1, 1, 1, 1, 2, 3, 5, 7, 13, 19, 32, 52, 84, 135, 220, 355, 574],
        graduated,
    }
}

fn strings(v: &[&str]) -> Vec<String> {
    v.iter().map(|s| s.to_string()).collect()
}

// --- the due predicate ---

#[test]
fn test_due_boundary_at_warm_up() {
    // A fresh record becomes due exactly 300 seconds after its creation.
    let now = 1_000_000i64;
    let due = record("L1", "S1", 0, now - 300, 0, false);
    assert!(is_due(&due, now, 0));
    let not_yet = record("L1", "S1", 0, now - 299, 0, false);
    assert!(!is_due(&not_yet, now, 0));
}

#[test]
fn test_due_after_reset_uses_last_level_up() {
    let now = 1_000_000i64;
    let r = record("L1", "S1", 0, now, now - 300, false);
    assert!(is_due(&r, now, 0));
    let r2 = record("L1", "S1", 0, now, now - 299, false);
    assert!(!is_due(&r2, now, 0));
}

#[test]
fn test_due_higher_level_waits_days() {
    let now = 1_000_000i64;
    // Level 7 waits 2 days.
    let r = record("L1", "S1", 7, now, now - 2 * 86400, false);
    assert!(is_due(&r, now, 0));
    let r2 = record("L1", "S1", 7, now, now - 2 * 86400 + 1, false);
    assert!(!is_due(&r2, now, 0));
}

#[test]
fn test_due_graduated_never() {
    let now = 1_000_000i64;
    let r = record("L1", "S1", 0, now - 400, 0, true);
    assert!(!is_due(&r, now, 0));
}

#[test]
fn test_lookahead_equals_shifted_now() {
    // Looking k ahead selects what would be due at now + k.
    let now = 1_000_000i64;
    for k in [0i64, 1, 299, 300, 86400] {
        for r in [
            record("L1", "S1", 0, now, 0, false),
            record("L2", "S2", 0, now, now - 10, false),
            record("L3", "S3", 3, now, now - 86400, false),
        ] {
            assert_eq!(is_due(&r, now, k), is_due(&r, now + k, 0));
        }
    }
}

// --- the one-step transition ---

#[test]
fn test_advance_record_below_top_level() {
    let now = 2000i64;
    let r = record("L1", "S1", 5, 1000, 1000, false);
    let r2 = advance_record(r, now, 20);
    assert_eq!(r2.level, 6);
    assert!(!r2.graduated);
    assert_eq!(r2.updated_at, now);
    assert_eq!(r2.last_level_up_at, now);
}

#[test]
fn test_advance_record_graduation_boundary() {
    // At level max - 1 the record graduates and its level stays put.
    let now = 2000i64;
    let r = record("L1", "S1", 19, 1000, 1000, false);
    let r2 = advance_record(r, now, 20);
    assert!(r2.graduated);
    assert_eq!(r2.level, 19);
    assert_eq!(r2.last_level_up_at, now);
}

#[test]
fn test_advance_batch_graduation_scenario() {
    // One record at level 19, last level-up at 1000; advanced at 2000.
    let mut store = vec![record("L1", "S1", 19, 1000, 1000, false)];
    let out = advance_batch(&mut store, &strings(&["L1"]), 2000, 20).unwrap();
    assert_eq!(out.leveled_up_count, 0);
    assert_eq!(out.graduated_count, 1);
    assert_eq!(out.total_processed, 1);
    assert!(store[0].graduated);
    assert_eq!(store[0].level, 19);
    assert_eq!(store[0].last_level_up_at, 2000);
}

#[test]
fn test_advance_batch_atomicity() {
    // One valid id and one already-graduated id: the batch fails whole and
    // neither record changes.
    let mut store = vec![
        record("L1", "S1", 3, 1000, 1000, false),
        record("L2", "S2", 19, 1000, 1000, true),
    ];
    let r = advance_batch(&mut store, &strings(&["L1", "L2"]), 2000, 20);
    assert!(r.is_err());
    assert!(r
        .unwrap_err()
        .message()
        .contains("already graduated"));
    assert_eq!(store[0].level, 3);
    assert_eq!(store[0].last_level_up_at, 1000);
    assert!(!store[0].graduated);
    assert!(store[1].graduated);
}

#[test]
fn test_advance_batch_not_found_lists_all() {
    let mut store = vec![record("L1", "S1", 3, 1000, 1000, false)];
    let r = advance_batch(&mut store, &strings(&["L9", "L8"]), 2000, 20);
    let msg = r.unwrap_err().message();
    assert_eq!(msg, "learning record(s) not found: L9, L8");
    assert_eq!(store[0].level, 3);
}

#[test]
fn test_advance_batch_missing_reported_before_graduated() {
    // With a missing id and a graduated id in one batch, the not-found
    // rejection wins; nothing changes either way.
    let mut store = vec![record("L2", "S2", 19, 1000, 1000, true)];
    let r = advance_batch(&mut store, &strings(&["L9", "L2"]), 2000, 20);
    let err = r.unwrap_err();
    assert!(matches!(err, AppError::NotFound(_)));
    assert_eq!(err.message(), "learning record(s) not found: L9");
    assert!(store[0].graduated);
}

#[test]
fn test_advance_batch_empty_rejected() {
    let mut store: Vec<LearningRecord> = vec![];
    let r = advance_batch(&mut store, &Vec::new(), 2000, 20);
    assert_eq!(r.unwrap_err().message(), "ids cannot be empty");
}

// --- the enrollment engine ---

#[test]
fn test_enroll_decision_table() {
    assert_eq!(enroll_decision(true, false, false), EnrollDecision::Skip);
    assert_eq!(enroll_decision(true, true, true), EnrollDecision::Skip);
    assert_eq!(enroll_decision(false, true, true), EnrollDecision::Relearn);
    assert_eq!(
        enroll_decision(false, true, false),
        EnrollDecision::AlreadyGraduated
    );
    assert_eq!(enroll_decision(false, false, false), EnrollDecision::CreateNew);
}

#[test]
fn test_enroll_skip_idempotent() {
    // Enrolling a song with an active record skips it and changes nothing;
    // a second identical call gives the same answer.
    let now = 5000i64;
    let path = vec![1i64, 2, 3];
    let existing = strings(&["S1"]);
    let mut store = vec![record("L1", "S1", 4, 1000, 1000, false)];
    for _ in 0..2 {
        let out = enroll_batch(
            &mut store,
            &existing,
            &strings(&["S1"]),
            &Vec::new(),
            7,
            now,
            &strings(&["N1"]),
            &path,
        )
        .unwrap();
        assert!(out.created_ids.is_empty());
        assert_eq!(out.skipped_song_ids, strings(&["S1"]));
        assert!(out.already_graduated_song_ids.is_empty());
        assert_eq!(store.len(), 1);
        assert_eq!(store[0].level, 4);
    }
}

#[test]
fn test_enroll_relearn_restart() {
    // Re-enrolling a graduated song with a relearn request starts a new
    // record at the requested level; the graduated record stays graduated.
    let now = 5000i64;
    let path = vec![1i64, 2, 3];
    let existing = strings(&["S1"]);
    let mut store = vec![record("L1", "S1", 19, 1000, 1000, true)];
    let out = enroll_batch(
        &mut store,
        &existing,
        &strings(&["S1"]),
        &strings(&["S1"]),
        5,
        now,
        &strings(&["N1"]),
        &path,
    )
    .unwrap();
    assert_eq!(out.created_ids, strings(&["N1"]));
    assert!(out.skipped_song_ids.is_empty());
    assert!(out.already_graduated_song_ids.is_empty());
    assert_eq!(store.len(), 2);
    // The graduated record is untouched.
    assert!(store[0].graduated);
    assert_eq!(store[0].level, 19);
    // The new record starts at level 5, level-up instant now, not graduated.
    assert_eq!(store[1].id, "N1");
    assert_eq!(store[1].level, 5);
    assert_eq!(store[1].last_level_up_at, now);
    assert!(!store[1].graduated);
}

#[test]
fn test_enroll_graduated_without_relearn() {
    let now = 5000i64;
    let path = vec![1i64];
    let existing = strings(&["S1"]);
    let mut store = vec![record("L1", "S1", 19, 1000, 1000, true)];
    let out = enroll_batch(
        &mut store,
        &existing,
        &strings(&["S1"]),
        &Vec::new(),
        7,
        now,
        &strings(&["N1"]),
        &path,
    )
    .unwrap();
    assert!(out.created_ids.is_empty());
    assert_eq!(out.already_graduated_song_ids, strings(&["S1"]));
    assert_eq!(store.len(), 1);
}

#[test]
fn test_enroll_mixed_scenario() {
    // S1 has no record, S2 has an active one: one created, S2 skipped.
    let now = 5000i64;
    let path = vec![1i64, 2];
    let existing = strings(&["S1", "S2"]);
    let mut store = vec![record("L2", "S2", 3, 1000, 1000, false)];
    let out = enroll_batch(
        &mut store,
        &existing,
        &strings(&["S1", "S2"]),
        &Vec::new(),
        7,
        now,
        &strings(&["N1", "N2"]),
        &path,
    )
    .unwrap();
    assert_eq!(out.created_ids, strings(&["N1"]));
    assert_eq!(out.skipped_song_ids, strings(&["S2"]));
    assert!(out.already_graduated_song_ids.is_empty());
    assert_eq!(store.len(), 2);
    // A fresh record starts at level zero with no level-up instant.
    assert_eq!(store[1].song_id, "S1");
    assert_eq!(store[1].level, 0);
    assert_eq!(store[1].last_level_up_at, 0);
    assert_eq!(store[1].created_at, now);
}

#[test]
fn test_enroll_missing_song_aborts() {
    let now = 5000i64;
    let path = vec![1i64];
    let existing = strings(&["S1"]);
    let mut store: Vec<LearningRecord> = vec![];
    let r = enroll_batch(
        &mut store,
        &existing,
        &strings(&["S1", "S9"]),
        &Vec::new(),
        7,
        now,
        &strings(&["N1", "N2"]),
        &path,
    );
    let err = r.unwrap_err();
    assert_eq!(err.message(), "song not found: S9");
    assert!(matches!(err, AppError::NotFound(_)));
    assert!(store.is_empty());
}

#[test]
fn test_enroll_empty_rejected() {
    let mut store: Vec<LearningRecord> = vec![];
    let r = enroll_batch(
        &mut store,
        &Vec::new(),
        &Vec::new(),
        &Vec::new(),
        7,
        0,
        &Vec::new(),
        &Vec::new(),
    );
    assert_eq!(r.unwrap_err().message(), "song_ids cannot be empty");
}

#[test]
fn test_enroll_same_song_twice_in_one_batch() {
    // The second occurrence sees the record the first one created.
    let now = 5000i64;
    let path = vec![1i64];
    let existing = strings(&["S1"]);
    let mut store: Vec<LearningRecord> = vec![];
    let out = enroll_batch(
        &mut store,
        &existing,
        &strings(&["S1", "S1"]),
        &Vec::new(),
        7,
        now,
        &strings(&["N1", "N2"]),
        &path,
    )
    .unwrap();
    assert_eq!(out.created_ids, strings(&["N1"]));
    assert_eq!(out.skipped_song_ids, strings(&["S1"]));
    assert_eq!(store.len(), 1);
}
