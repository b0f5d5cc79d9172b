//! Names and handling of the store's files, and the run-side records.
use qcg_server::idempotency::files::{
    after_staging, begin_sweep, bounded_read, check_opened, open_no_follow_once,
    open_no_follow_or_create, pending_file, pending_file_name, plan_open, ready_file,
    ready_file_name, reap_stale_claim_tmps, reset_temp_sweep_for_tests, staging_name, Access, Creation,
    OpenAttempt, OpenResult, OpenStep, StageResult, StageStep, SweepAction, SweepClock, SweepEntry,
    SweepReport,
};
use qcg_server::idempotency::orphan::{
    check_orphan_size, find_orphan_run, is_candidate, is_unsafe_run_id, write_orphan_record,
    RunEntry,
};
use qcg_server::idempotency::record::{
    BoundedRead, OrphanIdempotencyRecord, PendingFile, ReadyFile,
};

const NOW: u64 = 1_700_000_000;

fn sidecar(name: &str, key: &str, digest: &str, run_id: &str, created: u64) -> RunEntry {
    RunEntry {
        name: name.to_string(),
        is_dir: true,
        sidecar: Some(OrphanIdempotencyRecord {
            key: key.to_string(),
            digest: digest.to_string(),
            run_id: run_id.to_string(),
            created_at_unix: created,
        }),
    }
}

#[test]
fn file_names_are_digests_of_the_key() {
    let stem = "2c70e12b7a0646f92279f427c7b38e7334d8e5389cff167a1dc30e73f826b683";
    assert_eq!(ready_file_name("key"), format!("{stem}.json"));
    assert_eq!(pending_file_name("key"), format!("{stem}.pending.json"));
    assert_ne!(ready_file_name("key"), ready_file_name("key2"));
}

#[test]
fn oversized_files_are_unreadable() {
    match bounded_read("/s/a.json", vec![b'x'; 65_536]) {
        BoundedRead::Present(bytes) => assert_eq!(bytes.len(), 65_536),
        other => panic!("the limit itself is fine: {other:?}"),
    }
    match bounded_read("/s/a.json", vec![b'x'; 65_537]) {
        BoundedRead::Unreadable(detail) => {
            assert_eq!(detail, "idempotency file `/s/a.json` exceeds 65536 bytes")
        }
        other => panic!("beyond the limit must be unreadable: {other:?}"),
    }
}

#[test]
fn file_content_is_never_read_as_absence() {
    assert!(matches!(ready_file(BoundedRead::Absent, Err(String::new())), ReadyFile::Absent));
    assert!(matches!(
        ready_file(BoundedRead::Present(Vec::new()), Err("eof".to_string())),
        ReadyFile::Empty
    ));
    match ready_file(BoundedRead::Present(vec![b'{']), Err("eof".to_string())) {
        ReadyFile::Corrupt(detail) => assert_eq!(detail, "eof"),
        other => panic!("must be corrupt: {other:?}"),
    }
    match pending_file(BoundedRead::Present(vec![b'{']), Err("eof".to_string())) {
        PendingFile::Corrupt(detail) => assert_eq!(detail, "eof"),
        other => panic!("must be corrupt: {other:?}"),
    }
    match pending_file(BoundedRead::Unreadable("io".to_string()), Err(String::new())) {
        PendingFile::Unreadable(detail) => assert_eq!(detail, "io"),
        other => panic!("must be unreadable: {other:?}"),
    }
}

#[test]
fn opening_is_planned_from_the_path() {
    let plan = open_no_follow_once("/store/idempotency/a.json", true, false, false, false)
        .expect("a plain file path is planned");
    assert_eq!(plan.parent, "/store/idempotency");
    assert_eq!(plan.file_name, "a.json");
    assert!(!plan.follow_links, "a planted link is not followed");
    assert!(!plan.may_wait, "a planted pipe does not hold the server up");
    assert_eq!(plan.access, Access::Read);
    assert_eq!(plan.creation, Creation::Existing);
    let plan = open_no_follow_once("/store/a.json", true, true, true, true).expect("planned");
    assert_eq!(plan.access, Access::ReadWrite);
    assert_eq!(plan.creation, Creation::Exclusive);
    assert_eq!(
        open_no_follow_once("/store/a", false, false, false, false).expect_err("no access asked"),
        "idempotency file `/store/a` requires read and/or write"
    );
    assert_eq!(
        open_no_follow_once("/", true, false, false, false).expect_err("a root has no parent"),
        "idempotency file `/` has no parent"
    );
    assert_eq!(
        open_no_follow_once("/store/..", true, false, false, false).expect_err("no file name"),
        "idempotency file `/store/..` has no file name"
    );
    for (path, parent, name) in [
        ("a.json", "", "a.json"),
        (".hidden", "", ".hidden"),
        ("...", "", "..."),
        ("/a.json", "/", "a.json"),
        ("./a.json", ".", "a.json"),
        ("../a.json", "..", "a.json"),
        ("dir./a.json", "dir.", "a.json"),
    ] {
        let plan = open_no_follow_once(path, true, false, false, false).expect("planned");
        assert_eq!((plan.parent.as_str(), plan.file_name.as_str()), (parent, name));
    }
    assert_eq!(
        open_no_follow_once("a\0b", true, false, false, false).expect_err("NUL"),
        "idempotency file `a\0b` contains a NUL byte"
    );
    let named = |name: &str| {
        plan_open("p", Some("d".to_string()), Some(name.to_string()), false, true, true, false)
    };
    assert_eq!(named("..").expect_err("unsafe"), "idempotency file `p` has an unsafe file name");
    assert_eq!(named("a\0b").expect_err("NUL"), "idempotency file `p` contains a NUL byte");
    let plan = named("ok").expect("planned");
    assert_eq!((plan.access, plan.creation), (Access::Write, Creation::IfMissing));
    assert_eq!(check_opened("p", true), Ok(()));
    assert_eq!(
        check_opened("p", false),
        Err("idempotency file `p` is not a regular file".to_string())
    );
}

#[test]
fn opening_or_creating_ends_after_eight_rounds() {
    let create = OpenAttempt::CreateExclusively;
    let existing = OpenAttempt::OpenExisting;
    assert_eq!(open_no_follow_or_create(create, 0, OpenResult::Opened), OpenStep::Done);
    assert_eq!(open_no_follow_or_create(create, 0, OpenResult::Failed), OpenStep::Fail);
    assert_eq!(
        open_no_follow_or_create(create, 0, OpenResult::AlreadyExists),
        OpenStep::Try { attempt: existing, round: 0 }
    );
    let mut round = 0;
    let mut rounds = 1;
    while let OpenStep::Try { round: next, .. } =
        open_no_follow_or_create(existing, round, OpenResult::NotFound)
    {
        round = next;
        rounds += 1;
    }
    assert_eq!(rounds, 8);
}

#[test]
fn staging_gives_up_after_three_collisions() {
    assert_eq!(after_staging(1, StageResult::Staged), StageStep::Publish);
    assert_eq!(after_staging(1, StageResult::Failed), StageStep::Fail);
    assert_eq!(after_staging(1, StageResult::Collided), StageStep::Retry { attempts: 2 });
    assert_eq!(after_staging(2, StageResult::Collided), StageStep::Retry { attempts: 3 });
    assert_eq!(after_staging(3, StageResult::Collided), StageStep::Refuse);
}

#[test]
fn staged_files_are_named_so_that_the_sweep_finds_them() {
    for (name, staged) in [
        ("ab.json", "ab.tmp-7"),
        ("ab.pending.json", "ab.pending.tmp-7"),
        ("idempotency.json", "idempotency.tmp-7"),
        ("plain", "plain.tmp-7"),
        (".hidden", ".hidden.tmp-7"),
        ("dot.", "dot.tmp-7"),
    ] {
        assert_eq!(staging_name(name, "7"), staged);
        let old = SweepEntry::Other { modified: Some(NOW - 3600) };
        assert_eq!(reap_stale_claim_tmps(staged, &old, NOW), SweepAction::Remove);
    }
    for name in [ready_file_name("key"), pending_file_name("key")] {
        let old = SweepEntry::Other { modified: Some(0) };
        assert_eq!(reap_stale_claim_tmps(&name, &old, NOW), SweepAction::Keep);
    }
}

#[test]
fn a_sweep_reports_its_first_failure() {
    let clean = SweepReport::new();
    assert_eq!(clean.finish(), Ok(()));
    let mut report = SweepReport::new();
    report.note("first".to_string());
    report.note("second".to_string());
    assert_eq!(report.finish(), Err("first".to_string()));
}

#[test]
fn stale_claim_tmps_reap_by_age_only() {
    let mut clock = SweepClock::new();
    reset_temp_sweep_for_tests(&mut clock);
    assert!(begin_sweep(&mut clock, &"store".to_string(), NOW));
    let stale = SweepEntry::Other { modified: Some(NOW - 3600) };
    let fresh = SweepEntry::Other { modified: Some(NOW) };
    assert_eq!(
        reap_stale_claim_tmps("abc.tmp-old", &stale, NOW),
        SweepAction::Remove,
        "an abandoned temp must be reaped"
    );
    assert_eq!(
        reap_stale_claim_tmps("abc.tmp-new", &fresh, NOW),
        SweepAction::Keep,
        "a fresh temp must survive the reap"
    );
    assert_eq!(reap_stale_claim_tmps("abc.json", &stale, NOW), SweepAction::Keep);
    assert_eq!(reap_stale_claim_tmps("abc.tmp-l", &SweepEntry::Link, NOW), SweepAction::Remove);
    assert_eq!(
        reap_stale_claim_tmps("abc.tmp-x", &SweepEntry::Unreadable("io".to_string()), NOW),
        SweepAction::Report
    );
    assert_eq!(
        reap_stale_claim_tmps("abc.tmp-x", &SweepEntry::Other { modified: None }, NOW),
        SweepAction::Keep
    );
}

#[test]
fn sweeps_are_spaced_per_store() {
    let mut clock = SweepClock::new();
    let (a, b) = ("a".to_string(), "b".to_string());
    assert!(begin_sweep(&mut clock, &a, NOW));
    assert!(!begin_sweep(&mut clock, &a, NOW + 59));
    assert!(begin_sweep(&mut clock, &b, NOW + 59), "stores do not hold each other back");
    assert!(begin_sweep(&mut clock, &a, NOW + 60));
    reset_temp_sweep_for_tests(&mut clock);
    assert!(begin_sweep(&mut clock, &a, NOW + 60));
}

#[test]
fn expired_orphan_sidecar_never_pins_the_key() {
    let entries = vec![
        sidecar("run-old", "key-ttl", "old-digest", "run-old", 1),
        RunEntry { name: "run-bad".to_string(), is_dir: true, sidecar: None },
    ];
    let search = find_orphan_run(&entries, "key-ttl", Some(NOW), 3600);
    assert_eq!(
        search.found.expect("expired and corrupt sidecars must be skipped, not fail the key"),
        None,
        "expired orphan must not pin the key"
    );
    assert_eq!(search.expired, vec![0], "the expired record is reaped");
}

#[test]
fn a_live_sidecar_is_found_once() {
    let entries = vec![
        sidecar("idempotency", "k", "x", "idempotency", NOW),
        sidecar(".tmp", "k", "x", ".tmp", NOW),
        sidecar("run-1", "other", "d", "run-1", NOW),
        sidecar("run-2", "k", "d", "run-2", NOW),
    ];
    let search = find_orphan_run(&entries, "k", Some(NOW), 3600);
    assert_eq!(search.found.expect("found"), Some(("run-2".to_string(), "d".to_string())));
    assert!(search.expired.is_empty());
    let misplaced = vec![sidecar("run-1", "k", "d", "run-9", NOW)];
    assert_eq!(
        find_orphan_run(&misplaced, "k", Some(NOW), 3600).found.expect_err("misplaced"),
        "orphan record for key `k` names `run-9` but lives in `run-1`"
    );
    let twice = vec![
        sidecar("run-1", "k", "d", "run-1", NOW),
        sidecar("run-2", "k", "d", "run-2", NOW),
    ];
    assert_eq!(
        find_orphan_run(&twice, "k", Some(NOW), 3600).found.expect_err("twice"),
        "duplicate orphan records for key `k`: (`run-1`, digest `d`) vs (`run-2`, digest `d`)"
    );
    let live = vec![sidecar("run-1", "k", "d", "run-1", NOW)];
    assert!(find_orphan_run(&live, "k", None, 3600).found.is_err(), "no clock, no decision");
}

#[test]
fn run_side_records_name_a_safe_run() {
    assert!(is_candidate("run-1"));
    assert!(!is_candidate("idempotency"));
    assert!(!is_candidate(".hidden"));
    assert!(!is_unsafe_run_id("run-1"));
    for bad in ["", ".", "..", "a/b", "a\\b"] {
        assert!(is_unsafe_run_id(bad), "{bad}");
        assert!(write_orphan_record(bad, "k", "d", Some(NOW)).is_err(), "{bad}");
    }
    let record = write_orphan_record("run-1", "k", "d", Some(NOW)).expect("written");
    assert_eq!(
        (record.run_id.as_str(), record.key.as_str(), record.digest.as_str(), record.created_at_unix),
        ("run-1", "k", "d", NOW)
    );
    assert!(write_orphan_record("run-1", "k", "d", None).is_err());
    assert_eq!(check_orphan_size(65_536), Ok(()));
    assert_eq!(check_orphan_size(65_537), Err("orphan record exceeds size bound".to_string()));
}
