use stampname::errors::RenameError;
use stampname::plan::generate_new_name_with_timestamp;
use stampname::plan::plan_batch;
use stampname::plan::plan_with_parts;
use stampname::timestamp::LocalTimeParts;
use stampname::timestamp::has_timestamp_prefix;
use stampname::walk::CandidateEntry;

fn noon() -> LocalTimeParts {
    LocalTimeParts { year: 2023, month: 1, day: 1, hour: 12, minute: 0, second: 0 }
}

#[test]
fn plan_prefixes_plain_file() {
    let plan = plan_with_parts("/tmp/x/a.txt", false, Some(noon())).unwrap();
    assert_eq!(plan.source_path, "/tmp/x/a.txt");
    assert_eq!(plan.target_path, Some("/tmp/x/20230101_120000_a.txt".to_string()));
}

#[test]
fn plan_skips_directories() {
    let plan = plan_with_parts("/tmp/x/sub", true, Some(noon())).unwrap();
    assert_eq!(plan.target_path, None);
}

#[test]
fn plan_skips_already_stamped() {
    let plan = plan_with_parts("/tmp/x/20230101_120000_c.txt", false, Some(noon())).unwrap();
    assert_eq!(plan.target_path, None);
}

#[test]
fn plan_reports_missing_metadata() {
    let r = plan_with_parts("/tmp/x/a.txt", false, None);
    assert_eq!(r.unwrap_err(), RenameError::MetadataReadError);
    // a creation time whose year does not fit four digits is a metadata fault
    let far = LocalTimeParts { year: 10000, month: 1, day: 1, hour: 0, minute: 0, second: 0 };
    let r = plan_with_parts("/tmp/x/a.txt", false, Some(far));
    assert_eq!(r.unwrap_err(), RenameError::MetadataReadError);
}

#[test]
fn rename_is_idempotent_on_produced_names() {
    // run once...
    let first = plan_with_parts("/tmp/x/a.txt", false, Some(noon())).unwrap();
    let produced = first.target_path.unwrap();
    // ...and the name the first run produced is skipped by the second
    let second = plan_with_parts(&produced, false, Some(noon())).unwrap();
    assert_eq!(second.target_path, None);
}

#[test]
fn rename_is_idempotent_on_normalized_names() {
    // a decomposed name is normalized into the produced name; renaming that
    // result again plans nothing
    let first = plan_with_parts("/tmp/x/cafe\u{301}.txt", false, Some(noon())).unwrap();
    let produced = first.target_path.unwrap();
    assert_eq!(produced, "/tmp/x/20230101_120000_caf\u{e9}.txt");
    let second = plan_with_parts(&produced, false, Some(noon())).unwrap();
    assert_eq!(second.target_path, None);
}

#[test]
fn equivalent_encodings_get_one_target_name() {
    let composed = plan_with_parts("caf\u{e9}.txt", false, Some(noon())).unwrap();
    let decomposed = plan_with_parts("cafe\u{301}.txt", false, Some(noon())).unwrap();
    assert_eq!(composed.target_path, decomposed.target_path);
    assert_eq!(composed.target_path, Some("20230101_120000_caf\u{e9}.txt".to_string()));
}

#[test]
fn epoch_based_plan_produces_a_stamped_name() {
    let r = generate_new_name_with_timestamp("a.txt", false, Some(1_000_000_000)).unwrap();
    let target = r.target_path.unwrap();
    assert!(has_timestamp_prefix(&target));
    assert!(target.ends_with("_a.txt"));
    // the epoch moment lands in 2001 in every time zone
    assert!(target.starts_with("2001"));
}

#[test]
fn epoch_based_plan_reports_unconvertible_times() {
    // a creation time outside chrono's range is a per-file metadata fault
    let r = generate_new_name_with_timestamp("a.txt", false, Some(i64::MAX));
    assert_eq!(r.unwrap_err(), RenameError::MetadataReadError);
    let r = generate_new_name_with_timestamp("a.txt", false, None);
    assert_eq!(r.unwrap_err(), RenameError::MetadataReadError);
}

#[test]
fn batch_survives_one_metadata_failure() {
    // three files; the middle one cannot provide a creation time
    let entries = vec![
        CandidateEntry { path: "/tmp/x/a.txt".to_string(), is_directory: false },
        CandidateEntry { path: "/tmp/x/b.txt".to_string(), is_directory: false },
        CandidateEntry { path: "/tmp/x/20230101_120000_c.txt".to_string(), is_directory: false },
    ];
    let created = vec![Some(1_000_000_000_i64), None, Some(1_000_000_000_i64)];
    let plans = plan_batch(&entries, &created);
    assert_eq!(plans.len(), 3);
    // the failure is confined to its own entry
    let a = plans[0].as_ref().unwrap();
    assert!(a.target_path.is_some());
    assert!(has_timestamp_prefix(
        a.target_path.as_ref().unwrap().strip_prefix("/tmp/x/").unwrap()
    ));
    assert_eq!(plans[1].as_ref().unwrap_err(), &RenameError::MetadataReadError);
    let c = plans[2].as_ref().unwrap();
    assert_eq!(c.target_path, None);
}
