use stampname::cli::CommonOpts;
use stampname::cli::ProjectType;
use stampname::errors::RenameError;
use stampname::executor::ExecAction;
use stampname::executor::Outcome;
use stampname::executor::RenameAttempt;
use stampname::executor::decide_action;
use stampname::executor::execute;
use stampname::executor::report_line;
use stampname::plan::RenamePlan;
use stampname::rename_command::RenameCommand;
use stampname::test_command::TestCommand;

fn rename_plan() -> RenamePlan {
    RenamePlan {
        source_path: "a.txt".to_string(),
        target_path: Some("20230101_120000_a.txt".to_string()),
    }
}

fn skip_plan() -> RenamePlan {
    RenamePlan { source_path: "sub".to_string(), target_path: None }
}

#[test]
fn dry_run_never_mutates() {
    // in dry-run mode no plan asks for a filesystem action
    assert!(matches!(decide_action(&rename_plan(), true), ExecAction::NoMutation));
    assert!(matches!(decide_action(&skip_plan(), true), ExecAction::NoMutation));
    assert_eq!(execute(&rename_plan(), true, None), Outcome::Simulated);
}

#[test]
fn live_run_requests_the_planned_rename() {
    match decide_action(&rename_plan(), false) {
        ExecAction::DoRename { source, target } => {
            assert_eq!(source, "a.txt");
            assert_eq!(target, "20230101_120000_a.txt");
        }
        ExecAction::NoMutation => panic!("expected a rename action"),
    }
    assert!(matches!(decide_action(&skip_plan(), false), ExecAction::NoMutation));
}

#[test]
fn outcomes_follow_the_attempt() {
    assert_eq!(execute(&skip_plan(), false, None), Outcome::Skipped);
    assert_eq!(execute(&skip_plan(), true, None), Outcome::Skipped);
    assert_eq!(
        execute(&rename_plan(), false, Some(RenameAttempt::Completed)),
        Outcome::Renamed
    );
    assert_eq!(
        execute(&rename_plan(), false, Some(RenameAttempt::SourceMissing)),
        Outcome::NotFound
    );
    assert_eq!(
        execute(&rename_plan(), false, Some(RenameAttempt::IoFailure)),
        Outcome::Failed
    );
}

#[test]
fn dry_run_reports_match_live_reports() {
    let live = report_line("a.txt", "20230101_120000_a.txt", false);
    let dry = report_line("a.txt", "20230101_120000_a.txt", true);
    assert_eq!(live, "a.txt -> 20230101_120000_a.txt");
    assert_eq!(dry, "a.txt -> 20230101_120000_a.txt (dry-run)");
    // aside from the marker at the end, the two lines agree
    assert_eq!(&dry[..live.len()], live.as_str());
}

#[test]
fn error_messages() {
    assert_eq!(RenameError::PathNotFound.message(), "path not found");
    assert_eq!(RenameError::DirectoryReadError.message(), "directory could not be read");
    assert_eq!(RenameError::MetadataReadError.message(), "file metadata could not be read");
    assert_eq!(RenameError::RenameIoError.message(), "rename failed");
    assert_eq!(RenameError::RaceNotFound.message(), "file vanished before rename");
}

#[test]
fn mode_and_info_lines() {
    let common = CommonOpts { verbose: true, dry_run: true };
    assert_eq!(
        common.mode_lines(),
        vec!["Dry-run mode enabled.".to_string(), "Verbose mode enabled.".to_string()]
    );
    let quiet = CommonOpts { verbose: false, dry_run: false };
    assert!(quiet.mode_lines().is_empty());

    let cmd = RenameCommand::new(true, None, common);
    assert_eq!(
        cmd.info_lines(),
        vec![
            "Dry-run mode enabled.".to_string(),
            "Recursive mode enabled.".to_string(),
            "Verbose mode enabled.".to_string(),
        ]
    );

    let t = TestCommand::new(true, quiet);
    assert_eq!(t.output_lines(), vec!["Listing test values...".to_string()]);
}

#[test]
fn project_type_names() {
    assert_eq!(ProjectType::CSharp.name(), "csharp");
    assert_eq!(ProjectType::Rust.name(), "rust");
    assert_eq!(ProjectType::Angular.name(), "angular");
    assert_eq!(ProjectType::Node.name(), "node");
}
