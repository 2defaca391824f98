use stampname::cli::Cli;
use stampname::cli::Commands;

fn args_of(parts: &[&str]) -> Vec<String> {
    parts.iter().map(|s| s.to_string()).collect()
}

#[test]
fn test_handle_subcommand_rename_args() {
    let args = args_of(&["test", "rename", "--recursive", "--verbose", "--dry-run", "list.txt"]);
    let cli = Cli::parse_from(args);
    if let Some(Commands::Rename { recursive, paths, common }) = cli.command {
        assert!(recursive, "Expected recursive to be true: {}", recursive);
        assert_eq!(
            paths,
            Some(vec!["list.txt".to_string()]),
            "Expected paths to be Some([\"list.txt\"])"
        );
        assert!(common.verbose, "Expected verbose to be true: {}", common.verbose);
        assert!(common.dry_run, "Expected dry_run to be true: {}", common.dry_run);
    } else {
        panic!("Expected Rename command");
    }
}

#[test]
fn test_handle_subcommand_rename_args_with_verbose_false() {
    let args = args_of(&["test", "rename", "--recursive", "--dry-run", "list.txt"]);
    let cli = Cli::parse_from(args);
    if let Some(Commands::Rename { recursive, paths, common }) = cli.command {
        assert!(recursive, "Expected recursive to be true: {}", recursive);
        assert_eq!(
            paths,
            Some(vec!["list.txt".to_string()]),
            "Expected paths to be Some([\"list.txt\"])"
        );
        assert!(!common.verbose, "Expected verbose to be false: {}", common.verbose);
        assert!(common.dry_run, "Expected dry_run to be true: {}", common.dry_run);
    } else {
        panic!("Expected Rename command");
    }
}

#[test]
fn parse_rename_short_flags() {
    let cli = Cli::parse_from(args_of(&["prog", "rename", "-r", "-v", "-d", "a.txt", "b.txt"]));
    if let Some(Commands::Rename { recursive, paths, common }) = cli.command {
        assert!(recursive);
        assert!(common.verbose);
        assert!(common.dry_run);
        assert_eq!(paths, Some(vec!["a.txt".to_string(), "b.txt".to_string()]));
    } else {
        panic!("Expected Rename command");
    }
}

#[test]
fn parse_rename_defaults() {
    let cli = Cli::parse_from(args_of(&["prog", "rename"]));
    if let Some(Commands::Rename { recursive, paths, common }) = cli.command {
        assert!(!recursive);
        assert!(!common.verbose);
        assert!(!common.dry_run);
        assert_eq!(paths, None);
    } else {
        panic!("Expected Rename command");
    }
}

#[test]
fn parse_test_subcommand() {
    let cli = Cli::parse_from(args_of(&["prog", "test", "--list"]));
    if let Some(Commands::Test { list, common }) = cli.command {
        assert!(list);
        assert!(!common.verbose);
        assert!(!common.dry_run);
    } else {
        panic!("Expected Test command");
    }
}

#[test]
fn parse_no_subcommand() {
    let cli = Cli::parse_from(args_of(&["prog"]));
    assert!(cli.command.is_none());
    let cli = Cli::parse_from(args_of(&["prog", "delete", "x"]));
    assert!(cli.command.is_none());
}
