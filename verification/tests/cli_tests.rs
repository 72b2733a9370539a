use d1doctor::cli::{Cli, Commands, ConfigAction, tail_start};

fn argv(parts: &[&str]) -> Vec<String> {
    parts.iter().map(|s| s.to_string()).collect()
}

#[test]
fn test_run_command_parsed() {
    let args = Cli::try_parse_from(&argv(&["d1", "run", "install openclaw"])).unwrap();
    assert!(matches!(args.command, Commands::Run { ref task, .. } if task == "install openclaw"));
}

#[test]
fn test_status_command_parsed() {
    let args = Cli::try_parse_from(&argv(&["d1", "status"])).unwrap();
    assert!(matches!(args.command, Commands::Status { .. }));
}

#[test]
fn test_start_command_parsed() {
    let args = Cli::try_parse_from(&argv(&["d1", "start"])).unwrap();
    assert!(matches!(args.command, Commands::Start));
}

#[test]
fn test_run_with_approve_flag() {
    let args = Cli::try_parse_from(&argv(&["d1", "run", "test task", "--approve"])).unwrap();
    assert!(matches!(args.command, Commands::Run { approve: true, .. }));
}

#[test]
fn test_config_get_parsed() {
    let args = Cli::try_parse_from(&argv(&["d1", "config", "get", "orchestrator.url"])).unwrap();
    assert!(matches!(args.command, Commands::Config { action: ConfigAction::Get { .. } }));
}

#[test]
fn test_doctor_fix_flag() {
    let args = Cli::try_parse_from(&argv(&["d1", "doctor", "--fix"])).unwrap();
    assert!(matches!(args.command, Commands::Doctor { fix: true }));
}

#[test]
fn test_logs_tail_parsed() {
    let args = Cli::try_parse_from(&argv(&["d1", "logs", "--tail", "200"])).unwrap();
    assert!(matches!(args.command, Commands::Logs { tail: 200 }));
    let args = Cli::try_parse_from(&argv(&["d1", "logs"])).unwrap();
    assert!(matches!(args.command, Commands::Logs { tail: 50 }));
}

#[test]
fn test_config_set_parsed() {
    let args =
        Cli::try_parse_from(&argv(&["d1", "config", "set", "orchestrator.url", "ws://x"])).unwrap();
    match args.command {
        Commands::Config { action: ConfigAction::SetValue { key, value } } => {
            assert_eq!(key, "orchestrator.url");
            assert_eq!(value, "ws://x");
        }
        _ => panic!("expected config set"),
    }
}

#[test]
fn test_unknown_command_rejected() {
    assert!(Cli::try_parse_from(&argv(&["d1", "frobnicate"])).is_err());
    assert!(Cli::try_parse_from(&argv(&["d1"])).is_err());
    assert!(Cli::try_parse_from(&argv(&["d1", "run"])).is_err());
    assert!(Cli::try_parse_from(&argv(&["d1", "run", "task", "--bogus"])).is_err());
}

#[test]
fn test_tail_offset_calculation() {
    // Simulate: 10 lines, tail=3 -> start index = 7
    let lines: Vec<&str> = (0..10).map(|_| "line").collect();
    let tail: u32 = 3;
    let start = tail_start(lines.len(), tail);
    assert_eq!(start, 7);
}

#[test]
fn test_tail_offset_clamps_at_zero() {
    // Simulate: 2 lines, tail=50 -> start = 0 (don't go negative)
    let lines: Vec<&str> = vec!["a", "b"];
    let tail: u32 = 50;
    let start = tail_start(lines.len(), tail);
    assert_eq!(start, 0);
}

#[test]
fn test_doctor_output_formatting() {
    // The doctor command parses and reports its fix flag.
    let args = Cli::try_parse_from(&argv(&["d1", "doctor"])).unwrap();
    assert!(matches!(args.command, Commands::Doctor { fix: false }));
}
