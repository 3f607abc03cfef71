use zeron::mode::{Command, DaemonCommand, FileStep, FilterSource, LogMode, LogSetup};

#[test]
fn modes_have_names() {
    assert_eq!(LogMode::Headed.as_str(), "headed");
    assert_eq!(LogMode::Headless.as_str(), "headless");
    assert_eq!(LogMode::Mcp.as_str(), "mcp");
    assert_eq!(LogMode::Cli.as_str(), "cli");
}

#[test]
fn modes_have_default_filters() {
    assert_eq!(LogMode::Headed.default_filter(), "info,loro_internal=warn,loro=warn");
    assert_eq!(LogMode::Headless.default_filter(), "info,loro_internal=warn,loro=warn");
    assert_eq!(LogMode::Mcp.default_filter(), "warn");
    assert_eq!(LogMode::Cli.default_filter(), "warn");
}

#[test]
fn only_one_shot_commands_have_no_file() {
    assert!(LogMode::Headed.writes_file());
    assert!(LogMode::Headless.writes_file());
    assert!(LogMode::Mcp.writes_file());
    assert!(!LogMode::Cli.writes_file());
}

#[test]
fn commands_choose_the_mode() {
    assert_eq!(LogMode::of_command(None), LogMode::Headed);
    assert_eq!(LogMode::of_command(Some(Command::Headless)), LogMode::Headless);
    assert_eq!(LogMode::of_command(Some(Command::Mcp)), LogMode::Mcp);
    for command in [
        Command::Login,
        Command::Logout,
        Command::Status,
        Command::Sync,
        Command::Appshot,
        Command::Daemon { command: DaemonCommand::Install },
        Command::Update { check: true },
    ] {
        assert_eq!(LogMode::of_command(Some(command)), LogMode::Cli);
    }
}

#[test]
fn the_environment_wins_over_the_default_filter() {
    for mode in [LogMode::Headed, LogMode::Headless, LogMode::Mcp, LogMode::Cli] {
        assert!(matches!(LogSetup::new(mode, true).filter, FilterSource::Environment));
        match LogSetup::new(mode, false).filter {
            FilterSource::Default(filter) => assert_eq!(filter, mode.default_filter()),
            FilterSource::Environment => panic!("there is no filter in the environment"),
        }
    }
}

#[test]
fn processes_without_a_log_still_sweep() {
    assert_eq!(LogSetup::new(LogMode::Cli, false).files, FileStep::Sweep);
    assert_eq!(LogSetup::new(LogMode::Cli, true).files, FileStep::Sweep);
    assert_eq!(LogSetup::new(LogMode::Headed, false).files, FileStep::Open);
    assert_eq!(LogSetup::new(LogMode::Mcp, true).files, FileStep::Open);
}
