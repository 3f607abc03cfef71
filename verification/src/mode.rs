//! The shapes a `zeron` process can have, and how each of them logs.

use vstd::prelude::*;

verus! {

/// Which process shape is running. Controls the default filter, the log file
/// name, and whether file logging applies.
#[derive(Copy, Clone, Debug, PartialEq, Eq, Structural)]
pub enum LogMode {
    Headed,
    Headless,
    Mcp,
    Cli,
}

/// What a command line asks for.
#[derive(Copy, Clone, Debug, PartialEq, Eq, Structural)]
pub enum Command {
    /// Run the engine without a UI.
    Headless,
    /// Sign in.
    Login,
    /// Sign out.
    Logout,
    /// Show the workspace mode, authentication and engine status.
    Status,
    /// Show the live sync state of the running engine.
    Sync,
    /// Trigger an appshot in the running headed instance.
    Appshot,
    /// Serve the Model Context Protocol on stdin and stdout.
    Mcp,
    /// Manage the background service.
    Daemon { command: DaemonCommand },
    /// Look for a newer release, and apply it unless only asked to check.
    Update { check: bool },
}

/// What to do with the background service.
#[derive(Copy, Clone, Debug, PartialEq, Eq, Structural)]
pub enum DaemonCommand {
    Install,
    Uninstall,
    Start,
    Stop,
    Restart,
    Status,
}

/// Where the filter of the log comes from.
#[derive(Copy, Clone, Debug)]
pub enum FilterSource {
    /// The filter that the environment gives.
    Environment,
    /// This filter.
    Default(&'static str),
}

/// What a process does about log files when it starts.
#[derive(Copy, Clone, Debug, PartialEq, Eq, Structural)]
pub enum FileStep {
    /// It sweeps stale logs and opens none.
    Sweep,
    /// It opens its log, which sweeps stale ones first.
    Open,
}

/// How a process sets up its log.
#[derive(Copy, Clone, Debug)]
pub struct LogSetup {
    pub filter: FilterSource,
    pub files: FileStep,
}

impl LogMode {
    /// The name of the mode, as it stands in file names.
    pub open spec fn name(self) -> Seq<char> {
        match self {
            LogMode::Headed => "headed"@,
            LogMode::Headless => "headless"@,
            LogMode::Mcp => "mcp"@,
            LogMode::Cli => "cli"@,
        }
    }

    /// The filter of the mode where the environment gives none.
    pub open spec fn filter(self) -> Seq<char> {
        match self {
            LogMode::Headed | LogMode::Headless => "info,loro_internal=warn,loro=warn"@,
            LogMode::Mcp | LogMode::Cli => "warn"@,
        }
    }

    /// The mode of a process that runs `command`, the UI where there is none.
    pub open spec fn running(command: Option<Command>) -> LogMode {
        match command {
            None => LogMode::Headed,
            Some(Command::Headless) => LogMode::Headless,
            Some(Command::Mcp) => LogMode::Mcp,
            Some(_) => LogMode::Cli,
        }
    }

    /// The name of the mode, as it stands in file names.
    pub fn as_str(self) -> (r: &'static str)
        ensures
            r@ == self.name(),
    {
        match self {
            LogMode::Headed => "headed",
            LogMode::Headless => "headless",
            LogMode::Mcp => "mcp",
            LogMode::Cli => "cli",
        }
    }

    /// The filter of the mode where the environment gives none: long-running
    /// engines log at `info` with noisy internals quieted, the others at `warn`.
    pub fn default_filter(self) -> (r: &'static str)
        ensures
            r@ == self.filter(),
    {
        match self {
            LogMode::Headed | LogMode::Headless => "info,loro_internal=warn,loro=warn",
            LogMode::Mcp | LogMode::Cli => "warn",
        }
    }

    /// Whether the mode logs to a file. One-shot commands print normally and
    /// need none.
    pub fn writes_file(self) -> (r: bool)
        ensures
            r == (self != LogMode::Cli),
    {
        match self {
            LogMode::Cli => false,
            _ => true,
        }
    }

    /// The mode of a process that runs `command`, the UI where there is none.
    pub fn of_command(command: Option<Command>) -> (r: LogMode)
        ensures
            r == LogMode::running(command),
    {
        match command {
            None => LogMode::Headed,
            Some(Command::Headless) => LogMode::Headless,
            Some(Command::Mcp) => LogMode::Mcp,
            Some(_) => LogMode::Cli,
        }
    }
}

impl LogSetup {
    /// How a process of mode `mode` sets up its log. A filter in the environment
    /// wins over the mode's own. A process that opens no log still sweeps, so that
    /// logs do not outlive their days where only one-shot commands ever run.
    pub fn new(mode: LogMode, environment_filters: bool) -> (r: LogSetup)
        ensures
            environment_filters ==> r.filter is Environment,
            !environment_filters ==> r.filter is Default && r.filter->Default_0@ == mode.filter(),
            r.files == (if mode == LogMode::Cli {
                FileStep::Sweep
            } else {
                FileStep::Open
            }),
    {
        LogSetup {
            filter: if environment_filters {
                FilterSource::Environment
            } else {
                FilterSource::Default(mode.default_filter())
            },
            files: if mode.writes_file() {
                FileStep::Open
            } else {
                FileStep::Sweep
            },
        }
    }
}

/// The UI runs where no command is given, and nowhere else; the engine alone and the protocol
/// server log as themselves; every other command is a one-shot one.
pub proof fn commands_tell_their_mode(command: Option<Command>)
    ensures
        LogMode::running(command) == LogMode::Headed <==> command is None,
        LogMode::running(command) == LogMode::Headless <==> command == Some(Command::Headless),
        LogMode::running(command) == LogMode::Mcp <==> command == Some(Command::Mcp),
        LogMode::running(command) == LogMode::Cli <==> command is Some && command != Some(
            Command::Headless,
        ) && command != Some(Command::Mcp),
{
}

/// Modes have names of their own, of lower-case letters.
pub proof fn mode_names_are_their_own(mode: LogMode, other: LogMode)
    ensures
        mode.name() == other.name() ==> mode == other,
        mode.name().len() > 0,
        forall|i: int| 0 <= i < mode.name().len() ==> 'a' <= #[trigger] mode.name()[i] <= 'z',
{
    reveal_strlit("headed");
    reveal_strlit("headless");
    reveal_strlit("mcp");
    reveal_strlit("cli");
    if mode.name() == other.name() {
        assert(mode.name()[0] == other.name()[0]);
        assert(mode.name().len() == other.name().len());
    }
}

/// What runs for long, with a window or without, logs more than what answers and goes.
pub proof fn engines_log_more(mode: LogMode)
    ensures
        mode == LogMode::Headed || mode == LogMode::Headless ==> mode.filter()
            == "info,loro_internal=warn,loro=warn"@,
        mode == LogMode::Mcp || mode == LogMode::Cli ==> mode.filter() == "warn"@,
{
}

}
