//! The command line's actions and the daemon commands they send.
use vstd::prelude::*;
use crate::error::AgwError;

verus! {

/// What `bar` does.
#[derive(Debug, Clone, Copy, PartialEq, Eq, Structural)]
pub enum BarAction {
    Toggle,
    Show,
    Hide,
}

/// What `notification dnd` does.
#[derive(Debug, Clone, Copy, PartialEq, Eq, Structural)]
pub enum DndAction {
    Enable,
    Disable,
    Toggle,
    Status,
}

/// What `notification` does.
#[derive(Debug, Clone, Copy, PartialEq, Eq, Structural)]
pub enum NotificationAction {
    CloseLast,
    Dnd { command: DndAction },
}

/// The command line's subcommands.
#[derive(Debug, Clone, Copy, PartialEq, Eq, Structural)]
pub enum CliAction {
    Session,
    AppLauncher,
    PowerMenu,
    Bar { command: BarAction },
    Notification { command: NotificationAction },
    AudioManager,
    BluetoothManager,
    NetworkdManager,
    WallpaperManager,
}

/// What running a subcommand does.
#[derive(Debug, Clone, Copy, PartialEq, Eq)]
pub enum CliStep {
    /// Send this command to the session daemon and print its answer.
    SendDaemonCommand(&'static str),
    /// Start the session daemon.
    StartSession,
    /// Open the audio manager.
    OpenAudioManager,
    /// Open the Bluetooth manager.
    OpenBluetoothManager,
    /// Open the network manager.
    OpenNetworkdManager,
    /// Open the wallpaper manager.
    OpenWallpaperManager,
}

/// The daemon command of a subcommand that sends one.
pub open spec fn daemon_command(a: CliAction) -> Option<Seq<char>> {
    match a {
        CliAction::AppLauncher => Some("app-launcher toggle"@),
        CliAction::PowerMenu => Some("power-menu toggle"@),
        CliAction::Bar { command } => Some(match command {
            BarAction::Toggle => "topbar toggle"@,
            BarAction::Show => "topbar show"@,
            BarAction::Hide => "topbar hide"@,
        }),
        CliAction::Notification { command } => Some(match command {
            NotificationAction::CloseLast => "notification close-last"@,
            NotificationAction::Dnd { command } => match command {
                DndAction::Enable => "dnd enable"@,
                DndAction::Disable => "dnd disable"@,
                DndAction::Toggle => "dnd toggle"@,
                DndAction::Status => "dnd status"@,
            },
        }),
        _ => None,
    }
}

impl CliAction {
    /// What running the subcommand does.
    pub fn step(&self) -> (s: CliStep)
        ensures
            match daemon_command(*self) {
                Some(c) => s matches CliStep::SendDaemonCommand(m) && m@ == c,
                None => match *self {
                    CliAction::Session => s is StartSession,
                    CliAction::AudioManager => s is OpenAudioManager,
                    CliAction::BluetoothManager => s is OpenBluetoothManager,
                    CliAction::NetworkdManager => s is OpenNetworkdManager,
                    _ => s is OpenWallpaperManager,
                },
            },
    {
        match self {
            CliAction::Session => CliStep::StartSession,
            CliAction::AppLauncher => CliStep::SendDaemonCommand("app-launcher toggle"),
            CliAction::PowerMenu => CliStep::SendDaemonCommand("power-menu toggle"),
            CliAction::Bar { command } => CliStep::SendDaemonCommand(match command {
                BarAction::Toggle => "topbar toggle",
                BarAction::Show => "topbar show",
                BarAction::Hide => "topbar hide",
            }),
            CliAction::Notification { command } => CliStep::SendDaemonCommand(match command {
                NotificationAction::CloseLast => "notification close-last",
                NotificationAction::Dnd { command } => match command {
                    DndAction::Enable => "dnd enable",
                    DndAction::Disable => "dnd disable",
                    DndAction::Toggle => "dnd toggle",
                    DndAction::Status => "dnd status",
                },
            }),
            CliAction::AudioManager => CliStep::OpenAudioManager,
            CliAction::BluetoothManager => CliStep::OpenBluetoothManager,
            CliAction::NetworkdManager => CliStep::OpenNetworkdManager,
            CliAction::WallpaperManager => CliStep::OpenWallpaperManager,
        }
    }
}

/// A command of the command line.
pub trait CommandRun {
    /// Runs the command.
    fn run(&self) -> Result<(), AgwError>;
}

} // verus!
