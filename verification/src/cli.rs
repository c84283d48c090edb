//! The command line: what the user asked for, and what the program does
//! about it.

use vstd::prelude::*;

use crate::animation::AnimationMode;

verus! {

/// The parsed command line.
pub struct Cli {
    /// The subcommand, if one was given.
    pub command: Option<Commands>,
    /// Display update interval in milliseconds (1000 when not given).
    pub interval: u64,
    /// Animation mode for display values (smooth when not given).
    pub animation: AnimationCliMode,
    /// Animation duration in milliseconds (300 when not given).
    pub anim_duration: u64,
    /// Run as a background daemon, without terminal output.
    pub daemon: bool,
}

/// The subcommands.
pub enum Commands {
    /// Run the display monitor loop (also what no subcommand does).
    Run {
        /// Overrides the display update interval (ms).
        interval: Option<u64>,
    },
    /// Inspect the cooler's LCD and the sensors.
    Status,
    /// Manage the system autostart service.
    Autostart { action: AutostartAction },
}

/// What to do with the autostart service.
#[derive(Debug, Clone, Copy, PartialEq, Eq, Structural)]
pub enum AutostartAction {
    /// Register the program in the system's autostart.
    Enable,
    /// Remove the program from the system's autostart.
    Disable,
    /// Report whether autostart is on.
    Status,
}

/// The animation modes a user can name.
#[derive(Debug, Clone, Copy, PartialEq, Eq, Structural)]
pub enum AnimationCliMode {
    Immediate,
    Smooth,
    Roller,
}

/// The animator's mode for a mode named on the command line.
pub open spec fn animation_mode_of(mode: AnimationCliMode) -> AnimationMode {
    match mode {
        AnimationCliMode::Immediate => AnimationMode::Immediate,
        AnimationCliMode::Smooth => AnimationMode::Smooth,
        AnimationCliMode::Roller => AnimationMode::Roller,
    }
}

impl From<AnimationCliMode> for AnimationMode {
    fn from(mode: AnimationCliMode) -> (m: AnimationMode) {
        match mode {
            AnimationCliMode::Immediate => AnimationMode::Immediate,
            AnimationCliMode::Smooth => AnimationMode::Smooth,
            AnimationCliMode::Roller => AnimationMode::Roller,
        }
    }
}

impl vstd::std_specs::convert::FromSpecImpl<AnimationCliMode> for AnimationMode {
    open spec fn obeys_from_spec() -> bool {
        true
    }

    open spec fn from_spec(mode: AnimationCliMode) -> AnimationMode {
        animation_mode_of(mode)
    }
}

/// What the program does for a command line.
#[derive(Debug, Clone, Copy, PartialEq, Eq, Structural)]
pub enum CliAction {
    /// Print the sensors, the device and the autostart state.
    Status,
    /// Change or report the autostart service.
    Autostart(AutostartAction),
    /// Run the monitor loop.
    Monitor { interval_ms: u64, animation: AnimationMode, anim_duration_ms: u64, daemon: bool },
}

impl Cli {
    /// The action for this command line: the monitor loop unless a
    /// subcommand says otherwise; `run --interval` overrides the global
    /// interval.
    pub fn action(&self) -> (a: CliAction)
        ensures
            a == (match self.command {
                Some(Commands::Status) => CliAction::Status,
                Some(Commands::Autostart { action }) => CliAction::Autostart(action),
                Some(Commands::Run { interval }) => CliAction::Monitor {
                    interval_ms: match interval {
                        Some(i) => i,
                        None => self.interval,
                    },
                    animation: animation_mode_of(self.animation),
                    anim_duration_ms: self.anim_duration,
                    daemon: self.daemon,
                },
                None => CliAction::Monitor {
                    interval_ms: self.interval,
                    animation: animation_mode_of(self.animation),
                    anim_duration_ms: self.anim_duration,
                    daemon: self.daemon,
                },
            }),
    {
        match &self.command {
            Some(Commands::Status) => CliAction::Status,
            Some(Commands::Autostart { action }) => CliAction::Autostart(*action),
            Some(Commands::Run { interval }) => {
                let eff_interval = match interval {
                    Some(i) => *i,
                    None => self.interval,
                };
                CliAction::Monitor {
                    interval_ms: eff_interval,
                    animation: AnimationMode::from(self.animation),
                    anim_duration_ms: self.anim_duration,
                    daemon: self.daemon,
                }
            },
            None => CliAction::Monitor {
                interval_ms: self.interval,
                animation: AnimationMode::from(self.animation),
                anim_duration_ms: self.anim_duration,
                daemon: self.daemon,
            },
        }
    }
}

} // verus!
