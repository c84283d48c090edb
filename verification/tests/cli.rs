use rustcooling::animation::AnimationMode;
use rustcooling::cli::{AnimationCliMode, AutostartAction, Cli, CliAction, Commands};

fn cli(command: Option<Commands>) -> Cli {
    Cli {
        command,
        interval: 1000,
        animation: AnimationCliMode::Roller,
        anim_duration: 300,
        daemon: true,
    }
}

#[test]
fn no_subcommand_runs_the_monitor() {
    assert_eq!(
        cli(None).action(),
        CliAction::Monitor {
            interval_ms: 1000,
            animation: AnimationMode::Roller,
            anim_duration_ms: 300,
            daemon: true
        }
    );
}

#[test]
fn run_interval_overrides_the_global_one() {
    let a = cli(Some(Commands::Run { interval: Some(250) })).action();
    assert_eq!(
        a,
        CliAction::Monitor {
            interval_ms: 250,
            animation: AnimationMode::Roller,
            anim_duration_ms: 300,
            daemon: true
        }
    );
    let b = cli(Some(Commands::Run { interval: None })).action();
    assert!(matches!(b, CliAction::Monitor { interval_ms: 1000, .. }));
}

#[test]
fn status_and_autostart() {
    assert_eq!(cli(Some(Commands::Status)).action(), CliAction::Status);
    assert_eq!(
        cli(Some(Commands::Autostart { action: AutostartAction::Disable })).action(),
        CliAction::Autostart(AutostartAction::Disable)
    );
}

#[test]
fn animation_modes_convert() {
    assert_eq!(AnimationMode::from(AnimationCliMode::Immediate), AnimationMode::Immediate);
    assert_eq!(AnimationMode::from(AnimationCliMode::Smooth), AnimationMode::Smooth);
    assert_eq!(AnimationMode::from(AnimationCliMode::Roller), AnimationMode::Roller);
}
