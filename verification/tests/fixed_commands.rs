use matrix_ping_bot::commands::{
    default_registry, flag_mode_report, flagged_run, help_listing, AiCommand, Command, CommandId,
    DiagCommand, FlaggedRun, HelpCommand, ModeCommand, PingCommand,
};

#[test]
fn fixed_commands_have_names_and_help() {
    assert_eq!(PingCommand.name(), "!ping");
    assert_eq!(PingCommand.help(), "Responds with pong.");
    assert_eq!(DiagCommand.name(), "!diag");
    assert_eq!(HelpCommand.name(), "!help");
    assert_eq!(ModeCommand.name(), "!mode");
    assert_eq!(AiCommand.name(), "!ai");
    assert_eq!(AiCommand.help(), "Ask the AI: !ai <prompt> (dev only)");
    assert!(AiCommand.dev_only());
    assert!(!PingCommand.dev_only());
    assert!(!DiagCommand.dev_only());
    assert!(!HelpCommand.dev_only());
    assert!(!ModeCommand.dev_only());
}

#[test]
fn tokens_select_fixed_commands() {
    assert_eq!(default_registry("!ping"), Some(CommandId::Ping));
    assert_eq!(default_registry("!diag"), Some(CommandId::Diag));
    assert_eq!(default_registry("!help"), Some(CommandId::Help));
    assert_eq!(default_registry("!mode"), Some(CommandId::Mode));
    assert_eq!(default_registry("!ai"), Some(CommandId::Ai));
    assert_eq!(default_registry("!Ping"), None);
    assert_eq!(default_registry("ping"), None);
}

#[test]
fn the_dev_flag_selects_the_instance() {
    assert_eq!(flagged_run(CommandId::Ping, "a b", false), FlaggedRun::Run("a b".to_owned()));
    assert_eq!(flagged_run(CommandId::Ping, "a -d b", false), FlaggedRun::WrongMode);
    assert_eq!(flagged_run(CommandId::Ping, "a b", true), FlaggedRun::WrongMode);
    assert_eq!(flagged_run(CommandId::Ping, "a  -d b", true), FlaggedRun::Run("a b".to_owned()));
    assert_eq!(flagged_run(CommandId::Ai, "q --dev", true), FlaggedRun::Run("q".to_owned()));
    assert_eq!(flagged_run(CommandId::Ai, "q", false), FlaggedRun::DevOnly);
    assert_eq!(flagged_run(CommandId::Ai, "q -d", false), FlaggedRun::WrongMode);
}

#[test]
fn help_lists_commands_in_order() {
    assert_eq!(
        help_listing(false),
        "Available commands:\n!diag \u{2014} Show encryption/session diagnostics.\n!help \u{2014} List available commands.\n!mode \u{2014} Show current mode (dev/prod) and how to target it.\n!ping \u{2014} Responds with pong."
    );
    assert_eq!(
        help_listing(true),
        "Available commands:\n!ai \u{2014} Ask the AI: !ai <prompt> (dev only)\n!diag \u{2014} Show encryption/session diagnostics.\n!help \u{2014} List available commands.\n!mode \u{2014} Show current mode (dev/prod) and how to target it.\n!ping \u{2014} Responds with pong."
    );
    assert_eq!(
        flag_mode_report(true),
        "mode: dev\nthis instance handles commands that include -d\nexample: !diag -d"
    );
    assert_eq!(
        flag_mode_report(false),
        "mode: prod\nthis instance handles commands without -d\nexample: !diag"
    );
}
