use matrix_ping_bot::builtin::{
    DiagFacts, DiagTool, DiagnosticsPlugin, EchoPlugin, EchoTool, ModePlugin, ModeTool, Ping,
    RelayPlugin, RelayTool,
};
use matrix_ping_bot::logging::LogFormat;
use matrix_ping_bot::plugin::{
    enabled_true, str_conf, str_config, Plugin, PluginFactory, PluginSpec, PluginTriggers,
    ToolTriggers,
};
use matrix_ping_bot::value::{ScalarKind, Value};

fn commands(spec: &PluginSpec) -> Vec<&str> {
    spec.triggers.commands.iter().map(|s| s.as_str()).collect()
}

#[test]
fn ping_declares_itself_and_answers_pong() {
    let spec = Ping.spec(Value::string("cfg"));
    assert_eq!(spec.id, "ping");
    assert!(spec.enabled);
    assert_eq!(spec.dev_only, None);
    assert_eq!(commands(&spec), vec!["!ping"]);
    assert!(spec.triggers.mentions.is_empty());
    assert_eq!(spec.config, Value::string("cfg"));
    assert_eq!(Ping.id(), "ping");
    assert_eq!(Ping.reply(), "Pong! \u{1F3D3}");
    assert!(!Ping.dev_only());
    assert!(!Ping.handles_room_messages());
    assert!(!Ping.wants_own_messages());
}

#[test]
fn echo_trims_uppercases_and_prefixes() {
    assert_eq!(EchoTool.reply("  hi there ", None, false), "hi there");
    assert_eq!(EchoTool.reply("  hi there ", None, true), "HI THERE");
    assert_eq!(EchoTool.reply("stra\u{df}e", Some("> "), true), "> STRASSE");
    assert_eq!(EchoTool.reply("   ", None, true), "(nothing to echo)");
    assert_eq!(EchoTool.reply("", Some(""), false), "(nothing to echo)");
    assert_eq!(EchoTool.reply("", Some("p:"), false), "p:");
    assert_eq!(EchoTool.id(), "echo");
    assert_eq!(EchoTool.help(), "Echo text back. Config: prefix, uppercase");
    assert_eq!(commands(&EchoTool.spec(Value::null())), vec!["!echo"]);
}

#[test]
fn mode_report_names_the_mode_and_the_tag() {
    assert_eq!(
        ModeTool.report(true, Some("dev1")),
        "mode: dev\nthis instance handles commands tagged as !dev1.<command>\nexample: !dev1.diag\nmentions must use @dev1.<name>"
    );
    assert_eq!(
        ModeTool.report(true, None),
        "mode: dev\nthis instance handles commands routed to dev\nexample: !devid.diag"
    );
    assert_eq!(
        ModeTool.report(false, Some("dev1")),
        "mode: prod\ncommands without !dev1. prefix run here\ncommands containing !dev1.<command> are ignored\nexample: !diag"
    );
    assert_eq!(
        ModeTool.report(false, None),
        "mode: prod\nthis instance handles commands without a dev prefix\nexample: !diag"
    );
    assert_eq!(ModeTool.id(), "mode");
}

#[test]
fn diagnostics_report_lists_the_facts() {
    let facts = DiagFacts {
        room_id: "!r:example.org".to_owned(),
        user_id: Some("@bot:example.org".to_owned()),
        device_id: None,
        room_encrypted: true,
        backup_state: "Unknown".to_owned(),
        bot_verified: Some(false),
    };
    assert_eq!(
        DiagTool.report(&facts),
        "diag for !r:example.org\nuser: @bot:example.org\ndevice: <unknown>\nroom_encrypted: true\nbackup_state: Unknown\nbot_verified: false\nhint: if messages don\u{2019}t decrypt, verify the bridge/device and send a new message."
    );
    let plain = DiagFacts {
        room_id: "!r:example.org".to_owned(),
        user_id: None,
        device_id: Some("DEV".to_owned()),
        room_encrypted: false,
        backup_state: "Enabled".to_owned(),
        bot_verified: None,
    };
    assert_eq!(
        DiagTool.report(&plain),
        "diag for !r:example.org\nuser: <unknown>\ndevice: DEV\nroom_encrypted: false\nbackup_state: Enabled\nhint: room not encrypted; encryption diagnostics not applicable."
    );
}

#[test]
fn factories_add_their_default_once() {
    let mut specs: Vec<PluginSpec> = Vec::new();
    EchoPlugin.register_defaults(&mut specs);
    ModePlugin.register_defaults(&mut specs);
    DiagnosticsPlugin.register_defaults(&mut specs);
    RelayPlugin.register_defaults(&mut specs);
    EchoPlugin.register_defaults(&mut specs);
    RelayPlugin.register_defaults(&mut specs);
    let ids: Vec<&str> = specs.iter().map(|s| s.id.as_str()).collect();
    assert_eq!(ids, vec!["echo", "mode", "diag", "relay"]);
    assert_eq!(commands(&specs[0]), vec!["!echo"]);
    assert_eq!(commands(&specs[1]), vec!["!mode"]);
    assert_eq!(commands(&specs[2]), vec!["!diag"]);
    assert!(commands(&specs[3]).is_empty());
    assert!(specs.iter().all(|s| s.enabled && s.dev_only.is_none() && s.config.is_null()));
}

#[test]
fn factories_leave_a_configured_declaration_alone() {
    let configured = PluginSpec {
        id: "echo".to_owned(),
        enabled: false,
        dev_only: Some(true),
        triggers: PluginTriggers { commands: vec!["say".to_owned()], mentions: Vec::new() },
        config: Value::string("x"),
    };
    let mut specs = vec![configured.duplicate()];
    EchoPlugin.register_defaults(&mut specs);
    assert_eq!(specs, vec![configured]);
}

#[test]
fn relay_observes_messages_and_has_no_trigger() {
    assert_eq!(RelayTool.id(), "relay");
    assert_eq!(RelayTool.help(), "Relay messages between configured room clusters");
    assert!(RelayTool.handles_room_messages());
    assert!(!RelayTool.wants_own_messages());
    assert!(RelayTool.spec(Value::null()).triggers.is_empty());
}

#[test]
fn string_configuration_is_read_by_key() {
    let mut spec = Ping.spec(Value::Mapping(vec![
        (Value::string("name"), Value::string("Claire")),
        (Value::string("n"), Value::Scalar(ScalarKind::Number, "3".to_owned())),
    ]));
    assert_eq!(str_config(&spec, "name"), Some("Claire".to_owned()));
    assert_eq!(str_conf(&spec, "name"), Some("Claire".to_owned()));
    assert_eq!(str_config(&spec, "n"), None);
    assert_eq!(str_config(&spec, "other"), None);
    spec.config = Value::null();
    assert_eq!(str_config(&spec, "name"), None);
    assert!(enabled_true());
    let triggers: ToolTriggers = PluginTriggers::empty();
    assert!(triggers.is_empty());
}

#[test]
fn log_format_follows_the_mode_word() {
    assert_eq!(LogFormat::from_mode("json"), LogFormat::Json);
    assert_eq!(LogFormat::from_mode("pretty"), LogFormat::Pretty);
    assert_eq!(LogFormat::from_mode("JSON"), LogFormat::Pretty);
    assert_eq!(LogFormat::from_mode(""), LogFormat::Pretty);
    assert_eq!(LogFormat::mode_or_default(None), LogFormat::Pretty);
    assert_eq!(LogFormat::mode_or_default(Some("json")), LogFormat::Json);
}
