use matrix_ping_bot::ai::{ai_env_handle, ai_name, AiPlugin, AiTool};
use matrix_ping_bot::chance::pick;
use matrix_ping_bot::flags::{extract_dev_flag, extract_log_flag};
use matrix_ping_bot::phrases::{phrase_table, Phrases};
use matrix_ping_bot::plugin::{Plugin, PluginFactory, PluginSpec, PluginTriggers};
use matrix_ping_bot::value::{ScalarKind, Value};

fn list(items: &[&str]) -> Value {
    Value::Sequence(items.iter().map(|s| Value::string(s)).collect())
}

fn phrases_config() -> Value {
    Value::Mapping(vec![
        (Value::string("ping"), list(&["Pong!", "Pong again"])),
        (Value::string(" !Hello "), list(&["hi"])),
        (Value::string("!ping"), list(&["shadowed"])),
        (Value::string("!"), list(&["nameless"])),
        (Value::string("!bye"), list(&["ciao"])),
        (Value::string("quiet"), list(&[])),
    ])
}

#[test]
fn phrase_commands_come_from_the_configured_keys() {
    let spec = Phrases.spec(phrases_config());
    assert_eq!(spec.id, "phrases");
    assert_eq!(spec.triggers.commands, vec!["!ping", "!!hello", "!bye", "!quiet"]);
    assert!(spec.triggers.mentions.is_empty());
    assert_eq!(spec.config, phrases_config());
    assert!(Phrases.spec(Value::null()).triggers.is_empty());
}

#[test]
fn a_malformed_phrase_table_counts_as_empty() {
    let bad_value = Value::Mapping(vec![
        (Value::string("ping"), list(&["Pong!"])),
        (Value::string("pong"), Value::string("not a list")),
    ]);
    assert!(phrase_table(&bad_value).is_empty());
    let bad_item = Value::Mapping(vec![(
        Value::string("ping"),
        Value::Sequence(vec![Value::Scalar(ScalarKind::Number, "1".to_owned())]),
    )]);
    assert!(phrase_table(&bad_item).is_empty());
    let bad_key = Value::Mapping(vec![(Value::null(), list(&["x"]))]);
    assert!(phrase_table(&bad_key).is_empty());
    assert!(phrase_table(&list(&["x"])).is_empty());
    assert_eq!(phrase_table(&phrases_config()).len(), 6);
}

#[test]
fn replies_are_looked_up_by_the_lowercased_trigger() {
    let cfg = phrases_config();
    assert_eq!(Phrases.replies(&cfg, "!PING"), vec!["Pong!", "Pong again"]);
    assert_eq!(Phrases.replies(&cfg, "ping"), vec!["Pong!", "Pong again"]);
    assert_eq!(Phrases.replies(&cfg, "!bye"), vec!["ciao"]);
    assert_eq!(Phrases.replies(&cfg, "!quiet"), Vec::<String>::new());
    assert_eq!(Phrases.replies(&cfg, "!hello"), Vec::<String>::new());
    assert_eq!(Phrases.replies(&cfg, "!missing"), Vec::<String>::new());
}

#[test]
fn a_reply_is_one_of_the_candidates() {
    let spec = Phrases.spec(phrases_config());
    for _ in 0..20 {
        let reply = Phrases.reply(&spec, Some("!ping")).unwrap();
        assert!(reply == "Pong!" || reply == "Pong again");
    }
    assert_eq!(Phrases.reply(&spec, Some("!bye")), Some("ciao".to_owned()));
    assert_eq!(Phrases.reply(&spec, Some("!quiet")), None);
    assert!(Phrases.reply(&spec, None).is_some());
    assert_eq!(Phrases.reply(&Phrases.spec(Value::null()), None), None);
    assert_eq!(pick(&Vec::new()), None);
    assert_eq!(pick(&vec!["only".to_owned()]), Some("only".to_owned()));
}

#[test]
fn ai_handle_and_name_have_fallbacks() {
    assert_eq!(ai_env_handle(Some("claire")), Some("@claire".to_owned()));
    assert_eq!(ai_env_handle(Some("@Claire")), Some("@Claire".to_owned()));
    assert_eq!(ai_env_handle(None), None);
    let named = AiTool.spec(Value::Mapping(vec![(Value::string("name"), Value::string("Hal"))]));
    assert_eq!(ai_name(&named, Some("Env")), "Hal");
    let unnamed = AiTool.spec(Value::null());
    assert_eq!(ai_name(&unnamed, Some("Env")), "Env");
    assert_eq!(ai_name(&unnamed, None), "Claire");
    assert_eq!(AiTool.id(), "ai");
    assert_eq!(AiTool.help(), "Ask the AI: !ai <prompt>");
    assert!(AiTool.wants_own_messages());
    assert!(AiTool.handles_room_messages());
    assert!(!AiTool.dev_only());
}

#[test]
fn ai_defaults_complete_a_configured_declaration() {
    let factory = AiPlugin { handle: Some("@claire".to_owned()) };
    let mut specs: Vec<PluginSpec> = Vec::new();
    factory.register_defaults(&mut specs);
    assert_eq!(specs.len(), 1);
    assert_eq!(specs[0].id, "ai");
    assert_eq!(specs[0].triggers.commands, vec!["!ai"]);
    assert_eq!(specs[0].triggers.mentions, vec!["@claire"]);
    factory.register_defaults(&mut specs);
    assert_eq!(specs.len(), 1);
    assert_eq!(specs[0].triggers.commands, vec!["!ai"]);
    assert_eq!(specs[0].triggers.mentions, vec!["@claire"]);

    let configured = PluginSpec {
        id: "ai".to_owned(),
        enabled: false,
        dev_only: Some(true),
        triggers: PluginTriggers {
            commands: vec!["!AI".to_owned(), "ask".to_owned()],
            mentions: vec!["@bot".to_owned()],
        },
        config: Value::string("keep"),
    };
    let mut specs = vec![AiTool.spec(Value::null()), configured];
    specs[0].id = "other".to_owned();
    factory.register_defaults(&mut specs);
    assert_eq!(specs.len(), 2);
    assert_eq!(specs[1].triggers.commands, vec!["!AI", "ask"]);
    assert_eq!(specs[1].triggers.mentions, vec!["@bot", "@claire"]);
    assert!(!specs[1].enabled);
    assert_eq!(specs[1].dev_only, Some(true));
    assert_eq!(specs[1].config, Value::string("keep"));

    let bare = AiPlugin { handle: None };
    let mut specs: Vec<PluginSpec> = Vec::new();
    bare.register_defaults(&mut specs);
    assert!(specs[0].triggers.mentions.is_empty());
}

#[test]
fn history_lines_are_sanitized() {
    assert_eq!(
        AiTool.history_line("2024-01-01T00:00:00Z", "Bob", "  hi\n there "),
        Some("[2024-01-01T00:00:00Z] Bob:hi there".to_owned())
    );
    assert_eq!(AiTool.history_line("t", "Bob", " \n "), None);
    let long = "x".repeat(500);
    assert_eq!(
        AiTool.history_line("t", "B", &long),
        Some(format!("[t] B:{}", "x".repeat(400)))
    );
}

#[test]
fn flags_are_taken_out_of_the_arguments() {
    assert_eq!(extract_log_flag("hello -log world"), ("hello world".to_owned(), true));
    assert_eq!(extract_log_flag("--log  hello"), ("hello".to_owned(), true));
    assert_eq!(extract_log_flag("hello  world"), ("hello world".to_owned(), false));
    assert_eq!(extract_log_flag("-logs x-log"), ("-logs x-log".to_owned(), false));
    assert_eq!(extract_log_flag("-log --log"), ("".to_owned(), true));
    assert_eq!(extract_log_flag(""), ("".to_owned(), false));
    assert_eq!(extract_dev_flag("a -d b --dev"), ("a b".to_owned(), true));
    assert_eq!(extract_dev_flag("a -D b"), ("a -D b".to_owned(), false));
}
