use matrix_ping_bot::assembly::{
    build_registry, cluster_from_bot, effective_config, finalize_spec, inject_relay_spec,
    install_plugin, merge_default_spec, relay_config_of, resolve_mode, BotConfig, ModeError,
    RoomCluster,
};
use matrix_ping_bot::assoc::TextMap;
use matrix_ping_bot::builtin::{EchoTool, Ping};
use matrix_ping_bot::phrases::Phrases;
use matrix_ping_bot::plugin::{Plugin, PluginSpec, PluginTriggers};
use matrix_ping_bot::registry::PluginRegistry;
use matrix_ping_bot::value::{ScalarKind, Value};

#[derive(Clone, Copy, Debug, PartialEq)]
enum Builtin {
    Ping,
    Echo,
    Phrases,
}

impl Plugin for Builtin {
    fn id(&self) -> String {
        match self {
            Builtin::Ping => Ping.id(),
            Builtin::Echo => EchoTool.id(),
            Builtin::Phrases => Phrases.id(),
        }
    }

    fn help(&self) -> String {
        String::new()
    }

    fn dev_only(&self) -> bool {
        false
    }

    fn handles_room_messages(&self) -> bool {
        false
    }

    fn wants_own_messages(&self) -> bool {
        false
    }

    fn spec(&self, config: Value) -> PluginSpec {
        match self {
            Builtin::Ping => Ping.spec(config),
            Builtin::Echo => EchoTool.spec(config),
            Builtin::Phrases => Phrases.spec(config),
        }
    }
}

fn spec_of(id: &str, commands: &[&str], mentions: &[&str]) -> PluginSpec {
    PluginSpec {
        id: id.to_owned(),
        enabled: true,
        dev_only: None,
        triggers: PluginTriggers {
            commands: commands.iter().map(|s| s.to_string()).collect(),
            mentions: mentions.iter().map(|s| s.to_string()).collect(),
        },
        config: Value::null(),
    }
}

fn map(entries: Vec<(&str, Value)>) -> Value {
    Value::Mapping(entries.into_iter().map(|(k, v)| (Value::string(k), v)).collect())
}

#[test]
fn mode_needs_request_permission_and_dev_id() {
    assert_eq!(resolve_mode(true, None, Some(true), Some("d")), Ok(true));
    assert_eq!(resolve_mode(false, Some("DeV"), Some(true), Some("d")), Ok(true));
    assert_eq!(resolve_mode(false, Some("prod"), Some(true), Some("d")), Ok(false));
    assert_eq!(resolve_mode(true, None, Some(false), None), Ok(false));
    assert_eq!(resolve_mode(true, Some("dev"), None, None), Ok(false));
    assert_eq!(resolve_mode(false, None, Some(true), None), Ok(false));
    assert_eq!(resolve_mode(true, None, Some(true), None), Err(ModeError::MissingDevId));
    assert_eq!(resolve_mode(false, Some("dev"), Some(true), None), Err(ModeError::MissingDevId));
}

#[test]
fn bot_clusters_become_relay_clusters() {
    let cluster = RoomCluster {
        rooms: vec!["!a:x".to_owned(), "#b:x".to_owned()],
        reupload_media: Some(false),
        caption_media: None,
    };
    let relay = cluster_from_bot(&cluster);
    assert_eq!(relay.rooms, cluster.rooms);
    assert_eq!(relay.reupload_media, Some(false));
    assert_eq!(relay.caption_media, None);
    let config = BotConfig {
        clusters: vec![cluster, RoomCluster { rooms: vec![], reupload_media: None, caption_media: Some(true) }],
        reupload_media: None,
        caption_media: Some(false),
        dev_mode: None,
        dev_id: None,
        plugins: None,
    };
    let relay_config = relay_config_of(&config);
    assert_eq!(relay_config.clusters.len(), 2);
    assert_eq!(relay_config.clusters[0], relay);
    assert_eq!(relay_config.clusters[1].caption_media, Some(true));
    assert_eq!(relay_config.reupload_media, None);
    assert_eq!(relay_config.caption_media, Some(false));
}

#[test]
fn defaults_complete_a_declared_capability() {
    let mut specs = vec![spec_of("x", &["a"], &[]), spec_of("echo", &["!ECHO", "say"], &["@Parrot"])];
    specs[1].enabled = false;
    merge_default_spec(&mut specs, spec_of("echo", &["!echo", "repeat", "SAY"], &["@parrot", "@polly"]));
    assert_eq!(specs.len(), 2);
    assert_eq!(specs[1].triggers.commands, vec!["!ECHO", "say", "repeat"]);
    assert_eq!(specs[1].triggers.mentions, vec!["@Parrot", "@polly"]);
    assert!(!specs[1].enabled);
    merge_default_spec(&mut specs, spec_of("ping", &["!ping"], &[]));
    assert_eq!(specs.len(), 3);
    assert_eq!(specs[2], spec_of("ping", &["!ping"], &[]));
}

#[test]
fn relay_is_declared_only_where_clusters_are_configured() {
    let config = Value::string("relay-config");
    let mut specs = vec![spec_of("echo", &[], &[])];
    inject_relay_spec(&mut specs, false, PluginTriggers::empty(), config.deep_clone());
    assert_eq!(specs.len(), 1);
    inject_relay_spec(&mut specs, true, PluginTriggers::empty(), config.deep_clone());
    assert_eq!(specs.len(), 2);
    assert_eq!(specs[1].id, "relay");
    assert!(specs[1].enabled);
    assert_eq!(specs[1].config, config);
    inject_relay_spec(&mut specs, true, PluginTriggers::empty(), Value::null());
    assert_eq!(specs.len(), 2);
    assert_eq!(specs[1].config, config);
}

#[test]
fn private_configuration_is_layered_over_the_declared_one() {
    let file = map(vec![("name", Value::string("file")), ("only_file", Value::string("f"))]);
    let declared = map(vec![("name", Value::string("declared")), ("only_declared", Value::string("d"))]);
    let expected = map(vec![
        ("name", Value::string("file")),
        ("only_file", Value::string("f")),
        ("only_declared", Value::string("d")),
    ]);
    assert_eq!(effective_config(Some(&file), &declared), expected);
    assert_eq!(effective_config(None, &declared), declared);
}

#[test]
fn explicit_choices_win_over_what_the_capability_computed() {
    let mut configured = spec_of("mine", &[], &[]);
    configured.enabled = false;
    let mut computed = spec_of("echo", &["!echo"], &["@e"]);
    computed.dev_only = Some(true);
    computed.config = Value::string("computed");
    let out = finalize_spec(&configured, computed.duplicate());
    assert_eq!(out.id, "mine");
    assert!(!out.enabled);
    assert_eq!(out.dev_only, Some(true));
    assert_eq!(out.triggers, computed.triggers);
    assert_eq!(out.config, Value::string("computed"));
    configured.dev_only = Some(false);
    configured.triggers.mentions = vec!["@m".to_owned()];
    let out = finalize_spec(&configured, computed);
    assert_eq!(out.dev_only, Some(false));
    assert!(out.triggers.commands.is_empty());
    assert_eq!(out.triggers.mentions, vec!["@m"]);
}

#[test]
fn install_asks_the_capability_for_the_layered_configuration() {
    let mut registry: PluginRegistry<Builtin> = PluginRegistry::new();
    let mut configured = spec_of("phrases", &[], &[]);
    configured.config = map(vec![("ping", Value::Sequence(vec![Value::string("spec")]))]);
    let file = map(vec![("hello", Value::Sequence(vec![Value::string("file")]))]);
    install_plugin(&mut registry, &configured, Builtin::Phrases, Some(&file));
    let entry = registry.entry("phrases").unwrap();
    assert_eq!(entry.spec.triggers.commands, vec!["!hello", "!ping"]);
    assert_eq!(
        entry.spec.config,
        map(vec![
            ("hello", Value::Sequence(vec![Value::string("file")])),
            ("ping", Value::Sequence(vec![Value::string("spec")])),
        ])
    );
    assert!(registry.entry_by_command("!ping").is_some());
}

#[test]
fn registry_is_built_from_known_capabilities_only() {
    let mut plugins: TextMap<Builtin> = TextMap::new();
    plugins.insert("ping".to_owned(), Builtin::Ping);
    plugins.insert("echo".to_owned(), Builtin::Echo);
    let mut echo = spec_of("echo", &["say"], &[]);
    echo.enabled = false;
    let specs = vec![
        spec_of("ping", &[], &[]),
        spec_of("ghost", &["boo"], &[]),
        echo,
        spec_of("ping", &["p"], &[]),
        spec_of("phantom", &[], &[]),
    ];
    let file_cfgs = vec![None, None, Some(map(vec![("prefix", Value::string("> "))]))];
    let (registry, skipped) = build_registry(&specs, &plugins, &file_cfgs);
    assert_eq!(skipped, vec!["ghost", "phantom"]);
    assert_eq!(registry.len(), 2);
    assert!(registry.entry("ghost").is_none());
    assert_eq!(registry.entry("ping").unwrap().spec.triggers.commands, vec!["p"]);
    assert!(registry.entry_by_command("!ping").is_none());
    assert!(registry.entry_by_command("!p").is_some());
    let echo = registry.entry("echo").unwrap();
    assert_eq!(echo.spec.triggers.commands, vec!["say"]);
    assert_eq!(echo.plugin, Builtin::Echo);
    assert_eq!(
        echo.spec.config,
        map(vec![("prefix", Value::Scalar(ScalarKind::String, "> ".to_owned()))])
    );
    assert!(!registry.is_enabled("echo"));
    assert!(registry.is_enabled("ping"));
}

fn command_target(registry: &PluginRegistry<Builtin>, token: &str) -> Option<String> {
    registry.entry_by_command(token).map(|e| e.spec.id.clone())
}

fn mention_target(registry: &PluginRegistry<Builtin>, token: &str) -> Option<String> {
    registry.entry_by_mention(token).map(|e| e.spec.id.clone())
}

#[test]
fn an_unknown_declaration_leaves_no_trace() {
    let mut plugins: TextMap<Builtin> = TextMap::new();
    plugins.insert("ping".to_owned(), Builtin::Ping);
    plugins.insert("echo".to_owned(), Builtin::Echo);
    plugins.insert("phrases".to_owned(), Builtin::Phrases);
    let file = map(vec![("hello", Value::Sequence(vec![Value::string("hi")]))]);
    let declared = || {
        let mut phrases = spec_of("phrases", &[], &[]);
        phrases.config = map(vec![("bye", Value::Sequence(vec![Value::string("ciao")]))]);
        vec![spec_of("ping", &["p"], &["Pinger"]), phrases, spec_of("echo", &[], &[])]
    };
    let (plain, skipped) = build_registry(&declared(), &plugins, &vec![None, Some(file.deep_clone()), None]);
    assert!(skipped.is_empty());
    let mut specs = declared();
    specs.insert(1, spec_of("nope", &["p", "nope", "echo"], &["pinger", "Nope"]));
    let (registry, skipped) =
        build_registry(&specs, &plugins, &vec![None, Some(Value::string("x")), Some(file), None]);
    assert_eq!(skipped, vec!["nope"]);
    assert!(registry.entry("nope").is_none());
    assert_eq!(command_target(&registry, "!nope"), None);
    assert_eq!(mention_target(&registry, "@nope"), None);
    assert_eq!(registry.len(), 3);
    let with = registry.entries();
    let without = plain.entries();
    assert_eq!(with.len(), without.len());
    for (a, b) in with.iter().zip(without.iter()) {
        assert_eq!(a.0, b.0);
        assert_eq!(a.1.spec, b.1.spec);
        assert_eq!(a.1.plugin, b.1.plugin);
        assert_eq!(a.1.traits, b.1.traits);
    }
    for token in ["!p", "!ping", "!echo", "!hello", "!bye", "!nope", "p"] {
        assert_eq!(command_target(&registry, token), command_target(&plain, token));
    }
    for token in ["@pinger", "@nope", "pinger"] {
        assert_eq!(mention_target(&registry, token), mention_target(&plain, token));
    }
    assert_eq!(command_target(&registry, "!p"), Some("ping".to_owned()));
    assert_eq!(command_target(&registry, "!echo"), Some("echo".to_owned()));
    assert_eq!(command_target(&registry, "!hello"), Some("phrases".to_owned()));
    assert_eq!(command_target(&registry, "!bye"), Some("phrases".to_owned()));
    assert_eq!(mention_target(&registry, "@pinger"), Some("ping".to_owned()));
}

#[test]
fn the_built_registry_holds_the_staged_declarations() {
    let mut plugins: TextMap<Builtin> = TextMap::new();
    plugins.insert("ping".to_owned(), Builtin::Ping);
    plugins.insert("echo".to_owned(), Builtin::Echo);
    let mut ping = spec_of("ping", &["pong"], &["Ponger"]);
    ping.dev_only = Some(true);
    ping.enabled = false;
    let specs = vec![ping, spec_of("echo", &[], &[])];
    let cfg = map(vec![("prefix", Value::string("> "))]);
    let (registry, _) = build_registry(&specs, &plugins, &vec![None, Some(cfg.deep_clone())]);
    let ping = registry.entry("ping").unwrap();
    assert_eq!(ping.spec.id, "ping");
    assert!(!ping.spec.enabled);
    assert_eq!(ping.spec.dev_only, Some(true));
    assert_eq!(ping.spec.triggers.commands, vec!["pong"]);
    assert_eq!(ping.spec.triggers.mentions, vec!["Ponger"]);
    assert_eq!(ping.plugin, Builtin::Ping);
    let echo = registry.entry("echo").unwrap();
    assert_eq!(echo.spec.triggers.commands, vec!["!echo"]);
    assert_eq!(echo.spec.config, cfg);
    assert_eq!(command_target(&registry, "!pong"), Some("ping".to_owned()));
    assert_eq!(command_target(&registry, "!ping"), None);
    assert_eq!(mention_target(&registry, "@ponger"), Some("ping".to_owned()));
    assert_eq!(command_target(&registry, "!echo"), Some("echo".to_owned()));
}
