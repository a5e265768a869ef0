use matrix_ping_bot::builtin::{EchoTool, Ping};
use matrix_ping_bot::plugin::{Plugin, PluginFactory, PluginSpec};
use matrix_ping_bot::registry::PluginRegistry;
use matrix_ping_bot::tools_manager::{ToolsManager, ToolsManagerPlugin, ToolsRequest};
use matrix_ping_bot::value::Value;

#[derive(Clone, Copy)]
enum Builtin {
    Ping,
    Echo,
}

impl Plugin for Builtin {
    fn id(&self) -> String {
        match self {
            Builtin::Ping => Ping.id(),
            Builtin::Echo => EchoTool.id(),
        }
    }

    fn help(&self) -> String {
        match self {
            Builtin::Ping => Ping.help(),
            Builtin::Echo => EchoTool.help(),
        }
    }

    fn dev_only(&self) -> bool {
        matches!(self, Builtin::Echo)
    }

    fn handles_room_messages(&self) -> bool {
        false
    }

    fn wants_own_messages(&self) -> bool {
        false
    }

    fn spec(&self, config: Value) -> PluginSpec {
        match self {
            Builtin::Ping => Ping.spec(config),
            Builtin::Echo => EchoTool.spec(config),
        }
    }
}

fn registry() -> PluginRegistry<Builtin> {
    let mut registry: PluginRegistry<Builtin> = PluginRegistry::new();
    let mut ping = Ping.spec(Value::null());
    ping.triggers.mentions = vec!["pinger".to_owned(), "@P".to_owned()];
    registry.register(ping, Builtin::Ping);
    let mut echo = EchoTool.spec(Value::null());
    echo.enabled = false;
    echo.triggers.commands.push("say".to_owned());
    registry.register(echo, Builtin::Echo);
    registry
}

#[test]
fn requests_are_parsed_from_the_argument_tail() {
    assert_eq!(ToolsManager.parse(""), ToolsRequest::List);
    assert_eq!(ToolsManager.parse("   "), ToolsRequest::List);
    assert_eq!(ToolsManager.parse("list"), ToolsRequest::List);
    assert_eq!(ToolsManager.parse(" list extra"), ToolsRequest::List);
    assert_eq!(ToolsManager.parse("enable ai"), ToolsRequest::Enable("ai".to_owned()));
    assert_eq!(ToolsManager.parse("enable  ai  now"), ToolsRequest::Enable("ai".to_owned()));
    assert_eq!(ToolsManager.parse("disable echo"), ToolsRequest::Disable("echo".to_owned()));
    assert_eq!(ToolsManager.parse("enable"), ToolsRequest::EnableUsage);
    assert_eq!(ToolsManager.parse("disable "), ToolsRequest::DisableUsage);
    assert_eq!(ToolsManager.parse("List"), ToolsRequest::Usage);
    assert_eq!(ToolsManager.parse("toggle ai"), ToolsRequest::Usage);
}

#[test]
fn listing_shows_switches_and_configured_triggers() {
    let registry = registry();
    assert_eq!(
        ToolsManager.list(&registry),
        "plugins:\n- ping: enabled=true dev_only=false cmds=[!ping], mentions=[pinger, @P]\n- echo: enabled=false dev_only=true cmds=[!echo, say], mentions=[]"
    );
    let empty: PluginRegistry<Builtin> = PluginRegistry::new();
    assert_eq!(ToolsManager.list(&empty), "plugins:");
}

fn run(registry: &mut PluginRegistry<Builtin>, request: ToolsRequest) -> String {
    let (reply, change) = ToolsManager.answer(registry, &request);
    ToolsManager.commit(registry, &change);
    reply
}

#[test]
fn enable_and_disable_set_overrides_and_nothing_else() {
    let mut registry = registry();
    assert_eq!(run(&mut registry, ToolsRequest::Enable("echo".to_owned())), "enabled plugin: echo");
    assert!(registry.is_enabled("echo"));
    assert_eq!(
        run(&mut registry, ToolsRequest::Disable("ping".to_owned())),
        "disabled plugin: ping"
    );
    assert!(!registry.is_enabled("ping"));
    assert_eq!(
        run(&mut registry, ToolsRequest::Enable("ghost".to_owned())),
        "enabled plugin: ghost"
    );
    assert!(registry.is_enabled("ghost"));
    assert_eq!(registry.len(), 2);
    assert_eq!(
        run(&mut registry, ToolsRequest::List),
        "plugins:\n- ping: enabled=false dev_only=false cmds=[!ping], mentions=[pinger, @P]\n- echo: enabled=true dev_only=true cmds=[!echo, say], mentions=[]"
    );
}

#[test]
fn a_request_whose_reply_is_not_sent_changes_nothing() {
    let mut registry = registry();
    assert!(registry.is_enabled("ping"));
    let (reply, change) = ToolsManager.answer(&registry, &ToolsManager.parse("disable ping"));
    assert_eq!(reply, "disabled plugin: ping");
    assert_eq!(change, Some(("ping".to_owned(), false)));
    assert!(registry.is_enabled("ping"));
    assert!(!registry.is_enabled("echo"));
    let (_, change) = ToolsManager.answer(&registry, &ToolsManager.parse("enable echo"));
    assert_eq!(change, Some(("echo".to_owned(), true)));
    assert!(!registry.is_enabled("echo"));
    ToolsManager.commit(&mut registry, &change);
    assert!(registry.is_enabled("echo"));
    assert!(registry.is_enabled("ping"));
    ToolsManager.commit(&mut registry, &None);
    assert!(registry.is_enabled("echo"));
    let (_, change) = ToolsManager.answer(&registry, &ToolsManager.parse("disable echo"));
    ToolsManager.settle(&mut registry, &change, false);
    assert!(registry.is_enabled("echo"));
    ToolsManager.settle(&mut registry, &change, true);
    assert!(!registry.is_enabled("echo"));
    assert!(registry.is_enabled("ping"));
}

#[test]
fn malformed_requests_earn_usage_lines() {
    let registry = registry();
    assert_eq!(
        ToolsManager.answer(&registry, &ToolsRequest::EnableUsage),
        ("Usage: !tools enable <id> (alias: !plugins)".to_owned(), None)
    );
    assert_eq!(
        ToolsManager.answer(&registry, &ToolsRequest::DisableUsage),
        ("Usage: !tools disable <id> (alias: !plugins)".to_owned(), None)
    );
    assert_eq!(
        ToolsManager.answer(&registry, &ToolsRequest::Usage),
        ("Usage: !tools [list|enable <id>|disable <id>] (alias: !plugins)".to_owned(), None)
    );
    assert_eq!(ToolsManager.answer(&registry, &ToolsRequest::List).1, None);
    assert!(registry.is_enabled("ping"));
    assert!(!registry.is_enabled("echo"));
}

#[test]
fn manager_declares_both_its_commands() {
    let spec = ToolsManager.spec(Value::null());
    assert_eq!(spec.id, "tools");
    assert_eq!(spec.triggers.commands, vec!["!tools", "!plugins"]);
    assert_eq!(ToolsManager.help(), "Manage plugins: !tools list | enable <id> | disable <id>");
    let mut specs: Vec<PluginSpec> = Vec::new();
    ToolsManagerPlugin.register_defaults(&mut specs);
    ToolsManagerPlugin.register_defaults(&mut specs);
    assert_eq!(specs.len(), 1);
    assert_eq!(specs[0], spec);
}
