use matrix_ping_bot::dispatch::{
    body_snippet, clean_mention, command_dispatch, dispatch_body, mention_dispatch,
    passive_observers, Dispatch, MessageRun,
};
use matrix_ping_bot::forward::MessageKind;
use matrix_ping_bot::plugin::{Plugin, PluginSpec, PluginTriggers};
use matrix_ping_bot::registry::PluginRegistry;
use matrix_ping_bot::routing::GateVerdict;
use matrix_ping_bot::value::Value;

#[derive(Clone, Debug, PartialEq)]
struct Stub {
    name: &'static str,
    dev_only: bool,
    passive: bool,
    own: bool,
}

impl Plugin for Stub {
    fn id(&self) -> String {
        self.name.to_owned()
    }

    fn help(&self) -> String {
        String::new()
    }

    fn dev_only(&self) -> bool {
        self.dev_only
    }

    fn handles_room_messages(&self) -> bool {
        self.passive
    }

    fn wants_own_messages(&self) -> bool {
        self.own
    }

    fn spec(&self, config: Value) -> PluginSpec {
        spec_of(self.name, &[], &[], config)
    }
}

fn stub(name: &'static str) -> Stub {
    Stub { name, dev_only: false, passive: false, own: false }
}

fn spec_of(id: &str, commands: &[&str], mentions: &[&str], config: Value) -> PluginSpec {
    PluginSpec {
        id: id.to_owned(),
        enabled: true,
        dev_only: None,
        triggers: PluginTriggers {
            commands: commands.iter().map(|s| s.to_string()).collect(),
            mentions: mentions.iter().map(|s| s.to_string()).collect(),
        },
        config,
    }
}

fn invoke(id: &str, args: &str, trigger: &str) -> Dispatch {
    Dispatch::Invoke { plugin_id: id.to_owned(), args: args.to_owned(), trigger: trigger.to_owned() }
}

fn refused(id: &str, verdict: GateVerdict) -> Dispatch {
    Dispatch::Refused { plugin_id: id.to_owned(), verdict }
}

fn sample() -> PluginRegistry<Stub> {
    let mut registry: PluginRegistry<Stub> = PluginRegistry::new();
    registry.register(spec_of("ai", &["ai"], &["AI"], Value::null()), stub("ai"));
    registry.register(spec_of("other", &[], &["@other"], Value::null()), stub("other"));
    registry.register(spec_of("echo", &["echo"], &[], Value::null()), stub("echo"));
    registry
}

#[test]
fn mention_scan_runs_first_actionable_mention_with_full_body() {
    let registry = sample();
    let body = "hey @Bot.ai can you help @other";
    let d = mention_dispatch(&registry, body, false, Some("bot"), true);
    assert_eq!(d, invoke("ai", body, "@ai"));
}

#[test]
fn mention_scan_skips_gated_mentions_and_goes_on() {
    let registry = sample();
    let body = "hey @Bot.ai can you help @other";
    let prod = mention_dispatch(&registry, body, false, Some("bot"), false);
    assert_eq!(prod, invoke("other", body, "@other"));
    let foreign = mention_dispatch(&registry, body, false, Some("zed"), true);
    assert_eq!(foreign, Dispatch::Nothing);
    let none = mention_dispatch(&registry, "no mention here", false, None, false);
    assert_eq!(none, Dispatch::Nothing);
}

#[test]
fn mention_scan_is_not_attempted_for_own_messages() {
    let registry = sample();
    assert_eq!(mention_dispatch(&registry, "@ai hello", true, None, false), Dispatch::Nothing);
    assert_eq!(command_dispatch(&registry, "!echo hello", true, None, false), Dispatch::Nothing);
}

#[test]
fn mention_args_are_the_whole_body() {
    let registry = sample();
    let d = mention_dispatch(&registry, "  (\"@AI's\") idea?  ", false, None, false);
    assert_eq!(d, invoke("ai", "  (\"@AI's\") idea?  ", "@ai"));
}

#[test]
fn mentions_are_cleaned_of_wrapping_punctuation_and_possessive() {
    let clean = |s: &str| clean_mention(&s.chars().collect()).map(|v| v.into_iter().collect::<String>());
    assert_eq!(clean("@ai"), Some("@ai".to_owned()));
    assert_eq!(clean("(@ai)"), Some("@ai".to_owned()));
    assert_eq!(clean("\"@ai\","), Some("@ai".to_owned()));
    assert_eq!(clean("@ai's"), Some("@ai".to_owned()));
    assert_eq!(clean("@ai\u{2019}s"), Some("@ai".to_owned()));
    assert_eq!(clean("@ai's!"), Some("@ai".to_owned()));
    assert_eq!(clean("@ai\u{2026}"), Some("@ai".to_owned()));
    assert_eq!(clean("<{[@ai]}>?!"), Some("@ai".to_owned()));
    assert_eq!(clean("@dev.ai."), Some("@dev.ai".to_owned()));
    assert_eq!(clean("mail@example.com"), None);
    assert_eq!(clean("x(@ai)"), None);
    assert_eq!(clean("ai"), None);
    assert_eq!(clean("@"), Some("@".to_owned()));
    assert_eq!(clean("'s@"), None);
}

#[test]
fn command_path_splits_token_and_args() {
    let registry = sample();
    let d = command_dispatch(&registry, "  !echo   hello  world ", false, None, false);
    assert_eq!(d, invoke("echo", "hello  world", "!echo"));
    assert_eq!(command_dispatch(&registry, "!echo", false, None, false), invoke("echo", "", "!echo"));
    assert_eq!(command_dispatch(&registry, "!echo ", false, None, false), invoke("echo", "", "!echo"));
    assert_eq!(
        command_dispatch(&registry, "!echo\tx y", false, None, false),
        Dispatch::Nothing
    );
    assert_eq!(command_dispatch(&registry, "echo hi", false, None, false), Dispatch::Nothing);
    assert_eq!(command_dispatch(&registry, "!nope hi", false, None, false), Dispatch::Nothing);
    assert_eq!(command_dispatch(&registry, "", false, None, false), Dispatch::Nothing);
}

#[test]
fn command_path_applies_the_routing_gate() {
    let registry = sample();
    assert_eq!(
        command_dispatch(&registry, "!dev.echo hi", false, Some("dev"), true),
        invoke("echo", "hi", "!echo")
    );
    assert_eq!(
        command_dispatch(&registry, "!dev.echo hi", false, Some("dev"), false),
        refused("echo", GateVerdict::DevInProd)
    );
    assert_eq!(
        command_dispatch(&registry, "!echo hi", false, Some("dev"), true),
        refused("echo", GateVerdict::ProdInDev)
    );
    assert_eq!(
        command_dispatch(&registry, "!zed.echo hi", false, Some("dev"), true),
        refused("echo", GateVerdict::OtherDev)
    );
    assert_eq!(
        command_dispatch(&registry, "!dev. hi", false, Some("dev"), true),
        Dispatch::Nothing
    );
}

#[test]
fn command_path_respects_dev_only_and_enablement() {
    let mut registry = sample();
    let mut secret = spec_of("secret", &["secret"], &[], Value::null());
    secret.dev_only = Some(true);
    registry.register(secret, stub("secret"));
    let mut lab = stub("lab");
    lab.dev_only = true;
    registry.register(spec_of("lab", &["lab"], &[], Value::null()), lab.clone());
    let mut open_lab = spec_of("openlab", &["openlab"], &[], Value::null());
    open_lab.dev_only = Some(false);
    registry.register(open_lab, lab);
    assert_eq!(
        command_dispatch(&registry, "!secret", false, None, false),
        refused("secret", GateVerdict::DevOnlyInProd)
    );
    assert_eq!(
        command_dispatch(&registry, "!lab", false, None, false),
        refused("lab", GateVerdict::DevOnlyInProd)
    );
    assert_eq!(command_dispatch(&registry, "!openlab", false, None, false), invoke("openlab", "", "!openlab"));
    assert_eq!(
        command_dispatch(&registry, "!d.secret", false, Some("d"), true),
        invoke("secret", "", "!secret")
    );
    registry.set_override("echo", false);
    assert_eq!(
        command_dispatch(&registry, "!echo hi", false, None, false),
        refused("echo", GateVerdict::Disabled)
    );
    registry.clear_override("echo");
    assert_eq!(command_dispatch(&registry, "!echo hi", false, None, false), invoke("echo", "hi", "!echo"));
}

#[test]
fn both_paths_may_fire_for_one_message() {
    let registry = sample();
    let body = "!echo ask @ai";
    assert_eq!(command_dispatch(&registry, body, false, None, false), invoke("echo", "ask @ai", "!echo"));
    assert_eq!(mention_dispatch(&registry, body, false, None, false), invoke("ai", body, "@ai"));
}

#[test]
fn passive_observers_follow_their_opt_ins() {
    let mut registry: PluginRegistry<Stub> = PluginRegistry::new();
    let relay = Stub { name: "relay", dev_only: false, passive: true, own: false };
    let ai = Stub { name: "ai", dev_only: false, passive: true, own: true };
    let lab = Stub { name: "lab", dev_only: true, passive: true, own: true };
    registry.register(spec_of("relay", &[], &[], Value::null()), relay);
    registry.register(spec_of("echo", &["echo"], &[], Value::null()), stub("echo"));
    registry.register(spec_of("ai", &["ai"], &[], Value::null()), ai);
    registry.register(spec_of("lab", &[], &[], Value::null()), lab);
    assert_eq!(passive_observers(&registry, false, false), vec!["relay", "ai"]);
    assert_eq!(passive_observers(&registry, true, false), vec!["ai"]);
    assert_eq!(passive_observers(&registry, false, true), vec!["relay", "ai", "lab"]);
    registry.set_override("ai", false);
    assert_eq!(passive_observers(&registry, true, true), vec!["lab"]);
}

#[test]
fn failed_invocation_leaves_no_trace() {
    let registry = sample();
    let mut run = MessageRun::new();
    let before_cmd = command_dispatch(&registry, "!echo hi", false, None, false);
    run.record("echo", false);
    assert!(!run.has_triggered("echo"));
    assert_eq!(command_dispatch(&registry, "!echo hi", false, None, false), before_cmd);
    assert_eq!(
        mention_dispatch(&registry, "hello @ai", false, None, false),
        invoke("ai", "hello @ai", "@ai")
    );
    assert!(registry.is_enabled("echo"));
    run.record("echo", true);
    run.record("echo", true);
    run.record("ai", true);
    assert!(run.has_triggered("echo"));
    assert!(run.has_triggered("ai"));
    assert!(!run.has_triggered("other"));
}

#[test]
fn only_text_and_notice_are_dispatched() {
    assert_eq!(dispatch_body(MessageKind::Text, "x"), Some("x"));
    assert_eq!(dispatch_body(MessageKind::Notice, "x"), Some("x"));
    assert_eq!(dispatch_body(MessageKind::Emote, "x"), None);
    assert_eq!(dispatch_body(MessageKind::Image, "x"), None);
    let long = "a".repeat(250);
    assert_eq!(body_snippet(MessageKind::Emote, &long), Some("a".repeat(200)));
    assert_eq!(body_snippet(MessageKind::Text, "short"), Some("short".to_owned()));
    assert_eq!(body_snippet(MessageKind::Video, "short"), None);
}
