use matrix_ping_bot::plugin::{Plugin, PluginEntry, PluginSpec, PluginTraits, PluginTriggers};
use matrix_ping_bot::registry::PluginRegistry;
use matrix_ping_bot::value::Value;

#[derive(Clone, Debug, PartialEq)]
struct Handle(u32);

impl Plugin for Handle {
    fn id(&self) -> String {
        format!("h{}", self.0)
    }

    fn help(&self) -> String {
        String::new()
    }

    fn dev_only(&self) -> bool {
        self.0 % 2 == 1
    }

    fn handles_room_messages(&self) -> bool {
        false
    }

    fn wants_own_messages(&self) -> bool {
        false
    }

    fn spec(&self, config: Value) -> PluginSpec {
        spec_of(&self.id(), &[], &[], config.is_null())
    }
}

fn spec_of(id: &str, commands: &[&str], mentions: &[&str], enabled: bool) -> PluginSpec {
    PluginSpec {
        id: id.to_owned(),
        enabled,
        dev_only: None,
        triggers: PluginTriggers {
            commands: commands.iter().map(|s| s.to_string()).collect(),
            mentions: mentions.iter().map(|s| s.to_string()).collect(),
        },
        config: Value::null(),
    }
}

fn id_by_command(registry: &PluginRegistry<Handle>, token: &str) -> Option<String> {
    registry.entry_by_command(token).map(|e| e.spec.id.clone())
}

fn id_by_mention(registry: &PluginRegistry<Handle>, token: &str) -> Option<String> {
    registry.entry_by_mention(token).map(|e| e.spec.id.clone())
}

#[test]
fn register_indexes_normalized_triggers() {
    let mut registry: PluginRegistry<Handle> = PluginRegistry::new();
    assert_eq!(registry.len(), 0);
    let previous = registry.register(spec_of("ai", &["ai", "!Ask"], &["Claire", "@BOT"], true), Handle(1));
    assert!(previous.is_none());
    assert_eq!(registry.len(), 1);
    assert_eq!(id_by_command(&registry, "!ai"), Some("ai".to_owned()));
    assert_eq!(id_by_command(&registry, "!Ask"), Some("ai".to_owned()));
    assert_eq!(id_by_command(&registry, "!ask"), None);
    assert_eq!(id_by_command(&registry, "ai"), None);
    assert_eq!(id_by_mention(&registry, "@claire"), Some("ai".to_owned()));
    assert_eq!(id_by_mention(&registry, "@bot"), Some("ai".to_owned()));
    assert_eq!(id_by_mention(&registry, "@Claire"), None);
    let entry = registry.entry("ai").unwrap();
    assert_eq!(entry.plugin, Handle(1));
    assert_eq!(
        entry.traits,
        PluginTraits { dev_only: true, handles_room_messages: false, wants_own_messages: false }
    );
    assert!(entry.dev_only());
    assert!(registry.entry("nope").is_none());
}

#[test]
fn reregistration_leaves_no_stale_route() {
    let mut registry: PluginRegistry<Handle> = PluginRegistry::new();
    registry.register(spec_of("ai", &["ai", "ask"], &["claire"], true), Handle(1));
    registry.register(spec_of("echo", &["echo"], &["parrot"], true), Handle(2));
    let previous = registry.register(spec_of("ai", &["ask", "chat"], &["bot"], true), Handle(3));
    assert_eq!(previous.map(|e| e.plugin), Some(Handle(1)));
    assert_eq!(registry.len(), 2);
    assert_eq!(id_by_command(&registry, "!ai"), None);
    assert_eq!(id_by_command(&registry, "!ask"), Some("ai".to_owned()));
    assert_eq!(id_by_command(&registry, "!chat"), Some("ai".to_owned()));
    assert_eq!(id_by_mention(&registry, "@claire"), None);
    assert_eq!(id_by_mention(&registry, "@bot"), Some("ai".to_owned()));
    assert_eq!(id_by_command(&registry, "!echo"), Some("echo".to_owned()));
    assert_eq!(id_by_mention(&registry, "@parrot"), Some("echo".to_owned()));
    assert_eq!(registry.entry("ai").unwrap().plugin, Handle(3));
}

#[test]
fn a_later_registration_takes_over_a_shared_token() {
    let mut registry: PluginRegistry<Handle> = PluginRegistry::new();
    registry.register(spec_of("a", &["go"], &[], true), Handle(1));
    registry.register(spec_of("b", &["go"], &[], true), Handle(2));
    assert_eq!(id_by_command(&registry, "!go"), Some("b".to_owned()));
    registry.unregister("b");
    assert_eq!(id_by_command(&registry, "!go"), None);
    assert!(registry.entry("a").is_some());
}

#[test]
fn unregister_removes_entry_rows_and_override() {
    let mut registry: PluginRegistry<Handle> = PluginRegistry::new();
    registry.register(spec_of("a", &["go"], &["me"], false), Handle(1));
    registry.set_override("a", true);
    assert!(registry.is_enabled("a"));
    let removed = registry.unregister("a");
    assert_eq!(removed.map(|e| e.plugin), Some(Handle(1)));
    assert_eq!(registry.len(), 0);
    assert_eq!(id_by_command(&registry, "!go"), None);
    assert_eq!(id_by_mention(&registry, "@me"), None);
    assert!(!registry.is_enabled("a"));
    assert!(registry.unregister("a").is_none());
    registry.register(spec_of("a", &["go"], &["me"], false), Handle(1));
    assert!(!registry.is_enabled("a"));
}

#[test]
fn overrides_survive_replacement_and_fall_back_to_the_static_switch() {
    let mut registry: PluginRegistry<Handle> = PluginRegistry::new();
    assert!(!registry.is_enabled("ghost"));
    registry.set_override("ghost", true);
    assert!(registry.is_enabled("ghost"));
    registry.register(spec_of("a", &[], &[], true), Handle(1));
    registry.register(spec_of("b", &[], &[], false), Handle(2));
    assert!(registry.is_enabled("a"));
    assert!(!registry.is_enabled("b"));
    registry.set_override("a", false);
    registry.set_override("b", true);
    assert!(!registry.is_enabled("a"));
    assert!(registry.is_enabled("b"));
    registry.register(spec_of("a", &["x"], &[], true), Handle(3));
    assert!(!registry.is_enabled("a"));
    registry.clear_override("a");
    registry.clear_override("b");
    registry.clear_override("never-set");
    assert!(registry.is_enabled("a"));
    assert!(!registry.is_enabled("b"));
}

#[test]
fn entries_keep_the_order_of_first_registration() {
    let mut registry: PluginRegistry<Handle> = PluginRegistry::new();
    registry.register(spec_of("c", &[], &[], true), Handle(1));
    registry.register(spec_of("a", &[], &[], true), Handle(2));
    registry.register(spec_of("b", &[], &[], true), Handle(3));
    registry.register(spec_of("a", &[], &[], true), Handle(4));
    let snapshot = registry.entries();
    let ids: Vec<&str> = snapshot.iter().map(|(id, _)| id.as_str()).collect();
    assert_eq!(ids, vec!["c", "a", "b"]);
    assert_eq!(snapshot[1].1.plugin, Handle(4));
    assert_eq!(registry.id_at(2), "b");
    assert_eq!(registry.entry_at(0).plugin, Handle(1));
}

#[test]
fn register_entry_keeps_the_given_traits() {
    let mut registry: PluginRegistry<Handle> = PluginRegistry::new();
    let traits = PluginTraits { dev_only: false, handles_room_messages: true, wants_own_messages: true };
    let entry = PluginEntry { spec: spec_of("x", &["x"], &[], true), plugin: Handle(7), traits };
    assert!(registry.register_entry(entry).is_none());
    assert_eq!(registry.entry("x").unwrap().traits, traits);
    assert!(!registry.entry("x").unwrap().dev_only());
}

struct Shared(std::sync::Arc<dyn Plugin + Send + Sync>);

impl Plugin for Shared {
    fn id(&self) -> String {
        self.0.id()
    }

    fn help(&self) -> String {
        self.0.help()
    }

    fn dev_only(&self) -> bool {
        self.0.dev_only()
    }

    fn handles_room_messages(&self) -> bool {
        self.0.handles_room_messages()
    }

    fn wants_own_messages(&self) -> bool {
        self.0.wants_own_messages()
    }

    fn spec(&self, config: Value) -> PluginSpec {
        self.0.spec(config)
    }
}

#[test]
fn capabilities_can_be_shared_behind_one_handle_type() {
    let mut registry: PluginRegistry<Shared> = PluginRegistry::new();
    let one = Shared(std::sync::Arc::new(Handle(1)));
    let two = Shared(std::sync::Arc::new(matrix_ping_bot::builtin::Ping));
    let spec = two.spec(Value::null());
    registry.register(spec_of("h1", &["one"], &[], true), one);
    registry.register(spec, two);
    assert_eq!(registry.entry_by_command("!one").unwrap().plugin.id(), "h1");
    assert_eq!(registry.entry_by_command("!ping").unwrap().plugin.id(), "ping");
    assert!(registry.entry("h1").unwrap().traits.dev_only);
    assert!(!registry.entry("ping").unwrap().traits.dev_only);
}

#[test]
fn a_new_entry_keeps_the_answers_of_its_capability() {
    let odd = PluginEntry::new(spec_of("x", &[], &[], true), Handle(3));
    assert_eq!(
        odd.traits,
        PluginTraits { dev_only: true, handles_room_messages: false, wants_own_messages: false }
    );
    assert!(odd.dev_only());
    assert_eq!(odd.plugin, Handle(3));
    assert_eq!(odd.spec, spec_of("x", &[], &[], true));
    let even = PluginEntry::new(spec_of("y", &[], &[], true), Handle(2));
    assert!(!even.traits.dev_only);
    assert!(!even.dev_only());
    assert_eq!(
        PluginTraits::of(&matrix_ping_bot::builtin::RelayTool),
        PluginTraits { dev_only: false, handles_room_messages: true, wants_own_messages: false }
    );
    let mut registry: PluginRegistry<Handle> = PluginRegistry::new();
    registry.register(spec_of("x", &[], &[], true), Handle(5));
    assert!(registry.entry("x").unwrap().traits.dev_only);
}

#[test]
fn every_snapshot_pair_is_keyed_by_the_id_of_its_declaration() {
    let mut registry: PluginRegistry<Handle> = PluginRegistry::new();
    registry.register(spec_of("c", &["go"], &[], true), Handle(1));
    registry.register(spec_of("a", &["go"], &["me"], true), Handle(2));
    registry.register(spec_of("c", &[], &["me"], false), Handle(3));
    registry.unregister("b");
    let snapshot = registry.entries();
    assert_eq!(snapshot.len(), registry.len());
    for (i, (id, entry)) in snapshot.iter().enumerate() {
        assert_eq!(*id, entry.spec.id);
        assert_eq!(registry.entry(id).unwrap().plugin, entry.plugin);
        for (other, _) in &snapshot[i + 1..] {
            assert_ne!(id, other);
        }
    }
    assert_eq!(id_by_command(&registry, "!go"), Some("a".to_owned()));
    assert_eq!(id_by_mention(&registry, "@me"), Some("c".to_owned()));
}
