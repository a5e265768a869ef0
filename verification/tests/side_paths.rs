use matrix_ping_bot::assembly::mode_banner;
use matrix_ping_bot::backfill::{Backfill, PageVerdict};
use matrix_ping_bot::gewn::{visit_entry, EntryAction, GewnConfig, GewnPlugin};
use matrix_ping_bot::mcp::{is_known_server, mcp_reply, CallParams, McpReply};
use matrix_ping_bot::plugin::{Plugin, PluginFactory, PluginSpec};
use matrix_ping_bot::value::{ScalarKind, Value};
use matrix_ping_bot::verification::{
    accepts_invite, handle_sas, handle_verification_request, RequestAction, RequestState,
    SasAction, SasStage,
};
use matrix_ping_bot::wasm::{
    build_wasm_plugin_spec, is_component_extension, spec_for_stem, WasmError, WasmPlugin,
};

#[test]
fn spec_derives_id_from_filename() {
    let p = "/plugins/echo-tools.wasm";
    let spec = build_wasm_plugin_spec(p).unwrap();
    assert_eq!(spec.id, "echo-tools");
    assert!(spec.enabled);
    assert!(spec.triggers.commands.is_empty());
    assert!(spec.triggers.mentions.is_empty());
}

#[test]
fn components_are_recognized_by_extension_and_named_by_stem() {
    assert!(is_component_extension(Some("wasm")));
    assert!(!is_component_extension(Some("WASM")));
    assert!(!is_component_extension(Some("txt")));
    assert!(!is_component_extension(None));
    assert_eq!(spec_for_stem(None), Err(WasmError::NoFileStem));
    assert_eq!(build_wasm_plugin_spec("/"), Err(WasmError::NoFileStem));
    assert_eq!(build_wasm_plugin_spec(""), Err(WasmError::NoFileStem));
    let spec = spec_for_stem(Some("x")).unwrap();
    assert!(spec.config.is_null());
    assert_eq!(spec.dev_only, None);
    let plugin = WasmPlugin::new(spec.duplicate(), "/plugins/x.wasm".to_owned());
    assert_eq!(plugin.id(), "x");
    assert_eq!(plugin.help(), "WASM plugin (wasm-plugins: stub; runtime wiring pending)");
    assert_eq!(plugin.spec(Value::string("ignored")), spec);
    assert_eq!(plugin.wasm_path(), "/plugins/x.wasm");
    assert_eq!(
        plugin.reply("a b"),
        "WASM plugin 'x' is not yet executable in this build.\n- Args: a b\n- File: /plugins/x.wasm\n- Action: enable 'wasm-plugins' feature and complete wasmtime/WASI integration."
    );
}

#[test]
fn backfill_pages_until_the_limit_or_the_end() {
    let mut backfill = Backfill::new(120, None);
    assert_eq!(backfill.next_page(), Some(50));
    assert_eq!(backfill.after_page(false, 50, Some("t1".to_owned())), PageVerdict::Continue);
    assert_eq!(backfill.from_token.as_deref(), Some("t1"));
    assert_eq!(backfill.next_page(), Some(50));
    assert_eq!(backfill.after_page(false, 30, Some("t2".to_owned())), PageVerdict::Continue);
    assert_eq!(backfill.remaining, 40);
    assert_eq!(backfill.next_page(), Some(40));
    assert_eq!(backfill.after_page(false, 40, Some("t3".to_owned())), PageVerdict::LimitReached);
    assert_eq!(backfill.remaining, 0);
    assert_eq!(backfill.total_appended, 120);
    assert_eq!(backfill.pages, 3);
    assert_eq!(backfill.from_token.as_deref(), Some("t2"));
    assert_eq!(backfill.next_page(), None);
    assert_eq!(backfill.pages, 3);
}

#[test]
fn backfill_stops_without_progress() {
    let mut backfill = Backfill::new(10, Some("t0".to_owned()));
    assert_eq!(backfill.after_page(true, 0, Some("t1".to_owned())), PageVerdict::EmptyChunk);
    assert_eq!(backfill.remaining, 10);
    assert_eq!(backfill.after_page(false, 1, None), PageVerdict::NoProgress);
    assert_eq!(backfill.after_page(false, 1, Some(String::new())), PageVerdict::NoProgress);
    assert_eq!(backfill.after_page(false, 1, Some("t0".to_owned())), PageVerdict::NoProgress);
    assert_eq!(backfill.remaining, 7);
    assert_eq!(backfill.after_page(false, 0, Some("t1".to_owned())), PageVerdict::Continue);
    assert_eq!(backfill.after_page(false, 99, Some("t2".to_owned())), PageVerdict::LimitReached);
    assert_eq!(backfill.total_appended, 102);
    let mut none = Backfill::new(0, None);
    assert_eq!(none.next_page(), None);
}

#[test]
fn tool_server_answers_the_protocol() {
    assert!(is_known_server("time"));
    assert!(!is_known_server("Time"));
    let named = |n: &str| CallParams::Tool(n.to_owned());
    assert_eq!(mcp_reply("initialize", &CallParams::NotAnObject), McpReply::Initialize);
    assert_eq!(mcp_reply("tools/list", &CallParams::Unnamed), McpReply::ToolList);
    assert_eq!(mcp_reply("tools/call", &named("get_current_time")), McpReply::CurrentTime);
    assert_eq!(
        mcp_reply("tools/call", &named("other")),
        McpReply::Error { code: -32601, message: "Tool not found: other".to_owned() }
    );
    assert_eq!(
        mcp_reply("tools/call", &CallParams::Unnamed),
        McpReply::Error { code: -32602, message: "Missing 'name' parameter".to_owned() }
    );
    assert_eq!(
        mcp_reply("tools/call", &CallParams::NotAnObject),
        McpReply::Error { code: -32602, message: "Invalid params".to_owned() }
    );
    assert_eq!(mcp_reply("ping", &named("get_current_time")), McpReply::Silence);
    assert_eq!(mcp_reply("notificiations/initialized", &CallParams::NotAnObject), McpReply::Silence);
}

#[test]
fn verification_follows_its_states() {
    assert_eq!(handle_verification_request(RequestState::Pending), RequestAction::Wait);
    assert_eq!(
        handle_verification_request(RequestState::Transitioned { sas: true }),
        RequestAction::StartSas
    );
    assert_eq!(
        handle_verification_request(RequestState::Transitioned { sas: false }),
        RequestAction::Stop
    );
    assert_eq!(handle_verification_request(RequestState::Cancelled), RequestAction::Stop);
    assert_eq!(handle_verification_request(RequestState::Done), RequestAction::Stop);
    assert_eq!(handle_sas(SasStage::Pending, true), SasAction::Wait);
    assert_eq!(handle_sas(SasStage::KeysExchanged { emojis: false }, true), SasAction::Wait);
    assert_eq!(handle_sas(SasStage::KeysExchanged { emojis: true }, true), SasAction::ShowAndConfirm);
    assert_eq!(handle_sas(SasStage::KeysExchanged { emojis: true }, false), SasAction::ShowEmojis);
    assert_eq!(handle_sas(SasStage::Cancelled, true), SasAction::Stop);
    assert_eq!(handle_sas(SasStage::Done, false), SasAction::Stop);
    assert!(accepts_invite(true, "@bot:x", "@bot:x", true));
    assert!(!accepts_invite(true, "@bot:x", "@bot:x", false));
    assert!(!accepts_invite(false, "@bot:x", "@bot:x", true));
    assert!(!accepts_invite(true, "@other:x", "@bot:x", true));
}

#[test]
fn banner_announces_the_mode() {
    assert_eq!(
        mode_banner(true, Some("d1"), false),
        "==============================\n  DEVELOPMENT MODE ACTIVE\n  Send !d1.command targets this instance\n=============================="
    );
    assert_eq!(
        mode_banner(true, None, true),
        "\u{1b}[1;33m==============================\n  DEVELOPMENT MODE ACTIVE\n  Send !dev.command targets this instance\n==============================\u{1b}[0m"
    );
    assert_eq!(
        mode_banner(false, Some("d1"), true),
        "\u{1b}[1;32m==============================\n  PRODUCTION MODE\n  Relaying enabled \u{2014} commands without !d1. prefix\n==============================\u{1b}[0m"
    );
    assert_eq!(
        mode_banner(false, None, false),
        "==============================\n  PRODUCTION MODE\n  Relaying is enabled \u{2014} commands without a dev prefix\n=============================="
    );
}

#[test]
fn picture_defaults_are_declared_with_their_configuration() {
    let mut specs: Vec<PluginSpec> = Vec::new();
    GewnPlugin.register_defaults(&mut specs);
    GewnPlugin.register_defaults(&mut specs);
    assert_eq!(specs.len(), 2);
    assert_eq!(specs[0], specs[1]);
    assert_eq!(specs[0].id, "gewn");
    assert_eq!(specs[0].triggers.commands, vec!["!gewn"]);
    let text = |s: &str| Value::string(s);
    let expected = Value::Mapping(vec![
        (text("directory"), text("./plugins/gewn/images")),
        (text("caption_template"), Value::null()),
        (
            text("extensions"),
            Value::Sequence(vec![text("jpg"), text("jpeg"), text("png"), text("gif"), text("webp")]),
        ),
        (text("recursive"), Value::Scalar(ScalarKind::Bool, "false".to_owned())),
        (
            text("fallback_text"),
            text("No gewn images found. Add files to ./plugins/gewn/images or update plugins/gewn/config.yaml."),
        ),
    ]);
    assert_eq!(specs[0].config, expected);
    assert_eq!(GewnConfig::default().to_value(), expected);
}

#[test]
fn directory_entries_are_searched_collected_or_skipped() {
    assert_eq!(visit_entry(true, false, true, false), EntryAction::Descend);
    assert_eq!(visit_entry(true, false, false, true), EntryAction::Skip);
    assert_eq!(visit_entry(false, true, false, true), EntryAction::Collect);
    assert_eq!(visit_entry(false, true, true, false), EntryAction::Skip);
    assert_eq!(visit_entry(false, false, true, true), EntryAction::Skip);
}
