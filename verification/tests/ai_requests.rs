use matrix_ping_bot::ai::{
    api_base, api_path, api_url, assistant_message, model, usage, contains_text, default_prompt, error_message, format_timestamp,
    history_file, last_lines, mentions_assistant, read_request, replace_first, reply_content,
    resolve_api_key, setting, system_prompt, timestamp_to_rfc3339, AiRequest, AiTool, ApiKey,
};
use matrix_ping_bot::plugin::Plugin;
use matrix_ping_bot::value::Value;

fn key(k: &str, source: &str) -> Option<ApiKey> {
    Some(ApiKey { key: k.to_owned(), source: source.to_owned() })
}

#[test]
fn requests_need_a_prompt() {
    assert_eq!(read_request(""), AiRequest::Usage);
    assert_eq!(read_request("  -log  "), AiRequest::Usage);
    assert_eq!(
        read_request(" tell  me -log a joke "),
        AiRequest::Ask { prompt: "tell me a joke".to_owned(), log_to_room: true }
    );
    assert_eq!(
        read_request("hello"),
        AiRequest::Ask { prompt: "hello".to_owned(), log_to_room: false }
    );
}

#[test]
fn settings_fall_back_from_configuration_to_environment_to_default() {
    let spec = AiTool.spec(Value::Mapping(vec![(Value::string("model"), Value::string("m1"))]));
    assert_eq!(setting(&spec, "model", Some("env"), "default"), "m1");
    assert_eq!(setting(&spec, "api_base", Some("env"), "default"), "env");
    assert_eq!(setting(&spec, "api_base", None, "default"), "default");
    assert_eq!(model(&spec, Some("env")), "m1");
    assert_eq!(api_base(&spec, Some("https://ai.example.com")), "https://ai.example.com");
    assert_eq!(api_base(&spec, None), "https://api.openai.com");
    assert_eq!(api_path(&spec, None), "/v1/chat/completions");
    assert_eq!(model(&AiTool.spec(Value::null()), None), "gpt-4o-mini");
    assert_eq!(usage(), "Usage: !ai <prompt>");
    assert_eq!(api_url("https://api.example.com//", "/v1/chat"), "https://api.example.com/v1/chat");
    assert_eq!(api_url("https://api.example.com", "/v1/chat"), "https://api.example.com/v1/chat");
    assert_eq!(api_url("///", "x"), "x");
}

#[test]
fn api_key_sources_have_a_precedence() {
    assert_eq!(
        resolve_api_key(Some("k"), Some("VAR"), Some("v"), Some("a"), Some("o")),
        key("k", "config.api_key")
    );
    assert_eq!(
        resolve_api_key(None, Some("VAR"), Some("v"), Some("a"), Some("o")),
        key("v", "env.VAR")
    );
    assert_eq!(resolve_api_key(None, Some("VAR"), None, Some("a"), Some("o")), None);
    assert_eq!(resolve_api_key(None, None, None, Some("a"), Some("o")), key("a", "env.AI_API_KEY"));
    assert_eq!(resolve_api_key(None, None, Some("v"), None, Some("o")), key("o", "env.OPENAI_API_KEY"));
    assert_eq!(resolve_api_key(None, None, None, None, None), None);
}

#[test]
fn answers_are_trimmed_and_never_empty() {
    assert_eq!(reply_content(Some("  hi \n")), "hi");
    assert_eq!(reply_content(Some("   ")), "<no content>");
    assert_eq!(reply_content(None), "<no content>");
}

#[test]
fn assistant_messages_open_with_the_bold_handle() {
    assert_eq!(
        assistant_message("Al", false, Some("dev"), "hello"),
        "@\u{1D400}\u{1D425}: hello"
    );
    assert_eq!(
        assistant_message("Al", true, Some("d1"), "hello"),
        "=======DEV MODE=======\n@\u{1D41D}\u{1D7CF}.\u{1D400}\u{1D425}: hello"
    );
    assert_eq!(
        assistant_message("Al", true, None, "hello"),
        "=======DEV MODE=======\n@\u{1D400}\u{1D425}: hello"
    );
    assert_eq!(error_message("500", "boom"), "AI error: 500\nboom");
    assert_eq!(error_message("429", &"x".repeat(450)), format!("AI error: 429\n{}", "x".repeat(400)));
}

#[test]
fn history_files_are_named_after_the_room() {
    assert_eq!(history_file("!abc:example.org"), "!abc_example.org.log");
    assert_eq!(history_file("a/b\\c:d*e?f\"g<h>i|j"), "a_b_c_d_e_f_g_h_i_j.log");
    assert_eq!(history_file(""), ".log");
    let lines: Vec<String> = ["a", "b", "c", "d"].iter().map(|s| s.to_string()).collect();
    assert_eq!(last_lines(&lines, 2), vec!["c", "d"]);
    assert_eq!(last_lines(&lines, 4), vec!["a", "b", "c", "d"]);
    assert_eq!(last_lines(&lines, 9), vec!["a", "b", "c", "d"]);
    assert!(last_lines(&lines, 0).is_empty());
    assert!(last_lines(&Vec::new(), 3).is_empty());
}

#[test]
fn system_prompt_names_the_assistant_and_carries_the_context() {
    let opening = "Your name is Al. People will tag you as @Al.\nRouting prefixes like !dev.command or @dev.name are delivery hints; ignore them when referring to yourself or others.\n";
    assert_eq!(system_prompt("Al", "base", &Vec::new()), format!("{opening}base"));
    let context = vec!["[t] a:hi".to_owned(), "[t] b:ho".to_owned()];
    assert_eq!(
        system_prompt("Al", "x (context grabbed from the chat) y (context grabbed from the chat)", &context),
        format!("{opening}x [t] a:hi\n[t] b:ho y (context grabbed from the chat)")
    );
    assert_eq!(system_prompt("Al", "no marker", &context), format!("{opening}no marker"));
    assert_eq!(
        system_prompt("Al", "(context grabbed from the chat)", &vec![String::new()]),
        format!("{opening}(context grabbed from the chat)")
    );
    let default = default_prompt();
    assert!(default.starts_with("\nYou are an AI assistant embedded in a casual group chat"));
    assert!(default.contains("(context grabbed from the chat)"));
    assert!(default.ends_with("\u{2192} YOUR REPLY GOES HERE\n"));
    assert_eq!(default.chars().count(), 1991);
}

#[test]
fn first_occurrence_is_replaced_and_text_is_searched() {
    let chars = |s: &str| s.chars().collect::<Vec<char>>();
    let text = |v: Vec<char>| v.into_iter().collect::<String>();
    assert_eq!(text(replace_first(&chars("aXbXc"), &chars("X"), &chars("--"))), "a--bXc");
    assert_eq!(text(replace_first(&chars("abc"), &chars("abc"), &chars(""))), "");
    assert_eq!(text(replace_first(&chars("abc"), &chars("abcd"), &chars("z"))), "abc");
    assert_eq!(text(replace_first(&chars("abc"), &chars(""), &chars("z"))), "abc");
    assert_eq!(text(replace_first(&chars("aab"), &chars("ab"), &chars("z"))), "az");
    assert!(contains_text(&chars("hello @claire!"), &chars("@claire")));
    assert!(contains_text(&chars("abc"), &chars("")));
    assert!(contains_text(&chars("abc"), &chars("abc")));
    assert!(contains_text(&chars("abc"), &chars("c")));
    assert!(!contains_text(&chars("abc"), &chars("abcd")));
    assert!(!contains_text(&chars("abc"), &chars("ca")));
    assert!(contains_text(&chars(""), &chars("")));
}

#[test]
fn assistant_is_addressed_by_handle_in_any_case() {
    assert!(mentions_assistant("hey @CLAIRE?", None, "Claire", false, None));
    assert!(!mentions_assistant("hey claire", None, "Claire", false, None));
    assert!(mentions_assistant("hey @Dev.claire", None, "Claire", true, Some("DEV")));
    assert!(!mentions_assistant("hey @claire", None, "Claire", true, Some("dev")));
    assert!(!mentions_assistant("hey @claire", None, "Claire", true, None));
    assert!(mentions_assistant("yo @Bot", Some("@bot"), "Claire", true, None));
    assert!(mentions_assistant("yo @Bot", Some("@BOT"), "Claire", false, None));
    assert!(!mentions_assistant("yo", Some("@bot"), "Claire", false, None));
}

#[test]
fn time_stamps_are_written_in_rfc_3339() {
    assert_eq!(timestamp_to_rfc3339(0), Some("1970-01-01T00:00:00Z".to_owned()));
    assert_eq!(timestamp_to_rfc3339(1_700_000_000_123), Some("2023-11-14T22:13:20.123Z".to_owned()));
    assert_eq!(timestamp_to_rfc3339(u64::MAX), None);
    assert_eq!(format_timestamp(Some(1_000), Some("now")), "1970-01-01T00:00:01Z");
    assert_eq!(format_timestamp(None, Some("now")), "now");
    assert_eq!(format_timestamp(Some(u64::MAX), Some("now")), "now");
    assert_eq!(format_timestamp(None, None), "1970-01-01T00:00:00Z");
}
