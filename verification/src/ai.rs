//! The AI capability: what it declares, the handles it answers to, and the
//! lines it keeps as conversation history.

use crate::flags::{args_have_flag, args_without_flag, extract_log_flag};
use crate::plugin::{
    add_trigger, default_spec, default_view, ensure_sigil, find_spec, has_id, index_of_id,
    lemma_index_of_id, specs_view, str_config, with_sigil, with_trigger, Plugin, PluginFactory,
    PluginSpec, PluginTraits, PluginTriggers, SpecView,
};
use crate::routing::MENTION_SIGIL;
use crate::strings::{join_lines, one_string, opt_str_view, opt_string_view, strings_view};
use crate::text::{
    bold, chars_of, decorate_dev, decorated, extend_chars, extend_range, has_prefix, joined,
    lowercase, push_char, range_has_prefix, sanitize_line, sanitized, set_has, skip_trailing_in,
    str_to_lowercase, string_of, string_of_range, strip_end_in, to_bold, trim, trimmed, truncate,
    truncated,
};
use crate::value::{doc_str_at, Doc, ScalarKind, Value};
use vstd::prelude::*;

verus! {

/// The AI capability.
#[derive(Clone, Copy, Debug, PartialEq, Eq, Structural)]
pub struct AiTool;

/// The factory of the AI capability. `handle` is the mention handle that the
/// environment asks for, if it asks for one.
#[derive(Debug, PartialEq, Eq)]
pub struct AiPlugin {
    pub handle: Option<String>,
}

/// The name the assistant goes by when nothing names it.
pub open spec fn default_ai_name() -> Seq<char> {
    "Claire"@
}

/// The mention handle for the raw handle `raw`: it opens with `@`.
pub fn ai_env_handle(raw: Option<&str>) -> (r: Option<String>)
    ensures
        match r {
            Some(h) => raw is Some && h@ == with_sigil(raw->0@, MENTION_SIGIL),
            None => raw is None,
        },
{
    match raw {
        Some(s) => Some(ensure_sigil(s, MENTION_SIGIL)),
        None => None,
    }
}

/// The assistant's name: the one configured under `name`, else the one the
/// environment gives, else the default.
pub fn ai_name(spec: &PluginSpec, env_name: Option<&str>) -> (name: String)
    ensures
        name@ == (match doc_str_at(spec.config@, "name"@) {
            Some(n) => n,
            None => match env_name {
                Some(n) => n@,
                None => default_ai_name(),
            },
        }),
{
    match str_config(spec, "name") {
        Some(n) => n,
        None => match env_name {
            Some(n) => n.to_owned(),
            None => "Claire".to_owned(),
        },
    }
}

/// The mentions of a declaration once the environment's handle is added.
pub open spec fn with_handle(mentions: Seq<Seq<char>>, handle: Option<Seq<char>>) -> Seq<Seq<char>> {
    match handle {
        Some(h) => with_trigger(mentions, h),
        None => mentions,
    }
}

/// The declaration of the AI capability after its defaults were merged in.
pub open spec fn ai_merged(spec: SpecView, handle: Option<Seq<char>>) -> SpecView {
    SpecView {
        commands: with_trigger(spec.commands, "!ai"@),
        mentions: with_handle(spec.mentions, handle),
        ..spec
    }
}

/// The declaration of the AI capability where none was configured.
pub open spec fn ai_fresh(handle: Option<Seq<char>>) -> SpecView {
    SpecView {
        id: "ai"@,
        enabled: true,
        dev_only: None,
        commands: seq!["!ai"@],
        mentions: match handle {
            Some(h) => seq![h],
            None => Seq::empty(),
        },
        config: Doc::Scalar(ScalarKind::Null, Seq::empty()),
    }
}

impl AiTool {
    /// The line kept as history for a message with body `body`, or nothing
    /// where the body is empty once white space is collapsed.
    pub fn history_line(&self, timestamp: &str, sender_name: &str, body: &str) -> (r: Option<
        String,
    >)
        ensures
            r is None == (sanitized(body@, 400).len() == 0),
            r is Some ==> r->0@ == seq!['['] + timestamp@ + seq![']', ' '] + sender_name@
                + seq![':'] + sanitized(body@, 400),
    {
        let clean = sanitize_line(body, 400);
        let cv = chars_of(clean.as_str());
        if cv.len() == 0 {
            return None;
        }
        let mut out: Vec<char> = Vec::new();
        out.push('[');
        extend_chars(&mut out, &chars_of(timestamp));
        out.push(']');
        out.push(' ');
        extend_chars(&mut out, &chars_of(sender_name));
        out.push(':');
        extend_chars(&mut out, &cv);
        assert(out@ =~= seq!['['] + timestamp@ + seq![']', ' '] + sender_name@ + seq![':']
            + sanitized(body@, 400));
        Some(string_of(&out))
    }
}

impl Plugin for AiTool {
    open spec fn traits(&self) -> PluginTraits {
        PluginTraits {
            dev_only: false,
            handles_room_messages: true,
            wants_own_messages: true,
        }
    }

    open spec fn declaration(&self, config: Doc) -> SpecView {
        default_view("ai"@, seq!["!ai"@], config)
    }

    fn id(&self) -> (r: String)
        ensures
            r@ == "ai"@,
    {
        "ai".to_owned()
    }

    fn help(&self) -> (r: String)
        ensures
            r@ == "Ask the AI: !ai <prompt>"@,
    {
        "Ask the AI: !ai <prompt>".to_owned()
    }

    fn dev_only(&self) -> (b: bool) {
        false
    }

    fn handles_room_messages(&self) -> (b: bool) {
        true
    }

    fn wants_own_messages(&self) -> (b: bool) {
        true
    }

    fn spec(&self, config: Value) -> (spec: PluginSpec) {
        default_spec("ai", one_string("!ai"), config)
    }
}

/// The declarations once the defaults of the AI capability are merged in:
/// the first declaration of `ai` is completed, or a fresh one is added.
pub open spec fn ai_defaults(specs: Seq<SpecView>, handle: Option<Seq<char>>) -> Seq<SpecView> {
    if has_id(specs, "ai"@) {
        specs.update(
            index_of_id(specs, "ai"@, 0),
            ai_merged(specs[index_of_id(specs, "ai"@, 0)], handle),
        )
    } else {
        specs.push(ai_fresh(handle))
    }
}

impl PluginFactory for AiPlugin {
    /// A configured declaration of `ai` gains the `!ai` command and the
    /// environment's handle unless it lists them already; where `ai` is not
    /// declared, a fresh declaration is added.
    fn register_defaults(&self, specs: &mut Vec<PluginSpec>)
        ensures
            specs_view(final(specs)@) == ai_defaults(
                specs_view(old(specs)@),
                opt_string_view(self.handle),
            ),
    {
        let at = find_spec(specs, "ai");
        let ghost before = specs_view(specs@);
        proof {
            lemma_index_of_id(before, "ai"@, 0);
            assert forall|k: int| 0 <= k < at implies before[k].id != "ai"@ by {
                assert(before[k] == specs@[k]@);
            }
            if at < specs.len() {
                assert(before[at as int] == specs@[at as int]@);
            }
            assert(index_of_id(before, "ai"@, 0) == at);
        }
        if at < specs.len() {
            let mut spec = specs.remove(at);
            let ghost configured = spec@;
            add_trigger(&mut spec.triggers.commands, "!ai");
            match &self.handle {
                Some(h) => {
                    add_trigger(&mut spec.triggers.mentions, h.as_str());
                },
                None => {},
            }
            assert(spec@ == ai_merged(configured, opt_string_view(self.handle)));
            specs.insert(at, spec);
            assert(specs_view(specs@) =~= before.update(
                at as int,
                ai_merged(configured, opt_string_view(self.handle)),
            ));
        } else {
            let mut mentions: Vec<String> = Vec::new();
            match &self.handle {
                Some(h) => {
                    mentions.push(h.clone());
                },
                None => {},
            }
            let spec = PluginSpec {
                id: "ai".to_owned(),
                enabled: true,
                dev_only: None,
                triggers: PluginTriggers { commands: one_string("!ai"), mentions },
                config: Value::null(),
            };
            assert(strings_view(spec.triggers.mentions@) =~= ai_fresh(
                opt_string_view(self.handle),
            ).mentions);
            assert(spec@ == ai_fresh(opt_string_view(self.handle)));
            specs.push(spec);
            assert(specs_view(specs@) =~= before.push(ai_fresh(opt_string_view(self.handle))));
        }
    }
}

/// A setting: the configured value, else the environment's, else the default.
pub open spec fn setting_of(
    configured: Option<Seq<char>>,
    env: Option<Seq<char>>,
    default: Seq<char>,
) -> Seq<char> {
    match configured {
        Some(c) => c,
        None => match env {
            Some(e) => e,
            None => default,
        },
    }
}

/// Resolves a setting of the capability: the string its configuration holds
/// under `key`, else the environment's value, else `default`.
pub fn setting(spec: &PluginSpec, key: &str, env: Option<&str>, default: &str) -> (out: String)
    ensures
        out@ == setting_of(
            doc_str_at(spec.config@, key@),
            opt_str_view(env),
            default@,
        ),
{
    match str_config(spec, key) {
        Some(c) => c,
        None => match env {
            Some(e) => e.to_owned(),
            None => default.to_owned(),
        },
    }
}

/// Where the chat-completion service is found unless configured otherwise.
pub open spec fn default_api_base() -> Seq<char> {
    "https://api.openai.com"@
}

/// The path of the chat-completion endpoint unless configured otherwise.
pub open spec fn default_api_path() -> Seq<char> {
    "/v1/chat/completions"@
}

/// The model asked unless configured otherwise.
pub open spec fn default_model() -> Seq<char> {
    "gpt-4o-mini"@
}

/// Where the chat-completion service is found: configured under
/// `api_base`, else given by the environment, else the default.
pub fn api_base(spec: &PluginSpec, env: Option<&str>) -> (out: String)
    ensures
        out@ == setting_of(doc_str_at(spec.config@, "api_base"@), opt_str_view(env), default_api_base()),
{
    setting(spec, "api_base", env, "https://api.openai.com")
}

/// The path of the endpoint: configured under `api_path`, else given by
/// the environment, else the default.
pub fn api_path(spec: &PluginSpec, env: Option<&str>) -> (out: String)
    ensures
        out@ == setting_of(doc_str_at(spec.config@, "api_path"@), opt_str_view(env), default_api_path()),
{
    setting(spec, "api_path", env, "/v1/chat/completions")
}

/// The model to ask: configured under `model`, else given by the
/// environment, else the default.
pub fn model(spec: &PluginSpec, env: Option<&str>) -> (out: String)
    ensures
        out@ == setting_of(doc_str_at(spec.config@, "model"@), opt_str_view(env), default_model()),
{
    setting(spec, "model", env, "gpt-4o-mini")
}

/// The address of the endpoint: the base without trailing slashes, then the path.
pub open spec fn endpoint(base: Seq<char>, path: Seq<char>) -> Seq<char> {
    strip_end_in(base, seq!['/']) + path
}

/// Joins base and path of the endpoint: see [`endpoint`].
pub fn api_url(base: &str, path: &str) -> (out: String)
    ensures
        out@ == endpoint(base@, path@),
{
    let b = chars_of(base);
    let mut slash: Vec<char> = Vec::new();
    slash.push('/');
    assert(slash@ =~= seq!['/']);
    let end = skip_trailing_in(&b, 0, b.len(), &slash);
    assert(b@.subrange(0, b.len() as int) == b@);
    string_of_range(&b, 0, end).concat(path)
}

/// Where an API key came from.
#[derive(Debug, PartialEq, Eq)]
pub struct ApiKey {
    pub key: String,
    pub source: String,
}

/// The API key in force and its source, in this order of precedence: the
/// configured key; the variable the configuration names, and nothing else
/// once it names one; the variable `AI_API_KEY`; the variable `OPENAI_API_KEY`.
pub fn resolve_api_key(
    configured: Option<&str>,
    named_variable: Option<&str>,
    named_value: Option<&str>,
    ai_api_key: Option<&str>,
    openai_api_key: Option<&str>,
) -> (r: Option<ApiKey>)
    ensures
        configured is Some ==> r is Some && r->0.key@ == configured->0@ && r->0.source@
            == "config.api_key"@,
        configured is None && named_variable is Some ==> (r is Some) == (named_value is Some),
        configured is None && named_variable is Some && named_value is Some ==> r->0.key@
            == named_value->0@ && r->0.source@ == "env."@ + named_variable->0@,
        configured is None && named_variable is None && ai_api_key is Some ==> r is Some
            && r->0.key@ == ai_api_key->0@ && r->0.source@ == "env.AI_API_KEY"@,
        configured is None && named_variable is None && ai_api_key is None && openai_api_key
            is Some ==> r is Some && r->0.key@ == openai_api_key->0@ && r->0.source@
            == "env.OPENAI_API_KEY"@,
        configured is None && named_variable is None && ai_api_key is None && openai_api_key
            is None ==> r is None,
{
    match configured {
        Some(k) => Some(ApiKey { key: k.to_owned(), source: "config.api_key".to_owned() }),
        None => match named_variable {
            Some(name) => match named_value {
                Some(v) => Some(ApiKey { key: v.to_owned(), source: "env.".to_owned().concat(name) }),
                None => None,
            },
            None => match ai_api_key {
                Some(k) => Some(ApiKey { key: k.to_owned(), source: "env.AI_API_KEY".to_owned() }),
                None => match openai_api_key {
                    Some(k) => Some(
                        ApiKey { key: k.to_owned(), source: "env.OPENAI_API_KEY".to_owned() },
                    ),
                    None => None,
                },
            },
        },
    }
}

/// What the capability is asked.
#[derive(Debug, PartialEq, Eq)]
pub enum AiRequest {
    /// There is no prompt; answer with the usage line.
    Usage,
    /// Ask the model `prompt`; `log_to_room` asks for the request to be
    /// shown in the room as well.
    Ask { prompt: String, log_to_room: bool },
}

/// The usage line of the capability.
pub open spec fn usage_line() -> Seq<char> {
    "Usage: !ai <prompt>"@
}

/// The usage line of the capability.
pub fn usage() -> (out: &'static str)
    ensures
        out@ == usage_line(),
{
    "Usage: !ai <prompt>"
}

/// Reads the argument tail of the AI command: the log flag is taken out,
/// and what is left, trimmed, is the prompt.
pub fn read_request(args: &str) -> (r: AiRequest)
    ensures
        trimmed(args_without_flag(args@, "-log"@, "--log"@)).len() == 0
            ==> r == AiRequest::Usage,
        trimmed(args_without_flag(args@, "-log"@, "--log"@)).len() > 0
            ==> r is Ask && r->Ask_prompt@ == trimmed(
            args_without_flag(args@, "-log"@, "--log"@),
        ) && r->Ask_log_to_room == args_have_flag(args@, "-log"@, "--log"@),
{
    let (rest, log_to_room) = extract_log_flag(args);
    let prompt = trim(rest.as_str());
    if prompt.as_str().unicode_len() == 0 {
        AiRequest::Usage
    } else {
        AiRequest::Ask { prompt, log_to_room }
    }
}

/// What is shown of a model's answer: its text, trimmed, or a remark where
/// there is none.
pub open spec fn shown_content(content: Option<Seq<char>>) -> Seq<char> {
    if content is Some && trimmed(content->0).len() > 0 {
        trimmed(content->0)
    } else {
        "<no content>"@
    }
}

/// The text to show for a model's answer: see [`shown_content`].
pub fn reply_content(content: Option<&str>) -> (out: String)
    ensures
        out@ == shown_content(opt_str_view(content)),
{
    match content {
        Some(c) => {
            let t = trim(c);
            if t.as_str().unicode_len() == 0 {
                "<no content>".to_owned()
            } else {
                t
            }
        },
        None => "<no content>".to_owned(),
    }
}

/// The handle that opens the assistant's messages: `@name:`, or on a dev
/// instance with a dev id `@dev_id.name:`.
pub open spec fn assistant_prefix(name: Seq<char>, dev_active: bool, dev_id: Option<Seq<char>>)
    -> Seq<char> {
    if dev_active && dev_id is Some {
        seq!['@'] + dev_id->0 + seq!['.'] + name + seq![':']
    } else {
        seq!['@'] + name + seq![':']
    }
}

/// The message that carries the assistant's answer: the dev banner on a
/// dev instance, the assistant's handle in bold, a space, and the answer.
pub open spec fn assistant_text(
    name: Seq<char>,
    dev_active: bool,
    dev_id: Option<Seq<char>>,
    answer: Seq<char>,
) -> Seq<char> {
    decorated(
        bold(assistant_prefix(name, dev_active, dev_id)) + seq![' '] + answer,
        dev_active,
    )
}

/// Builds the message that carries the assistant's answer: see [`assistant_text`].
pub fn assistant_message(name: &str, dev_active: bool, dev_id: Option<&str>, answer: &str) -> (out:
    String)
    ensures
        out@ == assistant_text(
            name@,
            dev_active,
            opt_str_view(dev_id),
            answer@,
        ),
{
    let mut prefix: Vec<char> = Vec::new();
    prefix.push('@');
    match dev_id {
        Some(d) => {
            if dev_active {
                extend_chars(&mut prefix, &chars_of(d));
                prefix.push('.');
            }
        },
        None => {},
    }
    extend_chars(&mut prefix, &chars_of(name));
    prefix.push(':');
    assert(prefix@ =~= assistant_prefix(
        name@,
        dev_active,
        opt_str_view(dev_id),
    ));
    let bold_prefix = to_bold(string_of(&prefix).as_str());
    let mut body = bold_prefix;
    push_char(&mut body, ' ');
    let body = body.concat(answer);
    decorate_dev(body.as_str(), dev_active)
}

/// The message for an answer that is no success: the status, and the start
/// of what the service said.
pub fn error_message(status: &str, body: &str) -> (out: String)
    ensures
        out@ == "AI error: "@ + status@ + seq!['\n'] + truncated(body@, 400),
{
    let mut out = "AI error: ".to_owned().concat(status);
    push_char(&mut out, '\n');
    out.concat(truncate(body, 400).as_str())
}

/// The characters that cannot stand in a file name; each becomes `_`.
pub open spec fn reserved_in_file_names() -> Seq<char> {
    seq!['/', '\\', ':', '*', '?', '"', '<', '>', '|']
}

/// The name of the history file of a room: the room id with every reserved
/// character replaced by `_`, and `.log` after it.
pub open spec fn history_file_name(room_id: Seq<char>) -> Seq<char> {
    room_id.map_values(|c: char| file_name_char(c)) + ".log"@
}

/// `c` as it stands in a file name.
pub open spec fn file_name_char(c: char) -> char {
    if reserved_in_file_names().contains(c) {
        '_'
    } else {
        c
    }
}

/// The name of the history file of the room `room_id`: see [`history_file_name`].
pub fn history_file(room_id: &str) -> (out: String)
    ensures
        out@ == history_file_name(room_id@),
{
    let v = chars_of(room_id);
    let mut reserved: Vec<char> = Vec::new();
    reserved.push('/');
    reserved.push('\\');
    reserved.push(':');
    reserved.push('*');
    reserved.push('?');
    reserved.push('"');
    reserved.push('<');
    reserved.push('>');
    reserved.push('|');
    assert(reserved@ =~= reserved_in_file_names());
    let mut out: Vec<char> = Vec::new();
    let mut i: usize = 0;
    while i < v.len()
        invariant
            i <= v.len(),
            reserved@ == reserved_in_file_names(),
            out.len() == i,
            forall|k: int| 0 <= k < i ==> out@[k] == file_name_char(v@[k]),
        decreases v.len() - i,
    {
        let c = v[i];
        out.push(if set_has(&reserved, c) {
            '_'
        } else {
            c
        });
        i += 1;
    }
    assert(out@ =~= room_id@.map_values(|c: char| file_name_char(c)));
    string_of(&out).concat(".log")
}

/// The last `n` of `lines`, or all of them if there are fewer.
pub fn last_lines(lines: &Vec<String>, n: usize) -> (out: Vec<String>)
    ensures
        strings_view(out@) == strings_view(lines@).skip(
            if lines@.len() > n {
                lines@.len() - n
            } else {
                0
            },
        ),
{
    let start: usize = if lines.len() > n {
        lines.len() - n
    } else {
        0
    };
    let mut out: Vec<String> = Vec::new();
    let mut i: usize = start;
    while i < lines.len()
        invariant
            start <= i <= lines.len(),
            out.len() == i - start,
            forall|k: int| 0 <= k < out.len() ==> out@[k]@ == lines@[start + k]@,
        decreases lines.len() - i,
    {
        out.push(lines[i].clone());
        i += 1;
    }
    assert(strings_view(out@) =~= strings_view(lines@).skip(start as int));
    out
}

/// The instructions the model is given unless the configuration holds others.
pub open spec fn default_system_prompt() -> Seq<char> {
    "\nYou are an AI assistant embedded in a casual group chat between friends.\nYour job is to be another participant in the chat, not an outside narrator.\nIgnore any routing prefixes like !dev.command or @dev.name; they are just delivery hints.\n\nBehavior Rules\n\u{2022} Keep replies short, friendly, and clear so they fit into casual conversation.\n\u{2022} If the group asks for something creative, detailed, or story-like (e.g. a script, story, long explanation), reply with that \u{2014} but stay natural and easy to follow.\n\u{2022} Only reply when directly invoked (tagged) or when it\u{2019}s obvious someone is asking for help.\n\u{2022} Match the vibe: playful when friends are joking, straightforward when answering a question.\n\u{2022} Emojis or light humor are fine if they fit, but don\u{2019}t overdo it.\n\u{2022} Important: Always reply in the style of a group chat message \u{2014} like you\u{2019}re sending the next line, not writing an essay about the group.\n\nExample Contexts & Invocations\n\nHomework Help\nLena: ugh this history question is killing me\nMax: lol what is it\nLena: what year did WW2 end??\nSam: easy, ask @Claire\n@Claire (AI): 1945 \u{2705} Germany surrendered in May, Japan in September.\n\nWeekend Plans\nBilly: what do we wanna do Saturday?\nJamie: bowling?\nSam: eh kinda mid\nBilly: true\u{2026} @Claire any ideas?\n@Claire (AI): Late-night movie + pizza run \u{1F355}\u{1F3AC} or mini-golf if y\u{2019}all want something active.\n\nRandom Debate\nJamie: wait is cereal soup?\nBilly: nahhh it\u{2019}s not soup\nSam: bro it\u{2019}s literally stuff in liquid\nJamie: lmao ok @Claire settle this\n@Claire (AI): Cereal\u{2019}s not really soup \u{2014} soup\u{2019}s usually hot and savory. But if you wanna be chaotic you can call it \u{201C}breakfast soup\u{201D} \u{1F605}\n\nStory / Longer Response\nMaya: bruh I\u{2019}m bored tell me a scary story\nAlex: yeah @Claire give us something spooky\n@Claire (AI): Ok \u{1F47B} once, in a tiny mountain town, there was a single streetlight that never turned off\u{2026} [story continues]\n\n\u{2E3B}\n\nReal Use Case\n\nHere\u{2019}s the real convo. They tagged you. You have to reply next.\n\n(context grabbed from the chat)\n\n\u{2192} YOUR REPLY GOES HERE\n"@
}

/// The instructions the model is given unless the configuration holds others.
pub fn default_prompt() -> (out: &'static str)
    ensures
        out@ == default_system_prompt(),
{
    "\nYou are an AI assistant embedded in a casual group chat between friends.\nYour job is to be another participant in the chat, not an outside narrator.\nIgnore any routing prefixes like !dev.command or @dev.name; they are just delivery hints.\n\nBehavior Rules\n\u{2022} Keep replies short, friendly, and clear so they fit into casual conversation.\n\u{2022} If the group asks for something creative, detailed, or story-like (e.g. a script, story, long explanation), reply with that \u{2014} but stay natural and easy to follow.\n\u{2022} Only reply when directly invoked (tagged) or when it\u{2019}s obvious someone is asking for help.\n\u{2022} Match the vibe: playful when friends are joking, straightforward when answering a question.\n\u{2022} Emojis or light humor are fine if they fit, but don\u{2019}t overdo it.\n\u{2022} Important: Always reply in the style of a group chat message \u{2014} like you\u{2019}re sending the next line, not writing an essay about the group.\n\nExample Contexts & Invocations\n\nHomework Help\nLena: ugh this history question is killing me\nMax: lol what is it\nLena: what year did WW2 end??\nSam: easy, ask @Claire\n@Claire (AI): 1945 \u{2705} Germany surrendered in May, Japan in September.\n\nWeekend Plans\nBilly: what do we wanna do Saturday?\nJamie: bowling?\nSam: eh kinda mid\nBilly: true\u{2026} @Claire any ideas?\n@Claire (AI): Late-night movie + pizza run \u{1F355}\u{1F3AC} or mini-golf if y\u{2019}all want something active.\n\nRandom Debate\nJamie: wait is cereal soup?\nBilly: nahhh it\u{2019}s not soup\nSam: bro it\u{2019}s literally stuff in liquid\nJamie: lmao ok @Claire settle this\n@Claire (AI): Cereal\u{2019}s not really soup \u{2014} soup\u{2019}s usually hot and savory. But if you wanna be chaotic you can call it \u{201C}breakfast soup\u{201D} \u{1F605}\n\nStory / Longer Response\nMaya: bruh I\u{2019}m bored tell me a scary story\nAlex: yeah @Claire give us something spooky\n@Claire (AI): Ok \u{1F47B} once, in a tiny mountain town, there was a single streetlight that never turned off\u{2026} [story continues]\n\n\u{2E3B}\n\nReal Use Case\n\nHere\u{2019}s the real convo. They tagged you. You have to reply next.\n\n(context grabbed from the chat)\n\n\u{2192} YOUR REPLY GOES HERE\n"
}

/// The place in the instructions where the recent conversation goes.
pub open spec fn context_marker() -> Seq<char> {
    "(context grabbed from the chat)"@
}

/// `s` with the first occurrence of `pat` replaced by `with`. An empty
/// `pat` occurs nowhere.
pub open spec fn replaced_first(s: Seq<char>, pat: Seq<char>, with: Seq<char>) -> Seq<char>
    decreases s.len(),
{
    if pat.len() == 0 || s.len() < pat.len() {
        s
    } else if has_prefix(s, pat) {
        with + s.skip(pat.len() as int)
    } else {
        seq![s[0]] + replaced_first(s.skip(1), pat, with)
    }
}

/// Replaces the first occurrence of `pat` in `s` by `with`: see [`replaced_first`].
pub fn replace_first(s: &Vec<char>, pat: &Vec<char>, with: &Vec<char>) -> (out: Vec<char>)
    ensures
        out@ == replaced_first(s@, pat@, with@),
{
    if pat.len() == 0 {
        return s.clone();
    }
    let n = s.len();
    let mut out: Vec<char> = Vec::new();
    let mut i: usize = 0;
    assert(s@.skip(0) =~= s@);
    while i < n
        invariant
            i <= n,
            n == s.len(),
            pat.len() > 0,
            out@ + replaced_first(s@.skip(i as int), pat@, with@) == replaced_first(
                s@,
                pat@,
                with@,
            ),
        decreases n - i,
    {
        let ghost rest = s@.skip(i as int);
        assert(s@.subrange(i as int, n as int) =~= rest);
        if n - i < pat.len() {
            let ghost before = out@;
            extend_range(&mut out, s, i, n);
            return out;
        }
        if range_has_prefix(s, i, n, pat) {
            let ghost before = out@;
            extend_chars(&mut out, with);
            extend_range(&mut out, s, i + pat.len(), n);
            assert(rest.skip(pat.len() as int) =~= s@.subrange(i + pat.len(), n as int));
            assert(out@ =~= before + (with@ + rest.skip(pat.len() as int)));
            return out;
        }
        let ghost before = out@;
        out.push(s[i]);
        proof {
            assert(rest.skip(1) =~= s@.skip(i + 1));
            assert(before + (seq![rest[0]] + replaced_first(rest.skip(1), pat@, with@)) =~= (before
                + seq![rest[0]]) + replaced_first(rest.skip(1), pat@, with@));
        }
        i += 1;
    }
    assert(s@.skip(n as int) =~= Seq::<char>::empty());
    assert(out@ + Seq::<char>::empty() =~= out@);
    out
}

/// The opening of the instructions: it tells the model its name.
pub open spec fn prompt_opening(name: Seq<char>) -> Seq<char> {
    "Your name is "@ + name + ". People will tag you as @"@ + name
        + ".\nRouting prefixes like !dev.command or @dev.name are delivery hints; ignore them when referring to yourself or others.\n"@
}

/// The instructions for one request: the opening, then the base
/// instructions, with the recent conversation in the place of the first
/// context marker where there is any conversation to show.
pub open spec fn system_prompt_text(name: Seq<char>, base: Seq<char>, context: Seq<Seq<char>>)
    -> Seq<char> {
    if joined(context, seq!['\n']).len() > 0 {
        replaced_first(
            prompt_opening(name) + base,
            context_marker(),
            joined(context, seq!['\n']),
        )
    } else {
        prompt_opening(name) + base
    }
}

/// Builds the instructions for one request: see [`system_prompt_text`].
pub fn system_prompt(name: &str, base: &str, context: &Vec<String>) -> (out: String)
    ensures
        out@ == system_prompt_text(name@, base@, strings_view(context@)),
{
    let full = "Your name is ".to_owned().concat(name).concat(". People will tag you as @").concat(
        name,
    ).concat(
        ".\nRouting prefixes like !dev.command or @dev.name are delivery hints; ignore them when referring to yourself or others.\n",
    ).concat(base);
    let joined_context = join_lines(context);
    let ctx = chars_of(joined_context.as_str());
    if ctx.len() > 0 {
        string_of(
            &replace_first(&chars_of(full.as_str()), &chars_of("(context grabbed from the chat)"), &ctx),
        )
    } else {
        full
    }
}

/// Whether `pat` occurs in `s`.
pub open spec fn occurs_in(s: Seq<char>, pat: Seq<char>) -> bool {
    exists|i: int| 0 <= i && i + pat.len() <= s.len() && #[trigger] s.subrange(i, i + pat.len()) == pat
}

/// Whether `pat` occurs in `s`.
pub fn contains_text(s: &Vec<char>, pat: &Vec<char>) -> (b: bool)
    ensures
        b == occurs_in(s@, pat@),
{
    if pat.len() > s.len() {
        return false;
    }
    let last: usize = s.len() - pat.len();
    let mut i: usize = 0;
    while i < last
        invariant
            i <= last,
            last == s.len() - pat.len(),
            pat.len() <= s.len(),
            forall|k: int| 0 <= k < i ==> #[trigger] s@.subrange(k, k + pat.len()) != pat@,
        decreases last - i,
    {
        proof {
            let tail = s@.subrange(i as int, s.len() as int);
            assert(tail.take(pat.len() as int) =~= s@.subrange(i as int, i + pat.len()));
        }
        if range_has_prefix(s, i, s.len(), pat) {
            return true;
        }
        i += 1;
    }
    proof {
        let tail = s@.subrange(last as int, s.len() as int);
        assert(tail.take(pat.len() as int) =~= s@.subrange(last as int, last + pat.len()));
    }
    range_has_prefix(s, last, s.len(), pat)
}

/// The handle under which the assistant is addressed without a registered
/// mention: on a dev instance with a dev id `@dev_id.name`, on production
/// `@name`, in small letters; a dev instance without a dev id has none.
pub open spec fn spoken_handle(name: Seq<char>, dev_active: bool, dev_id: Option<Seq<char>>)
    -> Option<Seq<char>> {
    if dev_active {
        match dev_id {
            Some(d) => Some(
                seq!['@'] + lowercase(d) + seq!['.'] + lowercase(name),
            ),
            None => None,
        }
    } else {
        Some(seq!['@'] + lowercase(name))
    }
}

/// Whether a message addresses the assistant although no registered mention
/// matched: its body, in small letters, holds the environment's handle or
/// the spoken handle.
pub open spec fn addresses_assistant(
    body: Seq<char>,
    env_handle: Option<Seq<char>>,
    name: Seq<char>,
    dev_active: bool,
    dev_id: Option<Seq<char>>,
) -> bool {
    ||| env_handle is Some && occurs_in(
        lowercase(body),
        lowercase(env_handle->0),
    )
    ||| spoken_handle(name, dev_active, dev_id) is Some && occurs_in(
        lowercase(body),
        spoken_handle(name, dev_active, dev_id)->0,
    )
}

/// Decides whether a message addresses the assistant: see [`addresses_assistant`].
pub fn mentions_assistant(
    body: &str,
    env_handle: Option<&str>,
    name: &str,
    dev_active: bool,
    dev_id: Option<&str>,
) -> (b: bool)
    ensures
        b == addresses_assistant(
            body@,
            opt_str_view(env_handle),
            name@,
            dev_active,
            opt_str_view(dev_id),
        ),
{
    let body_lc = chars_of(str_to_lowercase(body).as_str());
    let by_env = match env_handle {
        Some(h) => contains_text(&body_lc, &chars_of(str_to_lowercase(h).as_str())),
        None => false,
    };
    if by_env {
        return true;
    }
    let name_lc = chars_of(str_to_lowercase(name).as_str());
    let mut handle: Vec<char> = Vec::new();
    handle.push('@');
    if dev_active {
        match dev_id {
            Some(d) => {
                extend_chars(
                    &mut handle,
                    &chars_of(str_to_lowercase(d).as_str()),
                );
                handle.push('.');
            },
            None => {
                return false;
            },
        }
    }
    extend_chars(&mut handle, &name_lc);
    assert(handle@ =~= spoken_handle(
        name@,
        dev_active,
        opt_str_view(dev_id),
    )->0);
    contains_text(&body_lc, &handle)
}

/// The date and time, in the notation of RFC 3339, of the instant `nanos`
/// nanoseconds after the start of 1970 in UTC, as the `time` crate writes
/// it; `None` where the instant is beyond what the crate can hold.
pub uninterp spec fn rfc3339_of_nanos(nanos: int) -> Option<Seq<char>>;

/// Trusted: `time::OffsetDateTime::from_unix_timestamp_nanos` and
/// `OffsetDateTime::format` with the well-known RFC 3339 description. The
/// text is named, not described.
#[verifier::external_body]
pub(crate) fn format_rfc3339(nanos: i128) -> (r: Option<String>)
    ensures
        opt_string_view(r) == rfc3339_of_nanos(nanos as int),
{
    match time::OffsetDateTime::from_unix_timestamp_nanos(nanos) {
        Ok(dt) => dt.format(&time::format_description::well_known::Rfc3339).ok(),
        Err(_) => None,
    }
}

/// Nanoseconds in a millisecond.
pub const NANOS_PER_MILLI: i128 = 1_000_000;

/// The time stamp `millis` milliseconds after the start of 1970, in the
/// notation of RFC 3339.
pub fn timestamp_to_rfc3339(millis: u64) -> (r: Option<String>)
    ensures
        opt_string_view(r) == rfc3339_of_nanos(millis * NANOS_PER_MILLI),
{
    let wide: i128 = millis as i128;
    assert(wide * NANOS_PER_MILLI <= 0xFFFF_FFFF_FFFF_FFFF * 1_000_000) by (nonlinear_arith)
        requires
            0 <= wide <= 0xFFFF_FFFF_FFFF_FFFF,
    ;
    assert(0 <= wide * NANOS_PER_MILLI) by (nonlinear_arith)
        requires
            0 <= wide,
    ;
    let nanos: i128 = wide * NANOS_PER_MILLI;
    format_rfc3339(nanos)
}

/// The time stamp written where neither the event nor the clock gives one.
pub open spec fn epoch_text() -> Seq<char> {
    "1970-01-01T00:00:00Z"@
}

/// The time stamp of a history line: the event's own where it has one that
/// can be written, else the clock's, else the epoch.
pub fn format_timestamp(millis: Option<u64>, now: Option<&str>) -> (out: String)
    ensures
        out@ == (if millis is Some && rfc3339_of_nanos(millis->0 * NANOS_PER_MILLI) is Some {
            rfc3339_of_nanos(millis->0 * NANOS_PER_MILLI)->0
        } else if now is Some {
            now->0@
        } else {
            epoch_text()
        }),
{
    let own = match millis {
        Some(ms) => timestamp_to_rfc3339(ms),
        None => None,
    };
    match own {
        Some(t) => t,
        None => match now {
            Some(n) => n.to_owned(),
            None => "1970-01-01T00:00:00Z".to_owned(),
        },
    }
}

} // verus!
