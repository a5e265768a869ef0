//! The capabilities that ship with the bot: what each declares about itself
//! and the text it answers with. Running them, which means talking to the
//! room, is left to the caller.

use crate::plugin::{
    default_spec, default_view, push_if_absent, specs_view, with_default, Plugin, PluginFactory,
    PluginSpec, PluginTraits, SpecView,
};
use crate::strings::{join_lines, one_string, opt_str_view, strings_view};
use crate::text::{joined, str_to_uppercase, trim, trimmed, uppercase};
use crate::value::{Doc, ScalarKind, Value};
use vstd::prelude::*;

verus! {

/// The ping responder.
#[derive(Clone, Copy, Debug, PartialEq, Eq, Structural)]
pub struct Ping;

impl Ping {
    /// What the capability answers.
    pub fn reply(&self) -> (r: String)
        ensures
            r@ == "Pong! \u{1F3D3}"@,
    {
        "Pong! \u{1F3D3}".to_owned()
    }
}

impl Plugin for Ping {
    open spec fn traits(&self) -> PluginTraits {
        PluginTraits {
            dev_only: false,
            handles_room_messages: false,
            wants_own_messages: false,
        }
    }

    open spec fn declaration(&self, config: Doc) -> SpecView {
        default_view("ping"@, seq!["!ping"@], config)
    }

    fn id(&self) -> (r: String)
        ensures
            r@ == "ping"@,
    {
        "ping".to_owned()
    }

    fn help(&self) -> (r: String)
        ensures
            r@ == "\u{1F3D3} (DEPRECATED: prefer plugin-phrases)"@,
    {
        "\u{1F3D3} (DEPRECATED: prefer plugin-phrases)".to_owned()
    }

    fn dev_only(&self) -> (b: bool) {
        false
    }

    fn handles_room_messages(&self) -> (b: bool) {
        false
    }

    fn wants_own_messages(&self) -> (b: bool) {
        false
    }

    fn spec(&self, config: Value) -> (spec: PluginSpec) {
        default_spec("ping", one_string("!ping"), config)
    }
}

/// The echo capability.
#[derive(Clone, Copy, Debug, PartialEq, Eq, Structural)]
pub struct EchoTool;

/// The factory of the echo capability.
#[derive(Clone, Copy, Debug, PartialEq, Eq, Structural)]
pub struct EchoPlugin;

/// What the echo capability answers to `args`: the trimmed text, in capitals
/// if asked for, behind the prefix if there is one; a remark if that is empty.
pub open spec fn echoed(args: Seq<char>, prefix: Option<Seq<char>>, upper: bool) -> Seq<char> {
    let body = if upper {
        uppercase(trimmed(args))
    } else {
        trimmed(args)
    };
    let out = match prefix {
        Some(p) => p + body,
        None => body,
    };
    if out.len() == 0 {
        "(nothing to echo)"@
    } else {
        out
    }
}

impl EchoTool {
    /// The answer to `args`: see [`echoed`].
    pub fn reply(&self, args: &str, prefix: Option<&str>, upper: bool) -> (out: String)
        ensures
            out@ == echoed(
                args@,
                opt_str_view(prefix),
                upper,
            ),
    {
        let t = trim(args);
        let body = if upper {
            str_to_uppercase(t.as_str())
        } else {
            t
        };
        let out = match prefix {
            Some(p) => p.to_owned().concat(body.as_str()),
            None => body,
        };
        let n = out.as_str().unicode_len();
        if n == 0 {
            "(nothing to echo)".to_owned()
        } else {
            out
        }
    }
}

impl Plugin for EchoTool {
    open spec fn traits(&self) -> PluginTraits {
        PluginTraits {
            dev_only: false,
            handles_room_messages: false,
            wants_own_messages: false,
        }
    }

    open spec fn declaration(&self, config: Doc) -> SpecView {
        default_view("echo"@, seq!["!echo"@], config)
    }

    fn id(&self) -> (r: String)
        ensures
            r@ == "echo"@,
    {
        "echo".to_owned()
    }

    fn help(&self) -> (r: String)
        ensures
            r@ == "Echo text back. Config: prefix, uppercase"@,
    {
        "Echo text back. Config: prefix, uppercase".to_owned()
    }

    fn dev_only(&self) -> (b: bool) {
        false
    }

    fn handles_room_messages(&self) -> (b: bool) {
        false
    }

    fn wants_own_messages(&self) -> (b: bool) {
        false
    }

    fn spec(&self, config: Value) -> (spec: PluginSpec) {
        default_spec("echo", one_string("!echo"), config)
    }
}

impl PluginFactory for EchoPlugin {
    fn register_defaults(&self, specs: &mut Vec<PluginSpec>)
        ensures
            specs_view(final(specs)@) == with_default(
                specs_view(old(specs)@),
                default_view("echo"@, seq!["!echo"@], Doc::Scalar(ScalarKind::Null, Seq::empty())),
            ),
    {
        push_if_absent(specs, EchoTool.spec(Value::null()));
    }
}

/// The capability that reports the instance's mode.
#[derive(Clone, Copy, Debug, PartialEq, Eq, Structural)]
pub struct ModeTool;

/// The factory of the mode capability.
#[derive(Clone, Copy, Debug, PartialEq, Eq, Structural)]
pub struct ModePlugin;

/// The lines of the mode report.
pub open spec fn mode_lines(dev_active: bool, dev_id: Option<Seq<char>>) -> Seq<Seq<char>> {
    if dev_active {
        match dev_id {
            Some(id) => seq![
                "mode: dev"@,
                "this instance handles commands tagged as !"@ + id + ".<command>"@,
                "example: !"@ + id + ".diag"@,
                "mentions must use @"@ + id + ".<name>"@,
            ],
            None => seq![
                "mode: dev"@,
                "this instance handles commands routed to dev"@,
                "example: !devid.diag"@,
            ],
        }
    } else {
        match dev_id {
            Some(id) => seq![
                "mode: prod"@,
                "commands without !"@ + id + ". prefix run here"@,
                "commands containing !"@ + id + ".<command> are ignored"@,
                "example: !diag"@,
            ],
            None => seq![
                "mode: prod"@,
                "this instance handles commands without a dev prefix"@,
                "example: !diag"@,
            ],
        }
    }
}

impl ModeTool {
    /// The mode report: the lines of [`mode_lines`], joined by line feeds.
    pub fn report(&self, dev_active: bool, dev_id: Option<&str>) -> (out: String)
        ensures
            out@ == joined(
                mode_lines(dev_active, opt_str_view(dev_id)),
                seq!['\n'],
            ),
    {
        let mut lines: Vec<String> = Vec::new();
        if dev_active {
            lines.push("mode: dev".to_owned());
            match dev_id {
                Some(id) => {
                    lines.push(
                        "this instance handles commands tagged as !".to_owned().concat(id).concat(
                            ".<command>",
                        ),
                    );
                    lines.push("example: !".to_owned().concat(id).concat(".diag"));
                    lines.push("mentions must use @".to_owned().concat(id).concat(".<name>"));
                },
                None => {
                    lines.push("this instance handles commands routed to dev".to_owned());
                    lines.push("example: !devid.diag".to_owned());
                },
            }
        } else {
            lines.push("mode: prod".to_owned());
            match dev_id {
                Some(id) => {
                    lines.push("commands without !".to_owned().concat(id).concat(". prefix run here"));
                    lines.push(
                        "commands containing !".to_owned().concat(id).concat(
                            ".<command> are ignored",
                        ),
                    );
                },
                None => {
                    lines.push("this instance handles commands without a dev prefix".to_owned());
                },
            }
            lines.push("example: !diag".to_owned());
        }
        assert(strings_view(lines@) =~= mode_lines(dev_active, opt_str_view(dev_id)));
        join_lines(&lines)
    }
}

impl Plugin for ModeTool {
    open spec fn traits(&self) -> PluginTraits {
        PluginTraits {
            dev_only: false,
            handles_room_messages: false,
            wants_own_messages: false,
        }
    }

    open spec fn declaration(&self, config: Doc) -> SpecView {
        default_view("mode"@, seq!["!mode"@], config)
    }

    fn id(&self) -> (r: String)
        ensures
            r@ == "mode"@,
    {
        "mode".to_owned()
    }

    fn help(&self) -> (r: String)
        ensures
            r@ == "Show current mode (dev/prod) and how to target it."@,
    {
        "Show current mode (dev/prod) and how to target it.".to_owned()
    }

    fn dev_only(&self) -> (b: bool) {
        false
    }

    fn handles_room_messages(&self) -> (b: bool) {
        false
    }

    fn wants_own_messages(&self) -> (b: bool) {
        false
    }

    fn spec(&self, config: Value) -> (spec: PluginSpec) {
        default_spec("mode", one_string("!mode"), config)
    }
}

impl PluginFactory for ModePlugin {
    fn register_defaults(&self, specs: &mut Vec<PluginSpec>)
        ensures
            specs_view(final(specs)@) == with_default(
                specs_view(old(specs)@),
                default_view("mode"@, seq!["!mode"@], Doc::Scalar(ScalarKind::Null, Seq::empty())),
            ),
    {
        push_if_absent(specs, ModeTool.spec(Value::null()));
    }
}

/// The capability that reports on the session and the room's encryption.
#[derive(Clone, Copy, Debug, PartialEq, Eq, Structural)]
pub struct DiagTool;

/// The factory of the diagnostics capability.
#[derive(Clone, Copy, Debug, PartialEq, Eq, Structural)]
pub struct DiagnosticsPlugin;

/// What the diagnostics capability reports on.
pub struct DiagFacts {
    pub room_id: String,
    pub user_id: Option<String>,
    pub device_id: Option<String>,
    pub room_encrypted: bool,
    pub backup_state: String,
    pub bot_verified: Option<bool>,
}

/// `true` or `false`, as text.
pub open spec fn bool_text(b: bool) -> Seq<char> {
    if b {
        "true"@
    } else {
        "false"@
    }
}

/// The text of an optional id; an id that is not known shows as `<unknown>`.
pub open spec fn id_text(id: Option<String>) -> Seq<char> {
    match id {
        Some(s) => s@,
        None => "<unknown>"@,
    }
}

/// The closing hint of the diagnostics report.
pub open spec fn diag_hint(room_encrypted: bool) -> Seq<char> {
    if room_encrypted {
        "hint: if messages don\u{2019}t decrypt, verify the bridge/device and send a new message."@
    } else {
        "hint: room not encrypted; encryption diagnostics not applicable."@
    }
}

/// The lines of the diagnostics report.
pub open spec fn diag_lines(facts: DiagFacts) -> Seq<Seq<char>> {
    let head = seq![
        "diag for "@ + facts.room_id@,
        "user: "@ + id_text(facts.user_id),
        "device: "@ + id_text(facts.device_id),
        "room_encrypted: "@ + bool_text(facts.room_encrypted),
        "backup_state: "@ + facts.backup_state@,
    ];
    let verified = match facts.bot_verified {
        Some(v) => seq!["bot_verified: "@ + bool_text(v)],
        None => Seq::empty(),
    };
    head + verified + seq![diag_hint(facts.room_encrypted)]
}

/// `true` or `false`, as text.
pub fn bool_str(b: bool) -> (s: &'static str)
    ensures
        s@ == bool_text(b),
{
    if b {
        "true"
    } else {
        "false"
    }
}

impl DiagTool {
    /// The diagnostics report: the lines of [`diag_lines`], joined by line feeds.
    pub fn report(&self, facts: &DiagFacts) -> (out: String)
        ensures
            out@ == joined(diag_lines(*facts), seq!['\n']),
    {
        let mut lines: Vec<String> = Vec::new();
        lines.push("diag for ".to_owned().concat(facts.room_id.as_str()));
        lines.push(
            "user: ".to_owned().concat(
                match &facts.user_id {
                    Some(s) => s.as_str(),
                    None => "<unknown>",
                },
            ),
        );
        lines.push(
            "device: ".to_owned().concat(
                match &facts.device_id {
                    Some(s) => s.as_str(),
                    None => "<unknown>",
                },
            ),
        );
        lines.push("room_encrypted: ".to_owned().concat(bool_str(facts.room_encrypted)));
        lines.push("backup_state: ".to_owned().concat(facts.backup_state.as_str()));
        match facts.bot_verified {
            Some(v) => {
                lines.push("bot_verified: ".to_owned().concat(bool_str(v)));
            },
            None => {},
        }
        if facts.room_encrypted {
            lines.push(
                "hint: if messages don\u{2019}t decrypt, verify the bridge/device and send a new message.".to_owned(),
            );
        } else {
            lines.push("hint: room not encrypted; encryption diagnostics not applicable.".to_owned());
        }
        assert(strings_view(lines@) =~= diag_lines(*facts));
        join_lines(&lines)
    }
}

impl Plugin for DiagTool {
    open spec fn traits(&self) -> PluginTraits {
        PluginTraits {
            dev_only: false,
            handles_room_messages: false,
            wants_own_messages: false,
        }
    }

    open spec fn declaration(&self, config: Doc) -> SpecView {
        default_view("diag"@, seq!["!diag"@], config)
    }

    fn id(&self) -> (r: String)
        ensures
            r@ == "diag"@,
    {
        "diag".to_owned()
    }

    fn help(&self) -> (r: String)
        ensures
            r@ == "Show encryption/session diagnostics."@,
    {
        "Show encryption/session diagnostics.".to_owned()
    }

    fn dev_only(&self) -> (b: bool) {
        false
    }

    fn handles_room_messages(&self) -> (b: bool) {
        false
    }

    fn wants_own_messages(&self) -> (b: bool) {
        false
    }

    fn spec(&self, config: Value) -> (spec: PluginSpec) {
        default_spec("diag", one_string("!diag"), config)
    }
}

impl PluginFactory for DiagnosticsPlugin {
    fn register_defaults(&self, specs: &mut Vec<PluginSpec>)
        ensures
            specs_view(final(specs)@) == with_default(
                specs_view(old(specs)@),
                default_view("diag"@, seq!["!diag"@], Doc::Scalar(ScalarKind::Null, Seq::empty())),
            ),
    {
        push_if_absent(specs, DiagTool.spec(Value::null()));
    }
}

/// The factory of the relay capability.
#[derive(Clone, Copy, Debug, PartialEq, Eq, Structural)]
pub struct RelayPlugin;

/// The relay as a capability: it has no trigger and observes every message.
#[derive(Clone, Copy, Debug, PartialEq, Eq, Structural)]
pub struct RelayTool;

impl Plugin for RelayTool {
    open spec fn traits(&self) -> PluginTraits {
        PluginTraits {
            dev_only: false,
            handles_room_messages: true,
            wants_own_messages: false,
        }
    }

    open spec fn declaration(&self, config: Doc) -> SpecView {
        default_view("relay"@, Seq::empty(), config)
    }

    fn id(&self) -> (r: String)
        ensures
            r@ == "relay"@,
    {
        "relay".to_owned()
    }

    fn help(&self) -> (r: String)
        ensures
            r@ == "Relay messages between configured room clusters"@,
    {
        "Relay messages between configured room clusters".to_owned()
    }

    fn dev_only(&self) -> (b: bool) {
        false
    }

    fn handles_room_messages(&self) -> (b: bool) {
        true
    }

    fn wants_own_messages(&self) -> (b: bool) {
        false
    }

    fn spec(&self, config: Value) -> (spec: PluginSpec) {
        let none: Vec<String> = Vec::new();
        assert(strings_view(none@) =~= Seq::<Seq<char>>::empty());
        default_spec("relay", none, config)
    }
}

impl PluginFactory for RelayPlugin {
    fn register_defaults(&self, specs: &mut Vec<PluginSpec>)
        ensures
            specs_view(final(specs)@) == with_default(
                specs_view(old(specs)@),
                default_view("relay"@, Seq::empty(), Doc::Scalar(ScalarKind::Null, Seq::empty())),
            ),
    {
        push_if_absent(specs, RelayTool.spec(Value::null()));
    }
}

} // verus!
