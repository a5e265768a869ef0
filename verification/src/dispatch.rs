//! The per-message dispatch evaluator.
//!
//! For one inbound message it decides which capability, if any, the command
//! path invokes, which one the mention path invokes, and which capabilities
//! observe the message passively. It decides only: running a capability is
//! the caller's business.

use crate::forward::{is_text_like, MessageKind};
use crate::plugin::{entry_dev_only, PluginEntry};
use crate::registry::PluginRegistry;
use crate::routing::{
    classify_chars, COMMAND_SIGIL, gate, MENTION_SIGIL, normalized_token, routing_of, verdict_of,
    DevRouting, GateVerdict,
};
use crate::strings::{contains_string, opt_str_view, strings_view};
use crate::text::{
    chars_of, extend_range, find_char, has_suffix, index_of_from, lemma_index_of_from, lowercase,
    range_has_suffix, set_has, skip_leading_in, skip_trailing_in, split_words, str_to_lowercase,
    string_of, string_of_range, strip_end_in, strip_start_in, trim_range, trimmed, truncate,
    truncated, views, words,
};
use vstd::prelude::*;

verus! {

/// What one dispatch path decided for a message.
#[derive(Debug, PartialEq, Eq)]
pub enum Dispatch {
    /// The path found nothing to act on.
    Nothing,
    /// A capability matched, but the gating rules keep it from running here.
    Refused { plugin_id: String, verdict: GateVerdict },
    /// The capability `plugin_id` is to be invoked with `args`; `trigger`
    /// is the normalized token that selected it.
    Invoke { plugin_id: String, args: String, trigger: String },
}

/// The mathematical content of a [`Dispatch`].
pub ghost enum DispatchView {
    Nothing,
    Refused { plugin_id: Seq<char>, verdict: GateVerdict },
    Invoke { plugin_id: Seq<char>, args: Seq<char>, trigger: Seq<char> },
}

impl View for Dispatch {
    type V = DispatchView;

    open spec fn view(&self) -> DispatchView {
        match self {
            Dispatch::Nothing => DispatchView::Nothing,
            Dispatch::Refused { plugin_id, verdict } => DispatchView::Refused {
                plugin_id: plugin_id@,
                verdict: *verdict,
            },
            Dispatch::Invoke { plugin_id, args, trigger } => DispatchView::Invoke {
                plugin_id: plugin_id@,
                args: args@,
                trigger: trigger@,
            },
        }
    }
}

/// The command token of a trimmed body: everything before its first space.
pub open spec fn command_token(body: Seq<char>) -> Seq<char> {
    body.take(index_of_from(body, ' ', 0))
}

/// The argument tail of a trimmed body: what follows its first space, trimmed.
pub open spec fn command_args(body: Seq<char>) -> Seq<char> {
    if index_of_from(body, ' ', 0) < body.len() {
        trimmed(body.skip(index_of_from(body, ' ', 0) + 1))
    } else {
        Seq::empty()
    }
}

/// The gating verdict on `entry` for a token of class `routing`.
pub open spec fn entry_verdict<P>(
    registry: PluginRegistry<P>,
    entry: PluginEntry<P>,
    routing: DevRouting,
    dev_active: bool,
) -> GateVerdict {
    verdict_of(routing, dev_active, entry_dev_only(entry), registry.enabled(entry.spec.id@))
}

/// What the command path decides for a message with body `body`.
///
/// Own messages and bodies that do not open with `!` once trimmed are left
/// alone. Otherwise the token before the first space is classified and looked
/// up in its normalized form; a match is gated and, on a pass, invoked with
/// the trimmed rest of the body.
pub open spec fn command_decision<P>(
    registry: PluginRegistry<P>,
    body: Seq<char>,
    is_self: bool,
    dev_id: Option<Seq<char>>,
    dev_active: bool,
) -> DispatchView {
    let text = trimmed(body);
    if is_self || text.len() == 0 || text[0] != COMMAND_SIGIL {
        DispatchView::Nothing
    } else {
        let token = command_token(text);
        match registry.by_command(normalized_token(token, COMMAND_SIGIL)) {
            None => DispatchView::Nothing,
            Some(entry) => {
                let verdict = entry_verdict(
                    registry,
                    entry,
                    routing_of(token, COMMAND_SIGIL, dev_id),
                    dev_active,
                );
                if verdict == GateVerdict::Execute {
                    DispatchView::Invoke {
                        plugin_id: entry.spec.id@,
                        args: command_args(text),
                        trigger: normalized_token(token, COMMAND_SIGIL),
                    }
                } else {
                    DispatchView::Refused { plugin_id: entry.spec.id@, verdict }
                }
            },
        }
    }
}

/// Punctuation that may stand in front of a mention.
pub open spec fn leading_wrap() -> Seq<char> {
    seq!['(', '[', '{', '<', '"', '\'']
}

/// Punctuation that may follow a mention.
pub open spec fn trailing_wrap() -> Seq<char> {
    seq![
        ':',
        ',',
        '.',
        ';',
        '!',
        '?',
        '\u{2026}',
        '\u{2014}',
        '\u{2013}',
        ')',
        ']',
        '}',
        '>',
        '"',
        '\'',
    ]
}

/// `t` without a possessive `'s`, written with the ASCII or the typographic apostrophe.
pub open spec fn without_possessive(t: Seq<char>) -> Seq<char> {
    if has_suffix(t, seq!['\'', 's']) || has_suffix(t, seq!['\u{2019}', 's']) {
        t.take(t.len() - 2)
    } else {
        t
    }
}

/// The mention that a whitespace-delimited token carries, if any: the token
/// must hold an `@`, and must open with `@` once the punctuation around it
/// and a possessive suffix are gone.
pub open spec fn cleaned_mention(token: Seq<char>) -> Option<Seq<char>> {
    let t = without_possessive(
        strip_end_in(strip_start_in(token, leading_wrap()), trailing_wrap()),
    );
    if token.contains(MENTION_SIGIL) && t.len() > 0 && t[0] == MENTION_SIGIL {
        Some(t)
    } else {
        None
    }
}

/// The key under which the mention `t` is looked up: tag stripped, lower-cased.
pub open spec fn mention_key(t: Seq<char>) -> Seq<char> {
    lowercase(normalized_token(t, MENTION_SIGIL))
}

/// The id of the capability that `token` invokes, with the key that
/// selected it, if `token` is an actionable mention: it matches an entry
/// and the gating rules let it run.
pub open spec fn mention_hit<P>(
    registry: PluginRegistry<P>,
    token: Seq<char>,
    dev_id: Option<Seq<char>>,
    dev_active: bool,
) -> Option<(Seq<char>, Seq<char>)> {
    match cleaned_mention(token) {
        None => None,
        Some(t) => match registry.by_mention(mention_key(t)) {
            None => None,
            Some(entry) => if entry_verdict(
                registry,
                entry,
                routing_of(t, MENTION_SIGIL, dev_id),
                dev_active,
            ) == GateVerdict::Execute {
                Some((entry.spec.id@, mention_key(t)))
            } else {
                None
            },
        },
    }
}

/// The first actionable mention among `tokens[from..]`.
pub open spec fn first_hit<P>(
    registry: PluginRegistry<P>,
    tokens: Seq<Seq<char>>,
    from: int,
    dev_id: Option<Seq<char>>,
    dev_active: bool,
) -> Option<(Seq<char>, Seq<char>)>
    decreases tokens.len() - from,
{
    if from < 0 || from >= tokens.len() {
        None
    } else {
        match mention_hit(registry, tokens[from], dev_id, dev_active) {
            Some(hit) => Some(hit),
            None => first_hit(registry, tokens, from + 1, dev_id, dev_active),
        }
    }
}

/// What the mention path decides for a message with body `body`.
///
/// Own messages are left alone. Otherwise the words of the body are scanned
/// in order, and the first actionable mention invokes its capability with
/// the whole body as argument, not just what follows the mention.
pub open spec fn mention_decision<P>(
    registry: PluginRegistry<P>,
    body: Seq<char>,
    is_self: bool,
    dev_id: Option<Seq<char>>,
    dev_active: bool,
) -> DispatchView {
    if is_self {
        DispatchView::Nothing
    } else {
        match first_hit(registry, words(body), 0, dev_id, dev_active) {
            Some(hit) => DispatchView::Invoke { plugin_id: hit.0, args: body, trigger: hit.1 },
            None => DispatchView::Nothing,
        }
    }
}

/// The characters of an optional string.
pub fn opt_chars(s: Option<&str>) -> (r: Option<Vec<char>>)
    ensures
        match r {
            Some(v) => opt_str_view(s) == Some(v@),
            None => opt_str_view(s) is None,
        },
{
    match s {
        Some(t) => Some(chars_of(t)),
        None => None,
    }
}

/// The view of an optional vector of characters.
pub open spec fn opt_chars_view(s: Option<Vec<char>>) -> Option<Seq<char>> {
    match s {
        Some(v) => Some(v@),
        None => None,
    }
}

/// Decides the command path: see [`command_decision`].
pub fn command_dispatch<P>(
    registry: &PluginRegistry<P>,
    body: &str,
    is_self: bool,
    dev_id: Option<&str>,
    dev_active: bool,
) -> (d: Dispatch)
    requires
        registry.wf(),
    ensures
        d@ == command_decision(*registry, body@, is_self, opt_str_view(dev_id), dev_active),
{
    if is_self {
        return Dispatch::Nothing;
    }
    let v = chars_of(body);
    let (a, b) = trim_range(&v, 0, v.len());
    let ghost text = trimmed(body@);
    assert(v@.subrange(0, v.len() as int) == v@);
    assert(text == v@.subrange(a as int, b as int));
    if a == b || v[a] != COMMAND_SIGIL {
        assert(text.len() > 0 ==> text[0] == v@[a as int]);
        return Dispatch::Nothing;
    }
    assert(text[0] == v@[a as int]);
    let sp = find_char(&v, a, b, ' ');
    proof {
        lemma_index_of_from(text, ' ', 0);
        assert(command_token(text) =~= v@.subrange(a as int, sp as int));
    }
    let mut token: Vec<char> = Vec::new();
    extend_range(&mut token, &v, a, sp);
    assert(token@ =~= command_token(text));
    let dv = opt_chars(dev_id);
    let (normalized, routing) = classify_chars(&token, COMMAND_SIGIL, dv.as_ref());
    let key = string_of(&normalized);
    match registry.entry_by_command(key.as_str()) {
        None => Dispatch::Nothing,
        Some(entry) => {
            let enabled = registry.is_enabled(entry.spec.id.as_str());
            let verdict = gate(routing, dev_active, entry.dev_only(), enabled);
            let plugin_id = entry.spec.id.clone();
            match verdict {
                GateVerdict::Execute => {
                    let args = if sp < b {
                        let (x, y) = trim_range(&v, sp + 1, b);
                        proof {
                            assert(text.skip(sp - a + 1) =~= v@.subrange(sp + 1, b as int));
                        }
                        string_of_range(&v, x, y)
                    } else {
                        String::new()
                    };
                    Dispatch::Invoke { plugin_id, args, trigger: key }
                },
                _ => Dispatch::Refused { plugin_id, verdict },
            }
        },
    }
}

/// The punctuation of [`leading_wrap`].
pub fn leading_wrap_chars() -> (v: Vec<char>)
    ensures
        v@ == leading_wrap(),
{
    let mut v: Vec<char> = Vec::new();
    v.push('(');
    v.push('[');
    v.push('{');
    v.push('<');
    v.push('"');
    v.push('\'');
    assert(v@ =~= leading_wrap());
    v
}

/// The punctuation of [`trailing_wrap`].
pub fn trailing_wrap_chars() -> (v: Vec<char>)
    ensures
        v@ == trailing_wrap(),
{
    let mut v: Vec<char> = Vec::new();
    v.push(':');
    v.push(',');
    v.push('.');
    v.push(';');
    v.push('!');
    v.push('?');
    v.push('\u{2026}');
    v.push('\u{2014}');
    v.push('\u{2013}');
    v.push(')');
    v.push(']');
    v.push('}');
    v.push('>');
    v.push('"');
    v.push('\'');
    assert(v@ =~= trailing_wrap());
    v
}

/// Extracts the mention that `token` carries: see [`cleaned_mention`].
pub fn clean_mention(token: &Vec<char>) -> (r: Option<Vec<char>>)
    ensures
        match r {
            Some(t) => cleaned_mention(token@) == Some(t@),
            None => cleaned_mention(token@) is None,
        },
{
    if !set_has(token, MENTION_SIGIL) {
        return None;
    }
    let lead = leading_wrap_chars();
    let trail = trailing_wrap_chars();
    let n = token.len();
    assert(token@.subrange(0, n as int) == token@);
    let lo = skip_leading_in(token, 0, n, &lead);
    let hi = skip_trailing_in(token, lo, n, &trail);
    let mut ascii: Vec<char> = Vec::new();
    ascii.push('\'');
    ascii.push('s');
    assert(ascii@ =~= seq!['\'', 's']);
    let mut typographic: Vec<char> = Vec::new();
    typographic.push('\u{2019}');
    typographic.push('s');
    assert(typographic@ =~= seq!['\u{2019}', 's']);
    let ghost core = token@.subrange(lo as int, hi as int);
    let end = if range_has_suffix(token, lo, hi, &ascii) || range_has_suffix(
        token,
        lo,
        hi,
        &typographic,
    ) {
        hi - 2
    } else {
        hi
    };
    assert(token@.subrange(lo as int, end as int) =~= without_possessive(core));
    if lo < end && token[lo] == MENTION_SIGIL {
        let mut out: Vec<char> = Vec::new();
        extend_range(&mut out, token, lo, end);
        assert(out@ =~= token@.subrange(lo as int, end as int));
        Some(out)
    } else {
        assert(lo < end ==> token@.subrange(lo as int, end as int)[0] == token@[lo as int]);
        None
    }
}

/// Decides the mention path: see [`mention_decision`].
pub fn mention_dispatch<P>(
    registry: &PluginRegistry<P>,
    body: &str,
    is_self: bool,
    dev_id: Option<&str>,
    dev_active: bool,
) -> (d: Dispatch)
    requires
        registry.wf(),
    ensures
        d@ == mention_decision(*registry, body@, is_self, opt_str_view(dev_id), dev_active),
        !(d is Refused),
{
    if is_self {
        return Dispatch::Nothing;
    }
    let text = chars_of(body);
    let tokens = split_words(&text);
    let dv = opt_chars(dev_id);
    let ghost toks = words(text@);
    let ghost did = opt_str_view(dev_id);
    let mut i: usize = 0;
    while i < tokens.len()
        invariant
            !is_self,
            registry.wf(),
            i <= tokens.len(),
            toks == views(tokens@),
            toks == words(text@),
            did == opt_str_view(dev_id),
            did == opt_chars_view(dv),
            text@ == body@,
            first_hit(*registry, toks, 0, did, dev_active) == first_hit(
                *registry,
                toks,
                i as int,
                did,
                dev_active,
            ),
        decreases tokens.len() - i,
    {
        assert(toks[i as int] == tokens@[i as int]@);
        match clean_mention(&tokens[i]) {
            None => {},
            Some(t) => {
                let (normalized, routing) = classify_chars(&t, MENTION_SIGIL, dv.as_ref());
                let base = string_of(&normalized);
                let key = str_to_lowercase(base.as_str());
                match registry.entry_by_mention(key.as_str()) {
                    None => {},
                    Some(entry) => {
                        let enabled = registry.is_enabled(entry.spec.id.as_str());
                        let verdict = gate(routing, dev_active, entry.dev_only(), enabled);
                        match verdict {
                            GateVerdict::Execute => {
                                proof {
                                    assert(cleaned_mention(toks[i as int]) == Some(t@));
                                    assert(key@ == mention_key(t@));
                                    assert(registry.by_mention(key@) == Some(*entry));
                                    assert(mention_hit(*registry, toks[i as int], did, dev_active)
                                        == Some((entry.spec.id@, key@)));
                                }
                                return Dispatch::Invoke {
                                    plugin_id: entry.spec.id.clone(),
                                    args: body.to_owned(),
                                    trigger: key,
                                };
                            },
                            _ => {},
                        }
                    },
                }
            },
        }
        i += 1;
    }
    Dispatch::Nothing
}

/// Whether the capability of `entry` observes a message passively: it must
/// ask for room messages, ask for the bot's own messages if the message is
/// one, be allowed on this instance, and be enabled.
pub open spec fn observes<P>(
    registry: PluginRegistry<P>,
    entry: PluginEntry<P>,
    id: Seq<char>,
    is_self: bool,
    dev_active: bool,
) -> bool {
    &&& entry.traits.handles_room_messages
    &&& is_self ==> entry.traits.wants_own_messages
    &&& entry_dev_only(entry) ==> dev_active
    &&& registry.enabled(id)
}

/// The ids of the first `n` entries of the registry that observe a message.
pub open spec fn observers<P>(
    registry: PluginRegistry<P>,
    is_self: bool,
    dev_active: bool,
    n: int,
) -> Seq<Seq<char>>
    decreases n,
{
    if n <= 0 || n > registry.installed().len() {
        Seq::empty()
    } else {
        let before = observers(registry, is_self, dev_active, n - 1);
        let pair = registry.installed()[n - 1];
        if observes(registry, pair.1, pair.0, is_self, dev_active) {
            before.push(pair.0)
        } else {
            before
        }
    }
}

/// The capabilities that observe a message passively, in registry order.
pub fn passive_observers<P>(registry: &PluginRegistry<P>, is_self: bool, dev_active: bool) -> (out:
    Vec<String>)
    requires
        registry.wf(),
    ensures
        strings_view(out@) == observers(
            *registry,
            is_self,
            dev_active,
            registry.installed().len() as int,
        ),
{
    let mut out: Vec<String> = Vec::new();
    let n = registry.len();
    let mut i: usize = 0;
    assert(strings_view(out@) =~= Seq::<Seq<char>>::empty());
    while i < n
        invariant
            i <= n,
            n == registry.installed().len(),
            registry.wf(),
            strings_view(out@) == observers(*registry, is_self, dev_active, i as int),
        decreases n - i,
    {
        let id = registry.id_at(i);
        let entry = registry.entry_at(i);
        let wanted = entry.traits.handles_room_messages && (!is_self
            || entry.traits.wants_own_messages) && (!entry.dev_only() || dev_active);
        if wanted && registry.is_enabled(id.as_str()) {
            let ghost before = strings_view(out@);
            out.push(id.clone());
            assert(strings_view(out@) =~= before.push(id@));
        }
        i += 1;
    }
    out
}

/// `list` with `id` at the end unless it is a member already.
pub open spec fn with_member(list: Seq<Seq<char>>, id: Seq<char>) -> Seq<Seq<char>> {
    if list.contains(id) {
        list
    } else {
        list.push(id)
    }
}

/// What happened while one message was handled: which capabilities ran to
/// completion for it. Passive observers use it to stay out of the way of a
/// capability that has answered already.
pub struct MessageRun {
    triggered: Vec<String>,
}

impl MessageRun {
    /// The ids of the capabilities that ran to completion, each once.
    pub closed spec fn triggered(&self) -> Seq<Seq<char>> {
        strings_view(self.triggered@)
    }

    /// The record of a message for which nothing ran yet.
    pub fn new() -> (r: MessageRun)
        ensures
            r.triggered() == Seq::<Seq<char>>::empty(),
    {
        let r = MessageRun { triggered: Vec::new() };
        assert(r.triggered() =~= Seq::<Seq<char>>::empty());
        r
    }

    /// Records how the invocation of `plugin_id` ended. Only a success is
    /// remembered: a capability that failed leaves the record as it was, and
    /// as the record is all this function can reach, it leaves the registry
    /// and the relay plan as they were too.
    pub fn record(&mut self, plugin_id: &str, succeeded: bool)
        ensures
            final(self).triggered() == (if succeeded {
                with_member(old(self).triggered(), plugin_id@)
            } else {
                old(self).triggered()
            }),
    {
        if succeeded && !contains_string(&self.triggered, plugin_id) {
            let ghost before = self.triggered();
            self.triggered.push(plugin_id.to_owned());
            assert(self.triggered() =~= before.push(plugin_id@));
        }
    }

    /// Whether `plugin_id` ran to completion for this message.
    pub fn has_triggered(&self, plugin_id: &str) -> (b: bool)
        ensures
            b == self.triggered().contains(plugin_id@),
    {
        contains_string(&self.triggered, plugin_id)
    }
}

/// The body that commands and mentions are looked for in: that of a text
/// or a notice. Other kinds of message are not dispatched.
pub fn dispatch_body<'a>(kind: MessageKind, body: &'a str) -> (r: Option<&'a str>)
    ensures
        r is Some == (kind == MessageKind::Text || kind
            == MessageKind::Notice),
        r is Some ==> r->0@ == body@,
{
    match kind {
        MessageKind::Text | MessageKind::Notice => Some(body),
        _ => None,
    }
}

/// The most of a body that goes into the log, in scalar values.
pub const SNIPPET_MAX: usize = 200;

/// The start of the body of a text-like message, for the log.
pub fn body_snippet(kind: MessageKind, body: &str) -> (r: Option<String>)
    ensures
        r is Some == is_text_like(kind),
        r is Some ==> r->0@ == truncated(body@, SNIPPET_MAX as int),
{
    match kind {
        MessageKind::Text
        | MessageKind::Notice
        | MessageKind::Emote => Some(truncate(body, SNIPPET_MAX)),
        _ => None,
    }
}

/// The mention path commits to the first actionable mention: where it
/// invokes a capability, some token is an actionable mention of that
/// capability and no token before it is actionable at all; where it invokes
/// none, no token is actionable.
pub proof fn lemma_first_hit<P>(
    registry: PluginRegistry<P>,
    tokens: Seq<Seq<char>>,
    from: int,
    dev_id: Option<Seq<char>>,
    dev_active: bool,
)
    requires
        0 <= from <= tokens.len(),
    ensures
        first_hit(registry, tokens, from, dev_id, dev_active) is Some ==> exists|i: int|
            from <= i < tokens.len() && #[trigger] mention_hit(
                registry,
                tokens[i],
                dev_id,
                dev_active,
            ) == first_hit(registry, tokens, from, dev_id, dev_active) && forall|j: int|
                from <= j < i ==> (#[trigger] mention_hit(
                    registry,
                    tokens[j],
                    dev_id,
                    dev_active,
                )) is None,
        first_hit(registry, tokens, from, dev_id, dev_active) is None ==> forall|j: int|
            from <= j < tokens.len() ==> (#[trigger] mention_hit(
                registry,
                tokens[j],
                dev_id,
                dev_active,
            )) is None,
    decreases tokens.len() - from,
{
    if from < tokens.len() {
        if mention_hit(registry, tokens[from], dev_id, dev_active) is None {
            lemma_first_hit(registry, tokens, from + 1, dev_id, dev_active);
            if first_hit(registry, tokens, from, dev_id, dev_active) is Some {
                let i = choose|i: int|
                    from + 1 <= i < tokens.len() && #[trigger] mention_hit(
                        registry,
                        tokens[i],
                        dev_id,
                        dev_active,
                    ) == first_hit(registry, tokens, from + 1, dev_id, dev_active) && forall|j: int|
                        from + 1 <= j < i ==> (#[trigger] mention_hit(
                            registry,
                            tokens[j],
                            dev_id,
                            dev_active,
                        )) is None;
                assert(mention_hit(registry, tokens[i], dev_id, dev_active) == first_hit(
                    registry,
                    tokens,
                    from,
                    dev_id,
                    dev_active,
                ));
            }
        } else {
            assert(mention_hit(registry, tokens[from], dev_id, dev_active) == first_hit(
                registry,
                tokens,
                from,
                dev_id,
                dev_active,
            ));
        }
    }
}

/// The bot's own messages invoke nothing, on either path.
pub proof fn lemma_own_messages_invoke_nothing<P>(
    registry: PluginRegistry<P>,
    body: Seq<char>,
    dev_id: Option<Seq<char>>,
    dev_active: bool,
)
    ensures
        command_decision(registry, body, true, dev_id, dev_active) == DispatchView::Nothing,
        mention_decision(registry, body, true, dev_id, dev_active) == DispatchView::Nothing,
{
}

} // verus!
