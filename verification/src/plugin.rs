//! What a capability declares about itself: its id, its triggers, its
//! static switches and its configuration document.

use crate::routing::{COMMAND_SIGIL, MENTION_SIGIL};
use crate::strings::{clone_strings, strings_view};
use crate::text::{
    chars_of, eq_ignore_ascii_case, eq_ignoring_ascii_case, extend_chars, lowercase, str_eq,
    str_to_lowercase, string_of,
};
use crate::value::{doc_str_at, Doc, Value};
use vstd::prelude::*;

verus! {

/// The command and mention tokens that select a capability.
#[derive(Debug, PartialEq, Eq)]
pub struct PluginTriggers {
    pub commands: Vec<String>,
    pub mentions: Vec<String>,
}

/// The declaration of one installable capability.
#[derive(Debug, PartialEq, Eq)]
pub struct PluginSpec {
    /// Unique identifier, stable across restarts.
    pub id: String,
    /// Static default of the enable switch.
    pub enabled: bool,
    /// Whether the capability is dev-only; `None` defers to the capability.
    pub dev_only: Option<bool>,
    /// Triggers as configured; they are normalized on registration.
    pub triggers: PluginTriggers,
    /// Capability-specific configuration.
    pub config: Value,
}

/// An alias of [`PluginTriggers`].
pub type ToolTriggers = PluginTriggers;

/// An alias of [`PluginSpec`].
pub type ToolSpec = PluginSpec;

/// The mathematical content of a [`PluginSpec`].
pub ghost struct SpecView {
    pub id: Seq<char>,
    pub enabled: bool,
    pub dev_only: Option<bool>,
    pub commands: Seq<Seq<char>>,
    pub mentions: Seq<Seq<char>>,
    pub config: Doc,
}

impl View for PluginTriggers {
    type V = (Seq<Seq<char>>, Seq<Seq<char>>);

    open spec fn view(&self) -> (Seq<Seq<char>>, Seq<Seq<char>>) {
        (strings_view(self.commands@), strings_view(self.mentions@))
    }
}

impl View for PluginSpec {
    type V = SpecView;

    open spec fn view(&self) -> SpecView {
        SpecView {
            id: self.id@,
            enabled: self.enabled,
            dev_only: self.dev_only,
            commands: strings_view(self.triggers.commands@),
            mentions: strings_view(self.triggers.mentions@),
            config: self.config@,
        }
    }
}

impl PluginTriggers {
    /// No triggers at all.
    pub fn empty() -> (t: PluginTriggers)
        ensures
            t@ == (Seq::<Seq<char>>::empty(), Seq::<Seq<char>>::empty()),
    {
        let t = PluginTriggers { commands: Vec::new(), mentions: Vec::new() };
        assert(strings_view(t.commands@) =~= Seq::<Seq<char>>::empty());
        assert(strings_view(t.mentions@) =~= Seq::<Seq<char>>::empty());
        t
    }

    /// A copy with the same tokens.
    pub fn duplicate(&self) -> (t: PluginTriggers)
        ensures
            t@ == self@,
    {
        PluginTriggers {
            commands: clone_strings(&self.commands),
            mentions: clone_strings(&self.mentions),
        }
    }

    /// Whether there is neither a command nor a mention.
    pub fn is_empty(&self) -> (b: bool)
        ensures
            b == (self@.0.len() == 0 && self@.1.len() == 0),
    {
        self.commands.len() == 0 && self.mentions.len() == 0
    }
}

impl PluginSpec {
    /// A copy with the same content.
    pub fn duplicate(&self) -> (s: PluginSpec)
        ensures
            s@ == self@,
    {
        PluginSpec {
            id: self.id.clone(),
            enabled: self.enabled,
            dev_only: self.dev_only,
            triggers: self.triggers.duplicate(),
            config: self.config.deep_clone(),
        }
    }
}

/// The static default of the enable switch of a declaration that omits it.
pub fn enabled_true() -> (b: bool)
    ensures
        b,
{
    true
}

/// `s` with `sigil` in front unless it is there already.
pub open spec fn with_sigil(s: Seq<char>, sigil: char) -> Seq<char> {
    if s.len() > 0 && s[0] == sigil {
        s
    } else {
        seq![sigil] + s
    }
}

/// The index key of a configured command: it opens with `!`, case is kept.
pub open spec fn normalized_cmd(s: Seq<char>) -> Seq<char> {
    with_sigil(s, COMMAND_SIGIL)
}

/// The index key of a configured mention: it opens with `@` and is lower-cased.
pub open spec fn normalized_mention(s: Seq<char>) -> Seq<char> {
    lowercase(with_sigil(s, MENTION_SIGIL))
}

/// Puts `sigil` in front of `s` unless `s` opens with it.
pub fn ensure_sigil(s: &str, sigil: char) -> (out: String)
    ensures
        out@ == with_sigil(s@, sigil),
{
    let v = chars_of(s);
    if v.len() > 0 && v[0] == sigil {
        s.to_owned()
    } else {
        let mut out: Vec<char> = Vec::new();
        out.push(sigil);
        extend_chars(&mut out, &v);
        assert(out@ =~= seq![sigil] + s@);
        string_of(&out)
    }
}

/// Normalizes a configured command trigger.
pub fn normalize_cmd(s: &str) -> (out: String)
    ensures
        out@ == normalized_cmd(s@),
{
    ensure_sigil(s, COMMAND_SIGIL)
}

/// Normalizes a configured mention trigger.
pub fn normalize_mention(s: &str) -> (out: String)
    ensures
        out@ == normalized_mention(s@),
{
    let raw = ensure_sigil(s, MENTION_SIGIL);
    str_to_lowercase(raw.as_str())
}

/// The normalized commands of a trigger list, in order.
pub open spec fn normalized_cmds(list: Seq<Seq<char>>) -> Seq<Seq<char>> {
    Seq::new(list.len(), |i: int| normalized_cmd(list[i]))
}

/// The normalized mentions of a trigger list, in order.
pub open spec fn normalized_mentions(list: Seq<Seq<char>>) -> Seq<Seq<char>> {
    Seq::new(list.len(), |i: int| normalized_mention(list[i]))
}

/// The string that a capability's configuration holds under `key`.
pub fn str_config(spec: &PluginSpec, key: &str) -> (r: Option<String>)
    ensures
        match r {
            Some(s) => doc_str_at(spec.config@, key@) == Some(s@),
            None => doc_str_at(spec.config@, key@) is None,
        },
{
    match spec.config.get(key) {
        Some(v) => match v.as_str() {
            Some(s) => Some(s.to_owned()),
            None => None,
        },
        None => None,
    }
}

/// An alias of [`str_config`].
pub fn str_conf(spec: &PluginSpec, key: &str) -> (r: Option<String>)
    ensures
        match r {
            Some(s) => doc_str_at(spec.config@, key@) == Some(s@),
            None => doc_str_at(spec.config@, key@) is None,
        },
{
    str_config(spec, key)
}

/// The synchronous face of a capability: what it says of itself without
/// being run. The registry asks once, when the capability is registered, and
/// keeps the answers beside the declaration.
///
/// The two specification functions say what the methods answer. A
/// capability that defines them is held to them by the verifier. One that
/// leaves them undefined promises only that it answers the same way every
/// time it is asked.
pub trait Plugin {
    /// What the capability answers about itself.
    closed spec fn traits(&self) -> PluginTraits {
        arbitrary()
    }

    /// The declaration that the capability computes for the configuration
    /// `config`.
    closed spec fn declaration(&self, config: Doc) -> SpecView {
        arbitrary()
    }

    /// The capability's identifier.
    fn id(&self) -> String;

    /// A one-line description for help listings.
    fn help(&self) -> String;

    /// Whether the capability runs on dev instances only, where its
    /// declaration leaves the question open.
    fn dev_only(&self) -> (b: bool)
        ensures
            b == self.traits().dev_only,
    ;

    /// Whether the capability observes every room message.
    fn handles_room_messages(&self) -> (b: bool)
        ensures
            b == self.traits().handles_room_messages,
    ;

    /// Whether the capability also observes the bot's own messages.
    fn wants_own_messages(&self) -> (b: bool)
        ensures
            b == self.traits().wants_own_messages,
    ;

    /// The capability's declaration for the configuration `config`: its id,
    /// its default switches and the triggers it derives from `config`.
    fn spec(&self, config: Value) -> (spec: PluginSpec)
        ensures
            spec@ == self.declaration(config@),
    ;
}

/// What a capability said of itself when it was registered.
#[derive(Clone, Copy, Debug, PartialEq, Eq, Structural)]
pub struct PluginTraits {
    /// Its answer to "dev-only?".
    pub dev_only: bool,
    /// Whether it observes every room message.
    pub handles_room_messages: bool,
    /// Whether it also observes the bot's own messages.
    pub wants_own_messages: bool,
}

/// Adds a capability's default declaration to a list of declarations.
pub trait PluginFactory {
    /// Adds the capability's default declaration to `specs`, or completes
    /// the declaration that `specs` holds for it.
    fn register_defaults(&self, specs: &mut Vec<PluginSpec>);
}

/// The views of a list of declarations.
pub open spec fn specs_view(specs: Seq<PluginSpec>) -> Seq<SpecView> {
    Seq::new(specs.len(), |i: int| specs[i]@)
}

/// A declaration paired with the handle that runs the capability and with
/// what the capability said of itself.
pub struct PluginEntry<P> {
    pub spec: PluginSpec,
    pub plugin: P,
    pub traits: PluginTraits,
}

/// An alias of [`PluginEntry`].
pub type ToolEntry<P> = PluginEntry<P>;

/// Whether the capability of `entry` is dev-only: its declaration decides,
/// and the capability itself where the declaration is silent.
pub open spec fn entry_dev_only<P>(entry: PluginEntry<P>) -> bool {
    match entry.spec.dev_only {
        Some(b) => b,
        None => entry.traits.dev_only,
    }
}

impl<P> PluginEntry<P> {
    /// Whether the capability is dev-only.
    pub fn dev_only(&self) -> (b: bool)
        ensures
            b == entry_dev_only(*self),
    {
        match self.spec.dev_only {
            Some(b) => b,
            None => self.traits.dev_only,
        }
    }
}

impl PluginTraits {
    /// Asks `plugin` about itself.
    pub fn of<P: Plugin>(plugin: &P) -> (t: PluginTraits)
        ensures
            t == plugin.traits(),
    {
        PluginTraits {
            dev_only: plugin.dev_only(),
            handles_room_messages: plugin.handles_room_messages(),
            wants_own_messages: plugin.wants_own_messages(),
        }
    }
}

impl<P: Plugin> PluginEntry<P> {
    /// Pairs a declaration with its capability and with the capability's
    /// answers about itself.
    pub fn new(spec: PluginSpec, plugin: P) -> (e: Self)
        ensures
            e == (PluginEntry { spec, plugin, traits: plugin.traits() }),
    {
        let traits = PluginTraits::of(&plugin);
        PluginEntry { spec, plugin, traits }
    }
}

/// Whether one of `list` equals `s`, ASCII case aside.
pub open spec fn lists_ignoring_case(list: Seq<Seq<char>>, s: Seq<char>) -> bool {
    exists|i: int| 0 <= i < list.len() && eq_ignoring_ascii_case(#[trigger] list[i], s)
}

/// Whether one of `list` equals `s`, ASCII case aside.
pub fn contains_ignoring_case(list: &Vec<String>, s: &str) -> (b: bool)
    ensures
        b == lists_ignoring_case(strings_view(list@), s@),
{
    let sv = chars_of(s);
    let ghost lv = strings_view(list@);
    let mut i: usize = 0;
    while i < list.len()
        invariant
            i <= list.len(),
            sv@ == s@,
            lv == strings_view(list@),
            forall|k: int| 0 <= k < i ==> !eq_ignoring_ascii_case(#[trigger] lv[k], s@),
        decreases list.len() - i,
    {
        let item = chars_of(list[i].as_str());
        assert(lv[i as int] == list@[i as int]@);
        if eq_ignore_ascii_case(&item, &sv) {
            return true;
        }
        i += 1;
    }
    false
}

/// `list` with `s` at the end unless it lists `s` already, ASCII case aside.
pub open spec fn with_trigger(list: Seq<Seq<char>>, s: Seq<char>) -> Seq<Seq<char>> {
    if lists_ignoring_case(list, s) {
        list
    } else {
        list.push(s)
    }
}

/// Adds `s` to `list` unless it is listed already, ASCII case aside.
pub fn add_trigger(list: &mut Vec<String>, s: &str)
    ensures
        strings_view(final(list)@) == with_trigger(strings_view(old(list)@), s@),
{
    if !contains_ignoring_case(list, s) {
        let ghost before = strings_view(list@);
        list.push(s.to_owned());
        assert(strings_view(list@) =~= before.push(s@));
    }
}

/// The index of the first of `specs` with the id `id`, or `specs.len()`.
pub open spec fn index_of_id(specs: Seq<SpecView>, id: Seq<char>, from: int) -> int
    decreases specs.len() - from,
{
    if from < 0 || from >= specs.len() {
        specs.len() as int
    } else if specs[from].id == id {
        from
    } else {
        index_of_id(specs, id, from + 1)
    }
}

/// Where `index_of_id` points.
pub proof fn lemma_index_of_id(specs: Seq<SpecView>, id: Seq<char>, from: int)
    requires
        0 <= from <= specs.len(),
    ensures
        from <= index_of_id(specs, id, from) <= specs.len(),
        index_of_id(specs, id, from) < specs.len() ==> specs[index_of_id(specs, id, from)].id
            == id,
        forall|k: int| from <= k < index_of_id(specs, id, from) ==> specs[k].id != id,
    decreases specs.len() - from,
{
    if from < specs.len() && specs[from].id != id {
        lemma_index_of_id(specs, id, from + 1);
    }
}

/// `list` followed by those of the first `n` of `extra` that it does not
/// list yet, ASCII case aside.
pub open spec fn with_triggers(list: Seq<Seq<char>>, extra: Seq<Seq<char>>, n: int) -> Seq<
    Seq<char>,
>
    decreases n,
{
    if n <= 0 || n > extra.len() {
        list
    } else {
        with_trigger(with_triggers(list, extra, n - 1), extra[n - 1])
    }
}

/// Adds the triggers of `extra` to `list`: see [`with_triggers`].
pub fn add_triggers(list: &mut Vec<String>, extra: &Vec<String>)
    ensures
        strings_view(final(list)@) == with_triggers(
            strings_view(old(list)@),
            strings_view(extra@),
            extra@.len() as int,
        ),
{
    let ghost ev = strings_view(extra@);
    let ghost start = strings_view(list@);
    let mut i: usize = 0;
    while i < extra.len()
        invariant
            i <= extra.len(),
            ev == strings_view(extra@),
            strings_view(list@) == with_triggers(start, ev, i as int),
        decreases extra.len() - i,
    {
        assert(ev[i as int] == extra@[i as int]@);
        add_trigger(list, extra[i].as_str());
        i += 1;
    }
}

/// The declaration of a capability that is on by default, answers to
/// `commands`, has no mention and leaves "dev-only?" to the capability.
pub open spec fn default_view(id: Seq<char>, commands: Seq<Seq<char>>, config: Doc) -> SpecView {
    SpecView {
        id,
        enabled: true,
        dev_only: None,
        commands,
        mentions: Seq::empty(),
        config,
    }
}

/// Builds a default declaration: see [`default_view`].
pub fn default_spec(id: &str, commands: Vec<String>, config: Value) -> (spec: PluginSpec)
    ensures
        spec@ == default_view(id@, strings_view(commands@), config@),
{
    let spec = PluginSpec {
        id: id.to_owned(),
        enabled: true,
        dev_only: None,
        triggers: PluginTriggers { commands, mentions: Vec::new() },
        config,
    };
    assert(strings_view(spec.triggers.mentions@) =~= Seq::<Seq<char>>::empty());
    spec
}

/// Whether one of `specs` has the id `id`.
pub open spec fn has_id(specs: Seq<SpecView>, id: Seq<char>) -> bool {
    exists|i: int| 0 <= i < specs.len() && (#[trigger] specs[i]).id == id
}

/// The position of the first declaration with the id `id`, or `specs.len()`.
pub fn find_spec(specs: &Vec<PluginSpec>, id: &str) -> (r: usize)
    ensures
        r <= specs.len(),
        r < specs.len() ==> specs@[r as int]@.id == id@,
        forall|k: int| 0 <= k < r ==> specs@[k]@.id != id@,
        (r < specs.len()) == has_id(specs_view(specs@), id@),
{
    let mut i: usize = 0;
    while i < specs.len() && !str_eq(specs[i].id.as_str(), id)
        invariant
            i <= specs.len(),
            forall|k: int| 0 <= k < i ==> specs@[k]@.id != id@,
        decreases specs.len() - i,
    {
        i += 1;
    }
    proof {
        let sv = specs_view(specs@);
        if i < specs.len() {
            assert(sv[i as int].id == id@);
        } else {
            assert forall|k: int| 0 <= k < sv.len() implies (#[trigger] sv[k]).id != id@ by {
                assert(sv[k] == specs@[k]@);
            }
        }
    }
    i
}

/// `specs`, with `default` at the end unless its id is declared already.
pub open spec fn with_default(specs: Seq<SpecView>, default: SpecView) -> Seq<SpecView> {
    if has_id(specs, default.id) {
        specs
    } else {
        specs.push(default)
    }
}

/// Adds `default` to `specs` unless its id is declared already.
pub fn push_if_absent(specs: &mut Vec<PluginSpec>, default: PluginSpec)
    ensures
        specs_view(final(specs)@) == with_default(specs_view(old(specs)@), default@),
{
    let at = find_spec(specs, default.id.as_str());
    if at >= specs.len() {
        let ghost before = specs_view(specs@);
        specs.push(default);
        assert(specs_view(specs@) =~= before.push(default@));
    }
}

} // verus!
