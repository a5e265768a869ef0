//! The trigger registry: installed capabilities by id, with an index from
//! normalized command and mention tokens to ids and a table of runtime
//! enable overrides.
//!
//! The registry is a plain value. A process shares it behind a reader-writer
//! lock: every read below takes `&self`, every write `&mut self`, so a write
//! is atomic for every reader.

use crate::assoc::{
    bind_all, distinct, lemma_bind_all, lemma_index_of_key, lemma_index_of_own_key,
    lemma_rows_without, lemma_upsert, lemma_without, lookup, rows_without, upsert, without, Pairs,
    Rows, TextMap,
};
use crate::plugin::{
    normalize_cmd, normalize_mention, normalized_cmds, normalized_mentions, Plugin, PluginEntry,
    PluginSpec, PluginTraits, SpecView,
};
use vstd::prelude::*;

verus! {

/// The store of installed capabilities.
pub struct PluginRegistry<P> {
    by_id: TextMap<PluginEntry<P>>,
    by_command: TextMap<String>,
    by_mention: TextMap<String>,
    overrides: TextMap<bool>,
}

/// An alias of [`PluginRegistry`].
pub type ToolsRegistry<P> = PluginRegistry<P>;

/// The rows an index holds once `id` is registered with `tokens`: the old
/// rows of `id` are gone, and each token leads to `id`.
pub open spec fn reindexed(rows: Rows, id: Seq<char>, tokens: Seq<Seq<char>>) -> Rows {
    bind_all(rows_without(rows, id, rows.len() as int), tokens, id, tokens.len() as int)
}

/// The id that `token` leads to in `rows`, and through it the entry.
pub open spec fn routed<P>(rows: Rows, entries: Pairs<PluginEntry<P>>, token: Seq<char>) -> Option<
    PluginEntry<P>,
> {
    match lookup(rows, token) {
        Some(id) => lookup(entries, id),
        None => None,
    }
}

/// Whether `id` is enabled: its override if there is one, else the static
/// switch of its declaration, else no.
pub open spec fn enabled_in<P>(
    entries: Pairs<PluginEntry<P>>,
    overrides: Pairs<bool>,
    id: Seq<char>,
) -> bool {
    match lookup(overrides, id) {
        Some(b) => b,
        None => match lookup(entries, id) {
            Some(e) => e.spec.enabled,
            None => false,
        },
    }
}

/// The index keys of a declaration: its normalized commands where
/// `commands` holds, its normalized mentions otherwise.
pub open spec fn trigger_keys(spec: SpecView, commands: bool) -> Seq<Seq<char>> {
    if commands {
        normalized_cmds(spec.commands)
    } else {
        normalized_mentions(spec.mentions)
    }
}

/// The index keys of an entry: those of its declaration.
pub open spec fn index_keys<P>(entry: PluginEntry<P>, commands: bool) -> Seq<Seq<char>> {
    trigger_keys(entry.spec@, commands)
}

/// Every entry is installed under the id of its own declaration.
pub open spec fn keyed_by_id<P>(entries: Pairs<PluginEntry<P>>) -> bool {
    forall|i: int| 0 <= i < entries.len() ==> (#[trigger] entries[i]).0 == entries[i].1.spec.id@
}

/// Every row of an index leads to an installed id, and the declaration
/// installed under that id lists the row's token among its normalized triggers.
pub open spec fn grounded<P>(rows: Rows, entries: Pairs<PluginEntry<P>>, commands: bool) -> bool {
    forall|t: Seq<char>|
        (#[trigger] lookup(rows, t)) is Some ==> lookup(entries, lookup(rows, t)->0) is Some
            && index_keys(lookup(entries, lookup(rows, t)->0)->0, commands).contains(t)
}

/// An index stays grounded when an entry is installed and the index is
/// rebuilt for its id.
pub proof fn lemma_grounded_after_register<P>(
    rows: Rows,
    entries: Pairs<PluginEntry<P>>,
    entry: PluginEntry<P>,
    commands: bool,
)
    requires
        distinct(rows),
        distinct(entries),
        grounded(rows, entries, commands),
    ensures
        grounded(
            reindexed(rows, entry.spec.id@, index_keys(entry, commands)),
            upsert(entries, entry.spec.id@, entry),
            commands,
        ),
{
    let id = entry.spec.id@;
    let after = reindexed(rows, id, index_keys(entry, commands));
    let installed = upsert(entries, id, entry);
    lemma_reindexed(rows, id, index_keys(entry, commands));
    lemma_upsert(entries, id, entry);
    assert forall|t: Seq<char>| (#[trigger] lookup(after, t)) is Some implies lookup(
        installed,
        lookup(after, t)->0,
    ) is Some && index_keys(lookup(installed, lookup(after, t)->0)->0, commands).contains(t) by {
        if !index_keys(entry, commands).contains(t) {
            assert(lookup(rows, t) is Some);
            assert(lookup(after, t) == lookup(rows, t));
        }
    }
}

/// An index stays grounded when an id is removed with its rows.
pub proof fn lemma_grounded_after_unregister<P>(
    rows: Rows,
    entries: Pairs<PluginEntry<P>>,
    id: Seq<char>,
    commands: bool,
)
    requires
        distinct(rows),
        distinct(entries),
        grounded(rows, entries, commands),
    ensures
        grounded(rows_without(rows, id, rows.len() as int), without(entries, id), commands),
{
    let after = rows_without(rows, id, rows.len() as int);
    lemma_rows_without(rows, id, rows.len() as int);
    lemma_without(entries, id);
    assert(rows.take(rows.len() as int) =~= rows);
    assert forall|t: Seq<char>| (#[trigger] lookup(after, t)) is Some implies lookup(
        without(entries, id),
        lookup(after, t)->0,
    ) is Some && index_keys(lookup(without(entries, id), lookup(after, t)->0)->0, commands).contains(
        t,
    ) by {
        assert(lookup(after, t) == (match lookup(rows.take(rows.len() as int), t) {
            Some(v) => if v == id {
                None
            } else {
                Some(v)
            },
            None => None,
        }));
        assert(lookup(rows, t) is Some);
    }
}

impl<P> PluginRegistry<P> {
    /// The installed entries by id, in order of first registration.
    pub closed spec fn installed(&self) -> Pairs<PluginEntry<P>> {
        self.by_id.pairs()
    }

    /// The command index: normalized command token, then id.
    pub closed spec fn commands(&self) -> Rows {
        self.by_command.rows()
    }

    /// The mention index: normalized mention token, then id.
    pub closed spec fn mentions(&self) -> Rows {
        self.by_mention.rows()
    }

    /// The runtime overrides of the enable switch, by id.
    pub closed spec fn overrides(&self) -> Pairs<bool> {
        self.overrides.pairs()
    }

    /// The invariant of the registry: no id, token or override key occurs
    /// twice; every entry is installed under the id of its declaration; and
    /// every index row leads to an installed id that lists the row's token.
    pub closed spec fn wf(&self) -> bool {
        &&& self.by_id.wf()
        &&& self.by_command.wf()
        &&& self.by_mention.wf()
        &&& self.overrides.wf()
        &&& keyed_by_id(self.by_id.pairs())
        &&& grounded(self.by_command.rows(), self.by_id.pairs(), true)
        &&& grounded(self.by_mention.rows(), self.by_id.pairs(), false)
    }

    /// What the invariant says of the four tables.
    pub proof fn lemma_wf(&self)
        requires
            self.wf(),
        ensures
            distinct(self.installed()),
            distinct(self.commands()),
            distinct(self.mentions()),
            distinct(self.overrides()),
            keyed_by_id(self.installed()),
            grounded(self.commands(), self.installed(), true),
            grounded(self.mentions(), self.installed(), false),
    {
        self.by_command.lemma_rows_keys();
        self.by_mention.lemma_rows_keys();
    }

    /// Whether `id` is enabled.
    pub open spec fn enabled(&self, id: Seq<char>) -> bool {
        enabled_in(self.installed(), self.overrides(), id)
    }

    /// The entry that a normalized command token selects.
    pub open spec fn by_command(&self, token: Seq<char>) -> Option<PluginEntry<P>> {
        routed(self.commands(), self.installed(), token)
    }

    /// The entry that a normalized mention token selects.
    pub open spec fn by_mention(&self, token: Seq<char>) -> Option<PluginEntry<P>> {
        routed(self.mentions(), self.installed(), token)
    }

    /// An empty registry.
    pub fn new() -> (r: Self)
        ensures
            r.wf(),
            r.installed().len() == 0,
            r.commands().len() == 0,
            r.mentions().len() == 0,
            r.overrides().len() == 0,
    {
        let r = PluginRegistry {
            by_id: TextMap::new(),
            by_command: TextMap::new(),
            by_mention: TextMap::new(),
            overrides: TextMap::new(),
        };
        proof {
            r.by_command.lemma_rows_keys();
            r.by_mention.lemma_rows_keys();
            assert forall|t: Seq<char>| (#[trigger] lookup(r.by_command.rows(), t)) is None by {
                lemma_index_of_key(r.by_command.rows(), t, 0);
            }
            assert forall|t: Seq<char>| (#[trigger] lookup(r.by_mention.rows(), t)) is None by {
                lemma_index_of_key(r.by_mention.rows(), t, 0);
            }
        }
        r
    }

    /// Installs `spec` under its id, in place of whatever was there.
    ///
    /// The index rows of the id are rebuilt from the new triggers: its old
    /// rows are purged first, then each trigger is bound in its normalized
    /// form, taking over a token that led to another id. Runtime overrides
    /// are left alone, so they survive the replacement.
    pub fn register_entry(&mut self, entry: PluginEntry<P>) -> (previous: Option<PluginEntry<P>>)
        requires
            old(self).wf(),
        ensures
            final(self).wf(),
            final(self).installed() == upsert(old(self).installed(), entry.spec.id@, entry),
            previous == lookup(old(self).installed(), entry.spec.id@),
            final(self).commands() == reindexed(
                old(self).commands(),
                entry.spec.id@,
                normalized_cmds(entry.spec@.commands),
            ),
            final(self).mentions() == reindexed(
                old(self).mentions(),
                entry.spec.id@,
                normalized_mentions(entry.spec@.mentions),
            ),
            final(self).overrides() == old(self).overrides(),
    {
        let ghost spec = entry.spec;
        let id = entry.spec.id.clone();
        proof {
            self.lemma_wf();
            lemma_grounded_after_register(self.commands(), self.installed(), entry, true);
            lemma_grounded_after_register(self.mentions(), self.installed(), entry, false);
            lemma_index_of_key(self.installed(), id@, 0);
        }
        self.by_command.purge(id.as_str());
        self.by_mention.purge(id.as_str());
        let ghost purged_cmds = self.by_command.rows();
        let ghost purged_mentions = self.by_mention.rows();
        let ghost cmds = normalized_cmds(spec@.commands);
        let ghost mentions = normalized_mentions(spec@.mentions);
        let mut i: usize = 0;
        while i < entry.spec.triggers.commands.len()
            invariant
                i <= entry.spec.triggers.commands.len(),
                spec == entry.spec,
                self.by_command.wf(),
                id@ == spec.id@,
                cmds == normalized_cmds(spec@.commands),
                self.by_command.rows() == bind_all(purged_cmds, cmds, id@, i as int),
                self.by_mention.wf(),
                self.by_mention.rows() == purged_mentions,
                self.by_id == old(self).by_id,
                self.overrides == old(self).overrides,
            decreases entry.spec.triggers.commands.len() - i,
        {
            let token = normalize_cmd(entry.spec.triggers.commands[i].as_str());
            assert(token@ == cmds[i as int]);
            self.by_command.bind(token, id.clone());
            i += 1;
        }
        let mut j: usize = 0;
        while j < entry.spec.triggers.mentions.len()
            invariant
                j <= entry.spec.triggers.mentions.len(),
                spec == entry.spec,
                self.by_mention.wf(),
                id@ == spec.id@,
                mentions == normalized_mentions(spec@.mentions),
                self.by_mention.rows() == bind_all(purged_mentions, mentions, id@, j as int),
                self.by_command.wf(),
                self.by_command.rows() == bind_all(
                    purged_cmds,
                    cmds,
                    id@,
                    entry.spec.triggers.commands.len() as int,
                ),
                self.by_id == old(self).by_id,
                self.overrides == old(self).overrides,
            decreases entry.spec.triggers.mentions.len() - j,
        {
            let token = normalize_mention(entry.spec.triggers.mentions[j].as_str());
            assert(token@ == mentions[j as int]);
            self.by_mention.bind(token, id.clone());
            j += 1;
        }
        self.by_id.insert(id, entry)
    }

    /// Removes the entry of `id`, its index rows and its runtime override.
    pub fn unregister(&mut self, id: &str) -> (removed: Option<PluginEntry<P>>)
        requires
            old(self).wf(),
        ensures
            final(self).wf(),
            final(self).installed() == without(old(self).installed(), id@),
            removed == lookup(old(self).installed(), id@),
            final(self).commands() == rows_without(
                old(self).commands(),
                id@,
                old(self).commands().len() as int,
            ),
            final(self).mentions() == rows_without(
                old(self).mentions(),
                id@,
                old(self).mentions().len() as int,
            ),
            final(self).overrides() == without(old(self).overrides(), id@),
    {
        proof {
            self.lemma_wf();
            lemma_grounded_after_unregister(self.commands(), self.installed(), id@, true);
            lemma_grounded_after_unregister(self.mentions(), self.installed(), id@, false);
            lemma_index_of_key(self.installed(), id@, 0);
        }
        let removed = self.by_id.remove(id);
        self.by_command.purge(id);
        self.by_mention.purge(id);
        let _ = self.overrides.remove(id);
        removed
    }

    /// The entry installed under `id`.
    pub fn entry(&self, id: &str) -> (r: Option<&PluginEntry<P>>)
        requires
            self.wf(),
        ensures
            match r {
                Some(e) => lookup(self.installed(), id@) == Some(*e),
                None => lookup(self.installed(), id@) is None,
            },
    {
        self.by_id.get(id)
    }

    /// The entry that the normalized command token `token` selects.
    pub fn entry_by_command(&self, token: &str) -> (r: Option<&PluginEntry<P>>)
        requires
            self.wf(),
        ensures
            match r {
                Some(e) => self.by_command(token@) == Some(*e),
                None => self.by_command(token@) is None,
            },
    {
        match self.by_command.target(token) {
            Some(id) => self.by_id.get(id.as_str()),
            None => None,
        }
    }

    /// The entry that the normalized mention token `token` selects.
    pub fn entry_by_mention(&self, token: &str) -> (r: Option<&PluginEntry<P>>)
        requires
            self.wf(),
        ensures
            match r {
                Some(e) => self.by_mention(token@) == Some(*e),
                None => self.by_mention(token@) is None,
            },
    {
        match self.by_mention.target(token) {
            Some(id) => self.by_id.get(id.as_str()),
            None => None,
        }
    }

    /// The number of installed entries.
    pub fn len(&self) -> (n: usize)
        ensures
            n == self.installed().len(),
    {
        self.by_id.len()
    }

    /// The id of the entry at position `i`.
    pub fn id_at(&self, i: usize) -> (id: &String)
        requires
            i < self.installed().len(),
        ensures
            id@ == self.installed()[i as int].0,
    {
        self.by_id.key_at(i)
    }

    /// The entry at position `i`.
    pub fn entry_at(&self, i: usize) -> (e: &PluginEntry<P>)
        requires
            i < self.installed().len(),
        ensures
            *e == self.installed()[i as int].1,
    {
        self.by_id.value_at(i)
    }

    /// A snapshot of all entries with their ids, in order of first
    /// registration: one pair for each installed id, the id being that of
    /// the entry's own declaration and the entry the one installed under it.
    pub fn entries(&self) -> (out: Vec<(String, &PluginEntry<P>)>)
        requires
            self.wf(),
        ensures
            out@.len() == self.installed().len(),
            forall|i: int|
                0 <= i < out@.len() ==> (#[trigger] out@[i]).0@ == self.installed()[i].0 && *out@[i].1
                    == self.installed()[i].1,
            forall|i: int| 0 <= i < out@.len() ==> (#[trigger] out@[i]).0@ == out@[i].1.spec.id@,
            forall|i: int|
                0 <= i < out@.len() ==> lookup(self.installed(), (#[trigger] out@[i]).0@) == Some(
                    *out@[i].1,
                ),
            forall|i: int, j: int|
                0 <= i < j < out@.len() ==> (#[trigger] out@[i]).0@ != (#[trigger] out@[j]).0@,
    {
        proof {
            self.lemma_wf();
            assert forall|k: int| 0 <= k < self.installed().len() implies lookup(
                self.installed(),
                (#[trigger] self.installed()[k]).0,
            ) == Some(self.installed()[k].1) by {
                lemma_index_of_own_key(self.installed(), k);
            }
        }
        let mut out: Vec<(String, &PluginEntry<P>)> = Vec::new();
        let mut i: usize = 0;
        while i < self.by_id.len()
            invariant
                i <= self.installed().len(),
                out@.len() == i,
                forall|k: int|
                    0 <= k < i ==> (#[trigger] out@[k]).0@ == self.installed()[k].0 && *out@[k].1
                        == self.installed()[k].1,
            decreases self.installed().len() - i,
        {
            out.push((self.by_id.key_at(i).clone(), self.by_id.value_at(i)));
            i += 1;
        }
        out
    }

    /// Sets the runtime override of `id`, whether or not `id` is installed.
    pub fn set_override(&mut self, id: &str, enabled: bool)
        requires
            old(self).wf(),
        ensures
            final(self).wf(),
            final(self).overrides() == upsert(old(self).overrides(), id@, enabled),
            final(self).installed() == old(self).installed(),
            final(self).commands() == old(self).commands(),
            final(self).mentions() == old(self).mentions(),
    {
        let _ = self.overrides.insert(id.to_owned(), enabled);
    }

    /// Drops the runtime override of `id`.
    pub fn clear_override(&mut self, id: &str)
        requires
            old(self).wf(),
        ensures
            final(self).wf(),
            final(self).overrides() == without(old(self).overrides(), id@),
            final(self).installed() == old(self).installed(),
            final(self).commands() == old(self).commands(),
            final(self).mentions() == old(self).mentions(),
    {
        let _ = self.overrides.remove(id);
    }

    /// Whether `id` is enabled: see [`enabled_in`].
    pub fn is_enabled(&self, id: &str) -> (b: bool)
        requires
            self.wf(),
        ensures
            b == self.enabled(id@),
    {
        match self.overrides.get(id) {
            Some(b) => *b,
            None => match self.by_id.get(id) {
                Some(e) => e.spec.enabled,
                None => false,
            },
        }
    }
}

/// The entry made of a declaration, a capability and the capability's answers.
pub open spec fn entry_of<P>(spec: PluginSpec, plugin: P, traits: PluginTraits) -> PluginEntry<P> {
    PluginEntry { spec, plugin, traits }
}

impl<P: Plugin> PluginRegistry<P> {
    /// Installs `spec` with the capability `plugin`: see
    /// [`PluginRegistry::register_entry`]. The capability is asked about
    /// itself once, here, and its answers are kept with the entry.
    pub fn register(&mut self, spec: PluginSpec, plugin: P) -> (previous: Option<PluginEntry<P>>)
        requires
            old(self).wf(),
        ensures
            final(self).wf(),
            final(self).installed() == upsert(
                old(self).installed(),
                spec.id@,
                entry_of(spec, plugin, plugin.traits()),
            ),
            previous == lookup(old(self).installed(), spec.id@),
            final(self).commands() == reindexed(
                old(self).commands(),
                spec.id@,
                normalized_cmds(spec@.commands),
            ),
            final(self).mentions() == reindexed(
                old(self).mentions(),
                spec.id@,
                normalized_mentions(spec@.mentions),
            ),
            final(self).overrides() == old(self).overrides(),
    {
        self.register_entry(PluginEntry::new(spec, plugin))
    }
}

/// After a registration, the tokens that lead to the registered id are
/// exactly its new normalized triggers: no row left from an earlier
/// registration of the id survives. Every other token leads where it led
/// before, unless it led to the id, in which case it now leads nowhere.
pub proof fn lemma_reindexed(rows: Rows, id: Seq<char>, tokens: Seq<Seq<char>>)
    requires
        distinct(rows),
    ensures
        distinct(reindexed(rows, id, tokens)),
        forall|t: Seq<char>| #[trigger]
            lookup(reindexed(rows, id, tokens), t) == (if tokens.contains(t) {
                Some(id)
            } else {
                match lookup(rows, t) {
                    Some(other) => if other == id {
                        None
                    } else {
                        Some(other)
                    },
                    None => None,
                }
            }),
        forall|t: Seq<char>|
            (#[trigger] lookup(reindexed(rows, id, tokens), t) == Some(id)) <==> tokens.contains(t),
{
    let purged = rows_without(rows, id, rows.len() as int);
    lemma_rows_without(rows, id, rows.len() as int);
    lemma_bind_all(purged, tokens, id, tokens.len() as int);
    assert(rows.take(rows.len() as int) =~= rows);
    assert(tokens.take(tokens.len() as int) =~= tokens);
    assert forall|t: Seq<char>| #[trigger]
        lookup(reindexed(rows, id, tokens), t) == (if tokens.contains(t) {
            Some(id)
        } else {
            match lookup(rows, t) {
                Some(other) => if other == id {
                    None
                } else {
                    Some(other)
                },
                None => None,
            }
        }) by {
        assert(lookup(purged, t) == (match lookup(rows.take(rows.len() as int), t) {
            Some(v) => if v == id {
                None
            } else {
                Some(v)
            },
            None => None,
        }));
    }
}

/// Registering the same id twice leaves only the second registration's
/// routes: a command token leads to the id afterwards exactly when it is one
/// of the second declaration's normalized commands, and likewise for mentions.
pub proof fn lemma_reregistration_leaves_no_stale_route(
    rows: Rows,
    id: Seq<char>,
    first: Seq<Seq<char>>,
    second: Seq<Seq<char>>,
)
    requires
        distinct(rows),
    ensures
        forall|t: Seq<char>|
            (#[trigger] lookup(reindexed(reindexed(rows, id, first), id, second), t) == Some(id))
                <==> second.contains(t),
{
    lemma_reindexed(rows, id, first);
    lemma_reindexed(reindexed(rows, id, first), id, second);
}

} // verus!
