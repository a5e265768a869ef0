//! The phrase responder: commands and their possible replies, read from the
//! capability's configuration.

use crate::chance::pick;
use crate::plugin::{default_spec, default_view, Plugin, PluginSpec, PluginTraits, SpecView};
use crate::strings::{clone_strings, contains_string, strings_view};
use crate::text::{
    chars_of, lowercase, push_char, skip_leading_in, str_eq, str_to_lowercase, string_of_range,
    strip_start_in, trim, trimmed,
};
use crate::value::{doc_str, Doc, Value};
use vstd::prelude::*;

verus! {

/// The phrase responder.
#[derive(Clone, Copy, Debug, PartialEq, Eq, Structural)]
pub struct Phrases;

/// A command name and the replies to choose from.
pub type PhraseTable = Seq<(Seq<char>, Seq<Seq<char>>)>;

/// Whether `d` is a sequence of strings.
pub open spec fn is_phrase_list(d: Doc) -> bool {
    d is Sequence && forall|i: int|
        0 <= i < d->Sequence_0.len() ==> doc_str(#[trigger] d->Sequence_0[i]) is Some
}

/// The strings of a sequence of strings.
pub open spec fn phrase_texts(d: Doc) -> Seq<Seq<char>> {
    Seq::new(d->Sequence_0.len(), |i: int| doc_str(d->Sequence_0[i])->0)
}

/// Whether `d` maps strings to sequences of strings.
pub open spec fn is_phrase_doc(d: Doc) -> bool {
    d is Mapping && forall|i: int|
        0 <= i < d->Mapping_0.len() ==> doc_str((#[trigger] d->Mapping_0[i]).0) is Some
            && is_phrase_list(d->Mapping_0[i].1)
}

/// The phrase table that a configuration holds: its entries, if it maps
/// strings to sequences of strings throughout, and nothing otherwise.
pub open spec fn table_of(d: Doc) -> PhraseTable {
    if is_phrase_doc(d) {
        Seq::new(
            d->Mapping_0.len(),
            |i: int| (doc_str(d->Mapping_0[i].0)->0, phrase_texts(d->Mapping_0[i].1)),
        )
    } else {
        Seq::empty()
    }
}

/// The view of a phrase table.
pub open spec fn table_view(table: Seq<(String, Vec<String>)>) -> PhraseTable {
    Seq::new(table.len(), |i: int| (table[i].0@, strings_view(table[i].1@)))
}

/// The strings of `v`, if `v` is a sequence of strings.
pub fn read_phrase_list(v: &Value) -> (r: Option<Vec<String>>)
    ensures
        r is Some == is_phrase_list(v@),
        r is Some ==> strings_view(r->0@) == phrase_texts(v@),
{
    match v {
        Value::Sequence(items) => {
            let ghost ds = v@->Sequence_0;
            let mut out: Vec<String> = Vec::new();
            let mut i: usize = 0;
            while i < items.len()
                invariant
                    i <= items.len(),
                    v@ is Sequence,
                    ds == v@->Sequence_0,
                    ds.len() == items@.len(),
                    forall|k: int| 0 <= k < items@.len() ==> ds[k] == #[trigger] items@[k]@,
                    out.len() == i,
                    forall|k: int| 0 <= k < i ==> doc_str(#[trigger] ds[k]) == Some(out@[k]@),
                decreases items.len() - i,
            {
                assert(ds[i as int] == items@[i as int]@);
                match items[i].as_str() {
                    Some(s) => {
                        out.push(s.to_owned());
                    },
                    None => {
                        return None;
                    },
                }
                i += 1;
            }
            assert(strings_view(out@) =~= phrase_texts(v@));
            Some(out)
        },
        _ => None,
    }
}

/// Reads the phrase table of a configuration: see [`table_of`].
pub fn phrase_table(config: &Value) -> (table: Vec<(String, Vec<String>)>)
    ensures
        table_view(table@) == table_of(config@),
{
    let mut table: Vec<(String, Vec<String>)> = Vec::new();
    assert(table_view(table@) =~= Seq::<(Seq<char>, Seq<Seq<char>>)>::empty());
    match config {
        Value::Mapping(entries) => {
            let ghost es = config@->Mapping_0;
            let mut i: usize = 0;
            while i < entries.len()
                invariant
                    i <= entries.len(),
                    config@ is Mapping,
                    es == config@->Mapping_0,
                    es.len() == entries@.len(),
                    forall|k: int|
                        0 <= k < entries@.len() ==> es[k] == (
                            (#[trigger] entries@[k]).0@,
                            entries@[k].1@,
                        ),
                    table.len() == i,
                    forall|k: int|
                        0 <= k < i ==> doc_str((#[trigger] es[k]).0) == Some(table@[k].0@)
                            && is_phrase_list(es[k].1) && phrase_texts(es[k].1) == strings_view(
                            table@[k].1@,
                        ),
                decreases entries.len() - i,
            {
                assert(es[i as int] == (entries@[i as int].0@, entries@[i as int].1@));
                let key = match entries[i].0.as_str() {
                    Some(k) => k.to_owned(),
                    None => {
                        let empty: Vec<(String, Vec<String>)> = Vec::new();
                        assert(table_view(empty@) =~= Seq::<(Seq<char>, Seq<Seq<char>>)>::empty());
                        return empty;
                    },
                };
                let list = match read_phrase_list(&entries[i].1) {
                    Some(l) => l,
                    None => {
                        let empty: Vec<(String, Vec<String>)> = Vec::new();
                        assert(table_view(empty@) =~= Seq::<(Seq<char>, Seq<Seq<char>>)>::empty());
                        return empty;
                    },
                };
                table.push((key, list));
                i += 1;
            }
            assert(is_phrase_doc(config@));
            assert(table_view(table@) =~= table_of(config@));
            table
        },
        _ => table,
    }
}

/// The command name that a configured key stands for: the key without
/// leading `!`, trimmed and lower-cased.
pub open spec fn command_name(raw_key: Seq<char>) -> Seq<char> {
    lowercase(trimmed(strip_start_in(raw_key, seq!['!'])))
}

/// The commands that the first `n` keys of `table` give rise to: `!` and the
/// command name of each key with a non-empty name, each command once.
pub open spec fn phrase_commands(table: PhraseTable, n: int) -> Seq<Seq<char>>
    decreases n,
{
    if n <= 0 || n > table.len() {
        Seq::empty()
    } else {
        let before = phrase_commands(table, n - 1);
        let name = command_name(table[n - 1].0);
        if name.len() == 0 || before.contains(seq!['!'] + name) {
            before
        } else {
            before.push(seq!['!'] + name)
        }
    }
}

/// `s` without its leading `!` signs.
pub fn strip_bangs(s: &str) -> (out: String)
    ensures
        out@ == strip_start_in(s@, seq!['!']),
{
    let v = chars_of(s);
    let mut bang: Vec<char> = Vec::new();
    bang.push('!');
    assert(bang@ =~= seq!['!']);
    let a = skip_leading_in(&v, 0, v.len(), &bang);
    assert(v@.subrange(0, v.len() as int) == v@);
    string_of_range(&v, a, v.len())
}

/// The key under which the replies to a trigger are looked up: the trigger
/// without leading `!`, lower-cased.
pub open spec fn lookup_key(trigger: Seq<char>) -> Seq<char> {
    lowercase(strip_start_in(trigger, seq!['!']))
}

/// The index of the first entry of `table` at or after `from` with the key `key`.
pub open spec fn phrase_index(table: PhraseTable, key: Seq<char>, from: int) -> int
    decreases table.len() - from,
{
    if from < 0 || from >= table.len() {
        table.len() as int
    } else if table[from].0 == key {
        from
    } else {
        phrase_index(table, key, from + 1)
    }
}

/// The replies to choose from for `key`: those listed under `key`, or, where
/// `key` is not listed at all, those listed under `!` and `key`.
pub open spec fn candidates(table: PhraseTable, key: Seq<char>) -> Seq<Seq<char>> {
    if phrase_index(table, key, 0) < table.len() {
        table[phrase_index(table, key, 0)].1
    } else if phrase_index(table, seq!['!'] + key, 0) < table.len() {
        table[phrase_index(table, seq!['!'] + key, 0)].1
    } else {
        Seq::empty()
    }
}

/// The position of `key` in `table`, or its length.
pub fn find_phrases(table: &Vec<(String, Vec<String>)>, key: &str) -> (r: usize)
    ensures
        r == phrase_index(table_view(table@), key@, 0),
        r <= table.len(),
{
    let ghost tv = table_view(table@);
    let mut i: usize = 0;
    while i < table.len() && !str_eq(table[i].0.as_str(), key)
        invariant
            i <= table.len(),
            tv == table_view(table@),
            phrase_index(tv, key@, 0) == phrase_index(tv, key@, i as int),
        decreases table.len() - i,
    {
        assert(tv[i as int].0 == table@[i as int].0@);
        i += 1;
    }
    proof {
        if i < table.len() {
            assert(tv[i as int].0 == table@[i as int].0@);
        }
    }
    i
}

impl Phrases {
    /// The replies to choose from when `trigger` is invoked: see [`candidates`].
    pub fn replies(&self, config: &Value, trigger: &str) -> (out: Vec<String>)
        ensures
            strings_view(out@) == candidates(table_of(config@), lookup_key(trigger@)),
    {
        let table = phrase_table(config);
        let ghost tv = table_view(table@);
        let stripped = strip_bangs(trigger);
        let key = str_to_lowercase(stripped.as_str());
        let at = find_phrases(&table, key.as_str());
        if at < table.len() {
            assert(tv[at as int].1 == strings_view(table@[at as int].1@));
            return clone_strings(&table[at].1);
        }
        let mut alt = String::new();
        push_char(&mut alt, '!');
        let alt = alt.concat(key.as_str());
        assert(alt@ =~= seq!['!'] + key@);
        let at2 = find_phrases(&table, alt.as_str());
        if at2 < table.len() {
            assert(tv[at2 as int].1 == strings_view(table@[at2 as int].1@));
            clone_strings(&table[at2].1)
        } else {
            let none: Vec<String> = Vec::new();
            assert(strings_view(none@) =~= Seq::<Seq<char>>::empty());
            none
        }
    }

    /// The reply to `trigger`: one of its candidates, chosen at random, or
    /// nothing where it has none. Without a trigger, the first command of the
    /// declaration stands in for it.
    pub fn reply(&self, spec: &PluginSpec, trigger: Option<&str>) -> (r: Option<String>)
        ensures
            trigger is Some ==> (r is None) == (candidates(
                table_of(spec.config@),
                lookup_key(trigger->0@),
            ).len() == 0),
            trigger is Some && r is Some ==> candidates(
                table_of(spec.config@),
                lookup_key(trigger->0@),
            ).contains(r->0@),
            trigger is None && spec@.commands.len() == 0 ==> r is None,
    {
        let list = match trigger {
            Some(t) => self.replies(&spec.config, t),
            None => {
                if spec.triggers.commands.len() == 0 {
                    return None;
                }
                self.replies(&spec.config, spec.triggers.commands[0].as_str())
            },
        };
        pick(&list)
    }
}

impl Plugin for Phrases {
    open spec fn traits(&self) -> PluginTraits {
        PluginTraits {
            dev_only: false,
            handles_room_messages: false,
            wants_own_messages: false,
        }
    }

    open spec fn declaration(&self, config: Doc) -> SpecView {
        default_view("phrases"@, phrase_commands(table_of(config), table_of(config).len() as int), config)
    }

    fn id(&self) -> (r: String)
        ensures
            r@ == "phrases"@,
    {
        "phrases".to_owned()
    }

    fn help(&self) -> (r: String)
        ensures
            r@ == "Generic phrase responder: define commands -> replies in plugin config"@,
    {
        "Generic phrase responder: define commands -> replies in plugin config".to_owned()
    }

    fn dev_only(&self) -> (b: bool) {
        false
    }

    fn handles_room_messages(&self) -> (b: bool) {
        false
    }

    fn wants_own_messages(&self) -> (b: bool) {
        false
    }

    fn spec(&self, config: Value) -> (spec: PluginSpec) {
        let table = phrase_table(&config);
        let ghost tv = table_view(table@);
        let mut commands: Vec<String> = Vec::new();
        assert(strings_view(commands@) =~= Seq::<Seq<char>>::empty());
        let mut i: usize = 0;
        while i < table.len()
            invariant
                i <= table.len(),
                tv == table_view(table@),
                strings_view(commands@) == phrase_commands(tv, i as int),
            decreases table.len() - i,
        {
            assert(tv[i as int].0 == table@[i as int].0@);
            let stripped = strip_bangs(table[i].0.as_str());
            let t = trim(stripped.as_str());
            let name = str_to_lowercase(t.as_str());
            let n = name.as_str().unicode_len();
            if n > 0 {
                let mut token = String::new();
                push_char(&mut token, '!');
                let token = token.concat(name.as_str());
                assert(token@ =~= seq!['!'] + name@);
                if !contains_string(&commands, token.as_str()) {
                    let ghost before = strings_view(commands@);
                    commands.push(token);
                    assert(strings_view(commands@) =~= before.push(seq!['!'] + name@));
                }
            }
            i += 1;
        }
        default_spec("phrases", commands, config)
    }
}

} // verus!
