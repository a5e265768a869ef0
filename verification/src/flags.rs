//! Flags that ride along in the argument tail of a command.

use crate::strings::same_chars;
use crate::text::{chars_of, join_words, joined, split_words, string_of, views, words};
use vstd::prelude::*;

verus! {

/// Whether `word` is one of the two spellings of a flag.
pub open spec fn is_flag(word: Seq<char>, short: Seq<char>, long: Seq<char>) -> bool {
    word == short || word == long
}

/// The first `n` of `ws` without the flag.
pub open spec fn kept_words(ws: Seq<Seq<char>>, short: Seq<char>, long: Seq<char>, n: int) -> Seq<
    Seq<char>,
>
    decreases n,
{
    if n <= 0 || n > ws.len() {
        Seq::empty()
    } else if is_flag(ws[n - 1], short, long) {
        kept_words(ws, short, long, n - 1)
    } else {
        kept_words(ws, short, long, n - 1).push(ws[n - 1])
    }
}

/// Whether the flag is among the first `n` of `ws`.
pub open spec fn flag_among(ws: Seq<Seq<char>>, short: Seq<char>, long: Seq<char>, n: int) -> bool
    decreases n,
{
    if n <= 0 || n > ws.len() {
        false
    } else {
        is_flag(ws[n - 1], short, long) || flag_among(ws, short, long, n - 1)
    }
}

/// The arguments without the flag, joined by single spaces.
pub open spec fn args_without_flag(args: Seq<char>, short: Seq<char>, long: Seq<char>) -> Seq<char> {
    joined(kept_words(words(args), short, long, words(args).len() as int), seq![' '])
}

/// Whether the arguments hold the flag as a word of its own.
pub open spec fn args_have_flag(args: Seq<char>, short: Seq<char>, long: Seq<char>) -> bool {
    flag_among(words(args), short, long, words(args).len() as int)
}

/// Takes a flag out of an argument tail. The result is the remaining words,
/// joined by single spaces, and whether the flag was there.
pub fn extract_flag(args: &str, short: &str, long: &str) -> (r: (String, bool))
    ensures
        r.0@ == args_without_flag(args@, short@, long@),
        r.1 == args_have_flag(args@, short@, long@),
{
    let v = chars_of(args);
    let parts = split_words(&v);
    let s = chars_of(short);
    let l = chars_of(long);
    let ghost ws = words(args@);
    let mut kept: Vec<Vec<char>> = Vec::new();
    let mut found = false;
    let mut i: usize = 0;
    assert(views(kept@) =~= Seq::<Seq<char>>::empty());
    while i < parts.len()
        invariant
            i <= parts.len(),
            ws == views(parts@),
            s@ == short@,
            l@ == long@,
            views(kept@) == kept_words(ws, short@, long@, i as int),
            found == flag_among(ws, short@, long@, i as int),
        decreases parts.len() - i,
    {
        assert(ws[i as int] == parts@[i as int]@);
        let w = &parts[i];
        if same_chars(w, &s) || same_chars(w, &l) {
            found = true;
        } else {
            let ghost before = views(kept@);
            kept.push(w.clone());
            assert(views(kept@) =~= before.push(w@));
        }
        i += 1;
    }
    let mut sp: Vec<char> = Vec::new();
    sp.push(' ');
    assert(sp@ =~= seq![' ']);
    (string_of(&join_words(&kept, &sp)), found)
}

/// Takes `-log` or `--log` out of the arguments of the AI command.
pub fn extract_log_flag(args: &str) -> (r: (String, bool))
    ensures
        r.0@ == args_without_flag(args@, "-log"@, "--log"@),
        r.1 == args_have_flag(args@, "-log"@, "--log"@),
{
    extract_flag(args, "-log", "--log")
}

/// Takes `-d` or `--dev` out of the arguments of a command.
pub fn extract_dev_flag(args: &str) -> (r: (String, bool))
    ensures
        r.0@ == args_without_flag(args@, "-d"@, "--dev"@),
        r.1 == args_have_flag(args@, "-d"@, "--dev"@),
{
    extract_flag(args, "-d", "--dev")
}

} // verus!
