//! Redaction of personal data: e-mail addresses, IPv4 addresses and phone
//! numbers are replaced by numbered placeholders before a text leaves the
//! process, and put back when the answer returns.

use crate::assoc::{lookup, upsert, Pairs, Rows, TextMap};
use crate::strings::strings_view;
use crate::text::{
    char_from_u32, chars_of, extend_chars, has_prefix, range_has_prefix, string_of,
};
use regex::Regex;
use vstd::prelude::*;

verus! {

/// The successive non-overlapping matches of the regular expression
/// `pattern` in `text`, as `regex::Regex::find_iter` yields them; `None`
/// where `pattern` is no regular expression.
pub uninterp spec fn regex_matches(pattern: Seq<char>, text: Seq<char>) -> Option<Seq<Seq<char>>>;

/// The stretches of `text` between the matches of `pattern`, as
/// `regex::Regex::split` yields them; `None` where `pattern` is no regular
/// expression.
pub uninterp spec fn regex_gaps(pattern: Seq<char>, text: Seq<char>) -> Option<Seq<Seq<char>>>;

/// The view of an optional list of strings.
pub open spec fn opt_strings_view(list: Option<Vec<String>>) -> Option<Seq<Seq<char>>> {
    match list {
        Some(l) => Some(strings_view(l@)),
        None => None,
    }
}

/// Trusted: `regex::Regex::new` and `Regex::find_iter`. The matches are
/// named, not described: they are whatever the regex engine finds.
#[verifier::external_body]
pub(crate) fn find_all(pattern: &str, text: &str) -> (r: Option<Vec<String>>)
    ensures
        opt_strings_view(r) == regex_matches(pattern@, text@),
{
    match Regex::new(pattern) {
        Ok(re) => Some(re.find_iter(text).map(|m| m.as_str().to_owned()).collect()),
        Err(_) => None,
    }
}

/// Trusted: `regex::Regex::new` and `Regex::split`. The stretches between
/// the matches are named, not described.
#[verifier::external_body]
pub(crate) fn split_all(pattern: &str, text: &str) -> (r: Option<Vec<String>>)
    ensures
        opt_strings_view(r) == regex_gaps(pattern@, text@),
{
    match Regex::new(pattern) {
        Ok(re) => Some(re.split(text).map(|s| s.to_owned()).collect()),
        Err(_) => None,
    }
}

/// The pattern of an e-mail address.
pub open spec fn email_pattern() -> Seq<char> {
    "(?i)[a-z0-9._%+-]+@[a-z0-9.-]+\\.[a-z]{2,}"@
}

/// The pattern of an IPv4 address.
pub open spec fn ipv4_pattern() -> Seq<char> {
    "\\b(?:[0-9]{1,3}\\.){3}[0-9]{1,3}\\b"@
}

/// The pattern of a phone number, ten digits in groups of three, three and four.
pub open spec fn phone_pattern() -> Seq<char> {
    "\\b\\d{3}[-.]?\\d{3}[-.]?\\d{4}\\b"@
}

/// The pattern of a placeholder.
pub open spec fn placeholder_pattern() -> Seq<char> {
    "<PII:([A-Z]+):(\\d+)>"@
}

/// The decimal digit for `d`.
pub open spec fn digit(d: int) -> char {
    ('0' as u32 + d) as char
}

/// `n` in decimal digits, without leading zeros.
pub open spec fn decimal(n: nat) -> Seq<char>
    decreases n,
{
    if n < 10 {
        seq![digit(n as int)]
    } else {
        decimal(n / 10).push(digit((n % 10) as int))
    }
}

/// Writes `n` in decimal digits: see [`decimal`].
pub fn decimal_chars(n: usize) -> (out: Vec<char>)
    ensures
        out@ == decimal(n as nat),
    decreases n,
{
    let d: u32 = (n % 10) as u32;
    let c = match char_from_u32('0' as u32 + d) {
        Some(c) => c,
        None => '0',
    };
    if n < 10 {
        let mut out: Vec<char> = Vec::new();
        out.push(c);
        assert(out@ =~= seq![digit(n as int)]);
        out
    } else {
        let mut out = decimal_chars(n / 10);
        out.push(c);
        out
    }
}

/// The placeholder number `n` for data of kind `kind`.
pub open spec fn placeholder(kind: Seq<char>, n: nat) -> Seq<char> {
    "<PII:"@ + kind + seq![':'] + decimal(n) + seq!['>']
}

/// The count after one more placeholder; it stops at the largest number.
pub open spec fn next_count(c: nat) -> nat {
    if c < usize::MAX {
        c + 1
    } else {
        c
    }
}

/// What a redactor remembers.
pub ghost struct RedactorView {
    /// Each placeholder with the text it stands for.
    pub replacements: Rows,
    /// How many placeholders each kind has been given.
    pub counts: Pairs<usize>,
}

/// The number of placeholders given out for `kind` so far.
pub open spec fn count_of(counts: Pairs<usize>, kind: Seq<char>) -> nat {
    match lookup(counts, kind) {
        Some(c) => c as nat,
        None => 0,
    }
}

/// Whether a match is left alone: it is a placeholder already.
pub open spec fn is_redacted(m: Seq<char>) -> bool {
    has_prefix(m, "<PII:"@)
}

/// What steps in for the match `m` of kind `kind` when the redactor is in `state`.
pub open spec fn stand_in(state: RedactorView, kind: Seq<char>, m: Seq<char>) -> Seq<char> {
    if is_redacted(m) {
        m
    } else {
        placeholder(kind, next_count(count_of(state.counts, kind)))
    }
}

/// The redactor after it has dealt with the match `m` of kind `kind`.
pub open spec fn after_match(state: RedactorView, kind: Seq<char>, m: Seq<char>) -> RedactorView {
    if is_redacted(m) {
        state
    } else {
        RedactorView {
            replacements: upsert(state.replacements, stand_in(state, kind, m), m),
            counts: upsert(
                state.counts,
                kind,
                next_count(count_of(state.counts, kind)) as usize,
            ),
        }
    }
}

/// The redactor after the first `n` of `matches`.
pub open spec fn after_matches(state: RedactorView, kind: Seq<char>, matches: Seq<Seq<char>>, n: int)
    -> RedactorView
    decreases n,
{
    if n <= 0 || n > matches.len() {
        state
    } else {
        after_match(after_matches(state, kind, matches, n - 1), kind, matches[n - 1])
    }
}

/// The stretch number `i`, or nothing where there is none.
pub open spec fn gap_at(gaps: Seq<Seq<char>>, i: int) -> Seq<char> {
    if 0 <= i < gaps.len() {
        gaps[i]
    } else {
        Seq::empty()
    }
}

/// The text up to and including the stand-in of match number `n - 1`.
pub open spec fn redacted_upto(
    state: RedactorView,
    kind: Seq<char>,
    gaps: Seq<Seq<char>>,
    matches: Seq<Seq<char>>,
    n: int,
) -> Seq<char>
    decreases n,
{
    if n <= 0 || n > matches.len() {
        Seq::empty()
    } else {
        redacted_upto(state, kind, gaps, matches, n - 1) + gap_at(gaps, n - 1) + stand_in(
            after_matches(state, kind, matches, n - 1),
            kind,
            matches[n - 1],
        )
    }
}

/// The text and the redactor after one kind of data was redacted in `text`:
/// every match that is no placeholder yet gets the next placeholder of its
/// kind, and the redactor remembers what each placeholder stands for.
pub open spec fn pass(state: RedactorView, kind: Seq<char>, pattern: Seq<char>, text: Seq<char>) -> (
    Seq<char>,
    RedactorView,
) {
    match (regex_gaps(pattern, text), regex_matches(pattern, text)) {
        (Some(gaps), Some(matches)) => (
            redacted_upto(state, kind, gaps, matches, matches.len() as int) + gap_at(
                gaps,
                matches.len() as int,
            ),
            after_matches(state, kind, matches, matches.len() as int),
        ),
        _ => (text, state),
    }
}

/// The text and the redactor after e-mail addresses, then IPv4 addresses,
/// then phone numbers were redacted.
pub open spec fn redacted(state: RedactorView, text: Seq<char>) -> (Seq<char>, RedactorView) {
    let a = pass(state, "EMAIL"@, email_pattern(), text);
    let b = pass(a.1, "IP"@, ipv4_pattern(), a.0);
    pass(b.1, "PHONE"@, phone_pattern(), b.0)
}

/// What steps in for a placeholder match when the text is restored: the
/// text it stands for, or itself where the redactor does not know it.
pub open spec fn original_of(replacements: Rows, m: Seq<char>) -> Seq<char> {
    match lookup(replacements, m) {
        Some(original) => original,
        None => m,
    }
}

/// The restored text up to and including match number `n - 1`.
pub open spec fn restored_upto(
    replacements: Rows,
    gaps: Seq<Seq<char>>,
    matches: Seq<Seq<char>>,
    n: int,
) -> Seq<char>
    decreases n,
{
    if n <= 0 || n > matches.len() {
        Seq::empty()
    } else {
        restored_upto(replacements, gaps, matches, n - 1) + gap_at(gaps, n - 1) + original_of(
            replacements,
            matches[n - 1],
        )
    }
}

/// `text` with every placeholder that the redactor knows replaced by what it stands for.
pub open spec fn restored(replacements: Rows, text: Seq<char>) -> Seq<char> {
    match (regex_gaps(placeholder_pattern(), text), regex_matches(placeholder_pattern(), text)) {
        (Some(gaps), Some(matches)) => restored_upto(
            replacements,
            gaps,
            matches,
            matches.len() as int,
        ) + gap_at(gaps, matches.len() as int),
        _ => text,
    }
}

/// A redactor of personal data.
pub struct PiiRedactor {
    replacements: TextMap<String>,
    counts: TextMap<usize>,
}

impl View for PiiRedactor {
    type V = RedactorView;

    closed spec fn view(&self) -> RedactorView {
        RedactorView { replacements: self.replacements.rows(), counts: self.counts.pairs() }
    }
}

impl PiiRedactor {
    /// The invariant of a redactor: no placeholder and no kind is listed twice.
    pub closed spec fn wf(&self) -> bool {
        self.replacements.wf() && self.counts.wf()
    }

    /// A redactor that has seen nothing yet.
    pub fn new() -> (r: PiiRedactor)
        ensures
            r.wf(),
            r@.replacements.len() == 0,
            r@.counts.len() == 0,
    {
        let r = PiiRedactor { replacements: TextMap::new(), counts: TextMap::new() };
        proof {
            r.replacements.lemma_rows_keys();
        }
        r
    }

    /// A redactor that would also look for names; it looks for the same
    /// three kinds of data as [`PiiRedactor::new`].
    pub fn with_ner() -> (r: PiiRedactor)
        ensures
            r.wf(),
            r@.replacements.len() == 0,
            r@.counts.len() == 0,
    {
        PiiRedactor::new()
    }

    /// Redacts one kind of data in `text`: see [`pass`].
    fn redact_generic(&mut self, text: &str, pattern: &str, kind: &str) -> (out: String)
        requires
            old(self).wf(),
        ensures
            final(self).wf(),
            out@ == pass(old(self)@, kind@, pattern@, text@).0,
            final(self)@ == pass(old(self)@, kind@, pattern@, text@).1,
    {
        let gaps = match split_all(pattern, text) {
            Some(g) => g,
            None => {
                return text.to_owned();
            },
        };
        let matches = match find_all(pattern, text) {
            Some(m) => m,
            None => {
                return text.to_owned();
            },
        };
        let ghost state0 = self@;
        let ghost gv = strings_view(gaps@);
        let ghost mv = strings_view(matches@);
        let marker = chars_of("<PII:");
        let kind_chars = chars_of(kind);
        let mut out: Vec<char> = Vec::new();
        let mut i: usize = 0;
        while i < matches.len()
            invariant
                i <= matches.len(),
                gv == strings_view(gaps@),
                mv == strings_view(matches@),
                marker@ == "<PII:"@,
                kind_chars@ == kind@,
                self.wf(),
                self@ == after_matches(state0, kind@, mv, i as int),
                out@ == redacted_upto(state0, kind@, gv, mv, i as int),
            decreases matches.len() - i,
        {
            let ghost state = self@;
            assert(mv[i as int] == matches@[i as int]@);
            if i < gaps.len() {
                assert(gv[i as int] == gaps@[i as int]@);
                extend_chars(&mut out, &chars_of(gaps[i].as_str()));
            }
            assert(out@ =~= redacted_upto(state0, kind@, gv, mv, i as int) + gap_at(gv, i as int));
            let m = chars_of(matches[i].as_str());
            assert(m@.subrange(0, m.len() as int) == m@);
            if range_has_prefix(&m, 0, m.len(), &marker) {
                extend_chars(&mut out, &m);
            } else {
                let current: usize = match self.counts.get(kind) {
                    Some(c) => *c,
                    None => 0,
                };
                let next: usize = if current < usize::MAX {
                    current + 1
                } else {
                    current
                };
                assert(next == next_count(count_of(state.counts, kind@)));
                let mut ph: Vec<char> = Vec::new();
                extend_chars(&mut ph, &marker);
                extend_chars(&mut ph, &kind_chars);
                ph.push(':');
                extend_chars(&mut ph, &decimal_chars(next));
                ph.push('>');
                assert(ph@ =~= placeholder(kind@, next as nat));
                extend_chars(&mut out, &ph);
                proof {
                    self.replacements.lemma_rows_keys();
                }
                let _ = self.counts.insert(kind.to_owned(), next);
                self.replacements.bind(string_of(&ph), matches[i].clone());
            }
            i += 1;
        }
        if i < gaps.len() {
            assert(gv[i as int] == gaps@[i as int]@);
            extend_chars(&mut out, &chars_of(gaps[i].as_str()));
        }
        assert(out@ =~= redacted_upto(state0, kind@, gv, mv, mv.len() as int) + gap_at(
            gv,
            mv.len() as int,
        ));
        string_of(&out)
    }

    /// Replaces the personal data in `text` by placeholders and remembers
    /// what each placeholder stands for: see [`redacted`].
    pub fn redact(&mut self, text: &str) -> (out: String)
        requires
            old(self).wf(),
        ensures
            final(self).wf(),
            out@ == redacted(old(self)@, text@).0,
            final(self)@ == redacted(old(self)@, text@).1,
    {
        let a = self.redact_generic(text, "(?i)[a-z0-9._%+-]+@[a-z0-9.-]+\\.[a-z]{2,}", "EMAIL");
        let b = self.redact_generic(a.as_str(), "\\b(?:[0-9]{1,3}\\.){3}[0-9]{1,3}\\b", "IP");
        self.redact_generic(b.as_str(), "\\b\\d{3}[-.]?\\d{3}[-.]?\\d{4}\\b", "PHONE")
    }

    /// Puts the remembered texts back in the place of their placeholders:
    /// see [`restored`].
    pub fn restore(&self, text: &str) -> (out: String)
        requires
            self.wf(),
        ensures
            out@ == restored(self@.replacements, text@),
    {
        let gaps = match split_all("<PII:([A-Z]+):(\\d+)>", text) {
            Some(g) => g,
            None => {
                return text.to_owned();
            },
        };
        let matches = match find_all("<PII:([A-Z]+):(\\d+)>", text) {
            Some(m) => m,
            None => {
                return text.to_owned();
            },
        };
        let ghost gv = strings_view(gaps@);
        let ghost mv = strings_view(matches@);
        let ghost rows = self@.replacements;
        let mut out: Vec<char> = Vec::new();
        let mut i: usize = 0;
        while i < matches.len()
            invariant
                i <= matches.len(),
                gv == strings_view(gaps@),
                mv == strings_view(matches@),
                rows == self@.replacements,
                self.wf(),
                out@ == restored_upto(rows, gv, mv, i as int),
            decreases matches.len() - i,
        {
            assert(mv[i as int] == matches@[i as int]@);
            if i < gaps.len() {
                assert(gv[i as int] == gaps@[i as int]@);
                extend_chars(&mut out, &chars_of(gaps[i].as_str()));
            }
            assert(out@ =~= restored_upto(rows, gv, mv, i as int) + gap_at(gv, i as int));
            match self.replacements.target(matches[i].as_str()) {
                Some(original) => {
                    extend_chars(&mut out, &chars_of(original.as_str()));
                },
                None => {
                    extend_chars(&mut out, &chars_of(matches[i].as_str()));
                },
            }
            i += 1;
        }
        if i < gaps.len() {
            assert(gv[i as int] == gaps@[i as int]@);
            extend_chars(&mut out, &chars_of(gaps[i].as_str()));
        }
        assert(out@ =~= restored_upto(rows, gv, mv, mv.len() as int) + gap_at(gv, mv.len() as int));
        string_of(&out)
    }
}

} // verus!
