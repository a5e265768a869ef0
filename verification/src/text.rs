//! Text helpers shared by the registry, the dispatcher and the relay.
//!
//! Every function here is specified over the sequence of Unicode scalar values
//! of its argument (`s@`), never over bytes.

use vstd::prelude::*;

verus! {

/// Whether `c`, a scalar value beyond ASCII, has the Unicode `White_Space`
/// property, as `char::is_whitespace` decides it.
pub uninterp spec fn is_wide_whitespace(c: char) -> bool;

/// The white space of ASCII: the space and the controls from U+0009 to U+000D.
pub open spec fn is_ascii_whitespace(c: char) -> bool {
    c == ' ' || ('\u{9}' <= c && c <= '\u{D}')
}

/// Whether `c` is white space: within ASCII the space and five controls,
/// beyond it the scalar values with the Unicode `White_Space` property.
pub open spec fn is_whitespace(c: char) -> bool {
    if c <= '\u{7F}' {
        is_ascii_whitespace(c)
    } else {
        is_wide_whitespace(c)
    }
}

/// The Unicode lowercase mapping of a whole string, as `str::to_lowercase` computes it.
pub uninterp spec fn lowercase(s: Seq<char>) -> Seq<char>;

/// The upper-case mapping of a whole string, as `str::to_uppercase` computes it.
pub uninterp spec fn uppercase(s: Seq<char>) -> Seq<char>;

/// Trusted: `char::is_whitespace`. Within ASCII it holds of the space and
/// of the controls from U+0009 to U+000D. Beyond ASCII the result is named,
/// not described: that set belongs to the Unicode tables behind std.
#[verifier::external_body]
pub(crate) fn char_is_whitespace(c: char) -> (b: bool)
    ensures
        b == (if c <= '\u{7F}' {
            is_ascii_whitespace(c)
        } else {
            is_wide_whitespace(c)
        }),
{
    c.is_whitespace()
}

/// Trusted: `str::to_lowercase`. The mapping is context sensitive and table driven,
/// so the result is only named.
#[verifier::external_body]
pub(crate) fn str_to_lowercase(s: &str) -> (r: String)
    ensures
        r@ == lowercase(s@),
{
    s.to_lowercase()
}

/// Trusted: `str::to_uppercase`. The mapping is table driven, so the result
/// is only named.
#[verifier::external_body]
pub(crate) fn str_to_uppercase(s: &str) -> (r: String)
    ensures
        r@ == uppercase(s@),
{
    s.to_uppercase()
}

/// Trusted: `String::push` appends exactly one scalar value.
#[verifier::external_body]
pub(crate) fn push_char(s: &mut String, c: char)
    ensures
        final(s)@ == old(s)@.push(c),
{
    s.push(c);
}

/// Whether `a` and `b` hold the same text.
pub(crate) fn str_eq(a: &str, b: &str) -> (r: bool)
    ensures
        r == (a@ == b@),
{
    let x = a.to_owned();
    let y = b.to_owned();
    x == y
}

/// Code points that are Unicode scalar values (everything but the surrogates).
pub open spec fn is_scalar_value(x: u32) -> bool {
    x <= 0xD7FF || (0xE000 <= x && x <= 0x10FFFF)
}

/// Trusted: `char::from_u32` succeeds exactly on scalar values and keeps the number.
#[verifier::external_body]
pub(crate) fn char_from_u32(x: u32) -> (r: Option<char>)
    ensures
        r == (if is_scalar_value(x) {
            Some(x as char)
        } else {
            None
        }),
{
    char::from_u32(x)
}

/// The scalar values of `s`, one vector element each.
pub fn chars_of(s: &str) -> (v: Vec<char>)
    ensures
        v@ == s@,
{
    let mut v: Vec<char> = Vec::new();
    for c in it: s.chars()
        invariant
            v@ == it.seq().take(it.index() as int),
            it.seq() == s@,
    {
        v.push(c);
    }
    assert(v@ == s@);
    v
}

/// The string made of `v[lo..hi]`.
pub fn string_of_range(v: &Vec<char>, lo: usize, hi: usize) -> (s: String)
    requires
        lo <= hi <= v.len(),
    ensures
        s@ == v@.subrange(lo as int, hi as int),
{
    let mut s = String::new();
    let mut i: usize = lo;
    while i < hi
        invariant
            lo <= i <= hi <= v.len(),
            s@ == v@.subrange(lo as int, i as int),
        decreases hi - i,
    {
        push_char(&mut s, v[i]);
        i += 1;
    }
    s
}

/// The string made of all of `v`.
pub fn string_of(v: &Vec<char>) -> (s: String)
    ensures
        s@ == v@,
{
    let s = string_of_range(v, 0, v.len());
    assert(v@.subrange(0, v.len() as int) == v@);
    s
}

/// Appends all of `tail` to `v`.
pub fn extend_chars(v: &mut Vec<char>, tail: &Vec<char>)
    ensures
        final(v)@ == old(v)@ + tail@,
{
    let mut i: usize = 0;
    while i < tail.len()
        invariant
            i <= tail.len(),
            v@ == old(v)@ + tail@.take(i as int),
        decreases tail.len() - i,
    {
        v.push(tail[i]);
        i += 1;
    }
    assert(tail@.take(tail.len() as int) == tail@);
}

/// Appends `tail[lo..hi]` to `v`.
pub fn extend_range(v: &mut Vec<char>, tail: &Vec<char>, lo: usize, hi: usize)
    requires
        lo <= hi <= tail.len(),
    ensures
        final(v)@ == old(v)@ + tail@.subrange(lo as int, hi as int),
{
    let mut i: usize = lo;
    while i < hi
        invariant
            lo <= i <= hi <= tail.len(),
            v@ == old(v)@ + tail@.subrange(lo as int, i as int),
        decreases hi - i,
    {
        v.push(tail[i]);
        i += 1;
    }
}

/// Whether `s` begins with `prefix`.
pub open spec fn has_prefix(s: Seq<char>, prefix: Seq<char>) -> bool {
    prefix.len() <= s.len() && s.take(prefix.len() as int) == prefix
}

/// Whether `s` ends with `suffix`.
pub open spec fn has_suffix(s: Seq<char>, suffix: Seq<char>) -> bool {
    suffix.len() <= s.len() && s.skip(s.len() - suffix.len()) == suffix
}

/// Whether `v[lo..hi]` begins with `prefix`.
pub fn range_has_prefix(v: &Vec<char>, lo: usize, hi: usize, prefix: &Vec<char>) -> (b: bool)
    requires
        lo <= hi <= v.len(),
    ensures
        b == has_prefix(v@.subrange(lo as int, hi as int), prefix@),
{
    if prefix.len() > hi - lo {
        return false;
    }
    let ghost s = v@.subrange(lo as int, hi as int);
    let mut i: usize = 0;
    while i < prefix.len()
        invariant
            lo <= hi <= v.len(),
            prefix.len() <= hi - lo,
            i <= prefix.len(),
            s == v@.subrange(lo as int, hi as int),
            s.take(i as int) == prefix@.take(i as int),
        decreases prefix.len() - i,
    {
        if v[lo + i] != prefix[i] {
            proof {
                assert(s.take(prefix.len() as int)[i as int] == s[i as int]);
                assert(s[i as int] == v@[lo + i]);
            }
            return false;
        }
        proof {
            assert(s.take(i + 1) =~= s.take(i as int).push(s[i as int]));
            assert(prefix@.take(i + 1) =~= prefix@.take(i as int).push(prefix@[i as int]));
        }
        i += 1;
    }
    assert(prefix@.take(prefix.len() as int) == prefix@);
    true
}

/// Whether `v[lo..hi]` ends with `suffix`.
pub fn range_has_suffix(v: &Vec<char>, lo: usize, hi: usize, suffix: &Vec<char>) -> (b: bool)
    requires
        lo <= hi <= v.len(),
    ensures
        b == has_suffix(v@.subrange(lo as int, hi as int), suffix@),
{
    if suffix.len() > hi - lo {
        return false;
    }
    let start: usize = hi - suffix.len();
    let b = range_has_prefix(v, start, hi, suffix);
    proof {
        let s = v@.subrange(lo as int, hi as int);
        assert(s.skip(s.len() - suffix.len()) =~= v@.subrange(start as int, hi as int));
        assert(v@.subrange(start as int, hi as int).take(suffix.len() as int) =~= v@.subrange(
            start as int,
            hi as int,
        ));
    }
    b
}

/// The first index of `c` in `s` at or after `from`, or `s.len()` if there is none.
pub open spec fn index_of_from(s: Seq<char>, c: char, from: int) -> int
    decreases s.len() - from,
{
    if from < 0 || from >= s.len() {
        s.len() as int
    } else if s[from] == c {
        from
    } else {
        index_of_from(s, c, from + 1)
    }
}

/// `index_of_from` finds the first occurrence at or after `from`: what it
/// points at is `c`, and nothing before it is.
pub proof fn lemma_index_of_from(s: Seq<char>, c: char, from: int)
    requires
        0 <= from <= s.len(),
    ensures
        from <= index_of_from(s, c, from) <= s.len(),
        index_of_from(s, c, from) < s.len() ==> s[index_of_from(s, c, from)] == c,
        forall|k: int| from <= k < index_of_from(s, c, from) ==> s[k] != c,
    decreases s.len() - from,
{
    if from < s.len() && s[from] != c {
        lemma_index_of_from(s, c, from + 1);
    }
}

/// The first index of `c` in `v[lo..hi]`, counted from the start of `v`; `hi` if absent.
pub fn find_char(v: &Vec<char>, lo: usize, hi: usize, c: char) -> (r: usize)
    requires
        lo <= hi <= v.len(),
    ensures
        lo <= r <= hi,
        r - lo == index_of_from(v@.subrange(lo as int, hi as int), c, 0),
        r < hi ==> v@[r as int] == c,
        forall|k: int| lo <= k < r ==> v@[k] != c,
{
    let ghost s = v@.subrange(lo as int, hi as int);
    let mut i: usize = lo;
    while i < hi && v[i] != c
        invariant
            lo <= i <= hi <= v.len(),
            s == v@.subrange(lo as int, hi as int),
            index_of_from(s, c, 0) == index_of_from(s, c, i - lo),
            forall|k: int| lo <= k < i ==> v@[k] != c,
        decreases hi - i,
    {
        proof {
            assert(s[i - lo] == v@[i as int]);
        }
        i += 1;
    }
    proof {
        if i < hi {
            assert(s[i - lo] == v@[i as int]);
        }
    }
    i
}

/// The first `max` scalar values of `s`, or all of `s` if it is shorter.
pub open spec fn truncated(s: Seq<char>, max: int) -> Seq<char> {
    if max <= 0 {
        Seq::empty()
    } else if max < s.len() {
        s.take(max)
    } else {
        s
    }
}

/// Keeps at most `max` scalar values of `s`, counted from the front.
pub fn truncate(s: &str, max: usize) -> (out: String)
    ensures
        out@ == truncated(s@, max as int),
{
    let v = chars_of(s);
    let n: usize = if max < v.len() { max } else { v.len() };
    let out = string_of_range(&v, 0, n);
    assert(v@.subrange(0, n as int) == truncated(s@, max as int));
    out
}

/// Same cut as [`truncate`], for the texts that the AI capability quotes.
pub fn truncate_for_ai(s: &str, max: usize) -> (out: String)
    ensures
        out@ == truncated(s@, max as int),
{
    truncate(s, max)
}

/// `cur` as a one-word list, or no word if `cur` is empty.
pub open spec fn flush_word(cur: Seq<char>) -> Seq<Seq<char>> {
    if cur.len() > 0 {
        seq![cur]
    } else {
        Seq::empty()
    }
}

/// The words of `s[i..]`, given that `cur` is the word being read when the scan
/// reaches index `i`.
pub open spec fn words_scan(s: Seq<char>, i: int, cur: Seq<char>) -> Seq<Seq<char>>
    decreases s.len() - i,
{
    if i < 0 || i >= s.len() {
        flush_word(cur)
    } else if is_whitespace(s[i]) {
        flush_word(cur) + words_scan(s, i + 1, Seq::empty())
    } else {
        words_scan(s, i + 1, cur.push(s[i]))
    }
}

/// The maximal runs of non-white-space scalar values of `s`, in order.
pub open spec fn words(s: Seq<char>) -> Seq<Seq<char>> {
    words_scan(s, 0, Seq::empty())
}

/// Whether `w` is a word: it is not empty and holds no white space.
pub open spec fn is_word(w: Seq<char>) -> bool {
    w.len() > 0 && forall|k: int| 0 <= k < w.len() ==> !is_whitespace(#[trigger] w[k])
}

/// Every piece that the scan yields is a word, as long as what was read of
/// the current piece holds no white space.
pub proof fn lemma_words_scan(s: Seq<char>, i: int, cur: Seq<char>)
    requires
        0 <= i <= s.len(),
        forall|k: int| 0 <= k < cur.len() ==> !is_whitespace(#[trigger] cur[k]),
    ensures
        forall|w: int|
            0 <= w < words_scan(s, i, cur).len() ==> is_word(#[trigger] words_scan(s, i, cur)[w]),
    decreases s.len() - i,
{
    let out = words_scan(s, i, cur);
    if i >= s.len() {
        assert forall|w: int| 0 <= w < out.len() implies is_word(#[trigger] out[w]) by {
            assert(out[w] == cur);
        }
    } else if is_whitespace(s[i]) {
        lemma_words_scan(s, i + 1, Seq::empty());
        let head = flush_word(cur);
        let tail = words_scan(s, i + 1, Seq::empty());
        assert(out == head + tail);
        assert forall|w: int| 0 <= w < out.len() implies is_word(#[trigger] out[w]) by {
            if w < head.len() {
                assert(out[w] == cur);
            } else {
                assert(out[w] == tail[w - head.len()]);
            }
        }
    } else {
        let longer = cur.push(s[i]);
        assert forall|k: int| 0 <= k < longer.len() implies !is_whitespace(
            #[trigger] longer[k],
        ) by {
            if k < cur.len() {
                assert(longer[k] == cur[k]);
            }
        }
        lemma_words_scan(s, i + 1, longer);
        let rest = words_scan(s, i + 1, longer);
        assert(out == rest);
        assert forall|w: int| 0 <= w < out.len() implies is_word(#[trigger] out[w]) by {
            assert(is_word(rest[w]));
        }
    }
    assert forall|w: int| 0 <= w < words_scan(s, i, cur).len() implies is_word(
        #[trigger] words_scan(s, i, cur)[w],
    ) by {
        assert(is_word(out[w]));
    }
}

/// Every word of a text is non-empty and free of white space.
pub proof fn lemma_words_are_words(s: Seq<char>)
    ensures
        forall|w: int| 0 <= w < words(s).len() ==> is_word(#[trigger] words(s)[w]),
{
    lemma_words_scan(s, 0, Seq::empty());
}

/// The view of a list of words held as vectors.
pub open spec fn views(parts: Seq<Vec<char>>) -> Seq<Seq<char>> {
    parts.map_values(|w: Vec<char>| w@)
}

/// Splits `v` at white space, dropping empty pieces.
pub fn split_words(v: &Vec<char>) -> (out: Vec<Vec<char>>)
    ensures
        views(out@) == words(v@),
{
    let mut out: Vec<Vec<char>> = Vec::new();
    let mut cur: Vec<char> = Vec::new();
    let mut i: usize = 0;
    assert(views(out@) =~= Seq::<Seq<char>>::empty());
    while i < v.len()
        invariant
            i <= v.len(),
            words(v@) == views(out@) + words_scan(v@, i as int, cur@),
        decreases v.len() - i,
    {
        let c = v[i];
        if char_is_whitespace(c) {
            if cur.len() > 0 {
                let ghost before = views(out@);
                let ghost w = cur@;
                out.push(cur);
                cur = Vec::new();
                assert(views(out@) =~= before + seq![w]);
                assert(before + (seq![w] + words_scan(v@, i + 1, Seq::empty())) =~= (before
                    + seq![w]) + words_scan(v@, i + 1, Seq::empty()));
            } else {
                assert(cur@ =~= Seq::<char>::empty());
                assert(Seq::<Seq<char>>::empty() + words_scan(v@, i + 1, Seq::empty())
                    =~= words_scan(v@, i + 1, Seq::empty()));
            }
        } else {
            cur.push(c);
        }
        i += 1;
    }
    if cur.len() > 0 {
        let ghost before = views(out@);
        let ghost w = cur@;
        out.push(cur);
        assert(views(out@) =~= before + seq![w]);
    } else {
        assert(views(out@) + Seq::<Seq<char>>::empty() =~= views(out@));
    }
    out
}

/// `parts` written one after the other with `sep` between neighbours.
pub open spec fn joined(parts: Seq<Seq<char>>, sep: Seq<char>) -> Seq<char>
    decreases parts.len(),
{
    if parts.len() == 0 {
        Seq::empty()
    } else if parts.len() == 1 {
        parts[0]
    } else {
        joined(parts.drop_last(), sep) + sep + parts.last()
    }
}

/// Joins `parts` with `sep` between neighbours.
pub fn join_words(parts: &Vec<Vec<char>>, sep: &Vec<char>) -> (out: Vec<char>)
    ensures
        out@ == joined(views(parts@), sep@),
{
    let mut out: Vec<char> = Vec::new();
    let mut i: usize = 0;
    while i < parts.len()
        invariant
            i <= parts.len(),
            out@ == joined(views(parts@).take(i as int), sep@),
        decreases parts.len() - i,
    {
        proof {
            let next = views(parts@).take(i + 1);
            assert(next.drop_last() =~= views(parts@).take(i as int));
            assert(next.last() == parts@[i as int]@);
            if i == 0 {
                assert(joined(views(parts@).take(0), sep@) =~= Seq::<char>::empty());
            }
        }
        if i > 0 {
            extend_chars(&mut out, sep);
        }
        extend_chars(&mut out, &parts[i]);
        proof {
            if i == 0 {
                assert(out@ =~= parts@[0]@);
            }
        }
        i += 1;
    }
    assert(views(parts@).take(parts.len() as int) =~= views(parts@));
    out
}

/// The words of `s` joined by single spaces, cut to `max` scalar values.
pub open spec fn sanitized(s: Seq<char>, max: int) -> Seq<char> {
    truncated(joined(words(s), seq![' ']), max)
}

/// Collapses every run of white space to one space, drops leading and trailing
/// white space, and keeps at most `max` scalar values of the result.
pub fn sanitize_line(s: &str, max: usize) -> (out: String)
    ensures
        out@ == sanitized(s@, max as int),
{
    let v = chars_of(s);
    let parts = split_words(&v);
    let mut sep: Vec<char> = Vec::new();
    sep.push(' ');
    assert(sep@ =~= seq![' ']);
    let compact = join_words(&parts, &sep);
    let n: usize = if max < compact.len() { max } else { compact.len() };
    let out = string_of_range(&compact, 0, n);
    assert(compact@.subrange(0, n as int) == truncated(compact@, max as int));
    out
}

/// `s` without its longest prefix made of scalar values listed in `set`.
pub open spec fn strip_start_in(s: Seq<char>, set: Seq<char>) -> Seq<char>
    decreases s.len(),
{
    if s.len() > 0 && set.contains(s[0]) {
        strip_start_in(s.drop_first(), set)
    } else {
        s
    }
}

/// `s` without its longest suffix made of scalar values listed in `set`.
pub open spec fn strip_end_in(s: Seq<char>, set: Seq<char>) -> Seq<char>
    decreases s.len(),
{
    if s.len() > 0 && set.contains(s.last()) {
        strip_end_in(s.drop_last(), set)
    } else {
        s
    }
}

/// `s` without leading white space.
pub open spec fn strip_start_ws(s: Seq<char>) -> Seq<char>
    decreases s.len(),
{
    if s.len() > 0 && is_whitespace(s[0]) {
        strip_start_ws(s.drop_first())
    } else {
        s
    }
}

/// `s` without trailing white space.
pub open spec fn strip_end_ws(s: Seq<char>) -> Seq<char>
    decreases s.len(),
{
    if s.len() > 0 && is_whitespace(s.last()) {
        strip_end_ws(s.drop_last())
    } else {
        s
    }
}

/// `s` without leading and trailing white space.
pub open spec fn trimmed(s: Seq<char>) -> Seq<char> {
    strip_end_ws(strip_start_ws(s))
}

/// Whether `c` occurs in `set`.
pub fn set_has(set: &Vec<char>, c: char) -> (b: bool)
    ensures
        b == set@.contains(c),
{
    let mut i: usize = 0;
    while i < set.len()
        invariant
            i <= set.len(),
            forall|k: int| 0 <= k < i ==> set@[k] != c,
        decreases set.len() - i,
    {
        if set[i] == c {
            return true;
        }
        i += 1;
    }
    false
}

/// The start of `v[lo..hi]` once leading members of `set` are dropped.
pub fn skip_leading_in(v: &Vec<char>, lo: usize, hi: usize, set: &Vec<char>) -> (r: usize)
    requires
        lo <= hi <= v.len(),
    ensures
        lo <= r <= hi,
        v@.subrange(r as int, hi as int) == strip_start_in(v@.subrange(lo as int, hi as int), set@),
{
    let mut i: usize = lo;
    while i < hi && set_has(set, v[i])
        invariant
            lo <= i <= hi <= v.len(),
            strip_start_in(v@.subrange(i as int, hi as int), set@) == strip_start_in(
                v@.subrange(lo as int, hi as int),
                set@,
            ),
        decreases hi - i,
    {
        assert(v@.subrange(i as int, hi as int).drop_first() =~= v@.subrange(i + 1, hi as int));
        i += 1;
    }
    assert(i < hi ==> v@.subrange(i as int, hi as int)[0] == v@[i as int]);
    i
}

/// The end of `v[lo..hi]` once trailing members of `set` are dropped.
pub fn skip_trailing_in(v: &Vec<char>, lo: usize, hi: usize, set: &Vec<char>) -> (r: usize)
    requires
        lo <= hi <= v.len(),
    ensures
        lo <= r <= hi,
        v@.subrange(lo as int, r as int) == strip_end_in(v@.subrange(lo as int, hi as int), set@),
{
    let mut j: usize = hi;
    while j > lo && set_has(set, v[j - 1])
        invariant
            lo <= j <= hi <= v.len(),
            strip_end_in(v@.subrange(lo as int, j as int), set@) == strip_end_in(
                v@.subrange(lo as int, hi as int),
                set@,
            ),
        decreases j - lo,
    {
        assert(v@.subrange(lo as int, j as int).drop_last() =~= v@.subrange(lo as int, j - 1));
        j -= 1;
    }
    assert(j > lo ==> v@.subrange(lo as int, j as int).last() == v@[j - 1]);
    j
}

/// The start of `v[lo..hi]` once leading white space is dropped.
pub fn skip_leading_ws(v: &Vec<char>, lo: usize, hi: usize) -> (r: usize)
    requires
        lo <= hi <= v.len(),
    ensures
        lo <= r <= hi,
        v@.subrange(r as int, hi as int) == strip_start_ws(v@.subrange(lo as int, hi as int)),
{
    let mut i: usize = lo;
    while i < hi && char_is_whitespace(v[i])
        invariant
            lo <= i <= hi <= v.len(),
            strip_start_ws(v@.subrange(i as int, hi as int)) == strip_start_ws(
                v@.subrange(lo as int, hi as int),
            ),
        decreases hi - i,
    {
        assert(v@.subrange(i as int, hi as int).drop_first() =~= v@.subrange(i + 1, hi as int));
        i += 1;
    }
    assert(i < hi ==> v@.subrange(i as int, hi as int)[0] == v@[i as int]);
    i
}

/// The end of `v[lo..hi]` once trailing white space is dropped.
pub fn skip_trailing_ws(v: &Vec<char>, lo: usize, hi: usize) -> (r: usize)
    requires
        lo <= hi <= v.len(),
    ensures
        lo <= r <= hi,
        v@.subrange(lo as int, r as int) == strip_end_ws(v@.subrange(lo as int, hi as int)),
{
    let mut j: usize = hi;
    while j > lo && char_is_whitespace(v[j - 1])
        invariant
            lo <= j <= hi <= v.len(),
            strip_end_ws(v@.subrange(lo as int, j as int)) == strip_end_ws(
                v@.subrange(lo as int, hi as int),
            ),
        decreases j - lo,
    {
        assert(v@.subrange(lo as int, j as int).drop_last() =~= v@.subrange(lo as int, j - 1));
        j -= 1;
    }
    j
}

/// The bounds of `v[lo..hi]` once white space is dropped at both ends.
pub fn trim_range(v: &Vec<char>, lo: usize, hi: usize) -> (r: (usize, usize))
    requires
        lo <= hi <= v.len(),
    ensures
        lo <= r.0 <= r.1 <= hi,
        v@.subrange(r.0 as int, r.1 as int) == trimmed(v@.subrange(lo as int, hi as int)),
{
    let a = skip_leading_ws(v, lo, hi);
    let b = skip_trailing_ws(v, a, hi);
    (a, b)
}

/// `s` without leading and trailing white space.
pub fn trim(s: &str) -> (out: String)
    ensures
        out@ == trimmed(s@),
{
    let v = chars_of(s);
    let (a, b) = trim_range(&v, 0, v.len());
    assert(v@.subrange(0, v.len() as int) == v@);
    string_of_range(&v, a, b)
}

/// The ASCII lower-case form of `c`; other scalar values are kept.
pub open spec fn ascii_lower(c: char) -> char {
    if 'A' <= c && c <= 'Z' {
        ((c as u32) + 32) as char
    } else {
        c
    }
}

/// ASCII lower-casing of one scalar value.
pub fn to_ascii_lower(c: char) -> (r: char)
    ensures
        r == ascii_lower(c),
{
    if 'A' <= c && c <= 'Z' {
        let x: u32 = c as u32 + 32;
        match char_from_u32(x) {
            Some(r) => r,
            None => c,
        }
    } else {
        c
    }
}

/// `s` with every ASCII capital replaced by its small letter.
pub open spec fn ascii_lowercase(s: Seq<char>) -> Seq<char> {
    s.map_values(|c: char| ascii_lower(c))
}

/// Whether two strings are equal once ASCII capitals are folded to small letters.
pub open spec fn eq_ignoring_ascii_case(a: Seq<char>, b: Seq<char>) -> bool {
    ascii_lowercase(a) == ascii_lowercase(b)
}

/// ASCII lower-casing of `v[lo..hi]`.
pub fn ascii_lowercase_range(v: &Vec<char>, lo: usize, hi: usize) -> (out: Vec<char>)
    requires
        lo <= hi <= v.len(),
    ensures
        out@ == ascii_lowercase(v@.subrange(lo as int, hi as int)),
{
    let mut out: Vec<char> = Vec::new();
    let mut i: usize = lo;
    while i < hi
        invariant
            lo <= i <= hi <= v.len(),
            out@ == ascii_lowercase(v@.subrange(lo as int, i as int)),
        decreases hi - i,
    {
        out.push(to_ascii_lower(v[i]));
        assert(out@ =~= ascii_lowercase(v@.subrange(lo as int, i + 1)));
        i += 1;
    }
    out
}

/// Case-insensitive comparison in the ASCII range, as `str::eq_ignore_ascii_case` does it.
pub fn eq_ignore_ascii_case(a: &Vec<char>, b: &Vec<char>) -> (r: bool)
    ensures
        r == eq_ignoring_ascii_case(a@, b@),
{
    if a.len() != b.len() {
        assert(ascii_lowercase(a@).len() != ascii_lowercase(b@).len());
        return false;
    }
    let mut i: usize = 0;
    while i < a.len()
        invariant
            a.len() == b.len(),
            i <= a.len(),
            forall|k: int| 0 <= k < i ==> ascii_lower(a@[k]) == ascii_lower(b@[k]),
        decreases a.len() - i,
    {
        if to_ascii_lower(a[i]) != to_ascii_lower(b[i]) {
            assert(ascii_lowercase(a@)[i as int] != ascii_lowercase(b@)[i as int]);
            return false;
        }
        i += 1;
    }
    assert(ascii_lowercase(a@) =~= ascii_lowercase(b@));
    true
}

/// The banner that precedes every message a dev instance sends.
pub open spec fn dev_banner() -> Seq<char> {
    "=======DEV MODE=======\n"@
}

/// `text`, behind the dev banner when the instance runs in dev mode.
pub open spec fn decorated(text: Seq<char>, dev_active: bool) -> Seq<char> {
    if dev_active {
        dev_banner() + text
    } else {
        text
    }
}

/// Marks outgoing text as coming from a dev instance.
pub fn decorate_dev(text: &str, dev_active: bool) -> (out: String)
    ensures
        out@ == decorated(text@, dev_active),
{
    if dev_active {
        "=======DEV MODE=======\n".to_owned().concat(text)
    } else {
        text.to_owned()
    }
}

/// First code point of the bold capitals in the Mathematical Alphanumeric Symbols block.
pub const BOLD_UPPER_A: u32 = 0x1D400;

/// First code point of the bold small letters.
pub const BOLD_LOWER_A: u32 = 0x1D41A;

/// First code point of the bold digits.
pub const BOLD_DIGIT_0: u32 = 0x1D7CE;

/// The bold mathematical form of an ASCII letter or digit; anything else is kept.
pub open spec fn bold_char(c: char) -> char {
    if 'A' <= c && c <= 'Z' {
        (BOLD_UPPER_A + (c as u32 - 'A' as u32)) as char
    } else if 'a' <= c && c <= 'z' {
        (BOLD_LOWER_A + (c as u32 - 'a' as u32)) as char
    } else if '0' <= c && c <= '9' {
        (BOLD_DIGIT_0 + (c as u32 - '0' as u32)) as char
    } else {
        c
    }
}

/// `s` with every ASCII letter and digit in bold.
pub open spec fn bold(s: Seq<char>) -> Seq<char> {
    s.map_values(|c: char| bold_char(c))
}

/// Bold form of one scalar value.
pub fn to_bold_char(c: char) -> (r: char)
    ensures
        r == bold_char(c),
{
    let x: u32 = if 'A' <= c && c <= 'Z' {
        BOLD_UPPER_A + (c as u32 - 'A' as u32)
    } else if 'a' <= c && c <= 'z' {
        BOLD_LOWER_A + (c as u32 - 'a' as u32)
    } else if '0' <= c && c <= '9' {
        BOLD_DIGIT_0 + (c as u32 - '0' as u32)
    } else {
        return c;
    };
    match char_from_u32(x) {
        Some(r) => r,
        None => c,
    }
}

/// Renders a display name in bold mathematical letters and digits.
pub fn to_bold(s: &str) -> (out: String)
    ensures
        out@ == bold(s@),
{
    let v = chars_of(s);
    let mut out = String::new();
    let mut i: usize = 0;
    while i < v.len()
        invariant
            i <= v.len(),
            out@ == bold(v@.take(i as int)),
        decreases v.len() - i,
    {
        push_char(&mut out, to_bold_char(v[i]));
        assert(out@ =~= bold(v@.take(i + 1)));
        i += 1;
    }
    assert(v@.take(v.len() as int) == v@);
    out
}

} // verus!
