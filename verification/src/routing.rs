//! Dev/prod routing: which instance a command or mention token addresses.
//!
//! A token is `<sigil><name>` or `<sigil><tag>.<name>`. Untagged tokens belong
//! to the production instance; a tagged token belongs to the dev instance whose
//! dev id equals the tag, ASCII case aside.

use crate::strings::opt_str_view;
use crate::text::{
    chars_of, eq_ignore_ascii_case, eq_ignoring_ascii_case, extend_range,
    find_char, index_of_from, lemma_index_of_from, string_of,
};
use vstd::prelude::*;

verus! {

/// The sigil that opens a command token.
pub const COMMAND_SIGIL: char = '!';

/// The sigil that opens a mention token.
pub const MENTION_SIGIL: char = '@';

/// Whom a token addresses, seen from this instance.
#[derive(Clone, Copy, Debug, PartialEq, Eq, Structural)]
pub enum DevRouting {
    /// Untagged: meant for the production instance.
    Prod,
    /// Tagged with this instance's own dev id.
    Dev,
    /// Tagged with some other dev id, or malformed.
    OtherDev,
}

/// Why a matched capability does or does not run.
#[derive(Clone, Copy, Debug, PartialEq, Eq, Structural)]
pub enum GateVerdict {
    /// The capability runs.
    Execute,
    /// The token addresses another dev instance.
    OtherDev,
    /// A dev-tagged token reached the production instance.
    DevInProd,
    /// An untagged token reached a dev instance.
    ProdInDev,
    /// The capability is dev-only and this is the production instance.
    DevOnlyInProd,
    /// The capability is disabled.
    Disabled,
}

/// Whether `token` opens with `sigil` and has a `.` somewhere after it.
pub open spec fn is_tagged(token: Seq<char>, sigil: char) -> bool {
    token.len() > 0 && token[0] == sigil && token.skip(1).contains('.')
}

/// The text between the sigil and the first `.` of a tagged token.
pub open spec fn tag_of(token: Seq<char>) -> Seq<char> {
    token.skip(1).take(index_of_from(token.skip(1), '.', 0))
}

/// The text after the first `.` of a tagged token.
pub open spec fn remainder_of(token: Seq<char>) -> Seq<char> {
    token.skip(1).skip(index_of_from(token.skip(1), '.', 0) + 1)
}

/// Whether `tag` names the instance whose dev id is `dev_id`.
pub open spec fn tag_matches(dev_id: Option<Seq<char>>, tag: Seq<char>) -> bool {
    dev_id is Some && eq_ignoring_ascii_case(dev_id->0, tag)
}

/// The routing class of `token` for an instance with the given dev id.
pub open spec fn routing_of(token: Seq<char>, sigil: char, dev_id: Option<Seq<char>>) -> DevRouting {
    if !is_tagged(token, sigil) {
        DevRouting::Prod
    } else if remainder_of(token).len() == 0 {
        DevRouting::OtherDev
    } else if tag_matches(dev_id, tag_of(token)) {
        DevRouting::Dev
    } else {
        DevRouting::OtherDev
    }
}

/// The token under which the registry is asked: a well-formed tagged token
/// loses its tag, every other token is kept as it is.
pub open spec fn normalized_token(token: Seq<char>, sigil: char) -> Seq<char> {
    if is_tagged(token, sigil) && remainder_of(token).len() > 0 {
        seq![sigil] + remainder_of(token)
    } else {
        token
    }
}

/// Classifies `token` and strips its tag.
pub fn classify_chars(token: &Vec<char>, sigil: char, dev_id: Option<&Vec<char>>) -> (r: (
    Vec<char>,
    DevRouting,
))
    ensures
        r.0@ == normalized_token(token@, sigil),
        r.1 == routing_of(
            token@,
            sigil,
            match dev_id {
                Some(d) => Some(d@),
                None => None,
            },
        ),
{
    let n = token.len();
    if n == 0 || token[0] != sigil {
        return (token.clone(), DevRouting::Prod);
    }
    let dot = find_char(token, 1, n, '.');
    let ghost rest = token@.skip(1);
    proof {
        assert(token@.subrange(1, n as int) =~= rest);
        lemma_index_of_from(rest, '.', 0);
    }
    if dot == n {
        proof {
            assert forall|k: int| 0 <= k < rest.len() implies rest[k] != '.' by {
                assert(rest[k] == token@[k + 1]);
            }
        }
        return (token.clone(), DevRouting::Prod);
    }
    proof {
        assert(rest[dot - 1] == token@[dot as int]);
        assert(rest.contains('.'));
        assert(remainder_of(token@) =~= token@.subrange(dot + 1, n as int));
        assert(tag_of(token@) =~= token@.subrange(1, dot as int));
    }
    if dot + 1 == n {
        return (token.clone(), DevRouting::OtherDev);
    }
    let mut normalized: Vec<char> = Vec::new();
    normalized.push(sigil);
    extend_range(&mut normalized, token, dot + 1, n);
    assert(normalized@ =~= seq![sigil] + remainder_of(token@));
    let routing = match dev_id {
        Some(expected) => {
            let mut tag: Vec<char> = Vec::new();
            extend_range(&mut tag, token, 1, dot);
            assert(tag@ =~= tag_of(token@));
            if eq_ignore_ascii_case(expected, &tag) {
                DevRouting::Dev
            } else {
                DevRouting::OtherDev
            }
        },
        None => DevRouting::OtherDev,
    };
    (normalized, routing)
}

/// Classifies a token that opens with `sigil`.
pub fn classify_token(token: &str, sigil: char, dev_id: Option<&str>) -> (r: (String, DevRouting))
    ensures
        r.0@ == normalized_token(token@, sigil),
        r.1 == routing_of(token@, sigil, opt_str_view(dev_id)),
{
    let chars = chars_of(token);
    let (normalized, routing) = match dev_id {
        Some(d) => {
            let dv = chars_of(d);
            classify_chars(&chars, sigil, Some(&dv))
        },
        None => classify_chars(&chars, sigil, None),
    };
    (string_of(&normalized), routing)
}

/// Classifies a command token (`!name` or `!tag.name`).
pub fn classify_command_token(cmd: &str, dev_id: Option<&str>) -> (r: (String, DevRouting))
    ensures
        r.0@ == normalized_token(cmd@, COMMAND_SIGIL),
        r.1 == routing_of(cmd@, COMMAND_SIGIL, opt_str_view(dev_id)),
{
    classify_token(cmd, COMMAND_SIGIL, dev_id)
}

/// Classifies a mention token (`@name` or `@tag.name`).
pub fn classify_mention_token(token: &str, dev_id: Option<&str>) -> (r: (String, DevRouting))
    ensures
        r.0@ == normalized_token(token@, MENTION_SIGIL),
        r.1 == routing_of(token@, MENTION_SIGIL, opt_str_view(dev_id)),
{
    classify_token(token, MENTION_SIGIL, dev_id)
}

/// The sigil that `token` opens with, if it is one of the two routing sigils.
pub open spec fn sigil_of(token: Seq<char>) -> char {
    if token.len() > 0 && token[0] == MENTION_SIGIL {
        MENTION_SIGIL
    } else {
        COMMAND_SIGIL
    }
}

/// The routing class of a command or mention token for this instance.
///
/// The class depends on the token and on the instance's dev id only; whether
/// the instance runs in dev mode decides, in [`gate`], what a class permits.
pub fn classify(token: &str, self_dev_id: Option<&str>, _self_is_dev: bool) -> (r: DevRouting)
    ensures
        r == routing_of(token@, sigil_of(token@), opt_str_view(self_dev_id)),
{
    let chars = chars_of(token);
    let sigil = if chars.len() > 0 && chars[0] == MENTION_SIGIL {
        MENTION_SIGIL
    } else {
        COMMAND_SIGIL
    };
    let dv = match self_dev_id {
        Some(d) => Some(chars_of(d)),
        None => None,
    };
    let (_, routing) = classify_chars(&chars, sigil, dv.as_ref());
    routing
}

/// The verdict on a matched capability, the first failed condition winning.
pub open spec fn verdict_of(routing: DevRouting, dev_active: bool, dev_only: bool, enabled: bool)
    -> GateVerdict {
    if routing == DevRouting::OtherDev {
        GateVerdict::OtherDev
    } else if routing == DevRouting::Dev && !dev_active {
        GateVerdict::DevInProd
    } else if routing == DevRouting::Prod && dev_active {
        GateVerdict::ProdInDev
    } else if dev_only && !dev_active {
        GateVerdict::DevOnlyInProd
    } else if !enabled {
        GateVerdict::Disabled
    } else {
        GateVerdict::Execute
    }
}

/// Whether a matched capability runs.
pub open spec fn gate_passes(routing: DevRouting, dev_active: bool, dev_only: bool, enabled: bool)
    -> bool {
    verdict_of(routing, dev_active, dev_only, enabled) == GateVerdict::Execute
}

/// Decides whether a matched capability runs on this instance, and if not, why.
pub fn gate(routing: DevRouting, dev_active: bool, dev_only: bool, enabled: bool) -> (v:
    GateVerdict)
    ensures
        v == verdict_of(routing, dev_active, dev_only, enabled),
{
    match routing {
        DevRouting::OtherDev => GateVerdict::OtherDev,
        DevRouting::Dev => {
            if !dev_active {
                GateVerdict::DevInProd
            } else if !enabled {
                GateVerdict::Disabled
            } else {
                GateVerdict::Execute
            }
        },
        DevRouting::Prod => {
            if dev_active {
                GateVerdict::ProdInDev
            } else if dev_only {
                GateVerdict::DevOnlyInProd
            } else if !enabled {
                GateVerdict::Disabled
            } else {
                GateVerdict::Execute
            }
        },
    }
}

/// A capability runs exactly when the token is for this instance's mode, the
/// capability is enabled, and it is not a dev-only capability on production.
pub proof fn lemma_gate_conditions(
    routing: DevRouting,
    dev_active: bool,
    dev_only: bool,
    enabled: bool,
)
    ensures
        gate_passes(routing, dev_active, dev_only, enabled) <==> {
            &&& routing != DevRouting::OtherDev
            &&& (routing == DevRouting::Dev) == dev_active
            &&& (dev_only ==> dev_active)
            &&& enabled
        },
{
}

/// An untagged token, one with no `.` after its first character, is `Prod`
/// whatever the instance's dev id is.
pub proof fn lemma_untagged_is_prod(token: Seq<char>, sigil: char, dev_id: Option<Seq<char>>)
    requires
        !token.skip(1).contains('.'),
    ensures
        routing_of(token, sigil, dev_id) == DevRouting::Prod,
        normalized_token(token, sigil) == token,
{
}

/// A token `<sigil><tag>.<rest>` with a non-empty `rest` is `Dev` exactly when
/// `tag` equals the instance's dev id, ASCII case aside, and `OtherDev`
/// otherwise; the registry is asked for `<sigil><rest>`. The tag is the text
/// before the first `.`, so it holds none itself.
pub proof fn lemma_tagged_routing(
    tag: Seq<char>,
    rest: Seq<char>,
    sigil: char,
    dev_id: Option<Seq<char>>,
)
    requires
        !tag.contains('.'),
        rest.len() > 0,
    ensures
        routing_of(seq![sigil] + tag + seq!['.'] + rest, sigil, dev_id) == (if tag_matches(
            dev_id,
            tag,
        ) {
            DevRouting::Dev
        } else {
            DevRouting::OtherDev
        }),
        normalized_token(seq![sigil] + tag + seq!['.'] + rest, sigil) == seq![sigil] + rest,
{
    let token = seq![sigil] + tag + seq!['.'] + rest;
    lemma_split_at_first_dot(tag, rest, sigil);
}

/// A token `<sigil><tag>.` with nothing after the separator is `OtherDev`
/// for every instance, and is never rewritten.
pub proof fn lemma_empty_remainder_is_other_dev(
    tag: Seq<char>,
    sigil: char,
    dev_id: Option<Seq<char>>,
)
    requires
        !tag.contains('.'),
    ensures
        routing_of(seq![sigil] + tag + seq!['.'], sigil, dev_id) == DevRouting::OtherDev,
        normalized_token(seq![sigil] + tag + seq!['.'], sigil) == seq![sigil] + tag + seq!['.'],
{
    lemma_split_at_first_dot(tag, Seq::empty(), sigil);
    assert(seq![sigil] + tag + seq!['.'] + Seq::<char>::empty() =~= seq![sigil] + tag + seq!['.']);
}

/// How `<sigil><tag>.<rest>` splits when `tag` holds no `.`.
pub proof fn lemma_split_at_first_dot(tag: Seq<char>, rest: Seq<char>, sigil: char)
    requires
        !tag.contains('.'),
    ensures
        is_tagged(seq![sigil] + tag + seq!['.'] + rest, sigil),
        tag_of(seq![sigil] + tag + seq!['.'] + rest) == tag,
        remainder_of(seq![sigil] + tag + seq!['.'] + rest) == rest,
{
    let token = seq![sigil] + tag + seq!['.'] + rest;
    let body = token.skip(1);
    assert(body =~= tag + seq!['.'] + rest);
    assert(body[tag.len() as int] == '.');
    lemma_index_of_from(body, '.', 0);
    let dot = index_of_from(body, '.', 0);
    if dot < tag.len() {
        assert(body[dot] == tag[dot]);
        assert(tag.contains('.'));
    }
    assert(dot == tag.len());
    assert(body.take(dot) =~= tag);
    assert(body.skip(dot + 1) =~= rest);
}

} // verus!
