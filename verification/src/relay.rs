//! The relay fan-out planner: from clusters of room references to a map from
//! each room to the rooms its messages are forwarded to, with the delivery
//! options of each room.
//!
//! Aliases are resolved by the messaging service, which this library does not
//! reach. The caller asks [`pending_aliases`] which aliases need an answer,
//! obtains the answers, and hands them to [`resolve_relay_map`].

use crate::assoc::{lemma_mapped, lookup, mapped, upsert, Pairs, TextMap};
use crate::relay_laws::{lemma_planned_adjacency, peers_unique};
use crate::strings::{clone_strings, contains_string, strings_view};
use crate::text::{chars_of, str_eq};
use vstd::prelude::*;
use vstd::utf8::encode_utf8;

verus! {

/// The longest identifier the messaging protocol admits, in bytes.
pub const ID_MAX_BYTES: usize = 255;

/// Whether `s` is no longer than an identifier may be.
pub open spec fn within_id_limit(s: Seq<char>) -> bool {
    encode_utf8(s).len() <= ID_MAX_BYTES
}

/// Whether `s` is a room id: at most 255 bytes of UTF-8, a leading `!`, no NUL.
pub open spec fn is_room_id(s: Seq<char>) -> bool {
    &&& within_id_limit(s)
    &&& s.len() > 0
    &&& s[0] == '!'
    &&& !s.contains('\0')
}

/// Whether `ruma::RoomAliasId::parse` finds the grammar of a room alias in
/// `s`, a text of at most 255 bytes.
pub uninterp spec fn has_alias_grammar(s: Seq<char>) -> bool;

/// Whether `s` is a well-formed room alias: at most 255 bytes, in the
/// grammar of an alias.
pub open spec fn is_room_alias(s: Seq<char>) -> bool {
    within_id_limit(s) && has_alias_grammar(s)
}

/// Trusted: `ruma::RoomId::parse`. Of a text of at most 255 bytes it accepts
/// exactly those that open with `!` and hold no NUL. Whether it accepts a
/// longer one depends on how the crate was built, so nothing is claimed
/// there.
#[verifier::external_body]
pub(crate) fn parses_as_room_id(s: &str) -> (ok: bool)
    ensures
        within_id_limit(s@) ==> ok == is_room_id(s@),
{
    ruma::RoomId::parse(s).is_ok()
}

/// Trusted: `ruma::RoomAliasId::parse`. Its verdict on a text of at most
/// 255 bytes rests on the grammar of server names, so it is named rather
/// than described. Whether it accepts a longer one depends on how the crate
/// was built, so nothing is claimed there.
#[verifier::external_body]
pub(crate) fn parses_as_room_alias(s: &str) -> (ok: bool)
    ensures
        within_id_limit(s@) ==> ok == has_alias_grammar(s@),
{
    ruma::RoomAliasId::parse(s).is_ok()
}

/// What a configured room reference is.
#[derive(Clone, Copy, Debug, PartialEq, Eq, Structural)]
pub enum RoomRefKind {
    /// A room id; it stands for itself.
    Id,
    /// A well-formed alias; the messaging service resolves it.
    Alias,
    /// It opens with `#` but is no well-formed alias.
    BadAlias,
    /// Neither a room id nor an alias.
    Invalid,
}

/// The kind of the room reference `s`.
pub open spec fn ref_kind(s: Seq<char>) -> RoomRefKind {
    if is_room_id(s) {
        RoomRefKind::Id
    } else if s.len() > 0 && s[0] == '#' {
        if is_room_alias(s) {
            RoomRefKind::Alias
        } else {
            RoomRefKind::BadAlias
        }
    } else {
        RoomRefKind::Invalid
    }
}

/// Classifies a configured room reference.
pub fn classify_room_ref(s: &str) -> (k: RoomRefKind)
    ensures
        k == ref_kind(s@),
{
    let short = s.as_bytes().len() <= ID_MAX_BYTES;
    assert(short == within_id_limit(s@));
    if short && parses_as_room_id(s) {
        return RoomRefKind::Id;
    }
    let v = chars_of(s);
    if v.len() > 0 && v[0] == '#' {
        if short && parses_as_room_alias(s) {
            RoomRefKind::Alias
        } else {
            RoomRefKind::BadAlias
        }
    } else {
        RoomRefKind::Invalid
    }
}

/// A set of rooms that mirror each other, with optional delivery options.
#[derive(Debug, PartialEq, Eq)]
pub struct RelayCluster {
    pub rooms: Vec<String>,
    pub reupload_media: Option<bool>,
    pub caption_media: Option<bool>,
}

/// The relay configuration: clusters and the defaults of the two options.
#[derive(Debug, PartialEq, Eq)]
pub struct RelayConfig {
    pub clusters: Vec<RelayCluster>,
    pub reupload_media: Option<bool>,
    pub caption_media: Option<bool>,
}

/// How messages are delivered to the peers of a room.
#[derive(Clone, Copy, Debug, PartialEq, Eq, Structural)]
pub struct RelayOptions {
    /// Download media and upload it anew rather than forwarding the event.
    pub reupload_media: bool,
    /// Follow forwarded media with a line that names the sender.
    pub caption_media: bool,
}

/// The mathematical content of a [`RelayCluster`].
pub ghost struct ClusterView {
    pub rooms: Seq<Seq<char>>,
    pub reupload_media: Option<bool>,
    pub caption_media: Option<bool>,
}

/// The mathematical content of a [`RelayConfig`].
pub ghost struct ConfigView {
    pub clusters: Seq<ClusterView>,
    pub reupload_media: Option<bool>,
    pub caption_media: Option<bool>,
}

impl View for RelayCluster {
    type V = ClusterView;

    open spec fn view(&self) -> ClusterView {
        ClusterView {
            rooms: strings_view(self.rooms@),
            reupload_media: self.reupload_media,
            caption_media: self.caption_media,
        }
    }
}

impl View for RelayConfig {
    type V = ConfigView;

    open spec fn view(&self) -> ConfigView {
        ConfigView {
            clusters: Seq::new(self.clusters@.len(), |i: int| self.clusters@[i]@),
            reupload_media: self.reupload_media,
            caption_media: self.caption_media,
        }
    }
}

impl RelayCluster {
    /// A cluster of `rooms` that takes its options from the configuration.
    pub fn of_rooms(rooms: Vec<String>) -> (c: RelayCluster)
        ensures
            c@ == (ClusterView {
                rooms: strings_view(rooms@),
                reupload_media: None,
                caption_media: None,
            }),
    {
        RelayCluster { rooms, reupload_media: None, caption_media: None }
    }
}

impl RelayConfig {
    /// A configuration without clusters.
    pub fn empty() -> (c: RelayConfig)
        ensures
            c@.clusters.len() == 0,
            c@.reupload_media is None,
            c@.caption_media is None,
    {
        RelayConfig { clusters: Vec::new(), reupload_media: None, caption_media: None }
    }
}

/// The option in force: the cluster's, else the configuration's, else on.
pub open spec fn effective(cluster: Option<bool>, global: Option<bool>) -> bool {
    match cluster {
        Some(b) => b,
        None => match global {
            Some(b) => b,
            None => true,
        },
    }
}

/// Resolves one option: see [`effective`].
pub fn effective_option(cluster: Option<bool>, global: Option<bool>) -> (b: bool)
    ensures
        b == effective(cluster, global),
{
    match cluster {
        Some(b) => b,
        None => match global {
            Some(b) => b,
            None => true,
        },
    }
}

/// The options of a cluster within a configuration.
pub open spec fn cluster_options(cfg: ConfigView, cluster: ClusterView) -> RelayOptions {
    RelayOptions {
        reupload_media: effective(cluster.reupload_media, cfg.reupload_media),
        caption_media: effective(cluster.caption_media, cfg.caption_media),
    }
}

/// How many of the first `n` references of `rooms` are aliases to resolve.
pub open spec fn alias_count(rooms: Seq<Seq<char>>, n: int) -> int
    decreases n,
{
    if n <= 0 || n > rooms.len() {
        0
    } else {
        alias_count(rooms, n - 1) + if ref_kind(rooms[n - 1]) == RoomRefKind::Alias {
            1int
        } else {
            0int
        }
    }
}

/// How many aliases the first `k` clusters hold.
pub open spec fn aliases_before(clusters: Seq<ClusterView>, k: int) -> int
    decreases k,
{
    if k <= 0 || k > clusters.len() {
        0
    } else {
        aliases_before(clusters, k - 1) + alias_count(
            clusters[k - 1].rooms,
            clusters[k - 1].rooms.len() as int,
        )
    }
}

/// The aliases among the first `n` references of `rooms`, in order.
pub open spec fn aliases_in(rooms: Seq<Seq<char>>, n: int) -> Seq<Seq<char>>
    decreases n,
{
    if n <= 0 || n > rooms.len() {
        Seq::empty()
    } else if ref_kind(rooms[n - 1]) == RoomRefKind::Alias {
        aliases_in(rooms, n - 1).push(rooms[n - 1])
    } else {
        aliases_in(rooms, n - 1)
    }
}

/// The aliases of the first `k` clusters, in order, one per occurrence.
pub open spec fn pending(clusters: Seq<ClusterView>, k: int) -> Seq<Seq<char>>
    decreases k,
{
    if k <= 0 || k > clusters.len() {
        Seq::empty()
    } else {
        pending(clusters, k - 1) + aliases_in(
            clusters[k - 1].rooms,
            clusters[k - 1].rooms.len() as int,
        )
    }
}

/// The answer at position `k`; a missing answer counts as "unresolved".
pub open spec fn answer_at(answers: Seq<Option<Seq<char>>>, k: int) -> Option<Seq<char>> {
    if 0 <= k < answers.len() {
        answers[k]
    } else {
        None
    }
}

/// The rooms that the first `n` references of `rooms` resolve to, in order.
/// A room id resolves to itself, an alias to its answer if it has one, and
/// every other reference to nothing. `base` is the position of the answer to
/// the first alias of `rooms`.
pub open spec fn resolved_rooms(
    rooms: Seq<Seq<char>>,
    answers: Seq<Option<Seq<char>>>,
    base: int,
    n: int,
) -> Seq<Seq<char>>
    decreases n,
{
    if n <= 0 || n > rooms.len() {
        Seq::empty()
    } else {
        let before = resolved_rooms(rooms, answers, base, n - 1);
        match ref_kind(rooms[n - 1]) {
            RoomRefKind::Id => before.push(rooms[n - 1]),
            RoomRefKind::Alias => match answer_at(answers, base + alias_count(rooms, n - 1)) {
                Some(id) => before.push(id),
                None => before,
            },
            _ => before,
        }
    }
}

/// `peers` followed by those of the first `n` rooms of `cluster` that are
/// neither `room` itself nor listed already.
pub open spec fn add_peers(
    peers: Seq<Seq<char>>,
    cluster: Seq<Seq<char>>,
    room: Seq<char>,
    n: int,
) -> Seq<Seq<char>>
    decreases n,
{
    if n <= 0 || n > cluster.len() {
        peers
    } else {
        let before = add_peers(peers, cluster, room, n - 1);
        if cluster[n - 1] == room || before.contains(cluster[n - 1]) {
            before
        } else {
            before.push(cluster[n - 1])
        }
    }
}

/// The peers of `room` in `adj`; a room that is not listed has none.
pub open spec fn peers_of(adj: Pairs<Seq<Seq<char>>>, room: Seq<char>) -> Seq<Seq<char>> {
    match lookup(adj, room) {
        Some(list) => list,
        None => Seq::empty(),
    }
}

/// `adj` once each of the first `n` rooms of `cluster` has every other room
/// of the cluster among its peers.
pub open spec fn link_cluster(adj: Pairs<Seq<Seq<char>>>, cluster: Seq<Seq<char>>, n: int) -> Pairs<
    Seq<Seq<char>>,
>
    decreases n,
{
    if n <= 0 || n > cluster.len() {
        adj
    } else {
        let before = link_cluster(adj, cluster, n - 1);
        upsert(
            before,
            cluster[n - 1],
            add_peers(peers_of(before, cluster[n - 1]), cluster, cluster[n - 1], cluster.len() as int),
        )
    }
}

/// `opts` once each of the first `n` rooms of `cluster` carries `options`.
pub open spec fn mark_cluster(
    opts: Pairs<RelayOptions>,
    cluster: Seq<Seq<char>>,
    options: RelayOptions,
    n: int,
) -> Pairs<RelayOptions>
    decreases n,
{
    if n <= 0 || n > cluster.len() {
        opts
    } else {
        upsert(mark_cluster(opts, cluster, options, n - 1), cluster[n - 1], options)
    }
}

/// The resolved rooms of cluster `k` of `cfg`.
pub open spec fn resolved_cluster(cfg: ConfigView, answers: Seq<Option<Seq<char>>>, k: int) -> Seq<
    Seq<char>,
> {
    resolved_rooms(
        cfg.clusters[k].rooms,
        answers,
        aliases_before(cfg.clusters, k),
        cfg.clusters[k].rooms.len() as int,
    )
}

/// The adjacency after the first `k` clusters of `cfg`.
pub open spec fn planned_adjacency(cfg: ConfigView, answers: Seq<Option<Seq<char>>>, k: int) -> Pairs<
    Seq<Seq<char>>,
>
    decreases k,
{
    if k <= 0 || k > cfg.clusters.len() {
        Seq::empty()
    } else {
        let cluster = resolved_cluster(cfg, answers, k - 1);
        link_cluster(planned_adjacency(cfg, answers, k - 1), cluster, cluster.len() as int)
    }
}

/// The per-room options after the first `k` clusters of `cfg`: a later
/// cluster overwrites what an earlier one recorded for a room.
pub open spec fn planned_options(cfg: ConfigView, answers: Seq<Option<Seq<char>>>, k: int) -> Pairs<
    RelayOptions,
>
    decreases k,
{
    if k <= 0 || k > cfg.clusters.len() {
        Seq::empty()
    } else {
        let cluster = resolved_cluster(cfg, answers, k - 1);
        mark_cluster(
            planned_options(cfg, answers, k - 1),
            cluster,
            cluster_options(cfg, cfg.clusters[k - 1]),
            cluster.len() as int,
        )
    }
}

/// The views of a list of optional strings.
pub open spec fn answers_view(answers: Seq<Option<String>>) -> Seq<Option<Seq<char>>> {
    Seq::new(
        answers.len(),
        |i: int|
            match answers[i] {
                Some(s) => Some(s@),
                None => None,
            },
    )
}

/// The view of a peer list.
pub open spec fn peer_views() -> spec_fn(Vec<String>) -> Seq<Seq<char>> {
    |v: Vec<String>| strings_view(v@)
}

/// The resolved fan-out: for each room its peers, and its delivery options.
pub struct RelayPlan {
    map: TextMap<Vec<String>>,
    opts: TextMap<RelayOptions>,
}

impl RelayPlan {
    /// Each room with the rooms its messages go to, in order of first appearance.
    pub closed spec fn adjacency(&self) -> Pairs<Seq<Seq<char>>> {
        mapped(self.map.pairs(), peer_views())
    }

    /// Each room with its delivery options.
    pub closed spec fn options(&self) -> Pairs<RelayOptions> {
        self.opts.pairs()
    }

    /// The invariant of a plan: no room is listed twice in either table.
    pub closed spec fn wf(&self) -> bool {
        self.map.wf() && self.opts.wf()
    }

    /// A plan without rooms.
    pub fn new() -> (p: RelayPlan)
        ensures
            p.wf(),
            p.adjacency() == Seq::<(Seq<char>, Seq<Seq<char>>)>::empty(),
            p.options() == Seq::<(Seq<char>, RelayOptions)>::empty(),
    {
        let p = RelayPlan { map: TextMap::new(), opts: TextMap::new() };
        assert(p.adjacency() =~= Seq::<(Seq<char>, Seq<Seq<char>>)>::empty());
        p
    }

    /// The number of rooms that have peers recorded.
    pub fn room_count(&self) -> (n: usize)
        ensures
            n == self.adjacency().len(),
    {
        self.map.len()
    }

    /// The rooms that messages of `source` are forwarded to.
    pub fn targets(&self, source: &str) -> (r: Option<Vec<String>>)
        requires
            self.wf(),
        ensures
            match r {
                Some(list) => lookup(self.adjacency(), source@) == Some(strings_view(list@)),
                None => lookup(self.adjacency(), source@) is None,
            },
    {
        proof {
            lemma_mapped(self.map.pairs(), peer_views(), source@);
        }
        match self.map.get(source) {
            Some(list) => Some(clone_strings(list)),
            None => None,
        }
    }

    /// The delivery options of `source`; both are on for a room without a record.
    pub fn options_for(&self, source: &str) -> (o: RelayOptions)
        requires
            self.wf(),
        ensures
            o == (match lookup(self.options(), source@) {
                Some(o) => o,
                None => RelayOptions { reupload_media: true, caption_media: true },
            }),
    {
        match self.opts.get(source) {
            Some(o) => *o,
            None => RelayOptions { reupload_media: true, caption_media: true },
        }
    }

    /// Gives every room of `cluster` the other rooms of `cluster` as peers
    /// and `options` as delivery options.
    pub fn link(&mut self, cluster: &Vec<String>, options: RelayOptions)
        requires
            old(self).wf(),
        ensures
            final(self).wf(),
            final(self).adjacency() == link_cluster(
                old(self).adjacency(),
                strings_view(cluster@),
                cluster@.len() as int,
            ),
            final(self).options() == mark_cluster(
                old(self).options(),
                strings_view(cluster@),
                options,
                cluster@.len() as int,
            ),
    {
        let ghost rooms = strings_view(cluster@);
        let ghost adj0 = self.adjacency();
        let ghost opts0 = self.options();
        let mut i: usize = 0;
        while i < cluster.len()
            invariant
                i <= cluster.len(),
                rooms == strings_view(cluster@),
                self.wf(),
                self.adjacency() == link_cluster(adj0, rooms, i as int),
                self.options() == mark_cluster(opts0, rooms, options, i as int),
            decreases cluster.len() - i,
        {
            let room = &cluster[i];
            assert(rooms[i as int] == room@);
            let ghost before = self.adjacency();
            proof {
                lemma_mapped(self.map.pairs(), peer_views(), room@);
            }
            let mut peers: Vec<String> = match self.map.get(room.as_str()) {
                Some(list) => clone_strings(list),
                None => {
                    let fresh: Vec<String> = Vec::new();
                    assert(strings_view(fresh@) =~= Seq::<Seq<char>>::empty());
                    fresh
                },
            };
            assert(strings_view(peers@) == peers_of(before, room@));
            let ghost start = strings_view(peers@);
            let mut j: usize = 0;
            while j < cluster.len()
                invariant
                    j <= cluster.len(),
                    i < cluster.len(),
                    room == &cluster[i as int],
                    rooms == strings_view(cluster@),
                    strings_view(peers@) == add_peers(start, rooms, room@, j as int),
                decreases cluster.len() - j,
            {
                let cand = &cluster[j];
                assert(rooms[j as int] == cand@);
                if !str_eq(cand.as_str(), room.as_str()) && !contains_string(&peers, cand.as_str()) {
                    let ghost old_view = strings_view(peers@);
                    peers.push(cand.clone());
                    assert(strings_view(peers@) =~= old_view.push(cand@));
                }
                j += 1;
            }
            let ghost new_peers = peers;
            let _ = self.map.insert(room.clone(), peers);
            proof {
                assert(peer_views()(new_peers) == strings_view(new_peers@));
            }
            let _ = self.opts.insert(room.clone(), options);
            i += 1;
        }
    }
}

/// A position among the answers, capped at the largest index a list can have:
/// whatever lies beyond that has no answer either way.
pub open spec fn capped(k: int) -> int {
    if k < usize::MAX {
        k
    } else {
        usize::MAX as int
    }
}

/// Resolves the references of one cluster: see [`resolved_rooms`]. `cursor`
/// is the capped position of the answer to the cluster's first alias; the
/// second result is the capped position after its last.
pub(crate) fn resolve_cluster(
    rooms: &Vec<String>,
    answers: &Vec<Option<String>>,
    cursor: usize,
    Ghost(base): Ghost<int>,
) -> (r: (Vec<String>, usize))
    requires
        0 <= base,
        cursor == capped(base),
    ensures
        strings_view(r.0@) == resolved_rooms(
            strings_view(rooms@),
            answers_view(answers@),
            base,
            rooms@.len() as int,
        ),
        r.1 == capped(base + alias_count(strings_view(rooms@), rooms@.len() as int)),
{
    let ghost refs = strings_view(rooms@);
    let ghost ans = answers_view(answers@);
    let mut out: Vec<String> = Vec::new();
    let mut cur: usize = cursor;
    let mut i: usize = 0;
    assert(strings_view(out@) =~= Seq::<Seq<char>>::empty());
    while i < rooms.len()
        invariant
            i <= rooms.len(),
            0 <= base,
            refs == strings_view(rooms@),
            ans == answers_view(answers@),
            0 <= alias_count(refs, i as int),
            cur == capped(base + alias_count(refs, i as int)),
            strings_view(out@) == resolved_rooms(refs, ans, base, i as int),
        decreases rooms.len() - i,
    {
        let room = &rooms[i];
        assert(refs[i as int] == room@);
        let ghost before = strings_view(out@);
        match classify_room_ref(room.as_str()) {
            RoomRefKind::Id => {
                out.push(room.clone());
                assert(strings_view(out@) =~= before.push(room@));
            },
            RoomRefKind::Alias => {
                let ghost at = base + alias_count(refs, i as int);
                if cur < answers.len() {
                    assert(ans[cur as int] == match answers@[cur as int] {
                        Some(s) => Some(s@),
                        None => None,
                    });
                    match &answers[cur] {
                        Some(id) => {
                            out.push(id.clone());
                            assert(strings_view(out@) =~= before.push(id@));
                        },
                        None => {},
                    }
                }
                assert(answer_at(ans, at) == answer_at(ans, cur as int));
                if cur < usize::MAX {
                    cur = cur + 1;
                }
            },
            _ => {},
        }
        i += 1;
    }
    (out, cur)
}

/// The aliases that need an answer before the plan can be built, one per
/// occurrence, in the order in which [`resolve_relay_map`] expects the answers.
pub fn pending_aliases(cfg: &RelayConfig) -> (out: Vec<String>)
    ensures
        strings_view(out@) == pending(cfg@.clusters, cfg@.clusters.len() as int),
{
    let mut out: Vec<String> = Vec::new();
    let mut k: usize = 0;
    assert(strings_view(out@) =~= Seq::<Seq<char>>::empty());
    while k < cfg.clusters.len()
        invariant
            k <= cfg.clusters.len(),
            strings_view(out@) == pending(cfg@.clusters, k as int),
        decreases cfg.clusters.len() - k,
    {
        let rooms = &cfg.clusters[k].rooms;
        let ghost refs = strings_view(rooms@);
        let ghost head = strings_view(out@);
        assert(cfg@.clusters[k as int].rooms == refs);
        let mut i: usize = 0;
        assert(head + aliases_in(refs, 0) =~= head);
        while i < rooms.len()
            invariant
                i <= rooms.len(),
                refs == strings_view(rooms@),
                strings_view(out@) == head + aliases_in(refs, i as int),
            decreases rooms.len() - i,
        {
            let room = &rooms[i];
            assert(refs[i as int] == room@);
            let ghost before = strings_view(out@);
            match classify_room_ref(room.as_str()) {
                RoomRefKind::Alias => {
                    out.push(room.clone());
                    assert(strings_view(out@) =~= before.push(room@));
                    assert(before.push(room@) =~= head + aliases_in(refs, i as int).push(room@));
                },
                _ => {},
            }
            i += 1;
        }
        k += 1;
    }
    out
}

/// Builds the relay plan of `cfg`. `answers` holds, for each alias that
/// [`pending_aliases`] lists, the room id it resolved to, or `None` where the
/// resolution failed; an alias without an answer counts as unresolved.
///
/// References that resolve to nothing are dropped; they do not fail the plan.
/// In the plan no room is its own peer, and no room is listed twice among
/// the peers of another.
pub fn resolve_relay_map(cfg: &RelayConfig, answers: &Vec<Option<String>>) -> (plan: RelayPlan)
    ensures
        plan.wf(),
        plan.adjacency() == planned_adjacency(
            cfg@,
            answers_view(answers@),
            cfg@.clusters.len() as int,
        ),
        plan.options() == planned_options(cfg@, answers_view(answers@), cfg@.clusters.len() as int),
        peers_unique(plan.adjacency()),
        forall|room: Seq<char>| !(#[trigger] peers_of(plan.adjacency(), room)).contains(room),
{
    let ghost ans = answers_view(answers@);
    proof {
        lemma_planned_adjacency(cfg@, ans, cfg@.clusters.len() as int);
    }
    let mut plan = RelayPlan::new();
    let mut cursor: usize = 0;
    let mut k: usize = 0;
    while k < cfg.clusters.len()
        invariant
            k <= cfg.clusters.len(),
            ans == answers_view(answers@),
            plan.wf(),
            0 <= aliases_before(cfg@.clusters, k as int),
            cursor == capped(aliases_before(cfg@.clusters, k as int)),
            plan.adjacency() == planned_adjacency(cfg@, ans, k as int),
            plan.options() == planned_options(cfg@, ans, k as int),
        decreases cfg.clusters.len() - k,
    {
        let cluster = &cfg.clusters[k];
        assert(cfg@.clusters[k as int] == cluster@);
        let ghost base = aliases_before(cfg@.clusters, k as int);
        proof {
            lemma_alias_count_nonnegative(cluster@.rooms, cluster@.rooms.len() as int);
        }
        let (resolved, next) = resolve_cluster(&cluster.rooms, answers, cursor, Ghost(base));
        let options = RelayOptions {
            reupload_media: effective_option(cluster.reupload_media, cfg.reupload_media),
            caption_media: effective_option(cluster.caption_media, cfg.caption_media),
        };
        assert(strings_view(resolved@) == resolved_cluster(cfg@, ans, k as int));
        plan.link(&resolved, options);
        cursor = next;
        k += 1;
    }
    plan
}

/// A count of aliases is never negative.
pub proof fn lemma_alias_count_nonnegative(rooms: Seq<Seq<char>>, n: int)
    ensures
        0 <= alias_count(rooms, n),
    decreases n,
{
    if 0 < n <= rooms.len() {
        lemma_alias_count_nonnegative(rooms, n - 1);
    }
}

/// The relay's memo: the plan, once it has been built.
pub struct Relay {
    plan: Option<RelayPlan>,
}

/// What has to happen before the relay can answer for a room.
#[derive(Debug, PartialEq, Eq)]
pub enum PlanNeed {
    /// The plan is built.
    Ready,
    /// There is nothing to build from: relaying is not configured.
    NotConfigured,
    /// The plan can be built once these aliases are resolved.
    Resolve(Vec<String>),
}

impl Relay {
    /// The plan, if it has been built.
    pub closed spec fn memo(&self) -> Option<RelayPlan> {
        self.plan
    }

    /// The invariant of the memo: a stored plan is well formed.
    pub closed spec fn wf(&self) -> bool {
        self.plan is Some ==> self.plan->0.wf()
    }

    /// A relay whose plan is not built yet.
    pub fn new() -> (r: Relay)
        ensures
            r.wf(),
            r.memo() is None,
    {
        Relay { plan: None }
    }

    /// The plan, if it has been built.
    pub fn plan(&self) -> (p: Option<&RelayPlan>)
        ensures
            match p {
                Some(plan) => self.memo() == Some(*plan),
                None => self.memo() is None,
            },
    {
        self.plan.as_ref()
    }

    /// Says what is needed before the plan can be used. `cfg` is the relay
    /// configuration, `None` where the capability has none.
    pub fn prepare(&self, cfg: Option<&RelayConfig>) -> (need: PlanNeed)
        ensures
            self.memo() is Some ==> need == PlanNeed::Ready,
            self.memo() is None && (cfg is None || cfg->0@.clusters.len() == 0) ==> need
                == PlanNeed::NotConfigured,
            self.memo() is None && cfg is Some && cfg->0@.clusters.len() > 0 ==> need is Resolve
                && strings_view(need->Resolve_0@) == pending(
                cfg->0@.clusters,
                cfg->0@.clusters.len() as int,
            ),
    {
        if self.plan.is_some() {
            return PlanNeed::Ready;
        }
        match cfg {
            None => PlanNeed::NotConfigured,
            Some(c) => {
                if c.clusters.len() == 0 {
                    PlanNeed::NotConfigured
                } else {
                    PlanNeed::Resolve(pending_aliases(c))
                }
            },
        }
    }

    /// Builds the plan from `cfg` and the answers to its aliases and keeps
    /// it, unless a plan is there already: a plan, once built, stays as it is.
    pub fn install(&mut self, cfg: &RelayConfig, answers: &Vec<Option<String>>)
        requires
            old(self).wf(),
        ensures
            final(self).wf(),
            final(self).memo() is Some,
            old(self).memo() is Some ==> final(self).memo() == old(self).memo(),
            old(self).memo() is None ==> {
                &&& final(self).memo()->0.adjacency() == planned_adjacency(
                    cfg@,
                    answers_view(answers@),
                    cfg@.clusters.len() as int,
                )
                &&& final(self).memo()->0.options() == planned_options(
                    cfg@,
                    answers_view(answers@),
                    cfg@.clusters.len() as int,
                )
            },
    {
        if self.plan.is_none() {
            self.plan = Some(resolve_relay_map(cfg, answers));
        }
    }
}

/// The members of the first `n` of `peers` other than `room`, in order.
pub open spec fn others(peers: Seq<Seq<char>>, room: Seq<char>, n: int) -> Seq<Seq<char>>
    decreases n,
{
    if n <= 0 || n > peers.len() {
        Seq::empty()
    } else if peers[n - 1] == room {
        others(peers, room, n - 1)
    } else {
        others(peers, room, n - 1).push(peers[n - 1])
    }
}

/// The rooms a message of `source` is forwarded to: none on a dev instance
/// and none without a plan; otherwise the peers of `source`, never `source`.
pub open spec fn fan_out(plan: Option<RelayPlan>, source: Seq<char>, dev_active: bool) -> Seq<
    Seq<char>,
> {
    if dev_active || plan is None {
        Seq::empty()
    } else {
        others(
            peers_of(plan->0.adjacency(), source),
            source,
            peers_of(plan->0.adjacency(), source).len() as int,
        )
    }
}

/// The rooms to forward a message of `source` to: see [`fan_out`].
pub fn relay_targets(relay: &Relay, source: &str, dev_active: bool) -> (out: Vec<String>)
    requires
        relay.wf(),
    ensures
        strings_view(out@) == fan_out(relay.memo(), source@, dev_active),
{
    let mut out: Vec<String> = Vec::new();
    assert(strings_view(out@) =~= Seq::<Seq<char>>::empty());
    if dev_active {
        return out;
    }
    match relay.plan() {
        None => out,
        Some(plan) => match plan.targets(source) {
            None => out,
            Some(peers) => {
                let ghost pv = strings_view(peers@);
                let mut i: usize = 0;
                while i < peers.len()
                    invariant
                        i <= peers.len(),
                        pv == strings_view(peers@),
                        strings_view(out@) == others(pv, source@, i as int),
                    decreases peers.len() - i,
                {
                    assert(pv[i as int] == peers@[i as int]@);
                    if !str_eq(peers[i].as_str(), source) {
                        let ghost before = strings_view(out@);
                        out.push(peers[i].clone());
                        assert(strings_view(out@) =~= before.push(peers@[i as int]@));
                    }
                    i += 1;
                }
                out
            },
        },
    }
}

/// The delivery options that govern what is sent to `room`: its record in the
/// plan, and both options on where it has none.
pub open spec fn options_of(plan: Option<RelayPlan>, room: Seq<char>) -> RelayOptions {
    match plan {
        Some(p) => match lookup(p.options(), room) {
            Some(o) => o,
            None => RelayOptions { reupload_media: true, caption_media: true },
        },
        None => RelayOptions { reupload_media: true, caption_media: true },
    }
}

/// The rooms a message of `source` is forwarded to, each with the delivery
/// options of that room: whether media is uploaded anew and whether a caption
/// follows is decided by the room that receives, not by the one that sends.
pub open spec fn deliveries(plan: Option<RelayPlan>, source: Seq<char>, dev_active: bool) -> Seq<
    (Seq<char>, RelayOptions),
> {
    Seq::new(
        fan_out(plan, source, dev_active).len(),
        |i: int|
            (fan_out(plan, source, dev_active)[i], options_of(plan, fan_out(plan, source, dev_active)[i])),
    )
}

/// The view of a list of rooms with their options.
pub open spec fn deliveries_view(v: Seq<(String, RelayOptions)>) -> Seq<(Seq<char>, RelayOptions)> {
    Seq::new(v.len(), |i: int| (v[i].0@, v[i].1))
}

/// The rooms to forward a message of `source` to, each with its own delivery
/// options: see [`deliveries`].
pub fn relay_deliveries(relay: &Relay, source: &str, dev_active: bool) -> (out: Vec<
    (String, RelayOptions),
>)
    requires
        relay.wf(),
    ensures
        deliveries_view(out@) == deliveries(relay.memo(), source@, dev_active),
{
    let targets = relay_targets(relay, source, dev_active);
    let ghost want = fan_out(relay.memo(), source@, dev_active);
    let mut out: Vec<(String, RelayOptions)> = Vec::new();
    match relay.plan() {
        None => {
            assert(want.len() == 0);
            assert(deliveries_view(out@) =~= deliveries(relay.memo(), source@, dev_active));
            out
        },
        Some(plan) => {
            let mut i: usize = 0;
            while i < targets.len()
                invariant
                    i <= targets.len(),
                    relay.memo() == Some(*plan),
                    plan.wf(),
                    want == strings_view(targets@),
                    out@.len() == i,
                    forall|j: int|
                        0 <= j < i ==> (#[trigger] out@[j]).0@ == want[j] && out@[j].1 == options_of(
                            relay.memo(),
                            want[j],
                        ),
                decreases targets.len() - i,
            {
                assert(want[i as int] == targets@[i as int]@);
                let options = plan.options_for(targets[i].as_str());
                out.push((targets[i].clone(), options));
                i += 1;
            }
            assert(want.len() == targets@.len());
            assert(deliveries_view(out@) =~= deliveries(relay.memo(), source@, dev_active));
            out
        },
    }
}

} // verus!
