//! Start-up assembly: from the bot's configuration and the capabilities at
//! hand to the declarations that are registered.
//!
//! Configuration is layered. What the bot's configuration file declares wins;
//! a capability's own defaults fill in what the file leaves out; and a
//! capability's private configuration file, where there is one, is layered
//! over the configuration that its declaration carries.

use crate::assoc::{
    has, lemma_index_of_key, lemma_upsert, lookup, upsert, Pairs, Rows, TextMap,
};
use crate::plugin::{
    add_triggers, find_spec, has_id, index_of_id, lemma_index_of_id, specs_view, with_triggers,
    Plugin, PluginEntry, PluginSpec, PluginTraits, PluginTriggers, SpecView,
};
use crate::registry::{entry_of, reindexed, trigger_keys, PluginRegistry};
use crate::relay::{ClusterView, RelayCluster, RelayConfig};
use crate::strings::{clone_strings, opt_str_view, strings_view};
use crate::text::{chars_of, eq_ignore_ascii_case, eq_ignoring_ascii_case};
use crate::value::{merge_ref, merged, Doc, Value};
use vstd::prelude::*;

verus! {

/// A cluster of rooms as the bot's configuration lists it.
#[derive(Debug, PartialEq, Eq)]
pub struct RoomCluster {
    pub rooms: Vec<String>,
    pub reupload_media: Option<bool>,
    pub caption_media: Option<bool>,
}

/// The bot's configuration.
#[derive(Debug, PartialEq, Eq)]
pub struct BotConfig {
    /// The clusters of rooms to relay between.
    pub clusters: Vec<RoomCluster>,
    /// The default of the re-upload option.
    pub reupload_media: Option<bool>,
    /// The default of the caption option.
    pub caption_media: Option<bool>,
    /// Whether this configuration permits dev mode.
    pub dev_mode: Option<bool>,
    /// The tag that routes commands and mentions to this instance in dev mode.
    pub dev_id: Option<String>,
    /// The declared capabilities.
    pub plugins: Option<Vec<PluginSpec>>,
}

/// The relay's view of a configured cluster: the same rooms and options.
pub fn cluster_from_bot(cluster: &RoomCluster) -> (c: RelayCluster)
    ensures
        c@ == (ClusterView {
            rooms: strings_view(cluster.rooms@),
            reupload_media: cluster.reupload_media,
            caption_media: cluster.caption_media,
        }),
{
    RelayCluster {
        rooms: clone_strings(&cluster.rooms),
        reupload_media: cluster.reupload_media,
        caption_media: cluster.caption_media,
    }
}

/// The relay configuration that the bot's configuration amounts to.
pub fn relay_config_of(config: &BotConfig) -> (r: RelayConfig)
    ensures
        r@.reupload_media == config.reupload_media,
        r@.caption_media == config.caption_media,
        r@.clusters.len() == config.clusters@.len(),
        forall|i: int|
            0 <= i < config.clusters@.len() ==> (#[trigger] r@.clusters[i]) == (ClusterView {
                rooms: strings_view(config.clusters@[i].rooms@),
                reupload_media: config.clusters@[i].reupload_media,
                caption_media: config.clusters@[i].caption_media,
            }),
{
    let mut clusters: Vec<RelayCluster> = Vec::new();
    let mut i: usize = 0;
    while i < config.clusters.len()
        invariant
            i <= config.clusters.len(),
            clusters.len() == i,
            forall|k: int|
                0 <= k < i ==> (#[trigger] clusters@[k])@ == (ClusterView {
                    rooms: strings_view(config.clusters@[k].rooms@),
                    reupload_media: config.clusters@[k].reupload_media,
                    caption_media: config.clusters@[k].caption_media,
                }),
        decreases config.clusters.len() - i,
    {
        clusters.push(cluster_from_bot(&config.clusters[i]));
        i += 1;
    }
    RelayConfig {
        clusters,
        reupload_media: config.reupload_media,
        caption_media: config.caption_media,
    }
}

/// Why the requested mode cannot be entered.
#[derive(Clone, Copy, Debug, PartialEq, Eq, Structural)]
pub enum ModeError {
    /// Dev mode was asked for and permitted, but no dev id is configured.
    MissingDevId,
}

/// Whether dev mode is asked for: by the flag, or by a mode word that reads
/// `dev`, ASCII case aside.
pub open spec fn dev_requested(flag: bool, mode: Option<Seq<char>>) -> bool {
    flag || (mode is Some && eq_ignoring_ascii_case(mode->0, "dev"@))
}

/// Whether the instance runs in dev mode: it must be asked for and the
/// configuration must permit it.
pub open spec fn dev_mode_active(flag: bool, mode: Option<Seq<char>>, permitted: Option<bool>)
    -> bool {
    dev_requested(flag, mode) && permitted == Some(true)
}

/// Decides the mode of the instance. Dev mode without a dev id is an error.
pub fn resolve_mode(
    flag: bool,
    mode: Option<&str>,
    permitted: Option<bool>,
    dev_id: Option<&str>,
) -> (r: Result<bool, ModeError>)
    ensures
        r == (if dev_mode_active(
            flag,
            opt_str_view(mode),
            permitted,
        ) && dev_id is None {
            Err(ModeError::MissingDevId)
        } else {
            Ok(
                dev_mode_active(
                    flag,
                    opt_str_view(mode),
                    permitted,
                ),
            )
        }),
{
    let env_dev = match mode {
        Some(m) => eq_ignore_ascii_case(&chars_of(m), &chars_of("dev")),
        None => false,
    };
    let allowed = match permitted {
        Some(b) => b,
        None => false,
    };
    let active = (flag || env_dev) && allowed;
    if active && dev_id.is_none() {
        Err(ModeError::MissingDevId)
    } else {
        Ok(active)
    }
}

/// A configured declaration completed by the capability's default: the
/// default's triggers are added unless they are there already; everything
/// else stays as configured.
pub open spec fn completed(configured: SpecView, default: SpecView) -> SpecView {
    SpecView {
        commands: with_triggers(configured.commands, default.commands, default.commands.len() as int),
        mentions: with_triggers(configured.mentions, default.mentions, default.mentions.len() as int),
        ..configured
    }
}

/// `specs` with the default declaration merged in: it completes the first
/// declaration of its id, or is added where the id is not declared.
pub open spec fn merged_default(specs: Seq<SpecView>, default: SpecView) -> Seq<SpecView> {
    if has_id(specs, default.id) {
        specs.update(
            index_of_id(specs, default.id, 0),
            completed(specs[index_of_id(specs, default.id, 0)], default),
        )
    } else {
        specs.push(default)
    }
}

/// Merges a capability's default declaration into the declared ones: see
/// [`merged_default`].
pub fn merge_default_spec(specs: &mut Vec<PluginSpec>, default: PluginSpec)
    ensures
        specs_view(final(specs)@) == merged_default(specs_view(old(specs)@), default@),
{
    let at = find_spec(specs, default.id.as_str());
    let ghost before = specs_view(specs@);
    proof {
        lemma_index_of_id(before, default.id@, 0);
        assert forall|k: int| 0 <= k < at implies before[k].id != default.id@ by {
            assert(before[k] == specs@[k]@);
        }
        if at < specs.len() {
            assert(before[at as int] == specs@[at as int]@);
        }
        assert(index_of_id(before, default.id@, 0) == at);
    }
    if at < specs.len() {
        let mut spec = specs.remove(at);
        let ghost configured = spec@;
        add_triggers(&mut spec.triggers.commands, &default.triggers.commands);
        add_triggers(&mut spec.triggers.mentions, &default.triggers.mentions);
        assert(spec@ == completed(configured, default@));
        specs.insert(at, spec);
        assert(specs_view(specs@) =~= before.update(at as int, completed(configured, default@)));
    } else {
        specs.push(default);
        assert(specs_view(specs@) =~= before.push(default@));
    }
}

/// The declaration that relaying is given where clusters are configured but
/// no declaration of `relay` is.
pub open spec fn relay_spec_view(triggers: (Seq<Seq<char>>, Seq<Seq<char>>), config: Doc)
    -> SpecView {
    SpecView {
        id: "relay"@,
        enabled: true,
        dev_only: None,
        commands: triggers.0,
        mentions: triggers.1,
        config,
    }
}

/// Declares the relay where clusters are configured and the declarations do
/// not mention it. `triggers` are the relay's default triggers and `config`
/// is its configuration, drawn from the bot's configuration.
pub fn inject_relay_spec(
    specs: &mut Vec<PluginSpec>,
    has_clusters: bool,
    triggers: PluginTriggers,
    config: Value,
)
    ensures
        specs_view(final(specs)@) == (if !has_id(specs_view(old(specs)@), "relay"@)
            && has_clusters {
            specs_view(old(specs)@).push(relay_spec_view(triggers@, config@))
        } else {
            specs_view(old(specs)@)
        }),
{
    let at = find_spec(specs, "relay");
    if at >= specs.len() && has_clusters {
        let ghost before = specs_view(specs@);
        let spec = PluginSpec { id: "relay".to_owned(), enabled: true, dev_only: None, triggers, config };
        specs.push(spec);
        assert(specs_view(specs@) =~= before.push(relay_spec_view(triggers@, config@)));
    }
}

/// The configuration a capability is asked to declare itself for: its
/// private configuration file layered over the declared configuration, or
/// the declared configuration alone where there is no such file.
pub open spec fn layered_config(file_cfg: Option<Doc>, declared: Doc) -> Doc {
    match file_cfg {
        Some(f) => merged(f, declared),
        None => declared,
    }
}

/// Layers a capability's private configuration over the declared one: see
/// [`layered_config`].
pub fn effective_config(file_cfg: Option<&Value>, declared: &Value) -> (out: Value)
    ensures
        out@ == layered_config(
            match file_cfg {
                Some(f) => Some(f@),
                None => None,
            },
            declared@,
        ),
{
    match file_cfg {
        Some(f) => merge_ref(f, declared),
        None => declared.deep_clone(),
    }
}

/// The declaration that is registered: what the capability computed, with
/// the configured id and enable switch, with the configured dev-only switch
/// where one is configured, and with the configured triggers where any are.
pub open spec fn finalized(configured: SpecView, computed: SpecView) -> SpecView {
    SpecView {
        id: configured.id,
        enabled: configured.enabled,
        dev_only: if configured.dev_only is Some {
            configured.dev_only
        } else {
            computed.dev_only
        },
        commands: if configured.commands.len() > 0 || configured.mentions.len() > 0 {
            configured.commands
        } else {
            computed.commands
        },
        mentions: if configured.commands.len() > 0 || configured.mentions.len() > 0 {
            configured.mentions
        } else {
            computed.mentions
        },
        config: computed.config,
    }
}

/// Puts the explicit choices of a configured declaration on top of what the
/// capability computed: see [`finalized`].
pub fn finalize_spec(configured: &PluginSpec, computed: PluginSpec) -> (out: PluginSpec)
    ensures
        out@ == finalized(configured@, computed@),
{
    let mut out = computed;
    out.enabled = configured.enabled;
    if configured.dev_only.is_some() {
        out.dev_only = configured.dev_only;
    }
    out.id = configured.id.clone();
    if configured.triggers.commands.len() > 0 || configured.triggers.mentions.len() > 0 {
        out.triggers = configured.triggers.duplicate();
    }
    out
}

/// The private configuration of a capability, as a document.
pub open spec fn cfg_view(file_cfg: Option<&Value>) -> Option<Doc> {
    match file_cfg {
        Some(f) => Some(f@),
        None => None,
    }
}

/// The declaration under which `plugin` is installed for the configured
/// declaration: the capability declares itself for the layered
/// configuration, and the explicit choices of the configured declaration
/// are put on top.
pub open spec fn staged<P: Plugin>(configured: SpecView, plugin: P, file_cfg: Option<Doc>)
    -> SpecView {
    finalized(configured, plugin.declaration(layered_config(file_cfg, configured.config)))
}

/// Computes the declaration under which `plugin` is installed: see [`staged`].
pub fn stage_spec<P: Plugin>(configured: &PluginSpec, plugin: &P, file_cfg: Option<&Value>) -> (out:
    PluginSpec)
    ensures
        out@ == staged(configured@, *plugin, cfg_view(file_cfg)),
{
    let cfg = effective_config(file_cfg, &configured.config);
    finalize_spec(configured, plugin.spec(cfg))
}

/// Registers the capability `plugin` under the configured declaration.
///
/// The entry holds `plugin`, its answers about itself and the declaration
/// that [`staged`] describes; it takes the place of an entry with the same
/// id, and the index rows of the id are rebuilt from the triggers of that
/// declaration. Nothing else changes.
pub fn install_plugin<P: Plugin>(
    registry: &mut PluginRegistry<P>,
    configured: &PluginSpec,
    plugin: P,
    file_cfg: Option<&Value>,
)
    requires
        old(registry).wf(),
    ensures
        final(registry).wf(),
        final(registry).overrides() == old(registry).overrides(),
        lookup(final(registry).installed(), configured.id@) is Some,
        ({
            let entry = lookup(final(registry).installed(), configured.id@)->0;
            let spec = staged(configured@, plugin, cfg_view(file_cfg));
            &&& entry.spec@ == spec
            &&& entry.plugin == plugin
            &&& entry.traits == plugin.traits()
            &&& final(registry).installed() == upsert(
                old(registry).installed(),
                configured.id@,
                entry,
            )
            &&& final(registry).commands() == reindexed(
                old(registry).commands(),
                configured.id@,
                trigger_keys(spec, true),
            )
            &&& final(registry).mentions() == reindexed(
                old(registry).mentions(),
                configured.id@,
                trigger_keys(spec, false),
            )
        }),
        forall|other: Seq<char>|
            other != configured.id@ ==> lookup(final(registry).installed(), other) == lookup(
                old(registry).installed(),
                other,
            ),
{
    let spec = stage_spec(configured, &plugin, file_cfg);
    proof {
        registry.lemma_wf();
        lemma_upsert(registry.installed(), spec.id@, entry_of(spec, plugin, plugin.traits()));
    }
    let _ = registry.register(spec, plugin);
}

/// The ids among the first `n` of `specs` for which `plugins` holds no capability, in order.
pub open spec fn unknown_ids<P>(specs: Seq<SpecView>, plugins: Pairs<P>, n: int) -> Seq<
    Seq<char>,
>
    decreases n,
{
    if n <= 0 || n > specs.len() {
        Seq::empty()
    } else if has(plugins, specs[n - 1].id) {
        unknown_ids(specs, plugins, n - 1)
    } else {
        unknown_ids(specs, plugins, n - 1).push(specs[n - 1].id)
    }
}

/// Whether one of the first `n` of `specs` declares `id`.
pub open spec fn declares(specs: Seq<SpecView>, id: Seq<char>, n: int) -> bool {
    exists|k: int| 0 <= k < n && k < specs.len() && (#[trigger] specs[k]).id == id
}

/// The position of the last of the first `n` of `specs` that declares `id`,
/// or -1 where none does.
pub open spec fn last_declared(specs: Seq<SpecView>, id: Seq<char>, n: int) -> int
    decreases n,
{
    if n <= 0 || n > specs.len() {
        -1
    } else if specs[n - 1].id == id {
        n - 1
    } else {
        last_declared(specs, id, n - 1)
    }
}

/// The private configuration that goes with declaration `k`, if any.
pub open spec fn cfg_at(file_cfgs: Seq<Option<Value>>, k: int) -> Option<Doc> {
    if 0 <= k < file_cfgs.len() {
        match file_cfgs[k] {
            Some(f) => Some(f@),
            None => None,
        }
    } else {
        None
    }
}

/// The declaration that is installed for `specs[k]`.
pub open spec fn staged_at<P: Plugin>(
    specs: Seq<SpecView>,
    plugins: Pairs<P>,
    file_cfgs: Seq<Option<Value>>,
    k: int,
) -> SpecView {
    staged(specs[k], lookup(plugins, specs[k].id)->0, cfg_at(file_cfgs, k))
}

/// The command index (or, where `commands` is false, the mention index)
/// once the first `n` of `specs` are installed in order: a declaration whose
/// id names no capability leaves it as it is, and every other rebuilds the
/// rows of its id from the triggers of the declaration installed for it.
pub open spec fn built_index<P: Plugin>(
    specs: Seq<SpecView>,
    plugins: Pairs<P>,
    file_cfgs: Seq<Option<Value>>,
    commands: bool,
    n: int,
) -> Rows
    decreases n,
{
    if n <= 0 || n > specs.len() {
        Seq::empty()
    } else if has(plugins, specs[n - 1].id) {
        reindexed(
            built_index(specs, plugins, file_cfgs, commands, n - 1),
            specs[n - 1].id,
            trigger_keys(staged_at(specs, plugins, file_cfgs, n - 1), commands),
        )
    } else {
        built_index(specs, plugins, file_cfgs, commands, n - 1)
    }
}

/// What is installed under `id` once the first `n` of `specs` are
/// installed: a copy of the capability that `plugins` holds under `id`,
/// that capability's answers about itself, and the declaration staged for
/// the last declaration of `id`.
pub open spec fn installed_as<P: Plugin + Clone>(
    entry: PluginEntry<P>,
    specs: Seq<SpecView>,
    plugins: Pairs<P>,
    file_cfgs: Seq<Option<Value>>,
    id: Seq<char>,
    n: int,
) -> bool {
    &&& 0 <= last_declared(specs, id, n) < n
    &&& specs[last_declared(specs, id, n)].id == id
    &&& entry.spec@ == staged_for(specs, plugins, file_cfgs, id, n)
    &&& entry.traits == lookup(plugins, id)->0.traits()
    &&& cloned(lookup(plugins, id)->0, entry.plugin)
}

/// Builds the registry from the declarations `specs`.
///
/// Each declaration is registered with a copy of the capability that
/// `plugins` holds under its id; `file_cfgs[i]`, where present, is the
/// private configuration of the capability of `specs[i]`. A declaration
/// whose id names no capability is skipped: it leaves no entry and no index
/// row, and its id is reported in the second result. A later declaration of
/// an id replaces an earlier one.
pub fn build_registry<P: Plugin + Clone>(
    specs: &Vec<PluginSpec>,
    plugins: &TextMap<P>,
    file_cfgs: &Vec<Option<Value>>,
) -> (r: (PluginRegistry<P>, Vec<String>))
    requires
        plugins.wf(),
    ensures
        r.0.wf(),
        r.0.overrides().len() == 0,
        strings_view(r.1@) == unknown_ids(
            specs_view(specs@),
            plugins.pairs(),
            specs@.len() as int,
        ),
        forall|id: Seq<char>|
            (#[trigger] lookup(r.0.installed(), id)) is Some <==> has(
                plugins.pairs(),
                id,
            ) && declares(specs_view(specs@), id, specs@.len() as int),
        forall|id: Seq<char>|
            (#[trigger] lookup(r.0.installed(), id)) is Some ==> installed_as(
                lookup(r.0.installed(), id)->0,
                specs_view(specs@),
                plugins.pairs(),
                file_cfgs@,
                id,
                specs@.len() as int,
            ),
        r.0.commands() == built_index(
            specs_view(specs@),
            plugins.pairs(),
            file_cfgs@,
            true,
            specs@.len() as int,
        ),
        r.0.mentions() == built_index(
            specs_view(specs@),
            plugins.pairs(),
            file_cfgs@,
            false,
            specs@.len() as int,
        ),
{
    let mut registry: PluginRegistry<P> = PluginRegistry::new();
    let mut skipped: Vec<String> = Vec::new();
    let ghost sv = specs_view(specs@);
    let ghost known = plugins.pairs();
    let mut i: usize = 0;
    assert(strings_view(skipped@) =~= Seq::<Seq<char>>::empty());
    assert forall|id: Seq<char>| (#[trigger] lookup(registry.installed(), id)) is None by {
        lemma_index_of_key(registry.installed(), id, 0);
    }
    assert(registry.commands() =~= built_index(sv, known, file_cfgs@, true, 0));
    assert(registry.mentions() =~= built_index(sv, known, file_cfgs@, false, 0));
    while i < specs.len()
        invariant
            i <= specs.len(),
            sv == specs_view(specs@),
            known == plugins.pairs(),
            plugins.wf(),
            registry.wf(),
            registry.overrides().len() == 0,
            strings_view(skipped@) == unknown_ids(sv, known, i as int),
            forall|id: Seq<char>|
                (#[trigger] lookup(registry.installed(), id)) is Some <==> has(known, id)
                    && declares(sv, id, i as int),
            forall|id: Seq<char>|
                (#[trigger] lookup(registry.installed(), id)) is Some ==> installed_as(
                    lookup(registry.installed(), id)->0,
                    sv,
                    known,
                    file_cfgs@,
                    id,
                    i as int,
                ),
            registry.commands() == built_index(sv, known, file_cfgs@, true, i as int),
            registry.mentions() == built_index(sv, known, file_cfgs@, false, i as int),
        decreases specs.len() - i,
    {
        let spec = &specs[i];
        assert(sv[i as int] == spec@);
        let ghost before = registry.installed();
        match plugins.get(spec.id.as_str()) {
            Some(plugin) => {
                let file_cfg = if i < file_cfgs.len() {
                    file_cfgs[i].as_ref()
                } else {
                    None
                };
                assert(cfg_view(file_cfg) == cfg_at(file_cfgs@, i as int));
                let entry = PluginEntry {
                    spec: stage_spec(spec, plugin, file_cfg),
                    plugin: plugin.clone(),
                    traits: PluginTraits::of(plugin),
                };
                assert(cloned(*plugin, entry.plugin));
                proof {
                    registry.lemma_wf();
                    lemma_upsert(before, spec.id@, entry);
                }
                let _ = registry.register_entry(entry);
                proof {
                    assert forall|id: Seq<char>|
                        (#[trigger] lookup(registry.installed(), id)) is Some <==> has(known, id)
                            && declares(sv, id, i + 1) by {
                        if id == spec.id@ {
                            assert(sv[i as int].id == id);
                        } else {
                            assert(lookup(registry.installed(), id) == lookup(before, id));
                            if declares(sv, id, i + 1) {
                                let k = choose|k: int|
                                    0 <= k < i + 1 && k < sv.len() && (#[trigger] sv[k]).id == id;
                                assert(k < i);
                            }
                        }
                    }
                    assert forall|id: Seq<char>|
                        (#[trigger] lookup(registry.installed(), id)) is Some implies installed_as(
                        lookup(registry.installed(), id)->0,
                        sv,
                        known,
                        file_cfgs@,
                        id,
                        i + 1,
                    ) by {
                        if id != spec.id@ {
                            assert(lookup(registry.installed(), id) == lookup(before, id));
                        }
                    }
                }
            },
            None => {
                let ghost old_skipped = strings_view(skipped@);
                skipped.push(spec.id.clone());
                proof {
                    assert(strings_view(skipped@) =~= old_skipped.push(spec.id@));
                    assert forall|id: Seq<char>|
                        (#[trigger] lookup(registry.installed(), id)) is Some <==> has(known, id)
                            && declares(sv, id, i + 1) by {
                        if declares(sv, id, i + 1) && has(known, id) {
                            let k = choose|k: int|
                                0 <= k < i + 1 && k < sv.len() && (#[trigger] sv[k]).id == id;
                            assert(k < i);
                        }
                        if declares(sv, id, i as int) {
                            let k = choose|k: int|
                                0 <= k < i && k < sv.len() && (#[trigger] sv[k]).id == id;
                            assert(0 <= k < i + 1);
                        }
                    }
                }
            },
        }
        i += 1;
    }
    (registry, skipped)
}

/// The declaration installed under `id` once the first `n` of `specs` are
/// installed, where `id` is declared among them and names a capability.
pub open spec fn staged_for<P: Plugin>(
    specs: Seq<SpecView>,
    plugins: Pairs<P>,
    file_cfgs: Seq<Option<Value>>,
    id: Seq<char>,
    n: int,
) -> SpecView {
    staged_at(specs, plugins, file_cfgs, last_declared(specs, id, n))
}

/// What a prefix of the declarations installs does not depend on a
/// declaration at `j` whose id names no capability.
proof fn lemma_skipped_prefix<P: Plugin>(
    specs: Seq<SpecView>,
    plugins: Pairs<P>,
    file_cfgs: Seq<Option<Value>>,
    j: int,
    n: int,
)
    requires
        0 <= j < specs.len(),
        has(plugins, specs[j].id) == false,
        file_cfgs.len() == specs.len(),
        0 <= n <= specs.len(),
    ensures
        ({
            let m = if n <= j {
                n
            } else {
                n - 1
            };
            &&& forall|commands: bool|
                #![trigger built_index(specs, plugins, file_cfgs, commands, n)]
                built_index(specs.remove(j), plugins, file_cfgs.remove(j), commands, m)
                    == built_index(specs, plugins, file_cfgs, commands, n)
            &&& forall|id: Seq<char>|
                #![trigger last_declared(specs, id, n)]
                has(plugins, id) ==> (last_declared(specs.remove(j), id, m) >= 0) == (
                last_declared(specs, id, n) >= 0) && (last_declared(specs, id, n) >= 0
                    ==> staged_for(specs.remove(j), plugins, file_cfgs.remove(j), id, m)
                    == staged_for(specs, plugins, file_cfgs, id, n))
        }),
    decreases n,
{
    let rest = specs.remove(j);
    let cfgs = file_cfgs.remove(j);
    if n > 0 {
        lemma_skipped_prefix(specs, plugins, file_cfgs, j, n - 1);
        let m = if n <= j {
            n
        } else {
            n - 1
        };
        let earlier = if n - 1 <= j {
            n - 1
        } else {
            n - 2
        };
        if n - 1 != j {
            assert(rest[m - 1] == specs[n - 1]);
            assert(cfg_at(cfgs, m - 1) == cfg_at(file_cfgs, n - 1));
            assert(staged_at(rest, plugins, cfgs, m - 1) == staged_at(
                specs,
                plugins,
                file_cfgs,
                n - 1,
            ));
        }
        assert forall|commands: bool|
            #![trigger built_index(specs, plugins, file_cfgs, commands, n)]
            built_index(rest, plugins, cfgs, commands, m) == built_index(
                specs,
                plugins,
                file_cfgs,
                commands,
                n,
            ) by {
            assert(built_index(rest, plugins, cfgs, commands, earlier) == built_index(
                specs,
                plugins,
                file_cfgs,
                commands,
                n - 1,
            ));
        }
        assert forall|id: Seq<char>|
            #![trigger last_declared(specs, id, n)]
            has(plugins, id) implies (last_declared(rest, id, m) >= 0) == (last_declared(
            specs,
            id,
            n,
        ) >= 0) && (last_declared(specs, id, n) >= 0 ==> staged_for(rest, plugins, cfgs, id, m)
            == staged_for(specs, plugins, file_cfgs, id, n)) by {
            assert((last_declared(rest, id, earlier) >= 0) == (last_declared(specs, id, n - 1)
                >= 0));
        }
    }
}

/// A declaration whose id names no capability is ignored: with one slot of
/// private configuration per declaration, the indices are what they would
/// be without it, the same known ids are declared, and each of them is
/// installed under the same declaration as without it.
pub proof fn lemma_unknown_declaration_is_ignored<P: Plugin>(
    specs: Seq<SpecView>,
    plugins: Pairs<P>,
    file_cfgs: Seq<Option<Value>>,
    j: int,
)
    requires
        0 <= j < specs.len(),
        has(plugins, specs[j].id) == false,
        file_cfgs.len() == specs.len(),
    ensures
        forall|commands: bool|
            #![trigger built_index(specs, plugins, file_cfgs, commands, specs.len() as int)]
            built_index(specs.remove(j), plugins, file_cfgs.remove(j), commands, specs.len() - 1)
                == built_index(specs, plugins, file_cfgs, commands, specs.len() as int),
        forall|id: Seq<char>|
            #![trigger last_declared(specs, id, specs.len() as int)]
            has(plugins, id) ==> (last_declared(specs.remove(j), id, specs.len() - 1) >= 0) == (
            last_declared(specs, id, specs.len() as int) >= 0) && (last_declared(
                specs,
                id,
                specs.len() as int,
            ) >= 0 ==> staged_for(specs.remove(j), plugins, file_cfgs.remove(j), id, specs.len() - 1)
                == staged_for(specs, plugins, file_cfgs, id, specs.len() as int)),
{
    lemma_skipped_prefix(specs, plugins, file_cfgs, j, specs.len() as int);
}

/// The rule above and below the mode banner.
pub open spec fn banner_rule() -> Seq<char> {
    "=============================="@
}

/// The title of the mode banner.
pub open spec fn banner_title(dev_active: bool) -> Seq<char> {
    if dev_active {
        "DEVELOPMENT MODE ACTIVE"@
    } else {
        "PRODUCTION MODE"@
    }
}

/// The hint of the mode banner: how commands reach this instance.
pub open spec fn banner_hint(dev_active: bool, dev_id: Option<Seq<char>>) -> Seq<char> {
    if dev_active {
        match dev_id {
            Some(id) => "Send !"@ + id + ".command targets this instance"@,
            None => "Send !dev.command targets this instance"@,
        }
    } else {
        match dev_id {
            Some(id) => "Relaying enabled \u{2014} commands without !"@ + id + ". prefix"@,
            None => "Relaying is enabled \u{2014} commands without a dev prefix"@,
        }
    }
}

/// The escape sequence that colours the banner: bold yellow for dev, bold
/// green for production.
pub open spec fn banner_colour(dev_active: bool) -> Seq<char> {
    if dev_active {
        "\u{1b}[1;33m"@
    } else {
        "\u{1b}[1;32m"@
    }
}

/// The banner that announces the mode at start-up, coloured for a terminal
/// where `coloured` says so.
pub open spec fn banner_text(dev_active: bool, dev_id: Option<Seq<char>>, coloured: bool) -> Seq<
    char,
> {
    let plain = banner_rule() + "\n  "@ + banner_title(dev_active) + "\n  "@ + banner_hint(
        dev_active,
        dev_id,
    ) + "\n"@ + banner_rule();
    if coloured {
        banner_colour(dev_active) + plain + "\u{1b}[0m"@
    } else {
        plain
    }
}

/// Builds the start-up banner: see [`banner_text`].
pub fn mode_banner(dev_active: bool, dev_id: Option<&str>, coloured: bool) -> (out: String)
    ensures
        out@ == banner_text(
            dev_active,
            opt_str_view(dev_id),
            coloured,
        ),
{
    let title = if dev_active {
        "DEVELOPMENT MODE ACTIVE"
    } else {
        "PRODUCTION MODE"
    };
    let hint = if dev_active {
        match dev_id {
            Some(id) => "Send !".to_owned().concat(id).concat(".command targets this instance"),
            None => "Send !dev.command targets this instance".to_owned(),
        }
    } else {
        match dev_id {
            Some(id) => "Relaying enabled \u{2014} commands without !".to_owned().concat(id).concat(
                ". prefix",
            ),
            None => "Relaying is enabled \u{2014} commands without a dev prefix".to_owned(),
        }
    };
    let plain = "==============================".to_owned().concat("\n  ").concat(title).concat(
        "\n  ",
    ).concat(hint.as_str()).concat("\n").concat("==============================");
    if coloured {
        let colour = if dev_active {
            "\u{1b}[1;33m"
        } else {
            "\u{1b}[1;32m"
        };
        colour.to_owned().concat(plain.as_str()).concat("\u{1b}[0m")
    } else {
        plain
    }
}

} // verus!
