//! The management capability: it lists the installed capabilities and
//! switches them on and off at run time.

use crate::assoc::{upsert, Pairs};
use crate::builtin::{bool_str, bool_text};
use crate::plugin::{
    default_spec, default_view, entry_dev_only, push_if_absent, specs_view, with_default, Plugin,
    PluginFactory, PluginSpec, PluginTraits, SpecView,
};
use crate::registry::PluginRegistry;
use crate::strings::{join_lines, join_strings, strings_view};
use crate::text::{chars_of, joined, split_words, str_eq, string_of, words};
use crate::value::{Doc, ScalarKind, Value};
use vstd::prelude::*;

verus! {

/// The factory of the management capability.
#[derive(Clone, Copy, Debug, PartialEq, Eq, Structural)]
pub struct ToolsManagerPlugin;

/// The management capability.
#[derive(Clone, Copy, Debug, PartialEq, Eq, Structural)]
pub struct ToolsManager;

/// What a management command asks for.
#[derive(Debug, PartialEq, Eq)]
pub enum ToolsRequest {
    /// List the installed capabilities.
    List,
    /// Switch the capability with this id on.
    Enable(String),
    /// Switch the capability with this id off.
    Disable(String),
    /// `enable` without an id.
    EnableUsage,
    /// `disable` without an id.
    DisableUsage,
    /// Anything else.
    Usage,
}

/// The mathematical content of a [`ToolsRequest`].
pub ghost enum RequestView {
    List,
    Enable(Seq<char>),
    Disable(Seq<char>),
    EnableUsage,
    DisableUsage,
    Usage,
}

impl View for ToolsRequest {
    type V = RequestView;

    open spec fn view(&self) -> RequestView {
        match self {
            ToolsRequest::List => RequestView::List,
            ToolsRequest::Enable(id) => RequestView::Enable(id@),
            ToolsRequest::Disable(id) => RequestView::Disable(id@),
            ToolsRequest::EnableUsage => RequestView::EnableUsage,
            ToolsRequest::DisableUsage => RequestView::DisableUsage,
            ToolsRequest::Usage => RequestView::Usage,
        }
    }
}

/// The request that the words `args` make: no word or `list` lists,
/// `enable <id>` and `disable <id>` switch, and the rest earns a usage line.
pub open spec fn request_of(args: Seq<Seq<char>>) -> RequestView {
    if args.len() == 0 || args[0] == "list"@ {
        RequestView::List
    } else if args[0] == "enable"@ {
        if args.len() > 1 {
            RequestView::Enable(args[1])
        } else {
            RequestView::EnableUsage
        }
    } else if args[0] == "disable"@ {
        if args.len() > 1 {
            RequestView::Disable(args[1])
        } else {
            RequestView::DisableUsage
        }
    } else {
        RequestView::Usage
    }
}

/// The line that describes entry `i` of the registry in a listing.
pub open spec fn listing_line<P>(registry: PluginRegistry<P>, i: int) -> Seq<char> {
    let id = registry.installed()[i].0;
    let entry = registry.installed()[i].1;
    "- "@ + id + ": enabled="@ + bool_text(registry.enabled(id)) + " dev_only="@ + bool_text(
        entry_dev_only(entry),
    ) + " cmds=["@ + joined(entry.spec@.commands, ", "@) + "], mentions=["@ + joined(
        entry.spec@.mentions,
        ", "@,
    ) + "]"@
}

/// The lines of a listing: a heading, then one line per installed capability.
pub open spec fn listing_lines<P>(registry: PluginRegistry<P>) -> Seq<Seq<char>> {
    seq!["plugins:"@] + Seq::new(registry.installed().len(), |i: int| listing_line(registry, i))
}

/// The reply to a request, given the registry before the request is applied.
pub open spec fn reply_to<P>(registry: PluginRegistry<P>, request: RequestView) -> Seq<
    char,
> {
    match request {
        RequestView::List => joined(listing_lines(registry), seq!['\n']),
        RequestView::Enable(id) => "enabled plugin: "@ + id,
        RequestView::Disable(id) => "disabled plugin: "@ + id,
        RequestView::EnableUsage => "Usage: !tools enable <id> (alias: !plugins)"@,
        RequestView::DisableUsage => "Usage: !tools disable <id> (alias: !plugins)"@,
        RequestView::Usage => "Usage: !tools [list|enable <id>|disable <id>] (alias: !plugins)"@,
    }
}

/// The change to the runtime overrides that a request asks for: `Enable` and
/// `Disable` name an id and the value to set for it; nothing else changes
/// anything.
pub open spec fn change_of(request: RequestView) -> Option<(Seq<char>, bool)> {
    match request {
        RequestView::Enable(id) => Some((id, true)),
        RequestView::Disable(id) => Some((id, false)),
        _ => None,
    }
}

/// The mathematical content of a pending change.
pub open spec fn change_view(change: Option<(String, bool)>) -> Option<(Seq<char>, bool)> {
    match change {
        Some(c) => Some((c.0@, c.1)),
        None => None,
    }
}

/// The overrides once `change` is made.
pub open spec fn committed(overrides: Pairs<bool>, change: Option<(Seq<char>, bool)>) -> Pairs<bool> {
    match change {
        Some(c) => upsert(overrides, c.0, c.1),
        None => overrides,
    }
}

impl ToolsManager {
    /// Reads the argument tail of a management command: see [`request_of`].
    pub fn parse(&self, args: &str) -> (r: ToolsRequest)
        ensures
            r@ == request_of(words(args@)),
    {
        let v = chars_of(args);
        let parts = split_words(&v);
        let ghost ws = words(args@);
        if parts.len() == 0 {
            return ToolsRequest::List;
        }
        let first = string_of(&parts[0]);
        assert(ws[0] == parts@[0]@);
        if str_eq(first.as_str(), "list") {
            ToolsRequest::List
        } else if str_eq(first.as_str(), "enable") {
            if parts.len() > 1 {
                assert(ws[1] == parts@[1]@);
                ToolsRequest::Enable(string_of(&parts[1]))
            } else {
                ToolsRequest::EnableUsage
            }
        } else if str_eq(first.as_str(), "disable") {
            if parts.len() > 1 {
                assert(ws[1] == parts@[1]@);
                ToolsRequest::Disable(string_of(&parts[1]))
            } else {
                ToolsRequest::DisableUsage
            }
        } else {
            ToolsRequest::Usage
        }
    }

    /// The listing of the installed capabilities.
    pub fn list<P>(&self, registry: &PluginRegistry<P>) -> (out: String)
        requires
            registry.wf(),
        ensures
            out@ == joined(listing_lines(*registry), seq!['\n']),
    {
        let mut rows: Vec<String> = Vec::new();
        rows.push("plugins:".to_owned());
        let n = registry.len();
        let mut i: usize = 0;
        while i < n
            invariant
                i <= n,
                n == registry.installed().len(),
                registry.wf(),
                rows.len() == i + 1,
                rows@[0]@ == "plugins:"@,
                forall|k: int| 0 <= k < i ==> rows@[k + 1]@ == listing_line(*registry, k),
            decreases n - i,
        {
            let id = registry.id_at(i);
            let entry = registry.entry_at(i);
            let enabled = registry.is_enabled(id.as_str());
            let dev_only = entry.dev_only();
            let cmds = join_strings(&entry.spec.triggers.commands, ", ");
            let mentions = join_strings(&entry.spec.triggers.mentions, ", ");
            let line = "- ".to_owned().concat(id.as_str()).concat(": enabled=").concat(
                bool_str(enabled),
            ).concat(" dev_only=").concat(bool_str(dev_only)).concat(" cmds=[").concat(
                cmds.as_str(),
            ).concat("], mentions=[").concat(mentions.as_str()).concat("]");
            rows.push(line);
            i += 1;
        }
        assert(strings_view(rows@) =~= listing_lines(*registry));
        join_lines(&rows)
    }

    /// The reply to `request` and the change that it asks for, if any. The
    /// registry is only read: the change is made by [`ToolsManager::commit`]
    /// once the reply has been sent, so that a request whose reply could not
    /// be sent leaves the registry as it was.
    pub fn answer<P>(&self, registry: &PluginRegistry<P>, request: &ToolsRequest) -> (r: (
        String,
        Option<(String, bool)>,
    ))
        requires
            registry.wf(),
        ensures
            r.0@ == reply_to(*registry, request@),
            change_view(r.1) == change_of(request@),
    {
        match request {
            ToolsRequest::List => (self.list(registry), None),
            ToolsRequest::Enable(id) => (
                "enabled plugin: ".to_owned().concat(id.as_str()),
                Some((id.clone(), true)),
            ),
            ToolsRequest::Disable(id) => (
                "disabled plugin: ".to_owned().concat(id.as_str()),
                Some((id.clone(), false)),
            ),
            ToolsRequest::EnableUsage => ("Usage: !tools enable <id> (alias: !plugins)".to_owned(), None),
            ToolsRequest::DisableUsage => (
                "Usage: !tools disable <id> (alias: !plugins)".to_owned(),
                None,
            ),
            ToolsRequest::Usage => (
                "Usage: !tools [list|enable <id>|disable <id>] (alias: !plugins)".to_owned(),
                None,
            ),
        }
    }

    /// Makes the change that a request asked for: it sets the override of
    /// the id that the change names and touches nothing else.
    pub fn commit<P>(&self, registry: &mut PluginRegistry<P>, change: &Option<(String, bool)>)
        requires
            old(registry).wf(),
        ensures
            final(registry).wf(),
            final(registry).installed() == old(registry).installed(),
            final(registry).commands() == old(registry).commands(),
            final(registry).mentions() == old(registry).mentions(),
            final(registry).overrides() == committed(old(registry).overrides(), change_view(*change)),
    {
        match change {
            Some(c) => registry.set_override(c.0.as_str(), c.1),
            None => {},
        }
    }

    /// Ends a request once it is known whether its reply was sent: the
    /// change is made where it was, and where it was not, the request has
    /// failed and the registry stays exactly as it was.
    pub fn settle<P>(
        &self,
        registry: &mut PluginRegistry<P>,
        change: &Option<(String, bool)>,
        sent: bool,
    )
        requires
            old(registry).wf(),
        ensures
            final(registry).wf(),
            final(registry).installed() == old(registry).installed(),
            final(registry).commands() == old(registry).commands(),
            final(registry).mentions() == old(registry).mentions(),
            final(registry).overrides() == (if sent {
                committed(old(registry).overrides(), change_view(*change))
            } else {
                old(registry).overrides()
            }),
    {
        if sent {
            self.commit(registry, change);
        }
    }
}

impl Plugin for ToolsManager {
    open spec fn traits(&self) -> PluginTraits {
        PluginTraits {
            dev_only: false,
            handles_room_messages: false,
            wants_own_messages: false,
        }
    }

    open spec fn declaration(&self, config: Doc) -> SpecView {
        default_view("tools"@, seq!["!tools"@, "!plugins"@], config)
    }

    fn id(&self) -> (r: String)
        ensures
            r@ == "tools"@,
    {
        "tools".to_owned()
    }

    fn help(&self) -> (r: String)
        ensures
            r@ == "Manage plugins: !tools list | enable <id> | disable <id>"@,
    {
        "Manage plugins: !tools list | enable <id> | disable <id>".to_owned()
    }

    fn dev_only(&self) -> (b: bool) {
        false
    }

    fn handles_room_messages(&self) -> (b: bool) {
        false
    }

    fn wants_own_messages(&self) -> (b: bool) {
        false
    }

    fn spec(&self, config: Value) -> (spec: PluginSpec) {
        let mut commands: Vec<String> = Vec::new();
        commands.push("!tools".to_owned());
        commands.push("!plugins".to_owned());
        assert(strings_view(commands@) =~= seq!["!tools"@, "!plugins"@]);
        default_spec("tools", commands, config)
    }
}

impl PluginFactory for ToolsManagerPlugin {
    fn register_defaults(&self, specs: &mut Vec<PluginSpec>)
        ensures
            specs_view(final(specs)@) == with_default(
                specs_view(old(specs)@),
                default_view(
                    "tools"@,
                    seq!["!tools"@, "!plugins"@],
                    Doc::Scalar(ScalarKind::Null, Seq::empty()),
                ),
            ),
    {
        push_if_absent(specs, ToolsManager.spec(Value::null()));
    }
}

} // verus!
