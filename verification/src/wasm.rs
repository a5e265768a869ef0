//! Capabilities that ship as WebAssembly components: how a component file
//! becomes a declaration. Running a component is not part of this library.

use crate::plugin::{default_spec, default_view, Plugin, PluginSpec, PluginTraits, SpecView};
use crate::strings::strings_view;
use crate::text::str_eq;
use crate::value::{Doc, ScalarKind, Value};
use vstd::prelude::*;

verus! {

/// Why a component file yields no declaration.
#[derive(Clone, Copy, Debug, PartialEq, Eq, Structural)]
pub enum WasmError {
    /// The file name has no stem to take the id from.
    NoFileStem,
}

/// Trusted: `std::path::Path::file_stem`, as text. What counts as the stem
/// depends on the platform's path syntax, so nothing is claimed of the result.
#[verifier::external_body]
pub(crate) fn path_file_stem(path: &str) -> Option<String> {
    std::path::Path::new(path).file_stem().and_then(|e| e.to_str()).map(|e| e.to_owned())
}

/// The declaration of a component whose file stem is `stem`: the stem is
/// its id, it is enabled, and it has neither trigger nor configuration.
pub open spec fn component_spec(stem: Seq<char>) -> SpecView {
    default_view(stem, Seq::empty(), Doc::Scalar(ScalarKind::Null, Seq::empty()))
}

/// The declaration of a component with the file stem `stem`, if it has one.
pub fn spec_for_stem(stem: Option<&str>) -> (r: Result<PluginSpec, WasmError>)
    ensures
        match r {
            Ok(spec) => stem is Some && spec@ == component_spec(stem->0@),
            Err(e) => stem is None && e == WasmError::NoFileStem,
        },
{
    match stem {
        Some(s) => {
            let none: Vec<String> = Vec::new();
            assert(strings_view(none@) =~= Seq::<Seq<char>>::empty());
            Ok(default_spec(s, none, Value::null()))
        },
        None => Err(WasmError::NoFileStem),
    }
}

/// The default declaration of the component at `path`: its id is the stem
/// of the file name, whatever the platform takes for the stem of `path`.
/// A path without a stem yields [`WasmError::NoFileStem`].
pub fn build_wasm_plugin_spec(path: &str) -> (r: Result<PluginSpec, WasmError>)
    ensures
        r is Ok ==> exists|stem: Seq<char>| r->Ok_0@ == #[trigger] component_spec(stem),
        r is Err ==> r->Err_0 == WasmError::NoFileStem,
{
    let stem = path_file_stem(path);
    match &stem {
        Some(s) => {
            let r = spec_for_stem(Some(s.as_str()));
            assert(r->Ok_0@ == component_spec(s@));
            r
        },
        None => spec_for_stem(None),
    }
}

/// Whether a file with the extension `ext` is taken for a component: the
/// extension must read `wasm`, in small letters.
pub fn is_component_extension(ext: Option<&str>) -> (b: bool)
    ensures
        b == (ext is Some && ext->0@ == "wasm"@),
{
    match ext {
        Some(e) => str_eq(e, "wasm"),
        None => false,
    }
}

/// A capability that lives in a component file.
#[derive(Debug, PartialEq, Eq)]
pub struct WasmPlugin {
    spec: PluginSpec,
    wasm_path: String,
}

/// The help line of a component that cannot say more about itself yet.
pub open spec fn stub_help() -> Seq<char> {
    "WASM plugin (wasm-plugins: stub; runtime wiring pending)"@
}

/// What a component answers while components cannot be executed.
pub open spec fn not_executable(id: Seq<char>, args: Seq<char>, path: Seq<char>) -> Seq<char> {
    "WASM plugin '"@ + id + "' is not yet executable in this build.\n- Args: "@ + args
        + "\n- File: "@ + path
        + "\n- Action: enable 'wasm-plugins' feature and complete wasmtime/WASI integration."@
}

impl WasmPlugin {
    /// The declaration the component was registered with.
    pub closed spec fn declared(&self) -> PluginSpec {
        self.spec
    }

    /// The path of the component file.
    pub closed spec fn path(&self) -> Seq<char> {
        self.wasm_path@
    }

    /// A capability for the component at `wasm_path` with the declaration `spec`.
    pub fn new(spec: PluginSpec, wasm_path: String) -> (p: WasmPlugin)
        ensures
            p.declared() == spec,
            p.path() == wasm_path@,
    {
        WasmPlugin { spec, wasm_path }
    }

    /// The path of the component file.
    pub fn wasm_path(&self) -> (p: &str)
        ensures
            p@ == self.path(),
    {
        self.wasm_path.as_str()
    }

    /// What the component answers to `args` while it cannot be executed.
    pub fn reply(&self, args: &str) -> (out: String)
        ensures
            out@ == not_executable(self.declared().id@, args@, self.path()),
    {
        "WASM plugin '".to_owned().concat(self.spec.id.as_str()).concat(
            "' is not yet executable in this build.\n- Args: ",
        ).concat(args).concat("\n- File: ").concat(self.wasm_path.as_str()).concat(
            "\n- Action: enable 'wasm-plugins' feature and complete wasmtime/WASI integration.",
        )
    }
}

impl Plugin for WasmPlugin {
    open spec fn traits(&self) -> PluginTraits {
        PluginTraits {
            dev_only: false,
            handles_room_messages: false,
            wants_own_messages: false,
        }
    }

    open spec fn declaration(&self, config: Doc) -> SpecView {
        self.declared()@
    }

    fn id(&self) -> (r: String)
        ensures
            r@ == self.declared().id@,
    {
        self.spec.id.clone()
    }

    fn help(&self) -> (r: String)
        ensures
            r@ == stub_help(),
    {
        "WASM plugin (wasm-plugins: stub; runtime wiring pending)".to_owned()
    }

    fn dev_only(&self) -> (b: bool) {
        false
    }

    fn handles_room_messages(&self) -> (b: bool) {
        false
    }

    fn wants_own_messages(&self) -> (b: bool) {
        false
    }

    fn spec(&self, _config: Value) -> (r: PluginSpec) {
        self.spec.duplicate()
    }
}

} // verus!
