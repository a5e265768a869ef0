//! The picture capability: which files it may send and what it says of them.

use crate::builtin::{bool_str, bool_text};
use crate::chance::pick;
use crate::forward::{media_type_of, octet_stream, parse_mime};
use crate::plugin::{
    default_spec, default_view, specs_view, Plugin, PluginFactory, PluginSpec, PluginTraits,
    SpecView,
};
use crate::strings::{contains_string, one_string, opt_str_view, strings_view};
use crate::text::{
    ascii_lowercase, ascii_lowercase_range, chars_of, extend_chars, has_prefix, range_has_prefix,
    skip_leading_in, str_eq, string_of, strip_start_in, trim_range, trimmed,
};
use crate::value::{Doc, ScalarKind, Value};
use vstd::prelude::*;

verus! {

/// The factory of the picture capability.
#[derive(Clone, Copy, Debug, PartialEq, Eq, Structural)]
pub struct GewnPlugin;

/// The picture capability.
#[derive(Clone, Copy, Debug, PartialEq, Eq, Structural)]
pub struct Gewn;

/// The configuration of the picture capability.
#[derive(Debug, PartialEq, Eq)]
pub struct GewnConfig {
    /// Where the pictures are.
    pub directory: String,
    /// The caption to send after a picture; `{filename}` stands for its file name.
    pub caption_template: Option<String>,
    /// The file extensions that count as pictures; none listed admits every file.
    pub extensions: Vec<String>,
    /// Whether subdirectories are searched too.
    pub recursive: bool,
    /// What to say when there is no picture.
    pub fallback_text: Option<String>,
}

/// The directory searched by default.
pub open spec fn default_directory() -> Seq<char> {
    "./plugins/gewn/images"@
}

/// The extensions admitted by default.
pub open spec fn default_extensions() -> Seq<Seq<char>> {
    seq!["jpg"@, "jpeg"@, "png"@, "gif"@, "webp"@]
}

/// The remark sent by default when there is no picture.
pub open spec fn default_fallback() -> Seq<char> {
    "No gewn images found. Add files to ./plugins/gewn/images or update plugins/gewn/config.yaml."@
}

impl Default for GewnConfig {
    fn default() -> (c: GewnConfig)
        ensures
            c.directory@ == default_directory(),
            c.caption_template is None,
            strings_view(c.extensions@) == default_extensions(),
            !c.recursive,
            c.fallback_text is Some && c.fallback_text->0@ == default_fallback(),
    {
        let mut extensions: Vec<String> = Vec::new();
        extensions.push("jpg".to_owned());
        extensions.push("jpeg".to_owned());
        extensions.push("png".to_owned());
        extensions.push("gif".to_owned());
        extensions.push("webp".to_owned());
        assert(strings_view(extensions@) =~= default_extensions());
        GewnConfig {
            directory: "./plugins/gewn/images".to_owned(),
            caption_template: None,
            extensions,
            recursive: false,
            fallback_text: Some(
                "No gewn images found. Add files to ./plugins/gewn/images or update plugins/gewn/config.yaml.".to_owned(),
            ),
        }
    }
}

/// The form under which an extension is compared: trimmed, without leading
/// dots, in ASCII small letters.
pub open spec fn normalized_extension(s: Seq<char>) -> Seq<char> {
    ascii_lowercase(strip_start_in(trimmed(s), seq!['.']))
}

/// The extensions that `list` admits: the non-empty normalized forms of its members.
pub open spec fn admitted(list: Seq<Seq<char>>) -> Set<Seq<char>> {
    Set::new(
        |e: Seq<char>|
            e.len() > 0 && exists|i: int|
                0 <= i < list.len() && normalized_extension(#[trigger] list[i]) == e,
    )
}

/// A set of normalized file extensions.
#[derive(Debug)]
pub struct ExtensionSet {
    items: Vec<String>,
}

impl View for ExtensionSet {
    type V = Set<Seq<char>>;

    closed spec fn view(&self) -> Set<Seq<char>> {
        Set::new(|e: Seq<char>| strings_view(self.items@).contains(e))
    }
}

impl ExtensionSet {
    /// Whether the set holds `ext`.
    pub fn contains(&self, ext: &str) -> (b: bool)
        ensures
            b == self@.contains(ext@),
    {
        contains_string(&self.items, ext)
    }
}

/// Normalizes one configured extension: see [`normalized_extension`].
pub fn normalize_extension(s: &str) -> (out: String)
    ensures
        out@ == normalized_extension(s@),
{
    let v = chars_of(s);
    let (a, b) = trim_range(&v, 0, v.len());
    assert(v@.subrange(0, v.len() as int) == v@);
    let mut dot: Vec<char> = Vec::new();
    dot.push('.');
    assert(dot@ =~= seq!['.']);
    let start = skip_leading_in(&v, a, b, &dot);
    string_of(&ascii_lowercase_range(&v, start, b))
}

/// The set of extensions that `list` admits, or `None` where it admits
/// none by name, which admits every file.
pub fn normalize_extensions(list: &Vec<String>) -> (r: Option<ExtensionSet>)
    ensures
        r is None == (admitted(strings_view(list@)) == Set::<Seq<char>>::empty()),
        r is Some ==> r->0@ == admitted(strings_view(list@)),
{
    let ghost lv = strings_view(list@);
    let mut items: Vec<String> = Vec::new();
    let mut i: usize = 0;
    while i < list.len()
        invariant
            i <= list.len(),
            lv == strings_view(list@),
            forall|e: Seq<char>|
                strings_view(items@).contains(e) <==> (e.len() > 0 && exists|k: int|
                    0 <= k < i && normalized_extension(#[trigger] lv[k]) == e),
        decreases list.len() - i,
    {
        let ext = normalize_extension(list[i].as_str());
        assert(lv[i as int] == list@[i as int]@);
        let ghost before = strings_view(items@);
        let n = ext.as_str().unicode_len();
        if n > 0 && !contains_string(&items, ext.as_str()) {
            items.push(ext);
            proof {
                let after = strings_view(items@);
                assert(after =~= before.push(ext@));
                assert forall|e: Seq<char>| after.contains(e) <==> (e.len() > 0 && exists|k: int|
                    0 <= k < i + 1 && normalized_extension(#[trigger] lv[k]) == e) by {
                    if after.contains(e) {
                        let j = choose|j: int| 0 <= j < after.len() && after[j] == e;
                        if j < before.len() {
                            assert(before[j] == e);
                            assert(before.contains(e));
                        } else {
                            assert(normalized_extension(lv[i as int]) == e);
                        }
                    }
                    if e.len() > 0 && exists|k: int|
                        0 <= k < i + 1 && normalized_extension(#[trigger] lv[k]) == e {
                        let k = choose|k: int|
                            0 <= k < i + 1 && normalized_extension(#[trigger] lv[k]) == e;
                        if k < i {
                            assert(before.contains(e));
                            let j = choose|j: int| 0 <= j < before.len() && before[j] == e;
                            assert(after[j] == e);
                        } else {
                            assert(after[before.len() as int] == e);
                        }
                    }
                }
            }
        } else {
            proof {
                assert forall|e: Seq<char>| before.contains(e) <==> (e.len() > 0 && exists|k: int|
                    0 <= k < i + 1 && normalized_extension(#[trigger] lv[k]) == e) by {
                    if e.len() > 0 && exists|k: int|
                        0 <= k < i + 1 && normalized_extension(#[trigger] lv[k]) == e {
                        let k = choose|k: int|
                            0 <= k < i + 1 && normalized_extension(#[trigger] lv[k]) == e;
                        if k == i {
                            assert(e == ext@);
                        }
                    }
                }
            }
        }
        i += 1;
    }
    let len = items.len();
    let set = ExtensionSet { items };
    proof {
        assert(set@ =~= admitted(lv));
        if len > 0 {
            let first = strings_view(set.items@)[0];
            assert(strings_view(set.items@).contains(first));
            assert(set@.contains(first));
            assert(!Set::<Seq<char>>::empty().contains(first));
        } else {
            assert(set@ =~= Set::<Seq<char>>::empty());
        }
    }
    if len == 0 {
        None
    } else {
        Some(set)
    }
}

/// Whether a file with the extension `ext` may be sent: every file where no
/// extension is named, else a file whose extension is admitted, ASCII case aside.
pub open spec fn permitted(exts: Option<Set<Seq<char>>>, ext: Option<Seq<char>>) -> bool {
    match exts {
        None => true,
        Some(allowed) => ext is Some && allowed.contains(ascii_lowercase(ext->0)),
    }
}

/// The view of an optional extension set.
pub open spec fn exts_view(exts: Option<ExtensionSet>) -> Option<Set<Seq<char>>> {
    match exts {
        Some(s) => Some(s@),
        None => None,
    }
}

/// Decides whether a file with the extension `ext` may be sent: see [`permitted`].
pub fn extension_permitted(exts: &Option<ExtensionSet>, ext: Option<&str>) -> (b: bool)
    ensures
        b == permitted(
            exts_view(*exts),
            opt_str_view(ext),
        ),
{
    match exts {
        None => true,
        Some(allowed) => match ext {
            None => false,
            Some(e) => {
                let v = chars_of(e);
                let lowered = string_of(&ascii_lowercase_range(&v, 0, v.len()));
                assert(v@.subrange(0, v.len() as int) == v@);
                allowed.contains(lowered.as_str())
            },
        },
    }
}

/// Trusted: `std::path::Path::extension`, as text. What counts as the
/// extension of a path depends on the platform's path syntax, so nothing is
/// claimed of the result.
#[verifier::external_body]
pub(crate) fn path_extension(path: &str) -> Option<String> {
    std::path::Path::new(path).extension().and_then(|e| e.to_str()).map(|e| e.to_owned())
}

/// Trusted: `std::path::Path::file_name`, as text. What counts as the file
/// name of a path depends on the platform's path syntax, so nothing is
/// claimed of the result.
#[verifier::external_body]
pub(crate) fn path_file_name(path: &str) -> Option<String> {
    std::path::Path::new(path).file_name().and_then(|e| e.to_str()).map(|e| e.to_owned())
}

/// Whether the file at `path` may be sent, going by its extension, whatever
/// the platform takes for the extension of `path`.
pub fn extension_allowed(exts: &Option<ExtensionSet>, path: &str) -> (b: bool)
    ensures
        exists|ext: Option<Seq<char>>| b == #[trigger] permitted(exts_view(*exts), ext),
        exts is None ==> b,
{
    let ext = path_extension(path);
    match &ext {
        Some(e) => {
            let b = extension_permitted(exts, Some(e.as_str()));
            assert(b == permitted(exts_view(*exts), Some(e@)));
            b
        },
        None => {
            let b = extension_permitted(exts, None);
            assert(b == permitted(exts_view(*exts), None));
            b
        },
    }
}

/// The media type of a file with the extension `ext`. Pictures of the
/// common kinds have their registered media type; everything else is
/// arbitrary bytes.
pub open spec fn mime_of_extension(ext: Option<Seq<char>>) -> Seq<char> {
    match ext {
        None => octet_stream(),
        Some(e) => {
            let l = ascii_lowercase(e);
            if l == "jpg"@ || l == "jpeg"@ {
                "image/jpeg"@
            } else if l == "png"@ {
                "image/png"@
            } else if l == "gif"@ {
                "image/gif"@
            } else if l == "webp"@ {
                media_type_of(Some("image/webp"@))
            } else if l == "bmp"@ {
                media_type_of(Some("image/bmp"@))
            } else if l == "heic"@ {
                media_type_of(Some("image/heic"@))
            } else {
                octet_stream()
            }
        },
    }
}

/// The media type of a file with the extension `ext`: see [`mime_of_extension`].
pub fn mime_for_extension(ext: Option<&str>) -> (m: String)
    ensures
        m@ == mime_of_extension(opt_str_view(ext)),
{
    match ext {
        None => "application/octet-stream".to_owned(),
        Some(e) => {
            let v = chars_of(e);
            let lowered = string_of(&ascii_lowercase_range(&v, 0, v.len()));
            assert(v@.subrange(0, v.len() as int) == v@);
            let l = lowered.as_str();
            if str_eq(l, "jpg") || str_eq(l, "jpeg") {
                "image/jpeg".to_owned()
            } else if str_eq(l, "png") {
                "image/png".to_owned()
            } else if str_eq(l, "gif") {
                "image/gif".to_owned()
            } else if str_eq(l, "webp") {
                parse_mime(Some("image/webp"))
            } else if str_eq(l, "bmp") {
                parse_mime(Some("image/bmp"))
            } else if str_eq(l, "heic") {
                parse_mime(Some("image/heic"))
            } else {
                "application/octet-stream".to_owned()
            }
        },
    }
}

/// The media type to send the file at `path` under, going by its
/// extension, whatever the platform takes for the extension of `path`.
pub fn guess_mime(path: &str) -> (m: String)
    ensures
        exists|ext: Option<Seq<char>>| m@ == #[trigger] mime_of_extension(ext),
{
    let ext = path_extension(path);
    match &ext {
        Some(e) => {
            let m = mime_for_extension(Some(e.as_str()));
            assert(m@ == mime_of_extension(Some(e@)));
            m
        },
        None => {
            let m = mime_for_extension(None);
            assert(m@ == mime_of_extension(None));
            m
        },
    }
}

/// `s` with every occurrence of `pat` replaced by `with`, reading from the
/// left and never looking at replaced text again. An empty `pat` occurs nowhere.
pub open spec fn replaced(s: Seq<char>, pat: Seq<char>, with: Seq<char>) -> Seq<char>
    decreases s.len(),
{
    if pat.len() == 0 || s.len() < pat.len() {
        s
    } else if has_prefix(s, pat) {
        with + replaced(s.skip(pat.len() as int), pat, with)
    } else {
        seq![s[0]] + replaced(s.skip(1), pat, with)
    }
}

/// Replaces every occurrence of `pat` in `s` by `with`: see [`replaced`].
pub fn replace_all(s: &Vec<char>, pat: &Vec<char>, with: &Vec<char>) -> (out: Vec<char>)
    ensures
        out@ == replaced(s@, pat@, with@),
{
    if pat.len() == 0 {
        return s.clone();
    }
    let n = s.len();
    let mut out: Vec<char> = Vec::new();
    let mut i: usize = 0;
    assert(s@.skip(0) =~= s@);
    while i < n
        invariant
            i <= n,
            n == s.len(),
            pat.len() > 0,
            out@ + replaced(s@.skip(i as int), pat@, with@) == replaced(s@, pat@, with@),
        decreases n - i,
    {
        let ghost rest = s@.skip(i as int);
        assert(s@.subrange(i as int, n as int) =~= rest);
        if n - i >= pat.len() && range_has_prefix(s, i, n, pat) {
            let ghost before = out@;
            extend_chars(&mut out, with);
            assert(rest.skip(pat.len() as int) =~= s@.skip(i + pat.len()));
            assert(before + (with@ + replaced(s@.skip(i + pat.len()), pat@, with@)) =~= (before
                + with@) + replaced(s@.skip(i + pat.len()), pat@, with@));
            i += pat.len();
        } else {
            let ghost before = out@;
            out.push(s[i]);
            proof {
                assert(rest.skip(1) =~= s@.skip(i + 1));
                if rest.len() < pat.len() {
                    lemma_replaced_short(rest, pat@, with@);
                    assert(before + rest =~= (before + seq![s@[i as int]]) + s@.skip(i + 1));
                    lemma_replaced_short(s@.skip(i + 1), pat@, with@);
                } else {
                    assert(before + (seq![rest[0]] + replaced(rest.skip(1), pat@, with@)) =~= (
                    before + seq![rest[0]]) + replaced(rest.skip(1), pat@, with@));
                }
            }
            i += 1;
        }
    }
    assert(s@.skip(n as int) =~= Seq::<char>::empty());
    assert(out@ + Seq::<char>::empty() =~= out@);
    out
}

/// A text shorter than the pattern holds no occurrence of it.
pub proof fn lemma_replaced_short(s: Seq<char>, pat: Seq<char>, with: Seq<char>)
    requires
        s.len() < pat.len(),
    ensures
        replaced(s, pat, with) == s,
{
}

/// The file name that stands in a caption where the path has none.
pub open spec fn unnamed() -> Seq<char> {
    "gewn"@
}

/// The caption for a file named `file_name`: the template with the name in
/// the place of every `{filename}`.
pub open spec fn caption_of(template: Seq<char>, file_name: Option<Seq<char>>) -> Seq<char> {
    replaced(
        template,
        "{filename}"@,
        match file_name {
            Some(n) => n,
            None => unnamed(),
        },
    )
}

/// Fills the file name into the caption template: see [`caption_of`].
pub fn caption_for(template: &str, file_name: Option<&str>) -> (out: String)
    ensures
        out@ == caption_of(
            template@,
            opt_str_view(file_name),
        ),
{
    let name = match file_name {
        Some(n) => chars_of(n),
        None => chars_of("gewn"),
    };
    string_of(&replace_all(&chars_of(template), &chars_of("{filename}"), &name))
}

/// The caption to send with the file at `path`, if captions are
/// configured: the template with the file name filled in, whatever the
/// platform takes for the file name of `path`.
pub fn render_caption(config: &GewnConfig, path: &str) -> (r: Option<String>)
    ensures
        r is Some == config.caption_template is Some,
        r is Some ==> exists|name: Option<Seq<char>>|
            r->0@ == #[trigger] caption_of(config.caption_template->0@, name),
{
    match &config.caption_template {
        None => None,
        Some(template) => {
            let name = path_file_name(path);
            match &name {
                Some(n) => {
                    let c = caption_for(template.as_str(), Some(n.as_str()));
                    assert(c@ == caption_of(template@, Some(n@)));
                    Some(c)
                },
                None => {
                    let c = caption_for(template.as_str(), None);
                    assert(c@ == caption_of(template@, None));
                    Some(c)
                },
            }
        },
    }
}

/// What the capability does once the candidate files are known.
#[derive(Debug, PartialEq, Eq)]
pub enum GewnChoice {
    /// There is no picture and nothing to say.
    Silent,
    /// There is no picture; say this.
    Fallback(String),
    /// Send the picture at this path.
    Send(String),
}

impl Gewn {
    /// Chooses among the candidate files: one of them at random, or the
    /// configured remark where there is none.
    pub fn select(&self, config: &GewnConfig, candidates: &Vec<String>) -> (c: GewnChoice)
        ensures
            candidates@.len() == 0 && config.fallback_text is None ==> c == GewnChoice::Silent,
            candidates@.len() == 0 && config.fallback_text is Some ==> c is Fallback
                && c->Fallback_0@ == config.fallback_text->0@,
            candidates@.len() > 0 ==> c is Send && strings_view(candidates@).contains(
                c->Send_0@,
            ),
    {
        match pick(candidates) {
            Some(path) => GewnChoice::Send(path),
            None => match &config.fallback_text {
                Some(text) => GewnChoice::Fallback(text.clone()),
                None => GewnChoice::Silent,
            },
        }
    }
}

impl Plugin for Gewn {
    open spec fn traits(&self) -> PluginTraits {
        PluginTraits {
            dev_only: false,
            handles_room_messages: false,
            wants_own_messages: false,
        }
    }

    open spec fn declaration(&self, config: Doc) -> SpecView {
        default_view("gewn"@, seq!["!gewn"@], config)
    }

    fn id(&self) -> (r: String)
        ensures
            r@ == "gewn"@,
    {
        "gewn".to_owned()
    }

    fn help(&self) -> (r: String)
        ensures
            r@ == "Send a random gewn picture (-- configurable directory/caption)."@,
    {
        "Send a random gewn picture (-- configurable directory/caption).".to_owned()
    }

    fn dev_only(&self) -> (b: bool) {
        false
    }

    fn handles_room_messages(&self) -> (b: bool) {
        false
    }

    fn wants_own_messages(&self) -> (b: bool) {
        false
    }

    fn spec(&self, config: Value) -> (spec: PluginSpec) {
        default_spec("gewn", one_string("!gewn"), config)
    }
}

/// An optional string as a document: the string, or null.
pub open spec fn opt_text_doc(s: Option<String>) -> Doc {
    match s {
        Some(t) => Doc::Scalar(ScalarKind::String, t@),
        None => Doc::Scalar(ScalarKind::Null, Seq::empty()),
    }
}

/// A list of strings as a document.
pub open spec fn texts_doc(list: Seq<Seq<char>>) -> Doc {
    Doc::Sequence(Seq::new(list.len(), |i: int| Doc::Scalar(ScalarKind::String, list[i])))
}

/// A truth value as a document.
pub open spec fn bool_doc(b: bool) -> Doc {
    Doc::Scalar(ScalarKind::Bool, bool_text(b))
}

/// A configuration as a document: a mapping with one entry per field, in
/// the order of the fields.
pub open spec fn config_doc(config: GewnConfig) -> Doc {
    Doc::Mapping(
        seq![
            (Doc::Scalar(ScalarKind::String, "directory"@), Doc::Scalar(
                ScalarKind::String,
                config.directory@,
            )),
            (Doc::Scalar(ScalarKind::String, "caption_template"@), opt_text_doc(
                config.caption_template,
            )),
            (Doc::Scalar(ScalarKind::String, "extensions"@), texts_doc(
                strings_view(config.extensions@),
            )),
            (Doc::Scalar(ScalarKind::String, "recursive"@), bool_doc(config.recursive)),
            (Doc::Scalar(ScalarKind::String, "fallback_text"@), opt_text_doc(config.fallback_text)),
        ],
    )
}

/// An optional string as a document.
pub fn opt_text_value(s: &Option<String>) -> (v: Value)
    ensures
        v@ == opt_text_doc(*s),
{
    match s {
        Some(t) => Value::string(t.as_str()),
        None => Value::null(),
    }
}

impl GewnConfig {
    /// The configuration as a document: see [`config_doc`].
    pub fn to_value(&self) -> (v: Value)
        ensures
            v@ == config_doc(*self),
    {
        let mut exts: Vec<Value> = Vec::new();
        let mut i: usize = 0;
        while i < self.extensions.len()
            invariant
                i <= self.extensions.len(),
                exts.len() == i,
                forall|k: int|
                    0 <= k < i ==> exts@[k]@ == Doc::Scalar(
                        ScalarKind::String,
                        self.extensions@[k]@,
                    ),
            decreases self.extensions.len() - i,
        {
            exts.push(Value::string(self.extensions[i].as_str()));
            i += 1;
        }
        let ext_value = Value::Sequence(exts);
        assert(ext_value@->Sequence_0 =~= texts_doc(strings_view(self.extensions@))->Sequence_0);
        assert(ext_value@ == texts_doc(strings_view(self.extensions@)));
        let mut entries: Vec<(Value, Value)> = Vec::new();
        entries.push((Value::string("directory"), Value::string(self.directory.as_str())));
        entries.push((Value::string("caption_template"), opt_text_value(&self.caption_template)));
        entries.push((Value::string("extensions"), ext_value));
        let recursive = Value::Scalar(
            ScalarKind::Bool,
            bool_str(self.recursive).to_owned(),
        );
        assert(recursive@ == bool_doc(self.recursive));
        entries.push((Value::string("recursive"), recursive));
        entries.push((Value::string("fallback_text"), opt_text_value(&self.fallback_text)));
        let ghost want = config_doc(*self)->Mapping_0;
        let v = Value::Mapping(entries);
        proof {
            let got = v@->Mapping_0;
            assert(got.len() == 5 && want.len() == 5);
            assert(got[0] == want[0]);
            assert(got[1] == want[1]);
            assert(got[2] == want[2]);
            assert(got[3] == want[3]);
            assert(got[4] == want[4]);
            assert(got =~= want);
        }
        v
    }
}

impl PluginFactory for GewnPlugin {
    /// Adds the declaration of the picture capability, with the default
    /// configuration, at the end of `specs`, whatever `specs` holds.
    fn register_defaults(&self, specs: &mut Vec<PluginSpec>)
        ensures
            final(specs)@.len() == old(specs)@.len() + 1,
            specs_view(final(specs)@).drop_last() == specs_view(old(specs)@),
            specs_view(final(specs)@).last().id == "gewn"@,
            specs_view(final(specs)@).last().enabled,
            specs_view(final(specs)@).last().dev_only is None,
            specs_view(final(specs)@).last().commands == seq!["!gewn"@],
            specs_view(final(specs)@).last().mentions.len() == 0,
    {
        let config = GewnConfig::default().to_value();
        let ghost before = specs_view(specs@);
        specs.push(default_spec("gewn", one_string("!gewn"), config));
        assert(specs_view(specs@).drop_last() =~= before);
    }
}

/// What to do with an entry of a directory that is searched for pictures.
#[derive(Clone, Copy, Debug, PartialEq, Eq, Structural)]
pub enum EntryAction {
    /// Search the directory too.
    Descend,
    /// Take the file as a candidate.
    Collect,
    /// Pass over the entry.
    Skip,
}

/// What to do with a directory entry: a directory is searched where the
/// search is recursive, a file is taken where its extension is admitted.
pub fn visit_entry(is_dir: bool, is_file: bool, recursive: bool, extension_ok: bool) -> (a:
    EntryAction)
    ensures
        a == (if is_dir {
            if recursive {
                EntryAction::Descend
            } else {
                EntryAction::Skip
            }
        } else if is_file && extension_ok {
            EntryAction::Collect
        } else {
            EntryAction::Skip
        }),
{
    if is_dir {
        if recursive {
            EntryAction::Descend
        } else {
            EntryAction::Skip
        }
    } else if is_file && extension_ok {
        EntryAction::Collect
    } else {
        EntryAction::Skip
    }
}

} // verus!
