//! The relay forwarder: how one message is rendered for the peers of its
//! room, and what is sent to each of them in which order.

use crate::relay::RelayOptions;
use crate::strings::{opt_str_view, opt_string_view};
use crate::text::{
    bold, chars_of, extend_chars, extend_range, has_prefix, join_words, joined, push_char,
    range_has_prefix, skip_leading_in, skip_leading_ws, string_of, string_of_range, strip_start_in,
    strip_start_ws, to_bold, trim, trim_range, trimmed, truncated, views,
};
use vstd::prelude::*;

verus! {

/// The kind of content a room message carries.
#[derive(Clone, Copy, Debug, PartialEq, Eq, Structural)]
pub enum MessageKind {
    Text,
    Notice,
    Emote,
    Image,
    File,
    Audio,
    Video,
    Other,
}

/// The word that names a kind of message in the log.
pub open spec fn kind_label(kind: MessageKind) -> Seq<char> {
    match kind {
        MessageKind::Text => "text"@,
        MessageKind::Notice => "notice"@,
        MessageKind::Emote => "emote"@,
        MessageKind::Image => "image"@,
        MessageKind::File => "file"@,
        MessageKind::Audio => "audio"@,
        MessageKind::Video => "video"@,
        MessageKind::Other => "other"@,
    }
}

/// Names the kind of a message for the log.
pub fn message_kind_label(kind: MessageKind) -> (s: &'static str)
    ensures
        s@ == kind_label(kind),
{
    match kind {
        MessageKind::Text => "text",
        MessageKind::Notice => "notice",
        MessageKind::Emote => "emote",
        MessageKind::Image => "image",
        MessageKind::File => "file",
        MessageKind::Audio => "audio",
        MessageKind::Video => "video",
        MessageKind::Other => "other",
    }
}

/// Whether a kind of message is shown as text.
pub open spec fn is_text_like(kind: MessageKind) -> bool {
    kind == MessageKind::Text || kind == MessageKind::Notice || kind == MessageKind::Emote
}

/// Decides whether a kind of message is shown as text.
pub fn is_text_kind(kind: MessageKind) -> (b: bool)
    ensures
        b == is_text_like(kind),
{
    match kind {
        MessageKind::Text | MessageKind::Notice | MessageKind::Emote => true,
        _ => false,
    }
}

/// Whether a kind of message carries a file that can be uploaded anew.
pub open spec fn is_media(kind: MessageKind) -> bool {
    kind == MessageKind::Image || kind == MessageKind::File || kind == MessageKind::Audio || kind
        == MessageKind::Video
}

/// The word for a media message in a caption; other kinds have none.
pub fn media_kind(kind: MessageKind) -> (r: Option<&'static str>)
    ensures
        r is Some == is_media(kind),
        r is Some ==> r->0@ == kind_label(kind),
{
    match kind {
        MessageKind::Image => Some("image"),
        MessageKind::File => Some("file"),
        MessageKind::Audio => Some("audio"),
        MessageKind::Video => Some("video"),
        _ => None,
    }
}

/// The name under which a sender is shown: the display name where the room
/// knows one, the local part of the sender's id otherwise.
pub fn resolve_display_name(display_name: Option<&str>, localpart: &str) -> (name: String)
    ensures
        name@ == (match display_name {
            Some(d) => d@,
            None => localpart@,
        }),
{
    match display_name {
        Some(d) => d.to_owned(),
        None => localpart.to_owned(),
    }
}

/// The first index at or after `from` at which two line feeds follow each
/// other, or `s.len()` if there is no blank line.
pub open spec fn blank_line_from(s: Seq<char>, from: int) -> int
    decreases s.len() - from,
{
    if from < 0 || from + 1 >= s.len() {
        s.len() as int
    } else if s[from] == '\n' && s[from + 1] == '\n' {
        from
    } else {
        blank_line_from(s, from + 1)
    }
}

/// `cur` as a line: a carriage return just before the line feed goes with it.
pub open spec fn finished_line(cur: Seq<char>) -> Seq<char> {
    if cur.len() > 0 && cur.last() == '\r' {
        cur.drop_last()
    } else {
        cur
    }
}

/// `cur` as the last line of a text that does not end in a line feed.
pub open spec fn open_line(cur: Seq<char>) -> Seq<Seq<char>> {
    if cur.len() > 0 {
        seq![cur]
    } else {
        Seq::empty()
    }
}

/// The lines of `s[i..]`, given that `cur` is the line being read at `i`.
pub open spec fn lines_scan(s: Seq<char>, i: int, cur: Seq<char>) -> Seq<Seq<char>>
    decreases s.len() - i,
{
    if i < 0 || i >= s.len() {
        open_line(cur)
    } else if s[i] == '\n' {
        seq![finished_line(cur)] + lines_scan(s, i + 1, Seq::empty())
    } else {
        lines_scan(s, i + 1, cur.push(s[i]))
    }
}

/// The lines of `s`: it is cut at each line feed, a carriage return before a
/// line feed is dropped, and a line feed at the very end opens no further line.
pub open spec fn lines(s: Seq<char>) -> Seq<Seq<char>> {
    lines_scan(s, 0, Seq::empty())
}

/// The quoted text of a line of a reply preamble: what follows `"> "`, or
/// what follows the `>` signs and the white space after them.
pub open spec fn quoted_text(line: Seq<char>) -> Option<Seq<char>> {
    if has_prefix(line, seq!['>', ' ']) {
        Some(line.skip(2))
    } else if line.len() > 0 && line[0] == '>' {
        Some(strip_start_ws(strip_start_in(line, seq!['>'])))
    } else {
        None
    }
}

/// The quoted texts of the first `n` of `block`, in order.
pub open spec fn quoted_lines(block: Seq<Seq<char>>, n: int) -> Seq<Seq<char>>
    decreases n,
{
    if n <= 0 || n > block.len() {
        Seq::empty()
    } else {
        match quoted_text(block[n - 1]) {
            Some(q) => quoted_lines(block, n - 1).push(q),
            None => quoted_lines(block, n - 1),
        }
    }
}

/// The quote and the main text of a message body.
///
/// A body that holds a blank line and, before it, at least one line that
/// opens with `>` is a reply: its quote is the quoted lines joined by single
/// spaces and trimmed, its main text is what follows the blank line, leading
/// line feeds aside. Every other body has no quote and is its own main text.
pub open spec fn reply_parts(body: Seq<char>) -> (Option<Seq<char>>, Seq<char>) {
    let sep = blank_line_from(body, 0);
    let quotes = quoted_lines(lines(body.take(sep)), lines(body.take(sep)).len() as int);
    if sep < body.len() && quotes.len() > 0 {
        (Some(trimmed(joined(quotes, seq![' ']))), strip_start_in(body.skip(sep), seq!['\n']))
    } else {
        (None, body)
    }
}

/// The index of the first blank line of `v`, or `v.len()`.
pub fn find_blank_line(v: &Vec<char>) -> (r: usize)
    ensures
        r == blank_line_from(v@, 0),
        r <= v.len(),
{
    let n = v.len();
    if n < 2 {
        return n;
    }
    let mut i: usize = 0;
    while i < n - 1 && !(v[i] == '\n' && v[i + 1] == '\n')
        invariant
            n == v.len(),
            n >= 2,
            i <= n - 1,
            blank_line_from(v@, 0) == blank_line_from(v@, i as int),
        decreases n - i,
    {
        i += 1;
    }
    if i < n - 1 {
        i
    } else {
        n
    }
}

/// The lines of `v[..end]`: see [`lines`].
pub fn split_lines(v: &Vec<char>, end: usize) -> (out: Vec<Vec<char>>)
    requires
        end <= v.len(),
    ensures
        views(out@) == lines(v@.take(end as int)),
{
    let ghost s = v@.take(end as int);
    let mut out: Vec<Vec<char>> = Vec::new();
    let mut cur: Vec<char> = Vec::new();
    let mut i: usize = 0;
    assert(views(out@) =~= Seq::<Seq<char>>::empty());
    while i < end
        invariant
            i <= end <= v.len(),
            s == v@.take(end as int),
            lines(s) == views(out@) + lines_scan(s, i as int, cur@),
        decreases end - i,
    {
        let c = v[i];
        assert(s[i as int] == c);
        if c == '\n' {
            let n = cur.len();
            if n > 0 && cur[n - 1] == '\r' {
                let _ = cur.pop();
            }
            let ghost before = views(out@);
            let ghost line = cur@;
            out.push(cur);
            cur = Vec::new();
            assert(views(out@) =~= before + seq![line]);
            assert(before + (seq![line] + lines_scan(s, i + 1, Seq::empty())) =~= (before
                + seq![line]) + lines_scan(s, i + 1, Seq::empty()));
        } else {
            cur.push(c);
        }
        i += 1;
    }
    if cur.len() > 0 {
        let ghost before = views(out@);
        let ghost line = cur@;
        out.push(cur);
        assert(views(out@) =~= before + seq![line]);
    } else {
        assert(views(out@) + Seq::<Seq<char>>::empty() =~= views(out@));
    }
    out
}

/// The quoted text of `line`: see [`quoted_text`].
pub fn unquote_line(line: &Vec<char>) -> (r: Option<Vec<char>>)
    ensures
        match r {
            Some(q) => quoted_text(line@) == Some(q@),
            None => quoted_text(line@) is None,
        },
{
    let n = line.len();
    assert(line@.subrange(0, n as int) == line@);
    let mut marker: Vec<char> = Vec::new();
    marker.push('>');
    marker.push(' ');
    assert(marker@ =~= seq!['>', ' ']);
    let mut out: Vec<char> = Vec::new();
    if range_has_prefix(line, 0, n, &marker) {
        extend_range(&mut out, line, 2, n);
        assert(out@ =~= line@.skip(2));
        Some(out)
    } else if n > 0 && line[0] == '>' {
        let mut gt: Vec<char> = Vec::new();
        gt.push('>');
        assert(gt@ =~= seq!['>']);
        let a = skip_leading_in(line, 0, n, &gt);
        let b = skip_leading_ws(line, a, n);
        extend_range(&mut out, line, b, n);
        assert(out@ =~= line@.subrange(b as int, n as int));
        Some(out)
    } else {
        None
    }
}

/// Splits a message body into its quote, if it is a reply, and its main
/// text: see [`reply_parts`].
pub fn split_reply_fallback(body: &str) -> (r: (Option<String>, String))
    ensures
        match r.0 {
            Some(q) => reply_parts(body@).0 == Some(q@),
            None => reply_parts(body@).0 is None,
        },
        r.1@ == reply_parts(body@).1,
{
    let v = chars_of(body);
    let sep = find_blank_line(&v);
    if sep < v.len() {
        let block = split_lines(&v, sep);
        let ghost ls = lines(v@.take(sep as int));
        let mut quotes: Vec<Vec<char>> = Vec::new();
        let mut i: usize = 0;
        assert(views(quotes@) =~= Seq::<Seq<char>>::empty());
        while i < block.len()
            invariant
                i <= block.len(),
                ls == views(block@),
                views(quotes@) == quoted_lines(ls, i as int),
            decreases block.len() - i,
        {
            assert(ls[i as int] == block@[i as int]@);
            match unquote_line(&block[i]) {
                Some(q) => {
                    let ghost before = views(quotes@);
                    let ghost qv = q@;
                    quotes.push(q);
                    assert(views(quotes@) =~= before.push(qv));
                },
                None => {},
            }
            i += 1;
        }
        if quotes.len() > 0 {
            let mut sp: Vec<char> = Vec::new();
            sp.push(' ');
            assert(sp@ =~= seq![' ']);
            let flat = join_words(&quotes, &sp);
            let (a, b) = trim_range(&flat, 0, flat.len());
            assert(flat@.subrange(0, flat.len() as int) == flat@);
            let quoted = string_of_range(&flat, a, b);
            let mut nl: Vec<char> = Vec::new();
            nl.push('\n');
            assert(nl@ =~= seq!['\n']);
            let start = skip_leading_in(&v, sep, v.len(), &nl);
            assert(v@.subrange(sep as int, v.len() as int) =~= v@.skip(sep as int));
            let main = string_of_range(&v, start, v.len());
            return (Some(quoted), main);
        }
    }
    (None, body.to_owned())
}

/// The most a quote shows of the message it answers, in scalar values.
pub const QUOTE_MAX: usize = 300;

/// The mark that opens a quote line: a rightwards arrow with hook, then a space.
pub open spec fn quote_mark() -> Seq<char> {
    seq!['\u{21AA}', ' ']
}

/// The text relayed for a text-like message: the quote line, if there is a
/// quote, then the sender's name, a colon, the prefix and the main text.
pub open spec fn rendered(
    quoted: Option<Seq<char>>,
    display_name_bold: Seq<char>,
    main: Seq<char>,
    prefix: Seq<char>,
) -> Seq<char> {
    (match quoted {
        Some(q) => quote_mark() + truncated(q, QUOTE_MAX as int) + seq!['\n'],
        None => Seq::empty(),
    }) + display_name_bold + seq![':', ' '] + prefix + main
}

/// Renders a relayed text message: see [`rendered`].
pub fn format_output(quoted: Option<String>, display_name_bold: &str, main: &str, prefix: &str) -> (out:
    String)
    ensures
        out@ == rendered(
            match quoted {
                Some(q) => Some(q@),
                None => None,
            },
            display_name_bold@,
            main@,
            prefix@,
        ),
{
    let mut out: Vec<char> = Vec::new();
    match quoted {
        Some(q) => {
            let qv = chars_of(q.as_str());
            let n: usize = if QUOTE_MAX < qv.len() {
                QUOTE_MAX
            } else {
                qv.len()
            };
            out.push('\u{21AA}');
            out.push(' ');
            extend_range(&mut out, &qv, 0, n);
            out.push('\n');
            assert(qv@.subrange(0, n as int) == truncated(q@, QUOTE_MAX as int));
            assert(out@ =~= quote_mark() + truncated(q@, QUOTE_MAX as int) + seq!['\n']);
        },
        None => {},
    }
    let ghost head = out@;
    let name = chars_of(display_name_bold);
    extend_chars(&mut out, &name);
    out.push(':');
    out.push(' ');
    let p = chars_of(prefix);
    extend_chars(&mut out, &p);
    let m = chars_of(main);
    extend_chars(&mut out, &m);
    assert(out@ =~= head + display_name_bold@ + seq![':', ' '] + prefix@ + main@);
    string_of(&out)
}

/// The marker that precedes the main text of an emote.
pub open spec fn emote_prefix() -> Seq<char> {
    seq!['*', ' ']
}

/// The text relayed for a message of kind `kind` with body `body`: text-like
/// kinds are rendered with their quote, every other kind has no text.
pub open spec fn relayed_text(kind: MessageKind, body: Seq<char>, display_name_bold: Seq<char>)
    -> Option<Seq<char>> {
    if is_text_like(kind) {
        Some(
            rendered(
                reply_parts(body).0,
                display_name_bold,
                trimmed(reply_parts(body).1),
                if kind == MessageKind::Emote {
                    emote_prefix()
                } else {
                    Seq::empty()
                },
            ),
        )
    } else {
        None
    }
}

/// Renders a text, notice or emote for relaying; media and other kinds give `None`.
pub fn format_text_message(kind: MessageKind, body: &str, display_name_bold: &str) -> (r: Option<
    String,
>)
    ensures
        match r {
            Some(t) => relayed_text(kind, body@, display_name_bold@) == Some(t@),
            None => relayed_text(kind, body@, display_name_bold@) is None,
        },
{
    match kind {
        MessageKind::Text | MessageKind::Notice | MessageKind::Emote => {
            let (quoted, main) = split_reply_fallback(body);
            let main_trimmed = trim(main.as_str());
            let mut prefix = String::new();
            if kind == MessageKind::Emote {
                push_char(&mut prefix, '*');
                push_char(&mut prefix, ' ');
                assert(prefix@ =~= emote_prefix());
            }
            Some(format_output(quoted, display_name_bold, main_trimmed.as_str(), prefix.as_str()))
        },
        _ => None,
    }
}

/// The line that follows relayed media: the sender's name and what was sent.
pub open spec fn caption_text(display_name_bold: Seq<char>, kind: MessageKind) -> Seq<char> {
    display_name_bold + ": sent a "@ + kind_label(kind)
}

/// The caption of a relayed media message.
pub fn media_caption(display_name_bold: &str, kind: MessageKind) -> (r: Option<String>)
    ensures
        match r {
            Some(t) => is_media(kind) && t@ == caption_text(display_name_bold@, kind),
            None => !is_media(kind),
        },
{
    match media_kind(kind) {
        Some(label) => Some(display_name_bold.to_owned().concat(": sent a ").concat(label)),
        None => None,
    }
}

/// What is known of a message when it is forwarded to one peer room.
pub struct Outgoing {
    /// The kind of the message.
    pub kind: MessageKind,
    /// The rendered text, for text-like messages.
    pub text: Option<String>,
    /// The sender's name in bold.
    pub display_name_bold: String,
    /// The delivery options of the room that the message goes to.
    pub options: RelayOptions,
    /// The body of the message; for media, the file name.
    pub body: String,
    /// The media type that the message declares, if any.
    pub declared_mime: Option<String>,
}

/// Where the delivery to one peer room stands.
#[derive(Clone, Copy, Debug, PartialEq, Eq, Structural)]
pub enum DeliveryState {
    /// Nothing was done yet.
    Start,
    /// The media is being fetched for a fresh upload.
    Fetching,
    /// The fetched media is on its way as a new attachment.
    Uploading,
    /// The message itself is on its way.
    Sending,
    /// The caption is on its way.
    Captioning,
    /// Nothing more will be done.
    Finished,
}

/// What happened to the last thing that was asked for.
#[derive(Clone, Copy, Debug, PartialEq, Eq, Structural)]
pub enum DeliveryEvent {
    /// The delivery begins.
    Begin,
    /// The media was fetched.
    Fetched,
    /// The media could not be fetched.
    FetchFailed,
    /// The room took what was sent.
    Delivered,
    /// Sending failed.
    SendFailed,
}

/// What to do next for one peer room.
#[derive(Debug, PartialEq, Eq)]
pub enum DeliveryStep {
    /// Send this text.
    SendText(String),
    /// Fetch the media of the original message.
    FetchMedia,
    /// Send the fetched media as a new attachment, under this file name and
    /// this media type.
    SendAttachment(String, String),
    /// Send the original content unchanged.
    ForwardOriginal,
    /// Send this caption; its outcome is of no consequence.
    SendCaption(String),
    /// Stop.
    Done,
}

/// The mathematical content of a [`DeliveryStep`].
pub ghost enum StepView {
    SendText(Seq<char>),
    FetchMedia,
    SendAttachment(Seq<char>, Seq<char>),
    ForwardOriginal,
    SendCaption(Seq<char>),
    Done,
}

impl View for DeliveryStep {
    type V = StepView;

    open spec fn view(&self) -> StepView {
        match self {
            DeliveryStep::SendText(t) => StepView::SendText(t@),
            DeliveryStep::FetchMedia => StepView::FetchMedia,
            DeliveryStep::SendAttachment(name, mime) => StepView::SendAttachment(name@, mime@),
            DeliveryStep::ForwardOriginal => StepView::ForwardOriginal,
            DeliveryStep::SendCaption(t) => StepView::SendCaption(t@),
            DeliveryStep::Done => StepView::Done,
        }
    }
}

/// The text of an outgoing message, as a sequence.
pub open spec fn outgoing_text(msg: Outgoing) -> Option<Seq<char>> {
    match msg.text {
        Some(t) => Some(t@),
        None => None,
    }
}

/// Whether a delivered message is followed by a caption.
pub open spec fn wants_caption(msg: Outgoing) -> bool {
    msg.text is None && msg.options.caption_media && is_media(msg.kind)
}

/// The state after `event` arrives in `state`, and the step to take then.
///
/// Text is sent as it is. Media is fetched and sent anew where the room it
/// goes to asks for that, under the file name of the message and under the
/// media type that the message declares. If fetching or the fresh upload
/// fails, and for everything else, the content of the message is forwarded
/// unchanged. A delivered media message is followed by a caption where the
/// room it goes to asks for one. Any other failure ends the delivery to
/// this room and touches no other.
pub open spec fn delivery_next(state: DeliveryState, event: DeliveryEvent, msg: Outgoing) -> (
    DeliveryState,
    StepView,
) {
    match (state, event) {
        (DeliveryState::Start, DeliveryEvent::Begin) => if msg.text is Some {
            (DeliveryState::Sending, StepView::SendText(msg.text->0@))
        } else if is_media(msg.kind) && msg.options.reupload_media {
            (DeliveryState::Fetching, StepView::FetchMedia)
        } else {
            (DeliveryState::Sending, StepView::ForwardOriginal)
        },
        (DeliveryState::Fetching, DeliveryEvent::Fetched) => (
            DeliveryState::Uploading,
            StepView::SendAttachment(msg.body@, media_type_of(opt_string_view(msg.declared_mime))),
        ),
        (DeliveryState::Fetching, DeliveryEvent::FetchFailed) => (
            DeliveryState::Sending,
            StepView::ForwardOriginal,
        ),
        (DeliveryState::Uploading, DeliveryEvent::SendFailed) => (
            DeliveryState::Sending,
            StepView::ForwardOriginal,
        ),
        (DeliveryState::Uploading, DeliveryEvent::Delivered)
        | (DeliveryState::Sending, DeliveryEvent::Delivered) => if wants_caption(msg) {
            (
                DeliveryState::Captioning,
                StepView::SendCaption(caption_text(msg.display_name_bold@, msg.kind)),
            )
        } else {
            (DeliveryState::Finished, StepView::Done)
        },
        _ => (DeliveryState::Finished, StepView::Done),
    }
}

/// Advances the delivery to one peer room: see [`delivery_next`].
pub fn delivery_step(state: DeliveryState, event: DeliveryEvent, msg: &Outgoing) -> (r: (
    DeliveryState,
    DeliveryStep,
))
    ensures
        r.0 == delivery_next(state, event, *msg).0,
        r.1@ == delivery_next(state, event, *msg).1,
{
    match (state, event) {
        (DeliveryState::Start, DeliveryEvent::Begin) => {
            match &msg.text {
                Some(t) => (DeliveryState::Sending, DeliveryStep::SendText(t.clone())),
                None => {
                    if media_kind(msg.kind).is_some() && msg.options.reupload_media {
                        (DeliveryState::Fetching, DeliveryStep::FetchMedia)
                    } else {
                        (DeliveryState::Sending, DeliveryStep::ForwardOriginal)
                    }
                },
            }
        },
        (DeliveryState::Fetching, DeliveryEvent::Fetched) => {
            let media_type = match &msg.declared_mime {
                Some(d) => parse_mime(Some(d.as_str())),
                None => parse_mime(None),
            };
            (DeliveryState::Uploading, DeliveryStep::SendAttachment(msg.body.clone(), media_type))
        },
        (DeliveryState::Fetching, DeliveryEvent::FetchFailed) => (
            DeliveryState::Sending,
            DeliveryStep::ForwardOriginal,
        ),
        (DeliveryState::Uploading, DeliveryEvent::SendFailed) => (
            DeliveryState::Sending,
            DeliveryStep::ForwardOriginal,
        ),
        (DeliveryState::Uploading, DeliveryEvent::Delivered)
        | (DeliveryState::Sending, DeliveryEvent::Delivered) => {
            if msg.text.is_none() && msg.options.caption_media {
                match media_caption(msg.display_name_bold.as_str(), msg.kind) {
                    Some(caption) => (DeliveryState::Captioning, DeliveryStep::SendCaption(caption)),
                    None => (DeliveryState::Finished, DeliveryStep::Done),
                }
            } else {
                (DeliveryState::Finished, DeliveryStep::Done)
            }
        },
        _ => (DeliveryState::Finished, DeliveryStep::Done),
    }
}

/// Prepares a message for forwarding to one room: the sender's name in bold,
/// the rendered text of a text-like message, that room's options, and the
/// body and declared media type of the original.
pub fn prepare_outgoing(
    kind: MessageKind,
    body: &str,
    declared_mime: Option<&str>,
    display_name: &str,
    options: RelayOptions,
) -> (msg: Outgoing)
    ensures
        msg.kind == kind,
        msg.options == options,
        msg.body@ == body@,
        opt_string_view(msg.declared_mime) == opt_str_view(declared_mime),
        msg.display_name_bold@ == bold(display_name@),
        outgoing_text(msg) == relayed_text(kind, body@, bold(display_name@)),
{
    let display_name_bold = to_bold(display_name);
    let text = format_text_message(kind, body, display_name_bold.as_str());
    let declared_mime = match declared_mime {
        Some(d) => Some(d.to_owned()),
        None => None,
    };
    Outgoing { kind, text, display_name_bold, options, body: body.to_owned(), declared_mime }
}

/// A delivery never takes more than five steps, whatever happens: every
/// event moves it forward. A failed send ends it, except that of a fresh
/// upload.
pub proof fn lemma_delivery_progress(state: DeliveryState, event: DeliveryEvent, msg: Outgoing)
    ensures
        delivery_rank(delivery_next(state, event, msg).0) > delivery_rank(state) || delivery_next(
            state,
            event,
            msg,
        ).0 == DeliveryState::Finished,
        event == DeliveryEvent::SendFailed && state != DeliveryState::Uploading ==> delivery_next(
            state,
            event,
            msg,
        ) == (DeliveryState::Finished, StepView::Done),
{
}

/// Media is never dropped because it could not be fetched or uploaded anew:
/// after either failure the original content is forwarded unchanged, and
/// once that is delivered the caption follows as it would have otherwise.
pub proof fn lemma_media_falls_back(msg: Outgoing)
    ensures
        delivery_next(DeliveryState::Fetching, DeliveryEvent::FetchFailed, msg) == (
            DeliveryState::Sending,
            StepView::ForwardOriginal,
        ),
        delivery_next(DeliveryState::Uploading, DeliveryEvent::SendFailed, msg) == (
            DeliveryState::Sending,
            StepView::ForwardOriginal,
        ),
        delivery_next(DeliveryState::Sending, DeliveryEvent::Delivered, msg) == delivery_next(
            DeliveryState::Uploading,
            DeliveryEvent::Delivered,
            msg,
        ),
{
}

/// Without a fresh upload nothing is fetched: the first step for media is to
/// forward the original content.
pub proof fn lemma_no_fetch_without_reupload(msg: Outgoing)
    requires
        msg.text is None,
        !msg.options.reupload_media,
    ensures
        delivery_next(DeliveryState::Start, DeliveryEvent::Begin, msg) == (
            DeliveryState::Sending,
            StepView::ForwardOriginal,
        ),
{
}

/// How far a delivery has come.
pub open spec fn delivery_rank(state: DeliveryState) -> int {
    match state {
        DeliveryState::Start => 0,
        DeliveryState::Fetching => 1,
        DeliveryState::Uploading => 2,
        DeliveryState::Sending => 3,
        DeliveryState::Captioning => 4,
        DeliveryState::Finished => 5,
    }
}

/// The media type that `s` denotes, in the normalized spelling of the `mime`
/// crate; `None` where `s` is no media type.
pub uninterp spec fn parsed_mime(s: Seq<char>) -> Option<Seq<char>>;

/// Trusted: `<mime::Mime as FromStr>::from_str`, with the parsed media type
/// given back as text. The result is named, not described.
#[verifier::external_body]
pub(crate) fn mime_parse(s: &str) -> (r: Option<String>)
    ensures
        r is Some == parsed_mime(s@) is Some,
        r is Some ==> r->0@ == parsed_mime(s@)->0,
{
    match s.parse::<mime::Mime>() {
        Ok(m) => Some(m.as_ref().to_owned()),
        Err(_) => None,
    }
}

/// The media type of content whose type is not known.
pub open spec fn octet_stream() -> Seq<char> {
    "application/octet-stream"@
}

/// The media type that `declared` denotes, or that of arbitrary bytes
/// where nothing is declared or the declaration is no media type.
pub open spec fn media_type_of(declared: Option<Seq<char>>) -> Seq<char> {
    match declared {
        Some(d) => match parsed_mime(d) {
            Some(m) => m,
            None => octet_stream(),
        },
        None => octet_stream(),
    }
}

/// The media type under which an attachment is uploaded anew: see [`media_type_of`].
pub fn parse_mime(declared: Option<&str>) -> (out: String)
    ensures
        out@ == media_type_of(opt_str_view(declared)),
{
    match declared {
        Some(d) => match mime_parse(d) {
            Some(m) => m,
            None => "application/octet-stream".to_owned(),
        },
        None => "application/octet-stream".to_owned(),
    }
}

} // verus!
