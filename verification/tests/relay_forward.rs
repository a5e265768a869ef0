use matrix_ping_bot::forward::{
    delivery_step, format_output, format_text_message, media_caption, media_kind,
    message_kind_label, parse_mime, prepare_outgoing, resolve_display_name, split_reply_fallback,
    DeliveryEvent, DeliveryState, DeliveryStep, MessageKind, Outgoing,
};
use matrix_ping_bot::relay::RelayOptions;

const BOB: &str = "\u{1D401}\u{1D428}\u{1D41B}";

fn options(reupload_media: bool, caption_media: bool) -> RelayOptions {
    RelayOptions { reupload_media, caption_media }
}

#[test]
fn bodies_without_a_quote_are_their_own_main_text() {
    assert_eq!(split_reply_fallback("hello"), (None, "hello".to_owned()));
    assert_eq!(split_reply_fallback("a\n\nb"), (None, "a\n\nb".to_owned()));
    assert_eq!(split_reply_fallback("> a\nb"), (None, "> a\nb".to_owned()));
    assert_eq!(split_reply_fallback(""), (None, "".to_owned()));
    assert_eq!(split_reply_fallback("\n\n> a"), (None, "\n\n> a".to_owned()));
}

#[test]
fn reply_fallback_is_split_into_quote_and_main_text() {
    assert_eq!(
        split_reply_fallback("> <@a:x> hi\n> there\n\nyes"),
        (Some("<@a:x> hi there".to_owned()), "yes".to_owned())
    );
    assert_eq!(
        split_reply_fallback(">>  deep\n>\nplain\n> last \n\n\n\nmain\n\nmore"),
        (Some("deep  last".to_owned()), "main\n\nmore".to_owned())
    );
    assert_eq!(
        split_reply_fallback("> q\r\n> r\n\nm"),
        (Some("q r".to_owned()), "m".to_owned())
    );
    assert_eq!(split_reply_fallback(">\n\nm"), (Some("".to_owned()), "m".to_owned()));
}

#[test]
fn output_has_quote_line_name_and_text() {
    assert_eq!(format_output(None, BOB, "hi", ""), format!("{BOB}: hi"));
    assert_eq!(
        format_output(Some("quoted".to_owned()), BOB, "hi", "* "),
        format!("\u{21AA} quoted\n{BOB}: * hi")
    );
    let long = "q".repeat(305);
    assert_eq!(
        format_output(Some(long), "n", "m", ""),
        format!("\u{21AA} {}\nn: m", "q".repeat(300))
    );
}

#[test]
fn text_like_messages_are_rendered_and_media_is_not() {
    assert_eq!(
        format_text_message(MessageKind::Text, "  hi \n", BOB),
        Some(format!("{BOB}: hi"))
    );
    assert_eq!(
        format_text_message(MessageKind::Notice, "> old\n\n new ", BOB),
        Some(format!("\u{21AA} old\n{BOB}: new"))
    );
    assert_eq!(
        format_text_message(MessageKind::Emote, "waves", BOB),
        Some(format!("{BOB}: * waves"))
    );
    for kind in [
        MessageKind::Image,
        MessageKind::File,
        MessageKind::Audio,
        MessageKind::Video,
        MessageKind::Other,
    ] {
        assert_eq!(format_text_message(kind, "x.png", BOB), None);
    }
}

#[test]
fn media_kinds_have_caption_words() {
    assert_eq!(media_kind(MessageKind::Image), Some("image"));
    assert_eq!(media_kind(MessageKind::File), Some("file"));
    assert_eq!(media_kind(MessageKind::Audio), Some("audio"));
    assert_eq!(media_kind(MessageKind::Video), Some("video"));
    assert_eq!(media_kind(MessageKind::Text), None);
    assert_eq!(media_kind(MessageKind::Other), None);
    assert_eq!(message_kind_label(MessageKind::Notice), "notice");
    assert_eq!(message_kind_label(MessageKind::Other), "other");
    assert_eq!(media_caption(BOB, MessageKind::Video), Some(format!("{BOB}: sent a video")));
    assert_eq!(media_caption(BOB, MessageKind::Emote), None);
}

#[test]
fn display_name_falls_back_to_the_localpart() {
    assert_eq!(resolve_display_name(Some("Bob"), "bob"), "Bob");
    assert_eq!(resolve_display_name(None, "bob"), "bob");
}

#[test]
fn outgoing_message_carries_bold_name_and_text() {
    let msg = prepare_outgoing(MessageKind::Text, "hi", None, "Bob", options(true, false));
    assert_eq!(msg.display_name_bold, BOB);
    assert_eq!(msg.text, Some(format!("{BOB}: hi")));
    assert_eq!(msg.options, options(true, false));
    let media = prepare_outgoing(MessageKind::Image, "cat.png", Some("image/png"), "Bob", options(true, true));
    assert_eq!(media.text, None);
    assert_eq!(media.kind, MessageKind::Image);
    assert_eq!(media.body, "cat.png");
    assert_eq!(media.declared_mime, Some("image/png".to_owned()));
}

#[test]
fn a_fresh_upload_keeps_file_name_and_media_type() {
    let declared = prepare_outgoing(
        MessageKind::File,
        "notes.txt",
        Some("Text/Plain; Charset=UTF-8"),
        "Bob",
        options(true, true),
    );
    assert_eq!(
        delivery_step(DeliveryState::Fetching, DeliveryEvent::Fetched, &declared),
        (
            DeliveryState::Uploading,
            DeliveryStep::SendAttachment(
                "notes.txt".to_owned(),
                "text/plain; charset=utf-8".to_owned()
            )
        )
    );
    let silent = prepare_outgoing(MessageKind::Audio, "a.ogg", None, "Bob", options(true, true));
    assert_eq!(
        delivery_step(DeliveryState::Fetching, DeliveryEvent::Fetched, &silent).1,
        DeliveryStep::SendAttachment("a.ogg".to_owned(), "application/octet-stream".to_owned())
    );
    let odd = prepare_outgoing(MessageKind::Video, "v", Some("no type"), "Bob", options(true, true));
    assert_eq!(
        delivery_step(DeliveryState::Fetching, DeliveryEvent::Fetched, &odd).1,
        DeliveryStep::SendAttachment("v".to_owned(), "application/octet-stream".to_owned())
    );
}

fn media(kind: MessageKind, reupload: bool, caption: bool) -> Outgoing {
    prepare_outgoing(kind, "file.bin", Some("Image/PNG"), "Bob", options(reupload, caption))
}

#[test]
fn text_is_sent_and_never_captioned() {
    let msg = prepare_outgoing(MessageKind::Emote, "waves", None, "Bob", options(true, true));
    assert_eq!(
        delivery_step(DeliveryState::Start, DeliveryEvent::Begin, &msg),
        (DeliveryState::Sending, DeliveryStep::SendText(format!("{BOB}: * waves")))
    );
    assert_eq!(
        delivery_step(DeliveryState::Sending, DeliveryEvent::Delivered, &msg),
        (DeliveryState::Finished, DeliveryStep::Done)
    );
}

#[test]
fn media_is_fetched_and_sent_anew_where_asked_for() {
    let msg = media(MessageKind::Image, true, true);
    assert_eq!(
        delivery_step(DeliveryState::Start, DeliveryEvent::Begin, &msg),
        (DeliveryState::Fetching, DeliveryStep::FetchMedia)
    );
    assert_eq!(
        delivery_step(DeliveryState::Fetching, DeliveryEvent::Fetched, &msg),
        (
            DeliveryState::Uploading,
            DeliveryStep::SendAttachment("file.bin".to_owned(), "image/png".to_owned())
        )
    );
    assert_eq!(
        delivery_step(DeliveryState::Uploading, DeliveryEvent::Delivered, &msg),
        (DeliveryState::Captioning, DeliveryStep::SendCaption(format!("{BOB}: sent a image")))
    );
    assert_eq!(
        delivery_step(DeliveryState::Captioning, DeliveryEvent::Delivered, &msg),
        (DeliveryState::Finished, DeliveryStep::Done)
    );
    assert_eq!(
        delivery_step(DeliveryState::Captioning, DeliveryEvent::SendFailed, &msg),
        (DeliveryState::Finished, DeliveryStep::Done)
    );
}

#[test]
fn failed_fetch_degrades_to_forwarding_the_original() {
    let msg = media(MessageKind::File, true, false);
    assert_eq!(
        delivery_step(DeliveryState::Fetching, DeliveryEvent::FetchFailed, &msg),
        (DeliveryState::Sending, DeliveryStep::ForwardOriginal)
    );
    assert_eq!(
        delivery_step(DeliveryState::Sending, DeliveryEvent::Delivered, &msg),
        (DeliveryState::Finished, DeliveryStep::Done)
    );
}

#[test]
fn failed_upload_degrades_to_forwarding_the_original() {
    let msg = media(MessageKind::Video, true, true);
    assert_eq!(
        delivery_step(DeliveryState::Uploading, DeliveryEvent::SendFailed, &msg),
        (DeliveryState::Sending, DeliveryStep::ForwardOriginal)
    );
    assert_eq!(
        delivery_step(DeliveryState::Sending, DeliveryEvent::Delivered, &msg),
        (DeliveryState::Captioning, DeliveryStep::SendCaption(format!("{BOB}: sent a video")))
    );
    let quiet = media(MessageKind::File, true, false);
    assert_eq!(
        delivery_step(DeliveryState::Uploading, DeliveryEvent::SendFailed, &quiet),
        (DeliveryState::Sending, DeliveryStep::ForwardOriginal)
    );
    assert_eq!(
        delivery_step(DeliveryState::Uploading, DeliveryEvent::Delivered, &quiet),
        (DeliveryState::Finished, DeliveryStep::Done)
    );
}

#[test]
fn a_delivery_ends_within_five_steps_whatever_happens() {
    let events = [
        DeliveryEvent::Begin,
        DeliveryEvent::Fetched,
        DeliveryEvent::FetchFailed,
        DeliveryEvent::Delivered,
        DeliveryEvent::SendFailed,
    ];
    let msg = media(MessageKind::Image, true, true);
    for a in events {
        for b in events {
            for c in events {
                for d in events {
                    for e in events {
                        let mut state = DeliveryState::Start;
                        for ev in [a, b, c, d, e] {
                            state = delivery_step(state, ev, &msg).0;
                        }
                        assert_eq!(state, DeliveryState::Finished);
                    }
                }
            }
        }
    }
}

#[test]
fn media_is_forwarded_unchanged_without_reupload() {
    let msg = media(MessageKind::Audio, false, true);
    assert_eq!(
        delivery_step(DeliveryState::Start, DeliveryEvent::Begin, &msg),
        (DeliveryState::Sending, DeliveryStep::ForwardOriginal)
    );
    assert_eq!(
        delivery_step(DeliveryState::Sending, DeliveryEvent::Delivered, &msg),
        (DeliveryState::Captioning, DeliveryStep::SendCaption(format!("{BOB}: sent a audio")))
    );
    let other = media(MessageKind::Other, true, true);
    assert_eq!(
        delivery_step(DeliveryState::Start, DeliveryEvent::Begin, &other),
        (DeliveryState::Sending, DeliveryStep::ForwardOriginal)
    );
    assert_eq!(
        delivery_step(DeliveryState::Sending, DeliveryEvent::Delivered, &other),
        (DeliveryState::Finished, DeliveryStep::Done)
    );
}

#[test]
fn a_failed_send_ends_the_delivery_without_caption() {
    let msg = media(MessageKind::Video, true, true);
    assert_eq!(
        delivery_step(DeliveryState::Sending, DeliveryEvent::SendFailed, &msg),
        (DeliveryState::Finished, DeliveryStep::Done)
    );
    assert_eq!(
        delivery_step(DeliveryState::Finished, DeliveryEvent::Begin, &msg),
        (DeliveryState::Finished, DeliveryStep::Done)
    );
    assert_eq!(
        delivery_step(DeliveryState::Start, DeliveryEvent::Delivered, &msg),
        (DeliveryState::Finished, DeliveryStep::Done)
    );
}

#[test]
fn declared_media_types_are_parsed_or_replaced() {
    assert_eq!(parse_mime(Some("image/png")), "image/png");
    assert_eq!(parse_mime(Some("Text/Plain; Charset=UTF-8")), "text/plain; charset=utf-8");
    assert_eq!(parse_mime(Some("IMAGE/SVG+XML")), "image/svg+xml");
    assert_eq!(parse_mime(Some("not a type")), "application/octet-stream");
    assert_eq!(parse_mime(Some("")), "application/octet-stream");
    assert_eq!(parse_mime(None), "application/octet-stream");
}
