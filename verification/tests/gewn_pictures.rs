use matrix_ping_bot::gewn::{
    caption_for, extension_allowed, guess_mime, mime_for_extension, normalize_extensions,
    render_caption, Gewn, GewnChoice, GewnConfig,
};

#[test]
fn default_extensions_normalize() {
    let cfg = GewnConfig::default();
    let normalized = normalize_extensions(&cfg.extensions).unwrap();
    assert!(normalized.contains("jpg"));
    assert!(normalized.contains("png"));
}

#[test]
fn caption_template_renders_filename() {
    let mut cfg = GewnConfig::default();
    cfg.caption_template = Some("hello {filename}".to_owned());
    let caption = render_caption(&cfg, "/tmp/example.png");
    assert_eq!(caption.as_deref(), Some("hello example.png"));
}

#[test]
fn extensions_are_trimmed_undotted_and_lowercased() {
    let list = vec![" .JPG ".to_owned(), "..png".to_owned(), " ".to_owned(), "jpg".to_owned()];
    let set = normalize_extensions(&list).unwrap();
    assert!(set.contains("jpg"));
    assert!(set.contains("png"));
    assert!(!set.contains("JPG"));
    assert!(normalize_extensions(&Vec::new()).is_none());
    assert!(normalize_extensions(&vec![" . ".to_owned()]).is_none());
}

#[test]
fn extension_gate_follows_the_set() {
    let set = normalize_extensions(&vec!["png".to_owned()]);
    assert!(extension_allowed(&set, "/a/b/c.PNG"));
    assert!(!extension_allowed(&set, "/a/b/c.gif"));
    assert!(!extension_allowed(&set, "/a/b/noext"));
    assert!(extension_allowed(&None, "/a/b/noext"));
}

#[test]
fn mime_follows_extension() {
    assert_eq!(mime_for_extension(Some("JPeG")), "image/jpeg");
    assert_eq!(mime_for_extension(Some("webp")), "image/webp");
    assert_eq!(mime_for_extension(Some("txt")), "application/octet-stream");
    assert_eq!(mime_for_extension(None), "application/octet-stream");
    assert_eq!(guess_mime("/x/y.heic"), "image/heic");
    assert_eq!(guess_mime("/x/y"), "application/octet-stream");
}

#[test]
fn caption_replaces_every_placeholder() {
    assert_eq!(caption_for("{filename} / {filename}!", Some("a.png")), "a.png / a.png!");
    assert_eq!(caption_for("no placeholder", Some("a.png")), "no placeholder");
    assert_eq!(caption_for("<{filename}>", None), "<gewn>");
    assert_eq!(caption_for("{filenam", Some("x")), "{filenam");
}

#[test]
fn choice_falls_back_without_candidates() {
    let cfg = GewnConfig::default();
    let none: Vec<String> = Vec::new();
    assert_eq!(
        Gewn.select(&cfg, &none),
        GewnChoice::Fallback(cfg.fallback_text.clone().unwrap())
    );
    let one = vec!["/p/a.png".to_owned()];
    assert_eq!(Gewn.select(&cfg, &one), GewnChoice::Send("/p/a.png".to_owned()));
    let many = vec!["a".to_owned(), "b".to_owned(), "c".to_owned()];
    match Gewn.select(&cfg, &many) {
        GewnChoice::Send(p) => assert!(many.contains(&p)),
        other => panic!("unexpected choice: {:?}", other),
    }
}
