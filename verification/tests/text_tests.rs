use fractal::composer::{compose, message_content, text_message, ComposerPart};
use fractal::message_content::{build_content, media_file_name, update_content, ContentView, FileName, MessageBody, MessageContent, PlainText, RowContent};
use fractal::strings::chars_of;
use fractal::message_text::{heading_class, list_bullets, 
    find_chars, is_emoji_only, is_valid_formatted_body, linkify, strip_reply, FormattedBody, MessageFormat,
    MessageText, TextDisplay,
};

fn html(body: &str) -> FormattedBody {
    FormattedBody { format: MessageFormat::Html, body: body.to_string() }
}

#[test]
fn strip_reply_removes_the_quote() {
    assert_eq!(strip_reply("<mx-reply>quoted</mx-reply>answer"), "answer");
    assert_eq!(strip_reply("no reply here"), "no reply here");
    // Only up to the first end tag.
    assert_eq!(strip_reply("a</mx-reply>b</mx-reply>c"), "b</mx-reply>c");
    assert_eq!(strip_reply("é</mx-reply>ü"), "ü");
}

#[test]
fn find_chars_finds_the_first_place() {
    let h = chars_of("abcabc");
    assert_eq!(find_chars(&h, &chars_of("bc")), Some(1));
    assert_eq!(find_chars(&h, &chars_of("")), Some(0));
    assert_eq!(find_chars(&h, &chars_of("x")), None);
    assert_eq!(find_chars(&chars_of("ab"), &chars_of("abc")), None);
}

#[test]
fn formatted_body_must_be_uncut_html() {
    assert!(is_valid_formatted_body(&html("<b>hi</b>")));
    assert!(!is_valid_formatted_body(&html("<b>hi</b><!-- raw HTML omitted -->")));
    let other = FormattedBody { format: MessageFormat::Other, body: "<b>hi</b>".to_string() };
    assert!(!is_valid_formatted_body(&other));
}

#[test]
fn linkify_escapes_and_links() {
    assert_eq!(linkify("a < b & \"c\""), "a &lt; b &amp; &quot;c&quot;");
    assert_eq!(linkify("go to https://gnome.org"), "go to <a href=\"https://gnome.org\">https://gnome.org</a>");
}

#[test]
fn emoji_only_texts() {
    assert!(is_emoji_only("👍"));
    assert!(is_emoji_only(" 🎉 👍 "));
    assert!(!is_emoji_only("hello 👍"));
    assert!(!is_emoji_only("123"));
    assert!(!is_emoji_only(""));
}

#[test]
fn plain_text_is_shown_as_it_is() {
    let mut t = MessageText::new();
    t.text("<b>not bold</b>".to_string());
    assert_eq!(t.body(), Some("<b>not bold</b>".to_string()));
    match t.display() {
        Some(TextDisplay::Label { text, use_markup, emoji }) => {
            assert_eq!(text, "<b>not bold</b>");
            assert!(!use_markup);
            assert!(!emoji);
        },
        _ => panic!("expected a label"),
    }
}

#[test]
fn markup_uses_valid_html() {
    let mut t = MessageText::new();
    t.markup(Some(html("<h1>Title</h1><p>Text</p>")), "Title Text".to_string());
    assert_eq!(t.body(), Some("<h1>Title</h1><p>Text</p>".to_string()));
    match t.display() {
        Some(TextDisplay::Html { blocks }) => assert_eq!(blocks.len(), 2),
        _ => panic!("expected HTML blocks"),
    }
}

#[test]
fn markup_falls_back_to_the_plain_body() {
    let mut t = MessageText::new();
    t.markup(None, "<mx-reply>q</mx-reply>see https://gnome.org".to_string());
    let expected = "see <a href=\"https://gnome.org\">https://gnome.org</a>".to_string();
    assert_eq!(t.body(), Some(expected.clone()));
    match t.display() {
        Some(TextDisplay::Label { text, use_markup, .. }) => {
            assert_eq!(text, &expected);
            assert!(*use_markup);
        },
        _ => panic!("expected a label"),
    }
}

#[test]
fn emote_puts_the_name_in_bold() {
    let mut t = MessageText::new();
    assert!(t.emote(None, "waves".to_string(), 7, "Alice"));
    assert_eq!(t.sender(), Some(7));
    assert_eq!(t.body(), Some("waves".to_string()));
    match t.display() {
        Some(TextDisplay::Label { text, .. }) => assert_eq!(text, "<b>Alice</b> waves"),
        _ => panic!("expected a label"),
    }
}

#[test]
fn emote_with_html_keeps_the_formatted_body() {
    let mut t = MessageText::new();
    assert!(t.emote(Some(html("<i>waves</i>")), "waves".to_string(), 7, "Alice"));
    assert_eq!(t.body(), Some("<i>waves</i>".to_string()));
    assert!(matches!(t.display(), Some(TextDisplay::Html { .. })));
}

#[test]
fn content_of_messages() {
    let text = MessageContent::RoomMessage {
        msgtype: MessageBody::Text { body: "hi".to_string(), formatted: None },
        replacement: None,
    };
    assert!(matches!(build_content(text, false), ContentView::Markup { body, .. } if body == "hi"));
    let replaced = MessageContent::RoomMessage {
        msgtype: MessageBody::Text { body: "old".to_string(), formatted: None },
        replacement: Some(MessageBody::Notice { body: "new".to_string(), formatted: None }),
    };
    assert!(matches!(build_content(replaced, false), ContentView::Markup { body, .. } if body == "new"));
    assert!(matches!(build_content(MessageContent::RoomRedaction, false), ContentView::Text(PlainText::Removed)));
    assert!(matches!(build_content(MessageContent::RoomEncrypted, false), ContentView::Text(PlainText::Undecryptable)));
    assert!(matches!(build_content(MessageContent::Other, false), ContentView::Text(PlainText::Unsupported)));
    assert!(matches!(build_content(MessageContent::Sticker, true), ContentView::Sticker { compact: true }));
    let audio = MessageContent::RoomMessage { msgtype: MessageBody::Audio, replacement: None };
    assert!(matches!(build_content(audio, false), ContentView::Unchanged));
    let verification = MessageContent::RoomMessage { msgtype: MessageBody::VerificationRequest, replacement: None };
    assert!(matches!(build_content(verification, false), ContentView::Text(PlainText::VerificationStarted)));
}

#[test]
fn file_names_fall_back() {
    let named = MessageContent::RoomMessage {
        msgtype: MessageBody::File { body: "body.txt".to_string(), filename: Some("file.txt".to_string()), mimetype: None },
        replacement: None,
    };
    assert!(matches!(build_content(named, true), ContentView::File { filename: FileName::Named(n), compact: true } if n == "file.txt"));
    let by_body = MessageContent::RoomMessage {
        msgtype: MessageBody::File { body: "body.txt".to_string(), filename: Some(String::new()), mimetype: None },
        replacement: None,
    };
    assert!(matches!(build_content(by_body, false), ContentView::File { filename: FileName::Named(n), .. } if n == "body.txt"));
    let by_mime = MessageContent::RoomMessage {
        msgtype: MessageBody::File { body: String::new(), filename: None, mimetype: Some("image/png".to_string()) },
        replacement: None,
    };
    assert!(matches!(build_content(by_mime, false), ContentView::File { filename: FileName::ForMime(Some(m)), .. } if m == "image/png"));
}

#[test]
fn replies_show_the_related_event_compact() {
    let content = MessageContent::RoomMessage { msgtype: MessageBody::Image { body: "cat.png".to_string() }, replacement: None };
    let related = MessageContent::RoomMessage { msgtype: MessageBody::Video, replacement: None };
    match update_content(content, Some(related)) {
        RowContent::Reply { related, content } => {
            assert!(matches!(related, ContentView::Video { compact: true }));
            assert!(matches!(content, ContentView::Image { compact: false }));
        },
        _ => panic!("expected a reply"),
    }
}

#[test]
fn compose_with_mentions() {
    let parts = vec![
        ComposerPart::Text("/me greets ".to_string()),
        ComposerPart::Mention { url: "https://matrix.to/#/@bob:example.org".to_string(), label: "Bob".to_string() },
    ];
    let m = compose(&parts, false);
    assert!(m.is_emote);
    assert!(m.has_mentions);
    assert_eq!(m.plain_body, "greets Bob");
    assert_eq!(m.formatted_body, "greets <a href='https://matrix.to/#/@bob:example.org'>Bob</a>");
    let md = compose(&parts, true);
    assert_eq!(md.formatted_body, "greets [Bob](https://matrix.to/#/@bob:example.org)");
    let out = message_content(m, false, None);
    assert!(out.is_emote);
    assert_eq!(out.body, "greets Bob");
    assert_eq!(out.html_body, Some("greets <a href='https://matrix.to/#/@bob:example.org'>Bob</a>".to_string()));
}

#[test]
fn compose_without_mentions_has_no_html() {
    let parts = vec![ComposerPart::Text("hello".to_string())];
    let m = compose(&parts, false);
    assert!(!m.is_emote);
    assert!(!m.has_mentions);
    assert_eq!(m.formatted_body, m.plain_body);
    let out = message_content(m, false, None);
    assert_eq!(out.html_body, None);
    let md = compose(&parts, true);
    let out = message_content(md, true, Some("<p>hello</p>".to_string()));
    assert_eq!(out.html_body, Some("<p>hello</p>".to_string()));
}

#[test]
fn text_message_trims_emote_markers() {
    let m = text_message("/me /me waves", false);
    assert!(m.is_emote);
    assert_eq!(m.body, "waves");
    assert_eq!(m.html_body, None);
    // Markdown that renders to something else than the body is not kept.
    let m = text_message("**bold**", true);
    assert!(!m.is_emote);
    assert_eq!(m.body, "**bold**");
    assert_eq!(m.html_body, None);
}

#[test]
fn html_block_bullets_and_headings() {
    assert_eq!(heading_class(2), "h2");
    assert_eq!(heading_class(10), "h10");
    assert_eq!(list_bullets(true, 3), vec!["1.".to_string(), "2.".to_string(), "3.".to_string()]);
    assert_eq!(list_bullets(false, 2), vec!["•".to_string(), "•".to_string()]);
    assert!(list_bullets(true, 0).is_empty());
}

#[test]
fn media_file_names() {
    let named = MessageBody::File { body: "report".to_string(), filename: Some("report.pdf".to_string()), mimetype: None };
    assert_eq!(media_file_name(&named), "report.pdf");
    let unnamed = MessageBody::File { body: "report".to_string(), filename: None, mimetype: None };
    assert_eq!(media_file_name(&unnamed), "report");
    assert_eq!(media_file_name(&MessageBody::Image { body: "cat.png".to_string() }), "cat.png");
}
