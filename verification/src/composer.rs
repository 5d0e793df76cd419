use vstd::prelude::*;

verus! {

/// A part of what the user wrote in the message entry.
pub enum ComposerPart {
    /// Text as it was typed.
    Text(String),
    /// A mention of a user or a room: its matrix.to link and its display
    /// name.
    Mention { url: String, label: String },
}

/// The view of a part: its text, or the link and label of a mention.
pub open spec fn part_view(p: ComposerPart) -> (bool, Seq<char>, Seq<char>) {
    match p {
        ComposerPart::Text(t) => (false, t@, seq![]),
        ComposerPart::Mention { url, label } => (true, url@, label@),
    }
}

/// A mention as Markdown: `[label](url)`.
pub open spec fn markdown_mention(url: Seq<char>, label: Seq<char>) -> Seq<char> {
    seq!['['] + label + seq![']', '('] + url + seq![')']
}

/// A mention as HTML: `<a href='url'>label</a>`.
pub open spec fn html_mention(url: Seq<char>, label: Seq<char>) -> Seq<char> {
    seq!['<', 'a', ' ', 'h', 'r', 'e', 'f', '=', '\''] + url + seq!['\'', '>'] + label + seq!['<', '/', 'a', '>']
}

/// The plain body of the parts: the texts, and the labels of the mentions.
pub open spec fn plain_of(parts: Seq<(bool, Seq<char>, Seq<char>)>) -> Seq<char>
    decreases parts.len(),
{
    if parts.len() == 0 {
        seq![]
    } else {
        let p = parts.last();
        plain_of(parts.drop_last()) + if p.0 { p.2 } else { p.1 }
    }
}

/// The formatted body of the parts: the texts, and the mentions as Markdown
/// links when `markdown`, else as HTML links.
pub open spec fn formatted_of(parts: Seq<(bool, Seq<char>, Seq<char>)>, markdown: bool) -> Seq<char>
    decreases parts.len(),
{
    if parts.len() == 0 {
        seq![]
    } else {
        let p = parts.last();
        formatted_of(parts.drop_last(), markdown) + if !p.0 {
            p.1
        } else if markdown {
            markdown_mention(p.1, p.2)
        } else {
            html_mention(p.1, p.2)
        }
    }
}

/// Whether some part is a mention.
pub open spec fn has_mention(parts: Seq<(bool, Seq<char>, Seq<char>)>) -> bool {
    exists|i: int| 0 <= i < parts.len() && (#[trigger] parts[i]).0
}

/// What marks an emote.
pub open spec fn emote_prefix() -> Seq<char> {
    seq!['/', 'm', 'e', ' ']
}

/// Whether `s` starts with `p`.
pub open spec fn starts_with(s: Seq<char>, p: Seq<char>) -> bool {
    p.len() <= s.len() && s.take(p.len() as int) == p
}

/// A message as the user composed it.
pub struct ComposedMessage {
    /// Whether it starts with "/me ": then it is an emote, and that start is
    /// left out of both bodies.
    pub is_emote: bool,
    /// Whether it has mentions.
    pub has_mentions: bool,
    /// The body with mentions as their labels.
    pub plain_body: String,
    /// The body with mentions as links: Markdown if the composer is in
    /// Markdown mode, HTML if not.
    pub formatted_body: String,
}

/// The message to send.
pub struct OutgoingMessage {
    /// An emote, or else a text message.
    pub is_emote: bool,
    pub body: String,
    /// The HTML body, if the message has one.
    pub html_body: Option<String>,
}

proof fn lemma_formatted_longer(parts: Seq<(bool, Seq<char>, Seq<char>)>, markdown: bool)
    ensures
        formatted_of(parts, markdown).len() >= plain_of(parts).len(),
        plain_of(parts).len() > 0 ==> formatted_of(parts, markdown).len() > 0,
        starts_with(plain_of(parts), emote_prefix()) ==> formatted_of(parts, markdown).len() >= 4,
    decreases parts.len(),
{
    if parts.len() > 0 {
        lemma_formatted_longer(parts.drop_last(), markdown);
    }
}

fn push_str(s: &mut String, t: &str)
    ensures
        final(s)@ == old(s)@ + t@,
{
    s.append(t);
}

/// Makes the message from the parts of the entry: a mention goes into the
/// plain body as its label, and into the formatted one as a link, Markdown or
/// HTML as `is_markdown` says.
pub fn compose(parts: &Vec<ComposerPart>, is_markdown: bool) -> (m: ComposedMessage)
    ensures
        ({
            let v = parts@.map_values(|p: ComposerPart| part_view(p));
            let plain = plain_of(v);
            let formatted = formatted_of(v, is_markdown);
            &&& m.is_emote == starts_with(plain, emote_prefix())
            &&& m.has_mentions == has_mention(v)
            &&& m.plain_body@ == if m.is_emote { plain.skip(4) } else { plain }
            &&& m.formatted_body@ == if m.is_emote { formatted.skip(4) } else { formatted }
        }),
{
    let ghost v = parts@.map_values(|p: ComposerPart| part_view(p));
    let mut plain = String::new();
    let mut formatted = String::new();
    let mut has_mentions = false;
    let mut i: usize = 0;
    while i < parts.len()
        invariant
            i <= parts@.len(),
            v == parts@.map_values(|p: ComposerPart| part_view(p)),
            plain@ == plain_of(v.take(i as int)),
            formatted@ == formatted_of(v.take(i as int), is_markdown),
            has_mentions == has_mention(v.take(i as int)),
        decreases parts@.len() - i,
    {
        assert(v.take(i + 1).drop_last() =~= v.take(i as int));
        assert(v.take(i + 1).last() == part_view(parts@[i as int]));
        match &parts[i] {
            ComposerPart::Text(t) => {
                push_str(&mut plain, t.as_str());
                push_str(&mut formatted, t.as_str());
            },
            ComposerPart::Mention { url, label } => {
                has_mentions = true;
                push_str(&mut plain, label.as_str());
                if is_markdown {
                    let (a, b, c) = ("[", "](", ")");
                    proof {
                        reveal_strlit("[");
                        reveal_strlit("](");
                        reveal_strlit(")");
                    }
                    push_str(&mut formatted, a);
                    push_str(&mut formatted, label.as_str());
                    push_str(&mut formatted, b);
                    push_str(&mut formatted, url.as_str());
                    push_str(&mut formatted, c);
                    assert(formatted@ =~= formatted_of(v.take(i as int), is_markdown) + markdown_mention(url@, label@));
                } else {
                    let (a, b, c) = ("<a href='", "'>", "</a>");
                    proof {
                        reveal_strlit("<a href='");
                        reveal_strlit("'>");
                        reveal_strlit("</a>");
                    }
                    push_str(&mut formatted, a);
                    push_str(&mut formatted, url.as_str());
                    push_str(&mut formatted, b);
                    push_str(&mut formatted, label.as_str());
                    push_str(&mut formatted, c);
                    assert(formatted@ =~= formatted_of(v.take(i as int), is_markdown) + html_mention(url@, label@));
                }
            },
        }
        proof {
            let w = v.take(i + 1);
            if has_mentions {
                if !has_mention(v.take(i as int)) {
                    assert(w[i as int].0);
                } else {
                    let k = choose|k: int| 0 <= k < i && (#[trigger] v.take(i as int)[k]).0;
                    assert(w[k] == v.take(i as int)[k]);
                }
            } else {
                assert forall|k: int| 0 <= k < w.len() implies !(#[trigger] w[k]).0 by {
                    if k < i {
                        assert(w[k] == v.take(i as int)[k]);
                    }
                }
            }
        }
        i = i + 1;
    }
    assert(v.take(parts@.len() as int) =~= v);
    proof {
        lemma_formatted_longer(v, is_markdown);
    }
    let is_emote = starts_with_me(plain.as_str());
    if is_emote {
        let plain_len = plain.as_str().unicode_len();
        let formatted_len = formatted.as_str().unicode_len();
        let p = plain.as_str().substring_char(4, plain_len).to_owned();
        let f = formatted.as_str().substring_char(4, formatted_len).to_owned();
        assert(p@ =~= plain@.skip(4));
        assert(f@ =~= formatted@.skip(4));
        ComposedMessage { is_emote, has_mentions, plain_body: p, formatted_body: f }
    } else {
        ComposedMessage { is_emote, has_mentions, plain_body: plain, formatted_body: formatted }
    }
}

/// Whether `s` starts with "/me ".
fn starts_with_me(s: &str) -> (b: bool)
    ensures
        b == starts_with(s@, emote_prefix()),
{
    let n = s.unicode_len();
    if n < 4 {
        return false;
    }
    let ok = s.get_char(0) == '/' && s.get_char(1) == 'm' && s.get_char(2) == 'e' && s.get_char(3) == ' ';
    if ok {
        assert(s@.take(4) =~= emote_prefix());
    } else {
        assert(s@.take(4)[0] == s@[0] && s@.take(4)[1] == s@[1] && s@.take(4)[2] == s@[2] && s@.take(4)[3] == s@[3]);
    }
    ok
}

/// The message to send for a composed message: its HTML body is what the
/// Markdown of the formatted body gave (`markdown_html`) in Markdown mode, the
/// formatted body itself when it holds mentions as HTML, and none otherwise.
pub fn message_content(composed: ComposedMessage, is_markdown: bool, markdown_html: Option<String>) -> (m: OutgoingMessage)
    ensures
        m.is_emote == composed.is_emote,
        m.body == composed.plain_body,
        m.html_body == if is_markdown {
            markdown_html
        } else if composed.has_mentions {
            Some(composed.formatted_body)
        } else {
            None
        },
{
    let html_body = if is_markdown {
        markdown_html
    } else if composed.has_mentions {
        Some(composed.formatted_body)
    } else {
        None
    };
    OutgoingMessage { is_emote: composed.is_emote, body: composed.plain_body, html_body }
}

/// What `comrak::markdown_to_html` makes of a text, with or without hard line
/// breaks.
pub uninterp spec fn markdown_html(body: Seq<char>, hardbreaks: bool) -> Seq<char>;

/// `comrak::markdown_to_html` with the default options, and hard line breaks
/// as `hardbreaks` says.
#[verifier::external_body]
fn markdown_to_html(body: &str, hardbreaks: bool) -> (r: String)
    ensures
        r@ == markdown_html(body@, hardbreaks),
{
    let mut options = comrak::Options::default();
    options.render.hardbreaks = hardbreaks;
    comrak::markdown_to_html(body, &options)
}

/// `s` without all the "/me " it starts with.
pub open spec fn trim_me(s: Seq<char>) -> Seq<char>
    decreases s.len(),
{
    if starts_with(s, emote_prefix()) {
        trim_me(s.skip(4))
    } else {
        s
    }
}

/// The message to send for the text `body`: an emote when it starts with
/// "/me ", all of which are then left out; with the Markdown rendering of the
/// body as HTML body only when Markdown is on and the rendering is the body
/// itself.
pub open spec fn text_message_view(body: Seq<char>, markdown_enabled: bool) -> (bool, Seq<char>, Option<Seq<char>>) {
    let is_emote = starts_with(body, emote_prefix());
    let b = if is_emote { trim_me(body) } else { body };
    let html = if markdown_enabled && markdown_html(b, true) == b { Some(b) } else { None };
    (is_emote, b, html)
}

/// The message to send for the text `body` typed in a joined room.
pub fn text_message(body: &str, markdown_enabled: bool) -> (m: OutgoingMessage)
    ensures
        (m.is_emote, m.body@, match m.html_body {
            Some(h) => Some(h@),
            None => None,
        }) == text_message_view(body@, markdown_enabled),
{
    let is_emote = starts_with_me(body);
    let mut rest = body;
    if is_emote {
        loop
            invariant
                trim_me(rest@) == trim_me(body@),
            ensures
                trim_me(rest@) == trim_me(body@),
                !starts_with(rest@, emote_prefix()),
            decreases rest@.len(),
        {
            if !starts_with_me(rest) {
                break;
            }
            let n = rest.unicode_len();
            rest = rest.substring_char(4, n);
        }
        assert(trim_me(rest@) == rest@);
    }
    let formatted = if markdown_enabled {
        Some(markdown_to_html(rest, true))
    } else {
        None
    };
    let body = rest.to_owned();
    let html_body = match formatted {
        Some(f) => {
            if f == body {
                Some(f)
            } else {
                None
            }
        },
        None => None,
    };
    OutgoingMessage { is_emote, body, html_body }
}

/// Without mentions, the formatted body is the plain body.
pub proof fn lemma_no_mentions_plain(parts: Seq<(bool, Seq<char>, Seq<char>)>, markdown: bool)
    requires
        !has_mention(parts),
    ensures
        formatted_of(parts, markdown) == plain_of(parts),
    decreases parts.len(),
{
    if parts.len() > 0 {
        let d = parts.drop_last();
        assert(!has_mention(d)) by {
            if has_mention(d) {
                let k = choose|k: int| 0 <= k < d.len() && (#[trigger] d[k]).0;
                assert(parts[k] == d[k]);
            }
        }
        assert(!parts[parts.len() - 1].0);
        lemma_no_mentions_plain(d, markdown);
    }
}

} // verus!
