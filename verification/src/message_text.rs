use vstd::prelude::*;

use html2pango::block::HtmlBlock;

use crate::member_page::{decimal, decimal_view};
use crate::strings::{chars_of, opt_view};

verus! {

#[verifier::external_type_specification]
#[verifier::external_body]
pub struct ExHtmlBlock(HtmlBlock);

/// The format of a formatted body.
#[derive(Clone, Copy, Debug, PartialEq, Eq, Structural)]
pub enum MessageFormat {
    Html,
    /// A format this client does not render.
    Other,
}

/// The formatted body of a message.
#[derive(Clone, Debug)]
pub struct FormattedBody {
    pub format: MessageFormat,
    pub body: String,
}

/// Whether `p` occurs in `h` at place `i`.
pub open spec fn match_at(h: Seq<char>, p: Seq<char>, i: int) -> bool {
    0 <= i && i + p.len() <= h.len() && h.subrange(i, i + p.len()) == p
}

/// The first place, from `i` on, where `p` occurs in `h`.
pub open spec fn find_from(h: Seq<char>, p: Seq<char>, i: int) -> Option<int>
    decreases h.len() + 1 - i,
{
    if i < 0 || i > h.len() {
        None
    } else if match_at(h, p, i) {
        Some(i)
    } else {
        find_from(h, p, i + 1)
    }
}

/// The first place where `p` occurs in `h`.
pub open spec fn first_match(h: Seq<char>, p: Seq<char>) -> Option<int> {
    find_from(h, p, 0)
}

/// Whether `p` occurs in `h` at place `i`.
fn matches_at(h: &Vec<char>, p: &Vec<char>, i: usize) -> (b: bool)
    requires
        i <= h@.len(),
    ensures
        b == match_at(h@, p@, i as int),
{
    if p.len() > h.len() - i {
        return false;
    }
    let mut j: usize = 0;
    while j < p.len()
        invariant
            i + p@.len() <= h@.len(),
            h@.len() == h.len(),
            j <= p@.len(),
            forall|k: int| 0 <= k < j ==> h@[i + k] == p@[k],
        decreases p@.len() - j,
    {
        if h[i + j] != p[j] {
            assert(h@.subrange(i as int, i + p@.len())[j as int] != p@[j as int]);
            return false;
        }
        j = j + 1;
    }
    assert(h@.subrange(i as int, i + p@.len()) =~= p@);
    true
}

/// The first place where `p` occurs in `h`.
pub fn find_chars(h: &Vec<char>, p: &Vec<char>) -> (r: Option<usize>)
    ensures
        match first_match(h@, p@) {
            Some(i) => r == Some(i as usize),
            None => r is None,
        },
{
    if p.len() == 0 {
        assert(h@.subrange(0, 0) =~= p@);
        return Some(0);
    }
    if p.len() > h.len() {
        proof {
            lemma_find_from_past_end(h@, p@, 0);
        }
        return None;
    }
    let last = h.len() - p.len();
    let mut i: usize = 0;
    while i <= last
        invariant
            last + p@.len() == h@.len(),
            h@.len() == h.len(),
            p@.len() > 0,
            i <= last + 1,
            first_match(h@, p@) == find_from(h@, p@, i as int),
        decreases last + 1 - i,
    {
        if matches_at(h, p, i) {
            return Some(i);
        }
        i = i + 1;
    }
    proof {
        lemma_find_from_past_end(h@, p@, i as int);
    }
    None
}

/// No match starts where `p` no longer fits.
proof fn lemma_find_from_past_end(h: Seq<char>, p: Seq<char>, i: int)
    requires
        0 <= i,
        i + p.len() > h.len(),
    ensures
        find_from(h, p, i) is None,
    decreases h.len() + 1 - i,
{
    if i <= h.len() {
        lemma_find_from_past_end(h, p, i + 1);
    }
}

/// The end of a rich reply's quote.
pub open spec fn reply_end() -> Seq<char> {
    seq!['<', '/', 'm', 'x', '-', 'r', 'e', 'p', 'l', 'y', '>']
}

/// What an editor leaves in place of raw HTML it does not keep.
pub open spec fn raw_html_omitted() -> Seq<char> {
    seq!['<', '!', '-', '-', ' ', 'r', 'a', 'w', ' ', 'H', 'T', 'M', 'L', ' ', 'o', 'm', 'i', 't', 't', 'e', 'd', ' ', '-', '-', '>']
}

/// `text` without a rich reply's quote: what follows the first
/// `</mx-reply>`, or all of it when there is none.
pub open spec fn stripped_reply(text: Seq<char>) -> Seq<char> {
    match first_match(text, reply_end()) {
        Some(end) => text.subrange(end + 11, text.len() as int),
        None => text,
    }
}

proof fn lemma_first_match_bounds(h: Seq<char>, p: Seq<char>, i: int)
    requires
        0 <= i,
    ensures
        find_from(h, p, i) matches Some(j) ==> match_at(h, p, j) && i <= j,
    decreases h.len() + 1 - i,
{
    if i <= h.len() && !match_at(h, p, i) {
        lemma_first_match_bounds(h, p, i + 1);
    }
}

/// Remove the content between `mx-reply` tags.
///
/// Returns the unchanged string if none was found to be able to chain calls.
pub fn strip_reply(text: &str) -> (r: &str)
    ensures
        r@ == stripped_reply(text@),
{
    let h = chars_of(text);
    let pat = "</mx-reply>";
    proof {
        reveal_strlit("</mx-reply>");
        assert(pat@ =~= reply_end());
    }
    let p = chars_of(pat);
    match find_chars(&h, &p) {
        Some(end) => {
            proof {
                lemma_first_match_bounds(h@, p@, 0);
                assert(p@.len() == 11);
                let i = first_match(h@, p@)->0;
                assert(match_at(h@, p@, i));
                assert(h@.len() == h.len());
                assert(end as int == i);
            }
            text.substring_char(end + 11, h.len())
        },
        None => text,
    }
}

/// Whether the formatted body is HTML that an editor did not cut.
pub open spec fn valid_formatted_body(formatted: FormattedBody) -> bool {
    formatted.format == MessageFormat::Html && first_match(formatted.body@, raw_html_omitted()) is None
}

/// Whether the formatted body is HTML that an editor did not cut.
pub fn is_valid_formatted_body(formatted: &FormattedBody) -> (b: bool)
    ensures
        b == valid_formatted_body(*formatted),
{
    if formatted.format != MessageFormat::Html {
        return false;
    }
    let pat = "<!-- raw HTML omitted -->";
    proof {
        reveal_strlit("<!-- raw HTML omitted -->");
        assert(pat@ =~= raw_html_omitted());
    }
    let p = chars_of(pat);
    let h = chars_of(formatted.body.as_str());
    find_chars(&h, &p).is_none()
}

/// The escape of one character.
pub open spec fn escape_char(c: char) -> Seq<char> {
    if c == '&' {
        seq!['&', 'a', 'm', 'p', ';']
    } else if c == '<' {
        seq!['&', 'l', 't', ';']
    } else if c == '>' {
        seq!['&', 'g', 't', ';']
    } else if c == '"' {
        seq!['&', 'q', 'u', 'o', 't', ';']
    } else {
        seq![c]
    }
}

/// `s` with the HTML entities `&`, `<`, `>` and `"` escaped.
pub open spec fn html_escaped(s: Seq<char>) -> Seq<char>
    decreases s.len(),
{
    if s.len() == 0 {
        seq![]
    } else {
        html_escaped(s.drop_last()) + escape_char(s.last())
    }
}

/// `html2pango::html_escape`: replaces `&`, `<`, `>` and `"` by their
/// entities, each character on its own.
#[verifier::external_body]
fn html_escape(s: &str) -> (r: String)
    ensures
        r@ == html_escaped(s@),
{
    html2pango::html_escape(s)
}

/// What `html2pango::markup_links` makes of a text: its URIs made into links.
pub uninterp spec fn links_marked(s: Seq<char>) -> Seq<char>;

/// `html2pango::markup_links`: replaces the URIs of an escaped text by link
/// tags.
#[verifier::external_body]
fn markup_links(s: &str) -> (r: String)
    ensures
        r@ == links_marked(s@),
{
    html2pango::markup_links(s)
}

/// The Pango markup of a plain text: escaped, with its URIs made links.
pub fn linkify(text: &str) -> (r: String)
    ensures
        r@ == links_marked(html_escaped(text@)),
{
    let escaped = html_escape(text);
    markup_links(escaped.as_str())
}

/// The HTML blocks that `html2pango::block::markup_html` makes of a text, or
/// `None` where it fails.
pub uninterp spec fn html_blocks(s: Seq<char>) -> Option<Seq<HtmlBlock>>;

/// `html2pango::block::markup_html`: the HTML blocks of a formatted body, or
/// `None` where it cannot be parsed.
#[verifier::external_body]
fn parse_formatted_body(formatted: &str) -> (r: Option<Vec<HtmlBlock>>)
    ensures
        match r {
            Some(v) => html_blocks(formatted@) == Some(v@),
            None => html_blocks(formatted@) is None,
        },
{
    html2pango::block::markup_html(formatted).ok()
}

/// What `regex::Regex::is_match` answers for a pattern and a text, or `None`
/// where the pattern is not a regular expression.
pub uninterp spec fn regex_match(pattern: Seq<char>, text: Seq<char>) -> Option<bool>;

/// `regex::Regex::new` and then `is_match`: whether `text` matches `pattern`.
#[verifier::external_body]
fn regex_is_match(pattern: &str, text: &str) -> (r: Option<bool>)
    ensures
        r == regex_match(pattern@, text@),
{
    regex::Regex::new(pattern).ok().map(|re| re.is_match(text))
}

/// A text made of at least one emoji, digits apart, possibly with modifiers,
/// possibly with spaces, but nothing else.
pub const EMOJI_REGEX: &'static str = "^[\\p{White_Space}\\p{Emoji_Component}]*[\\p{Emoji}--\\p{Decimal_Number}]+[\\p{White_Space}\\p{Emoji}\\p{Emoji_Component}--\\p{Decimal_Number}]*$";

/// Whether `text` is made of emoji only, in the sense of `EMOJI_REGEX`.
pub fn is_emoji_only(text: &str) -> (b: bool)
    ensures
        b == (regex_match(EMOJI_REGEX@, text@) == Some(true)),
{
    match regex_is_match(EMOJI_REGEX, text) {
        Some(m) => m,
        None => false,
    }
}

/// The style class of a heading of level `level`: "h" and the level.
pub fn heading_class(level: u32) -> (c: String)
    ensures
        c@ == seq!['h'] + decimal_view(level as int),
{
    let mut c = "h".to_string();
    proof {
        reveal_strlit("h");
    }
    let n = decimal(level as i64);
    c.append(n.as_str());
    c
}

/// The bullet of item `i` of a list: its number and a dot in an ordered
/// list, "•" in another.
pub open spec fn bullet_view(ordered: bool, i: int) -> Seq<char> {
    if ordered {
        decimal_view(i + 1) + seq!['.']
    } else {
        seq!['•']
    }
}

/// The bullets of a list of `n` items.
pub fn list_bullets(ordered: bool, n: usize) -> (b: Vec<String>)
    requires
        n < i64::MAX,
    ensures
        b@.len() == n,
        forall|i: int| 0 <= i < n ==> (#[trigger] b@[i])@ == bullet_view(ordered, i),
{
    let mut b: Vec<String> = Vec::new();
    let mut i: usize = 0;
    while i < n
        invariant
            i <= n,
            n < i64::MAX,
            b@.len() == i,
            forall|k: int| 0 <= k < i ==> (#[trigger] b@[k])@ == bullet_view(ordered, k),
        decreases n - i,
    {
        if ordered {
            let mut s = decimal((i + 1) as i64);
            s.append(".");
            proof {
                reveal_strlit(".");
            }
            b.push(s);
        } else {
            let s = "•".to_string();
            proof {
                reveal_strlit("•");
            }
            b.push(s);
        }
        i = i + 1;
    }
    b
}

/// What a text widget shows.
pub enum TextDisplay {
    /// A label, its text as Pango markup or as it is, styled large when the
    /// text is made of emoji only.
    Label { text: String, use_markup: bool, emoji: bool },
    /// One widget for each HTML block.
    Html { blocks: Vec<HtmlBlock> },
}

/// What a text widget shows, by the views of its parts.
pub enum TextView {
    Label { text: Seq<char>, use_markup: bool, emoji: bool },
    Html { blocks: Seq<HtmlBlock> },
}

/// The view of a display.
pub open spec fn text_view(d: TextDisplay) -> TextView {
    match d {
        TextDisplay::Label { text, use_markup, emoji } => TextView::Label { text: text@, use_markup, emoji },
        TextDisplay::Html { blocks } => TextView::Html { blocks: blocks@ },
    }
}

/// A label showing `text`.
pub open spec fn label_view(text: Seq<char>, use_markup: bool) -> TextView {
    TextView::Label { text, use_markup, emoji: regex_match(EMOJI_REGEX@, text) == Some(true) }
}

/// `text` after the sender's name in bold.
pub open spec fn bolded(name: Seq<char>, text: Seq<char>) -> Seq<char> {
    seq!['<', 'b', '>'] + name + seq!['<', '/', 'b', '>', ' '] + text
}

/// What a message with markup shows, and the body it keeps: the HTML blocks
/// of a valid formatted body that parses, or else the plain body made
/// markup.
pub open spec fn markup_view(formatted: Option<FormattedBody>, body: Seq<char>) -> (TextView, Seq<char>) {
    match formatted {
        Some(f) if valid_formatted_body(f) && html_blocks(stripped_reply(f.body@)) is Some => (
            TextView::Html { blocks: html_blocks(stripped_reply(f.body@))->0 },
            f.body@,
        ),
        _ => {
            let t = links_marked(html_escaped(stripped_reply(body)));
            (label_view(t, true), t)
        },
    }
}

/// What an emote shows, and the body it keeps: the HTML blocks of the
/// sender's name and a valid formatted body that parses, or else the name and
/// the plain body made markup. `None` where the formatted body parses only
/// with its reply quote, so that there is nothing to show.
pub open spec fn emote_view(formatted: Option<FormattedBody>, body: Seq<char>, name: Seq<char>) -> Option<(TextView, Seq<char>)> {
    match formatted {
        Some(f) if valid_formatted_body(f) && html_blocks(bolded(name, f.body@)) is Some =>
            match html_blocks(bolded(name, stripped_reply(f.body@))) {
                Some(b) => Some((TextView::Html { blocks: b }, f.body@)),
                None => None,
            },
        _ => {
            let t = links_marked(html_escaped(body));
            Some((label_view(bolded(name, t), true), t))
        },
    }
}

/// `text` after `name` in bold.
fn bold(name: &str, text: &str) -> (r: String)
    ensures
        r@ == bolded(name@, text@),
{
    let mut s = String::new();
    let open_tag = "<b>";
    let close_tag = "</b> ";
    proof {
        reveal_strlit("<b>");
        reveal_strlit("</b> ");
        assert(open_tag@ =~= seq!['<', 'b', '>']);
        assert(close_tag@ =~= seq!['<', '/', 'b', '>', ' ']);
    }
    s.append(open_tag);
    s.append(name);
    s.append(close_tag);
    s.append(text);
    s
}

/// A label display of `text`.
fn label(text: String, use_markup: bool) -> (d: TextDisplay)
    ensures
        text_view(d) == label_view(text@, use_markup),
{
    let emoji = is_emoji_only(text.as_str());
    TextDisplay::Label { text, use_markup, emoji }
}

/// A widget displaying the content of a text message.
pub struct MessageText {
    /// What is shown.
    display: Option<TextDisplay>,
    /// The displayed content of the message.
    body: Option<String>,
    /// The sender of the message (only used for emotes).
    sender: Option<u64>,
}

impl MessageText {
    /// What is shown.
    pub closed spec fn shown(&self) -> Option<TextView> {
        match self.display {
            Some(d) => Some(text_view(d)),
            None => None,
        }
    }

    /// The displayed content of the message.
    pub closed spec fn body_view(&self) -> Option<Seq<char>> {
        opt_view(self.body)
    }

    /// The sender of an emote.
    pub closed spec fn sender_view(&self) -> Option<u64> {
        self.sender
    }

    /// Creates a text widget.
    pub fn new() -> (t: MessageText)
        ensures
            t.shown() is None,
            t.body_view() is None,
            t.sender_view() is None,
    {
        MessageText { display: None, body: None, sender: None }
    }

    /// What is shown.
    pub fn display(&self) -> (d: &Option<TextDisplay>)
        ensures
            self.shown() == match *d {
                Some(x) => Some(text_view(x)),
                None => None::<TextView>,
            },
    {
        &self.display
    }

    /// Display the given plain text.
    pub fn text(&mut self, body: String)
        ensures
            final(self).shown() == Some(label_view(body@, false)),
            final(self).body_view() == Some(body@),
            final(self).sender_view() == old(self).sender_view(),
    {
        let d = label(body.clone(), false);
        self.display = Some(d);
        self.set_body(Some(body));
    }

    /// Display the given text with markup.
    ///
    /// It will detect if it should display the body or the formatted body.
    pub fn markup(&mut self, formatted: Option<FormattedBody>, body: String)
        ensures
            final(self).shown() == Some(markup_view(formatted, body@).0),
            final(self).body_view() == Some(markup_view(formatted, body@).1),
            final(self).sender_view() == old(self).sender_view(),
    {
        if let Some(f) = &formatted {
            if is_valid_formatted_body(f) {
                if let Some(blocks) = parse_formatted_body(strip_reply(f.body.as_str())) {
                    self.display = Some(TextDisplay::Html { blocks });
                    self.set_body(Some(f.body.clone()));
                    return;
                }
            }
        }
        let text = linkify(strip_reply(body.as_str()));
        let d = label(text.clone(), true);
        self.display = Some(d);
        self.set_body(Some(text));
    }

    /// Display the given emote for `sender`, whose display name is
    /// `sender_name`.
    ///
    /// It will detect if it should display the body or the formatted body.
    /// Returns whether there was something to show; when there was not, the
    /// widget is left as it was.
    pub fn emote(&mut self, formatted: Option<FormattedBody>, body: String, sender: u64, sender_name: &str) -> (shown: bool)
        ensures
            shown == (emote_view(formatted, body@, sender_name@) is Some),
            shown ==> final(self).shown() == Some((emote_view(formatted, body@, sender_name@)->0).0)
                && final(self).body_view() == Some((emote_view(formatted, body@, sender_name@)->0).1)
                && final(self).sender_view() == Some(sender),
            !shown ==> final(self).shown() == old(self).shown() && final(self).body_view() == old(self).body_view()
                && final(self).sender_view() == old(self).sender_view(),
    {
        if let Some(f) = &formatted {
            if is_valid_formatted_body(f) {
                let whole = bold(sender_name, f.body.as_str());
                if parse_formatted_body(whole.as_str()).is_some() {
                    let stripped = bold(sender_name, strip_reply(f.body.as_str()));
                    match parse_formatted_body(stripped.as_str()) {
                        Some(blocks) => {
                            self.display = Some(TextDisplay::Html { blocks });
                            self.set_body(Some(f.body.clone()));
                            self.set_sender(Some(sender));
                            return true;
                        },
                        None => {
                            return false;
                        },
                    }
                }
            }
        }
        let text = linkify(body.as_str());
        let d = label(bold(sender_name, text.as_str()), true);
        self.display = Some(d);
        self.set_body(Some(text));
        self.set_sender(Some(sender));
        true
    }

    pub fn set_body(&mut self, body: Option<String>)
        ensures
            final(self).body_view() == opt_view(body),
            final(self).shown() == old(self).shown(),
            final(self).sender_view() == old(self).sender_view(),
    {
        self.body = body;
    }

    pub fn body(&self) -> (b: Option<String>)
        ensures
            opt_view(b) == self.body_view(),
    {
        match &self.body {
            Some(b) => Some(b.clone()),
            None => None,
        }
    }

    pub fn set_sender(&mut self, sender: Option<u64>)
        ensures
            final(self).sender_view() == sender,
            final(self).shown() == old(self).shown(),
            final(self).body_view() == old(self).body_view(),
    {
        self.sender = sender;
    }

    pub fn sender(&self) -> (s: Option<u64>)
        ensures
            s == self.sender_view(),
    {
        self.sender
    }
}

/// An escaped text has no `<`, `>` or `"` left: only entities stand for
/// them.
pub proof fn lemma_escaped_has_no_markup(s: Seq<char>)
    ensures
        forall|i: int| 0 <= i < html_escaped(s).len() ==> {
            let c = #[trigger] html_escaped(s)[i];
            c != '<' && c != '>' && c != '"'
        },
    decreases s.len(),
{
    if s.len() > 0 {
        lemma_escaped_has_no_markup(s.drop_last());
        let a = html_escaped(s.drop_last());
        let b = escape_char(s.last());
        assert forall|i: int| 0 <= i < html_escaped(s).len() implies {
            let c = #[trigger] html_escaped(s)[i];
            c != '<' && c != '>' && c != '"'
        } by {
            if i < a.len() {
                assert(html_escaped(s)[i] == a[i]);
            } else {
                assert(html_escaped(s)[i] == b[i - a.len()]);
            }
        }
    }
}

/// A text without a rich reply's end is left as it is.
pub proof fn lemma_strip_without_reply(text: Seq<char>)
    requires
        forall|i: int| !match_at(text, reply_end(), i),
    ensures
        stripped_reply(text) == text,
{
    lemma_no_match_from(text, reply_end(), 0);
}

proof fn lemma_no_match_from(h: Seq<char>, p: Seq<char>, i: int)
    requires
        forall|k: int| !match_at(h, p, k),
    ensures
        find_from(h, p, i) is None,
    decreases h.len() + 1 - i,
{
    if 0 <= i <= h.len() {
        lemma_no_match_from(h, p, i + 1);
    }
}

} // verus!
