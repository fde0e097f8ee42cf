//! How a response body is shown: the view modes, the choice between the fast
//! plain-text path and syntax highlighting, and the mapping of highlighter
//! colours onto the Vesper palette.
use vstd::prelude::*;
use crate::text::{contains, seq_contains};
use crate::utf8len::{str_byte_len, utf8_len};

verus! {

/// How the viewer presents a response body.
#[derive(Debug, Clone, Copy, PartialEq, Eq, Structural)]
pub enum ResponseView {
    Auto,
    Json,
    Html,
    Text,
    Raw,
}

impl Default for ResponseView {
    /// `Auto`.
    fn default() -> (v: ResponseView)
        ensures
            v == ResponseView::Auto,
    {
        ResponseView::Auto
    }
}

/// Position of a view in the order Auto, JSON, HTML, Text, Raw.
pub open spec fn view_index(v: ResponseView) -> int {
    match v {
        ResponseView::Auto => 0,
        ResponseView::Json => 1,
        ResponseView::Html => 2,
        ResponseView::Text => 3,
        ResponseView::Raw => 4,
    }
}

/// The view at a position of that order.
pub open spec fn view_at(i: int) -> ResponseView {
    if i == 0 {
        ResponseView::Auto
    } else if i == 1 {
        ResponseView::Json
    } else if i == 2 {
        ResponseView::Html
    } else if i == 3 {
        ResponseView::Text
    } else {
        ResponseView::Raw
    }
}

/// The label of a view.
pub open spec fn view_label(v: ResponseView) -> Seq<char> {
    match v {
        ResponseView::Auto => "Auto"@,
        ResponseView::Json => "JSON"@,
        ResponseView::Html => "HTML"@,
        ResponseView::Text => "Text"@,
        ResponseView::Raw => "Raw"@,
    }
}

impl ResponseView {
    /// The label shown for this view.
    pub fn label(self) -> (s: &'static str)
        ensures
            s@ == view_label(self),
    {
        match self {
            ResponseView::Auto => "Auto",
            ResponseView::Json => "JSON",
            ResponseView::Html => "HTML",
            ResponseView::Text => "Text",
            ResponseView::Raw => "Raw",
        }
    }

    /// The following view, wrapping from Raw to Auto.
    pub fn next(self) -> (v: ResponseView)
        ensures
            v == view_at((view_index(self) + 1) % 5),
    {
        match self {
            ResponseView::Auto => ResponseView::Json,
            ResponseView::Json => ResponseView::Html,
            ResponseView::Html => ResponseView::Text,
            ResponseView::Text => ResponseView::Raw,
            ResponseView::Raw => ResponseView::Auto,
        }
    }

    /// The preceding view, wrapping from Auto to Raw.
    pub fn prev(self) -> (v: ResponseView)
        ensures
            v == view_at((view_index(self) + 4) % 5),
    {
        match self {
            ResponseView::Auto => ResponseView::Raw,
            ResponseView::Json => ResponseView::Auto,
            ResponseView::Html => ResponseView::Json,
            ResponseView::Text => ResponseView::Html,
            ResponseView::Raw => ResponseView::Text,
        }
    }
}

/// The format a body is rendered in.
#[derive(Debug, Clone, Copy, PartialEq, Eq, Structural)]
pub enum BodyFormat {
    Json,
    Html,
    Xml,
    Text,
    Raw,
}

/// The format a content type names: the first of "json", "html" and "xml"
/// that it contains, plain text otherwise.
pub open spec fn detect_format(content_type: Seq<char>) -> BodyFormat {
    if seq_contains(content_type, "json"@) {
        BodyFormat::Json
    } else if seq_contains(content_type, "html"@) {
        BodyFormat::Html
    } else if seq_contains(content_type, "xml"@) {
        BodyFormat::Xml
    } else {
        BodyFormat::Text
    }
}

/// The format of a content type.
pub fn detect(content_type: &str) -> (f: BodyFormat)
    ensures
        f == detect_format(content_type@),
{
    if contains(content_type, "json") {
        BodyFormat::Json
    } else if contains(content_type, "html") {
        BodyFormat::Html
    } else if contains(content_type, "xml") {
        BodyFormat::Xml
    } else {
        BodyFormat::Text
    }
}

/// The format a view asks for; `Auto` follows the content type.
pub open spec fn effective_format(content_type: Seq<char>, view: ResponseView) -> BodyFormat {
    match view {
        ResponseView::Auto => detect_format(content_type),
        ResponseView::Json => BodyFormat::Json,
        ResponseView::Html => BodyFormat::Html,
        ResponseView::Text => BodyFormat::Text,
        ResponseView::Raw => BodyFormat::Raw,
    }
}

/// Bodies above this many bytes take the plain-text path whatever their format.
pub const HIGHLIGHT_SIZE_LIMIT: usize = 200 * 1024;

/// How a body is to be rendered.
#[derive(Debug)]
pub enum RenderPlan {
    /// The body is empty: show "No response body".
    NoBody,
    /// Plain lines, no highlighting.
    Plain,
    /// Highlight this text with the syntax of this format.
    Highlight(BodyFormat, String),
}

/// The pretty-printed form of a JSON text, as `serde_json` gives it; `None`
/// where the text is not JSON.
pub uninterp spec fn pretty_printed_json(text: Seq<char>) -> Option<Seq<char>>;

/// `serde_json::from_str` into a `serde_json::Value`, then
/// `serde_json::to_string_pretty` of that value: the result is named by
/// `pretty_printed_json`, and `None` stands for a text that does not parse
/// (or a value that does not print).
#[verifier::external_body]
fn pretty_json(text: &str) -> (r: Option<String>)
    ensures
        r matches Some(s) ==> pretty_printed_json(text@) == Some(s@),
        r is None ==> pretty_printed_json(text@) is None,
{
    match serde_json::from_str::<serde_json::Value>(text) {
        Ok(v) => serde_json::to_string_pretty(&v).ok(),
        Err(_) => None,
    }
}

/// The text highlighted as JSON: its pretty-printed form when there is
/// one, the body itself otherwise.
pub fn normalized_json(body: &str, pretty: Option<String>) -> (t: String)
    ensures
        t@ == match pretty {
            Some(p) => p@,
            None => body@,
        },
{
    match pretty {
        Some(p) => p,
        None => crate::text::string_from(body),
    }
}

/// The rendering of a body: nothing to show for an empty body; plain lines
/// for the text and raw formats and for bodies above the size limit;
/// otherwise highlighting in the effective format, of the pretty-printed
/// text for JSON.
pub open spec fn plan_matches(content_type: Seq<char>, body: Seq<char>, view: ResponseView, p: RenderPlan) -> bool {
    let f = effective_format(content_type, view);
    if body.len() == 0 {
        p is NoBody
    } else if f == BodyFormat::Text || f == BodyFormat::Raw || utf8_len(body) > HIGHLIGHT_SIZE_LIMIT {
        p is Plain
    } else if f == BodyFormat::Json {
        p matches RenderPlan::Highlight(g, t) && g == f && t@ == match pretty_printed_json(body) {
            Some(q) => q,
            None => body,
        }
    } else {
        p matches RenderPlan::Highlight(g, t) && g == f && t@ == body
    }
}

/// Decides how to render a body.
pub fn render_plan(content_type: &str, body: &str, view: ResponseView) -> (p: RenderPlan)
    ensures
        plan_matches(content_type@, body@, view, p),
{
    if body.is_empty() {
        return RenderPlan::NoBody;
    }
    let f = match view {
        ResponseView::Auto => detect(content_type),
        ResponseView::Json => BodyFormat::Json,
        ResponseView::Html => BodyFormat::Html,
        ResponseView::Text => BodyFormat::Text,
        ResponseView::Raw => BodyFormat::Raw,
    };
    if f == BodyFormat::Text || f == BodyFormat::Raw || str_byte_len(body) > HIGHLIGHT_SIZE_LIMIT {
        return RenderPlan::Plain;
    }
    let text = if f == BodyFormat::Json {
        normalized_json(body, pretty_json(body))
    } else {
        crate::text::string_from(body)
    };
    RenderPlan::Highlight(f, text)
}

/// The colours of the Vesper palette.
#[derive(Debug, Clone, Copy, PartialEq, Eq, Structural)]
pub enum Palette {
    Fg,
    Comment,
    Orange,
    Yellow,
    Teal,
    Blue,
    Pink,
}

/// The RGB value of a palette colour.
pub open spec fn palette_rgb(p: Palette) -> (u8, u8, u8) {
    match p {
        Palette::Fg => (0xcc, 0xc9, 0xc2),
        Palette::Comment => (0x4d, 0x4d, 0x4d),
        Palette::Orange => (0xff, 0x98, 0x57),
        Palette::Yellow => (0xe5, 0xc0, 0x7b),
        Palette::Teal => (0x5c, 0xb8, 0xb2),
        Palette::Blue => (0x5b, 0xa2, 0xd0),
        Palette::Pink => (0xd6, 0x7a, 0x9c),
    }
}

impl Palette {
    /// The RGB value of this colour.
    pub fn rgb(self) -> (c: (u8, u8, u8))
        ensures
            c == palette_rgb(self),
    {
        match self {
            Palette::Fg => (0xcc, 0xc9, 0xc2),
            Palette::Comment => (0x4d, 0x4d, 0x4d),
            Palette::Orange => (0xff, 0x98, 0x57),
            Palette::Yellow => (0xe5, 0xc0, 0x7b),
            Palette::Teal => (0x5c, 0xb8, 0xb2),
            Palette::Blue => (0x5b, 0xa2, 0xd0),
            Palette::Pink => (0xd6, 0x7a, 0x9c),
        }
    }
}

/// The palette colour that stands for a highlighter colour: dark colours
/// (channel sum below 120) become the comment grey, near-greys (channel
/// spread below 30) the foreground; otherwise the dominant channel decides:
/// red leans orange or pink, green gives yellow, blue leans teal or blue.
pub open spec fn palette_for(r: int, g: int, b: int) -> Palette {
    let max = if r >= g && r >= b { r } else if g >= b { g } else { b };
    let min = if r <= g && r <= b { r } else if g <= b { g } else { b };
    if r + g + b < 120 {
        Palette::Comment
    } else if max - min < 30 {
        Palette::Fg
    } else if r >= g && r >= b {
        if g >= b { Palette::Orange } else { Palette::Pink }
    } else if g >= r && g >= b {
        Palette::Yellow
    } else if g >= r {
        Palette::Teal
    } else {
        Palette::Blue
    }
}

/// Maps a highlighter colour onto the palette.
pub fn map_color(r: u8, g: u8, b: u8) -> (p: Palette)
    ensures
        p == palette_for(r as int, g as int, b as int),
{
    let (r, g, b) = (r as u32, g as u32, b as u32);
    let lum = r + g + b;
    if lum < 120 {
        return Palette::Comment;
    }
    let max = if r >= g && r >= b { r } else if g >= b { g } else { b };
    let min = if r <= g && r <= b { r } else if g <= b { g } else { b };
    if max - min < 30 {
        return Palette::Fg;
    }
    if r >= g && r >= b {
        if g >= b { Palette::Orange } else { Palette::Pink }
    } else if g >= r && g >= b {
        Palette::Yellow
    } else if g >= r {
        Palette::Teal
    } else {
        Palette::Blue
    }
}

} // verus!
