//! The body renderer: from a declared content type and the bytes of a body
//! to text for a reader.

use crate::form::{form_rendering, lemma_form_plain_text, plain_form, render_form};
use crate::highlight::{
    brought, json_rendering, json_text, json_theme, lemma_json_round_trip, render_json, theme_map,
};
use crate::mime::{classify, kind_of, BodyKind};
use crate::styling::{is_plain, lemma_plain_text_clean, plain_text};
use syntect::highlighting::ThemeSet;
use syntect::parsing::SyntaxSet;
use vstd::prelude::*;
use vstd::utf8::{decode_utf8, valid_utf8};

verus! {

/// The text that bytes stand for when they are read as UTF-8 and every
/// sequence that is not valid is replaced by U+FFFD, the replacement
/// character.
pub uninterp spec fn lossy_text(bytes: Seq<u8>) -> Seq<char>;

/// `String::from_utf8_lossy` of the standard library, as an owned string:
/// the bytes read as UTF-8, with the replacement character in place of
/// what is not valid. Valid UTF-8 is decoded as it is.
#[verifier::external_body]
fn decode_lossy(bytes: &[u8]) -> (text: String)
    ensures
        text@ == lossy_text(bytes@),
        valid_utf8(bytes@) ==> text@ == decode_utf8(bytes@),
{
    String::from_utf8_lossy(bytes).into_owned()
}

/// Whether `out` renders `text` in the way `kind`.
pub open spec fn body_rendering(out: Seq<char>, kind: BodyKind, text: Seq<char>) -> bool {
    match kind {
        BodyKind::Json => json_rendering(out, text),
        BodyKind::Form => form_rendering(out, text),
        BodyKind::Text => out == text,
    }
}

/// Renders bodies. It holds the syntaxes and themes of the highlighter,
/// which are loaded once.
pub struct BodyRenderer {
    syntaxes: SyntaxSet,
    themes: ThemeSet,
}

impl BodyRenderer {
    #[verifier::type_invariant]
    spec fn well_formed(self) -> bool {
        brought(&self.syntaxes)
    }

    /// The syntaxes that the renderer holds.
    pub closed spec fn syntax_set(&self) -> SyntaxSet {
        self.syntaxes
    }

    /// The themes that the renderer holds.
    pub closed spec fn theme_set(&self) -> ThemeSet {
        self.themes
    }

    /// The names of the themes that the renderer holds.
    pub closed spec fn themes(&self) -> Set<Seq<char>> {
        theme_map(self.themes).dom()
    }

    /// Whether `out` is what the renderer gives for `text` in the way
    /// `kind`. For JSON it is the text highlighted with the renderer's
    /// syntaxes and themes; for a form, the pairs with their keys in the look
    /// of a key; for anything else, the text.
    pub open spec fn renders(&self, out: Seq<char>, kind: BodyKind, text: Seq<char>) -> bool {
        &&& body_rendering(out, kind, text)
        &&& kind == BodyKind::Json ==> out == json_text(self.syntax_set(), self.theme_set(), text)
    }

    /// A renderer with the syntaxes and themes that the highlighter brings.
    /// The theme in which JSON is highlighted is among them.
    pub fn new() -> (renderer: BodyRenderer)
        ensures
            brought(&renderer.syntax_set()),
            renderer.themes().contains(json_theme()),
    {
        BodyRenderer {
            syntaxes: SyntaxSet::load_defaults_newlines(),
            themes: ThemeSet::load_defaults(),
        }
    }

    /// Renders the text of a body in the way `kind`: JSON highlighted line
    /// by line, a form as `key=value` lines, anything else as it is.
    pub fn render_text(&self, kind: BodyKind, text: &str) -> (out: String)
        ensures
            self.renders(out@, kind, text@),
    {
        proof {
            use_type_invariant(self);
        }
        match kind {
            BodyKind::Json => render_json(&self.syntaxes, &self.themes, text),
            BodyKind::Form => render_form(text),
            BodyKind::Text => text.to_owned(),
        }
    }

    /// Renders a body for a reader. The content type selects the way; the
    /// bytes are read as UTF-8, with the replacement character in place of
    /// what is not valid. Every input is rendered: nothing fails.
    pub fn format_body(&self, mime_type: &str, body: &[u8]) -> (out: String)
        ensures
            self.renders(out@, kind_of(mime_type@), lossy_text(body@)),
            valid_utf8(body@) ==> self.renders(out@, kind_of(mime_type@), decode_utf8(body@)),
    {
        let text = decode_lossy(body);
        self.render_text(classify(mime_type), text.as_str())
    }
}

/// The text of a body rendered in the way `kind`, without any styling: a
/// form as `key=value` lines, anything else, JSON too, as it is.
pub open spec fn plain_rendering(kind: BodyKind, text: Seq<char>) -> Seq<char> {
    match kind {
        BodyKind::Json => text,
        BodyKind::Form => plain_form(text),
        BodyKind::Text => text,
    }
}

/// Rendering styles a body and alters nothing: stripped of styling, the
/// rendering of a text that held no escape character is that text laid out
/// in the way of its kind.
pub proof fn lemma_body_plain_text(out: Seq<char>, kind: BodyKind, text: Seq<char>)
    requires
        body_rendering(out, kind, text),
        is_plain(text),
    ensures
        plain_text(out) == plain_rendering(kind, text),
        is_plain(plain_rendering(kind, text)),
{
    match kind {
        BodyKind::Json => lemma_json_round_trip(out, text),
        BodyKind::Form => lemma_form_plain_text(out, text),
        BodyKind::Text => lemma_plain_text_clean(text),
    }
}

} // verus!
