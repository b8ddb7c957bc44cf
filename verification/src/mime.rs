//! The declared content type of a body, and the way of rendering that it
//! selects.

use crate::text::{
    chars_of, copy_range, find_from, head_before, lower, lower_chars, same_chars, trim_bounds,
    trimmed,
};
use vstd::prelude::*;

verus! {

/// How a body is rendered.
#[derive(Clone, Copy, Debug, PartialEq, Eq, Structural)]
pub enum BodyKind {
    /// A JSON document: highlighted line by line.
    Json,
    /// A form, URL-encoded: one `key=value` pair on each line.
    Form,
    /// Anything else: the text as it is.
    Text,
}

/// The content type of a JSON body.
pub open spec fn json_type() -> Seq<char> {
    "application/json"@
}

/// The content type of a URL-encoded form.
pub open spec fn form_type() -> Seq<char> {
    "application/x-www-form-urlencoded"@
}

/// The primary type of a content type: what stands before the first `;`,
/// with its ASCII letters in lower case, without the white space at its
/// ends.
pub open spec fn normalized(mime: Seq<char>) -> Seq<char> {
    trimmed(lower(head_before(mime, ';')))
}

/// The rendering that a content type selects. The match is exact, on the
/// primary type.
pub open spec fn kind_of(mime: Seq<char>) -> BodyKind {
    if normalized(mime) == json_type() {
        BodyKind::Json
    } else if normalized(mime) == form_type() {
        BodyKind::Form
    } else {
        BodyKind::Text
    }
}

/// The primary type of `mime`, normalized.
fn normalize(mime: &Vec<char>) -> (r: Vec<char>)
    ensures
        r@ == normalized(mime@),
{
    let end = find_from(mime, ';', 0);
    let head = copy_range(mime, 0, end);
    assert(head@ =~= head_before(mime@, ';'));
    let low = lower_chars(&head);
    let (a, b) = trim_bounds(&low);
    copy_range(&low, a, b)
}

/// Selects the rendering for a body whose declared content type is
/// `mime_type`. Parameters after a `;` and the case of letters do not count.
pub fn classify(mime_type: &str) -> (kind: BodyKind)
    ensures
        kind == kind_of(mime_type@),
{
    let norm = normalize(&chars_of(mime_type));
    if same_chars(&norm, &chars_of("application/json")) {
        BodyKind::Json
    } else if same_chars(&norm, &chars_of("application/x-www-form-urlencoded")) {
        BodyKind::Form
    } else {
        BodyKind::Text
    }
}

} // verus!
