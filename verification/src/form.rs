//! URL-encoded forms: the fields of a body, and their rendering as one
//! `key=value` pair on each line, with the key emphasized.

use crate::styling::{
    is_plain, lemma_painted_plain, lemma_plain_join, lemma_plain_text_clean,
    lemma_plain_text_concat, paint, painted, plain_text, Look, Tint,
};
use crate::text::{
    chars_of, copy_range, find_from, first_from, head_before, join, join_chars, lemma_first_from,
    rows, split, split_chars, split_from, string_of,
};
use vstd::prelude::*;

verus! {

/// The key of a pair: what stands before its first `=`, or all of it.
pub open spec fn field_key(pair: Seq<char>) -> Seq<char> {
    head_before(pair, '=')
}

/// The value of a pair: what stands behind its first `=`, or nothing where
/// it has none.
pub open spec fn field_value(pair: Seq<char>) -> Seq<char> {
    let j = first_from(pair, '=', 0);
    if j < pair.len() {
        pair.skip(j + 1)
    } else {
        Seq::empty()
    }
}

/// The pairs of a form, cut at every `&`. A form always has at least one
/// pair, and a pair may be empty.
pub open spec fn form_pairs(text: Seq<char>) -> Seq<Seq<char>> {
    split(text, '&')
}

/// One line of a rendered form: the key as it is shown, `=`, the value.
pub open spec fn form_line(shown_key: Seq<char>, value: Seq<char>) -> Seq<char> {
    shown_key + seq!['='] + value
}

/// The look of a key: bold and blue.
pub open spec fn key_look() -> Look {
    Look { tint: Tint::Blue, bold: true, dimmed: false, italic: false }
}

/// The lines of the form `text`, given each key as it is shown.
pub open spec fn form_lines(shown_keys: Seq<Seq<char>>, text: Seq<char>) -> Seq<Seq<char>> {
    Seq::new(
        form_pairs(text).len(),
        |i: int| form_line(shown_keys[i], field_value(form_pairs(text)[i])),
    )
}

/// Whether `out` renders the form `text` with the keys shown as
/// `shown_keys`: each key in the look of a key, a line for each pair, a
/// line feed between the lines.
pub open spec fn shows_form(out: Seq<char>, shown_keys: Seq<Seq<char>>, text: Seq<char>) -> bool {
    &&& shown_keys.len() == form_pairs(text).len()
    &&& forall|i: int|
        0 <= i < shown_keys.len() ==> painted(
            #[trigger] shown_keys[i],
            field_key(form_pairs(text)[i]),
            key_look(),
        )
    &&& out == join(form_lines(shown_keys, text), '\n')
}

/// Whether `out` is a rendering of the form `text`.
pub open spec fn form_rendering(out: Seq<char>, text: Seq<char>) -> bool {
    exists|shown_keys: Seq<Seq<char>>| shows_form(out, shown_keys, text)
}

/// The form `text` without styling: `key=value` for each pair, a line feed
/// between the lines.
pub open spec fn plain_form(text: Seq<char>) -> Seq<char> {
    join(
        Seq::new(
            form_pairs(text).len(),
            |i: int| form_line(field_key(form_pairs(text)[i]), field_value(form_pairs(text)[i])),
        ),
        '\n',
    )
}

/// The key and the value of `pair`.
fn split_pair(pair: &Vec<char>) -> (kv: (Vec<char>, Vec<char>))
    ensures
        kv.0@ == field_key(pair@),
        kv.1@ == field_value(pair@),
{
    let j = find_from(pair, '=', 0);
    let key = copy_range(pair, 0, j);
    assert(key@ =~= field_key(pair@));
    let value = if j < pair.len() {
        copy_range(pair, j + 1, pair.len())
    } else {
        Vec::new()
    };
    assert(value@ =~= field_value(pair@));
    (key, value)
}

/// The fields of the form `text`, in order: for each pair its key and its
/// value. A missing key or value is empty.
pub fn form_fields(text: &str) -> (fields: Vec<(String, String)>)
    ensures
        fields@.len() == form_pairs(text@).len(),
        forall|i: int|
            0 <= i < fields@.len() ==> (#[trigger] fields@[i]).0@ == field_key(form_pairs(text@)[i])
                && fields@[i].1@ == field_value(form_pairs(text@)[i]),
{
    let pairs = split_chars(&chars_of(text), '&');
    let mut fields: Vec<(String, String)> = Vec::new();
    let mut k: usize = 0;
    while k < pairs.len()
        invariant
            k <= pairs.len(),
            rows(pairs@) == form_pairs(text@),
            fields@.len() == k,
            forall|i: int|
                0 <= i < k ==> (#[trigger] fields@[i]).0@ == field_key(form_pairs(text@)[i])
                    && fields@[i].1@ == field_value(form_pairs(text@)[i]),
        decreases pairs.len() - k,
    {
        let (key, value) = split_pair(&pairs[k]);
        assert(rows(pairs@)[k as int] == pairs@[k as int]@);
        fields.push((string_of(&key), string_of(&value)));
        k += 1;
    }
    fields
}

/// One line of a rendered form, from the key as it is shown and the value.
pub fn form_line_of(shown_key: &str, value: &str) -> (line: String)
    ensures
        line@ == form_line(shown_key@, value@),
{
    let mut line = chars_of(shown_key);
    line.push('=');
    let rest = chars_of(value);
    line.extend_from_slice(rest.as_slice());
    assert(line@ =~= form_line(shown_key@, value@));
    string_of(&line)
}

/// Renders a URL-encoded form: the body is cut at every `&` and each pair
/// at its first `=`; each pair comes out as `key=value` on a line of its
/// own, the key in the look of a key. Nothing is decoded and nothing fails.
pub fn render_form(text: &str) -> (out: String)
    ensures
        form_rendering(out@, text@),
{
    let fields = form_fields(text);
    let mut lines: Vec<Vec<char>> = Vec::new();
    let ghost mut shown_keys: Seq<Seq<char>> = Seq::empty();
    let mut k: usize = 0;
    while k < fields.len()
        invariant
            k <= fields.len(),
            fields@.len() == form_pairs(text@).len(),
            forall|i: int|
                0 <= i < fields@.len() ==> (#[trigger] fields@[i]).0@ == field_key(
                    form_pairs(text@)[i],
                ) && fields@[i].1@ == field_value(form_pairs(text@)[i]),
            lines@.len() == k,
            shown_keys.len() == k,
            forall|i: int|
                0 <= i < k ==> painted(
                    #[trigger] shown_keys[i],
                    field_key(form_pairs(text@)[i]),
                    key_look(),
                ),
            forall|i: int|
                0 <= i < k ==> (#[trigger] lines@[i])@ == form_line(
                    shown_keys[i],
                    field_value(form_pairs(text@)[i]),
                ),
        decreases fields.len() - k,
    {
        let shown = paint(
            fields[k].0.as_str(),
            Look { tint: Tint::Blue, bold: true, dimmed: false, italic: false },
        );
        let line = form_line_of(shown.as_str(), fields[k].1.as_str());
        proof {
            shown_keys = shown_keys.push(shown@);
        }
        lines.push(chars_of(line.as_str()));
        k += 1;
    }
    let out = string_of(&join_chars(&lines, '\n'));
    proof {
        assert(rows(lines@) =~= form_lines(shown_keys, text@));
        assert(shows_form(out@, shown_keys, text@));
    }
    out
}

/// Every piece of text without an escape character is without one.
pub(crate) proof fn lemma_split_plain(s: Seq<char>, sep: char, i: int)
    requires
        0 <= i <= s.len(),
        is_plain(s),
    ensures
        forall|k: int|
            0 <= k < split_from(s, sep, i).len() ==> is_plain(#[trigger] split_from(s, sep, i)[k]),
    decreases s.len() - i,
{
    let j = first_from(s, sep, i);
    let pieces = split_from(s, sep, i);
    lemma_first_from(s, sep, i);
    if j < s.len() {
        lemma_split_plain(s, sep, j + 1);
    }
    assert forall|k: int| 0 <= k < pieces.len() implies is_plain(#[trigger] pieces[k]) by {
        if k == 0 {
            assert(is_plain(s.subrange(i, j)));
            assert(is_plain(s.subrange(i, s.len() as int)));
        } else {
            assert(pieces[k] == split_from(s, sep, j + 1)[k - 1]);
        }
    }
}

/// The styling of a form wraps its keys and alters nothing: stripped of
/// styling, a rendered form whose text held no escape character is the form
/// as `key=value` lines.
pub proof fn lemma_form_plain_text(out: Seq<char>, text: Seq<char>)
    requires
        form_rendering(out, text),
        is_plain(text),
    ensures
        plain_text(out) == plain_form(text),
        is_plain(plain_form(text)),
{
    let shown_keys = choose|shown_keys: Seq<Seq<char>>| shows_form(out, shown_keys, text);
    let pairs = form_pairs(text);
    let lines = form_lines(shown_keys, text);
    let plain_lines = Seq::new(
        pairs.len(),
        |i: int| form_line(field_key(pairs[i]), field_value(pairs[i])),
    );
    lemma_split_plain(text, '&', 0);
    assert forall|i: int| 0 <= i < lines.len() implies plain_text(#[trigger] lines[i])
        == plain_lines[i] && is_plain(plain_lines[i]) by {
        let pair = pairs[i];
        let key = field_key(pair);
        let value = field_value(pair);
        lemma_first_from(pair, '=', 0);
        assert(is_plain(pair));
        assert(is_plain(key));
        assert(is_plain(value));
        assert(painted(shown_keys[i], key, key_look()));
        lemma_painted_plain(shown_keys[i], key, key_look());
        let rest = seq!['='] + value;
        assert(is_plain(rest));
        lemma_plain_text_clean(rest);
        lemma_plain_text_concat(shown_keys[i], rest);
        assert(shown_keys[i] + rest =~= lines[i]);
        assert(key + rest =~= plain_lines[i]);
    }
    assert forall|i: int| 0 <= i < plain_lines.len() implies is_plain(
        #[trigger] plain_lines[i],
    ) by {
        assert(plain_text(lines[i]) == plain_lines[i] && is_plain(plain_lines[i]));
    }
    lemma_plain_join(lines, plain_lines, '\n');
}

} // verus!
