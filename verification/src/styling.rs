//! Terminal styling: the escape sequences that select a graphic rendition,
//! the text that is left when they are taken out, and the looks that the
//! console gives to the parts of a request.

use crate::text::{chars_of, concat, join, string_of};
use colored::Colorize;
use vstd::prelude::*;

verus! {

/// The escape character, which starts every styling sequence.
pub const ESC: char = '\u{1b}';

/// Whether `c` may stand among the parameters of a styling sequence: a
/// decimal digit or a semicolon.
pub open spec fn is_param(c: char) -> bool {
    ('0' <= c && c <= '9') || c == ';'
}

/// The least index at or after `i` at which `s` holds no parameter
/// character, or the length of `s`.
pub open spec fn params_end(s: Seq<char>, i: int) -> int
    decreases s.len() - i,
{
    if i < 0 || i >= s.len() || !is_param(s[i]) {
        i
    } else {
        params_end(s, i + 1)
    }
}

/// The length of the styling sequence that starts at index `i` of `s`, or 0
/// where none starts there. A styling sequence is the escape character, `[`,
/// any number of parameter characters, and `m`.
pub open spec fn sgr_at(s: Seq<char>, i: int) -> int {
    if 0 <= i && i + 1 < s.len() && s[i] == ESC && s[i + 1] == '[' {
        let j = params_end(s, i + 2);
        if i + 2 <= j && j < s.len() && s[j] == 'm' {
            j + 1 - i
        } else {
            0
        }
    } else {
        0
    }
}

/// What is left of `s` from index `i` on when every styling sequence is
/// taken out.
pub open spec fn plain_from(s: Seq<char>, i: int) -> Seq<char>
    decreases s.len() - i,
{
    if i < 0 || i >= s.len() {
        Seq::empty()
    } else if sgr_at(s, i) > 0 {
        plain_from(s, i + sgr_at(s, i))
    } else {
        seq![s[i]] + plain_from(s, i + 1)
    }
}

/// `s` stripped of styling: what is left when every styling sequence is
/// taken out. All other characters stay, in order.
pub open spec fn plain_text(s: Seq<char>) -> Seq<char> {
    plain_from(s, 0)
}

/// Whether `s` holds no escape character, and so no styling of its own.
pub open spec fn is_plain(s: Seq<char>) -> bool {
    forall|i: int| 0 <= i < s.len() ==> s[i] != ESC
}

/// Whether `s` is styling alone: nothing is left when the styling
/// sequences are taken out.
pub open spec fn is_styling(s: Seq<char>) -> bool {
    plain_text(s).len() == 0
}

/// The styling sequence with the parameters `params`.
pub open spec fn sgr(params: Seq<char>) -> Seq<char> {
    seq![ESC, '['] + params + seq!['m']
}

/// The styling sequence that ends every look.
pub open spec fn reset() -> Seq<char> {
    sgr(seq!['0'])
}

/// Whether the reset sequence stands at index `i` of `s`.
pub open spec fn reset_at(s: Seq<char>, i: int) -> bool {
    0 <= i && i + 3 < s.len() && s[i] == ESC && s[i + 1] == '[' && s[i + 2] == '0' && s[i + 3]
        == 'm'
}

/// `s` from index `i` on, with `style` put in again behind every reset
/// sequence that `s` holds, so that a look goes on after a nested one ends.
pub open spec fn restyled_from(s: Seq<char>, style: Seq<char>, i: int) -> Seq<char>
    decreases s.len() - i,
{
    if i < 0 || i >= s.len() {
        Seq::empty()
    } else if reset_at(s, i) {
        reset() + style + restyled_from(s, style, i + 4)
    } else {
        seq![s[i]] + restyled_from(s, style, i + 1)
    }
}

/// Where the parameters of a styling sequence end: at or after the start,
/// with parameter characters in between, and not at one.
proof fn lemma_params_end(s: Seq<char>, i: int)
    requires
        0 <= i <= s.len(),
    ensures
        i <= params_end(s, i) <= s.len(),
        forall|k: int| i <= k < params_end(s, i) ==> is_param(s[k]),
        params_end(s, i) < s.len() ==> !is_param(s[params_end(s, i)]),
    decreases s.len() - i,
{
    if i < s.len() && is_param(s[i]) {
        lemma_params_end(s, i + 1);
    }
}

/// Text without an escape character has no styling to lose.
proof fn lemma_plain_from_clean(s: Seq<char>, i: int)
    requires
        0 <= i <= s.len(),
        is_plain(s),
    ensures
        plain_from(s, i) == s.subrange(i, s.len() as int),
    decreases s.len() - i,
{
    if i < s.len() {
        lemma_plain_from_clean(s, i + 1);
        assert(seq![s[i]] + s.subrange(i + 1, s.len() as int) =~= s.subrange(i, s.len() as int));
    } else {
        assert(s.subrange(i, s.len() as int) =~= Seq::<char>::empty());
    }
}

/// Stripping text that holds no escape character changes nothing.
pub proof fn lemma_plain_text_clean(s: Seq<char>)
    requires
        is_plain(s),
    ensures
        plain_text(s) == s,
{
    lemma_plain_from_clean(s, 0);
    assert(s.subrange(0, s.len() as int) =~= s);
}

/// Parameters that end inside `a` end at the same place when `b` follows.
proof fn lemma_params_end_prefix(a: Seq<char>, b: Seq<char>, i: int)
    requires
        0 <= i <= a.len(),
        params_end(a, i) < a.len(),
    ensures
        params_end(a + b, i) == params_end(a, i),
    decreases a.len() - i,
{
    if i < a.len() && is_param(a[i]) {
        lemma_params_end_prefix(a, b, i + 1);
    }
}

/// Parameters inside `b` end at the same place, moved, when `a` goes before.
proof fn lemma_params_end_shift(a: Seq<char>, b: Seq<char>, j: int)
    requires
        0 <= j <= b.len(),
    ensures
        params_end(a + b, a.len() + j) == a.len() + params_end(b, j),
    decreases b.len() - j,
{
    if j < b.len() && is_param(b[j]) {
        lemma_params_end_shift(a, b, j + 1);
    }
}

/// A styling sequence inside `b` is the same one when `a` goes before.
proof fn lemma_sgr_at_shift(a: Seq<char>, b: Seq<char>, j: int)
    requires
        0 <= j < b.len(),
    ensures
        sgr_at(a + b, a.len() + j) == sgr_at(b, j),
{
    if j + 1 < b.len() {
        lemma_params_end_shift(a, b, j + 2);
        lemma_params_end(b, j + 2);
    }
}

/// What is left of `b` is the same when `a` goes before.
proof fn lemma_plain_from_shift(a: Seq<char>, b: Seq<char>, j: int)
    requires
        0 <= j <= b.len(),
    ensures
        plain_from(a + b, a.len() + j) == plain_from(b, j),
    decreases b.len() - j,
{
    if j < b.len() {
        lemma_sgr_at_shift(a, b, j);
        if sgr_at(b, j) > 0 {
            lemma_plain_from_shift(a, b, j + sgr_at(b, j));
        } else {
            lemma_plain_from_shift(a, b, j + 1);
        }
    }
}

/// Stripping goes through a concatenation from any index of the first part
/// on, where what is left of that part holds no escape character.
proof fn lemma_plain_from_concat(a: Seq<char>, b: Seq<char>, i: int)
    requires
        0 <= i <= a.len(),
        is_plain(plain_from(a, i)),
    ensures
        plain_from(a + b, i) == plain_from(a, i) + plain_text(b),
    decreases a.len() - i,
{
    if i == a.len() {
        lemma_plain_from_shift(a, b, 0);
        assert(plain_from(a, i) + plain_text(b) =~= plain_text(b));
    } else if sgr_at(a, i) > 0 {
        lemma_params_end_prefix(a, b, i + 2);
        assert(sgr_at(a + b, i) == sgr_at(a, i));
        lemma_plain_from_concat(a, b, i + sgr_at(a, i));
    } else {
        let rest = plain_from(a, i + 1);
        assert(plain_from(a, i)[0] == a[i]);
        assert(a[i] != ESC);
        assert forall|k: int| 0 <= k < rest.len() implies rest[k] != ESC by {
            assert(plain_from(a, i)[k + 1] == rest[k]);
        }
        assert(sgr_at(a + b, i) == 0);
        lemma_plain_from_concat(a, b, i + 1);
        assert(seq![a[i]] + (rest + plain_text(b)) =~= (seq![a[i]] + rest) + plain_text(b));
    }
}

/// Stripping goes through a concatenation: where what is left of the first
/// part holds no escape character, what is left of the whole is what is left
/// of each part.
pub proof fn lemma_plain_text_concat(a: Seq<char>, b: Seq<char>)
    requires
        is_plain(plain_text(a)),
    ensures
        plain_text(a + b) == plain_text(a) + plain_text(b),
{
    lemma_plain_from_concat(a, b, 0);
}

/// A styling sequence is styling alone.
pub proof fn lemma_sgr_is_styling(params: Seq<char>)
    requires
        forall|i: int| 0 <= i < params.len() ==> is_param(params[i]),
    ensures
        is_styling(sgr(params)),
{
    let s = sgr(params);
    lemma_params_end_all(s, 2, (params.len() + 2) as int);
    assert(sgr_at(s, 0) == s.len());
    assert(plain_from(s, s.len() as int) == Seq::<char>::empty());
    assert(plain_from(s, 0) == plain_from(s, 0 + sgr_at(s, 0)));
}

/// Parameters that run up to a character that is none end there.
proof fn lemma_params_end_all(s: Seq<char>, i: int, end: int)
    requires
        0 <= i <= end < s.len(),
        forall|k: int| i <= k < end ==> is_param(s[k]),
        !is_param(s[end]),
    ensures
        params_end(s, i) == end,
    decreases end - i,
{
    if i < end {
        lemma_params_end_all(s, i + 1, end);
    }
}

/// The colour of a look's letters.
#[derive(Clone, Copy, Debug, PartialEq, Eq, Structural)]
pub enum Tint {
    /// The terminal's own colour.
    Plain,
    Green,
    Yellow,
    Blue,
}

/// How a piece of text is to look on the terminal.
#[derive(Clone, Copy, Debug, PartialEq, Eq, Structural)]
pub struct Look {
    pub tint: Tint,
    pub bold: bool,
    pub dimmed: bool,
    pub italic: bool,
}

/// The parameters `acc` with `p` added: a semicolon parts them.
pub open spec fn with_param(acc: Seq<char>, p: Seq<char>) -> Seq<char> {
    if acc.len() == 0 {
        p
    } else {
        acc + seq![';'] + p
    }
}

impl Look {
    /// Whether the look asks for nothing: text with it is never styled.
    pub open spec fn is_bare(self) -> bool {
        !self.bold && !self.dimmed && !self.italic && self.tint == Tint::Plain
    }

    /// The parameters of the styling sequence that turns the look on:
    /// 1 for bold, 2 for dimmed, 3 for italic, then the colour.
    pub open spec fn params(self) -> Seq<char> {
        let a = if self.bold {
            seq!['1']
        } else {
            Seq::empty()
        };
        let b = if self.dimmed {
            with_param(a, seq!['2'])
        } else {
            a
        };
        let c = if self.italic {
            with_param(b, seq!['3'])
        } else {
            b
        };
        match self.tint {
            Tint::Plain => c,
            Tint::Green => with_param(c, seq!['3', '2']),
            Tint::Yellow => with_param(c, seq!['3', '3']),
            Tint::Blue => with_param(c, seq!['3', '4']),
        }
    }

    /// The styling sequence that turns the look on.
    pub open spec fn lead(self) -> Seq<char> {
        sgr(self.params())
    }
}

/// Whether `out` is `text` in the look `look`: either `text` itself, where
/// the terminal takes no styling or the look is bare, or `text` between the
/// look's styling sequence and the reset sequence, with the look put on
/// again behind every reset sequence that `text` itself holds.
pub open spec fn painted(out: Seq<char>, text: Seq<char>, look: Look) -> bool {
    out == text || (!look.is_bare() && out == look.lead() + restyled_from(text, look.lead(), 0)
        + reset())
}

/// `text` in the look `look`, by the crate `colored`: the text as a
/// `ColoredString`, with the look's colour and switches, written out by its
/// `Display`. Whether the styling is written depends on the terminal and on
/// variables of the process, so the contract allows both outcomes. With
/// styling, the result is the look's sequence, the text, and the reset
/// sequence; a reset sequence inside the text is followed by the look's
/// sequence once more. The body only hands the look over, field by field.
#[verifier::external_body]
pub(crate) fn paint(text: &str, look: Look) -> (out: String)
    ensures
        painted(out@, text@, look),
{
    let mut styled = colored::ColoredString::from(text);
    styled.fgcolor = match look.tint {
        Tint::Plain => None,
        Tint::Green => Some(colored::Color::Green),
        Tint::Yellow => Some(colored::Color::Yellow),
        Tint::Blue => Some(colored::Color::Blue),
    };
    if look.bold { styled = styled.bold(); }
    if look.dimmed { styled = styled.dimmed(); }
    if look.italic { styled = styled.italic(); }
    format!("{}", styled)
}

/// The parameters of a look are parameter characters.
pub(crate) proof fn lemma_look_params(look: Look)
    ensures
        forall|i: int| 0 <= i < look.params().len() ==> is_param(#[trigger] look.params()[i]),
{
}

/// Text without an escape character holds no reset sequence, so no look
/// is put on again inside it.
pub(crate) proof fn lemma_restyled_clean(s: Seq<char>, style: Seq<char>, i: int)
    requires
        0 <= i <= s.len(),
        is_plain(s),
    ensures
        restyled_from(s, style, i) == s.subrange(i, s.len() as int),
    decreases s.len() - i,
{
    if i < s.len() {
        lemma_restyled_clean(s, style, i + 1);
        assert(seq![s[i]] + s.subrange(i + 1, s.len() as int) =~= s.subrange(i, s.len() as int));
    } else {
        assert(s.subrange(i, s.len() as int) =~= Seq::<char>::empty());
    }
}

/// A look wraps text and does not alter it: stripped of styling, painted
/// text that had no escape character of its own is that text again.
pub proof fn lemma_painted_plain(out: Seq<char>, text: Seq<char>, look: Look)
    requires
        painted(out, text, look),
        is_plain(text),
    ensures
        plain_text(out) == text,
{
    lemma_plain_text_clean(text);
    if out != text {
        let lead = look.lead();
        lemma_look_params(look);
        lemma_sgr_is_styling(look.params());
        lemma_sgr_is_styling(seq!['0']);
        lemma_restyled_clean(text, lead, 0);
        assert(text.subrange(0, text.len() as int) =~= text);
        lemma_plain_text_concat(lead, text);
        assert(plain_text(lead + text) =~= text);
        lemma_plain_text_concat(lead + text, reset());
        assert(plain_text(lead + text + reset()) =~= text);
    }
}

/// Whether `c` may stand among the parameters of a styling sequence.
fn is_param_char(c: char) -> (r: bool)
    ensures
        r == is_param(c),
{
    ('0' <= c && c <= '9') || c == ';'
}

/// The length of the styling sequence that starts at index `i` of `v`, or 0.
fn sgr_len(v: &Vec<char>, i: usize) -> (n: usize)
    requires
        i < v.len(),
    ensures
        n == sgr_at(v@, i as int),
        i + n <= v.len(),
{
    if v[i] == ESC && i + 1 < v.len() && v[i + 1] == '[' {
        let mut j: usize = i + 2;
        while j < v.len() && is_param_char(v[j])
            invariant
                i + 2 <= j <= v.len(),
                params_end(v@, j as int) == params_end(v@, i + 2),
            decreases v.len() - j,
        {
            j += 1;
        }
        if j < v.len() && v[j] == 'm' {
            j + 1 - i
        } else {
            0
        }
    } else {
        0
    }
}

/// `v` stripped of styling.
pub(crate) fn strip_chars(v: &Vec<char>) -> (out: Vec<char>)
    ensures
        out@ == plain_text(v@),
{
    let mut out: Vec<char> = Vec::new();
    let mut i: usize = 0;
    while i < v.len()
        invariant
            i <= v.len(),
            out@ + plain_from(v@, i as int) == plain_text(v@),
        decreases v.len() - i,
    {
        let n = sgr_len(v, i);
        if n > 0 {
            i += n;
        } else {
            assert(out@.push(v@[i as int]) + plain_from(v@, i + 1) =~= out@ + plain_from(
                v@,
                i as int,
            ));
            out.push(v[i]);
            i += 1;
        }
    }
    assert(out@ + plain_from(v@, i as int) =~= out@);
    out
}

/// `s` stripped of styling: every styling sequence is taken out, and all
/// other characters stay, in order.
pub fn strip_styling(s: &str) -> (out: String)
    ensures
        out@ == plain_text(s@),
{
    string_of(&strip_chars(&chars_of(s)))
}

/// Stripping goes through a join: where each part, stripped, is the text
/// beside it and that text holds no escape character, the joined parts,
/// stripped, are those texts joined.
pub proof fn lemma_plain_join(parts: Seq<Seq<char>>, texts: Seq<Seq<char>>, sep: char)
    requires
        parts.len() == texts.len(),
        sep != ESC,
        forall|i: int| 0 <= i < parts.len() ==> plain_text(#[trigger] parts[i]) == texts[i],
        forall|i: int| 0 <= i < texts.len() ==> is_plain(#[trigger] texts[i]),
    ensures
        plain_text(join(parts, sep)) == join(texts, sep),
        is_plain(join(texts, sep)),
    decreases parts.len(),
{
    if parts.len() == 0 {
    } else if parts.len() == 1 {
    } else {
        let head = join(parts.drop_last(), sep);
        let tail = seq![sep] + parts.last();
        lemma_plain_join(parts.drop_last(), texts.drop_last(), sep);
        lemma_plain_text_clean(seq![sep]);
        lemma_plain_text_concat(seq![sep], parts.last());
        lemma_plain_text_concat(head, tail);
        assert(head + tail =~= join(parts, sep));
        assert(plain_text(head) + (seq![sep] + texts.last()) =~= join(texts, sep));
    }
}

/// Stripping goes through appending: where two parts, stripped, are two
/// texts without an escape character, the parts one after the other,
/// stripped, are the texts one after the other.
pub proof fn lemma_plain_append(a: Seq<char>, b: Seq<char>, x: Seq<char>, y: Seq<char>)
    requires
        plain_text(a) == x,
        plain_text(b) == y,
        is_plain(x),
        is_plain(y),
    ensures
        plain_text(a + b) == x + y,
        is_plain(x + y),
{
    lemma_plain_text_concat(a, b);
}

/// Stripping goes through parts one after another: where each part,
/// stripped, is the text beside it and that text holds no escape character,
/// the parts one after another, stripped, are those texts one after another.
pub proof fn lemma_plain_concat(parts: Seq<Seq<char>>, texts: Seq<Seq<char>>)
    requires
        parts.len() == texts.len(),
        forall|i: int| 0 <= i < parts.len() ==> plain_text(#[trigger] parts[i]) == texts[i],
        forall|i: int| 0 <= i < texts.len() ==> is_plain(#[trigger] texts[i]),
    ensures
        plain_text(concat(parts)) == concat(texts),
        is_plain(concat(texts)),
    decreases parts.len(),
{
    if parts.len() == 0 {
    } else {
        lemma_plain_concat(parts.drop_last(), texts.drop_last());
        assert(plain_text(parts.last()) == texts.last());
        assert(is_plain(texts.last()));
        lemma_plain_append(
            concat(parts.drop_last()),
            parts.last(),
            concat(texts.drop_last()),
            texts.last(),
        );
    }
}

} // verus!
