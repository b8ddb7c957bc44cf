//! JSON bodies: highlighted line by line through the crate `syntect`, with
//! the plain line wherever the highlighter gives no complete answer.

use crate::styling::{
    is_plain, is_styling, lemma_plain_concat, lemma_plain_text_clean, lemma_plain_text_concat,
    plain_text, ESC,
};
use crate::text::{
    chars_of, concat, first_from, lemma_concat_first, lemma_first_from, lemma_lines_whole, lines,
    lines_from, lines_of, rows, same_chars, string_of,
};
use syntect::easy::HighlightLines;
use syntect::highlighting::{Style, Theme, ThemeSet};
use syntect::parsing::{SyntaxReference, SyntaxSet};
use vstd::prelude::*;

verus! {

/// The syntaxes that `syntect` knows: opaque here.
#[verifier::external_type_specification]
#[verifier::external_body]
pub struct ExSyntaxSet(SyntaxSet);

/// One syntax of a set: opaque here.
#[verifier::external_type_specification]
#[verifier::external_body]
pub struct ExSyntaxReference(SyntaxReference);

/// The themes that `syntect` knows: opaque here.
#[verifier::external_type_specification]
#[verifier::external_body]
pub struct ExThemeSet(ThemeSet);

/// One theme: opaque here.
#[verifier::external_type_specification]
#[verifier::external_body]
pub struct ExTheme(Theme);

/// The colours and font style of a piece of a highlighted line: opaque here.
#[verifier::external_type_specification]
#[verifier::external_body]
pub struct ExStyle(Style);

/// What can go wrong in `syntect`: opaque here.
#[verifier::external_type_specification]
#[verifier::external_body]
pub struct ExError(syntect::Error);

/// The state of highlighting a text line by line: opaque here.
#[verifier::external_type_specification]
#[verifier::external_body]
pub struct ExHighlightLines<'a>(HighlightLines<'a>);

/// Whether `set` is the set of syntaxes that `syntect` brings, as
/// `SyntaxSet::load_defaults_newlines` loads it.
pub uninterp spec fn brought(set: &SyntaxSet) -> bool;

/// Whether `syntax` is one of the syntaxes of `set`.
pub uninterp spec fn defined_in(syntax: &SyntaxReference, set: &SyntaxSet) -> bool;

/// The syntax that `set` finds for a file extension, if it has one.
pub uninterp spec fn syntax_for(set: SyntaxSet, extension: Seq<char>) -> Option<SyntaxReference>;

/// The themes that `themes` holds, each under its name: the map of the set.
pub uninterp spec fn theme_map(themes: ThemeSet) -> Map<Seq<char>, Theme>;

/// The highlighter at the start of a text, for a syntax and a theme.
pub uninterp spec fn started(syntax: SyntaxReference, theme: &Theme) -> HighlightLines<'_>;

/// Whether `lines` was made from a syntax of `set`, so that it may read a
/// line with `set`.
pub uninterp spec fn reads_with(lines: &HighlightLines<'_>, set: &SyntaxSet) -> bool;

/// What a highlighter in the state `state` gives for `line`, read with
/// `set`: the pieces of the line, each with its style, or nothing where it
/// fails; and the state in which it is left.
pub uninterp spec fn highlit(state: HighlightLines<'_>, line: Seq<char>, set: SyntaxSet) -> (
    Option<Seq<(Style, Seq<char>)>>,
    HighlightLines<'_>,
);

/// The pieces written for a terminal: each text behind the styling
/// sequences of its colours, the background among them where `bg` asks
/// for it.
pub uninterp spec fn escaped_text(pieces: Seq<(Style, Seq<char>)>, bg: bool) -> Seq<char>;

/// The name of the theme in which JSON is highlighted.
pub open spec fn json_theme() -> Seq<char> {
    "base16-ocean.dark"@
}

/// The file extension by which the syntax of JSON is found.
pub open spec fn json_extension() -> Seq<char> {
    "json"@
}

/// `SyntaxSet::load_defaults_newlines` of `syntect`: the syntaxes that the
/// crate brings, for lines that keep their line feed. Nothing is claimed of
/// which syntaxes the set holds.
pub assume_specification[ SyntaxSet::load_defaults_newlines ]() -> (set: SyntaxSet)
    ensures
        brought(&set),
;

/// `ThemeSet::load_defaults` of `syntect`: the themes that the crate brings.
/// Its documentation lists their names, the keys of the map; the one claim
/// is that the theme in which JSON is highlighted is among them.
pub assume_specification[ ThemeSet::load_defaults ]() -> (themes: ThemeSet)
    ensures
        theme_map(themes).dom().contains(json_theme()),
;

/// `SyntaxSet::find_syntax_by_extension` of `syntect`: a syntax of the set
/// that lists the file extension, if there is one. What is found depends on
/// the set and the extension alone, and belongs to the set.
pub assume_specification<'a>[ SyntaxSet::find_syntax_by_extension ](
    set: &'a SyntaxSet,
    extension: &str,
) -> (found: Option<&'a SyntaxReference>)
    ensures
        match found {
            Some(syntax) => syntax_for(*set, extension@) == Some(*syntax) && defined_in(
                syntax,
                set,
            ),
            None => syntax_for(*set, extension@) is None,
        },
;

/// The theme of the name `name` in `themes`, if there is one: a look-up in
/// the map `themes` of `syntect`'s `ThemeSet`. A theme is found where the
/// name is a key of the map, and only there, and it is the theme under that
/// key.
#[verifier::external_body]
fn find_theme<'a>(themes: &'a ThemeSet, name: &str) -> (found: Option<&'a Theme>)
    ensures
        match found {
            Some(theme) => theme_map(*themes).dom().contains(name@) && theme_map(*themes)[name@]
                == *theme,
            None => !theme_map(*themes).dom().contains(name@),
        },
{
    themes.themes.get(name)
}

/// `HighlightLines::new` of `syntect`: a highlighter at the start of a text.
/// The syntax must come from the set that the crate brings: a syntax made by
/// hand may lack its start context, and the call then panics. The
/// highlighter depends on the syntax and the theme alone, and may read lines
/// with the set that the crate brings, where that holds its syntax.
pub assume_specification<'a>[ HighlightLines::<'a>::new ](
    syntax: &SyntaxReference,
    theme: &'a Theme,
) -> (state: HighlightLines<'a>)
    requires
        exists|set: &SyntaxSet| #[trigger] defined_in(syntax, set) && brought(set),
    ensures
        state == started(*syntax, theme),
        forall|set: &SyntaxSet|
            defined_in(syntax, set) && brought(set) ==> #[trigger] reads_with(&state, set),
;

/// `HighlightLines::highlight_line` of `syntect`: the pieces of the next
/// line, each with its style, or an error. The set must be the one that the
/// highlighter's syntax came from: with another the call may panic. The
/// answer and the state that is left depend on the state, the line and the
/// set alone. Nothing else is claimed of the pieces: the library checks
/// them itself.
pub assume_specification<'a, 'b>[ HighlightLines::<'a>::highlight_line ](
    state: &mut HighlightLines<'a>,
    line: &'b str,
    syntax_set: &SyntaxSet,
) -> (spans: Result<Vec<(Style, &'b str)>, syntect::Error>)
    requires
        reads_with(old(state), syntax_set),
    ensures
        reads_with(final(state), syntax_set),
        answer_of(spans) == highlit(*old(state), line@, *syntax_set).0,
        *final(state) == highlit(*old(state), line@, *syntax_set).1,
;

/// `as_24_bit_terminal_escaped` of `syntect`: the texts of the pieces in
/// order, each behind the styling sequences that set its colours (the
/// background first, where `bg` asks for it). No sequence follows the last
/// text. The result depends on the pieces and on `bg` alone.
pub assume_specification[ syntect::util::as_24_bit_terminal_escaped ](
    v: &[(Style, &str)],
    bg: bool,
) -> (out: String)
    ensures
        out@ == escaped_text(plain_pieces(v@), bg),
        escaped(out@, span_texts(v@)),
;

/// The pieces of a line with their texts as sequences.
pub open spec fn plain_pieces(spans: Seq<(Style, &str)>) -> Seq<(Style, Seq<char>)> {
    Seq::new(spans.len(), |i: int| (spans[i].0, spans[i].1@))
}

/// The texts of pieces.
pub open spec fn piece_texts(pieces: Seq<(Style, Seq<char>)>) -> Seq<Seq<char>> {
    Seq::new(pieces.len(), |i: int| pieces[i].1)
}

/// What the highlighter answered: its pieces, or nothing where it failed.
pub open spec fn answer_of(spans: Result<Vec<(Style, &str)>, syntect::Error>) -> Option<
    Seq<(Style, Seq<char>)>,
> {
    match spans {
        Ok(v) => Some(plain_pieces(v@)),
        Err(_) => None,
    }
}

/// The texts of the pieces of a line.
pub open spec fn span_texts(spans: Seq<(Style, &str)>) -> Seq<Seq<char>> {
    piece_texts(plain_pieces(spans))
}

/// The texts one after another, each behind the lead of the same index.
pub open spec fn woven(leads: Seq<Seq<char>>, texts: Seq<Seq<char>>) -> Seq<char>
    decreases texts.len(),
{
    if texts.len() == 0 || leads.len() != texts.len() {
        Seq::empty()
    } else {
        woven(leads.drop_last(), texts.drop_last()) + leads.last() + texts.last()
    }
}

/// Whether `out` is the texts, each behind its lead, and every lead is
/// styling alone.
pub open spec fn escaped_with(out: Seq<char>, leads: Seq<Seq<char>>, texts: Seq<Seq<char>>) -> bool {
    &&& leads.len() == texts.len()
    &&& forall|i: int| 0 <= i < leads.len() ==> is_styling(#[trigger] leads[i])
    &&& out == woven(leads, texts)
}

/// Whether `out` is the texts in order, each behind styling of its own.
pub open spec fn escaped(out: Seq<char>, texts: Seq<Seq<char>>) -> bool {
    exists|leads: Seq<Seq<char>>| escaped_with(out, leads, texts)
}

/// Whether `piece` is `line` highlighted: the line cut into texts, each
/// behind styling of its own.
pub open spec fn highlighted(piece: Seq<char>, line: Seq<char>) -> bool {
    exists|texts: Seq<Seq<char>>| concat(texts) == line && #[trigger] escaped(piece, texts)
}

/// Whether `piece` shows `line`: the line highlighted, or the line as it is.
pub open spec fn shown_line(piece: Seq<char>, line: Seq<char>) -> bool {
    piece == line || highlighted(piece, line)
}

/// Whether `out` is `pieces` one after another and each piece shows the
/// line of the same index.
pub open spec fn shows_lines(out: Seq<char>, pieces: Seq<Seq<char>>, all: Seq<Seq<char>>) -> bool {
    &&& pieces.len() == all.len()
    &&& forall|i: int| 0 <= i < pieces.len() ==> shown_line(#[trigger] pieces[i], all[i])
    &&& out == concat(pieces)
}

/// Whether `out` is a rendering of the JSON text `text`: each of its lines,
/// with the line feed that ends it, highlighted or as it is, one after
/// another. Nothing is put between the lines, so every line ending stands
/// once.
pub open spec fn json_rendering(out: Seq<char>, text: Seq<char>) -> bool {
    exists|pieces: Seq<Seq<char>>| shows_lines(out, pieces, lines(text))
}

/// What is shown for `line` on the highlighter's answer: the pieces written
/// for a terminal with their backgrounds, where there are pieces and they
/// make up the whole line; nothing otherwise.
pub open spec fn shown(line: Seq<char>, answer: Option<Seq<(Style, Seq<char>)>>) -> Option<
    Seq<char>,
> {
    match answer {
        Some(pieces) => if concat(piece_texts(pieces)) == line {
            Some(escaped_text(pieces, true))
        } else {
            None
        },
        None => None,
    }
}

/// The lines of `all` from index `k` on, as a highlighter in the state
/// `state` shows them: each line highlighted, up to the first for which
/// nothing is shown; that line and all behind it as they are.
pub open spec fn highlit_from(
    state: HighlightLines<'_>,
    set: SyntaxSet,
    all: Seq<Seq<char>>,
    k: int,
) -> Seq<char>
    decreases all.len() - k,
{
    if k < 0 || k >= all.len() {
        Seq::empty()
    } else {
        let answer = highlit(state, all[k], set);
        match shown(all[k], answer.0) {
            Some(piece) => piece + highlit_from(answer.1, set, all, k + 1),
            None => concat(all.skip(k)),
        }
    }
}

/// The rendering of the JSON text `text` with the syntaxes `set` and the
/// themes `themes`: its lines highlighted from the start of the text, where
/// the set has a syntax for JSON and the themes hold the theme of JSON; the
/// text as it is otherwise.
pub open spec fn json_text(set: SyntaxSet, themes: ThemeSet, text: Seq<char>) -> Seq<char> {
    match syntax_for(set, json_extension()) {
        Some(syntax) => if theme_map(themes).dom().contains(json_theme()) {
            highlit_from(started(syntax, &theme_map(themes)[json_theme()]), set, lines(text), 0)
        } else {
            text
        },
        None => text,
    }
}

/// Whether the pieces, one after another, are exactly `line`.
pub fn covers(spans: &Vec<(Style, &str)>, line: &str) -> (whole: bool)
    ensures
        whole == (concat(span_texts(spans@)) == line@),
{
    let mut all: Vec<char> = Vec::new();
    let mut k: usize = 0;
    while k < spans.len()
        invariant
            k <= spans.len(),
            all@ == concat(span_texts(spans@).take(k as int)),
        decreases spans.len() - k,
    {
        let text = chars_of(spans[k].1);
        proof {
            let upto = span_texts(spans@).take(k + 1);
            assert(upto.drop_last() =~= span_texts(spans@).take(k as int));
            assert(upto.last() == text@);
        }
        all.extend_from_slice(text.as_slice());
        k += 1;
    }
    assert(span_texts(spans@).take(spans@.len() as int) =~= span_texts(spans@));
    same_chars(&all, &chars_of(line))
}

/// Shows one line from what the highlighter gave for it: the pieces with
/// their styling, where they make up the whole line; nothing where they do
/// not, and the caller then shows the line as it is.
pub fn show_line(line: &str, spans: &Vec<(Style, &str)>) -> (piece: Option<String>)
    ensures
        piece is Some <==> concat(span_texts(spans@)) == line@,
        match piece {
            Some(p) => shown(line@, Some(plain_pieces(spans@))) == Some(p@),
            None => shown(line@, Some(plain_pieces(spans@))) is None,
        },
        piece matches Some(p) ==> escaped(p@, span_texts(spans@)) && highlighted(p@, line@),
{
    if covers(spans, line) {
        let p = syntect::util::as_24_bit_terminal_escaped(spans.as_slice(), true);
        Some(p)
    } else {
        None
    }
}

/// Shows every line of `all` with the highlighter `state`. From the first
/// line on for which the highlighter fails, or gives pieces that are not the
/// whole line, the lines come out as they are.
fn highlight_lines(
    state: &mut HighlightLines<'_>,
    syntaxes: &SyntaxSet,
    all: &Vec<Vec<char>>,
) -> (out: Vec<char>)
    requires
        reads_with(old(state), syntaxes),
    ensures
        out@ == highlit_from(*old(state), *syntaxes, rows(all@), 0),
        exists|pieces: Seq<Seq<char>>| shows_lines(out@, pieces, rows(all@)),
{
    let ghost whole = highlit_from(*state, *syntaxes, rows(all@), 0);
    let ghost mut pieces: Seq<Seq<char>> = Seq::empty();
    let mut out: Vec<char> = Vec::new();
    let mut live = true;
    let mut k: usize = 0;
    while k < all.len()
        invariant
            k <= all.len(),
            reads_with(state, syntaxes),
            live ==> out@ + highlit_from(*state, *syntaxes, rows(all@), k as int) == whole,
            !live ==> out@ + concat(rows(all@).skip(k as int)) == whole,
            pieces.len() == k,
            forall|i: int| 0 <= i < k ==> shown_line(#[trigger] pieces[i], rows(all@)[i]),
            out@ == concat(pieces),
        decreases all.len() - k,
    {
        let ghost before = *state;
        let ghost so_far = out@;
        let line = string_of(&all[k]);
        assert(rows(all@)[k as int] == line@);
        let mut piece: Option<String> = None;
        if live {
            match state.highlight_line(line.as_str(), syntaxes) {
                Ok(spans) => {
                    piece = show_line(line.as_str(), &spans);
                },
                Err(_) => {},
            }
            assert(match piece {
                Some(p) => shown(line@, highlit(before, line@, *syntaxes).0) == Some(p@),
                None => shown(line@, highlit(before, line@, *syntaxes).0) is None,
            });
        }
        let shown_piece = match &piece {
            Some(p) => chars_of(p.as_str()),
            None => chars_of(line.as_str()),
        };
        proof {
            let rest = rows(all@).skip(k as int);
            assert(rest =~= seq![line@] + rows(all@).skip(k + 1));
            lemma_concat_first(line@, rows(all@).skip(k + 1));
            if live && piece is Some {
                assert(so_far + (shown_piece@ + highlit_from(*state, *syntaxes, rows(all@), k + 1))
                    =~= (so_far + shown_piece@) + highlit_from(
                    *state,
                    *syntaxes,
                    rows(all@),
                    k + 1,
                ));
            } else {
                assert(so_far + (line@ + concat(rows(all@).skip(k + 1))) =~= (so_far + line@)
                    + concat(rows(all@).skip(k + 1)));
            }
            assert(pieces.push(shown_piece@).drop_last() =~= pieces);
            pieces = pieces.push(shown_piece@);
        }
        if piece.is_none() {
            live = false;
        }
        out.extend_from_slice(shown_piece.as_slice());
        k += 1;
    }
    proof {
        assert(rows(all@).skip(k as int) =~= Seq::<Seq<char>>::empty());
        assert(out@ + Seq::<char>::empty() =~= out@);
        assert(shows_lines(out@, pieces, rows(all@)));
    }
    out
}

/// Renders a JSON text: its lines highlighted as JSON in the theme
/// `base16-ocean.dark`, one after another, each with its own line ending.
/// Where the syntax or the theme is not to be had, the text comes out as it
/// is; from the first line on for which the highlighter fails, the lines come
/// out as they are. Nothing fails. The syntaxes must be those that the
/// highlighter brings.
pub fn render_json(syntaxes: &SyntaxSet, themes: &ThemeSet, text: &str) -> (out: String)
    requires
        brought(syntaxes),
    ensures
        out@ == json_text(*syntaxes, *themes, text@),
        json_rendering(out@, text@),
{
    let syntax = syntaxes.find_syntax_by_extension("json");
    let theme = find_theme(themes, "base16-ocean.dark");
    match (syntax, theme) {
        (Some(syntax), Some(theme)) => {
            let all = lines_of(&chars_of(text));
            let mut state = HighlightLines::new(syntax, theme);
            let out = string_of(&highlight_lines(&mut state, syntaxes, &all));
            out
        },
        _ => {
            proof {
                lemma_lines_whole(text@);
                assert(shows_lines(text@, lines(text@), lines(text@)));
            }
            text.to_owned()
        },
    }
}

/// Styling in front of texts wraps them and alters nothing: stripped of
/// styling, escaped texts that hold no escape character are those texts,
/// one after another.
pub proof fn lemma_escaped_plain(out: Seq<char>, leads: Seq<Seq<char>>, texts: Seq<Seq<char>>)
    requires
        escaped_with(out, leads, texts),
        is_plain(concat(texts)),
    ensures
        plain_text(out) == concat(texts),
    decreases texts.len(),
{
    if texts.len() > 0 {
        let before = concat(texts.drop_last());
        let last = texts.last();
        let head = woven(leads.drop_last(), texts.drop_last());
        assert forall|i: int| 0 <= i < before.len() implies before[i] != ESC by {
            assert(concat(texts)[i] == before[i]);
        }
        assert forall|i: int| 0 <= i < last.len() implies last[i] != ESC by {
            assert(concat(texts)[before.len() + i] == last[i]);
        }
        assert forall|i: int| 0 <= i < leads.drop_last().len() implies is_styling(
            #[trigger] leads.drop_last()[i],
        ) by {
            assert(leads.drop_last()[i] == leads[i]);
        }
        lemma_escaped_plain(head, leads.drop_last(), texts.drop_last());
        assert(is_styling(leads[leads.len() - 1]));
        assert(plain_text(leads.last()) =~= Seq::<char>::empty());
        lemma_plain_text_clean(last);
        lemma_plain_text_concat(leads.last(), last);
        lemma_plain_text_concat(head, leads.last() + last);
        assert(head + (leads.last() + last) =~= out);
        assert(before + (Seq::<char>::empty() + last) =~= concat(texts));
    }
}

/// Highlighting wraps a line and alters nothing: stripped of styling, a
/// shown line that held no escape character is that line.
pub proof fn lemma_shown_line_plain(piece: Seq<char>, line: Seq<char>)
    requires
        shown_line(piece, line),
        is_plain(line),
    ensures
        plain_text(piece) == line,
{
    if piece == line {
        lemma_plain_text_clean(line);
    } else {
        let texts = choose|texts: Seq<Seq<char>>|
            concat(texts) == line && #[trigger] escaped(piece, texts);
        let leads = choose|leads: Seq<Seq<char>>| escaped_with(piece, leads, texts);
        lemma_escaped_plain(piece, leads, texts);
    }
}

/// Every line of text without an escape character is without one.
pub(crate) proof fn lemma_lines_plain(s: Seq<char>, i: int)
    requires
        0 <= i <= s.len(),
        is_plain(s),
    ensures
        forall|k: int|
            0 <= k < lines_from(s, i).len() ==> is_plain(#[trigger] lines_from(s, i)[k]),
    decreases s.len() - i,
{
    let j = first_from(s, '\n', i);
    let all = lines_from(s, i);
    lemma_first_from(s, '\n', i);
    if i < s.len() && j < s.len() {
        lemma_lines_plain(s, j + 1);
    }
    assert forall|k: int| 0 <= k < all.len() implies is_plain(#[trigger] all[k]) by {
        if k == 0 {
            if j < s.len() {
                assert(is_plain(s.subrange(i, j + 1)));
            } else {
                assert(is_plain(s.subrange(i, s.len() as int)));
            }
        } else {
            assert(all[k] == lines_from(s, j + 1)[k - 1]);
        }
    }
}

/// The highlighting of a JSON text wraps it and alters nothing: stripped of
/// styling, the rendering of a text that held no escape character is that
/// text, every line ending kept once.
pub proof fn lemma_json_round_trip(out: Seq<char>, text: Seq<char>)
    requires
        json_rendering(out, text),
        is_plain(text),
    ensures
        plain_text(out) == text,
{
    let pieces = choose|pieces: Seq<Seq<char>>| shows_lines(out, pieces, lines(text));
    let all = lines(text);
    lemma_lines_plain(text, 0);
    assert forall|i: int| 0 <= i < pieces.len() implies plain_text(#[trigger] pieces[i])
        == all[i] by {
        assert(is_plain(all[i]));
        lemma_shown_line_plain(pieces[i], all[i]);
    }
    lemma_plain_concat(pieces, all);
    lemma_lines_whole(text);
}

} // verus!
