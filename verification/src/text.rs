//! Character sequences: the conversions between strings and vectors of
//! characters, and the searching, splitting and joining that the renderers
//! share.

use vstd::prelude::*;

verus! {

broadcast use vstd::string::group_string_axioms;

/// The lower-case form of an ASCII capital letter; any other character
/// is left as it is.
pub open spec fn ascii_lower(c: char) -> char {
    if 'A' <= c && c <= 'Z' {
        ((c as u8) + 32) as char
    } else {
        c
    }
}

/// `s` with every ASCII capital letter in lower case.
pub open spec fn lower(s: Seq<char>) -> Seq<char> {
    Seq::new(s.len(), |i: int| ascii_lower(s[i]))
}

/// Whether `c` is white space: a character with the Unicode property
/// White_Space.
pub open spec fn is_space(c: char) -> bool {
    let n = c as u32;
    (0x09 <= n && n <= 0x0D) || n == 0x20 || n == 0x85 || n == 0xA0 || n == 0x1680 || (0x2000 <= n
        && n <= 0x200A) || n == 0x2028 || n == 0x2029 || n == 0x202F || n == 0x205F || n == 0x3000
}

/// The least index at or after `i` at which `s` holds `c`, or the length
/// of `s` where there is none.
pub open spec fn first_from(s: Seq<char>, c: char, i: int) -> int
    decreases s.len() - i,
{
    if i < 0 || i >= s.len() {
        s.len() as int
    } else if s[i] == c {
        i
    } else {
        first_from(s, c, i + 1)
    }
}

/// What stands in `s` before the first `c`: all of `s` where it holds no `c`.
pub open spec fn head_before(s: Seq<char>, c: char) -> Seq<char> {
    s.take(first_from(s, c, 0))
}

/// The least index at or after `i` at which `s` holds no white space, or
/// the length of `s`.
pub open spec fn after_space(s: Seq<char>, i: int) -> int
    decreases s.len() - i,
{
    if i < 0 || i >= s.len() {
        s.len() as int
    } else if is_space(s[i]) {
        after_space(s, i + 1)
    } else {
        i
    }
}

/// The least end `k <= j` such that `s` holds only white space from `k`
/// up to `j`.
pub open spec fn before_space(s: Seq<char>, j: int) -> int
    decreases j,
{
    if j <= 0 || j > s.len() {
        0
    } else if is_space(s[j - 1]) {
        before_space(s, j - 1)
    } else {
        j
    }
}

/// `s` without the white space at its two ends.
pub open spec fn trimmed(s: Seq<char>) -> Seq<char> {
    let a = after_space(s, 0);
    let b = before_space(s, s.len() as int);
    if a >= b {
        Seq::empty()
    } else {
        s.subrange(a, b)
    }
}

/// The pieces of `s` from index `i` on, cut at every `sep`. There is always
/// at least one piece, and a piece may be empty.
pub open spec fn split_from(s: Seq<char>, sep: char, i: int) -> Seq<Seq<char>>
    decreases s.len() - i,
{
    let j = first_from(s, sep, i);
    if i < 0 || j < i || j >= s.len() {
        seq![s.subrange(i, s.len() as int)]
    } else {
        seq![s.subrange(i, j)] + split_from(s, sep, j + 1)
    }
}

/// The pieces of `s`, cut at every `sep`.
pub open spec fn split(s: Seq<char>, sep: char) -> Seq<Seq<char>> {
    split_from(s, sep, 0)
}

/// The lines of `s` from index `i` on. Each line keeps the line feed that
/// ends it; the last line may have none. Nothing is left out and no line
/// is empty.
pub open spec fn lines_from(s: Seq<char>, i: int) -> Seq<Seq<char>>
    decreases s.len() - i,
{
    let j = first_from(s, '\n', i);
    if i < 0 || i >= s.len() {
        Seq::empty()
    } else if j < i || j >= s.len() {
        seq![s.subrange(i, s.len() as int)]
    } else {
        seq![s.subrange(i, j + 1)] + lines_from(s, j + 1)
    }
}

/// The lines of `s`, each with its line feed.
pub open spec fn lines(s: Seq<char>) -> Seq<Seq<char>> {
    lines_from(s, 0)
}

/// The parts in order, with `sep` between each two neighbours.
pub open spec fn join(parts: Seq<Seq<char>>, sep: char) -> Seq<char>
    decreases parts.len(),
{
    if parts.len() == 0 {
        Seq::empty()
    } else if parts.len() == 1 {
        parts[0]
    } else {
        join(parts.drop_last(), sep) + seq![sep] + parts.last()
    }
}

/// The texts one after another.
pub open spec fn concat(texts: Seq<Seq<char>>) -> Seq<char>
    decreases texts.len(),
{
    if texts.len() == 0 {
        Seq::empty()
    } else {
        concat(texts.drop_last()) + texts.last()
    }
}

/// The rows of a vector of character vectors, each as a sequence.
pub open spec fn rows(v: Seq<Vec<char>>) -> Seq<Seq<char>> {
    Seq::new(v.len(), |i: int| v[i]@)
}

/// `String::push` of the standard library: the character is appended, and
/// nothing else changes.
pub assume_specification[ String::push ](s: &mut String, c: char)
    ensures
        final(s)@ == old(s)@.push(c),
;

/// Where `first_from` points: nothing before it is `c`, and it is `c`
/// unless it is the end.
pub(crate) proof fn lemma_first_from(s: Seq<char>, c: char, i: int)
    requires
        0 <= i <= s.len(),
    ensures
        i <= first_from(s, c, i) <= s.len(),
        forall|k: int| i <= k < first_from(s, c, i) ==> s[k] != c,
        first_from(s, c, i) < s.len() ==> s[first_from(s, c, i)] == c,
    decreases s.len() - i,
{
    if i < s.len() && s[i] != c {
        lemma_first_from(s, c, i + 1);
    }
}

/// The characters of `s`, in order.
pub(crate) fn chars_of(s: &str) -> (v: Vec<char>)
    ensures
        v@ == s@,
{
    let mut v: Vec<char> = Vec::new();
    for c in it: s.chars()
        invariant
            it.seq() == s@,
            v@ == s@.take(it.index()),
    {
        v.push(c);
    }
    v
}

/// The string whose characters are those of `v`, in order.
pub(crate) fn string_of(v: &Vec<char>) -> (s: String)
    ensures
        s@ == v@,
{
    let mut s = String::new();
    let mut i: usize = 0;
    while i < v.len()
        invariant
            i <= v.len(),
            s@ == v@.take(i as int),
        decreases v.len() - i,
    {
        s.push(v[i]);
        i += 1;
    }
    s
}

/// `c` in lower case, where it is an ASCII capital letter.
pub(crate) fn to_lower(c: char) -> (r: char)
    ensures
        r == ascii_lower(c),
{
    if 'A' <= c && c <= 'Z' {
        ((c as u8) + 32) as char
    } else {
        c
    }
}

/// Whether `c` is white space.
pub(crate) fn is_space_char(c: char) -> (r: bool)
    ensures
        r == is_space(c),
{
    let n: u32 = c as u32;
    (0x09 <= n && n <= 0x0D) || n == 0x20 || n == 0x85 || n == 0xA0 || n == 0x1680 || (0x2000 <= n
        && n <= 0x200A) || n == 0x2028 || n == 0x2029 || n == 0x202F || n == 0x205F || n == 0x3000
}

/// `v` with every ASCII capital letter in lower case.
pub(crate) fn lower_chars(v: &Vec<char>) -> (r: Vec<char>)
    ensures
        r@ == lower(v@),
{
    let mut r: Vec<char> = Vec::new();
    let mut i: usize = 0;
    while i < v.len()
        invariant
            i <= v.len(),
            r@ == lower(v@).take(i as int),
        decreases v.len() - i,
    {
        r.push(to_lower(v[i]));
        i += 1;
    }
    r
}

/// Whether `a` and `b` hold the same characters.
pub(crate) fn same_chars(a: &Vec<char>, b: &Vec<char>) -> (r: bool)
    ensures
        r == (a@ == b@),
{
    if a.len() != b.len() {
        return false;
    }
    let mut i: usize = 0;
    while i < a.len()
        invariant
            i <= a.len(),
            a.len() == b.len(),
            a@.take(i as int) == b@.take(i as int),
        decreases a.len() - i,
    {
        if a[i] != b[i] {
            return false;
        }
        assert(a@.take(i + 1) =~= a@.take(i as int).push(a@[i as int]));
        assert(b@.take(i + 1) =~= b@.take(i as int).push(b@[i as int]));
        i += 1;
    }
    assert(a@ =~= a@.take(a@.len() as int));
    assert(b@ =~= b@.take(b@.len() as int));
    true
}

/// The index of the first `c` in `v` at or after `start`, or the length of
/// `v` where there is none.
pub(crate) fn find_from(v: &Vec<char>, c: char, start: usize) -> (j: usize)
    requires
        start <= v.len(),
    ensures
        j == first_from(v@, c, start as int),
        start <= j <= v.len(),
{
    let mut j: usize = start;
    while j < v.len() && v[j] != c
        invariant
            start <= j <= v.len(),
            first_from(v@, c, j as int) == first_from(v@, c, start as int),
        decreases v.len() - j,
    {
        j += 1;
    }
    j
}

/// A copy of `v` from index `a` up to, not including, index `b`.
pub(crate) fn copy_range(v: &Vec<char>, a: usize, b: usize) -> (r: Vec<char>)
    requires
        a <= b <= v.len(),
    ensures
        r@ == v@.subrange(a as int, b as int),
{
    let mut r: Vec<char> = Vec::new();
    let mut i: usize = a;
    while i < b
        invariant
            a <= i <= b <= v.len(),
            r@ == v@.subrange(a as int, i as int),
        decreases b - i,
    {
        r.push(v[i]);
        i += 1;
    }
    r
}

/// The rows of `v` with one more row are the rows of `v` and then that row.
pub(crate) proof fn lemma_rows_push(v: Seq<Vec<char>>, row: Vec<char>)
    ensures
        rows(v.push(row)) == rows(v).push(row@),
{
    assert(rows(v.push(row)) =~= rows(v).push(row@));
}

/// The pieces of `v`, cut at every `sep`.
pub(crate) fn split_chars(v: &Vec<char>, sep: char) -> (parts: Vec<Vec<char>>)
    ensures
        rows(parts@) == split(v@, sep),
        parts@.len() >= 1,
{
    let mut parts: Vec<Vec<char>> = Vec::new();
    let mut i: usize = 0;
    loop
        invariant_except_break
            i <= v.len(),
            rows(parts@) + split_from(v@, sep, i as int) == split(v@, sep),
        ensures
            rows(parts@) == split(v@, sep),
            parts@.len() >= 1,
        decreases v.len() - i,
    {
        let j = find_from(v, sep, i);
        let piece = copy_range(v, i, j);
        proof {
            lemma_rows_push(parts@, piece);
            if j < v.len() {
                assert(rows(parts@).push(piece@) + split_from(v@, sep, j + 1) =~= rows(parts@)
                    + split_from(v@, sep, i as int));
            } else {
                assert(rows(parts@).push(piece@) =~= rows(parts@) + split_from(
                    v@,
                    sep,
                    i as int,
                ));
            }
        }
        parts.push(piece);
        if j >= v.len() {
            break ;
        }
        i = j + 1;
    }
    parts
}

/// The lines of `v`, each with the line feed that ends it.
pub(crate) fn lines_of(v: &Vec<char>) -> (parts: Vec<Vec<char>>)
    ensures
        rows(parts@) == lines(v@),
{
    let mut parts: Vec<Vec<char>> = Vec::new();
    let mut i: usize = 0;
    while i < v.len()
        invariant
            i <= v.len(),
            rows(parts@) + lines_from(v@, i as int) == lines(v@),
        decreases v.len() - i,
    {
        let j = find_from(v, '\n', i);
        let end: usize = if j < v.len() {
            j + 1
        } else {
            j
        };
        let piece = copy_range(v, i, end);
        proof {
            lemma_rows_push(parts@, piece);
            assert(rows(parts@).push(piece@) + lines_from(v@, end as int) =~= rows(parts@)
                + lines_from(v@, i as int));
        }
        parts.push(piece);
        i = end;
    }
    parts
}

/// The parts in order, with `sep` between each two neighbours.
pub(crate) fn join_chars(parts: &Vec<Vec<char>>, sep: char) -> (out: Vec<char>)
    ensures
        out@ == join(rows(parts@), sep),
{
    let mut out: Vec<char> = Vec::new();
    let mut k: usize = 0;
    while k < parts.len()
        invariant
            k <= parts.len(),
            out@ == join(rows(parts@).take(k as int), sep),
        decreases parts.len() - k,
    {
        proof {
            let upto = rows(parts@).take(k + 1);
            assert(upto.drop_last() =~= rows(parts@).take(k as int));
            assert(upto.last() == parts@[k as int]@);
        }
        if k > 0 {
            out.push(sep);
        }
        out.extend_from_slice(parts[k].as_slice());
        k += 1;
    }
    assert(rows(parts@).take(parts@.len() as int) =~= rows(parts@));
    out
}

/// The bounds of `v` without the white space at its two ends: `v` trimmed
/// is what stands from the first bound up to the second.
pub(crate) fn trim_bounds(v: &Vec<char>) -> (bounds: (usize, usize))
    ensures
        bounds.0 <= bounds.1 <= v.len(),
        trimmed(v@) == v@.subrange(bounds.0 as int, bounds.1 as int),
{
    let mut a: usize = 0;
    while a < v.len() && is_space_char(v[a])
        invariant
            a <= v.len(),
            after_space(v@, a as int) == after_space(v@, 0),
        decreases v.len() - a,
    {
        a += 1;
    }
    let mut b: usize = v.len();
    while b > a && is_space_char(v[b - 1])
        invariant
            a <= b <= v.len(),
            before_space(v@, b as int) == before_space(v@, v.len() as int),
        decreases b,
    {
        b -= 1;
    }
    proof {
        if b == a {
            lemma_before_space(v@, b as int);
            assert(v@.subrange(a as int, b as int) =~= Seq::<char>::empty());
        }
    }
    (a, b)
}

/// The white space at the end of a stretch starts inside the stretch.
proof fn lemma_before_space(s: Seq<char>, j: int)
    requires
        0 <= j <= s.len(),
    ensures
        0 <= before_space(s, j) <= j,
    decreases j,
{
    if j > 0 && is_space(s[j - 1]) {
        lemma_before_space(s, j - 1);
    }
}

/// The texts behind a first one are that one and then the others.
pub(crate) proof fn lemma_concat_first(first: Seq<char>, others: Seq<Seq<char>>)
    ensures
        concat(seq![first] + others) == first + concat(others),
    decreases others.len(),
{
    let all = seq![first] + others;
    if others.len() == 0 {
        assert(all.drop_last() =~= Seq::<Seq<char>>::empty());
        assert(all.last() == first);
        assert(concat(all) == concat(all.drop_last()) + all.last());
        assert(concat(all) =~= first + concat(others));
    } else {
        lemma_concat_first(first, others.drop_last());
        assert(all.drop_last() =~= seq![first] + others.drop_last());
        assert(concat(all) =~= first + concat(others));
    }
}

/// The parts behind a first one, joined, are that one, the separator, and
/// the others joined.
proof fn lemma_join_first(first: Seq<char>, others: Seq<Seq<char>>, sep: char)
    requires
        others.len() >= 1,
    ensures
        join(seq![first] + others, sep) == first + seq![sep] + join(others, sep),
    decreases others.len(),
{
    let all = seq![first] + others;
    assert(all.drop_last() =~= seq![first] + others.drop_last());
    if others.len() == 1 {
        assert(all.drop_last() =~= seq![first]);
        assert(all.last() == others[0]);
        assert(join(all.drop_last(), sep) == first);
        assert(join(all, sep) == join(all.drop_last(), sep) + seq![sep] + all.last());
        assert(join(all, sep) =~= first + seq![sep] + join(others, sep));
    } else {
        lemma_join_first(first, others.drop_last(), sep);
        assert(join(all, sep) =~= first + seq![sep] + join(others, sep));
    }
}

/// Cutting into lines leaves nothing out: the lines from an index on, one
/// after another, are the text from that index on.
pub proof fn lemma_lines_from_whole(s: Seq<char>, i: int)
    requires
        0 <= i <= s.len(),
    ensures
        concat(lines_from(s, i)) == s.subrange(i, s.len() as int),
    decreases s.len() - i,
{
    let j = first_from(s, '\n', i);
    lemma_first_from(s, '\n', i);
    if i >= s.len() {
        assert(s.subrange(i, s.len() as int) =~= Seq::<char>::empty());
    } else if j >= s.len() {
        lemma_concat_first(s.subrange(i, s.len() as int), Seq::empty());
        assert(seq![s.subrange(i, s.len() as int)] + Seq::<Seq<char>>::empty() =~= lines_from(
            s,
            i,
        ));
    } else {
        lemma_lines_from_whole(s, j + 1);
        lemma_concat_first(s.subrange(i, j + 1), lines_from(s, j + 1));
        assert(s.subrange(i, j + 1) + s.subrange(j + 1, s.len() as int) =~= s.subrange(
            i,
            s.len() as int,
        ));
    }
}

/// Line endings are kept: the lines of a text, one after another, are the
/// text.
pub proof fn lemma_lines_whole(s: Seq<char>)
    ensures
        concat(lines(s)) == s,
{
    lemma_lines_from_whole(s, 0);
    assert(s.subrange(0, s.len() as int) =~= s);
}

/// Cutting leaves nothing out: the pieces from an index on, joined by the
/// separator, are the text from that index on.
pub proof fn lemma_split_from_whole(s: Seq<char>, sep: char, i: int)
    requires
        0 <= i <= s.len(),
    ensures
        join(split_from(s, sep, i), sep) == s.subrange(i, s.len() as int),
        split_from(s, sep, i).len() >= 1,
    decreases s.len() - i,
{
    let j = first_from(s, sep, i);
    lemma_first_from(s, sep, i);
    if j < s.len() {
        lemma_split_from_whole(s, sep, j + 1);
        lemma_join_first(s.subrange(i, j), split_from(s, sep, j + 1), sep);
        assert(s.subrange(i, j) + seq![sep] + s.subrange(j + 1, s.len() as int) =~= s.subrange(
            i,
            s.len() as int,
        ));
    }
}

/// The pieces of a text, joined by the separator at which it was cut, are
/// the text.
pub proof fn lemma_split_whole(s: Seq<char>, sep: char)
    ensures
        join(split(s, sep), sep) == s,
{
    lemma_split_from_whole(s, sep, 0);
    assert(s.subrange(0, s.len() as int) =~= s);
}

} // verus!
