//! The layout of source text: lines, comments and whitespace-separated words.
use vstd::prelude::*;

verus! {

/// The characters that separate words: those for which Rust's
/// `char::is_whitespace` holds.
pub open spec fn is_space(c: char) -> bool {
    c == ' ' || c == '\t' || c == '\n' || c == '\x0B' || c == '\x0C' || c == '\r' || c
        == '\u{85}' || c == '\u{A0}' || c == '\u{1680}' || ('\u{2000}' <= c && c <= '\u{200A}')
        || c == '\u{2028}' || c == '\u{2029}' || c == '\u{202F}' || c == '\u{205F}' || c
        == '\u{3000}'
}

/// The lines of a text: its pieces between newline characters. A text
/// without newline is one line; a text ending in a newline ends in an empty line.
pub open spec fn lines(s: Seq<char>) -> Seq<Seq<char>>
    decreases s.len(),
{
    if s.len() == 0 {
        seq![seq![]]
    } else {
        let prev = lines(s.drop_last());
        if s.last() == '\n' {
            prev.push(seq![])
        } else {
            prev.update(prev.len() - 1, prev.last().push(s.last()))
        }
    }
}

/// What stands before the first `;` of a line (all of it when it has none).
pub open spec fn before_comment(s: Seq<char>) -> Seq<char>
    decreases s.len(),
{
    if s.len() == 0 {
        s
    } else if s[0] == ';' {
        seq![]
    } else {
        seq![s[0]] + before_comment(s.drop_first())
    }
}

/// The maximal runs of non-space characters of a text, in order.
pub open spec fn tokens(s: Seq<char>) -> Seq<Seq<char>>
    decreases s.len(),
{
    if s.len() == 0 {
        seq![]
    } else {
        let prev = tokens(s.drop_last());
        let c = s.last();
        if is_space(c) {
            prev
        } else if s.len() > 1 && !is_space(s[s.len() - 2]) {
            prev.update(prev.len() - 1, prev.last().push(c))
        } else {
            prev.push(seq![c])
        }
    }
}

/// The words of a line: the tokens of what stands before its comment.
pub open spec fn words(line: Seq<char>) -> Seq<Seq<char>> {
    tokens(before_comment(line))
}

/// The views of a sequence of character vectors.
pub open spec fn seqs_view(v: Seq<Vec<char>>) -> Seq<Seq<char>> {
    v.map_values(|x: Vec<char>| x@)
}

/// Relies on String::push: the character is appended at the end.
#[verifier::external_body]
fn push_char(s: &mut String, c: char)
    ensures
        final(s)@ == old(s)@.push(c),
{
    s.push(c);
}

/// The characters of a text.
pub fn chars_of(text: &str) -> (r: Vec<char>)
    ensures
        r@ == text@,
{
    let mut out: Vec<char> = Vec::new();
    for c in it: text.chars()
        invariant
            it.seq() == text@,
            out@ == it.seq().subrange(0, it.index() as int),
    {
        out.push(c);
    }
    assert(out@ == text@);
    out
}

/// A string of the characters `v[from..]`.
pub fn string_from(v: &Vec<char>, from: usize) -> (r: String)
    requires
        from <= v.len(),
    ensures
        r@ == v@.subrange(from as int, v.len() as int),
{
    let mut s = String::new();
    let mut i: usize = from;
    while i < v.len()
        invariant
            from <= i <= v.len(),
            s@ == v@.subrange(from as int, i as int),
        decreases v.len() - i,
    {
        push_char(&mut s, v[i]);
        assert(v@.subrange(from as int, i + 1) == v@.subrange(from as int, i as int).push(
            v@[i as int],
        ));
        i += 1;
    }
    s
}

/// The characters `v[from..to]`.
pub fn copy_range(v: &Vec<char>, from: usize, to: usize) -> (r: Vec<char>)
    requires
        from <= to <= v.len(),
    ensures
        r@ == v@.subrange(from as int, to as int),
{
    let mut out: Vec<char> = Vec::new();
    let mut i: usize = from;
    while i < to
        invariant
            from <= i <= to <= v.len(),
            out@ == v@.subrange(from as int, i as int),
        decreases to - i,
    {
        out.push(v[i]);
        assert(v@.subrange(from as int, i + 1) == v@.subrange(from as int, i as int).push(
            v@[i as int],
        ));
        i += 1;
    }
    out
}

/// Splits a text into its lines.
pub fn split_lines(s: &Vec<char>) -> (r: Vec<Vec<char>>)
    ensures
        seqs_view(r@) == lines(s@),
{
    let mut done: Vec<Vec<char>> = Vec::new();
    let mut cur: Vec<char> = Vec::new();
    let mut i: usize = 0;
    assert(s@.subrange(0, 0) == Seq::<char>::empty());
    assert(seqs_view(done@).push(cur@) == seq![Seq::<char>::empty()]);
    while i < s.len()
        invariant
            i <= s.len(),
            lines(s@.subrange(0, i as int)) == seqs_view(done@).push(cur@),
        decreases s.len() - i,
    {
        let c = s[i];
        let ghost prefix = s@.subrange(0, i + 1);
        assert(prefix.drop_last() == s@.subrange(0, i as int));
        assert(prefix.last() == c);
        let ghost before_done = done@;
        let ghost before_cur = cur@;
        if c == '\n' {
            let line = cur;
            done.push(line);
            cur = Vec::new();
            assert(seqs_view(done@) == seqs_view(before_done).push(before_cur));
            assert(lines(prefix) == seqs_view(done@).push(cur@));
        } else {
            cur.push(c);
            assert(seqs_view(done@).push(cur@) == seqs_view(before_done).push(before_cur).update(
                seqs_view(before_done).len() as int,
                before_cur.push(c),
            ));
        }
        i += 1;
    }
    assert(s@.subrange(0, s@.len() as int) == s@);
    let ghost before_done = done@;
    done.push(cur);
    assert(seqs_view(done@) == seqs_view(before_done).push(cur@));
    done
}

/// The words of a line (see `words`).
pub fn split_words(line: &Vec<char>) -> (r: Vec<Vec<char>>)
    ensures
        seqs_view(r@) == words(line@),
{
    let mut done: Vec<Vec<char>> = Vec::new();
    let mut cur: Vec<char> = Vec::new();
    let mut i: usize = 0;
    let ghost s = line@;
    assert(s.subrange(0, 0) == Seq::<char>::empty());
    assert(s.subrange(0, s.len() as int) == s);
    while i < line.len() && line[i] != ';'
        invariant
            i <= line.len(),
            s == line@,
            before_comment(s) == s.subrange(0, i as int) + before_comment(
                s.subrange(i as int, s.len() as int),
            ),
            tokens(s.subrange(0, i as int)) == seqs_view(done@) + (if cur.len() > 0 {
                seq![cur@]
            } else {
                Seq::<Seq<char>>::empty()
            }),
            cur.len() > 0 <==> (i > 0 && !is_space(s[i - 1])),
        decreases line.len() - i,
    {
        let c = line[i];
        let ghost prefix = s.subrange(0, i + 1);
        assert(prefix.drop_last() == s.subrange(0, i as int));
        assert(prefix.last() == c);
        assert(s.subrange(i as int, s.len() as int).drop_first() == s.subrange(
            i + 1,
            s.len() as int,
        ));
        assert(s.subrange(0, i as int) + seq![c] == prefix);
        assert(s.subrange(i as int, s.len() as int)[0] == c);
        assert(before_comment(s.subrange(i as int, s.len() as int)) == seq![c] + before_comment(
            s.subrange(i + 1, s.len() as int),
        ));
        assert(s.subrange(0, i as int) + (seq![c] + before_comment(
            s.subrange(i + 1, s.len() as int),
        )) == prefix + before_comment(s.subrange(i + 1, s.len() as int)));
        let ghost before_done = done@;
        let ghost before_cur = cur@;
        if is_space_char(c) {
            if cur.len() > 0 {
                let word = cur;
                done.push(word);
                cur = Vec::new();
                assert(seqs_view(done@) == seqs_view(before_done).push(before_cur));
                assert(seqs_view(done@) == seqs_view(before_done) + seq![before_cur]);
            }
            assert(tokens(prefix) == tokens(s.subrange(0, i as int)));
        } else {
            if cur.len() > 0 {
                assert(prefix[prefix.len() - 2] == s[i - 1]);
                cur.push(c);
                assert(tokens(prefix) == tokens(s.subrange(0, i as int)).update(
                    tokens(s.subrange(0, i as int)).len() - 1,
                    before_cur.push(c),
                ));
                assert(seqs_view(done@) + seq![cur@] == (seqs_view(done@) + seq![before_cur]).update(
                    seqs_view(done@).len() as int,
                    before_cur.push(c),
                ));
            } else {
                cur.push(c);
                assert(cur@ == seq![c]);
                assert(tokens(s.subrange(0, i as int)) == seqs_view(done@));
                assert(tokens(prefix) == seqs_view(done@).push(seq![c]));
                assert(seqs_view(done@).push(seq![c]) == seqs_view(done@) + seq![cur@]);
            }
        }
        i += 1;
    }
    assert(before_comment(s.subrange(i as int, s.len() as int)) == Seq::<char>::empty());
    assert(before_comment(s) == s.subrange(0, i as int));
    if cur.len() > 0 {
        let ghost before_done = done@;
        let ghost before_cur = cur@;
        done.push(cur);
        assert(seqs_view(done@) == seqs_view(before_done) + seq![before_cur]);
    } else {
        assert(seqs_view(done@) + Seq::<Seq<char>>::empty() == seqs_view(done@));
    }
    done
}

/// Whether a character separates words (see `is_space`).
pub fn is_space_char(c: char) -> (r: bool)
    ensures
        r == is_space(c),
{
    c == ' ' || c == '\t' || c == '\n' || c == '\x0B' || c == '\x0C' || c == '\r' || c == '\u{85}'
        || c == '\u{A0}' || c == '\u{1680}' || ('\u{2000}' <= c && c <= '\u{200A}') || c
        == '\u{2028}' || c == '\u{2029}' || c == '\u{202F}' || c == '\u{205F}' || c == '\u{3000}'
}

} // verus!
