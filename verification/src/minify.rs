//! Folding a profile into one line: comments and blank lines go, and what is
//! left of each line is joined to the others by single spaces.

use vstd::prelude::*;
use vstd::string::*;

verus! {

/// Whether `c` is white space: one of the characters to which Unicode gives the
/// property White_Space.
pub open spec fn is_blank(c: char) -> bool {
    let n = c as u32;
    ||| 0x09 <= n <= 0x0D
    ||| n == 0x20
    ||| n == 0x85
    ||| n == 0xA0
    ||| n == 0x1680
    ||| 0x2000 <= n <= 0x200A
    ||| n == 0x2028
    ||| n == 0x2029
    ||| n == 0x202F
    ||| n == 0x205F
    ||| n == 0x3000
}

/// Whether `c` occurs nowhere in `s`.
pub open spec fn free_of(s: Seq<char>, c: char) -> bool {
    forall|i: int| 0 <= i < s.len() ==> s[i] != c
}

/// Index of the first `c` in `s`; the length of `s` where `c` does not occur.
pub open spec fn position(s: Seq<char>, c: char) -> int
    decreases s.len(),
{
    if s.len() == 0 || s[0] == c {
        0
    } else {
        1 + position(s.drop_first(), c)
    }
}

/// The first line of `text`: what stands before its first line feed.
pub open spec fn first_line(text: Seq<char>) -> Seq<char> {
    text.take(position(text, '\n'))
}

/// `line` without its comment: what stands before its first semicolon.
pub open spec fn before_comment(line: Seq<char>) -> Seq<char> {
    line.take(position(line, ';'))
}

/// `s` without the white space at its two ends.
pub open spec fn trimmed(s: Seq<char>) -> Seq<char>
    decreases s.len(),
{
    if s.len() == 0 {
        s
    } else if is_blank(s.first()) {
        trimmed(s.drop_first())
    } else if is_blank(s.last()) {
        trimmed(s.drop_last())
    } else {
        s
    }
}

/// What is kept of a line: the line without its comment and without the white
/// space around the rest.
pub open spec fn kept(line: Seq<char>) -> Seq<char> {
    trimmed(before_comment(line))
}

/// What is kept of the lines of `text`, in order; a line of which nothing is
/// kept is left out.
pub open spec fn kept_lines(text: Seq<char>) -> Seq<Seq<char>>
    decreases text.len(),
{
    if text.len() == 0 {
        Seq::empty()
    } else {
        let end = position(text, '\n');
        let piece = kept(first_line(text));
        let here = if piece.len() > 0 {
            seq![piece]
        } else {
            Seq::empty()
        };
        if 0 <= end < text.len() {
            here + kept_lines(text.skip(end + 1))
        } else {
            here
        }
    }
}

/// `parts` with a single space between each two.
pub open spec fn joined(parts: Seq<Seq<char>>) -> Seq<char>
    decreases parts.len(),
{
    if parts.len() == 0 {
        Seq::empty()
    } else if parts.len() == 1 {
        parts[0]
    } else {
        joined(parts.drop_last()) + seq![' '] + parts.last()
    }
}

/// `text` on one line.
pub open spec fn minified(text: Seq<char>) -> Seq<char> {
    joined(kept_lines(text))
}

/// Whether `piece` could be what is kept of a line: not empty, no white space at
/// its ends, and neither a line feed nor a semicolon in it.
pub open spec fn is_clean(piece: Seq<char>) -> bool {
    &&& piece.len() > 0
    &&& !is_blank(piece.first())
    &&& !is_blank(piece.last())
    &&& free_of(piece, '\n')
    &&& free_of(piece, ';')
}

/// `position(s, c)` lies within `s`, no `c` stands before it, and a `c` stands
/// at it unless it is the length of `s`.
pub proof fn lemma_position(s: Seq<char>, c: char)
    ensures
        0 <= position(s, c) <= s.len(),
        free_of(s.take(position(s, c)), c),
        position(s, c) < s.len() ==> s[position(s, c)] == c,
    decreases s.len(),
{
    if s.len() > 0 && s[0] != c {
        let tail = s.drop_first();
        lemma_position(tail, c);
        let p = position(tail, c);
        let head = s.take(p + 1);
        assert forall|i: int| 0 <= i < head.len() implies head[i] != c by {
            if i > 0 {
                assert(head[i] == tail.take(p)[i - 1]);
            }
        }
    }
}

/// The index `at` is `position(s, c)` where no `c` stands before it and a `c`
/// stands at it, or `s` ends there.
pub proof fn lemma_position_is(s: Seq<char>, c: char, at: int)
    requires
        0 <= at <= s.len(),
        forall|i: int| 0 <= i < at ==> s[i] != c,
        at < s.len() ==> s[at] == c,
    ensures
        position(s, c) == at,
    decreases s.len(),
{
    if at > 0 {
        lemma_position_is(s.drop_first(), c, at - 1);
    }
}

/// The stretch of `s` from `lo` to `hi` is `trimmed(s)` where only white space
/// stands outside it and none at its two ends.
pub proof fn lemma_trimmed_is(s: Seq<char>, lo: int, hi: int)
    requires
        0 <= lo <= hi <= s.len(),
        forall|i: int| 0 <= i < lo ==> is_blank(s[i]),
        forall|i: int| hi <= i < s.len() ==> is_blank(s[i]),
        lo < hi ==> !is_blank(s[lo]) && !is_blank(s[hi - 1]),
    ensures
        trimmed(s) == s.subrange(lo, hi),
    decreases s.len(),
{
    if s.len() > 0 {
        if is_blank(s.first()) {
            if lo > 0 {
                lemma_trimmed_is(s.drop_first(), lo - 1, hi - 1);
            } else {
                lemma_trimmed_is(s.drop_first(), 0, 0);
            }
        } else if is_blank(s.last()) {
            lemma_trimmed_is(s.drop_last(), lo, hi);
        }
    }
}

/// What trimming leaves is empty or has no white space at its ends, and holds
/// no character that `s` is free of.
pub proof fn lemma_trimmed(s: Seq<char>, c: char)
    ensures
        trimmed(s).len() > 0 ==> !is_blank(trimmed(s).first()) && !is_blank(trimmed(s).last()),
        free_of(s, c) ==> free_of(trimmed(s), c),
    decreases s.len(),
{
    if s.len() > 0 {
        if is_blank(s.first()) {
            lemma_trimmed(s.drop_first(), c);
        } else if is_blank(s.last()) {
            lemma_trimmed(s.drop_last(), c);
        }
    }
}

/// What is kept of the first line of a text is empty or clean.
pub proof fn lemma_kept_first_line(text: Seq<char>)
    ensures
        kept(first_line(text)).len() > 0 ==> is_clean(kept(first_line(text))),
{
    let line = first_line(text);
    let code = before_comment(line);
    lemma_position(text, '\n');
    lemma_position(line, ';');
    assert(free_of(code, '\n'));
    lemma_trimmed(code, '\n');
    lemma_trimmed(code, ';');
}

/// Every piece that is kept of a text is clean.
pub proof fn lemma_kept_lines_clean(text: Seq<char>)
    ensures
        forall|k: int| 0 <= k < kept_lines(text).len() ==> is_clean(#[trigger] kept_lines(text)[k]),
    decreases text.len(),
{
    if text.len() > 0 {
        let end = position(text, '\n');
        let piece = kept(first_line(text));
        let all = kept_lines(text);
        lemma_kept_first_line(text);
        if 0 <= end < text.len() {
            let rest = kept_lines(text.skip(end + 1));
            lemma_kept_lines_clean(text.skip(end + 1));
            assert forall|k: int| 0 <= k < all.len() implies is_clean(#[trigger] all[k]) by {
                if piece.len() > 0 && k > 0 {
                    assert(all[k] == rest[k - 1]);
                } else if piece.len() == 0 {
                    assert(all[k] == rest[k]);
                }
            }
        }
    }
}

/// Clean pieces, joined, make a clean piece.
pub proof fn lemma_joined_clean(parts: Seq<Seq<char>>)
    requires
        parts.len() > 0,
        forall|k: int| 0 <= k < parts.len() ==> is_clean(#[trigger] parts[k]),
    ensures
        is_clean(joined(parts)),
    decreases parts.len(),
{
    if parts.len() > 1 {
        lemma_joined_clean(parts.drop_last());
    }
}

/// A clean piece is kept whole: it is its own minified text.
pub proof fn lemma_minified_clean(piece: Seq<char>)
    requires
        is_clean(piece),
    ensures
        minified(piece) == piece,
{
    lemma_position_is(piece, '\n', piece.len() as int);
    lemma_position_is(piece, ';', piece.len() as int);
    assert(before_comment(piece) =~= piece);
}

/// The minified text of any text holds no line feed.
pub proof fn lemma_minified_one_line(text: Seq<char>)
    ensures
        free_of(minified(text), '\n'),
{
    let parts = kept_lines(text);
    if parts.len() > 0 {
        lemma_kept_lines_clean(text);
        lemma_joined_clean(parts);
    }
}

/// Minifying is idempotent: a minified text is its own minified text.
pub proof fn lemma_minified_idempotent(text: Seq<char>)
    ensures
        minified(minified(text)) == minified(text),
{
    let parts = kept_lines(text);
    if parts.len() > 0 {
        lemma_kept_lines_clean(text);
        lemma_joined_clean(parts);
        lemma_minified_clean(joined(parts));
    }
}

/// Whether `c` is white space.
pub fn is_whitespace(c: char) -> (blank: bool)
    ensures
        blank == is_blank(c),
{
    let n: u32 = c as u32;
    (0x09 <= n && n <= 0x0D) || n == 0x20 || n == 0x85 || n == 0xA0 || n == 0x1680 || (0x2000 <= n
        && n <= 0x200A) || n == 0x2028 || n == 0x2029 || n == 0x202F || n == 0x205F || n == 0x3000
}

/// The characters of `text`, in order.
fn chars_of(text: &str) -> (chars: Vec<char>)
    ensures
        chars@ == text@,
{
    let mut chars: Vec<char> = Vec::new();
    for c in it: text.chars()
        invariant
            chars@ == it.seq().take(it.index()),
            it.seq() == text@,
    {
        chars.push(c);
    }
    chars
}

/// Index of the first `c` in `chars` from `from` on and before `to`; `to` where
/// there is none.
fn find_from(chars: &Vec<char>, from: usize, to: usize, c: char) -> (at: usize)
    requires
        from <= to <= chars.len(),
    ensures
        at == from + position(chars@.subrange(from as int, to as int), c),
        from <= at <= to,
{
    let mut at: usize = from;
    while at < to && chars[at] != c
        invariant
            from <= at <= to <= chars.len(),
            forall|i: int| from <= i < at ==> chars[i] != c,
        decreases to - at,
    {
        at += 1;
    }
    proof {
        lemma_position_is(chars@.subrange(from as int, to as int), c, at - from);
    }
    at
}

/// The stretch of `chars` between `from` and `to` without the white space at
/// its two ends.
fn trim_between(chars: &Vec<char>, from: usize, to: usize) -> (ends: (usize, usize))
    requires
        from <= to <= chars.len(),
    ensures
        from <= ends.0 <= ends.1 <= to,
        chars@.subrange(ends.0 as int, ends.1 as int) == trimmed(
            chars@.subrange(from as int, to as int),
        ),
{
    let mut lo: usize = from;
    while lo < to && is_whitespace(chars[lo])
        invariant
            from <= lo <= to <= chars.len(),
            forall|i: int| from <= i < lo ==> is_blank(chars[i]),
        decreases to - lo,
    {
        lo += 1;
    }
    let mut hi: usize = to;
    while hi > lo && is_whitespace(chars[hi - 1])
        invariant
            lo <= hi <= to <= chars.len(),
            forall|i: int| hi <= i < to ==> is_blank(chars[i]),
        decreases hi - lo,
    {
        hi -= 1;
    }
    proof {
        let s = chars@.subrange(from as int, to as int);
        lemma_trimmed_is(s, lo - from, hi - from);
    }
    (lo, hi)
}

/// Folds `profile` into one line. From each line the comment goes, from the
/// first semicolon on, and the white space around what is left; lines of which
/// nothing is left go; the rest is joined by single spaces. A semicolon inside a
/// quoted name counts as the start of a comment like any other.
pub fn minify_profile(profile: &str) -> (minified_profile: String)
    ensures
        minified_profile@ == minified(profile@),
        free_of(minified_profile@, '\n'),
{
    let chars = chars_of(profile);
    let n = chars.len();
    let mut out = String::new();
    let mut any = false;
    let mut start: usize = 0;
    let ghost text = profile@;
    let ghost mut done: Seq<Seq<char>> = Seq::empty();
    assert(text.skip(0) =~= text);
    while start < n
        invariant
            start <= n,
            n == chars.len(),
            chars@ == text,
            text == profile@,
            any == (done.len() > 0),
            out@ == joined(done),
            kept_lines(text) == done + kept_lines(text.skip(start as int)),
        decreases n - start,
    {
        let end = find_from(&chars, start, n, '\n');
        let stop = find_from(&chars, start, end, ';');
        let (lo, hi) = trim_between(&chars, start, stop);
        let ghost rest = text.skip(start as int);
        let ghost piece = text.subrange(lo as int, hi as int);
        proof {
            assert(first_line(rest) =~= text.subrange(start as int, end as int));
            assert(before_comment(first_line(rest)) =~= text.subrange(start as int, stop as int));
            if end < n {
                assert(rest.skip(end - start + 1) =~= text.skip(end + 1));
            }
        }
        if lo < hi {
            if any {
                out.append(" ");
            }
            out.append(profile.substring_char(lo, hi));
            proof {
                reveal_strlit(" ");
                let more = done.push(piece);
                assert(more.drop_last() =~= done);
                done = more;
            }
            any = true;
        }
        if end < n {
            start = end + 1;
        } else {
            start = end;
        }
    }
    proof {
        lemma_minified_one_line(text);
    }
    out
}

} // verus!
