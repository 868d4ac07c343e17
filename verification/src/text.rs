//! Text as sequences of characters: substring search, line splitting,
//! whitespace-delimited tokens and joining.

use vstd::prelude::*;

verus! {

/// `needle` occurs in `hay` as a contiguous run of characters.
/// The empty sequence occurs in every sequence.
pub open spec fn has_substring(hay: Seq<char>, needle: Seq<char>) -> bool {
    exists|i: int| occurs_at(hay, needle, i)
}

/// `needle` occurs in `hay` starting at position `i`.
pub open spec fn occurs_at(hay: Seq<char>, needle: Seq<char>, i: int) -> bool {
    0 <= i <= hay.len() - needle.len() && hay.subrange(i, i + needle.len()) == needle
}

/// The views of the rows of a vector of character vectors.
pub open spec fn rows(v: Seq<Vec<char>>) -> Seq<Seq<char>> {
    Seq::new(v.len(), |i: int| v[i]@)
}

/// Whether `needle` occurs in `hay` at position `at`.
pub fn matches_at(hay: &Vec<char>, needle: &Vec<char>, at: usize) -> (hit: bool)
    ensures
        hit == occurs_at(hay@, needle@, at as int),
{
    if at > hay.len() || needle.len() > hay.len() - at {
        return false;
    }
    let mut k: usize = 0;
    while k < needle.len()
        invariant
            at + needle.len() <= hay.len(),
            k <= needle.len(),
            forall|j: int| 0 <= j < k ==> hay@[at + j] == needle@[j],
        decreases needle.len() - k,
    {
        if hay[at + k] != needle[k] {
            assert(hay@.subrange(at as int, at + needle.len())[k as int] != needle@[k as int]);
            return false;
        }
        k += 1;
    }
    assert(hay@.subrange(at as int, at + needle.len()) =~= needle@);
    true
}

/// Whether `a` and `b` hold the same characters.
pub fn same_chars(a: &Vec<char>, b: &Vec<char>) -> (same: bool)
    ensures
        same == (a@ == b@),
{
    if a.len() != b.len() {
        return false;
    }
    assert(a@.subrange(0, b@.len() as int) =~= a@);
    matches_at(a, b, 0)
}

/// Whether `needle` occurs anywhere in `hay`.
pub fn contains(hay: &Vec<char>, needle: &Vec<char>) -> (found: bool)
    ensures
        found == has_substring(hay@, needle@),
{
    if needle.len() > hay.len() {
        return false;
    }
    let last: usize = hay.len() - needle.len();
    let mut i: usize = 0;
    while i < last
        invariant
            i <= last,
            last == hay.len() - needle.len(),
            forall|j: int| 0 <= j < i ==> !occurs_at(hay@, needle@, j),
        decreases last - i,
    {
        if matches_at(hay, needle, i) {
            return true;
        }
        i += 1;
    }
    matches_at(hay, needle, last)
}

/// The number of characters of `s` that stand before its first line feed:
/// the whole length where it has none.
pub open spec fn line_end(s: Seq<char>) -> nat
    decreases s.len(),
{
    if s.len() == 0 || s[0] == '\n' {
        0
    } else {
        1 + line_end(s.skip(1))
    }
}

/// `line` without one carriage return at its end, if it has one there.
pub open spec fn without_cr(line: Seq<char>) -> Seq<char> {
    if line.len() > 0 && line.last() == '\r' {
        line.drop_last()
    } else {
        line
    }
}

/// The lines of a text. A line ends at a line feed, or at a carriage return
/// directly followed by a line feed; neither belongs to the line. What follows
/// the last line feed is a line of its own unless it is empty, so the final
/// line ending is optional, and the empty text has no lines.
pub open spec fn text_lines(s: Seq<char>) -> Seq<Seq<char>>
    decreases s.len(),
{
    let n = line_end(s);
    if s.len() == 0 {
        Seq::empty()
    } else if n >= s.len() {
        seq![s]
    } else {
        seq![without_cr(s.take(n as int))] + text_lines(s.skip(n as int + 1))
    }
}

/// `line_end` is the position of the first line feed.
pub proof fn lemma_line_end(s: Seq<char>, n: int)
    requires
        0 <= n <= s.len(),
        forall|k: int| 0 <= k < n ==> s[k] != '\n',
        n == s.len() || s[n] == '\n',
    ensures
        line_end(s) == n,
    decreases n,
{
    if n > 0 {
        lemma_line_end(s.skip(1), n - 1);
    }
}

/// Splits `text` into its lines.
pub fn split_lines(text: &Vec<char>) -> (lines: Vec<Vec<char>>)
    ensures
        rows(lines@) == text_lines(text@),
{
    let mut lines: Vec<Vec<char>> = Vec::new();
    let mut start: usize = 0;
    assert(text@.skip(0) =~= text@);
    while start < text.len()
        invariant
            start <= text.len(),
            rows(lines@) + text_lines(text@.skip(start as int)) == text_lines(text@),
        decreases text.len() - start,
    {
        let ghost rest = text@.skip(start as int);
        let ghost before = rows(lines@);
        let mut line: Vec<char> = Vec::new();
        let mut end: usize = start;
        while end < text.len() && text[end] != '\n'
            invariant
                start <= end <= text.len(),
                line@ == text@.subrange(start as int, end as int),
                forall|k: int| start <= k < end ==> text@[k] != '\n',
            decreases text.len() - end,
        {
            line.push(text[end]);
            end += 1;
        }
        proof {
            lemma_line_end(rest, end - start);
            assert(rest.take(end - start) =~= line@);
        }
        if end < text.len() {
            if line.len() > 0 && line[line.len() - 1] == '\r' {
                line.pop();
            }
            assert(line@ == without_cr(rest.take(end - start)));
            assert(rest.skip(end - start + 1) =~= text@.skip(end + 1));
            start = end + 1;
        } else {
            assert(rest =~= line@);
            start = end;
        }
        lines.push(line);
        assert(rows(lines@) =~= before.push(line@));
        assert(before.push(line@) =~= before + seq![line@]);
    }
    assert(rows(lines@) + Seq::<Seq<char>>::empty() =~= rows(lines@));
    lines
}

/// The characters that separate tokens: those with the Unicode property
/// `White_Space`.
pub open spec fn whitespace(c: char) -> bool {
    let u = c as u32;
    ||| 0x09 <= u <= 0x0D
    ||| u == 0x20
    ||| u == 0x85
    ||| u == 0xA0
    ||| u == 0x1680
    ||| 0x2000 <= u <= 0x200A
    ||| u == 0x2028
    ||| u == 0x2029
    ||| u == 0x202F
    ||| u == 0x205F
    ||| u == 0x3000
}

/// Whether `c` separates tokens.
pub fn is_whitespace(c: char) -> (b: bool)
    ensures
        b == whitespace(c),
{
    let u: u32 = c as u32;
    (0x09 <= u && u <= 0x0D) || u == 0x20 || u == 0x85 || u == 0xA0 || u == 0x1680 || (0x2000 <= u
        && u <= 0x200A) || u == 0x2028 || u == 0x2029 || u == 0x202F || u == 0x205F || u == 0x3000
}

/// The number of characters at the start of `s` that are not whitespace.
pub open spec fn token_len(s: Seq<char>) -> nat
    decreases s.len(),
{
    if s.len() == 0 || whitespace(s[0]) {
        0
    } else {
        1 + token_len(s.skip(1))
    }
}

/// The tokens of `s`: its maximal runs of characters that are not whitespace,
/// in order. No token is empty.
pub open spec fn tokens(s: Seq<char>) -> Seq<Seq<char>>
    decreases s.len(),
    via tokens_decreases
{
    if s.len() == 0 {
        Seq::empty()
    } else if whitespace(s[0]) {
        tokens(s.skip(1))
    } else {
        let n = token_len(s);
        seq![s.take(n as int)] + tokens(s.skip(n as int))
    }
}

#[via_fn]
proof fn tokens_decreases(s: Seq<char>) {
    lemma_token_len_bound(s);
}

/// A run of characters that are not whitespace fits in the sequence.
pub proof fn lemma_token_len_bound(s: Seq<char>)
    ensures
        token_len(s) <= s.len(),
    decreases s.len(),
{
    if s.len() > 0 && !whitespace(s[0]) {
        lemma_token_len_bound(s.skip(1));
    }
}

/// `token_len` is the position of the first whitespace character.
pub proof fn lemma_token_len(s: Seq<char>, n: int)
    requires
        0 <= n <= s.len(),
        forall|k: int| 0 <= k < n ==> !whitespace(s[k]),
        n == s.len() || whitespace(s[n]),
    ensures
        token_len(s) == n,
    decreases n,
{
    if n > 0 {
        lemma_token_len(s.skip(1), n - 1);
    }
}

/// Splits `line` into its tokens.
pub fn split_whitespace(line: &Vec<char>) -> (found: Vec<Vec<char>>)
    ensures
        rows(found@) == tokens(line@),
{
    let mut found: Vec<Vec<char>> = Vec::new();
    let mut start: usize = 0;
    assert(line@.skip(0) =~= line@);
    while start < line.len()
        invariant
            start <= line.len(),
            rows(found@) + tokens(line@.skip(start as int)) == tokens(line@),
        decreases line.len() - start,
    {
        let ghost rest = line@.skip(start as int);
        if is_whitespace(line[start]) {
            assert(rest.skip(1) =~= line@.skip(start + 1));
            start += 1;
        } else {
            let ghost before = rows(found@);
            let mut token: Vec<char> = Vec::new();
            let mut end: usize = start;
            while end < line.len() && !is_whitespace(line[end])
                invariant
                    start <= end <= line.len(),
                    token@ == line@.subrange(start as int, end as int),
                    forall|k: int| start <= k < end ==> !whitespace(line@[k]),
                decreases line.len() - end,
            {
                token.push(line[end]);
                end += 1;
            }
            proof {
                lemma_token_len(rest, end - start);
                assert(rest.take(end - start) =~= token@);
                assert(rest.skip(end - start) =~= line@.skip(end as int));
            }
            found.push(token);
            assert(rows(found@) =~= before.push(token@));
            assert(before.push(token@) =~= before + seq![token@]);
            start = end;
        }
    }
    assert(rows(found@) + Seq::<Seq<char>>::empty() =~= rows(found@));
    found
}

/// The lines joined into one text, with a line feed between each two
/// neighbours and none at the end.
pub open spec fn join_lines(lines: Seq<Seq<char>>) -> Seq<char>
    decreases lines.len(),
{
    if lines.len() == 0 {
        Seq::empty()
    } else if lines.len() == 1 {
        lines[0]
    } else {
        join_lines(lines.drop_last()) + seq!['\n'] + lines.last()
    }
}

/// Joins the lines `lines[from..to]` with line feeds.
pub fn join(lines: &Vec<Vec<char>>, from: usize, to: usize) -> (text: Vec<char>)
    requires
        from <= to <= lines.len(),
    ensures
        text@ == join_lines(rows(lines@).subrange(from as int, to as int)),
{
    let mut text: Vec<char> = Vec::new();
    let mut i: usize = from;
    while i < to
        invariant
            from <= i <= to <= lines.len(),
            text@ == join_lines(rows(lines@).subrange(from as int, i as int)),
        decreases to - i,
    {
        let ghost done = rows(lines@).subrange(from as int, i as int);
        let ghost next = rows(lines@).subrange(from as int, i + 1);
        if i > from {
            text.push('\n');
        }
        let line = &lines[i];
        let ghost joined = text@;
        let mut k: usize = 0;
        while k < line.len()
            invariant
                k <= line.len(),
                text@ == joined + line@.subrange(0, k as int),
            decreases line.len() - k,
        {
            text.push(line[k]);
            k += 1;
        }
        proof {
            assert(line@.subrange(0, line@.len() as int) =~= line@);
            assert(next.drop_last() =~= done);
            assert(next.last() == line@);
            if i > from {
                assert(joined =~= join_lines(done) + seq!['\n']);
            } else {
                assert(joined =~= Seq::<char>::empty());
                assert(joined + line@ =~= line@);
            }
        }
        i += 1;
    }
    text
}

/// No token is empty.
pub proof fn lemma_tokens_not_empty(s: Seq<char>, i: int)
    requires
        0 <= i < tokens(s).len(),
    ensures
        tokens(s)[i].len() > 0,
    decreases s.len(),
{
    if s.len() == 0 {
    } else if whitespace(s[0]) {
        lemma_tokens_not_empty(s.skip(1), i);
    } else {
        lemma_token_len_bound(s);
        if i > 0 {
            lemma_tokens_not_empty(s.skip(token_len(s) as int), i - 1);
        }
    }
}

/// The characters counted by `token_len` are not whitespace.
pub proof fn lemma_token_len_run(s: Seq<char>, k: int)
    requires
        0 <= k < token_len(s),
    ensures
        k < s.len(),
        !whitespace(s[k]),
    decreases s.len(),
{
    if k > 0 {
        lemma_token_len_run(s.skip(1), k - 1);
    }
}

/// No token holds whitespace.
pub proof fn lemma_tokens_hold_no_whitespace(s: Seq<char>, i: int, k: int)
    requires
        0 <= i < tokens(s).len(),
        0 <= k < tokens(s)[i].len(),
    ensures
        !whitespace(tokens(s)[i][k]),
    decreases s.len(),
{
    if s.len() == 0 {
    } else if whitespace(s[0]) {
        lemma_tokens_hold_no_whitespace(s.skip(1), i, k);
    } else {
        lemma_token_len_bound(s);
        if i == 0 {
            lemma_token_len_run(s, k);
        } else {
            lemma_tokens_hold_no_whitespace(s.skip(token_len(s) as int), i - 1, k);
        }
    }
}

} // verus!
