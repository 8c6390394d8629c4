//! The text of a file: decoding its bytes, and the text reflowed into
//! paragraphs.

use vstd::prelude::*;
use vstd::utf8::{decode_utf8, valid_utf8};

verus! {

/// What `String::from_utf8_lossy` makes of the bytes: valid UTF-8 decoded,
/// each invalid sequence replaced by U+FFFD.
pub uninterp spec fn utf8_lossy(bytes: Seq<u8>) -> Seq<char>;

/// Whether a character has the Unicode `White_Space` property, which
/// `char::is_whitespace` tests: tab, line feed, vertical tab, form feed,
/// carriage return, space, next line, no-break space, ogham space mark, the
/// spaces from en quad to hair space, line and paragraph separator, narrow
/// no-break space, medium mathematical space and ideographic space.
pub open spec fn is_white_space(c: char) -> bool {
    let x = c as int;
    ||| 0x09 <= x <= 0x0d
    ||| x == 0x20
    ||| x == 0x85
    ||| x == 0xa0
    ||| x == 0x1680
    ||| 0x2000 <= x <= 0x200a
    ||| x == 0x2028
    ||| x == 0x2029
    ||| x == 0x202f
    ||| x == 0x205f
    ||| x == 0x3000
}

/// Calls `String::from_utf8_lossy` and takes the text it returns. Its
/// documentation promises that valid UTF-8 comes back as the text it
/// encodes.
#[verifier::external_body]
fn decode_lossy(bytes: &[u8]) -> (s: String)
    ensures
        s@ == utf8_lossy(bytes@),
        valid_utf8(bytes@) ==> s@ == decode_utf8(bytes@),
{
    String::from_utf8_lossy(bytes).into_owned()
}

/// Whether a character is white space (as `char::is_whitespace`).
fn char_is_whitespace(c: char) -> (r: bool)
    ensures
        r == is_white_space(c),
{
    let x = c as u32;
    (0x09 <= x && x <= 0x0d) || x == 0x20 || x == 0x85 || x == 0xa0 || x == 0x1680 || (0x2000
        <= x && x <= 0x200a) || x == 0x2028 || x == 0x2029 || x == 0x202f || x == 0x205f || x
        == 0x3000
}

/// Collects characters into a `String` (std's `FromIterator<char>`), which
/// holds exactly those characters in that order.
#[verifier::external_body]
fn string_of_chars(v: &Vec<char>) -> (s: String)
    ensures
        s@ == v@,
{
    v.iter().collect()
}

/// The text of a file's contents: its bytes decoded as UTF-8, with each
/// invalid sequence replaced by the replacement character.
pub fn file_text(bytes: &Vec<u8>) -> (s: String)
    ensures
        s@ == utf8_lossy(bytes@),
        valid_utf8(bytes@) ==> s@ == decode_utf8(bytes@),
{
    decode_lossy(bytes.as_slice())
}

/// Position of the first line feed at or after `i`, or the length when there
/// is none.
pub open spec fn next_line_feed(s: Seq<char>, i: int) -> int
    decreases s.len() - i,
{
    if i < 0 || i >= s.len() {
        s.len() as int
    } else if s[i] == '\n' {
        i
    } else {
        next_line_feed(s, i + 1)
    }
}

/// The first line feed at or after `i` lies between `i` and the end, and
/// there is no line feed before it.
pub proof fn lemma_next_line_feed(s: Seq<char>, i: int)
    requires
        0 <= i <= s.len(),
    ensures
        i <= next_line_feed(s, i) <= s.len(),
        next_line_feed(s, i) < s.len() ==> s[next_line_feed(s, i)] == '\n',
        forall|k: int| i <= k < next_line_feed(s, i) ==> s[k] != '\n',
    decreases s.len() - i,
{
    if i < s.len() && s[i] != '\n' {
        lemma_next_line_feed(s, i + 1);
    }
}

/// A line without its carriage return, if it ended in `\r\n`.
pub open spec fn strip_cr(line: Seq<char>) -> Seq<char> {
    if line.len() > 0 && line.last() == '\r' {
        line.drop_last()
    } else {
        line
    }
}

/// The lines of `s` from position `i` on, as `str::lines` splits them: at
/// each line feed, dropping a carriage return before it; a final line feed
/// ends the last line and starts no new one.
pub open spec fn lines_from(s: Seq<char>, i: int) -> Seq<Seq<char>>
    decreases s.len() - i,
{
    if i < 0 || i >= s.len() {
        Seq::empty()
    } else {
        let j = next_line_feed(s, i);
        proof {
            lemma_next_line_feed(s, i);
        }
        if j < s.len() {
            seq![strip_cr(s.subrange(i, j))] + lines_from(s, j + 1)
        } else {
            seq![s.subrange(i, s.len() as int)]
        }
    }
}

/// The lines of a text.
pub open spec fn text_lines(s: Seq<char>) -> Seq<Seq<char>> {
    lines_from(s, 0)
}

/// `s` without its leading white space.
pub open spec fn trim_start(s: Seq<char>) -> Seq<char>
    decreases s.len(),
{
    if s.len() > 0 && is_white_space(s[0]) {
        trim_start(s.drop_first())
    } else {
        s
    }
}

/// `s` without its trailing white space.
pub open spec fn trim_end(s: Seq<char>) -> Seq<char>
    decreases s.len(),
{
    if s.len() > 0 && is_white_space(s.last()) {
        trim_end(s.drop_last())
    } else {
        s
    }
}

/// `s` without leading and trailing white space, as `str::trim` leaves it.
pub open spec fn trim(s: Seq<char>) -> Seq<char> {
    trim_end(trim_start(s))
}

/// What one line becomes in the reflowed text: a non-empty line trimmed and
/// followed by a space; an empty line, a paragraph break.
pub open spec fn reflow_line(line: Seq<char>) -> Seq<char> {
    if line.len() > 0 {
        trim(line).push(' ')
    } else {
        seq!['\n', '\n']
    }
}

/// The reflowed lines, one after the other.
pub open spec fn reflow_lines(lines: Seq<Seq<char>>) -> Seq<char>
    decreases lines.len(),
{
    if lines.len() == 0 {
        Seq::empty()
    } else {
        reflow_line(lines[0]) + reflow_lines(lines.drop_first())
    }
}

/// The text reflowed into paragraphs: the lines of a paragraph joined by
/// spaces, paragraphs separated by a blank line.
pub open spec fn reflow(s: Seq<char>) -> Seq<char> {
    reflow_lines(text_lines(s))
}

proof fn lemma_next_line_feed_push(s: Seq<char>, i: int)
    requires
        0 <= i <= s.len(),
    ensures
        next_line_feed(s.push('\n'), i) == next_line_feed(s, i),
    decreases s.len() - i,
{
    let t = s.push('\n');
    if i < s.len() && s[i] != '\n' {
        lemma_next_line_feed_push(s, i + 1);
    }
}

proof fn lemma_lines_from_push(s: Seq<char>, i: int)
    requires
        0 <= i < s.len(),
        s.last() != '\n',
        s.last() != '\r',
    ensures
        lines_from(s.push('\n'), i) == lines_from(s, i),
    decreases s.len() - i,
{
    let t = s.push('\n');
    let j = next_line_feed(s, i);
    lemma_next_line_feed(s, i);
    lemma_next_line_feed_push(s, i);
    if j < s.len() {
        assert(t.subrange(i, j) =~= s.subrange(i, j));
        assert(j + 1 < s.len());
        lemma_lines_from_push(s, j + 1);
    } else {
        assert(t.subrange(i, j) =~= s.subrange(i, j));
        assert(s.subrange(i, j).last() == s.last());
        assert(lines_from(t, j + 1) =~= Seq::<Seq<char>>::empty());
        assert(lines_from(t, i) =~= seq![s.subrange(i, s.len() as int)]);
    }
}

/// A final line feed makes no difference: a text that does not already end
/// in a line break reflows the same with a line feed added at its end.
pub proof fn lemma_final_line_feed_optional(s: Seq<char>)
    requires
        s.len() > 0,
        s.last() != '\n',
        s.last() != '\r',
    ensures
        reflow(s.push('\n')) == reflow(s),
{
    lemma_lines_from_push(s, 0);
}

/// The first line feed at or after `i` is at `k` when there is one at `k`
/// and none between `i` and `k`.
proof fn lemma_next_line_feed_at(s: Seq<char>, i: int, k: int)
    requires
        0 <= i <= k < s.len(),
        s[k] == '\n',
        forall|m: int| i <= m < k ==> s[m] != '\n',
    ensures
        next_line_feed(s, i) == k,
{
    lemma_next_line_feed(s, i);
}

/// Line feeds after a prefix are found where they are in the rest.
proof fn lemma_next_line_feed_shift(p: Seq<char>, t: Seq<char>, i: int)
    requires
        0 <= i <= t.len(),
    ensures
        next_line_feed(p + t, p.len() + i) == p.len() + next_line_feed(t, i),
    decreases t.len() - i,
{
    if i < t.len() && t[i] != '\n' {
        assert((p + t)[p.len() + i] == t[i]);
        lemma_next_line_feed_shift(p, t, i + 1);
    } else if i < t.len() {
        assert((p + t)[p.len() + i] == t[i]);
    }
}

/// The lines after a prefix are the lines of the rest.
proof fn lemma_lines_from_shift(p: Seq<char>, t: Seq<char>, i: int)
    requires
        0 <= i <= t.len(),
    ensures
        lines_from(p + t, p.len() + i) == lines_from(t, i),
    decreases t.len() - i,
{
    if i < t.len() {
        let j = next_line_feed(t, i);
        lemma_next_line_feed(t, i);
        lemma_next_line_feed_shift(p, t, i);
        assert((p + t).subrange(p.len() + i, p.len() + j) =~= t.subrange(i, j));
        if j < t.len() {
            lemma_lines_from_shift(p, t, j + 1);
            assert(p.len() + j + 1 == p.len() + (j + 1));
        } else {
            assert((p + t).subrange(p.len() + i, (p + t).len() as int) =~= t.subrange(
                i,
                t.len() as int,
            ));
        }
    }
}

proof fn lemma_crlf_lines(s: Seq<char>, t: Seq<char>, i: int)
    requires
        s.len() == 0 || s.last() != '\r',
        0 <= i <= s.len(),
    ensures
        lines_from(s + seq!['\r', '\n', '\r', '\n'] + t, i) == lines_from(s + seq!['\n', '\n'] + t, i),
    decreases s.len() - i,
{
    let a = s + seq!['\r', '\n', '\r', '\n'] + t;
    let b = s + seq!['\n', '\n'] + t;
    let n = s.len() as int;
    lemma_next_line_feed(s, i);
    let j = next_line_feed(s, i);
    assert forall|m: int| 0 <= m < n implies a[m] == s[m] && b[m] == s[m] by {}
    if j < n {
        lemma_next_line_feed_at(a, i, j);
        lemma_next_line_feed_at(b, i, j);
        assert(a.subrange(i, j) =~= s.subrange(i, j));
        assert(b.subrange(i, j) =~= s.subrange(i, j));
        lemma_crlf_lines(s, t, j + 1);
    } else {
        // the last line of s ends at the first line break after it
        assert(a[n] == '\r');
        assert(a[n + 1] == '\n');
        assert(b[n] == '\n');
        lemma_next_line_feed_at(a, i, n + 1);
        lemma_next_line_feed_at(b, i, n);
        let la = a.subrange(i, n + 1);
        let lb = b.subrange(i, n);
        assert(la.drop_last() =~= s.subrange(i, n));
        assert(lb =~= s.subrange(i, n));
        if lb.len() > 0 {
            assert(lb.last() == s.last());
        }
        assert(strip_cr(la) == strip_cr(lb));
        // then one empty line in each
        assert(a[n + 2] == '\r');
        assert(a[n + 3] == '\n');
        assert(b[n + 1] == '\n');
        lemma_next_line_feed_at(a, n + 2, n + 3);
        lemma_next_line_feed_at(b, n + 1, n + 1);
        assert(strip_cr(a.subrange(n + 2, n + 3)) =~= Seq::<char>::empty());
        assert(strip_cr(b.subrange(n + 1, n + 1)) =~= Seq::<char>::empty());
        // and then the lines of t
        let pa = s + seq!['\r', '\n', '\r', '\n'];
        let pb = s + seq!['\n', '\n'];
        assert(a =~= pa + t);
        assert(b =~= pb + t);
        lemma_lines_from_shift(pa, t, 0);
        lemma_lines_from_shift(pb, t, 0);
        assert(lines_from(a, n + 4) == lines_from(t, 0));
        assert(lines_from(b, n + 2) == lines_from(t, 0));
        assert(lines_from(a, n + 2) == seq![Seq::<char>::empty()] + lines_from(a, n + 4));
        assert(lines_from(b, n + 1) == seq![Seq::<char>::empty()] + lines_from(b, n + 2));
    }
}

/// Windows line breaks reflow as Unix ones: a blank line written with
/// carriage returns (`\r\n\r\n`) is a paragraph break just as `\n\n` is,
/// whatever text comes before (unless it ends in a stray carriage return)
/// and after.
pub proof fn lemma_crlf_paragraph_break(s: Seq<char>, t: Seq<char>)
    requires
        s.len() == 0 || s.last() != '\r',
    ensures
        reflow(s + seq!['\r', '\n', '\r', '\n'] + t) == reflow(s + seq!['\n', '\n'] + t),
{
    lemma_crlf_lines(s, t, 0);
}

/// The characters of a text, one by one.
fn chars_of_text(s: &String) -> (v: Vec<char>)
    ensures
        v@ == s@,
{
    let mut v: Vec<char> = Vec::new();
    for c in it: s.as_str().chars()
        invariant
            v@ == it.seq().take(it.index()),
    {
        v.push(c);
        proof {
            assert(v@ =~= it.seq().take(it.index() + 1));
        }
    }
    assert(v@ =~= s@);
    v
}

proof fn lemma_trim_start_step(s: Seq<char>, a: int, end: int)
    requires
        0 <= a < end <= s.len(),
        is_white_space(s[a]),
    ensures
        trim_start(s.subrange(a, end)) == trim_start(s.subrange(a + 1, end)),
{
    assert(s.subrange(a, end).drop_first() =~= s.subrange(a + 1, end));
}

proof fn lemma_trim_end_step(s: Seq<char>, a: int, b: int)
    requires
        0 <= a < b <= s.len(),
        is_white_space(s[b - 1]),
    ensures
        trim_end(s.subrange(a, b)) == trim_end(s.subrange(a, b - 1)),
{
    assert(s.subrange(a, b).drop_last() =~= s.subrange(a, b - 1));
}

/// Appends what the line `v[start..end]` becomes in the reflowed text.
fn push_reflowed_line(out: &mut Vec<char>, v: &Vec<char>, start: usize, end: usize)
    requires
        start <= end <= v.len(),
    ensures
        final(out)@ == old(out)@ + reflow_line(v@.subrange(start as int, end as int)),
{
    let ghost line = v@.subrange(start as int, end as int);
    if start == end {
        out.push('\n');
        out.push('\n');
        proof {
            assert(line.len() == 0);
            assert(final(out)@ =~= old(out)@ + seq!['\n', '\n']);
        }
        return;
    }
    let mut a = start;
    while a < end && char_is_whitespace(v[a])
        invariant
            start <= a <= end <= v.len(),
            line == v@.subrange(start as int, end as int),
            trim_start(line) == trim_start(v@.subrange(a as int, end as int)),
        decreases end - a,
    {
        proof {
            lemma_trim_start_step(v@, a as int, end as int);
        }
        a = a + 1;
    }
    proof {
        if a < end {
            assert(v@.subrange(a as int, end as int)[0] == v@[a as int]);
        }
    }
    assert(trim_start(line) == v@.subrange(a as int, end as int));
    let mut b = end;
    while b > a && char_is_whitespace(v[b - 1])
        invariant
            start <= a <= b <= end <= v.len(),
            trim_start(line) == v@.subrange(a as int, end as int),
            trim(line) == trim_end(v@.subrange(a as int, b as int)),
        decreases b - a,
    {
        proof {
            lemma_trim_end_step(v@, a as int, b as int);
        }
        b = b - 1;
    }
    proof {
        if b > a {
            assert(v@.subrange(a as int, b as int).last() == v@[b - 1]);
        }
    }
    assert(trim(line) == v@.subrange(a as int, b as int));
    let mut k = a;
    while k < b
        invariant
            a <= k <= b <= v.len(),
            out@ == old(out)@ + v@.subrange(a as int, k as int),
        decreases b - k,
    {
        out.push(v[k]);
        k = k + 1;
        proof {
            assert(out@ =~= old(out)@ + v@.subrange(a as int, k as int));
        }
    }
    out.push(' ');
    proof {
        assert(line.len() > 0);
        assert(out@ =~= old(out)@ + trim(line).push(' '));
    }
}

proof fn lemma_reflow_cons(lines: Seq<Seq<char>>, first: Seq<char>, rest: Seq<Seq<char>>)
    requires
        lines == seq![first] + rest,
    ensures
        reflow_lines(lines) == reflow_line(first) + reflow_lines(rest),
{
    assert(lines.drop_first() =~= rest);
}

/// The text reflowed into paragraphs: each non-empty line trimmed and
/// followed by a space, each empty line replaced by a blank line.
pub fn reflow_text(text: &String) -> (r: String)
    ensures
        r@ == reflow(text@),
{
    let v = chars_of_text(text);
    let ghost s = v@;
    let n = v.len();
    let mut out: Vec<char> = Vec::new();
    let mut start: usize = 0;
    let mut i: usize = 0;
    while i < n
        invariant
            n == v.len(),
            s == v@,
            start <= i <= n,
            next_line_feed(s, start as int) == next_line_feed(s, i as int),
            reflow_lines(lines_from(s, 0)) == out@ + reflow_lines(lines_from(s, start as int)),
        decreases n - i,
    {
        if v[i] == '\n' {
            let mut end = i;
            if end > start && v[end - 1] == '\r' {
                end = end - 1;
            }
            let ghost before = out@;
            push_reflowed_line(&mut out, &v, start, end);
            proof {
                let line = s.subrange(start as int, i as int);
                assert(strip_cr(line) =~= s.subrange(start as int, end as int));
                assert(lines_from(s, start as int) == seq![strip_cr(line)] + lines_from(
                    s,
                    i + 1,
                ));
                lemma_reflow_cons(lines_from(s, start as int), strip_cr(line), lines_from(s, i + 1));
                assert(out@ + reflow_lines(lines_from(s, i + 1)) =~= before + (reflow_line(
                    strip_cr(line),
                ) + reflow_lines(lines_from(s, i + 1))));
            }
            start = i + 1;
        }
        i = i + 1;
    }
    if start < n {
        let ghost before = out@;
        push_reflowed_line(&mut out, &v, start, n);
        proof {
            assert(next_line_feed(s, n as int) == n);
            assert(lines_from(s, start as int) == seq![s.subrange(start as int, n as int)]);
            lemma_reflow_cons(
                lines_from(s, start as int),
                s.subrange(start as int, n as int),
                Seq::empty(),
            );
            assert(lines_from(s, n as int) =~= Seq::<Seq<char>>::empty());
            assert(out@ =~= before + reflow_lines(lines_from(s, start as int)));
        }
    } else {
        proof {
            assert(lines_from(s, start as int) =~= Seq::<Seq<char>>::empty());
            assert(reflow_lines(lines_from(s, start as int)) =~= Seq::<char>::empty());
            assert(out@ + Seq::<char>::empty() =~= out@);
        }
    }
    string_of_chars(&out)
}

} // verus!
