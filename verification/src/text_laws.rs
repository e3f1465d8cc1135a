//! Laws of texts: what trimming, fields and lines are, over all texts.
use vstd::prelude::*;

use crate::text;

verus! {

/// Whether a text is white space only.
pub open spec fn is_blank(s: Seq<char>) -> bool {
    forall|i: int| 0 <= i < s.len() ==> text::is_white_space(#[trigger] s[i])
}

/// Whether `core` is what stands between white space at the two ends of `s`: both of
/// its own ends are something else.
pub open spec fn is_core(s: Seq<char>, front: Seq<char>, core: Seq<char>, back: Seq<char>) -> bool {
    &&& s == front + core + back
    &&& is_blank(front)
    &&& is_blank(back)
    &&& core.len() > 0 ==> !text::is_white_space(core[0]) && !text::is_white_space(
        core[core.len() - 1],
    )
}

/// White space at either end goes, and nothing else does.
pub proof fn trimming_gives_the_core(front: Seq<char>, core: Seq<char>, back: Seq<char>)
    requires
        is_core(front + core + back, front, core, back),
    ensures
        text::trim(front + core + back) == core,
{
    let s = front + core + back;
    if core.len() == 0 {
        assert forall|i: int| 0 <= i < s.len() implies text::is_white_space(#[trigger] s[i]) by {
            if i < front.len() {
                assert(s[i] == front[i]);
            } else {
                assert(s[i] == back[i - front.len()]);
            }
        }
        text::lemma_trim_start_is(s, s.len() as int);
        assert(s.skip(s.len() as int) =~= core);
    } else {
        let n = front.len() as int;
        assert forall|i: int| 0 <= i < n implies text::is_white_space(s[i]) by {
            assert(s[i] == front[i]);
        }
        assert(s[n] == core[0]);
        text::lemma_trim_start_is(s, n);
        let rest = s.skip(n);
        assert(rest =~= core + back);
        assert forall|i: int| core.len() <= i < rest.len() implies text::is_white_space(
            rest[i],
        ) by {
            assert(rest[i] == back[i - core.len()]);
        }
        assert(rest[core.len() - 1] == core[core.len() - 1]);
        text::lemma_trim_end_is(rest, core.len() as int);
        assert(rest.take(core.len() as int) =~= core);
    }
}

/// Every text is what trimming leaves of it, between white space.
pub proof fn every_text_has_a_core(s: Seq<char>) -> (ends: (Seq<char>, Seq<char>))
    ensures
        is_core(s, ends.0, text::trim(s), ends.1),
{
    let m = lemma_white_front(s);
    let rest = s.skip(m);
    let n = lemma_white_back(rest);
    text::lemma_trim_start_is(s, m);
    text::lemma_trim_end_is(rest, n);
    text::lemma_trim_is_trimmed(s);
    let front = s.take(m);
    let back = rest.skip(n);
    assert(s =~= front + text::trim(s) + back);
    assert forall|i: int| 0 <= i < back.len() implies text::is_white_space(#[trigger] back[i]) by {
        assert(back[i] == rest[n + i]);
    }
    (front, back)
}

/// How much white space a text starts with.
proof fn lemma_white_front(s: Seq<char>) -> (m: int)
    ensures
        0 <= m <= s.len(),
        forall|i: int| 0 <= i < m ==> text::is_white_space(s[i]),
        m < s.len() ==> !text::is_white_space(s[m]),
    decreases s.len(),
{
    if s.len() > 0 && text::is_white_space(s[0]) {
        let rest = s.drop_first();
        let m = lemma_white_front(rest);
        assert forall|i: int| 0 <= i < m + 1 implies text::is_white_space(s[i]) by {
            if i > 0 {
                assert(s[i] == rest[i - 1]);
            }
        }
        m + 1
    } else {
        0
    }
}

/// Where the white space that a text ends with starts.
proof fn lemma_white_back(s: Seq<char>) -> (n: int)
    ensures
        0 <= n <= s.len(),
        forall|i: int| n <= i < s.len() ==> text::is_white_space(s[i]),
        n > 0 ==> !text::is_white_space(s[n - 1]),
    decreases s.len(),
{
    if s.len() > 0 && text::is_white_space(s.last()) {
        let rest = s.drop_last();
        let n = lemma_white_back(rest);
        assert forall|i: int| n <= i < s.len() implies text::is_white_space(s[i]) by {
            if i < rest.len() {
                assert(s[i] == rest[i]);
            }
        }
        n
    } else {
        s.len() as int
    }
}

/// What comes before the first of a character is all of a text that lacks it, and
/// does not depend on what comes behind it.
pub proof fn before_stops_at_the_first(s: Seq<char>, c: char, rest: Seq<char>)
    requires
        !s.contains(c),
    ensures
        text::before(s, c) == s,
        text::before(s + seq![c] + rest, c) == s,
{
    let whole = s + seq![c] + rest;
    assert forall|i: int| 0 <= i < s.len() implies s[i] != c && whole[i] != c by {
        assert(s.contains(s[i]));
        assert(whole[i] == s[i]);
    }
    text::lemma_position_is(s, c, s.len() as int);
    text::lemma_position_is(whole, c, s.len() as int);
    assert(s.take(s.len() as int) =~= s);
    assert(whole.take(s.len() as int) =~= s);
}

/// A carriage return at the end of a line goes, one of them, and nothing else does.
pub proof fn one_carriage_return_goes(line: Seq<char>, c: char)
    ensures
        text::strip_carriage_return(line.push('\r')) == line,
        c != '\r' ==> text::strip_carriage_return(line.push(c)) == line.push(c),
        text::strip_carriage_return(seq![]) == Seq::<char>::empty(),
{
    assert(line.push('\r').drop_last() =~= line);
}

/// The lines of a text, from the front: up to a line feed, or a carriage return and a
/// line feed, or the end. No text, no line.
pub proof fn lines_from_the_front(line: Seq<char>, rest: Seq<char>)
    requires
        !line.contains('\n'),
    ensures
        text::lines(seq![]) == Seq::<Seq<char>>::empty(),
        line.len() > 0 ==> text::lines(line) == seq![line],
        line.len() == 0 || line[line.len() - 1] != '\r' ==> text::lines(line + seq!['\n'] + rest)
            == seq![line] + text::lines(rest),
        text::lines(line + seq!['\r', '\n'] + rest) == seq![line] + text::lines(rest),
{
    let plain = line + seq!['\n'] + rest;
    let with_return = line + seq!['\r', '\n'] + rest;
    let n = line.len() as int;
    assert forall|i: int| 0 <= i < n implies line[i] != '\n' by {
        assert(line.contains(line[i]));
    }
    assert forall|i: int| 0 <= i < n implies plain[i] != '\n' by {
        assert(plain[i] == line[i]);
    }
    assert forall|i: int| 0 <= i < n + 1 implies with_return[i] != '\n' by {
        if i < n {
            assert(with_return[i] == line[i]);
        }
    }
    text::lemma_position_is(line, '\n', n);
    text::lemma_position_is(plain, '\n', n);
    text::lemma_position_is(with_return, '\n', n + 1);
    assert(plain.take(n) =~= line);
    assert(plain.skip(n + 1) =~= rest);
    assert(with_return.take(n + 1) =~= line.push('\r'));
    assert(with_return.skip(n + 2) =~= rest);
    assert(line.push('\r').drop_last() =~= line);
}

/// Lines that are written out, from the front.
pub proof fn unlines_from_the_front(line: Seq<char>, ls: Seq<Seq<char>>)
    ensures
        text::unlines(seq![]) == Seq::<char>::empty(),
        text::unlines(seq![line] + ls) == line + seq!['\n'] + text::unlines(ls),
{
    assert((seq![line] + ls).drop_first() =~= ls);
    assert(line.push('\n') + text::unlines(ls) =~= line + seq!['\n'] + text::unlines(ls));
}

/// A text is terminated if it is empty, or a line feed is its last character.
pub proof fn termination_is_a_last_line_feed(s: Seq<char>, c: char)
    ensures
        text::is_terminated(seq![]),
        text::is_terminated(s.push(c)) <==> c == '\n',
{
}

/// The texts of strings are one for one and in order, and those of optional strings
/// are there where the strings are.
pub proof fn texts_are_one_for_one(strings: Seq<String>, i: int, s: &str)
    ensures
        text::texts(strings).len() == strings.len(),
        0 <= i < strings.len() ==> text::texts(strings)[i] == strings[i]@,
        text::text_of(Some(s)) == Some(s@),
        text::text_of(None) == None::<Seq<char>>,
{
}

} // verus!
