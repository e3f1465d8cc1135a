//! Text as sequences of characters: splitting into lines, taking the first
//! field of a line, trimming white space.
use vstd::prelude::*;

verus! {

/// The characters with the Unicode property `White_Space`.
pub open spec fn is_white_space(c: char) -> bool {
    let code = c as int;
    ||| 0x09 <= code <= 0x0d
    ||| code == 0x20
    ||| code == 0x85
    ||| code == 0xa0
    ||| code == 0x1680
    ||| 0x2000 <= code <= 0x200a
    ||| code == 0x2028
    ||| code == 0x2029
    ||| code == 0x202f
    ||| code == 0x205f
    ||| code == 0x3000
}

/// Trusted: `char::is_whitespace` tells whether a character has the Unicode
/// property `White_Space`, whose members [`is_white_space`] lists.
pub assume_specification[ char::is_whitespace ](c: char) -> (white: bool)
    ensures
        white == is_white_space(c),
;

/// Trusted: `String::push` puts one character at the end of a string.
pub assume_specification[ String::push ](s: &mut String, c: char)
    ensures
        final(s)@ == old(s)@.push(c),
;

/// The text of an optional string.
pub open spec fn text_of(s: Option<&str>) -> Option<Seq<char>> {
    match s {
        Some(s) => Some(s@),
        None => None,
    }
}

/// The texts of a sequence of strings.
pub open spec fn texts(strings: Seq<String>) -> Seq<Seq<char>> {
    strings.map_values(|s: String| s@)
}

/// Where `c` first occurs in `s`, or the length of `s` if it does not.
pub open spec fn position(s: Seq<char>, c: char) -> nat
    decreases s.len(),
{
    if s.len() == 0 || s[0] == c {
        0
    } else {
        1 + position(s.drop_first(), c)
    }
}

/// What comes before the first `c` in `s`; all of `s` if there is none.
pub open spec fn before(s: Seq<char>, c: char) -> Seq<char> {
    s.take(position(s, c) as int)
}

/// `s` without its leading white space.
pub open spec fn trim_start(s: Seq<char>) -> Seq<char>
    decreases s.len(),
{
    if s.len() > 0 && is_white_space(s[0]) {
        trim_start(s.drop_first())
    } else {
        s
    }
}

/// `s` without its trailing white space.
pub open spec fn trim_end(s: Seq<char>) -> Seq<char>
    decreases s.len(),
{
    if s.len() > 0 && is_white_space(s.last()) {
        trim_end(s.drop_last())
    } else {
        s
    }
}

/// `s` without the white space at either end.
pub open spec fn trim(s: Seq<char>) -> Seq<char> {
    trim_end(trim_start(s))
}

/// A line without the carriage return that ends it, if one does.
pub open spec fn strip_carriage_return(line: Seq<char>) -> Seq<char> {
    if line.len() > 0 && line.last() == '\r' {
        line.drop_last()
    } else {
        line
    }
}

/// The lines of a text. A line ends with a line feed, or with a carriage return
/// and a line feed; neither is part of it. The last line may lack its line feed,
/// and then a carriage return at its end does belong to it.
pub open spec fn lines(text: Seq<char>) -> Seq<Seq<char>>
    decreases text.len(),
{
    let end = position(text, '\n') as int;
    if text.len() == 0 {
        seq![]
    } else if end >= text.len() {
        seq![text]
    } else {
        seq![strip_carriage_return(text.take(end))] + lines(text.skip(end + 1))
    }
}

/// The text in which each of `ls` is followed by a line feed.
pub open spec fn unlines(ls: Seq<Seq<char>>) -> Seq<char>
    decreases ls.len(),
{
    if ls.len() == 0 {
        seq![]
    } else {
        ls[0].push('\n') + unlines(ls.drop_first())
    }
}

/// Whether a text is empty or ends with a line feed.
pub open spec fn is_terminated(text: Seq<char>) -> bool {
    text.len() > 0 ==> text.last() == '\n'
}

/// The characters of a string.
pub(crate) fn chars_of(s: &str) -> (chars: Vec<char>)
    ensures
        chars@ == s@,
{
    let mut chars: Vec<char> = Vec::new();
    for c in it: s.chars()
        invariant
            it.seq() == s@,
            chars@ == s@.take(it.index() as int),
    {
        chars.push(c);
    }
    chars
}

/// The string of the characters from `from` up to `to`.
pub(crate) fn string_of(chars: &Vec<char>, from: usize, to: usize) -> (s: String)
    requires
        from <= to <= chars@.len(),
    ensures
        s@ == chars@.subrange(from as int, to as int),
{
    let mut s: String = String::new();
    for i in from..to
        invariant
            from <= to <= chars@.len(),
            s@ == chars@.subrange(from as int, i as int),
    {
        s.push(chars[i]);
    }
    s
}

/// [`position`] is within the string, nothing before it is `c`, and what stands
/// there is `c`.
pub proof fn lemma_position(s: Seq<char>, c: char)
    ensures
        position(s, c) <= s.len(),
        forall|i: int| 0 <= i < position(s, c) ==> s[i] != c,
        position(s, c) < s.len() ==> s[position(s, c) as int] == c,
    decreases s.len(),
{
    if s.len() > 0 && s[0] != c {
        lemma_position(s.drop_first(), c);
        assert forall|i: int| 0 <= i < position(s, c) implies s[i] != c by {
            if i > 0 {
                assert(s[i] == s.drop_first()[i - 1]);
            }
        }
    }
}

/// Only one index has the properties of [`position`].
pub proof fn lemma_position_is(s: Seq<char>, c: char, n: int)
    requires
        0 <= n <= s.len(),
        forall|i: int| 0 <= i < n ==> s[i] != c,
        n < s.len() ==> s[n] == c,
    ensures
        position(s, c) == n,
{
    lemma_position(s, c);
}

/// Whether both ends of `s` are free of white space.
pub open spec fn is_trimmed(s: Seq<char>) -> bool {
    s.len() > 0 ==> !is_white_space(s[0]) && !is_white_space(s.last())
}

/// The longest white space at the front is what [`trim_start`] takes off.
pub proof fn lemma_trim_start_is(s: Seq<char>, n: int)
    requires
        0 <= n <= s.len(),
        forall|i: int| 0 <= i < n ==> is_white_space(s[i]),
        n < s.len() ==> !is_white_space(s[n]),
    ensures
        trim_start(s) == s.skip(n),
    decreases n,
{
    if n > 0 {
        lemma_trim_start_is(s.drop_first(), n - 1);
        assert(s.drop_first().skip(n - 1) == s.skip(n));
    } else {
        assert(s.skip(0) == s);
    }
}

/// The longest white space at the back is what [`trim_end`] takes off.
pub proof fn lemma_trim_end_is(s: Seq<char>, n: int)
    requires
        0 <= n <= s.len(),
        forall|i: int| n <= i < s.len() ==> is_white_space(s[i]),
        n > 0 ==> !is_white_space(s[n - 1]),
    ensures
        trim_end(s) == s.take(n),
    decreases s.len() - n,
{
    if n < s.len() {
        lemma_trim_end_is(s.drop_last(), n);
        assert(s.drop_last().take(n) == s.take(n));
    } else {
        assert(s.take(n) == s);
    }
}

/// The text without the white space at either end.
pub fn trimmed(text: &str) -> (out: String)
    ensures
        out@ == trim(text@),
{
    let chars = chars_of(text);
    let mut from: usize = 0;
    while from < chars.len() && chars[from].is_whitespace()
        invariant
            from <= chars@.len(),
            forall|i: int| 0 <= i < from ==> is_white_space(chars@[i]),
        decreases chars@.len() - from,
    {
        from += 1;
    }
    let mut to: usize = chars.len();
    while from < to && chars[to - 1].is_whitespace()
        invariant
            from <= to <= chars@.len(),
            forall|i: int| to <= i < chars@.len() ==> is_white_space(chars@[i]),
        decreases to,
    {
        to -= 1;
    }
    proof {
        lemma_trim_start_is(chars@, from as int);
        let rest = chars@.skip(from as int);
        lemma_trim_end_is(rest, to - from);
        assert(rest.take(to - from) == chars@.subrange(from as int, to as int));
    }
    string_of(&chars, from, to)
}

/// What comes before the first `c` of the text; the whole text if there is none.
pub fn text_before(text: &str, c: char) -> (out: String)
    ensures
        out@ == before(text@, c),
{
    let chars = chars_of(text);
    let mut end: usize = 0;
    while end < chars.len() && chars[end] != c
        invariant
            end <= chars@.len(),
            forall|i: int| 0 <= i < end ==> chars@[i] != c,
        decreases chars@.len() - end,
    {
        end += 1;
    }
    proof {
        lemma_position_is(chars@, c, end as int);
    }
    string_of(&chars, 0, end)
}

/// Whether the text is empty or ends with a line feed.
pub fn ends_its_line(text: &str) -> (terminated: bool)
    ensures
        terminated == is_terminated(text@),
{
    let chars = chars_of(text);
    chars.len() == 0 || chars[chars.len() - 1] == '\n'
}

/// The lines of the text.
pub fn split_lines(text: &str) -> (out: Vec<String>)
    ensures
        texts(out@) == lines(text@),
{
    let chars = chars_of(text);
    let mut out: Vec<String> = Vec::new();
    let mut start: usize = 0;
    let mut at: usize = 0;
    assert(chars@.skip(0) == chars@);
    while at < chars.len()
        invariant
            start <= at <= chars@.len(),
            forall|i: int| start <= i < at ==> chars@[i] != '\n',
            lines(chars@) == texts(out@) + lines(chars@.skip(start as int)),
        decreases chars@.len() - at,
    {
        if chars[at] == '\n' {
            let ghost rest = chars@.skip(start as int);
            let ghost line = rest.take(at - start);
            proof {
                lemma_position_is(rest, '\n', at - start);
                assert(rest.skip(at - start + 1) == chars@.skip(at + 1));
                assert(line == chars@.subrange(start as int, at as int));
            }
            let mut end: usize = at;
            if start < at && chars[at - 1] == '\r' {
                end = at - 1;
                assert(line.drop_last() == chars@.subrange(start as int, end as int));
            }
            let ghost done = out@;
            out.push(string_of(&chars, start, end));
            assert(texts(out@) == texts(done) + seq![strip_carriage_return(line)]);
            start = at + 1;
        }
        at += 1;
    }
    let ghost rest = chars@.skip(start as int);
    if start < chars.len() {
        proof {
            lemma_position_is(rest, '\n', rest.len() as int);
            assert(rest == chars@.subrange(start as int, chars@.len() as int));
        }
        let ghost done = out@;
        out.push(string_of(&chars, start, chars.len()));
        assert(texts(out@) == texts(done) + seq![rest]);
    }
    out
}

/// Trimming leaves both ends free of white space.
pub proof fn lemma_trim_is_trimmed(s: Seq<char>)
    ensures
        is_trimmed(trim(s)),
{
    lemma_trim_start_front(s);
    lemma_trim_end_ends(trim_start(s));
}

proof fn lemma_trim_start_front(s: Seq<char>)
    ensures
        trim_start(s).len() > 0 ==> !is_white_space(trim_start(s)[0]),
    decreases s.len(),
{
    if s.len() > 0 && is_white_space(s[0]) {
        lemma_trim_start_front(s.drop_first());
    }
}

proof fn lemma_trim_end_ends(s: Seq<char>)
    ensures
        trim_end(s).len() > 0 ==> !is_white_space(trim_end(s).last()) && s.len() > 0 && trim_end(
            s,
        )[0] == s[0],
    decreases s.len(),
{
    if s.len() > 0 && is_white_space(s.last()) {
        lemma_trim_end_ends(s.drop_last());
    }
}

/// Trimming adds nothing.
pub proof fn lemma_trim_is_part(s: Seq<char>)
    ensures
        forall|i: int| 0 <= i < trim(s).len() ==> s.contains(#[trigger] trim(s)[i]),
{
    lemma_trim_start_is_part(s);
    lemma_trim_end_is_part(trim_start(s));
    assert forall|i: int| 0 <= i < trim(s).len() implies s.contains(#[trigger] trim(s)[i]) by {
        let rest = trim_start(s);
        assert(rest.contains(trim(s)[i]));
        let j = choose|j: int| 0 <= j < rest.len() && rest[j] == trim(s)[i];
        assert(s.contains(rest[j]));
    }
}

proof fn lemma_trim_start_is_part(s: Seq<char>)
    ensures
        forall|i: int| 0 <= i < trim_start(s).len() ==> s.contains(#[trigger] trim_start(s)[i]),
    decreases s.len(),
{
    if s.len() > 0 && is_white_space(s[0]) {
        let rest = s.drop_first();
        lemma_trim_start_is_part(rest);
        assert forall|i: int| 0 <= i < trim_start(s).len() implies s.contains(
            #[trigger] trim_start(s)[i],
        ) by {
            assert(rest.contains(trim_start(rest)[i]));
            let j = choose|j: int| 0 <= j < rest.len() && rest[j] == trim_start(rest)[i];
            assert(s[j + 1] == rest[j]);
        }
    }
}

proof fn lemma_trim_end_is_part(s: Seq<char>)
    ensures
        forall|i: int| 0 <= i < trim_end(s).len() ==> s.contains(#[trigger] trim_end(s)[i]),
    decreases s.len(),
{
    if s.len() > 0 && is_white_space(s.last()) {
        let rest = s.drop_last();
        lemma_trim_end_is_part(rest);
        assert forall|i: int| 0 <= i < trim_end(s).len() implies s.contains(
            #[trigger] trim_end(s)[i],
        ) by {
            assert(rest.contains(trim_end(rest)[i]));
            let j = choose|j: int| 0 <= j < rest.len() && rest[j] == trim_end(rest)[i];
            assert(s[j] == rest[j]);
        }
    }
}

/// Trimming takes nothing off a text whose ends are free of white space.
pub proof fn lemma_trim_of_trimmed(s: Seq<char>)
    requires
        is_trimmed(s),
    ensures
        trim(s) == s,
{
}

/// White space at the end does not matter to trimming.
pub proof fn lemma_trim_push_white(s: Seq<char>, c: char)
    requires
        is_white_space(c),
    ensures
        trim(s.push(c)) == trim(s),
    decreases s.len(),
{
    if s.len() == 0 {
        assert(s.push(c).drop_first() =~= s);
    } else if is_white_space(s[0]) {
        assert(s.push(c).drop_first() =~= s.drop_first().push(c));
        lemma_trim_push_white(s.drop_first(), c);
    } else {
        assert(s.push(c).drop_last() =~= s);
    }
}

/// After a text that ends with a line feed, more text starts a line of its own.
pub proof fn lemma_lines_concat(a: Seq<char>, b: Seq<char>)
    requires
        is_terminated(a),
    ensures
        lines(a + b) == lines(a) + lines(b),
    decreases a.len(),
{
    if a.len() == 0 {
        assert(a + b =~= b);
        assert(lines(a) + lines(b) =~= lines(b));
    } else {
        lemma_position(a, '\n');
        let end = position(a, '\n') as int;
        if end == a.len() {
            assert(a[a.len() - 1] != '\n');
        }
        lemma_position_is(a + b, '\n', end);
        assert((a + b).take(end) =~= a.take(end));
        assert((a + b).skip(end + 1) =~= a.skip(end + 1) + b);
        lemma_lines_concat(a.skip(end + 1), b);
        assert(lines(a) + lines(b) =~= seq![strip_carriage_return(a.take(end))] + (lines(
            a.skip(end + 1),
        ) + lines(b)));
    }
}

/// A line and its line feed.
pub proof fn lemma_lines_of_line(line: Seq<char>)
    requires
        !line.contains('\n'),
    ensures
        lines(line.push('\n')) == seq![strip_carriage_return(line)],
{
    let text = line.push('\n');
    assert forall|i: int| 0 <= i < line.len() implies text[i] != '\n' by {
        assert(line.contains(line[i]));
    }
    lemma_position_is(text, '\n', line.len() as int);
    assert(text.take(line.len() as int) =~= line);
    assert(text.skip(line.len() as int + 1).len() == 0);
    assert(lines(text.skip(line.len() as int + 1)) =~= seq![]);
    assert(lines(text) =~= seq![strip_carriage_return(line)]);
}

/// No line holds a line feed.
pub proof fn lemma_lines_hold_no_line_feed(text: Seq<char>)
    ensures
        forall|i: int| 0 <= i < lines(text).len() ==> !(#[trigger] lines(text)[i]).contains('\n'),
    decreases text.len(),
{
    if text.len() > 0 {
        lemma_position(text, '\n');
        let end = position(text, '\n') as int;
        if end < text.len() {
            let rest = text.skip(end + 1);
            lemma_lines_hold_no_line_feed(rest);
            assert forall|i: int| 0 <= i < lines(text).len() implies !(
            #[trigger] lines(text)[i]).contains('\n') by {
                if i > 0 {
                    assert(lines(text)[i] == lines(rest)[i - 1]);
                }
            }
        }
    }
}

/// Lines without their carriage returns.
pub open spec fn without_carriage_returns(ls: Seq<Seq<char>>) -> Seq<Seq<char>> {
    ls.map_values(|line: Seq<char>| strip_carriage_return(line))
}

/// Lines that are written out are read back, but for a carriage return at the end
/// of one.
pub proof fn lemma_lines_of_unlines(ls: Seq<Seq<char>>)
    requires
        forall|i: int| 0 <= i < ls.len() ==> !(#[trigger] ls[i]).contains('\n'),
    ensures
        lines(unlines(ls)) == without_carriage_returns(ls),
        is_terminated(unlines(ls)),
    decreases ls.len(),
{
    if ls.len() == 0 {
        assert(without_carriage_returns(ls) =~= seq![]);
    } else {
        let rest = ls.drop_first();
        assert forall|i: int| 0 <= i < rest.len() implies !(#[trigger] rest[i]).contains('\n') by {
            assert(rest[i] == ls[i + 1]);
        }
        lemma_lines_of_unlines(rest);
        lemma_lines_of_line(ls[0]);
        lemma_lines_concat(ls[0].push('\n'), unlines(rest));
        assert(without_carriage_returns(ls) =~= seq![strip_carriage_return(ls[0])]
            + without_carriage_returns(rest));
    }
}

} // verus!
