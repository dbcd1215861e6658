//! Trimmed text, words and lines.

use vstd::prelude::*;
use crate::text::{char_is, chars_of, lemma_position, lemma_position_is, position, text_of};

verus! {

/// Whether a character is white space: one of those that have the Unicode
/// property `White_Space`.
pub open spec fn white_space(c: char) -> bool {
    let n = c as u32;
    ||| 0x9 <= n <= 0xd
    ||| n == 0x20
    ||| n == 0x85
    ||| n == 0xa0
    ||| n == 0x1680
    ||| 0x2000 <= n <= 0x200a
    ||| n == 0x2028
    ||| n == 0x2029
    ||| n == 0x202f
    ||| n == 0x205f
    ||| n == 0x3000
}

/// `char::is_whitespace` tells whether a character has the Unicode property
/// `White_Space`, which the code points of [`white_space`] have and no others.
#[verifier::external_body]
fn is_whitespace(c: char) -> (yes: bool)
    ensures
        yes == white_space(c),
{
    c.is_whitespace()
}

/// A text without the white space at its start.
pub open spec fn trim_start(s: Seq<char>) -> Seq<char>
    decreases s.len(),
{
    if s.len() > 0 && white_space(s[0]) {
        trim_start(s.skip(1))
    } else {
        s
    }
}

/// A text without the white space at its end.
pub open spec fn trim_end(s: Seq<char>) -> Seq<char>
    decreases s.len(),
{
    if s.len() > 0 && white_space(s.last()) {
        trim_end(s.drop_last())
    } else {
        s
    }
}

/// A text without the white space at its ends.
pub open spec fn trimmed(s: Seq<char>) -> Seq<char> {
    trim_end(trim_start(s))
}

fn start_of_text(chars: &Vec<char>, from: usize) -> (start: usize)
    requires
        from <= chars@.len(),
    ensures
        from <= start <= chars@.len(),
        trim_start(chars@.skip(from as int)) == chars@.skip(start as int),
        start < chars@.len() ==> !white_space(chars@[start as int]),
{
    let mut start: usize = from;
    loop
        invariant
            from <= start <= chars@.len(),
            trim_start(chars@.skip(from as int)) == trim_start(chars@.skip(start as int)),
        ensures
            from <= start <= chars@.len(),
            trim_start(chars@.skip(from as int)) == chars@.skip(start as int),
            start < chars@.len() ==> !white_space(chars@[start as int]),
        decreases chars@.len() - start,
    {
        if start >= chars.len() || !is_whitespace(chars[start]) {
            break;
        }
        proof {
            assert(chars@.skip(start as int).skip(1) =~= chars@.skip(start + 1));
        }
        start = start + 1;
    }
    start
}

fn end_of_text(chars: &Vec<char>, from: usize) -> (end: usize)
    requires
        from <= chars@.len(),
    ensures
        from <= end <= chars@.len(),
        trim_end(chars@.skip(from as int)) == chars@.subrange(from as int, end as int),
{
    let mut end: usize = chars.len();
    proof {
        assert(chars@.skip(from as int) =~= chars@.subrange(from as int, end as int));
    }
    loop
        invariant
            from <= end <= chars@.len(),
            trim_end(chars@.skip(from as int)) == trim_end(
                chars@.subrange(from as int, end as int),
            ),
        ensures
            from <= end <= chars@.len(),
            trim_end(chars@.skip(from as int)) == chars@.subrange(from as int, end as int),
        decreases end - from,
    {
        if end <= from || !is_whitespace(chars[end - 1]) {
            break;
        }
        proof {
            assert(chars@.subrange(from as int, end as int).drop_last() =~= chars@.subrange(
                from as int,
                end - 1,
            ));
        }
        end = end - 1;
    }
    end
}

/// A text without the white space at its ends.
pub fn trim_text(s: &str) -> (out: String)
    ensures
        out@ == trimmed(s@),
{
    let chars: Vec<char> = chars_of(s);
    proof {
        assert(chars@.skip(0) =~= chars@);
    }
    let start: usize = start_of_text(&chars, 0);
    let end: usize = end_of_text(&chars, start);
    text_of(&chars, start, end)
}

/// Whether a character is white space.
pub open spec fn is_space() -> spec_fn(char) -> bool {
    |c: char| white_space(c)
}

/// The words of a text: its pieces between white space.
pub open spec fn words_of(s: Seq<char>) -> Seq<Seq<char>>
    decreases s.len(),
    via words_of_terminates
{
    let rest = trim_start(s);
    if rest.len() == 0 {
        Seq::empty()
    } else {
        let at = position(rest, is_space()) as int;
        seq![rest.take(at)] + words_of(rest.skip(at))
    }
}

proof fn lemma_trim_start_len(s: Seq<char>)
    ensures
        trim_start(s).len() <= s.len(),
        trim_start(s).len() > 0 ==> !white_space(trim_start(s)[0]),
    decreases s.len(),
{
    if s.len() > 0 && white_space(s[0]) {
        lemma_trim_start_len(s.skip(1));
    }
}

#[via_fn]
proof fn words_of_terminates(s: Seq<char>) {
    lemma_trim_start_len(s);
    let rest = trim_start(s);
    lemma_position(rest, is_space());
    if rest.len() > 0 {
        assert(!is_space()(rest[0]));
        assert(position(rest, is_space()) >= 1);
    }
}

fn end_of_word(chars: &Vec<char>, from: usize) -> (end: usize)
    requires
        from < chars@.len(),
        !white_space(chars@[from as int]),
    ensures
        from < end <= chars@.len(),
        position(chars@.skip(from as int), is_space()) == end - from,
{
    let n: usize = chars.len();
    let mut end: usize = from + 1;
    loop
        invariant
            n == chars@.len(),
            from < end <= chars@.len(),
            forall|j: int| from <= j < end ==> !white_space(#[trigger] chars@[j]),
        ensures
            from < end <= chars@.len(),
            forall|j: int| from <= j < end ==> !white_space(#[trigger] chars@[j]),
            end < chars@.len() ==> white_space(chars@[end as int]),
        decreases chars@.len() - end,
    {
        if end >= n || is_whitespace(chars[end]) {
            break;
        }
        end = end + 1;
    }
    proof {
        let rest = chars@.skip(from as int);
        assert forall|j: int| 0 <= j < end - from implies !is_space()(#[trigger] rest[j]) by {
            assert(!white_space(chars@[j + from]));
        }
        lemma_position_is(rest, is_space(), end - from);
    }
    end
}

/// The words of a text: its pieces between white space.
pub fn words(s: &str) -> (out: Vec<String>)
    ensures
        out.deep_view() == words_of(s@),
{
    let chars: Vec<char> = chars_of(s);
    let mut out: Vec<String> = Vec::new();
    let mut at: usize = 0;
    proof {
        assert(s@.skip(0) =~= s@);
        assert(out.deep_view() =~= Seq::<Seq<char>>::empty());
        assert(out.deep_view() + words_of(s@) =~= words_of(s@));
    }
    loop
        invariant
            at <= chars@.len(),
            chars@ == s@,
            words_of(s@) == out.deep_view() + words_of(s@.skip(at as int)),
        ensures
            out.deep_view() == words_of(s@),
        decreases chars@.len() - at,
    {
        let start: usize = start_of_text(&chars, at);
        if start >= chars.len() {
            proof {
                assert(words_of(s@.skip(at as int)) =~= Seq::<Seq<char>>::empty());
                assert(out.deep_view() + words_of(s@.skip(at as int)) =~= out.deep_view());
            }
            break;
        }
        let end: usize = end_of_word(&chars, start);
        let word = text_of(&chars, start, end);
        let ghost before = out.deep_view();
        out.push(word);
        proof {
            let rest = s@.skip(start as int);
            assert(rest.take(end - start) =~= word@);
            assert(rest.skip(end - start) =~= s@.skip(end as int));
            let tail = words_of(s@.skip(end as int));
            assert(words_of(s@.skip(at as int)) == seq![word@] + tail);
            assert(out.deep_view() =~= before.push(word@));
            assert(before + (seq![word@] + tail) =~= out.deep_view() + tail);
        }
        at = end;
    }
    out
}

/// A text cut at its first white space: what stands before it and what stands
/// after it, where there is any.
pub open spec fn cut_at_space(s: Seq<char>) -> (Seq<char>, Option<Seq<char>>) {
    let at = position(s, is_space()) as int;
    if at < s.len() {
        (s.take(at), Some(s.skip(at + 1)))
    } else {
        (s, None)
    }
}

/// A text cut at its first white space.
pub fn cut_space(s: &str) -> (out: (String, Option<String>))
    ensures
        (out.0@, out.1.deep_view()) == cut_at_space(s@),
{
    let chars: Vec<char> = chars_of(s);
    let mut at: usize = 0;
    while at < chars.len()
        invariant
            at <= chars@.len(),
            chars@ == s@,
            forall|j: int| 0 <= j < at ==> !white_space(#[trigger] s@[j]),
        decreases chars@.len() - at,
    {
        if is_whitespace(chars[at]) {
            proof {
                assert forall|j: int| 0 <= j < at implies !is_space()(#[trigger] s@[j]) by {}
                lemma_position_is(s@, is_space(), at as int);
                assert(s@.subrange(0, at as int) =~= s@.take(at as int));
                assert(s@.subrange(at + 1, s@.len() as int) =~= s@.skip(at + 1));
            }
            return (text_of(&chars, 0, at), Some(text_of(&chars, at + 1, chars.len())));
        }
        at = at + 1;
    }
    proof {
        assert forall|j: int| 0 <= j < at implies !is_space()(#[trigger] s@[j]) by {}
        lemma_position_is(s@, is_space(), at as int);
    }
    (s.to_owned(), None)
}

/// A line without the carriage return at its end.
pub open spec fn without_return(line: Seq<char>) -> Seq<char> {
    if line.len() > 0 && line.last() == '\r' {
        line.drop_last()
    } else {
        line
    }
}

/// The lines of a text. A line ends with a line feed, or with a carriage return
/// and a line feed; the last one may end with the text.
pub open spec fn lines_of(s: Seq<char>) -> Seq<Seq<char>>
    decreases s.len(),
    via lines_of_terminates
{
    let at = position(s, char_is('\n'));
    if s.len() == 0 {
        Seq::empty()
    } else if at >= s.len() {
        seq![s]
    } else {
        seq![without_return(s.take(at as int))] + lines_of(s.skip(at as int + 1))
    }
}

#[via_fn]
proof fn lines_of_terminates(s: Seq<char>) {
}

/// The lines of a text.
pub fn lines(s: &str) -> (out: Vec<String>)
    ensures
        out.deep_view() == lines_of(s@),
{
    let chars: Vec<char> = chars_of(s);
    let mut out: Vec<String> = Vec::new();
    let mut start: usize = 0;
    let mut i: usize = 0;
    proof {
        assert(s@.skip(0) =~= s@);
        assert(out.deep_view() + lines_of(s@) =~= lines_of(s@));
    }
    while i < chars.len()
        invariant
            start <= i <= chars@.len(),
            chars@ == s@,
            lines_of(s@) == out.deep_view() + lines_of(s@.skip(start as int)),
            forall|j: int| start <= j < i ==> #[trigger] s@[j] != '\n',
        decreases chars@.len() - i,
    {
        if chars[i] == '\n' {
            let ghost rest = s@.skip(start as int);
            let ghost before = out.deep_view();
            let end: usize = if start < i && chars[i - 1] == '\r' {
                i - 1
            } else {
                i
            };
            let line = text_of(&chars, start, end);
            proof {
                assert forall|j: int| 0 <= j < i - start implies !char_is('\n')(
                    #[trigger] rest[j],
                ) by {
                    assert(s@[j + start] != '\n');
                }
                lemma_position_is(rest, char_is('\n'), i - start);
                assert(without_return(rest.take(i - start)) =~= line@);
                assert(rest.skip(i - start + 1) =~= s@.skip(i + 1));
            }
            out.push(line);
            proof {
                assert(out.deep_view() =~= before.push(line@));
                let tail = lines_of(s@.skip(i + 1));
                assert(before + (seq![line@] + tail) =~= out.deep_view() + tail);
            }
            start = i + 1;
        }
        i = i + 1;
    }
    let ghost rest = s@.skip(start as int);
    let ghost before = out.deep_view();
    if start < chars.len() {
        let line = text_of(&chars, start, chars.len());
        proof {
            assert forall|j: int| 0 <= j < rest.len() implies !char_is('\n')(
                #[trigger] rest[j],
            ) by {
                assert(s@[j + start] != '\n');
            }
            lemma_position_is(rest, char_is('\n'), rest.len() as int);
            assert(rest =~= line@);
        }
        out.push(line);
        proof {
            assert(out.deep_view() =~= before + seq![line@]);
        }
    } else {
        proof {
            assert(rest =~= Seq::<char>::empty());
            assert(lines_of(rest) =~= Seq::<Seq<char>>::empty());
            assert(before + lines_of(rest) =~= before);
        }
    }
    out
}

proof fn lemma_trim_start_keeps(s: Seq<char>)
    requires
        s.len() > 0 ==> !white_space(s[0]),
    ensures
        trim_start(s) == s,
{
}

proof fn lemma_trim_end_ends(s: Seq<char>)
    ensures
        trim_end(s).len() <= s.len(),
        trim_end(s) == s.take(trim_end(s).len() as int),
        trim_end(s).len() > 0 ==> !white_space(trim_end(s).last()),
        forall|i: int| trim_end(s).len() <= i < s.len() ==> white_space(#[trigger] s[i]),
    decreases s.len(),
{
    if s.len() > 0 && white_space(s.last()) {
        let before = s.drop_last();
        lemma_trim_end_ends(before);
        assert(before.take(trim_end(before).len() as int) =~= s.take(
            trim_end(before).len() as int,
        ));
        assert forall|i: int| trim_end(s).len() <= i < s.len() implies white_space(
            #[trigger] s[i],
        ) by {
            if i < before.len() {
                assert(before[i] == s[i]);
            }
        }
    } else {
        assert(s.take(s.len() as int) =~= s);
    }
}

proof fn lemma_trim_start_starts(s: Seq<char>)
    ensures
        trim_start(s).len() <= s.len(),
        trim_start(s) == s.skip(s.len() - trim_start(s).len()),
        trim_start(s).len() > 0 ==> !white_space(trim_start(s)[0]),
        forall|i: int|
            0 <= i < s.len() - trim_start(s).len() ==> white_space(#[trigger] s[i]),
    decreases s.len(),
{
    if s.len() > 0 && white_space(s[0]) {
        let rest = s.skip(1);
        lemma_trim_start_starts(rest);
        assert(rest.skip(rest.len() - trim_start(rest).len()) =~= s.skip(
            s.len() - trim_start(s).len(),
        ));
        assert forall|i: int| 0 <= i < s.len() - trim_start(s).len() implies white_space(
            #[trigger] s[i],
        ) by {
            if i > 0 {
                assert(rest[i - 1] == s[i]);
            }
        }
    } else {
        assert(s.skip(0) =~= s);
    }
}

/// A trimmed text is what stands between the white space at the ends: it neither
/// starts nor ends with any, and only white space was taken off.
pub proof fn law_trimmed_loses_white_space_alone(s: Seq<char>)
    ensures
        trimmed(s).len() > 0 ==> !white_space(trimmed(s)[0]) && !white_space(trimmed(s).last()),
        exists|from: int, to: int|
            {
                &&& 0 <= from <= to <= s.len()
                &&& trimmed(s) == #[trigger] s.subrange(from, to)
                &&& forall|i: int| 0 <= i < from || to <= i < s.len() ==> white_space(#[trigger] s[i])
            },
        s.len() > 0 && !white_space(s[0]) && !white_space(s.last()) ==> trimmed(s) == s,
{
    let a = trim_start(s);
    let b = trim_end(a);
    lemma_trim_start_starts(s);
    lemma_trim_end_ends(a);
    let from = s.len() - a.len();
    let to = from + b.len();
    assert(b =~= s.subrange(from, to));
    assert forall|i: int| 0 <= i < from || to <= i < s.len() implies white_space(
        #[trigger] s[i],
    ) by {
        if i >= to {
            assert(a[i - from] == s[i]);
        }
    }
    if b.len() > 0 {
        assert(b[0] == a[0]);
    }
}

/// Two words with white space between them are the words of a line.
pub proof fn law_two_words_are_told_apart(a: Seq<char>, space: char, b: Seq<char>)
    requires
        a.len() > 0,
        b.len() > 0,
        white_space(space),
        forall|i: int| 0 <= i < a.len() ==> !white_space(#[trigger] a[i]),
        forall|i: int| 0 <= i < b.len() ==> !white_space(#[trigger] b[i]),
    ensures
        words_of(a + seq![space] + b) == seq![a, b],
{
    let s = a + seq![space] + b;
    assert(s[0] == a[0]);
    assert forall|j: int| 0 <= j < a.len() implies !is_space()(#[trigger] s[j]) by {
        assert(s[j] == a[j]);
    }
    assert(s[a.len() as int] == space);
    lemma_position_is(s, is_space(), a.len() as int);
    assert(s.take(a.len() as int) =~= a);
    let rest = s.skip(a.len() as int);
    assert(rest[0] == space);
    assert(rest.skip(1) =~= b);
    assert(!white_space(b[0]));
    assert(trim_start(rest) == trim_start(b));
    assert(trim_start(b) == b);
    assert forall|j: int| 0 <= j < b.len() implies !is_space()(#[trigger] b[j]) by {}
    lemma_position_is(b, is_space(), b.len() as int);
    assert(b.take(b.len() as int) =~= b);
    let none = b.skip(b.len() as int);
    assert(none.len() == 0);
    assert(words_of(none) =~= Seq::<Seq<char>>::empty());
    assert(words_of(rest) =~= seq![b]);
    assert(words_of(s) =~= seq![a, b]);
}

/// A text that ends its first line is that line and the lines of the rest.
pub proof fn law_lines_end_at_line_feeds(first: Seq<char>, rest: Seq<char>)
    requires
        !first.contains('\n'),
        first.len() > 0 ==> first.last() != '\r',
    ensures
        lines_of(first + seq!['\n'] + rest) == seq![first] + lines_of(rest),
        lines_of(first + seq!['\r', '\n'] + rest) == seq![first] + lines_of(rest),
        first.len() > 0 ==> lines_of(first) == seq![first],
        lines_of(Seq::empty()) == Seq::<Seq<char>>::empty(),
{
    let is_end = char_is('\n');
    let n = first.len() as int;
    let s = first + seq!['\n'] + rest;
    assert forall|j: int| 0 <= j < n implies !is_end(#[trigger] s[j]) by {
        assert(s[j] == first[j]);
    }
    assert(s[n] == '\n');
    lemma_position_is(s, is_end, n);
    assert(s.take(n) =~= first);
    assert(s.skip(n + 1) =~= rest);
    let t = first + seq!['\r', '\n'] + rest;
    assert forall|j: int| 0 <= j < n + 1 implies !is_end(#[trigger] t[j]) by {
        if j < n {
            assert(t[j] == first[j]);
        } else {
            assert(t[j] == '\r');
        }
    }
    assert(t[n + 1] == '\n');
    lemma_position_is(t, is_end, n + 1);
    assert(t.take(n + 1) =~= first.push('\r'));
    assert(first.push('\r').drop_last() =~= first);
    assert(t.skip(n + 2) =~= rest);
    assert forall|j: int| 0 <= j < n implies !is_end(#[trigger] first[j]) by {}
    lemma_position_is(first, is_end, n);
}

} // verus!
