//! Text primitives: substring search, line splitting and whitespace tokens,
//! each stated over sequences of characters.

use vstd::prelude::*;
use vstd::std_specs::iter::IteratorSpec;

verus! {

/// Whether `c` is white space as Unicode defines it: one of the twenty-five
/// characters that it marks as `White_Space`. They are the tab, the line
/// feed, the vertical tab, the form feed and the carriage return; the space;
/// the next-line control; the no-break space; the Ogham space mark; the spaces
/// from the en quad to the hair space; the line and the paragraph separator;
/// the narrow no-break space; the medium mathematical space; and the
/// ideographic space.
pub open spec fn whitespace(c: char) -> bool {
    let n: u32 = c as u32;
    ||| 0x0009 <= n <= 0x000D
    ||| n == 0x0020
    ||| n == 0x0085
    ||| n == 0x00A0
    ||| n == 0x1680
    ||| 0x2000 <= n <= 0x200A
    ||| n == 0x2028
    ||| n == 0x2029
    ||| n == 0x202F
    ||| n == 0x205F
    ||| n == 0x3000
}

/// `char::is_whitespace` says whether Unicode marks a character as
/// `White_Space`. The contract claims that these are the characters that
/// `whitespace` lists, and no others.
pub assume_specification[ char::is_whitespace ](c: char) -> (b: bool)
    ensures
        b == whitespace(c),
;

/// `String::push` appends one character at the end of the string and leaves
/// the characters before it as they were.
pub assume_specification[ String::push ](s: &mut String, ch: char)
    ensures
        final(s)@ == old(s)@.push(ch),
;

/// Whether `needle` occurs in `hay` starting at position `at`.
pub open spec fn occurs_at(hay: Seq<char>, needle: Seq<char>, at: int) -> bool {
    &&& 0 <= at
    &&& at + needle.len() <= hay.len()
    &&& hay.subrange(at, at + needle.len()) == needle
}

/// Whether `needle` occurs somewhere in `hay` as a contiguous run.
pub open spec fn contains(hay: Seq<char>, needle: Seq<char>) -> bool {
    exists|at: int| occurs_at(hay, needle, at)
}

/// The number of characters before the first line feed of `text`, or the length
/// of `text` if it holds none.
pub open spec fn line_len(text: Seq<char>) -> nat
    decreases text.len(),
{
    if text.len() == 0 || text[0] == '\n' {
        0
    } else {
        1 + line_len(text.drop_first())
    }
}

/// The number of characters before the first white-space character of `text`,
/// or the length of `text` if it holds none.
pub open spec fn token_len(text: Seq<char>) -> nat
    decreases text.len(),
{
    if text.len() == 0 || whitespace(text[0]) {
        0
    } else {
        1 + token_len(text.drop_first())
    }
}

/// A line without the carriage return that stood before its line feed.
pub open spec fn without_carriage_return(line: Seq<char>) -> Seq<char> {
    if line.len() > 0 && line.last() == '\r' {
        line.drop_last()
    } else {
        line
    }
}

/// The lines of `text`. A line ends at a line feed, or at a carriage return
/// directly followed by a line feed; neither belongs to the line. What follows
/// the last line feed is a line of its own unless it is empty, and keeps a
/// carriage return that it ends with.
pub open spec fn lines_of(text: Seq<char>) -> Seq<Seq<char>>
    decreases text.len(),
{
    if text.len() == 0 {
        Seq::empty()
    } else {
        let n = line_len(text) as int;
        if n >= text.len() {
            seq![text]
        } else {
            seq![without_carriage_return(text.take(n))] + lines_of(text.skip(n + 1))
        }
    }
}

pub proof fn lemma_line_len(text: Seq<char>)
    ensures
        0 <= line_len(text) <= text.len(),
        forall|k: int| 0 <= k < line_len(text) ==> text[k] != '\n',
        line_len(text) < text.len() ==> text[line_len(text) as int] == '\n',
    decreases text.len(),
{
    if text.len() == 0 || text[0] == '\n' {
    } else {
        let rest = text.drop_first();
        lemma_line_len(rest);
        assert forall|k: int| 0 <= k < line_len(text) implies text[k] != '\n' by {
            if k > 0 {
                assert(text[k] == rest[k - 1]);
            }
        }
        if line_len(text) < text.len() {
            assert(text[line_len(text) as int] == rest[line_len(rest) as int]);
        }
    }
}

/// `line_len` is the one position that holds a line feed, or is the end, with
/// no line feed before it.
pub proof fn lemma_line_len_is(text: Seq<char>, n: int)
    requires
        0 <= n <= text.len(),
        forall|k: int| 0 <= k < n ==> text[k] != '\n',
        n < text.len() ==> text[n] == '\n',
    ensures
        line_len(text) == n,
{
    lemma_line_len(text);
    let m = line_len(text) as int;
    if m < n {
        assert(text[m] == '\n');
    } else if n < m {
        assert(text[n] != '\n');
    }
}

pub proof fn lemma_token_len(text: Seq<char>)
    ensures
        0 <= token_len(text) <= text.len(),
        forall|k: int| 0 <= k < token_len(text) ==> !whitespace(text[k]),
        token_len(text) < text.len() ==> whitespace(text[token_len(text) as int]),
    decreases text.len(),
{
    if text.len() == 0 || whitespace(text[0]) {
    } else {
        let rest = text.drop_first();
        lemma_token_len(rest);
        assert forall|k: int| 0 <= k < token_len(text) implies !whitespace(text[k]) by {
            if k > 0 {
                assert(text[k] == rest[k - 1]);
            }
        }
        if token_len(text) < text.len() {
            assert(text[token_len(text) as int] == rest[token_len(rest) as int]);
        }
    }
}

/// `token_len` is the one position that holds white space, or is the end, with
/// no white space before it.
pub proof fn lemma_token_len_is(text: Seq<char>, n: int)
    requires
        0 <= n <= text.len(),
        forall|k: int| 0 <= k < n ==> !whitespace(text[k]),
        n < text.len() ==> whitespace(text[n]),
    ensures
        token_len(text) == n,
{
    lemma_token_len(text);
    let m = token_len(text) as int;
    if m < n {
        assert(whitespace(text[m]));
    } else if n < m {
        assert(!whitespace(text[n]));
    }
}

/// Collects the characters of a string slice.
pub fn chars_of(s: &str) -> (out: Vec<char>)
    ensures
        out@ == s@,
{
    let mut out: Vec<char> = Vec::new();
    for c in it: s.chars()
        invariant
            out@ == it.seq().take(it.index() as int),
            it.seq() == s@,
    {
        out.push(c);
    }
    out
}

/// The string made of the characters of `chars` from `from` up to `to`.
pub fn text_between(chars: &Vec<char>, from: usize, to: usize) -> (out: String)
    requires
        from <= to <= chars.len(),
    ensures
        out@ == chars@.subrange(from as int, to as int),
{
    let mut out = String::new();
    let mut i: usize = from;
    while i < to
        invariant
            from <= i <= to <= chars.len(),
            out@ == chars@.subrange(from as int, i as int),
        decreases to - i,
    {
        out.push(chars[i]);
        i = i + 1;
        assert(out@ =~= chars@.subrange(from as int, i as int));
    }
    out
}

/// Whether `needle` stands in `hay` at position `at`.
fn matches_at(hay: &Vec<char>, needle: &Vec<char>, at: usize) -> (found: bool)
    requires
        at + needle.len() <= hay.len(),
    ensures
        found == occurs_at(hay@, needle@, at as int),
{
    let mut j: usize = 0;
    while j < needle.len()
        invariant
            j <= needle.len(),
            at + needle.len() <= hay.len(),
            forall|t: int| 0 <= t < j ==> hay@[at + t] == needle@[t],
        decreases needle.len() - j,
    {
        if hay[at + j] != needle[j] {
            assert(hay@.subrange(at as int, at + needle.len())[j as int] != needle@[j as int]);
            return false;
        }
        j = j + 1;
    }
    assert(hay@.subrange(at as int, at + needle.len()) =~= needle@);
    true
}

/// Whether `needle` occurs in `hay` as a contiguous run of characters.
pub fn chars_contain(hay: &Vec<char>, needle: &Vec<char>) -> (found: bool)
    ensures
        found == contains(hay@, needle@),
{
    if needle.len() > hay.len() {
        assert(!contains(hay@, needle@));
        return false;
    }
    let last: usize = hay.len() - needle.len();
    let mut at: usize = 0;
    while at < last
        invariant
            last == hay.len() - needle.len(),
            at <= last,
            forall|k: int| 0 <= k < at ==> !occurs_at(hay@, needle@, k),
        decreases last - at,
    {
        if matches_at(hay, needle, at) {
            return true;
        }
        at = at + 1;
    }
    matches_at(hay, needle, last)
}

/// Whether `needle` occurs in `hay` as a contiguous run of characters.
pub fn str_contains(hay: &str, needle: &str) -> (found: bool)
    ensures
        found == contains(hay@, needle@),
{
    let h = chars_of(hay);
    let n = chars_of(needle);
    chars_contain(&h, &n)
}

/// The position of the first line feed at or after `from`, or the length of
/// `chars` if none follows.
fn line_end(chars: &Vec<char>, from: usize) -> (end: usize)
    requires
        from <= chars.len(),
    ensures
        from <= end <= chars.len(),
        end - from == line_len(chars@.skip(from as int)),
{
    let mut end: usize = from;
    while end < chars.len() && chars[end] != '\n'
        invariant
            from <= end <= chars.len(),
            forall|k: int| from <= k < end ==> chars@[k] != '\n',
        decreases chars.len() - end,
    {
        end = end + 1;
    }
    proof {
        lemma_line_len_is(chars@.skip(from as int), end - from);
    }
    end
}

/// The lines of `text`, in order.
pub fn lines(text: &str) -> (out: Vec<String>)
    ensures
        out.deep_view() == lines_of(text@),
{
    let chars = chars_of(text);
    let mut out: Vec<String> = Vec::new();
    let mut at: usize = 0;
    proof {
        assert(chars@.skip(0) =~= chars@);
        assert(out.deep_view() + lines_of(chars@) =~= lines_of(chars@));
    }
    while at < chars.len()
        invariant
            at <= chars.len(),
            chars@ == text@,
            out.deep_view() + lines_of(chars@.skip(at as int)) == lines_of(chars@),
        decreases chars.len() - at,
    {
        let ghost rest = chars@.skip(at as int);
        let ghost before = out.deep_view();
        let end = line_end(&chars, at);
        if end == chars.len() {
            let line = text_between(&chars, at, end);
            out.push(line);
            proof {
                assert(line@ =~= rest);
                assert(out.deep_view() =~= before.push(rest));
                assert(lines_of(rest) =~= seq![rest]);
                assert(lines_of(chars@.skip(end as int)) =~= Seq::<Seq<char>>::empty());
                assert(before.push(rest) + Seq::<Seq<char>>::empty() =~= before + seq![rest]);
            }
            at = end;
        } else {
            let stop: usize = if end > at && chars[end - 1] == '\r' {
                end - 1
            } else {
                end
            };
            let line = text_between(&chars, at, stop);
            out.push(line);
            proof {
                let n = end - at;
                assert(rest.take(n) =~= chars@.subrange(at as int, end as int));
                assert(line@ =~= without_carriage_return(rest.take(n)));
                assert(out.deep_view() =~= before.push(line@));
                assert(rest.skip(n + 1) =~= chars@.skip(end + 1));
                assert(lines_of(rest) =~= seq![line@] + lines_of(chars@.skip(end + 1)));
                assert(before.push(line@) + lines_of(chars@.skip(end + 1)) =~= before + (seq![
                    line@,
                ] + lines_of(chars@.skip(end + 1))));
            }
            at = end + 1;
        }
    }
    proof {
        assert(chars@.skip(at as int) =~= Seq::<char>::empty());
        assert(out.deep_view() + Seq::<Seq<char>>::empty() =~= out.deep_view());
    }
    out
}

} // verus!
