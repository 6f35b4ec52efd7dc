//! Character-level helpers shared by the configuration readers and the token
//! filters: strings as sequences of characters, line and word splitting.

use std::borrow::Cow;

use vstd::prelude::*;
use vstd::std_specs::iter::IteratorSpec;

verus! {

broadcast use {vstd::string::axiom_spec_iter, vstd::string::next_postcondition};

/// The character sequences of a list of strings.
pub open spec fn views(v: Seq<String>) -> Seq<Seq<char>> {
    v.map_values(|s: String| s@)
}

/// Relies on `String::push`: appends one character.
#[verifier::external_body]
fn string_push(s: &mut String, c: char)
    ensures
        final(s)@ == old(s)@.push(c),
{
    s.push(c)
}

/// The characters of a string, in order.
pub fn chars_of(s: &str) -> (r: Vec<char>)
    ensures
        r@ == s@,
{
    let mut it = s.chars();
    let mut out: Vec<char> = Vec::new();
    loop
        invariant
            out@ + it.remaining() == s@,
            it.decrease() is Some,
        ensures
            out@ == s@,
        decreases it.decrease()->0,
    {
        let ghost before = it;
        match it.next() {
            Some(c) => {
                assert(before.remaining().len() > 0);
                out.push(c);
                assert(out@ + it.remaining() =~= s@);
            },
            None => {
                assert(before.remaining().len() == 0);
                assert(out@ =~= s@);
                break;
            },
        }
    }
    out
}

/// A new string holding `chars[from..to]`.
pub fn string_of(chars: &[char], from: usize, to: usize) -> (r: String)
    requires
        from <= to <= chars@.len(),
    ensures
        r@ == chars@.subrange(from as int, to as int),
{
    let mut out = String::new();
    let mut i: usize = from;
    while i < to
        invariant
            from <= i <= to,
            to <= chars@.len(),
            out@ == chars@.subrange(from as int, i as int),
        decreases to - i,
    {
        string_push(&mut out, chars[i]);
        assert(out@ =~= chars@.subrange(from as int, i as int + 1));
        i = i + 1;
    }
    out
}

/// The pieces of `s` between newline characters: one more piece than there are
/// newlines.
pub open spec fn split_at_newlines(s: Seq<char>) -> Seq<Seq<char>>
    decreases s.len(),
{
    if s.len() == 0 {
        seq![Seq::empty()]
    } else {
        let p = split_at_newlines(s.drop_last());
        if s.last() == '\n' {
            p.push(Seq::empty())
        } else {
            p.update(p.len() - 1, p.last().push(s.last()))
        }
    }
}

/// A line without the carriage return that ended it.
pub open spec fn strip_cr(line: Seq<char>) -> Seq<char> {
    if line.len() > 0 && line.last() == '\r' {
        line.drop_last()
    } else {
        line
    }
}

/// The lines of a text: split at `\n`, a `\r` before the `\n` removed, and no
/// empty line after a final newline.
pub open spec fn lines_of(s: Seq<char>) -> Seq<Seq<char>> {
    let p = split_at_newlines(s);
    let ended = p.drop_last().map_values(|l: Seq<char>| strip_cr(l));
    if p.last().len() == 0 {
        ended
    } else {
        ended.push(p.last())
    }
}

/// Unicode `White_Space`: the characters that separate words.
pub open spec fn is_white(c: char) -> bool {
    let u = c as u32;
    u == 0x20 || (0x09 <= u <= 0x0d) || u == 0x85 || u == 0xa0 || u == 0x1680 || (0x2000 <= u
        <= 0x200a) || u == 0x2028 || u == 0x2029 || u == 0x202f || u == 0x205f || u == 0x3000
}

/// The pieces of `s` between whitespace characters, empty ones included.
pub open spec fn split_at_whitespace(s: Seq<char>) -> Seq<Seq<char>>
    decreases s.len(),
{
    if s.len() == 0 {
        seq![Seq::empty()]
    } else {
        let p = split_at_whitespace(s.drop_last());
        if is_white(s.last()) {
            p.push(Seq::empty())
        } else {
            p.update(p.len() - 1, p.last().push(s.last()))
        }
    }
}

/// The words of `s`: its maximal runs of non-whitespace characters.
pub open spec fn words_of(s: Seq<char>) -> Seq<Seq<char>> {
    split_at_whitespace(s).filter(|w: Seq<char>| w.len() > 0)
}

/// Whether `c` is whitespace.
pub fn is_whitespace(c: char) -> (r: bool)
    ensures
        r == is_white(c),
{
    let u = c as u32;
    u == 0x20 || (0x09 <= u && u <= 0x0d) || u == 0x85 || u == 0xa0 || u == 0x1680 || (0x2000
        <= u && u <= 0x200a) || u == 0x2028 || u == 0x2029 || u == 0x202f || u == 0x205f || u
        == 0x3000
}

/// Splits a text into lines.
pub fn lines(text: &str) -> (r: Vec<String>)
    ensures
        views(r@) == lines_of(text@),
{
    let chars = chars_of(text);
    let n = chars.len();
    let mut out: Vec<String> = Vec::new();
    let ghost mut done: Seq<Seq<char>> = Seq::empty();
    let mut start: usize = 0;
    let mut i: usize = 0;
    assert(chars@.subrange(0, 0) =~= Seq::<char>::empty());
    assert(done.push(chars@.subrange(0, 0)) =~= seq![Seq::<char>::empty()]);
    while i < n
        invariant
            start <= i <= n,
            n == chars@.len(),
            chars@ == text@,
            split_at_newlines(chars@.subrange(0, i as int)) == done.push(
                chars@.subrange(start as int, i as int),
            ),
            views(out@) == done.map_values(|l: Seq<char>| strip_cr(l)),
        decreases n - i,
    {
        assert(chars@.subrange(0, i as int + 1).drop_last() =~= chars@.subrange(0, i as int));
        if chars[i] == '\n' {
            let mut end = i;
            if end > start && chars[end - 1] == '\r' {
                end = end - 1;
            }
            let line = string_of(chars.as_slice(), start, end);
            let ghost old_views = views(out@);
            let ghost old_done = done;
            proof {
                let piece = chars@.subrange(start as int, i as int);
                assert(line@ == strip_cr(piece)) by {
                    if piece.len() > 0 && piece.last() == '\r' {
                        assert(piece.drop_last() =~= chars@.subrange(start as int, end as int));
                    } else {
                        assert(piece =~= chars@.subrange(start as int, end as int));
                    }
                }
                done = done.push(piece);
            }
            out.push(line);
            start = i + 1;
            assert(views(out@) =~= old_views.push(line@));
            assert(done.map_values(|l: Seq<char>| strip_cr(l)) =~= old_done.map_values(
                |l: Seq<char>| strip_cr(l),
            ).push(strip_cr(done.last())));
            assert(views(out@) =~= done.map_values(|l: Seq<char>| strip_cr(l)));
            assert(chars@.subrange(start as int, i as int + 1) =~= Seq::<char>::empty());
        } else {
            assert(chars@.subrange(start as int, i as int + 1) =~= chars@.subrange(
                start as int,
                i as int,
            ).push(chars@[i as int]));
        }
        i = i + 1;
    }
    assert(chars@.subrange(0, n as int) =~= chars@);
    let ghost p = split_at_newlines(chars@);
    assert(p.drop_last() =~= done);
    if start < n {
        let last = string_of(chars.as_slice(), start, n);
        let ghost old_views = views(out@);
        out.push(last);
        assert(views(out@) =~= old_views.push(last@));
        assert(views(out@) =~= lines_of(text@));
    } else {
        assert(views(out@) =~= lines_of(text@));
    }
    out
}

/// Splits a text into its whitespace-separated words.
pub fn split_whitespace(text: &str) -> (r: Vec<String>)
    ensures
        views(r@) == words_of(text@),
{
    let chars = chars_of(text);
    let n = chars.len();
    let mut out: Vec<String> = Vec::new();
    let ghost mut done: Seq<Seq<char>> = Seq::empty();
    let ghost nonempty = |w: Seq<char>| w.len() > 0;
    let mut start: usize = 0;
    let mut i: usize = 0;
    assert(chars@.subrange(0, 0) =~= Seq::<char>::empty());
    assert(done.push(chars@.subrange(0, 0)) =~= seq![Seq::<char>::empty()]);
    while i < n
        invariant
            start <= i <= n,
            n == chars@.len(),
            chars@ == text@,
            nonempty == (|w: Seq<char>| w.len() > 0),
            split_at_whitespace(chars@.subrange(0, i as int)) == done.push(
                chars@.subrange(start as int, i as int),
            ),
            views(out@) == done.filter(nonempty),
        decreases n - i,
    {
        assert(chars@.subrange(0, i as int + 1).drop_last() =~= chars@.subrange(0, i as int));
        if is_whitespace(chars[i]) {
            let ghost piece = chars@.subrange(start as int, i as int);
            proof {
                done.lemma_filter_push(piece, nonempty);
                done = done.push(piece);
            }
            if start < i {
                let word = string_of(chars.as_slice(), start, i);
                let ghost old_views = views(out@);
                out.push(word);
                assert(views(out@) =~= old_views.push(word@));
                assert(views(out@) =~= done.filter(nonempty));
            } else {
                assert(views(out@) =~= done.filter(nonempty));
            }
            start = i + 1;
            assert(chars@.subrange(start as int, i as int + 1) =~= Seq::<char>::empty());
        } else {
            assert(chars@.subrange(start as int, i as int + 1) =~= chars@.subrange(
                start as int,
                i as int,
            ).push(chars@[i as int]));
        }
        i = i + 1;
    }
    assert(chars@.subrange(0, n as int) =~= chars@);
    let ghost piece = chars@.subrange(start as int, n as int);
    proof {
        done.lemma_filter_push(piece, nonempty);
    }
    if start < n {
        let word = string_of(chars.as_slice(), start, n);
        let ghost old_views = views(out@);
        out.push(word);
        assert(views(out@) =~= old_views.push(word@));
    }
    assert(views(out@) =~= words_of(text@));
    out
}

/// The text itself, borrowed, when a rewrite left it unchanged; the rewritten
/// copy otherwise.
pub fn keep_or_replace<'a>(text: &'a str, rewritten: String) -> (r: Cow<'a, str>)
    ensures
        r@ == rewritten@,
        r is Borrowed <==> rewritten@ == text@,
{
    let original = text.to_owned();
    if rewritten == original {
        Cow::Borrowed(text)
    } else {
        Cow::Owned(rewritten)
    }
}

/// The characters of a possibly borrowed text.
pub fn cow_str<'b>(text: &'b Cow<'_, str>) -> (r: &'b str)
    ensures
        r@ == text@,
{
    match text {
        Cow::Borrowed(b) => b,
        Cow::Owned(o) => o.as_str(),
    }
}

} // verus!
