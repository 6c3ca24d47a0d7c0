//! Text as a sequence of characters.
//!
//! Contracts speak of a text by its view, a `Seq<char>`. The functions here
//! move between `str`, `String` and `Vec<char>` without changing that view,
//! and say what the white space of a text and its tokens are.

use vstd::prelude::*;
use vstd::std_specs::iter::IteratorSpec;

verus! {

/// `String::push` appends one character to the end of the string.
pub assume_specification[ String::push ](s: &mut String, c: char)
    ensures
        final(s)@ == old(s)@.push(c),
;

/// Whether `c` is white space: the characters with the Unicode property
/// `White_Space`.
pub open spec fn is_space(c: char) -> bool {
    ||| '\u{9}' <= c <= '\u{D}'
    ||| c == ' '
    ||| c == '\u{85}'
    ||| c == '\u{A0}'
    ||| c == '\u{1680}'
    ||| '\u{2000}' <= c <= '\u{200A}'
    ||| c == '\u{2028}'
    ||| c == '\u{2029}'
    ||| c == '\u{202F}'
    ||| c == '\u{205F}'
    ||| c == '\u{3000}'
}

/// Whether no character of `s` is white space.
pub open spec fn space_free(s: Seq<char>) -> bool {
    forall|i: int| 0 <= i < s.len() ==> !is_space(#[trigger] s[i])
}

/// The test for white space, as a predicate.
pub open spec fn space() -> spec_fn(char) -> bool {
    |c: char| is_space(c)
}

/// The index of the first item of `s` that satisfies `p`, or the length of
/// `s` where none does.
pub open spec fn first_where<A>(s: Seq<A>, p: spec_fn(A) -> bool) -> int
    decreases s.len(),
{
    if s.len() == 0 || p(s[0]) {
        0
    } else {
        1 + first_where(s.skip(1), p)
    }
}

/// `first_where` is an index of `s` or its length, nothing before it
/// satisfies `p`, and what stands at it does.
pub proof fn lemma_first_where<A>(s: Seq<A>, p: spec_fn(A) -> bool)
    ensures
        0 <= first_where(s, p) <= s.len(),
        forall|i: int| 0 <= i < first_where(s, p) ==> !p(#[trigger] s[i]),
        first_where(s, p) < s.len() ==> p(s[first_where(s, p)]),
    decreases s.len(),
{
    if s.len() > 0 && !p(s[0]) {
        let rest = s.skip(1);
        lemma_first_where(rest, p);
        assert forall|i: int| 0 <= i < first_where(s, p) implies !p(#[trigger] s[i]) by {
            if i > 0 {
                assert(s[i] == rest[i - 1]);
            }
        }
    }
}

/// An index with the three properties of `first_where` is `first_where`.
pub proof fn lemma_first_where_is<A>(s: Seq<A>, p: spec_fn(A) -> bool, n: int)
    requires
        0 <= n <= s.len(),
        forall|i: int| 0 <= i < n ==> !p(#[trigger] s[i]),
        n < s.len() ==> p(s[n]),
    ensures
        first_where(s, p) == n,
    decreases s.len(),
{
    if s.len() > 0 && !p(s[0]) {
        lemma_first_where_is(s.skip(1), p, n - 1);
    }
}

/// The tokens of `s`: its longest runs of characters that are not white
/// space, in their order.
pub open spec fn tokens(s: Seq<char>) -> Seq<Seq<char>>
    decreases s.len(),
    via tokens_decreases
{
    if s.len() == 0 {
        Seq::empty()
    } else if is_space(s[0]) {
        tokens(s.skip(1))
    } else {
        let n = first_where(s, space());
        seq![s.take(n)] + tokens(s.skip(n))
    }
}

/// The first token is not empty, so that what follows it is shorter.
#[via_fn]
proof fn tokens_decreases(s: Seq<char>) {
    lemma_first_where(s, space());
}

/// White space in front of the tokens does not count.
pub proof fn lemma_tokens_after_space(s: Seq<char>, i: int)
    requires
        0 <= i < s.len(),
        is_space(s[i]),
    ensures
        tokens(s.skip(i)) == tokens(s.skip(i + 1)),
{
    assert(s.skip(i).skip(1) == s.skip(i + 1));
}

/// Where a run without white space begins at `i` and ends before `j`, it is
/// the first token of what begins at `i`.
pub proof fn lemma_tokens_after_token(s: Seq<char>, i: int, j: int)
    requires
        0 <= i < j <= s.len(),
        forall|k: int| i <= k < j ==> !is_space(#[trigger] s[k]),
        j < s.len() ==> is_space(s[j]),
    ensures
        tokens(s.skip(i)) == seq![s.subrange(i, j)] + tokens(s.skip(j)),
{
    let tail = s.skip(i);
    lemma_first_where_is(tail, space(), j - i);
    assert(tail.take(j - i) == s.subrange(i, j));
    assert(tail.skip(j - i) == s.skip(j));
}

/// A text without white space is its own single token.
pub proof fn lemma_tokens_of_token(t: Seq<char>)
    requires
        t.len() > 0,
        space_free(t),
    ensures
        tokens(t) == seq![t],
{
    lemma_tokens_after_token(t, 0, t.len() as int);
    assert(t.subrange(0, t.len() as int) == t);
}

/// The tokens of two texts with one blank between them are the tokens of the
/// first followed by those of the second.
pub proof fn lemma_tokens_of_joined(a: Seq<char>, b: Seq<char>)
    ensures
        tokens(a + seq![' '] + b) == tokens(a) + tokens(b),
    decreases a.len(),
{
    let whole = a + seq![' '] + b;
    if a.len() == 0 {
        assert(whole.skip(1) == b);
    } else if is_space(a[0]) {
        assert(whole.skip(1) == a.skip(1) + seq![' '] + b);
        lemma_tokens_of_joined(a.skip(1), b);
    } else {
        lemma_first_where(a, space());
        let n = first_where(a, space());
        lemma_first_where_is(whole, space(), n);
        assert(whole.take(n) == a.take(n));
        assert(whole.skip(n) == a.skip(n) + seq![' '] + b);
        lemma_tokens_of_joined(a.skip(n), b);
    }
}

/// Whether `c` is white space.
pub fn is_whitespace(c: char) -> (b: bool)
    ensures
        b == is_space(c),
{
    ('\u{9}' <= c && c <= '\u{D}') || c == ' ' || c == '\u{85}' || c == '\u{A0}' || c
        == '\u{1680}' || ('\u{2000}' <= c && c <= '\u{200A}') || c == '\u{2028}' || c
        == '\u{2029}' || c == '\u{202F}' || c == '\u{205F}' || c == '\u{3000}'
}

/// Whether no character of `text` is white space.
pub fn is_space_free(text: &str) -> (free: bool)
    ensures
        free == space_free(text@),
{
    let mut free = true;
    let iter = text.chars();
    for c in it: iter
        invariant
            it.seq() == text@,
            free == (forall|k: int| 0 <= k < it.index() ==> !is_space(#[trigger] text@[k])),
    {
        if is_whitespace(c) {
            assert(is_space(text@[it.index()]));
            free = false;
        }
    }
    free
}

/// The characters of `s`, in order.
pub fn chars_of(s: &str) -> (out: Vec<char>)
    ensures
        out@ == s@,
{
    let mut out: Vec<char> = Vec::new();
    let iter = s.chars();
    for c in it: iter
        invariant
            it.seq() == s@,
            out@ == s@.take(it.index()),
    {
        out.push(c);
    }
    out
}

/// Appends the characters `chars[from..to]` to `out`.
pub(crate) fn push_range(out: &mut String, chars: &Vec<char>, from: usize, to: usize)
    requires
        from <= to <= chars.len(),
    ensures
        final(out)@ == old(out)@ + chars@.subrange(from as int, to as int),
{
    let mut i: usize = from;
    while i < to
        invariant
            from <= i <= to <= chars.len(),
            out@ == old(out)@ + chars@.subrange(from as int, i as int),
        decreases to - i,
    {
        out.push(chars[i]);
        i += 1;
    }
}

/// Whether `chars` spells exactly the text `lit`.
pub fn spells(chars: &Vec<char>, lit: &str) -> (same: bool)
    ensures
        same == (chars@ == lit@),
{
    let mut n: usize = 0;
    let mut same = true;
    let iter = lit.chars();
    for c in it: iter
        invariant
            it.seq() == lit@,
            same ==> n == it.index() && n <= chars.len() && chars@.take(n as int) == lit@.take(
                n as int,
            ),
            !same ==> chars@ != lit@,
    {
        if same {
            if n < chars.len() && chars[n] == c {
                n += 1;
            } else {
                same = false;
            }
        }
    }
    proof {
        if same {
            assert(lit@.take(n as int) == lit@);
            if n == chars.len() {
                assert(chars@.take(n as int) == chars@);
            }
        }
    }
    same && n == chars.len()
}

} // verus!
