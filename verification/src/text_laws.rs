//! What cutting, joining, comparing and ordering mean for texts.

use crate::text;
use vstd::prelude::*;

verus! {

/// Whether a text is nothing but whitespace.
pub open spec fn is_blank(s: Seq<char>) -> bool {
    forall|i: int| 0 <= i < s.len() ==> text::is_space(#[trigger] s[i])
}

proof fn lemma_trimmed_start(s: Seq<char>) -> (front: Seq<char>)
    ensures
        is_blank(front),
        s == front + text::trimmed_start(s),
        text::trimmed_start(s).len() > 0 ==> !text::is_space(text::trimmed_start(s).first()),
    decreases s.len(),
{
    if s.len() > 0 && text::is_space(s.first()) {
        let rest = lemma_trimmed_start(s.drop_first());
        let front = seq![s.first()] + rest;
        assert(s =~= seq![s.first()] + s.drop_first());
        assert(front + text::trimmed_start(s) =~= seq![s.first()] + (rest + text::trimmed_start(
            s.drop_first(),
        )));
        front
    } else {
        assert(s =~= Seq::<char>::empty() + s);
        seq![]
    }
}

proof fn lemma_trimmed_end(s: Seq<char>) -> (back: Seq<char>)
    ensures
        is_blank(back),
        s == text::trimmed_end(s) + back,
        text::trimmed_end(s).len() > 0 ==> !text::is_space(text::trimmed_end(s).last())
            && text::trimmed_end(s).first() == s.first(),
    decreases s.len(),
{
    if s.len() > 0 && text::is_space(s.last()) {
        let rest = lemma_trimmed_end(s.drop_last());
        let back = rest.push(s.last());
        assert(s =~= s.drop_last().push(s.last()));
        assert(text::trimmed_end(s) + back =~= (text::trimmed_end(s.drop_last()) + rest).push(
            s.last(),
        ));
        back
    } else {
        assert(s =~= s + Seq::<char>::empty());
        seq![]
    }
}

/// Trimming takes whitespace away at the two ends of a text, all that is there and nothing else.
pub proof fn only_outer_space_is_trimmed(s: Seq<char>)
    ensures
        ({
            let t = text::trimmed(s);
            &&& exists|front: Seq<char>, back: Seq<char>|
                is_blank(front) && is_blank(back) && s == #[trigger] (front + t + back)
            &&& t.len() > 0 ==> !text::is_space(t.first()) && !text::is_space(t.last())
        }),
{
    let front = lemma_trimmed_start(s);
    let back = lemma_trimmed_end(text::trimmed_start(s));
    assert(s =~= front + text::trimmed(s) + back);
}

/// Whether two characters are the same, or the upper-case and the lower-case form of one ASCII
/// letter.
pub open spec fn same_letter(a: char, b: char) -> bool {
    ||| a == b
    ||| 'A' <= a <= 'Z' && b as int == a as int + 32
    ||| 'A' <= b <= 'Z' && a as int == b as int + 32
}

proof fn lemma_same_letter(a: char, b: char)
    ensures
        text::lower(a) == text::lower(b) <==> same_letter(a, b),
{
}

/// Two texts are the same but for case exactly when they are as long as each other and hold the same
/// letters, each in either case.
pub proof fn case_is_all_that_may_differ(a: Seq<char>, b: Seq<char>)
    ensures
        text::same_but_for_case(a, b) <==> a.len() == b.len() && forall|i: int|
            0 <= i < a.len() ==> same_letter(#[trigger] a[i], b[i]),
{
    assert forall|i: int| 0 <= i < a.len() && a.len() == b.len() implies (text::lower(
        #[trigger] a[i],
    ) == text::lower(b[i]) <==> same_letter(a[i], b[i])) by {
        lemma_same_letter(a[i], b[i]);
    }
}

/// A text comes before another exactly when it is the beginning of the other, which is longer, or
/// has the smaller character where they first differ.
pub proof fn order_is_that_of_a_dictionary(a: Seq<char>, b: Seq<char>)
    ensures
        text::comes_before(a, b) <==> exists|k: int|
            0 <= k <= a.len() && k < b.len() && #[trigger] a.take(k) == b.take(k) && (k == a.len()
                || a[k] < b[k]),
    decreases a.len(),
{
    if b.len() == 0 {
    } else if a.len() == 0 {
        assert(a.take(0) =~= b.take(0));
    } else if a.first() != b.first() {
        if a.first() < b.first() {
            assert(a.take(0) =~= b.take(0));
        }
        if exists|k: int|
            0 <= k <= a.len() && k < b.len() && #[trigger] a.take(k) == b.take(k) && (k == a.len()
                || a[k] < b[k]) {
            let k = choose|k: int|
                0 <= k <= a.len() && k < b.len() && #[trigger] a.take(k) == b.take(k) && (k
                    == a.len() || a[k] < b[k]);
            if k > 0 {
                assert(a.take(k)[0] == a.first());
                assert(b.take(k)[0] == b.first());
            }
        }
    } else {
        let x = a.drop_first();
        let y = b.drop_first();
        order_is_that_of_a_dictionary(x, y);
        if text::comes_before(x, y) {
            let k = choose|k: int|
                0 <= k <= x.len() && k < y.len() && #[trigger] x.take(k) == y.take(k) && (k
                    == x.len() || x[k] < y[k]);
            assert(a.take(k + 1) =~= seq![a.first()] + x.take(k));
            assert(b.take(k + 1) =~= seq![b.first()] + y.take(k));
        }
        if exists|k: int|
            0 <= k <= a.len() && k < b.len() && #[trigger] a.take(k) == b.take(k) && (k == a.len()
                || a[k] < b[k]) {
            let k = choose|k: int|
                0 <= k <= a.len() && k < b.len() && #[trigger] a.take(k) == b.take(k) && (k
                    == a.len() || a[k] < b[k]);
            if k == 0 {
                assert(a[0] == a.first() && b[0] == b.first());
            }
            assert(x.take(k - 1) =~= a.take(k).drop_first());
            assert(y.take(k - 1) =~= b.take(k).drop_first());
        }
    }
}

proof fn lemma_joined_front(first: Seq<char>, rest: Seq<Seq<char>>, sep: Seq<char>)
    requires
        rest.len() > 0,
    ensures
        text::joined(seq![first] + rest, sep) == first + sep + text::joined(rest, sep),
    decreases rest.len(),
{
    let all = seq![first] + rest;
    if rest.len() == 1 {
        assert(all.drop_last() =~= seq![first]);
        assert(text::joined(all.drop_last(), sep) == first);
    } else {
        assert(all.drop_last() =~= seq![first] + rest.drop_last());
        lemma_joined_front(first, rest.drop_last(), sep);
        assert(text::joined(all, sep) =~= first + sep + text::joined(rest, sep));
    }
}

/// The pieces of a text have no separator in them, and joined with the separator they are the text.
pub proof fn pieces_make_the_text(s: Seq<char>, sep: char)
    ensures
        text::joined(text::pieces(s, sep), seq![sep]) == s,
        text::pieces(s, sep).len() > 0,
        forall|i: int|
            0 <= i < text::pieces(s, sep).len() ==> !(#[trigger] text::pieces(s, sep)[i]).contains(
                sep,
            ),
    decreases s.len(),
{
    text::lemma_span_before(s, sep);
    let n = text::span_before(s, sep);
    let all = text::pieces(s, sep);
    if n < s.len() {
        let rest = s.skip(n + 1);
        pieces_make_the_text(rest, sep);
        lemma_joined_front(s.take(n), text::pieces(rest, sep), seq![sep]);
        assert(s =~= s.take(n) + seq![sep] + rest);
        assert forall|i: int| 0 <= i < all.len() implies !(#[trigger] all[i]).contains(sep) by {
            if i > 0 {
                assert(all[i] == text::pieces(rest, sep)[i - 1]);
            }
        }
    }
}

// Whitespace

/// The characters that are whitespace.
pub open spec fn whitespace() -> Seq<char> {
    seq![
        '\t', '\n', '\u{b}', '\u{c}', '\r', ' ', '\u{85}', '\u{a0}', '\u{1680}', '\u{2000}',
        '\u{2001}', '\u{2002}', '\u{2003}', '\u{2004}', '\u{2005}', '\u{2006}', '\u{2007}',
        '\u{2008}', '\u{2009}', '\u{200a}', '\u{2028}', '\u{2029}', '\u{202f}', '\u{205f}',
        '\u{3000}',
    ]
}

/// Exactly these characters are whitespace.
pub proof fn whitespace_is_listed(c: char)
    ensures
        text::is_space(c) <==> whitespace().contains(c),
{
    let all = whitespace();
    assert(forall|i: int| 0 <= i < all.len() ==> text::is_space(#[trigger] all[i]));
    if text::is_space(c) {
        let n = c as int;
        let i: int = if n <= 13 {
            n - 9
        } else if n == 32 {
            5
        } else if n == 0x85 {
            6
        } else if n == 0xA0 {
            7
        } else if n == 0x1680 {
            8
        } else if n <= 0x200A {
            n - 0x2000 + 9
        } else if n <= 0x2029 {
            n - 0x2028 + 20
        } else if n == 0x202F {
            22
        } else if n == 0x205F {
            23
        } else {
            24
        };
        assert(all[i] as int == n);
        assert(all[i] == c);
    }
}

} // verus!
