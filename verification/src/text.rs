//! Text as sequences of characters: trimming, searching, splitting, comparing.

use vstd::prelude::*;

verus! {

/// The characters of a string, one by one.
pub fn chars_of(s: &str) -> (v: Vec<char>)
    ensures
        v@ == s@,
{
    let mut v: Vec<char> = Vec::new();
    for c in iter: s.chars()
        invariant
            v@ == s@.take(iter.index()),
            iter.seq() == s@,
    {
        v.push(c);
        assert(s@.take(iter.index() + 1) =~= s@.take(iter.index()).push(c));
    }
    assert(s@.take(s@.len() as int) =~= s@);
    v
}

/// The characters from `from` up to, and without, `to`.
pub fn substring(v: &[char], from: usize, to: usize) -> (s: String)
    requires
        from <= to <= v@.len(),
    ensures
        s@ == v@.subrange(from as int, to as int),
{
    let mut s: String = String::new();
    let mut i: usize = from;
    while i < to
        invariant
            from <= i <= to <= v@.len(),
            s@ == v@.subrange(from as int, i as int),
        decreases to - i,
    {
        s.push(v[i]);
        proof {
            assert(v@.subrange(from as int, i + 1) =~= v@.subrange(from as int, i as int).push(v@[i as int]));
        }
        i += 1;
    }
    s
}

/// The string made of the given characters.
pub fn string_of(v: &[char]) -> (s: String)
    ensures
        s@ == v@,
{
    assert(v@.subrange(0, v@.len() as int) =~= v@);
    substring(v, 0, v.len())
}

/// Whether two texts are the same.
pub fn same_text(a: &str, b: &str) -> (r: bool)
    ensures
        r == (a@ == b@),
{
    a.to_owned() == b.to_owned()
}

// Whitespace and trimming

/// The characters with the Unicode property `White_Space`.
pub open spec fn is_space(c: char) -> bool {
    let n = c as u32;
    ||| 0x09 <= n <= 0x0D
    ||| n == 0x20
    ||| n == 0x85
    ||| n == 0xA0
    ||| n == 0x1680
    ||| 0x2000 <= n <= 0x200A
    ||| n == 0x2028
    ||| n == 0x2029
    ||| n == 0x202F
    ||| n == 0x205F
    ||| n == 0x3000
}

/// Whether a character has the Unicode property `White_Space`.
pub fn is_whitespace(c: char) -> (r: bool)
    ensures
        r == is_space(c),
{
    let n: u32 = c as u32;
    (0x09 <= n && n <= 0x0D) || n == 0x20 || n == 0x85 || n == 0xA0 || n == 0x1680 || (0x2000 <= n
        && n <= 0x200A) || n == 0x2028 || n == 0x2029 || n == 0x202F || n == 0x205F || n == 0x3000
}

/// `s` without the whitespace that it begins with.
pub open spec fn trimmed_start(s: Seq<char>) -> Seq<char>
    decreases s.len(),
{
    if s.len() > 0 && is_space(s.first()) {
        trimmed_start(s.drop_first())
    } else {
        s
    }
}

/// `s` without the whitespace that it ends with.
pub open spec fn trimmed_end(s: Seq<char>) -> Seq<char>
    decreases s.len(),
{
    if s.len() > 0 && is_space(s.last()) {
        trimmed_end(s.drop_last())
    } else {
        s
    }
}

/// `s` without the whitespace at its two ends.
pub open spec fn trimmed(s: Seq<char>) -> Seq<char> {
    trimmed_end(trimmed_start(s))
}

/// Removes the whitespace at the two ends of a text.
pub fn trim(s: &str) -> (r: String)
    ensures
        r@ == trimmed(s@),
{
    let v = chars_of(s);
    let mut a: usize = 0;
    assert(v@.skip(0) =~= v@);
    while a < v.len() && is_whitespace(v[a])
        invariant
            0 <= a <= v.len(),
            trimmed_start(v@) == trimmed_start(v@.skip(a as int)),
        decreases v.len() - a,
    {
        assert(v@.skip(a as int).drop_first() =~= v@.skip(a + 1));
        a += 1;
    }
    let ghost t = v@.skip(a as int);
    assert(trimmed_start(v@) == t);
    let mut b: usize = v.len();
    assert(t =~= v@.subrange(a as int, b as int));
    while b > a && is_whitespace(v[b - 1])
        invariant
            0 <= a <= b <= v.len(),
            trimmed_end(t) == trimmed_end(v@.subrange(a as int, b as int)),
        decreases b - a,
    {
        assert(v@.subrange(a as int, b as int).drop_last() =~= v@.subrange(a as int, b - 1));
        b -= 1;
    }
    substring(v.as_slice(), a, b)
}

/// What trimming leaves neither begins nor ends with whitespace, and is no longer than the text.
pub proof fn trimmed_has_no_outer_space(s: Seq<char>)
    ensures
        trimmed(s).len() > 0 ==> !is_space(trimmed(s).first()) && !is_space(trimmed(s).last()),
        trimmed(s).len() <= s.len(),
{
    lemma_trimmed_start(s);
    lemma_trimmed_end(trimmed_start(s));
}

/// Trimming what has been trimmed changes nothing.
pub proof fn trimmed_is_idempotent(s: Seq<char>)
    ensures
        trimmed(trimmed(s)) == trimmed(s),
{
    trimmed_has_no_outer_space(s);
}

/// Whitespace at the end of a text makes no difference to what is left of it.
pub proof fn trimmed_without_last_space(s: Seq<char>)
    requires
        s.len() > 0,
        is_space(s.last()),
    ensures
        trimmed(s.drop_last()) == trimmed(s),
    decreases s.len(),
{
    if is_space(s.first()) && s.len() > 1 {
        assert(s.drop_first().drop_last() =~= s.drop_last().drop_first());
        trimmed_without_last_space(s.drop_first());
    } else if s.len() > 1 {
        assert(trimmed_start(s) == s);
        assert(trimmed_start(s.drop_last()) == s.drop_last());
    } else {
        assert(s.drop_last() =~= s.drop_first());
        assert(trimmed_start(s) == trimmed_start(s.drop_first()));
    }
}

proof fn lemma_trimmed_start(s: Seq<char>)
    ensures
        trimmed_start(s).len() > 0 ==> !is_space(trimmed_start(s).first()),
        trimmed_start(s).len() <= s.len(),
    decreases s.len(),
{
    if s.len() > 0 && is_space(s.first()) {
        lemma_trimmed_start(s.drop_first());
    }
}

proof fn lemma_trimmed_end(s: Seq<char>)
    ensures
        trimmed_end(s).len() > 0 ==> !is_space(trimmed_end(s).last()) && trimmed_end(s).first()
            == s.first(),
        trimmed_end(s).len() <= s.len(),
    decreases s.len(),
{
    if s.len() > 0 && is_space(s.last()) {
        lemma_trimmed_end(s.drop_last());
    }
}

// Upper and lower case

/// The lower-case letter of an ASCII upper-case letter; every other character stays.
pub open spec fn lower(c: char) -> char {
    if 'A' <= c <= 'Z' {
        ((c as u32 + 32) as u32) as char
    } else {
        c
    }
}

/// Whether two texts differ at most in the case of their ASCII letters.
pub open spec fn same_but_for_case(a: Seq<char>, b: Seq<char>) -> bool {
    &&& a.len() == b.len()
    &&& forall|i: int| 0 <= i < a.len() ==> lower(#[trigger] a[i]) == lower(b[i])
}

/// The code of the lower-case letter of a character.
fn lower_code(c: char) -> (r: u32)
    ensures
        r == lower(c) as u32,
{
    let n: u32 = c as u32;
    if 65 <= n && n <= 90 {
        n + 32
    } else {
        n
    }
}

/// Compares two texts without regard to the case of their ASCII letters.
pub fn eq_ignore_ascii_case(a: &str, b: &str) -> (r: bool)
    ensures
        r == same_but_for_case(a@, b@),
{
    let x = chars_of(a);
    let y = chars_of(b);
    if x.len() != y.len() {
        return false;
    }
    let mut i: usize = 0;
    while i < x.len()
        invariant
            x@ == a@,
            y@ == b@,
            x.len() == y.len(),
            0 <= i <= x.len(),
            forall|j: int| 0 <= j < i ==> lower(#[trigger] a@[j]) == lower(b@[j]),
        decreases x.len() - i,
    {
        if lower_code(x[i]) != lower_code(y[i]) {
            assert(lower(a@[i as int]) != lower(b@[i as int]));
            return false;
        }
        i += 1;
    }
    true
}

// Searching

/// Whether `t` stands in `s` at place `i`.
pub open spec fn occurs_at(s: Seq<char>, t: Seq<char>, i: int) -> bool {
    0 <= i && i + t.len() <= s.len() && s.subrange(i, i + t.len()) == t
}

/// Whether `s` begins with `t`.
pub open spec fn begins_with(s: Seq<char>, t: Seq<char>) -> bool {
    occurs_at(s, t, 0)
}

/// Whether `s` ends with `t`.
pub open spec fn ends_with(s: Seq<char>, t: Seq<char>) -> bool {
    occurs_at(s, t, s.len() - t.len())
}

/// Whether `i` is the first place at which `t` stands in `s`.
pub open spec fn first_occurrence(s: Seq<char>, t: Seq<char>, i: int) -> bool {
    occurs_at(s, t, i) && forall|j: int| 0 <= j < i ==> !#[trigger] occurs_at(s, t, j)
}

/// The first place at which `t` stands in `s`, if there is one.
pub open spec fn found(s: Seq<char>, t: Seq<char>) -> Option<int> {
    if exists|i: int| first_occurrence(s, t, i) {
        Some(choose|i: int| first_occurrence(s, t, i))
    } else {
        None
    }
}

/// Compares a part of `v` with `t`.
pub fn stands_at(v: &[char], t: &[char], at: usize) -> (r: bool)
    ensures
        r == occurs_at(v@, t@, at as int),
{
    if at > v.len() || v.len() - at < t.len() {
        return false;
    }
    let mut i: usize = 0;
    while i < t.len()
        invariant
            at + t.len() <= v.len(),
            0 <= i <= t@.len(),
            forall|j: int| 0 <= j < i ==> v@[at + j] == t@[j],
        decreases t.len() - i,
    {
        if v[at + i] != t[i] {
            assert(v@.subrange(at as int, at + t@.len())[i as int] != t@[i as int]);
            return false;
        }
        i += 1;
    }
    assert(v@.subrange(at as int, at + t@.len()) =~= t@);
    true
}

proof fn lemma_found(s: Seq<char>, t: Seq<char>, i: int)
    requires
        first_occurrence(s, t, i),
    ensures
        found(s, t) == Some(i),
{
    let k = choose|k: int| first_occurrence(s, t, k);
    if k < i {
        assert(occurs_at(s, t, k));
    } else if i < k {
        assert(occurs_at(s, t, i));
    }
}

/// Looks for the first place at which `t` stands in `v`.
pub fn find(v: &[char], t: &[char]) -> (r: Option<usize>)
    ensures
        r is Some <==> found(v@, t@) is Some,
        r matches Some(i) ==> found(v@, t@) == Some(i as int) && occurs_at(v@, t@, i as int),
{
    let mut i: usize = 0;
    while i < v.len()
        invariant
            0 <= i <= v@.len(),
            forall|j: int| 0 <= j < i ==> !#[trigger] occurs_at(v@, t@, j),
        decreases v@.len() - i,
    {
        if stands_at(v, t, i) {
            proof {
                lemma_found(v@, t@, i as int);
            }
            return Some(i);
        }
        i += 1;
    }
    if stands_at(v, t, i) {
        proof {
            lemma_found(v@, t@, i as int);
        }
        return Some(i);
    }
    assert forall|j: int| !first_occurrence(v@, t@, j) by {
        assert(j < i ==> !occurs_at(v@, t@, j));
    }
    None
}

/// The number of characters in front of the first `c`; all of them where there is none.
pub open spec fn span_before(s: Seq<char>, c: char) -> int
    decreases s.len(),
{
    if s.len() == 0 || s.first() == c {
        0
    } else {
        1 + span_before(s.drop_first(), c)
    }
}

/// A span ends at the first `c`, or at the end of the text.
pub proof fn lemma_span_before(s: Seq<char>, c: char)
    ensures
        0 <= span_before(s, c) <= s.len(),
        forall|i: int| 0 <= i < span_before(s, c) ==> s[i] != c,
        span_before(s, c) < s.len() ==> s[span_before(s, c)] == c,
    decreases s.len(),
{
    if s.len() > 0 && s.first() != c {
        let rest = s.drop_first();
        lemma_span_before(rest, c);
        assert forall|i: int| 0 <= i < span_before(s, c) implies s[i] != c by {
            if i > 0 {
                assert(rest[i - 1] == s[i]);
            }
        }
    }
}

/// The place of the first `c` at or behind `from`, or the end of the text.
pub fn index_of(v: &[char], c: char, from: usize) -> (r: usize)
    requires
        from <= v@.len(),
    ensures
        r == from + span_before(v@.skip(from as int), c),
        from <= r <= v@.len(),
{
    let mut i: usize = from;
    while i < v.len() && v[i] != c
        invariant
            from <= i <= v@.len(),
            from + span_before(v@.skip(from as int), c) == i + span_before(v@.skip(i as int), c),
        decreases v.len() - i,
    {
        assert(v@.skip(i as int).drop_first() =~= v@.skip(i + 1));
        i += 1;
    }
    i
}

// Splitting and joining

/// The pieces of a text between the separators. There is always at least one.
pub open spec fn pieces(s: Seq<char>, sep: char) -> Seq<Seq<char>>
    decreases s.len(),
    via pieces_decreases
{
    let n = span_before(s, sep);
    if n >= s.len() {
        seq![s]
    } else {
        seq![s.take(n)] + pieces(s.skip(n + 1), sep)
    }
}

#[via_fn]
proof fn pieces_decreases(s: Seq<char>, sep: char) {
    lemma_span_before(s, sep);
}

/// Cuts a text at every separator.
pub fn split(v: &[char], sep: char) -> (r: Vec<String>)
    ensures
        r.deep_view() == pieces(v@, sep),
{
    let mut r: Vec<String> = Vec::new();
    let mut from: usize = 0;
    assert(v@.skip(0) =~= v@);
    assert(r.deep_view() + pieces(v@, sep) =~= pieces(v@, sep));
    loop
        invariant
            from <= v@.len(),
            r.deep_view() + pieces(v@.skip(from as int), sep) == pieces(v@, sep),
        decreases v@.len() - from,
    {
        let to = index_of(v, sep, from);
        let ghost rest = v@.skip(from as int);
        let ghost before = r.deep_view();
        let piece = substring(v, from, to);
        proof {
            lemma_span_before(rest, sep);
            assert(piece@ =~= rest.take(span_before(rest, sep)));
        }
        r.push(piece);
        assert(r.deep_view() =~= before.push(piece@));
        if to == v.len() {
            assert(piece@ =~= rest);
            assert(r.deep_view() =~= before + pieces(rest, sep));
            return r;
        }
        assert(rest.skip(span_before(rest, sep) + 1) =~= v@.skip(to + 1));
        assert(before + (seq![piece@] + pieces(v@.skip(to + 1), sep)) =~= r.deep_view() + pieces(
            v@.skip(to + 1),
            sep,
        ));
        from = to + 1;
    }
}

/// The parts one behind the other, with `sep` between each two.
pub open spec fn joined(parts: Seq<Seq<char>>, sep: Seq<char>) -> Seq<char>
    decreases parts.len(),
{
    if parts.len() == 0 {
        seq![]
    } else if parts.len() == 1 {
        parts[0]
    } else {
        joined(parts.drop_last(), sep) + sep + parts.last()
    }
}

/// Joins texts with a separator.
pub fn join(parts: &Vec<String>, sep: &str) -> (r: String)
    ensures
        r@ == joined(parts.deep_view(), sep@),
{
    let mut r: String = String::new();
    let mut i: usize = 0;
    let ghost all = parts.deep_view();
    while i < parts.len()
        invariant
            all == parts.deep_view(),
            0 <= i <= parts.len(),
            r@ == joined(all.take(i as int), sep@),
        decreases parts.len() - i,
    {
        proof {
            assert(all.take(i + 1).drop_last() =~= all.take(i as int));
            assert(all.take(i + 1).last() == parts@[i as int]@);
        }
        if i > 0 {
            r.append(sep);
        }
        r.append(parts[i].as_str());
        proof {
            if i == 0 {
                assert(all.take(0) =~= seq![]);
                assert(r@ =~= joined(all.take(1), sep@));
            }
        }
        i += 1;
    }
    assert(all.take(all.len() as int) =~= all);
    r
}

// Order

/// Whether `a` comes before `b` in the order of a dictionary, by character codes.
pub open spec fn comes_before(a: Seq<char>, b: Seq<char>) -> bool
    decreases a.len(),
{
    if b.len() == 0 {
        false
    } else if a.len() == 0 {
        true
    } else if a.first() != b.first() {
        a.first() < b.first()
    } else {
        comes_before(a.drop_first(), b.drop_first())
    }
}

/// Compares two texts by the order of a dictionary.
pub fn precedes(a: &str, b: &str) -> (r: bool)
    ensures
        r == comes_before(a@, b@),
{
    let x = chars_of(a);
    let y = chars_of(b);
    let mut i: usize = 0;
    assert(x@.skip(0) =~= x@);
    assert(y@.skip(0) =~= y@);
    while i < x.len() && i < y.len() && x[i] == y[i]
        invariant
            0 <= i <= x.len(),
            0 <= i <= y.len(),
            x@ == a@,
            y@ == b@,
            comes_before(a@, b@) == comes_before(x@.skip(i as int), y@.skip(i as int)),
        decreases x.len() - i,
    {
        assert(x@.skip(i as int).drop_first() =~= x@.skip(i + 1));
        assert(y@.skip(i as int).drop_first() =~= y@.skip(i + 1));
        i += 1;
    }
    if i >= y.len() {
        false
    } else if i >= x.len() {
        true
    } else {
        x[i] < y[i]
    }
}

/// Of two texts either one comes first or they are the same.
pub proof fn order_is_total(a: Seq<char>, b: Seq<char>)
    ensures
        comes_before(a, b) || comes_before(b, a) || a == b,
        !(comes_before(a, b) && comes_before(b, a)),
        comes_before(a, b) ==> a != b,
    decreases a.len(),
{
    if a.len() > 0 && b.len() > 0 && a.first() == b.first() {
        order_is_total(a.drop_first(), b.drop_first());
        if a.drop_first() == b.drop_first() {
            assert(a =~= seq![a.first()] + a.drop_first());
            assert(b =~= seq![b.first()] + b.drop_first());
        }
    } else if a.len() == 0 && b.len() == 0 {
        assert(a =~= b);
    }
}

/// The order of texts is transitive.
pub proof fn order_is_transitive(a: Seq<char>, b: Seq<char>, c: Seq<char>)
    requires
        comes_before(a, b),
        comes_before(b, c),
    ensures
        comes_before(a, c),
    decreases a.len(),
{
    if a.len() > 0 && b.len() > 0 && c.len() > 0 && a.first() == b.first() && b.first()
        == c.first() {
        order_is_transitive(a.drop_first(), b.drop_first(), c.drop_first());
    }
}

} // verus!
