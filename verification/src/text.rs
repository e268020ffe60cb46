//! Character-level helpers on strings: conversion between `String` and
//! character vectors, splitting on a separator, prefix tests.

use vstd::prelude::*;

verus! {

/// Splits `s` on every occurrence of `sep`, as `str::split` does:
/// `n` separators give `n + 1` pieces, empty pieces included.
pub open spec fn split_on(s: Seq<char>, sep: char) -> Seq<Seq<char>>
    decreases s.len(),
{
    if s.len() == 0 {
        seq![Seq::<char>::empty()]
    } else {
        let rest = split_on(s.drop_last(), sep);
        if s.last() == sep {
            rest.push(Seq::<char>::empty())
        } else {
            rest.update(rest.len() - 1, rest.last().push(s.last()))
        }
    }
}

/// The pieces `split_on` produces are never zero in number.
pub proof fn lemma_split_on_nonempty(s: Seq<char>, sep: char)
    ensures
        split_on(s, sep).len() >= 1,
    decreases s.len(),
{
    if s.len() > 0 {
        lemma_split_on_nonempty(s.drop_last(), sep);
    }
}

/// A sequence without the separator splits into itself alone.
pub proof fn lemma_split_on_no_sep(s: Seq<char>, sep: char)
    requires
        !s.contains(sep),
    ensures
        split_on(s, sep) == seq![s],
    decreases s.len(),
{
    if s.len() > 0 {
        assert(!s.drop_last().contains(sep)) by {
            if s.drop_last().contains(sep) {
                let k = choose|k: int| 0 <= k < s.drop_last().len() && s.drop_last()[k] == sep;
                assert(s[k] == sep);
            }
        }
        lemma_split_on_no_sep(s.drop_last(), sep);
        assert(s.last() != sep) by {
            assert(s[s.len() - 1] == s.last());
        }
        assert(s.drop_last().push(s.last()) =~= s);
        let rest = split_on(s.drop_last(), sep);
        assert(rest == seq![s.drop_last()]);
        assert(split_on(s, sep) == rest.update(rest.len() - 1, rest.last().push(s.last())));
        assert(rest.update(rest.len() - 1, rest.last().push(s.last())) =~= seq![s]);
    } else {
        assert(s =~= Seq::<char>::empty());
    }
}

/// Appending a separator and then a separator-free tail adds exactly one piece.
pub proof fn lemma_split_on_append(x: Seq<char>, sep: char, y: Seq<char>)
    requires
        !y.contains(sep),
    ensures
        split_on(x.push(sep) + y, sep) == split_on(x, sep).push(y),
    decreases y.len(),
{
    if y.len() == 0 {
        assert(x.push(sep) + y =~= x.push(sep));
        assert(x.push(sep).drop_last() =~= x);
        assert(x.push(sep).last() == sep);
        assert(y =~= Seq::<char>::empty());
        assert(split_on(x.push(sep), sep) == split_on(x, sep).push(Seq::<char>::empty()));
    } else {
        let z = x.push(sep) + y;
        assert(z.drop_last() =~= x.push(sep) + y.drop_last());
        assert(!y.drop_last().contains(sep)) by {
            if y.drop_last().contains(sep) {
                let k = choose|k: int| 0 <= k < y.drop_last().len() && y.drop_last()[k] == sep;
                assert(y[k] == sep);
            }
        }
        lemma_split_on_append(x, sep, y.drop_last());
        assert(z.last() == y.last());
        assert(y.last() != sep) by {
            assert(y[y.len() - 1] == y.last());
        }
        assert(y.drop_last().push(y.last()) =~= y);
        let rest = split_on(z.drop_last(), sep);
        assert(rest == split_on(x, sep).push(y.drop_last()));
        assert(split_on(z, sep) == rest.update(rest.len() - 1, rest.last().push(z.last())));
        assert(rest.update(rest.len() - 1, rest.last().push(z.last())) =~= split_on(x, sep).push(y));
    }
}

/// `s` converted to a vector of its characters.
pub fn chars_of(s: &str) -> (v: Vec<char>)
    ensures
        v@ == s@,
{
    let mut v: Vec<char> = Vec::new();
    for c in it: s.chars()
        invariant
            v@ == it.seq().take(it.index() as int),
            it.seq() == s@,
    {
        v.push(c);
    }
    v
}

/// Builds a `String` from characters (`String`'s `FromIterator<char>`).
#[verifier::external_body]
pub fn string_of(v: &[char]) -> (s: String)
    ensures
        s@ == v@,
{
    v.iter().collect()
}

/// Whether two strings hold the same characters.
pub fn str_eq(a: &str, b: &str) -> (r: bool)
    ensures
        r == (a@ == b@),
{
    a.to_string() == b.to_string()
}

/// Whether the character vector `v` equals the string `s`.
pub fn chars_eq_str(v: &Vec<char>, s: &str) -> (r: bool)
    ensures
        r == (v@ == s@),
{
    let w = chars_of(s);
    if v.len() != w.len() {
        assert(v@.len() != w@.len());
        return false;
    }
    let mut i: usize = 0;
    while i < v.len()
        invariant
            v.len() == w.len(),
            w@ == s@,
            i <= v.len(),
            forall|k: int| 0 <= k < i ==> v@[k] == w@[k],
        decreases v.len() - i,
    {
        if v[i] != w[i] {
            assert(v@[i as int] != w@[i as int]);
            assert(v@ != w@);
            return false;
        }
        i += 1;
    }
    assert(v@ =~= w@);
    true
}

/// Splits the characters `v` on `sep` (`str::split`).
pub fn split_chars(v: &Vec<char>, sep: char) -> (parts: Vec<Vec<char>>)
    ensures
        parts.len() >= 1,
        parts.len() == split_on(v@, sep).len(),
        forall|i: int| 0 <= i < parts.len() ==> #[trigger] parts[i]@ == split_on(v@, sep)[i],
{
    let mut parts: Vec<Vec<char>> = Vec::new();
    parts.push(Vec::new());
    let mut i: usize = 0;
    assert(v@.take(0) =~= Seq::<char>::empty());
    while i < v.len()
        invariant
            i <= v.len(),
            parts.len() >= 1,
            parts.len() == split_on(v@.take(i as int), sep).len(),
            forall|k: int| 0 <= k < parts.len() ==> #[trigger] parts[k]@ == split_on(v@.take(i as int), sep)[k],
        decreases v.len() - i,
    {
        let c = v[i];
        assert(v@.take(i + 1).drop_last() =~= v@.take(i as int));
        assert(v@.take(i + 1).last() == c);
        if c == sep {
            parts.push(Vec::new());
        } else {
            let last = parts.len() - 1;
            let mut piece = parts.pop().unwrap();
            piece.push(c);
            parts.push(piece);
            assert(parts.len() == last + 1);
        }
        i += 1;
        assert(forall|k: int| 0 <= k < parts.len() ==> #[trigger] parts[k]@ == split_on(v@.take(i as int), sep)[k]);
    }
    assert(v@.take(v.len() as int) =~= v@);
    parts
}

/// Whether `s` begins with `prefix`.
pub open spec fn has_prefix(s: Seq<char>, prefix: Seq<char>) -> bool {
    prefix.len() <= s.len() && s.subrange(0, prefix.len() as int) == prefix
}

/// `str::strip_prefix` on characters: the rest of `s` after `prefix`, if `s` begins with it.
pub fn strip_prefix_chars(s: &Vec<char>, prefix: &str) -> (r: Option<Vec<char>>)
    ensures
        r is Some <==> has_prefix(s@, prefix@),
        r matches Some(rest) ==> rest@ == s@.subrange(prefix@.len() as int, s@.len() as int),
{
    let p = chars_of(prefix);
    if p.len() > s.len() {
        return None;
    }
    let mut i: usize = 0;
    while i < p.len()
        invariant
            p.len() <= s.len(),
            i <= p.len(),
            p@ == prefix@,
            forall|k: int| 0 <= k < i ==> s@[k] == p@[k],
        decreases p.len() - i,
    {
        if s[i] != p[i] {
            assert(s@.subrange(0, p.len() as int)[i as int] != p@[i as int]);
            return None;
        }
        i += 1;
    }
    assert(s@.subrange(0, p.len() as int) =~= p@);
    let mut rest: Vec<char> = Vec::new();
    let mut j: usize = p.len();
    while j < s.len()
        invariant
            p.len() <= j <= s.len(),
            rest@ == s@.subrange(p.len() as int, j as int),
        decreases s.len() - j,
    {
        rest.push(s[j]);
        j += 1;
        assert(rest@ =~= s@.subrange(p.len() as int, j as int));
    }
    Some(rest)
}

/// Whether the string `s` begins with `prefix` (`str::starts_with`).
pub fn starts_with(s: &str, prefix: &str) -> (r: bool)
    ensures
        r == has_prefix(s@, prefix@),
{
    let v = chars_of(s);
    strip_prefix_chars(&v, prefix).is_some()
}


/// Joins pieces with `sep` between consecutive pieces (inverse of `split_on`).
pub open spec fn join_with(parts: Seq<Seq<char>>, sep: char) -> Seq<char>
    decreases parts.len(),
{
    if parts.len() <= 1 {
        if parts.len() == 1 { parts[0] } else { Seq::<char>::empty() }
    } else {
        join_with(parts.drop_last(), sep).push(sep) + parts.last()
    }
}

/// Joining the pieces of a split gives back the original sequence.
pub proof fn lemma_join_split(s: Seq<char>, sep: char)
    ensures
        join_with(split_on(s, sep), sep) == s,
    decreases s.len(),
{
    if s.len() == 0 {
    } else {
        let t = s.drop_last();
        let c = s.last();
        lemma_join_split(t, sep);
        lemma_split_on_nonempty(t, sep);
        let pt = split_on(t, sep);
        if c == sep {
            let ps = pt.push(Seq::<char>::empty());
            assert(ps.drop_last() =~= pt);
            assert(join_with(ps, sep) =~= t.push(sep));
            assert(t.push(sep) =~= s);
        } else {
            let upd = pt.update(pt.len() - 1, pt.last().push(c));
            if pt.len() == 1 {
                assert(upd[0] =~= t.push(c));
                assert(t.push(c) =~= s);
            } else {
                assert(upd.drop_last() =~= pt.drop_last());
                assert(upd.last() == pt.last().push(c));
                assert(join_with(pt, sep) == join_with(pt.drop_last(), sep).push(sep) + pt.last());
                assert(join_with(upd, sep) =~= join_with(pt, sep).push(c));
                assert(t.push(c) =~= s);
            }
        }
    }
}


/// Append the characters of `s` to `v`.
pub fn push_chars(v: &mut Vec<char>, s: &str)
    ensures
        final(v)@ == old(v)@ + s@,
{
    let mut w = chars_of(s);
    v.append(&mut w);
}

/// `a` followed by `b`.
pub fn concat_str(a: &str, b: &str) -> (r: String)
    ensures
        r@ == a@ + b@,
{
    let mut v = chars_of(a);
    let mut w = chars_of(b);
    v.append(&mut w);
    string_of(v.as_slice())
}

/// `a`, then `b`, then `c`.
pub fn concat3(a: &str, b: &str, c: &str) -> (r: String)
    ensures
        r@ == a@ + b@ + c@,
{
    let mut v = chars_of(a);
    let mut w = chars_of(b);
    let mut x = chars_of(c);
    v.append(&mut w);
    v.append(&mut x);
    string_of(v.as_slice())
}

/// The decimal digit character for `d < 10`.
pub open spec fn digit_char(d: nat) -> char {
    (48 + d) as char
}

/// The decimal text of a natural number, without leading zeros.
pub open spec fn spec_decimal(n: nat) -> Seq<char>
    decreases n,
{
    if n < 10 {
        seq![digit_char(n)]
    } else {
        spec_decimal(n / 10).push(digit_char(n % 10))
    }
}

/// The decimal text of an integer, with a leading `-` when negative.
pub open spec fn spec_int_text(i: int) -> Seq<char> {
    if i < 0 {
        seq!['-'] + spec_decimal((-i) as nat)
    } else {
        spec_decimal(i as nat)
    }
}

/// Append the decimal digits of `n` to `out`.
fn push_decimal(n: u64, out: &mut Vec<char>)
    ensures
        final(out)@ == old(out)@ + spec_decimal(n as nat),
    decreases n,
{
    if n >= 10 {
        push_decimal(n / 10, out);
    }
    let d: u8 = (n % 10) as u8;
    let c: char = (48u8 + d) as char;
    assert(c == digit_char((n % 10) as nat));
    out.push(c);
    assert(n >= 10 ==> spec_decimal(n as nat) == spec_decimal((n / 10) as nat).push(digit_char((n % 10) as nat)));
}

/// The decimal text of an unsigned integer (`u64::to_string`).
pub fn u64_text(n: u64) -> (r: String)
    ensures
        r@ == spec_decimal(n as nat),
{
    let mut out: Vec<char> = Vec::new();
    push_decimal(n, &mut out);
    assert(out@ =~= spec_decimal(n as nat));
    string_of(out.as_slice())
}

/// The decimal text of a signed integer (`i64::to_string`).
pub fn i64_text(i: i64) -> (r: String)
    ensures
        r@ == spec_int_text(i as int),
{
    let mut out: Vec<char> = Vec::new();
    if i < 0 {
        out.push('-');
        let m: u64 = (0i128 - (i as i128)) as u64;
        push_decimal(m, &mut out);
    } else {
        push_decimal(i as u64, &mut out);
        assert(out@ =~= spec_decimal(i as nat));
    }
    string_of(out.as_slice())
}

/// Whether `pat` occurs in `s` (`str::contains`).
pub open spec fn spec_contains(s: Seq<char>, pat: Seq<char>) -> bool {
    exists|i: int| 0 <= i && i + pat.len() <= s.len() && #[trigger] s.subrange(i, i + pat.len()) == pat
}

/// Whether `pat` occurs in `s` (`str::contains`).
pub fn contains_str(s: &str, pat: &str) -> (r: bool)
    ensures
        r == spec_contains(s@, pat@),
{
    let v = chars_of(s);
    let p = chars_of(pat);
    if p.len() > v.len() {
        return false;
    }
    let mut i: usize = 0;
    while i <= v.len() - p.len()
        invariant
            p.len() <= v.len(),
            i <= v.len() - p.len() + 1,
            v@ == s@,
            p@ == pat@,
            forall|j: int| 0 <= j < i ==> #[trigger] v@.subrange(j, j + p@.len()) != p@,
        decreases v.len() - i,
    {
        let mut k: usize = 0;
        let mut same = true;
        while k < p.len()
            invariant
                k <= p.len(),
                i + p.len() <= v.len(),
                same == (forall|m: int| 0 <= m < k ==> v@[i + m] == p@[m]),
            decreases p.len() - k,
        {
            if v[i + k] != p[k] {
                same = false;
            }
            k += 1;
        }
        if same {
            assert(v@.subrange(i as int, i + p@.len()) =~= p@);
            return true;
        }
        assert(v@.subrange(i as int, i + p@.len()) != p@) by {
            let m = choose|m: int| 0 <= m < p.len() && v@[i + m] != p@[m];
            assert(v@.subrange(i as int, i + p@.len())[m] == v@[i + m]);
        }
        i += 1;
    }
    assert(!spec_contains(s@, pat@)) by {
        assert forall|j: int| 0 <= j && j + pat@.len() <= s@.len() implies #[trigger] s@.subrange(j, j + pat@.len()) != pat@ by {
            assert(j < i);
        }
    }
    false
}


// ── Ordering ────────────────────────────────────────────────────

/// `a` sorts before `b`: lexicographically by code point, a proper prefix
/// first. This is how Rust orders strings, by their UTF-8 bytes.
pub open spec fn str_lt(a: Seq<char>, b: Seq<char>) -> bool
    decreases a.len(),
{
    if a.len() == 0 {
        b.len() > 0
    } else if b.len() == 0 {
        false
    } else if a[0] != b[0] {
        (a[0] as int) < (b[0] as int)
    } else {
        str_lt(a.skip(1), b.skip(1))
    }
}

/// No string sorts before itself.
pub proof fn lemma_str_lt_irreflexive(a: Seq<char>)
    ensures
        !str_lt(a, a),
    decreases a.len(),
{
    if a.len() > 0 {
        lemma_str_lt_irreflexive(a.skip(1));
    }
}

/// Sorting before is transitive.
pub proof fn lemma_str_lt_transitive(a: Seq<char>, b: Seq<char>, c: Seq<char>)
    requires
        str_lt(a, b),
        str_lt(b, c),
    ensures
        str_lt(a, c),
    decreases a.len(),
{
    if a.len() > 0 && b.len() > 0 && c.len() > 0 && a[0] == b[0] && b[0] == c[0] {
        lemma_str_lt_transitive(a.skip(1), b.skip(1), c.skip(1));
    }
}

/// Of two different strings, one sorts before the other.
pub proof fn lemma_str_lt_total(a: Seq<char>, b: Seq<char>)
    requires
        a != b,
    ensures
        str_lt(a, b) || str_lt(b, a),
    decreases a.len(),
{
    if a.len() > 0 && b.len() > 0 {
        if a[0] == b[0] {
            if a.skip(1) == b.skip(1) {
                assert(a =~= seq![a[0]] + a.skip(1));
                assert(b =~= seq![b[0]] + b.skip(1));
            }
            lemma_str_lt_total(a.skip(1), b.skip(1));
        }
    } else if a.len() == 0 && b.len() == 0 {
        assert(a =~= b);
    }
}

/// Whether `a` sorts before `b` (`a < b` on strings).
pub fn str_less(a: &str, b: &str) -> (r: bool)
    ensures
        r == str_lt(a@, b@),
{
    let x = chars_of(a);
    let y = chars_of(b);
    let mut i: usize = 0;
    assert(a@.skip(0) =~= a@ && b@.skip(0) =~= b@);
    while i < x.len() && i < y.len()
        invariant
            x@ == a@,
            y@ == b@,
            i <= x.len(),
            i <= y.len(),
            str_lt(a@, b@) == str_lt(a@.skip(i as int), b@.skip(i as int)),
        decreases x.len() - i,
    {
        let ghost ai = a@.skip(i as int);
        let ghost bi = b@.skip(i as int);
        assert(ai[0] == x@[i as int] && bi[0] == y@[i as int]);
        if x[i] != y[i] {
            return x[i] < y[i];
        }
        assert(ai.skip(1) =~= a@.skip(i + 1));
        assert(bi.skip(1) =~= b@.skip(i + 1));
        i += 1;
    }
    assert(a@.skip(i as int).len() == x.len() - i);
    assert(b@.skip(i as int).len() == y.len() - i);
    x.len() < y.len()
}

} // verus!
