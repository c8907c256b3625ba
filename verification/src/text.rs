//! Text primitives shared by the launcher: conversion between strings and
//! character vectors, separator splitting and joining, substring search and
//! replacement, whitespace tokens.
//!
//! Every function here is stated over the character sequence of its
//! arguments (`s@`), so callers can reason about strings as `Seq<char>`.

use vstd::prelude::*;

verus! {

/// `String::push` of the standard library appends exactly one character
/// and leaves the characters already there untouched.
pub assume_specification[ String::push ](s: &mut String, c: char)
    ensures
        final(s)@ == old(s)@.push(c),
;

/// The character sequences of a list of strings.
pub open spec fn texts(v: Seq<String>) -> Seq<Seq<char>> {
    Seq::new(v.len(), |i: int| v[i]@)
}

/// The character sequence of an optional string.
pub open spec fn opt_text(o: Option<String>) -> Option<Seq<char>> {
    match o {
        Some(s) => Some(s@),
        None => None,
    }
}

/// The characters of `s`, in order.
pub fn chars_of(s: &str) -> (out: Vec<char>)
    ensures
        out@ == s@,
{
    let mut out: Vec<char> = Vec::new();
    for c in it: s.chars()
        invariant
            it.seq() == s@,
            out@ == s@.take(it.index()),
    {
        out.push(c);
    }
    out
}

/// The string spelled by `v[from..to]`.
pub fn string_of(v: &Vec<char>, from: usize, to: usize) -> (out: String)
    requires
        from <= to <= v.len(),
    ensures
        out@ == v@.subrange(from as int, to as int),
{
    let mut out = String::new();
    let mut i: usize = from;
    while i < to
        invariant
            from <= i <= to <= v.len(),
            out@ == v@.subrange(from as int, i as int),
        decreases to - i,
    {
        out.push(v[i]);
        i += 1;
    }
    out
}

/// Whether two strings spell the same characters.
pub fn same_text(a: &str, b: &str) -> (r: bool)
    ensures
        r == (a@ == b@),
{
    let x = chars_of(a);
    let y = chars_of(b);
    if x.len() != y.len() {
        return false;
    }
    let mut i: usize = 0;
    while i < x.len()
        invariant
            x@ == a@,
            y@ == b@,
            x.len() == y.len(),
            i <= x.len(),
            x@.take(i as int) == y@.take(i as int),
        decreases x.len() - i,
    {
        if x[i] != y[i] {
            assert(a@[i as int] != b@[i as int]);
            return false;
        }
        assert(x@.take(i + 1) == x@.take(i as int).push(x@[i as int]));
        assert(y@.take(i + 1) == y@.take(i as int).push(y@[i as int]));
        i += 1;
    }
    assert(x@.take(x.len() as int) == x@);
    assert(y@.take(y.len() as int) == y@);
    true
}

/// Whether `needle` occurs in `hay` at position `at`.
pub open spec fn occurs_at(hay: Seq<char>, needle: Seq<char>, at: int) -> bool {
    0 <= at && at + needle.len() <= hay.len() && hay.subrange(at, at + needle.len()) == needle
}

/// Whether `needle` occurs somewhere in `hay`. The empty sequence occurs in
/// every sequence.
pub open spec fn has_substring(hay: Seq<char>, needle: Seq<char>) -> bool {
    exists|at: int| occurs_at(hay, needle, at)
}

fn matches_at(hay: &Vec<char>, needle: &Vec<char>, at: usize) -> (r: bool)
    requires
        at + needle.len() <= hay.len(),
    ensures
        r == occurs_at(hay@, needle@, at as int),
{
    let mut k: usize = 0;
    while k < needle.len()
        invariant
            at + needle.len() <= hay.len(),
            k <= needle.len(),
            hay@.subrange(at as int, at + k) == needle@.take(k as int),
        decreases needle.len() - k,
    {
        if hay[at + k] != needle[k] {
            assert(hay@.subrange(at as int, at + needle.len())[k as int] != needle@[k as int]);
            return false;
        }
        assert(hay@.subrange(at as int, at + k + 1) == hay@.subrange(at as int, at + k).push(
            hay@[at + k],
        ));
        assert(needle@.take(k + 1) == needle@.take(k as int).push(needle@[k as int]));
        k += 1;
    }
    assert(needle@.take(needle.len() as int) == needle@);
    true
}

/// Substring test: `true` exactly when `needle` occurs in `hay`.
pub fn contains(hay: &str, needle: &str) -> (r: bool)
    ensures
        r == has_substring(hay@, needle@),
{
    let h = chars_of(hay);
    let n = chars_of(needle);
    if n.len() > h.len() {
        assert(forall|at: int| !occurs_at(h@, n@, at));
        return false;
    }
    let last: usize = h.len() - n.len();
    let mut i: usize = 0;
    while i < last
        invariant
            h@ == hay@,
            n@ == needle@,
            last == h.len() - n.len(),
            i <= last,
            forall|at: int| 0 <= at < i ==> !occurs_at(h@, n@, at),
        decreases last - i,
    {
        if matches_at(&h, &n, i) {
            return true;
        }
        i += 1;
    }
    let found = matches_at(&h, &n, last);
    assert(!found ==> forall|at: int| !occurs_at(h@, n@, at));
    found
}


/// The pieces of `s` between occurrences of `sep`. There is always at least
/// one piece; `n` separators give `n + 1` pieces, empty ones included.
pub open spec fn split(s: Seq<char>, sep: char) -> Seq<Seq<char>>
    decreases s.len(),
{
    if s.len() == 0 {
        seq![Seq::<char>::empty()]
    } else {
        let init = split(s.drop_last(), sep);
        if s.last() == sep {
            init.push(Seq::<char>::empty())
        } else {
            init.drop_last().push(init.last().push(s.last()))
        }
    }
}

/// `parts` written one after the other with `sep` between neighbours.
pub open spec fn join(parts: Seq<Seq<char>>, sep: char) -> Seq<char>
    decreases parts.len(),
{
    if parts.len() == 0 {
        Seq::<char>::empty()
    } else if parts.len() == 1 {
        parts[0]
    } else {
        join(parts.drop_last(), sep).push(sep) + parts.last()
    }
}

/// A text that holds no separator cannot straddle two joined parts: if it
/// occurs in none of `parts`, it does not occur in their join either.
pub proof fn lemma_join_without(parts: Seq<Seq<char>>, sep: char, pat: Seq<char>)
    requires
        pat.len() > 0,
        forall|k: int| 0 <= k < pat.len() ==> pat[k] != sep,
        forall|i: int| 0 <= i < parts.len() ==> !has_substring(#[trigger] parts[i], pat),
    ensures
        !has_substring(join(parts, sep), pat),
    decreases parts.len(),
{
    let joined = join(parts, sep);
    if parts.len() == 0 {
        assert forall|at: int| !occurs_at(joined, pat, at) by {}
    } else if parts.len() == 1 {
        assert(!has_substring(parts[0], pat));
    } else {
        let init = parts.drop_last();
        let head = join(init, sep);
        let tail = parts.last();
        assert forall|i: int| 0 <= i < init.len() implies !has_substring(
            #[trigger] init[i],
            pat,
        ) by {
            assert(init[i] == parts[i]);
        }
        lemma_join_without(init, sep, pat);
        assert(!has_substring(tail, pat)) by {
            assert(tail == parts[parts.len() - 1]);
        }
        assert forall|at: int| !occurs_at(joined, pat, at) by {
            if occurs_at(joined, pat, at) {
                let window = joined.subrange(at, at + pat.len());
                if at + pat.len() <= head.len() {
                    assert(head.subrange(at, at + pat.len()) =~= window);
                    assert(occurs_at(head, pat, at));
                } else if at > head.len() {
                    let from = at - head.len() - 1;
                    assert(tail.subrange(from, from + pat.len()) =~= window);
                    assert(occurs_at(tail, pat, from));
                } else {
                    assert(window[head.len() - at] == joined[head.len() as int]);
                    assert(joined[head.len() as int] == sep);
                    assert(pat[head.len() - at] == sep);
                }
            }
        }
    }
}

/// Cuts `s` at every `sep`.
pub fn split_on(s: &str, sep: char) -> (out: Vec<String>)
    ensures
        texts(out@) == split(s@, sep),
{
    let v = chars_of(s);
    let mut out: Vec<String> = Vec::new();
    let mut start: usize = 0;
    let mut i: usize = 0;
    proof {
        assert(v@.subrange(0, 0) =~= Seq::<char>::empty());
        assert(v@.take(0).len() == 0);
        assert(texts(out@).push(v@.subrange(0, 0)) =~= split(v@.take(0), sep));
    }
    while i < v.len()
        invariant
            v@ == s@,
            start <= i <= v.len(),
            texts(out@).push(v@.subrange(start as int, i as int)) == split(v@.take(i as int), sep),
        decreases v.len() - i,
    {
        let ghost before = texts(out@);
        let ghost piece = v@.subrange(start as int, i as int);
        proof {
            assert(v@.take(i + 1).drop_last() =~= v@.take(i as int));
            assert(v@.take(i + 1).last() == v@[i as int]);
            assert(before.push(piece).drop_last() =~= before);
        }
        if v[i] == sep {
            let part = string_of(&v, start, i);
            out.push(part);
            start = i + 1;
            proof {
                assert(texts(out@) =~= before.push(piece));
                assert(v@.subrange(start as int, i + 1) =~= Seq::<char>::empty());
            }
        } else {
            proof {
                assert(v@.subrange(start as int, i + 1) =~= piece.push(v@[i as int]));
            }
        }
        i += 1;
    }
    let ghost before = texts(out@);
    let part = string_of(&v, start, i);
    out.push(part);
    proof {
        assert(v@.take(v.len() as int) =~= v@);
        assert(texts(out@) =~= before.push(v@.subrange(start as int, i as int)));
    }
    out
}

/// Writes `parts` one after the other with `sep` between neighbours.
pub fn join_with(parts: &Vec<String>, sep: char) -> (out: String)
    ensures
        out@ == join(texts(parts@), sep),
{
    let mut out = String::new();
    let mut i: usize = 0;
    assert(texts(parts@).take(0) =~= Seq::<Seq<char>>::empty());
    while i < parts.len()
        invariant
            i <= parts.len(),
            out@ == join(texts(parts@).take(i as int), sep),
        decreases parts.len() - i,
    {
        let ghost sofar = texts(parts@).take(i as int);
        let ghost next = texts(parts@).take(i + 1);
        proof {
            assert(next.drop_last() =~= sofar);
            assert(next.last() == parts@[i as int]@);
        }
        if i > 0 {
            out.push(sep);
        }
        let ghost mid = out@;
        let piece = chars_of(parts[i].as_str());
        let mut k: usize = 0;
        while k < piece.len()
            invariant
                k <= piece.len(),
                out@ == mid + piece@.take(k as int),
            decreases piece.len() - k,
        {
            out.push(piece[k]);
            proof {
                assert(piece@.take(k + 1) =~= piece@.take(k as int).push(piece@[k as int]));
                assert(mid + piece@.take(k + 1) =~= (mid + piece@.take(k as int)).push(
                    piece@[k as int],
                ));
            }
            k += 1;
        }
        proof {
            assert(piece@.take(piece.len() as int) =~= piece@);
            if i == 0 {
                assert(mid + piece@ =~= piece@);
            }
        }
        i += 1;
    }
    proof {
        assert(texts(parts@).take(parts.len() as int) =~= texts(parts@));
    }
    out
}

/// `s` with every occurrence of `pat`, taken from the left and without
/// overlap, replaced by `to`. An empty `pat` replaces nothing.
pub open spec fn replaced(s: Seq<char>, pat: Seq<char>, to: Seq<char>) -> Seq<char>
    decreases s.len(),
{
    if pat.len() == 0 || s.len() < pat.len() {
        s
    } else if s.take(pat.len() as int) == pat {
        to + replaced(s.skip(pat.len() as int), pat, to)
    } else {
        seq![s[0]] + replaced(s.skip(1), pat, to)
    }
}

/// Replaces every occurrence of `pat` in `s` by `to`.
pub fn replace_all(s: &str, pat: &str, to: &str) -> (out: String)
    ensures
        out@ == replaced(s@, pat@, to@),
{
    let v = chars_of(s);
    let p = chars_of(pat);
    let t = chars_of(to);
    if p.len() == 0 || v.len() < p.len() {
        return string_of(&v, 0, v.len());
    }
    let mut out = String::new();
    let mut i: usize = 0;
    assert(v@.skip(0) =~= v@);
    while i <= v.len() - p.len()
        invariant
            v@ == s@,
            p@ == pat@,
            t@ == to@,
            0 < p.len() <= v.len(),
            i <= v.len(),
            replaced(v@, p@, t@) == out@ + replaced(v@.skip(i as int), p@, t@),
        decreases v.len() - i,
    {
        let ghost rest = v@.skip(i as int);
        let ghost done = out@;
        proof {
            assert(rest.take(p.len() as int) =~= v@.subrange(i as int, i + p.len()));
        }
        if matches_at(&v, &p, i) {
            let mut k: usize = 0;
            while k < t.len()
                invariant
                    k <= t.len(),
                    out@ == done + t@.take(k as int),
                decreases t.len() - k,
            {
                out.push(t[k]);
                proof {
                    assert(done + t@.take(k + 1) =~= (done + t@.take(k as int)).push(t@[k as int]));
                }
                k += 1;
            }
            proof {
                assert(t@.take(t.len() as int) =~= t@);
                assert(rest.skip(p.len() as int) =~= v@.skip(i + p.len()));
                assert(done + (t@ + replaced(rest.skip(p.len() as int), p@, t@)) =~= (done + t@)
                    + replaced(rest.skip(p.len() as int), p@, t@));
            }
            i += p.len();
        } else {
            out.push(v[i]);
            proof {
                assert(rest.skip(1) =~= v@.skip(i + 1));
                assert(done + (seq![rest[0]] + replaced(rest.skip(1), p@, t@)) =~= done.push(
                    v@[i as int],
                ) + replaced(rest.skip(1), p@, t@));
            }
            i += 1;
        }
    }
    let ghost done = out@;
    let ghost tail = v@.skip(i as int);
    let mut k: usize = i;
    while k < v.len()
        invariant
            i <= k <= v.len(),
            out@ == done + v@.subrange(i as int, k as int),
        decreases v.len() - k,
    {
        out.push(v[k]);
        proof {
            assert(done + v@.subrange(i as int, k + 1) =~= (done + v@.subrange(
                i as int,
                k as int,
            )).push(v@[k as int]));
        }
        k += 1;
    }
    proof {
        assert(v@.subrange(i as int, v.len() as int) =~= tail);
    }
    out
}

/// Whether `c` is one of the Unicode `White_Space` code points.
pub open spec fn is_space(c: char) -> bool {
    let n = c as u32;
    (0x09 <= n && n <= 0x0D) || n == 0x20 || n == 0x85 || n == 0xA0 || n == 0x1680 || (0x2000
        <= n && n <= 0x200A) || n == 0x2028 || n == 0x2029 || n == 0x202F || n == 0x205F || n
        == 0x3000
}

/// Whether `c` is whitespace.
pub fn is_whitespace(c: char) -> (r: bool)
    ensures
        r == is_space(c),
{
    let n: u32 = c as u32;
    (0x09 <= n && n <= 0x0D) || n == 0x20 || n == 0x85 || n == 0xA0 || n == 0x1680 || (0x2000
        <= n && n <= 0x200A) || n == 0x2028 || n == 0x2029 || n == 0x202F || n == 0x205F || n
        == 0x3000
}

/// The maximal runs of non-whitespace characters of `s`, in order.
pub open spec fn words(s: Seq<char>) -> Seq<Seq<char>>
    decreases s.len(),
{
    if s.len() == 0 {
        Seq::<Seq<char>>::empty()
    } else {
        let init = words(s.drop_last());
        if is_space(s.last()) {
            init
        } else if s.len() >= 2 && !is_space(s[s.len() - 2]) && init.len() > 0 {
            init.drop_last().push(init.last().push(s.last()))
        } else {
            init.push(seq![s.last()])
        }
    }
}

/// Cuts `s` into its whitespace-separated words.
pub fn split_words(s: &str) -> (out: Vec<String>)
    ensures
        texts(out@) == words(s@),
{
    let v = chars_of(s);
    let mut out: Vec<String> = Vec::new();
    let mut start: usize = 0;
    let mut inside: bool = false;
    let mut i: usize = 0;
    assert(texts(out@) =~= words(v@.take(0)));
    while i < v.len()
        invariant
            v@ == s@,
            start <= i <= v.len(),
            inside <==> (i > 0 && !is_space(v@[i - 1])),
            inside ==> start < i && texts(out@).push(v@.subrange(start as int, i as int))
                == words(v@.take(i as int)),
            !inside ==> texts(out@) == words(v@.take(i as int)),
        decreases v.len() - i,
    {
        let ghost before = texts(out@);
        let ghost piece = v@.subrange(start as int, i as int);
        proof {
            assert(v@.take(i + 1).drop_last() =~= v@.take(i as int));
            assert(v@.take(i + 1).last() == v@[i as int]);
            if i > 0 {
                assert(v@.take(i + 1)[i - 1] == v@[i - 1]);
            }
            assert(before.push(piece).drop_last() =~= before);
        }
        if is_whitespace(v[i]) {
            if inside {
                let part = string_of(&v, start, i);
                out.push(part);
                proof {
                    assert(texts(out@) =~= before.push(piece));
                }
            }
            inside = false;
        } else {
            if !inside {
                start = i;
                proof {
                    assert(v@.subrange(i as int, i + 1) =~= seq![v@[i as int]]);
                }
            } else {
                proof {
                    assert(v@.subrange(start as int, i + 1) =~= piece.push(v@[i as int]));
                }
            }
            inside = true;
        }
        i += 1;
    }
    proof {
        assert(v@.take(v.len() as int) =~= v@);
    }
    if inside {
        let ghost before = texts(out@);
        let part = string_of(&v, start, i);
        out.push(part);
        proof {
            assert(texts(out@) =~= before.push(v@.subrange(start as int, i as int)));
        }
    }
    out
}

/// `s` without its leading whitespace.
pub open spec fn trim_start(s: Seq<char>) -> Seq<char>
    decreases s.len(),
{
    if s.len() > 0 && is_space(s[0]) {
        trim_start(s.skip(1))
    } else {
        s
    }
}

/// `s` without its trailing whitespace.
pub open spec fn trim_end(s: Seq<char>) -> Seq<char>
    decreases s.len(),
{
    if s.len() > 0 && is_space(s.last()) {
        trim_end(s.drop_last())
    } else {
        s
    }
}

/// `s` without leading and trailing whitespace.
pub open spec fn trimmed(s: Seq<char>) -> Seq<char> {
    trim_end(trim_start(s))
}

/// The ASCII lower-case form of `c`: `A`..`Z` map to `a`..`z`, every other
/// character to itself.
pub open spec fn lower_char(c: char) -> char {
    if 'A' <= c && c <= 'Z' {
        ((c as u8) + 32) as char
    } else {
        c
    }
}

/// `s` with every character in ASCII lower case.
pub open spec fn lowered(s: Seq<char>) -> Seq<char> {
    Seq::new(s.len(), |i: int| lower_char(s[i]))
}

fn to_lower(c: char) -> (r: char)
    ensures
        r == lower_char(c),
{
    if 'A' <= c && c <= 'Z' {
        let b: u8 = c as u8;
        (b + 32) as char
    } else {
        c
    }
}

/// Strips whitespace from both ends of `s` and lowers ASCII letters.
pub fn trim_lower(s: &str) -> (out: String)
    ensures
        out@ == lowered(trimmed(s@)),
{
    let v = chars_of(s);
    let mut lo: usize = 0;
    assert(v@.skip(0) =~= v@);
    while lo < v.len() && is_whitespace(v[lo])
        invariant
            lo <= v.len(),
            trim_start(v@) == trim_start(v@.skip(lo as int)),
        decreases v.len() - lo,
    {
        proof {
            assert(v@.skip(lo as int).skip(1) =~= v@.skip(lo + 1));
        }
        lo += 1;
    }
    let mut hi: usize = v.len();
    assert(v@.subrange(lo as int, hi as int) =~= v@.skip(lo as int));
    while hi > lo && is_whitespace(v[hi - 1])
        invariant
            lo <= hi <= v.len(),
            trimmed(v@) == trim_end(v@.subrange(lo as int, hi as int)),
        decreases hi - lo,
    {
        proof {
            assert(v@.subrange(lo as int, hi as int).drop_last() =~= v@.subrange(
                lo as int,
                hi - 1,
            ));
        }
        hi -= 1;
    }
    let ghost core = v@.subrange(lo as int, hi as int);
    assert(trimmed(v@) == core);
    let mut out = String::new();
    let mut i: usize = lo;
    while i < hi
        invariant
            lo <= i <= hi <= v.len(),
            out@ == lowered(v@.subrange(lo as int, i as int)),
        decreases hi - i,
    {
        out.push(to_lower(v[i]));
        proof {
            assert(lowered(v@.subrange(lo as int, i + 1)) =~= lowered(
                v@.subrange(lo as int, i as int),
            ).push(lower_char(v@[i as int])));
        }
        i += 1;
    }
    out
}

/// The number an all-digit text spells in base ten.
pub open spec fn decimal_value(s: Seq<char>) -> nat
    decreases s.len(),
{
    if s.len() == 0 {
        0
    } else {
        (decimal_value(s.drop_last()) * 10 + (s.last() as u32 - '0' as u32)) as nat
    }
}

/// Whether every character of `s` is one of `0`..`9`.
pub open spec fn all_digits(s: Seq<char>) -> bool {
    forall|i: int| 0 <= i < s.len() ==> '0' <= #[trigger] s[i] && s[i] <= '9'
}

/// What `s` spells as an unsigned 32-bit decimal number: an optional `+`,
/// then one or more digits, the value at most `u32::MAX`.
pub open spec fn parsed_u32(s: Seq<char>) -> Option<u32> {
    let digits = if s.len() > 0 && s[0] == '+' {
        s.skip(1)
    } else {
        s
    };
    if digits.len() > 0 && all_digits(digits) && decimal_value(digits) <= u32::MAX {
        Some(decimal_value(digits) as u32)
    } else {
        None
    }
}

proof fn lemma_decimal_grows(s: Seq<char>, k: int)
    requires
        0 <= k <= s.len(),
        all_digits(s),
    ensures
        decimal_value(s.take(k)) <= decimal_value(s),
    decreases s.len() - k,
{
    if k == s.len() {
        assert(s.take(k) =~= s);
    } else {
        lemma_decimal_grows(s, k + 1);
        assert(s.take(k + 1).drop_last() =~= s.take(k));
        assert('0' <= s[k] && s[k] <= '9');
    }
}

/// Reads `s` as an unsigned 32-bit decimal number.
pub fn parse_u32(s: &str) -> (out: Option<u32>)
    ensures
        out == parsed_u32(s@),
{
    let v = chars_of(s);
    let from: usize = if v.len() > 0 && v[0] == '+' {
        1
    } else {
        0
    };
    if from == v.len() {
        return None;
    }
    let ghost digits = v@.skip(from as int);
    let mut acc: u64 = 0;
    let mut i: usize = from;
    proof {
        assert(digits.take(0) =~= Seq::<char>::empty());
        assert(v@.skip(0) =~= v@);
    }
    while i < v.len()
        invariant
            v@ == s@,
            from <= i <= v.len(),
            from < v.len(),
            digits == v@.skip(from as int),
            digits == if s@.len() > 0 && s@[0] == '+' {
                s@.skip(1)
            } else {
                s@
            },
            all_digits(digits.take(i - from)),
            acc == decimal_value(digits.take(i - from)),
            acc <= u32::MAX,
        decreases v.len() - i,
    {
        let c = v[i];
        proof {
            assert(digits[i - from] == c);
            assert(digits.take(i - from + 1).drop_last() =~= digits.take(i - from));
        }
        if !('0' <= c && c <= '9') {
            assert(!all_digits(digits));
            return None;
        }
        let d: u64 = (c as u32 - '0' as u32) as u64;
        let next: u64 = acc * 10 + d;
        proof {
            assert(digits.take(i - from + 1).last() == c);
            assert(all_digits(digits.take(i - from + 1))) by {
                assert forall|j: int| 0 <= j < i - from + 1 implies '0' <= #[trigger] digits.take(
                    i - from + 1,
                )[j] && digits.take(i - from + 1)[j] <= '9' by {
                    if j < i - from {
                        assert(digits.take(i - from)[j] == digits[j]);
                    }
                }
            }
        }
        if next > 0xFFFF_FFFF {
            proof {
                if all_digits(digits) {
                    lemma_decimal_grows(digits, i - from + 1);
                }
            }
            return None;
        }
        acc = next;
        i += 1;
    }
    proof {
        assert(digits.take(v.len() - from) =~= digits);
    }
    Some(acc as u32)
}

/// `s` without one leading `c`, or `s` itself when it does not start with `c`.
pub open spec fn without_leading(s: Seq<char>, c: char) -> Seq<char> {
    if s.len() > 0 && s[0] == c {
        s.skip(1)
    } else {
        s
    }
}

/// Drops one leading `c` from `s` if there is one.
pub fn strip_leading(s: &str, c: char) -> (out: String)
    ensures
        out@ == without_leading(s@, c),
{
    let v = chars_of(s);
    if v.len() > 0 && v[0] == c {
        let out = string_of(&v, 1, v.len());
        assert(v@.subrange(1, v.len() as int) =~= v@.skip(1));
        out
    } else {
        let out = string_of(&v, 0, v.len());
        assert(v@.subrange(0, v.len() as int) =~= v@);
        out
    }
}

} // verus!
