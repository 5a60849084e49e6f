//! Character-level text operations used by the engine, each with an exact
//! specification over the string's sequence of characters.
use vstd::prelude::*;

verus! {

/// Appends one character at the end of a string.
/// Trusted: the body calls `String::push`, documented to append the given
/// `char` to the end of the string.
#[verifier::external_body]
pub(crate) fn push_char(s: &mut String, c: char)
    ensures
        final(s)@ == old(s)@.push(c),
{
    s.push(c);
}

/// The characters of a string, in order.
pub fn chars_of(s: &str) -> (v: Vec<char>)
    ensures
        v@ == s@,
{
    let mut v: Vec<char> = Vec::new();
    for c in it: s.chars()
        invariant
            v@ == it.seq().take(it.index() as int),
    {
        v.push(c);
    }
    assert(v@ =~= s@);
    v
}

/// A string made of the given characters.
pub fn string_from_chars(v: &[char]) -> (s: String)
    ensures
        s@ == v@,
{
    let mut s = String::new();
    let mut i: usize = 0;
    while i < v.len()
        invariant
            i <= v@.len(),
            s@ == v@.take(i as int),
        decreases v@.len() - i,
    {
        push_char(&mut s, v[i]);
        i = i + 1;
        assert(s@ =~= v@.take(i as int));
    }
    assert(v@.take(v@.len() as int) =~= v@);
    s
}

/// A string holding a copy of the characters of `s`.
pub fn owned(s: &str) -> (r: String)
    ensures
        r@ == s@,
{
    let v = chars_of(s);
    string_from_chars(v.as_slice())
}

/// Whether two strings hold the same characters.
pub fn str_eq(a: &str, b: &str) -> (r: bool)
    ensures
        r == (a@ == b@),
{
    let va = chars_of(a);
    let vb = chars_of(b);
    if va.len() != vb.len() {
        return false;
    }
    let mut i: usize = 0;
    while i < va.len()
        invariant
            va@ == a@,
            vb@ == b@,
            va@.len() == vb@.len(),
            i <= va@.len(),
            forall|k: int| 0 <= k < i ==> va@[k] == vb@[k],
        decreases va@.len() - i,
    {
        if va[i] != vb[i] {
            return false;
        }
        i = i + 1;
    }
    assert(va@ =~= vb@);
    true
}

/// The concatenation of two strings.
pub fn concat(a: &str, b: &str) -> (r: String)
    ensures
        r@ == a@ + b@,
{
    let mut r = owned(a);
    let vb = chars_of(b);
    let mut i: usize = 0;
    while i < vb.len()
        invariant
            vb@ == b@,
            i <= vb@.len(),
            r@ == a@ + vb@.take(i as int),
        decreases vb@.len() - i,
    {
        push_char(&mut r, vb[i]);
        i = i + 1;
        assert(r@ =~= a@ + vb@.take(i as int));
    }
    assert(vb@.take(vb@.len() as int) =~= vb@);
    r
}

/// `s` begins with `p`.
pub open spec fn has_prefix(s: Seq<char>, p: Seq<char>) -> bool {
    p.len() <= s.len() && s.take(p.len() as int) == p
}

/// Whether `s` begins with `p`.
pub fn starts_with(s: &str, p: &str) -> (r: bool)
    ensures
        r == has_prefix(s@, p@),
{
    let vs = chars_of(s);
    let vp = chars_of(p);
    assert(vs@.skip(0) =~= vs@);
    prefix_at(&vs, &vp, 0)
}

/// Whether `p` occurs in `s` at position `i`.
fn prefix_at(s: &Vec<char>, p: &Vec<char>, i: usize) -> (r: bool)
    requires
        i <= s@.len(),
    ensures
        r == has_prefix(s@.skip(i as int), p@),
{
    if p.len() > s.len() - i {
        return false;
    }
    let n = s.len();
    let mut k: usize = 0;
    while k < p.len()
        invariant
            n == s@.len(),
            i + p@.len() <= s@.len(),
            k <= p@.len(),
            forall|j: int| 0 <= j < k ==> s@[i + j] == p@[j],
        decreases p@.len() - k,
    {
        assert(i + k < s@.len());
        if s[i + k] != p[k] {
            assert(s@.skip(i as int).take(p@.len() as int)[k as int] != p@[k as int]);
            return false;
        }
        k = k + 1;
    }
    assert(s@.skip(i as int).take(p@.len() as int) =~= p@);
    true
}

/// `r` before each character of `s` and after the last: what replacing the
/// empty pattern gives.
pub open spec fn surround_each(s: Seq<char>, r: Seq<char>) -> Seq<char>
    decreases s.len(),
{
    if s.len() == 0 {
        r
    } else {
        r + seq![s[0]] + surround_each(s.skip(1), r)
    }
}

/// `s` with every occurrence of the pattern `p` replaced by `r`, occurrences
/// taken from left to right without overlap; the empty pattern occurs before
/// each character and at the end.
pub open spec fn replace_all(s: Seq<char>, p: Seq<char>, r: Seq<char>) -> Seq<char>
    decreases s.len(),
{
    if p.len() == 0 {
        surround_each(s, r)
    } else if s.len() < p.len() {
        s
    } else if s.take(p.len() as int) == p {
        r + replace_all(s.skip(p.len() as int), p, r)
    } else {
        seq![s[0]] + replace_all(s.skip(1), p, r)
    }
}

/// Appends the characters of `v` to `out`.
fn push_all(out: &mut Vec<char>, v: &Vec<char>)
    ensures
        final(out)@ == old(out)@ + v@,
{
    let mut k: usize = 0;
    let ghost before = out@;
    while k < v.len()
        invariant
            k <= v@.len(),
            out@ == before + v@.take(k as int),
        decreases v@.len() - k,
    {
        out.push(v[k]);
        k = k + 1;
        assert(out@ =~= before + v@.take(k as int));
    }
    assert(v@.take(v@.len() as int) =~= v@);
}

/// `r` before each character of `s` and after the last.
fn surround_chars(vs: &Vec<char>, vr: &Vec<char>) -> (out: Vec<char>)
    ensures
        out@ == surround_each(vs@, vr@),
{
    let mut out: Vec<char> = Vec::new();
    let mut i: usize = 0;
    assert(vs@.skip(0) =~= vs@);
    while i < vs.len()
        invariant
            i <= vs@.len(),
            surround_each(vs@, vr@) == out@ + surround_each(vs@.skip(i as int), vr@),
        decreases vs@.len() - i,
    {
        let ghost rest = vs@.skip(i as int);
        assert(rest.skip(1) =~= vs@.skip(i + 1));
        push_all(&mut out, vr);
        out.push(vs[i]);
        i = i + 1;
    }
    assert(vs@.skip(i as int) =~= Seq::<char>::empty());
    push_all(&mut out, vr);
    out
}

/// Replaces every occurrence of the pattern `p` in `s` by `r`, as
/// `str::replace` does.
pub fn replace(s: &str, p: &str, r: &str) -> (out: String)
    ensures
        out@ == replace_all(s@, p@, r@),
{
    let vs = chars_of(s);
    let vp = chars_of(p);
    let vr = chars_of(r);
    if vp.len() == 0 {
        let around = surround_chars(&vs, &vr);
        return string_from_chars(around.as_slice());
    }
    let mut out: Vec<char> = Vec::new();
    let mut i: usize = 0;
    assert(vs@.skip(0) =~= vs@);
    while i < vs.len()
        invariant
            vs@ == s@,
            vp@ == p@,
            vr@ == r@,
            vp@.len() > 0,
            i <= vs@.len(),
            replace_all(s@, p@, r@) == out@ + replace_all(vs@.skip(i as int), p@, r@),
        decreases vs@.len() - i,
    {
        let ghost rest = vs@.skip(i as int);
        if prefix_at(&vs, &vp, i) {
            let mut k: usize = 0;
            let ghost before = out@;
            while k < vr.len()
                invariant
                    k <= vr@.len(),
                    out@ == before + vr@.take(k as int),
                decreases vr@.len() - k,
            {
                out.push(vr[k]);
                k = k + 1;
                assert(out@ =~= before + vr@.take(k as int));
            }
            assert(vr@.take(vr@.len() as int) =~= vr@);
            assert(rest.skip(vp@.len() as int) =~= vs@.skip(i + vp@.len()));
            i = i + vp.len();
        } else {
            out.push(vs[i]);
            assert(rest.skip(1) =~= vs@.skip(i + 1));
            assert(rest =~= seq![vs@[i as int]] + rest.skip(1));
            i = i + 1;
        }
    }
    string_from_chars(out.as_slice())
}

/// The first `n` characters of `s`, or all of them where it has fewer.
pub open spec fn first_chars(s: Seq<char>, n: int) -> Seq<char> {
    if n >= s.len() {
        s
    } else {
        s.take(n)
    }
}

/// The first `n` characters of `s`, as `s.chars().take(n).collect()` gives them.
pub fn take_chars(s: &str, n: usize) -> (r: String)
    ensures
        r@ == first_chars(s@, n as int),
{
    let v = chars_of(s);
    let mut out = String::new();
    let mut i: usize = 0;
    while i < v.len() && i < n
        invariant
            v@ == s@,
            i <= v@.len(),
            i <= n,
            out@ == v@.take(i as int),
        decreases v@.len() - i,
    {
        push_char(&mut out, v[i]);
        i = i + 1;
        assert(out@ =~= v@.take(i as int));
    }
    assert(v@.take(v@.len() as int) =~= v@);
    out
}

/// Every character of `s` equal to `from` replaced by `to`.
pub open spec fn replace_char_all(s: Seq<char>, from: char, to: char) -> Seq<char> {
    s.map_values(|c: char| if c == from { to } else { c })
}

/// Replaces every character `from` in `s` by `to`, as `str::replace` does
/// with a `char` pattern.
pub fn replace_char(s: &str, from: char, to: char) -> (r: String)
    ensures
        r@ == replace_char_all(s@, from, to),
{
    let v = chars_of(s);
    let mut out = String::new();
    let mut i: usize = 0;
    while i < v.len()
        invariant
            v@ == s@,
            i <= v@.len(),
            out@ == replace_char_all(v@.take(i as int), from, to),
        decreases v@.len() - i,
    {
        let c = v[i];
        if c == from {
            push_char(&mut out, to);
        } else {
            push_char(&mut out, c);
        }
        i = i + 1;
        assert(out@ =~= replace_char_all(v@.take(i as int), from, to));
    }
    assert(v@.take(v@.len() as int) =~= v@);
    out
}

/// `s` with the prefix `p` removed as many times as it repeats at the
/// start, as `str::trim_start_matches` does; the empty prefix removes
/// nothing.
pub open spec fn trim_prefix_all(s: Seq<char>, p: Seq<char>) -> Seq<char>
    decreases s.len(),
{
    if p.len() > 0 && has_prefix(s, p) {
        trim_prefix_all(s.skip(p.len() as int), p)
    } else {
        s
    }
}

/// Removes every leading repetition of the pattern `p` from `s`.
pub fn trim_start_matches(s: &str, p: &str) -> (r: String)
    ensures
        r@ == trim_prefix_all(s@, p@),
{
    let v = chars_of(s);
    let vp = chars_of(p);
    if vp.len() == 0 {
        return owned(s);
    }
    let n = v.len();
    let mut i: usize = 0;
    assert(v@.skip(0) =~= v@);
    while prefix_at(&v, &vp, i)
        invariant
            n == v@.len(),
            v@ == s@,
            vp@ == p@,
            vp@.len() > 0,
            i <= v@.len(),
            trim_prefix_all(s@, p@) == trim_prefix_all(v@.skip(i as int), p@),
        decreases v@.len() - i,
    {
        assert(v@.skip(i as int).skip(vp@.len() as int) =~= v@.skip(i + vp@.len()));
        i = i + vp.len();
    }
    let mut out = String::new();
    let mut j: usize = i;
    while j < v.len()
        invariant
            i <= j <= v@.len(),
            out@ == v@.subrange(i as int, j as int),
        decreases v@.len() - j,
    {
        push_char(&mut out, v[j]);
        j = j + 1;
        assert(out@ =~= v@.subrange(i as int, j as int));
    }
    assert(v@.subrange(i as int, v@.len() as int) =~= v@.skip(i as int));
    out
}

/// A decimal digit.
pub open spec fn is_digit(c: char) -> bool {
    '0' <= c && c <= '9'
}

/// The value of a sequence of decimal digits, most significant first.
pub open spec fn decimal_value(d: Seq<char>) -> nat
    decreases d.len(),
{
    if d.len() == 0 {
        0
    } else {
        decimal_value(d.drop_last()) * 10 + (d.last() as nat - '0' as nat) as nat
    }
}

/// The digits that `usize::from_str` reads: the text after an optional `+`.
pub open spec fn unsigned_digits(s: Seq<char>) -> Seq<char> {
    if s.len() > 0 && s[0] == '+' {
        s.skip(1)
    } else {
        s
    }
}

/// What `s.parse::<usize>()` gives: the value of at least one decimal digit
/// after an optional `+`, where it fits in a `usize`, and nothing otherwise.
pub open spec fn parsed_usize(s: Seq<char>) -> Option<usize> {
    let d = unsigned_digits(s);
    if d.len() > 0 && (forall|i: int| 0 <= i < d.len() ==> is_digit(#[trigger] d[i]))
        && decimal_value(d) <= usize::MAX {
        Some(decimal_value(d) as usize)
    } else {
        None
    }
}

proof fn lemma_decimal_prefix_le(d: Seq<char>, k: int)
    requires
        0 <= k <= d.len(),
        forall|i: int| 0 <= i < d.len() ==> is_digit(#[trigger] d[i]),
    ensures
        decimal_value(d.take(k)) <= decimal_value(d),
    decreases d.len() - k,
{
    if k < d.len() {
        lemma_decimal_prefix_le(d, k + 1);
        assert(d.take(k + 1).drop_last() =~= d.take(k));
        assert(d.take(k + 1).last() == d[k]);
    } else {
        assert(d.take(k) =~= d);
    }
}

/// Reads a `usize` written in decimal, as `str::parse::<usize>` does.
pub fn parse_usize(s: &str) -> (r: Option<usize>)
    ensures
        r == parsed_usize(s@),
{
    let v = chars_of(s);
    let mut start: usize = 0;
    if v.len() > 0 && v[0] == '+' {
        start = 1;
    }
    let ghost d = unsigned_digits(s@);
    assert(d =~= v@.skip(start as int));
    if start >= v.len() {
        return None;
    }
    let mut value: usize = 0;
    let mut i: usize = start;
    while i < v.len()
        invariant
            v@ == s@,
            d == unsigned_digits(s@),
            d == v@.skip(start as int),
            start <= i <= v@.len(),
            start < v@.len(),
            forall|k: int| start <= k < i ==> is_digit(#[trigger] v@[k]),
            value == decimal_value(d.take(i - start)),
        decreases v@.len() - i,
    {
        let c = v[i];
        assert(d.take(i + 1 - start).drop_last() =~= d.take(i - start));
        assert(d.take(i + 1 - start).last() == c);
        if !('0' <= c && c <= '9') {
            assert(!is_digit(d[i - start]));
            return None;
        }
        let digit = (c as u32 - '0' as u32) as usize;
        match value.checked_mul(10) {
            Some(m) => match m.checked_add(digit) {
                Some(n) => {
                    value = n;
                },
                None => {
                    proof {
                        if forall|k: int| 0 <= k < d.len() ==> is_digit(#[trigger] d[k]) {
                            lemma_decimal_prefix_le(d, i + 1 - start);
                        }
                    }
                    return None;
                },
            },
            None => {
                proof {
                    if forall|k: int| 0 <= k < d.len() ==> is_digit(#[trigger] d[k]) {
                        lemma_decimal_prefix_le(d, i + 1 - start);
                    }
                }
                return None;
            },
        }
        i = i + 1;
    }
    assert(d.take(v@.len() - start) =~= d);
    Some(value)
}

/// A character with the Unicode `White_Space` property, which
/// `char::is_whitespace` tests.
pub open spec fn is_white_space(c: char) -> bool {
    ||| ('\u{9}' <= c && c <= '\u{d}')
    ||| c == ' '
    ||| c == '\u{85}'
    ||| c == '\u{a0}'
    ||| c == '\u{1680}'
    ||| ('\u{2000}' <= c && c <= '\u{200a}')
    ||| c == '\u{2028}'
    ||| c == '\u{2029}'
    ||| c == '\u{202f}'
    ||| c == '\u{205f}'
    ||| c == '\u{3000}'
}

fn white_space(c: char) -> (r: bool)
    ensures
        r == is_white_space(c),
{
    ('\u{9}' <= c && c <= '\u{d}') || c == ' ' || c == '\u{85}' || c == '\u{a0}' || c
        == '\u{1680}' || ('\u{2000}' <= c && c <= '\u{200a}') || c == '\u{2028}' || c
        == '\u{2029}' || c == '\u{202f}' || c == '\u{205f}' || c == '\u{3000}'
}

/// `s` without its leading white space.
pub open spec fn trim_start_ws(s: Seq<char>) -> Seq<char>
    decreases s.len(),
{
    if s.len() > 0 && is_white_space(s[0]) {
        trim_start_ws(s.skip(1))
    } else {
        s
    }
}

/// `s` without its trailing white space.
pub open spec fn trim_end_ws(s: Seq<char>) -> Seq<char>
    decreases s.len(),
{
    if s.len() > 0 && is_white_space(s.last()) {
        trim_end_ws(s.drop_last())
    } else {
        s
    }
}

/// `s` without leading and trailing white space, as `str::trim` gives it.
pub open spec fn trim_ws(s: Seq<char>) -> Seq<char> {
    trim_end_ws(trim_start_ws(s))
}

/// Removes leading and trailing white space.
pub fn trim(s: &str) -> (r: String)
    ensures
        r@ == trim_ws(s@),
{
    let v = chars_of(s);
    let mut a: usize = 0;
    assert(v@.skip(0) =~= v@);
    while a < v.len() && white_space(v[a])
        invariant
            v@ == s@,
            a <= v@.len(),
            trim_start_ws(s@) == trim_start_ws(v@.skip(a as int)),
        decreases v@.len() - a,
    {
        assert(v@.skip(a as int).skip(1) =~= v@.skip(a + 1));
        a = a + 1;
    }
    let mut b: usize = v.len();
    assert(v@.subrange(a as int, b as int) =~= v@.skip(a as int));
    while b > a && white_space(v[b - 1])
        invariant
            v@ == s@,
            a <= b <= v@.len(),
            trim_ws(s@) == trim_end_ws(v@.subrange(a as int, b as int)),
        decreases b - a,
    {
        assert(v@.subrange(a as int, b as int).drop_last() =~= v@.subrange(a as int, b - 1));
        b = b - 1;
    }
    let mut out = String::new();
    let mut j: usize = a;
    while j < b
        invariant
            a <= j <= b <= v@.len(),
            out@ == v@.subrange(a as int, j as int),
        decreases b - j,
    {
        push_char(&mut out, v[j]);
        j = j + 1;
        assert(out@ =~= v@.subrange(a as int, j as int));
    }
    out
}

/// The pieces of `s` between the occurrences of the pattern `p`, taken
/// from left to right without overlap, as `str::split` gives them; the
/// empty pattern gives an empty piece, each character, and an empty piece.
pub open spec fn split_all(s: Seq<char>, p: Seq<char>) -> Seq<Seq<char>>
    decreases s.len(),
{
    if p.len() == 0 {
        seq![Seq::<char>::empty()] + s.map_values(|c: char| seq![c]) + seq![Seq::<char>::empty()]
    } else if s.len() < p.len() {
        seq![s]
    } else if s.take(p.len() as int) == p {
        seq![Seq::<char>::empty()] + split_all(s.skip(p.len() as int), p)
    } else {
        let rest = split_all(s.skip(1), p);
        rest.update(0, seq![s[0]] + rest[0])
    }
}

proof fn lemma_split_nonempty(s: Seq<char>, p: Seq<char>)
    ensures
        split_all(s, p).len() >= 1,
    decreases s.len(),
{
    if p.len() == 0 || s.len() < p.len() {
    } else if s.take(p.len() as int) == p {
        lemma_split_nonempty(s.skip(p.len() as int), p);
    } else {
        lemma_split_nonempty(s.skip(1), p);
    }
}

/// Each character of `vs` as a string of its own, between two empty
/// strings: the pieces of splitting at the empty pattern.
fn split_chars(vs: &Vec<char>) -> (parts: Vec<String>)
    ensures
        parts@.len() == vs@.len() + 2,
        forall|i: int|
            0 <= i < parts@.len() ==> (#[trigger] parts@[i])@ == (seq![Seq::<char>::empty()]
                + vs@.map_values(|c: char| seq![c]) + seq![Seq::<char>::empty()])[i],
{
    let ghost whole = seq![Seq::<char>::empty()] + vs@.map_values(|c: char| seq![c]) + seq![
        Seq::<char>::empty(),
    ];
    let mut parts: Vec<String> = Vec::new();
    parts.push(String::new());
    let mut i: usize = 0;
    while i < vs.len()
        invariant
            i <= vs@.len(),
            whole == seq![Seq::<char>::empty()] + vs@.map_values(|c: char| seq![c]) + seq![
                Seq::<char>::empty(),
            ],
            parts@.len() == i + 1,
            forall|k: int| 0 <= k < parts@.len() ==> (#[trigger] parts@[k])@ == whole[k],
        decreases vs@.len() - i,
    {
        let mut one = String::new();
        push_char(&mut one, vs[i]);
        assert(one@ =~= seq![vs@[i as int]]);
        parts.push(one);
        i = i + 1;
    }
    parts.push(String::new());
    parts
}

/// Splits `s` at every occurrence of the pattern `p`, as `str::split` does.
pub fn split(s: &str, p: &str) -> (parts: Vec<String>)
    ensures
        parts@.len() == split_all(s@, p@).len(),
        forall|i: int| 0 <= i < parts@.len() ==> (#[trigger] parts@[i])@ == split_all(s@, p@)[i],
{
    let vs = chars_of(s);
    let vp = chars_of(p);
    if vp.len() == 0 {
        return split_chars(&vs);
    }
    // pieces found so far, and the piece being read
    let mut done: Vec<Vec<char>> = Vec::new();
    let mut cur: Vec<char> = Vec::new();
    let mut i: usize = 0;
    let ghost whole = split_all(s@, p@);
    assert(vs@.skip(0) =~= vs@);
    proof {
        lemma_split_nonempty(s@, p@);
    }
    while i < vs.len()
        invariant
            vs@ == s@,
            vp@ == p@,
            vp@.len() > 0,
            i <= vs@.len(),
            ({
                let rest = split_all(vs@.skip(i as int), p@);
                &&& rest.len() >= 1
                &&& whole == done@.map_values(|d: Vec<char>| d@) + seq![cur@ + rest[0]] + rest.skip(1)
            }),
        decreases vs@.len() - i,
    {
        let ghost rest = vs@.skip(i as int);
        proof {
            lemma_split_nonempty(rest, p@);
        }
        if prefix_at(&vs, &vp, i) {
            let ghost tail = split_all(rest.skip(p@.len() as int), p@);
            proof {
                lemma_split_nonempty(rest.skip(p@.len() as int), p@);
                assert(rest.skip(p@.len() as int) =~= vs@.skip(i + p@.len()));
            }
            let ghost old_done = done@.map_values(|d: Vec<char>| d@);
            let piece = cur;
            cur = Vec::new();
            done.push(piece);
            assert(done@.map_values(|d: Vec<char>| d@) =~= old_done.push(piece@));
            assert(split_all(rest, p@) == seq![Seq::<char>::empty()] + tail);
            assert(whole =~= done@.map_values(|d: Vec<char>| d@) + seq![cur@ + tail[0]] + tail.skip(1));
            i = i + vp.len();
        } else {
            let ghost tail = split_all(rest.skip(1), p@);
            proof {
                lemma_split_nonempty(rest.skip(1), p@);
                assert(rest.skip(1) =~= vs@.skip(i + 1));
                if !(p@.len() == 0 || rest.len() < p@.len()) {
                    assert(split_all(rest, p@) == tail.update(0, seq![rest[0]] + tail[0]));
                } else {
                    // too short to hold the pattern: every later piece is too short as well
                    assert(split_all(rest, p@) == seq![rest]);
                    assert(tail == seq![rest.skip(1)]);
                    assert(rest =~= seq![rest[0]] + rest.skip(1));
                }
            }
            let ghost old_cur = cur@;
            cur.push(vs[i]);
            assert(cur@ + tail[0] =~= old_cur + (seq![rest[0]] + tail[0]));
            assert(tail.skip(1) =~= tail.update(0, seq![rest[0]] + tail[0]).skip(1));
            i = i + 1;
        }
    }
    proof {
        assert(vs@.skip(i as int) =~= Seq::<char>::empty());
        assert(split_all(Seq::<char>::empty(), p@) == seq![Seq::<char>::empty()]);
    }
    done.push(cur);
    let mut parts: Vec<String> = Vec::new();
    let mut k: usize = 0;
    assert(whole =~= done@.map_values(|d: Vec<char>| d@));
    while k < done.len()
        invariant
            k <= done@.len(),
            whole == done@.map_values(|d: Vec<char>| d@),
            parts@.len() == k,
            forall|j: int| 0 <= j < k ==> (#[trigger] parts@[j])@ == whole[j],
        decreases done@.len() - k,
    {
        parts.push(string_from_chars(done[k].as_slice()));
        k = k + 1;
    }
    parts
}

/// `p` occurs in `s`.
pub open spec fn contains_seq(s: Seq<char>, p: Seq<char>) -> bool {
    exists|i: int| 0 <= i <= s.len() - p.len() && #[trigger] s.subrange(i, i + p.len()) == p
}

/// Replacing a non-empty pattern that does not occur leaves the text as it
/// is.
pub proof fn lemma_replace_absent(s: Seq<char>, p: Seq<char>, r: Seq<char>)
    requires
        p.len() > 0,
        !contains_seq(s, p),
    ensures
        replace_all(s, p, r) == s,
    decreases s.len(),
{
    if s.len() >= p.len() {
        assert(s.take(p.len() as int) != p) by {
            if s.take(p.len() as int) == p {
                assert(s.subrange(0, 0 + p.len() as int) =~= s.take(p.len() as int));
                assert(contains_seq(s, p));
            }
        }
        let t = s.skip(1);
        assert(!contains_seq(t, p)) by {
            if contains_seq(t, p) {
                let i = choose|i: int|
                    0 <= i <= t.len() - p.len() && #[trigger] t.subrange(i, i + p.len()) == p;
                assert(s.subrange(i + 1, i + 1 + p.len()) =~= t.subrange(i, i + p.len()));
            }
        }
        lemma_replace_absent(t, p, r);
        assert(seq![s[0]] + t =~= s);
    }
}

/// Replacing a non-empty text that is the whole of `s` gives the
/// replacement.
pub proof fn lemma_replace_whole(p: Seq<char>, r: Seq<char>)
    requires
        p.len() > 0,
    ensures
        replace_all(p, p, r) == r,
{
    assert(p.take(p.len() as int) =~= p);
    assert(p.skip(p.len() as int) =~= Seq::<char>::empty());
    assert(replace_all(Seq::<char>::empty(), p, r) == Seq::<char>::empty());
    assert(r + Seq::<char>::empty() =~= r);
}

/// Whether `p` occurs in `s`.
pub fn contains(s: &str, p: &str) -> (r: bool)
    ensures
        r == contains_seq(s@, p@),
{
    let vs = chars_of(s);
    let vp = chars_of(p);
    if vp.len() > vs.len() {
        return false;
    }
    let last = vs.len() - vp.len();
    let mut i: usize = 0;
    while i < last
        invariant
            vs@ == s@,
            vp@ == p@,
            last == vs@.len() - vp@.len(),
            i <= last,
            forall|k: int| 0 <= k < i ==> #[trigger] vs@.subrange(k, k + vp@.len()) != vp@,
        decreases last - i,
    {
        assert(vs@.skip(i as int).take(vp@.len() as int) =~= vs@.subrange(i as int, i + vp@.len()));
        if prefix_at(&vs, &vp, i) {
            return true;
        }
        i = i + 1;
    }
    assert(vs@.skip(last as int).take(vp@.len() as int) =~= vs@.subrange(last as int, last + vp@.len()));
    if prefix_at(&vs, &vp, last) {
        return true;
    }
    assert forall|k: int| 0 <= k <= vs@.len() - vp@.len() implies #[trigger] vs@.subrange(k, k + vp@.len()) != vp@ by {
        if k < last {
        } else {
            assert(k == last);
        }
    }
    false
}

} // verus!
