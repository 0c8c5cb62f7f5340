//! Character-level helpers shared by the encoders and decoders: conversion
//! between strings and character vectors, comparison, trimming, splitting and
//! the textual forms of integers.

use vstd::prelude::*;

verus! {

/// The characters of `s`, in order.
pub fn to_chars(s: &str) -> (r: Vec<char>)
    ensures
        r@ == s@,
{
    let mut out: Vec<char> = Vec::new();
    for c in it: s.chars()
        invariant
            it.seq() == s@,
            out@ == s@.take(it.index() as int),
    {
        out.push(c);
    }
    out
}

/// The string made of the characters `v[from..to]`.
pub(crate) fn from_chars(v: &[char], from: usize, to: usize) -> (r: String)
    requires
        from <= to <= v@.len(),
    ensures
        r@ == v@.subrange(from as int, to as int),
{
    let mut out = String::new();
    let mut i: usize = from;
    while i < to
        invariant
            from <= i <= to <= v@.len(),
            out@ == v@.subrange(from as int, i as int),
        decreases to - i,
    {
        out.push(v[i]);
        proof {
            assert(v@.subrange(from as int, i as int).push(v@[i as int]) =~= v@.subrange(
                from as int,
                i + 1,
            ));
        }
        i += 1;
    }
    out
}

/// Whether two character slices hold the same text.
pub fn chars_eq(a: &[char], b: &[char]) -> (r: bool)
    ensures
        r == (a@ == b@),
{
    if a.len() != b.len() {
        return false;
    }
    let mut i: usize = 0;
    while i < a.len()
        invariant
            i <= a@.len(),
            a@.len() == b@.len(),
            a@.take(i as int) == b@.take(i as int),
        decreases a.len() - i,
    {
        if a[i] != b[i] {
            return false;
        }
        proof {
            assert(a@.take(i + 1) =~= a@.take(i as int).push(a@[i as int]));
            assert(b@.take(i + 1) =~= b@.take(i as int).push(b@[i as int]));
        }
        i += 1;
    }
    proof {
        assert(a@.take(a@.len() as int) =~= a@);
        assert(b@.take(b@.len() as int) =~= b@);
    }
    true
}

/// Whether two strings hold the same text.
pub fn str_eq(a: &str, b: &str) -> (r: bool)
    ensures
        r == (a@ == b@),
{
    let x = to_chars(a);
    let y = to_chars(b);
    chars_eq(x.as_slice(), y.as_slice())
}

/// The characters with the Unicode property `White_Space`.
pub open spec fn is_space(c: char) -> bool {
    let u = c as u32;
    ||| 0x09 <= u <= 0x0D
    ||| u == 0x20
    ||| u == 0x85
    ||| u == 0xA0
    ||| u == 0x1680
    ||| 0x2000 <= u <= 0x200A
    ||| u == 0x2028
    ||| u == 0x2029
    ||| u == 0x202F
    ||| u == 0x205F
    ||| u == 0x3000
}

/// Executable form of [`is_space`].
pub fn space(c: char) -> (r: bool)
    ensures
        r == is_space(c),
{
    let u: u32 = c as u32;
    (0x09 <= u && u <= 0x0D) || u == 0x20 || u == 0x85 || u == 0xA0 || u == 0x1680 || (0x2000 <= u
        && u <= 0x200A) || u == 0x2028 || u == 0x2029 || u == 0x202F || u == 0x205F || u == 0x3000
}

/// Number of leading white-space characters of `s`.
pub open spec fn leading_spaces(s: Seq<char>) -> nat
    decreases s.len(),
{
    if s.len() > 0 && is_space(s[0]) {
        1 + leading_spaces(s.drop_first())
    } else {
        0
    }
}

/// Number of trailing white-space characters of `s`.
pub open spec fn trailing_spaces(s: Seq<char>) -> nat
    decreases s.len(),
{
    if s.len() > 0 && is_space(s.last()) {
        1 + trailing_spaces(s.drop_last())
    } else {
        0
    }
}

/// `s` without its leading and trailing white space.
pub open spec fn trimmed(s: Seq<char>) -> Seq<char> {
    let front = s.skip(leading_spaces(s) as int);
    front.take(front.len() - trailing_spaces(front))
}

/// The white space at the start ends at the first character that is none.
proof fn lemma_leading_spaces(s: Seq<char>, k: int)
    requires
        0 <= k <= s.len(),
        forall|i: int| 0 <= i < k ==> is_space(#[trigger] s[i]),
        k == s.len() || !is_space(s[k]),
    ensures
        leading_spaces(s) == k,
    decreases k,
{
    if k > 0 {
        let t = s.drop_first();
        assert forall|i: int| 0 <= i < k - 1 implies is_space(#[trigger] t[i]) by {
            assert(t[i] == s[i + 1]);
        }
        lemma_leading_spaces(t, k - 1);
    }
}

/// The white space at the end starts after the last character that is none.
proof fn lemma_trailing_spaces(s: Seq<char>, k: int)
    requires
        0 <= k <= s.len(),
        forall|i: int| s.len() - k <= i < s.len() ==> is_space(#[trigger] s[i]),
        k == s.len() || !is_space(s[s.len() - k - 1]),
    ensures
        trailing_spaces(s) == k,
    decreases k,
{
    if k > 0 {
        let t = s.drop_last();
        assert forall|i: int| t.len() - (k - 1) <= i < t.len() implies is_space(
            #[trigger] t[i],
        ) by {
            assert(t[i] == s[i]);
        }
        lemma_trailing_spaces(t, k - 1);
    }
}

/// `s` without the white space around it.
pub fn trim(s: &str) -> (r: String)
    ensures
        r@ == trimmed(s@),
{
    let v = to_chars(s);
    let n: usize = v.len();
    let mut a: usize = 0;
    while a < n && space(v[a])
        invariant
            a <= n == v@.len(),
            forall|i: int| 0 <= i < a ==> is_space(#[trigger] v@[i]),
        decreases n - a,
    {
        a += 1;
    }
    let mut b: usize = n;
    while b > a && space(v[b - 1])
        invariant
            a <= b <= n == v@.len(),
            forall|i: int| b <= i < n ==> is_space(#[trigger] v@[i]),
        decreases b,
    {
        b -= 1;
    }
    proof {
        lemma_leading_spaces(v@, a as int);
        let front = v@.skip(a as int);
        assert forall|i: int| front.len() - (n - b) <= i < front.len() implies is_space(
            #[trigger] front[i],
        ) by {
            assert(front[i] == v@[i + a]);
        }
        if b > a {
            assert(front[front.len() - (n - b) - 1] == v@[b - 1]);
        }
        lemma_trailing_spaces(front, (n - b) as int);
        assert(front.take(front.len() - (n - b)) =~= v@.subrange(a as int, b as int));
    }
    from_chars(v.as_slice(), a, b)
}

/// Position of the first occurrence of `pat` in `s` at or after `from`, or
/// `s.len()` if there is none.
pub open spec fn find_from(s: Seq<char>, pat: Seq<char>, from: int) -> int
    decreases s.len() - from,
{
    if from < 0 || from + pat.len() > s.len() {
        s.len() as int
    } else if s.subrange(from, from + pat.len()) == pat {
        from
    } else if from >= s.len() {
        s.len() as int
    } else {
        find_from(s, pat, from + 1)
    }
}

/// Position of the first occurrence of `pat` in `s`, or `s.len()` if there is
/// none.
pub open spec fn find(s: Seq<char>, pat: Seq<char>) -> int {
    find_from(s, pat, 0)
}

/// The part of `s` before the first occurrence of `pat` (the whole of `s` if
/// there is none).
pub open spec fn before_first(s: Seq<char>, pat: Seq<char>) -> Seq<char> {
    s.take(find(s, pat))
}

/// The part of `s` after the first occurrence of `pat` (empty if there is
/// none).
pub open spec fn after_first(s: Seq<char>, pat: Seq<char>) -> Seq<char> {
    if find(s, pat) + pat.len() <= s.len() {
        s.skip(find(s, pat) + pat.len())
    } else {
        Seq::empty()
    }
}

/// Whether `pat` stands in `s` at position `at`.
pub open spec fn occurs_at(s: Seq<char>, pat: Seq<char>, at: int) -> bool {
    0 <= at && at + pat.len() <= s.len() && s.subrange(at, at + pat.len()) == pat
}

/// What a search from `from` finds lies at or after `from`. The pattern
/// stands at no place between the two, and where the place found is within
/// the text, the pattern stands there.
pub proof fn lemma_find_from_first(s: Seq<char>, pat: Seq<char>, from: int)
    requires
        0 <= from <= s.len(),
    ensures
        from <= find_from(s, pat, from) <= s.len(),
        forall|at: int| from <= at < find_from(s, pat, from) ==> !occurs_at(s, pat, at),
        find_from(s, pat, from) < s.len() ==> occurs_at(s, pat, find_from(s, pat, from)),
    decreases s.len() - from,
{
    if from + pat.len() > s.len() {
    } else if s.subrange(from, from + pat.len()) == pat {
    } else if from >= s.len() {
    } else {
        lemma_find_from_first(s, pat, from + 1);
    }
}

/// A text is split at the first place where the pattern stands: the pattern
/// stands at no earlier place, and the two parts with the pattern between
/// them make up the text. Where nothing is found, the first part is the
/// whole text.
pub proof fn lemma_split_at_first(s: Seq<char>, pat: Seq<char>)
    ensures
        forall|at: int| 0 <= at < find(s, pat) ==> !occurs_at(s, pat, at),
        find(s, pat) < s.len() ==> before_first(s, pat) + pat + after_first(s, pat) == s,
        find(s, pat) == s.len() ==> before_first(s, pat) == s,
{
    lemma_find_from_first(s, pat, 0);
    let k = find(s, pat);
    if k < s.len() {
        assert(s.take(k) + s.subrange(k, k + pat.len()) + s.skip(k + pat.len()) =~= s);
    } else {
        assert(s.take(k) =~= s);
    }
}

/// Where the pattern stands, it is found.
proof fn lemma_find_hit(s: Seq<char>, pat: Seq<char>, at: int)
    requires
        0 <= at,
        at + pat.len() <= s.len(),
        s.subrange(at, at + pat.len()) == pat,
    ensures
        find_from(s, pat, at) == at,
{
}

/// Whether `pat` stands in `s` at position `at`.
fn matches_at(s: &[char], pat: &[char], at: usize) -> (r: bool)
    requires
        at + pat@.len() <= s@.len(),
    ensures
        r == (s@.subrange(at as int, at + pat@.len()) == pat@),
{
    let ghost window = s@.subrange(at as int, at + pat@.len());
    let n: usize = s.len();
    let mut j: usize = 0;
    while j < pat.len()
        invariant
            j <= pat@.len(),
            n == s@.len(),
            at + pat@.len() <= s@.len(),
            window == s@.subrange(at as int, at + pat@.len()),
            window.take(j as int) == pat@.take(j as int),
        decreases pat.len() - j,
    {
        if s[at + j] != pat[j] {
            proof {
                assert(window[j as int] != pat@[j as int]);
            }
            return false;
        }
        proof {
            assert(window.take(j + 1) =~= window.take(j as int).push(window[j as int]));
            assert(pat@.take(j + 1) =~= pat@.take(j as int).push(pat@[j as int]));
        }
        j += 1;
    }
    proof {
        assert(window.take(window.len() as int) =~= window);
        assert(pat@.take(pat@.len() as int) =~= pat@);
    }
    true
}

/// Splits `s` at the first occurrence of `pat`: the text before it and the
/// text after it. Without an occurrence the first part is `s` and the second
/// is empty.
pub fn split_first(s: &str, pat: &str) -> (r: (String, String))
    ensures
        r.0@ == before_first(s@, pat@),
        r.1@ == after_first(s@, pat@),
{
    let v = to_chars(s);
    let p = to_chars(pat);
    let n: usize = v.len();
    let m: usize = p.len();
    let mut i: usize = 0;
    while i < n && m <= n - i
        invariant
            i <= n == v@.len(),
            m == p@.len(),
            v@ == s@,
            p@ == pat@,
            find(v@, p@) == find_from(v@, p@, i as int),
        decreases n - i,
    {
        if matches_at(v.as_slice(), p.as_slice(), i) {
            proof {
                lemma_find_hit(v@, p@, i as int);
                assert(v@.subrange(0, i as int) =~= v@.take(i as int));
                assert(v@.subrange(i + m, n as int) =~= v@.skip(i + m));
            }
            let head = from_chars(v.as_slice(), 0, i);
            let tail = from_chars(v.as_slice(), i + m, n);
            return (head, tail);
        }
        i += 1;
    }
    proof {
        assert(v@.take(n as int) =~= v@);
        assert(v@.subrange(0, n as int) =~= v@);
        if i == n && m == 0 {
            // the only window left is the empty one at the end
            assert(v@.subrange(n as int, n as int) =~= p@);
            assert(v@.skip(n as int) =~= Seq::<char>::empty());
        }
    }
    let head = from_chars(v.as_slice(), 0, n);
    (head, String::new())
}

/// `s` with the first `limit` occurrences of the character `from` replaced by
/// `to`.
pub open spec fn replaced_first(s: Seq<char>, from: char, to: char, limit: nat) -> Seq<char>
    decreases s.len(),
{
    if s.len() == 0 {
        s
    } else if s[0] == from && limit > 0 {
        seq![to] + replaced_first(s.drop_first(), from, to, (limit - 1) as nat)
    } else {
        seq![s[0]] + replaced_first(s.drop_first(), from, to, limit)
    }
}

/// Replaces the first `limit` occurrences of `from` in `s` by `to`.
pub fn replace_first(s: &str, from: char, to: char, limit: usize) -> (r: String)
    ensures
        r@ == replaced_first(s@, from, to, limit as nat),
{
    let v = to_chars(s);
    let mut out = String::new();
    let mut left: usize = limit;
    let mut i: usize = 0;
    proof {
        assert(v@.skip(0) =~= v@);
        assert(out@ + replaced_first(v@, from, to, limit as nat) =~= replaced_first(
            v@,
            from,
            to,
            limit as nat,
        ));
    }
    while i < v.len()
        invariant
            i <= v@.len(),
            out@ + replaced_first(v@.skip(i as int), from, to, left as nat) == replaced_first(
                v@,
                from,
                to,
                limit as nat,
            ),
        decreases v.len() - i,
    {
        let ghost rest = v@.skip(i as int);
        let ghost before = out@;
        proof {
            assert(rest.drop_first() =~= v@.skip(i + 1));
            assert(rest[0] == v@[i as int]);
        }
        if v[i] == from && left > 0 {
            out.push(to);
            left -= 1;
            proof {
                assert(before.push(to) + replaced_first(v@.skip(i + 1), from, to, left as nat)
                    =~= before + (seq![to] + replaced_first(
                    rest.drop_first(),
                    from,
                    to,
                    left as nat,
                )));
            }
        } else {
            out.push(v[i]);
            proof {
                assert(before.push(v@[i as int]) + replaced_first(
                    v@.skip(i + 1),
                    from,
                    to,
                    left as nat,
                ) =~= before + (seq![rest[0]] + replaced_first(
                    rest.drop_first(),
                    from,
                    to,
                    left as nat,
                )));
            }
        }
        i += 1;
    }
    proof {
        assert(v@.skip(v@.len() as int) =~= Seq::<char>::empty());
        assert(out@ + Seq::<char>::empty() =~= out@);
    }
    out
}

/// The value of `c` as a digit in base `radix` (10 or 16), if it is one.
pub open spec fn digit_of(c: char, radix: int) -> Option<int> {
    let u = c as u32 as int;
    if 48 <= u <= 57 {
        Some(u - 48)
    } else if radix == 16 && 97 <= u <= 102 {
        Some(u - 87)
    } else if radix == 16 && 65 <= u <= 70 {
        Some(u - 55)
    } else {
        None
    }
}

/// The number that the digits `s` write in base `radix`, most significant
/// digit first; `None` if a character of `s` is no digit.
pub open spec fn digits_value(s: Seq<char>, radix: int) -> Option<nat>
    decreases s.len(),
{
    if s.len() == 0 {
        Some(0)
    } else {
        match (digits_value(s.drop_last(), radix), digit_of(s.last(), radix)) {
            (Some(high), Some(d)) => Some((high * radix + d) as nat),
            _ => None,
        }
    }
}

/// The number that `s` writes in base `radix`: an optional `+`, then at least
/// one digit.
pub open spec fn unsigned_value(s: Seq<char>, radix: int) -> Option<nat> {
    let body = if s.len() > 0 && s[0] == '+' {
        s.drop_first()
    } else {
        s
    };
    if body.len() == 0 {
        None
    } else {
        digits_value(body, radix)
    }
}

/// Whether `s` starts with `0x`.
pub open spec fn has_hex_prefix(s: Seq<char>) -> bool {
    s.len() >= 2 && s[0] == '0' && s[1] == 'x'
}

/// The counter that a cell's text `s` writes: a decimal number, or a
/// hexadecimal one after `0x`, that fits the machine word.
pub open spec fn count_value(s: Seq<char>) -> Option<usize> {
    if has_hex_prefix(s) {
        fitting(unsigned_value(s.skip(2), 16))
    } else {
        fitting(unsigned_value(s, 10))
    }
}

/// The number `v` as a machine word, if there is one and it fits.
pub open spec fn fitting(v: Option<nat>) -> Option<usize> {
    match v {
        Some(n) => if n <= usize::MAX {
            Some(n as usize)
        } else {
            None
        },
        None => None,
    }
}

/// A number's digits determine the numbers that its leading digits write,
/// none of which is larger.
pub proof fn lemma_digits_prefix(s: Seq<char>, radix: int, k: int)
    requires
        0 <= k <= s.len(),
        radix == 10 || radix == 16,
        digits_value(s, radix) is Some,
    ensures
        digits_value(s.take(k), radix) is Some,
        digits_value(s.take(k), radix)->0 <= digits_value(s, radix)->0,
    decreases s.len(),
{
    if k == s.len() {
        assert(s.take(k) =~= s);
    } else {
        let high = digits_value(s.drop_last(), radix)->0;
        lemma_digits_prefix(s.drop_last(), radix, k);
        assert(s.drop_last().take(k) =~= s.take(k));
        assert(high * radix >= high) by (nonlinear_arith)
            requires
                high >= 0,
                radix >= 1,
        ;
    }
}

/// Executable form of [`digit_of`].
fn digit(c: char, hex: bool) -> (r: Option<usize>)
    ensures
        r is Some <==> digit_of(c, if hex { 16 } else { 10 }) is Some,
        r matches Some(d) ==> d == digit_of(c, if hex { 16 } else { 10 })->0,
{
    let u: u32 = c as u32;
    if 48 <= u && u <= 57 {
        Some((u - 48) as usize)
    } else if hex && 97 <= u && u <= 102 {
        Some((u - 87) as usize)
    } else if hex && 65 <= u && u <= 70 {
        Some((u - 55) as usize)
    } else {
        None
    }
}

/// Appends the digit `d` to the number `acc`, unless the result would not fit.
fn shift_in(acc: usize, d: usize, hex: bool) -> (r: Option<usize>)
    requires
        d < 16,
    ensures
        r is Some <==> acc * (if hex { 16int } else { 10int }) + d <= usize::MAX,
        r matches Some(v) ==> v == acc * (if hex { 16int } else { 10int }) + d,
{
    if hex {
        if acc > (usize::MAX - d) / 16 {
            None
        } else {
            Some(acc * 16 + d)
        }
    } else {
        if acc > (usize::MAX - d) / 10 {
            None
        } else {
            Some(acc * 10 + d)
        }
    }
}

/// Reads a counter from the text of a cell.
pub fn parse_count(s: &str) -> (r: Option<usize>)
    ensures
        r == count_value(s@),
{
    let v = to_chars(s);
    let n: usize = v.len();
    let hex: bool = n >= 2 && v[0] == '0' && v[1] == 'x';
    let first: usize = if hex {
        2
    } else {
        0
    };
    let ghost radix: int = if hex {
        16
    } else {
        10
    };
    let ghost signed: Seq<char> = v@.skip(first as int);
    let start: usize = if first < n && v[first] == '+' {
        first + 1
    } else {
        first
    };
    let ghost body: Seq<char> = v@.skip(start as int);
    proof {
        assert(v@.skip(0) =~= v@);
        if first < n {
            assert(signed[0] == v@[first as int]);
        }
        if start > first {
            assert(signed.drop_first() =~= body);
        }
        assert(unsigned_value(signed, radix) == if body.len() == 0 {
            None
        } else {
            digits_value(body, radix)
        });
    }
    let mut i: usize = start;
    if start == n {
        return None;
    }
    let mut acc: usize = 0;
    proof {
        assert(body.take(0) =~= Seq::<char>::empty());
    }
    while i < n
        invariant
            start <= i <= n == v@.len(),
            body == v@.skip(start as int),
            radix == (if hex { 16int } else { 10int }),
            count_value(s@) == fitting(digits_value(body, radix)),
            digits_value(body.take(i - start), radix) == Some(acc as nat),
        decreases n - i,
    {
        let ghost prefix = body.take(i - start);
        let ghost next = body.take(i - start + 1);
        proof {
            assert(next.drop_last() =~= prefix);
            assert(next.last() == v@[i as int]);
        }
        match digit(v[i], hex) {
            None => {
                proof {
                    if digits_value(body, radix) is Some {
                        lemma_digits_prefix(body, radix, i - start + 1);
                    }
                }
                return None;
            },
            Some(d) => {
                match shift_in(acc, d, hex) {
                    None => {
                        proof {
                            if digits_value(body, radix) is Some {
                                lemma_digits_prefix(body, radix, i - start + 1);
                            }
                        }
                        return None;
                    },
                    Some(value) => {
                        acc = value;
                    },
                }
            },
        }
        i += 1;
    }
    proof {
        assert(body.take(n - start) =~= body);
    }
    Some(acc)
}

/// The character that writes the digit `d`.
pub open spec fn digit_char(d: int) -> char {
    if d == 0 {
        '0'
    } else if d == 1 {
        '1'
    } else if d == 2 {
        '2'
    } else if d == 3 {
        '3'
    } else if d == 4 {
        '4'
    } else if d == 5 {
        '5'
    } else if d == 6 {
        '6'
    } else if d == 7 {
        '7'
    } else if d == 8 {
        '8'
    } else {
        '9'
    }
}

/// The decimal digits of `n`, most significant first, without leading zeros.
pub open spec fn decimal_digits(n: nat) -> Seq<char>
    decreases n,
{
    if n < 10 {
        seq![digit_char(n as int)]
    } else {
        decimal_digits(n / 10).push(digit_char((n % 10) as int))
    }
}

/// The decimal text of `n`, with a leading `-` if it is negative.
pub open spec fn decimal(n: int) -> Seq<char> {
    if n < 0 {
        seq!['-'] + decimal_digits((-n) as nat)
    } else {
        decimal_digits(n as nat)
    }
}

/// Executable form of [`digit_char`].
fn digit_to_char(d: u64) -> (c: char)
    requires
        d < 10,
    ensures
        c == digit_char(d as int),
{
    if d == 0 {
        '0'
    } else if d == 1 {
        '1'
    } else if d == 2 {
        '2'
    } else if d == 3 {
        '3'
    } else if d == 4 {
        '4'
    } else if d == 5 {
        '5'
    } else if d == 6 {
        '6'
    } else if d == 7 {
        '7'
    } else if d == 8 {
        '8'
    } else {
        '9'
    }
}

/// Appends the decimal digits of `n` to `out`.
fn push_decimal_digits(out: &mut String, n: u64)
    ensures
        final(out)@ == old(out)@ + decimal_digits(n as nat),
{
    // the digits, least significant first
    let mut low: Vec<char> = Vec::new();
    let mut m: u64 = n;
    while m >= 10
        invariant
            decimal_digits(n as nat) == decimal_digits(m as nat) + low@.reverse(),
        decreases m,
    {
        let ghost before = low@;
        low.push(digit_to_char(m % 10));
        proof {
            assert(low@.reverse() =~= seq![digit_char((m % 10) as int)] + before.reverse());
            assert(decimal_digits(m as nat) == decimal_digits((m / 10) as nat).push(
                digit_char((m % 10) as int),
            ));
            assert(decimal_digits((m / 10) as nat).push(digit_char((m % 10) as int))
                + before.reverse() =~= decimal_digits((m / 10) as nat) + low@.reverse());
        }
        m = m / 10;
    }
    proof {
        assert(decimal_digits(n as nat) =~= decimal_digits(m as nat) + low@.reverse()) by {
            if low@.len() == 0 {
                assert(low@.reverse() =~= Seq::<char>::empty());
            }
        }
    }
    out.push(digit_to_char(m));
    let ghost head = out@;
    let ghost tail = low@.reverse();
    let mut k: usize = low.len();
    while k > 0
        invariant
            k <= low@.len(),
            tail == low@.reverse(),
            out@ == head + tail.take(low@.len() - k),
        decreases k,
    {
        k -= 1;
        let ghost before = out@;
        out.push(low[k]);
        proof {
            assert(tail[low@.len() - k - 1] == low@[k as int]);
            assert(tail.take(low@.len() - k) =~= tail.take(low@.len() - k - 1).push(
                low@[k as int],
            ));
            assert(out@ =~= head + tail.take(low@.len() - k));
        }
    }
    proof {
        assert(tail.take(low@.len() as int) =~= tail);
        assert(head =~= old(out)@ + decimal_digits(m as nat));
        assert(out@ =~= old(out)@ + (decimal_digits(m as nat) + tail));
    }
}

/// The decimal text of an unsigned number.
pub fn unsigned_to_string(n: u64) -> (r: String)
    ensures
        r@ == decimal(n as int),
{
    let mut out = String::new();
    push_decimal_digits(&mut out, n);
    proof {
        assert(Seq::<char>::empty() + decimal_digits(n as nat) =~= decimal_digits(n as nat));
    }
    out
}

/// The decimal text of a signed number.
pub fn signed_to_string(n: i64) -> (r: String)
    ensures
        r@ == decimal(n as int),
{
    if n >= 0 {
        unsigned_to_string(n as u64)
    } else {
        let mut out = String::new();
        out.push('-');
        // the magnitude of the smallest number does not fit the signed type
        let magnitude: u64 = ((-(n + 1)) as u64) + 1;
        push_decimal_digits(&mut out, magnitude);
        proof {
            assert(out@ =~= seq!['-'] + decimal_digits((-n) as nat));
        }
        out
    }
}

} // verus!
